//! A single named [`Check`], the [`BodyEvent`] its body ends with, and the
//! [`CheckOutcome`] recorded for it.

use vstd::prelude::*;
use vstd::string::*;

use crate::result::CheckResult;
use crate::status::Status;
use crate::string_map::StringMap;
use crate::text::{decimal, decimal_string};

verus! {

/// Whether a check is critical to the service's readiness.
#[derive(Debug, Clone, Copy, PartialEq, Eq, Structural)]
pub enum Critical {
    /// A [`Status::Down`] result fails the whole report.
    Yes,
    /// A [`Status::Down`] result only degrades the report.
    No,
}

impl Critical {
    /// Whether this marks the check as critical.
    pub fn is_critical(self) -> (r: bool)
        ensures
            r == (self == Critical::Yes),
    {
        match self {
            Critical::Yes => true,
            Critical::No => false,
        }
    }
}

/// The criticality a flag stands for.
pub open spec fn critical_of(value: bool) -> Critical {
    if value {
        Critical::Yes
    } else {
        Critical::No
    }
}

/// A flag and a criticality convert into each other without loss.
pub proof fn lemma_critical_round_trip(value: bool, c: Critical)
    ensures
        (critical_of(value) == Critical::Yes) == value,
        critical_of(c == Critical::Yes) == c,
{
}

impl From<bool> for Critical {
    fn from(value: bool) -> (r: Critical) {
        if value {
            Critical::Yes
        } else {
            Critical::No
        }
    }
}

impl vstd::std_specs::convert::FromSpecImpl<bool> for Critical {
    open spec fn obeys_from_spec() -> bool {
        true
    }

    open spec fn from_spec(value: bool) -> Critical {
        critical_of(value)
    }
}

/// How long a check may run before it is considered down: whole seconds and
/// a nanosecond part below one second.
#[derive(Debug, Clone, Copy, PartialEq, Eq)]
pub struct Timeout {
    secs: u64,
    nanos: u32,
}

/// Nanoseconds in a second.
pub const NANOS_PER_SEC: u32 = 1_000_000_000;

/// The length of a timeout in whole milliseconds (rounded down).
pub open spec fn millis_of(t: (u64, u32)) -> nat {
    (t.0 * 1000 + t.1 / 1_000_000) as nat
}

/// A timeout of zero length.
pub open spec fn is_zero_length(t: (u64, u32)) -> bool {
    t.0 == 0 && t.1 == 0
}

/// A timeout's whole milliseconds are its total nanoseconds divided by a
/// million, rounded down.
pub proof fn lemma_millis_of_nanos(t: (u64, u32))
    ensures
        millis_of(t) == (t.0 as int * 1_000_000_000 + t.1 as int) / 1_000_000,
{
    let s = t.0 as int;
    let n = t.1 as int;
    assert((s * 1_000_000_000 + n) / 1_000_000 == s * 1000 + n / 1_000_000) by (nonlinear_arith)
        requires
            s >= 0,
            n >= 0,
    {
        assert(s * 1_000_000_000 == (s * 1000) * 1_000_000);
    }
}

/// A timeout has zero length exactly when it has no whole seconds and no
/// nanoseconds, that is, when it lasts no time at all; a timeout of any
/// positive length is not zero.
pub proof fn lemma_zero_length_is_no_time(t: (u64, u32))
    ensures
        is_zero_length(t) <==> (t.0 == 0 && t.1 == 0),
        is_zero_length(t) <==> t.0 as int * 1_000_000_000 + t.1 as int == 0,
        t.0 > 0 ==> !is_zero_length(t),
        t.1 > 0 ==> !is_zero_length(t),
{
}

impl View for Timeout {
    type V = (u64, u32);

    closed spec fn view(&self) -> (u64, u32) {
        (self.secs, self.nanos)
    }
}

impl Timeout {
    #[verifier::type_invariant]
    spec fn nanos_below_a_second(self) -> bool {
        self.nanos < NANOS_PER_SEC
    }

    /// The nanosecond part is always below one second.
    pub fn subsec_nanos(&self) -> (r: u32)
        ensures
            r == self@.1,
            r < NANOS_PER_SEC,
    {
        proof {
            use_type_invariant(self);
        }
        self.nanos
    }

    /// The whole seconds.
    pub fn as_secs(&self) -> (r: u64)
        ensures
            r == self@.0,
    {
        self.secs
    }

    /// A timeout of `secs` seconds.
    pub fn from_secs(secs: u64) -> (r: Timeout)
        ensures
            r@ == (secs, 0u32),
    {
        Timeout { secs, nanos: 0 }
    }

    /// A timeout of `millis` milliseconds.
    pub fn from_millis(millis: u64) -> (r: Timeout)
        ensures
            r@.0 == millis / 1000,
            r@.1 == (millis % 1000) * 1_000_000,
            millis_of(r@) == millis,
    {
        let nanos = ((millis % 1000) as u32) * 1_000_000;
        Timeout { secs: millis / 1000, nanos }
    }

    /// A timeout of `secs` seconds and `nanos` nanoseconds; whole seconds in
    /// `nanos` carry into the seconds.
    pub fn new(secs: u64, nanos: u32) -> (r: Timeout)
        requires
            secs + nanos / NANOS_PER_SEC <= u64::MAX,
        ensures
            r@.0 == secs + nanos / NANOS_PER_SEC,
            r@.1 == nanos % NANOS_PER_SEC,
    {
        Timeout { secs: secs + (nanos / NANOS_PER_SEC) as u64, nanos: nanos % NANOS_PER_SEC }
    }

    /// Whether the timeout has zero length.
    pub fn is_zero(&self) -> (r: bool)
        ensures
            r == is_zero_length(self@),
    {
        self.secs == 0 && self.nanos == 0
    }

    /// The timeout in whole milliseconds (rounded down).
    pub fn as_millis(&self) -> (r: u128)
        ensures
            r == millis_of(self@),
    {
        (self.secs as u128) * 1000 + (self.nanos / 1_000_000) as u128
    }
}

/// A single named health check with its body, which the library only carries.
#[derive(Debug)]
pub struct Check<B> {
    /// Unique, human-readable identifier.
    pub name: String,
    /// When critical, a [`Status::Down`] result fails the whole report; when
    /// not, it only degrades it.
    pub critical: bool,
    /// The check is considered down if it does not finish within this time.
    pub timeout: Timeout,
    /// The check body.
    pub body: B,
}

/// How a run of a check body ended.
#[derive(Debug)]
pub enum BodyEvent {
    /// The body returned this result in time.
    Finished(CheckResult),
    /// The body did not finish within the check's timeout.
    TimedOut,
    /// The body panicked, with the panic's text when it carried one.
    Panicked(Option<String>),
}

/// The recorded result of running a [`Check`].
#[derive(Debug, Clone, PartialEq, Eq)]
pub struct CheckOutcome {
    /// The check's unique name.
    pub name: String,
    /// Whether the check is critical to readiness.
    pub critical: bool,
    /// The status the check reported (or `Down` for a timeout or panic).
    pub status: Status,
    /// An optional explanation.
    pub message: Option<String>,
    /// Any detail the check carried.
    pub details: StringMap,
    /// Wall-clock time the check took, in milliseconds.
    pub duration_ms: u64,
}

/// The message of a check that timed out.
pub open spec fn timeout_text(t: (u64, u32)) -> Seq<char> {
    "timed out after "@ + decimal(millis_of(t)) + "ms"@
}

/// The message of a check whose body panicked.
pub open spec fn panic_text(payload: Option<String>) -> Seq<char> {
    match payload {
        Some(s) => s@,
        None => "panicked"@,
    }
}

/// The message of a check that timed out after `t`.
pub fn timeout_message(t: &Timeout) -> (r: String)
    ensures
        r@ == timeout_text(t@),
{
    let mut s = String::from_str("timed out after ");
    let digits = decimal_string(t.as_millis());
    s.append(digits.as_str());
    s.append("ms");
    s
}

/// The message for a panic: its text, or `"panicked"` when it carried none.
pub fn panic_message(payload: Option<String>) -> (r: String)
    ensures
        r@ == panic_text(payload),
{
    match payload {
        Some(s) => s,
        None => String::from_str("panicked"),
    }
}

/// What a check reports for how its body ended: the body's own result, or a
/// down result for a timeout or a panic.
pub open spec fn event_status(event: BodyEvent) -> Status {
    match event {
        BodyEvent::Finished(r) => r.status,
        _ => Status::Down,
    }
}

/// `o` is what check `c` records when its body ended with `event` after
/// `duration_ms` milliseconds: the check's name and criticality, the body's
/// own status, message and details, or `Down` with an explaining message for a
/// timeout or a panic.
pub open spec fn settled<B>(c: Check<B>, event: BodyEvent, duration_ms: u64, o: CheckOutcome) -> bool {
    &&& o.name == c.name
    &&& o.critical == c.critical
    &&& o.duration_ms == duration_ms
    &&& o.status == event_status(event)
    &&& match event {
        BodyEvent::Finished(r) => o.message == r.message && o.details@ == r.details@,
        BodyEvent::TimedOut => (o.message matches Some(m) && m@ == timeout_text(c.timeout@))
            && o.details@.len() == 0,
        BodyEvent::Panicked(p) => (o.message matches Some(m) && m@ == panic_text(p))
            && o.details@.len() == 0,
    }
}

impl<B> Check<B> {
    /// Record the outcome of this check, given how its body ended and how
    /// long the run took. A timeout or a panic becomes a [`Status::Down`]
    /// outcome with an explaining message.
    pub fn settle(&self, event: BodyEvent, duration_ms: u64) -> (o: CheckOutcome)
        ensures
            settled(*self, event, duration_ms, o),
    {
        let result = match event {
            BodyEvent::Finished(r) => r,
            BodyEvent::TimedOut => {
                let m = timeout_message(&self.timeout);
                CheckResult { status: Status::Down, message: Some(m), details: StringMap::new() }
            },
            BodyEvent::Panicked(p) => {
                let m = panic_message(p);
                CheckResult { status: Status::Down, message: Some(m), details: StringMap::new() }
            },
        };
        CheckOutcome {
            name: self.name.clone(),
            critical: self.critical,
            status: result.status,
            message: result.message,
            details: result.details,
            duration_ms,
        }
    }
}

} // verus!
