//! The [`HealthRegistryBuilder`] that declares checks, the validation that
//! freezes them into a [`HealthRegistry`], and the report of one run.

use vstd::prelude::*;
use vstd::string::*;

use crate::check::{is_zero_length, lemma_zero_length_is_no_time, settled, BodyEvent, Check, CheckOutcome, Critical, Timeout};
use crate::debug_text::{debug_str, joined, lemma_joined_step, str_debug};
use crate::report::{lemma_overall_cases, overall_status, HealthReport};
use crate::status::Status;
use crate::text::{is_blank, is_blank_text, is_white_space};

verus! {

/// Default per-check timeout, in seconds, when none is given.
pub const DEFAULT_TIMEOUT_SECS: u64 = 5;

/// The default per-check timeout.
pub fn default_timeout() -> (r: Timeout)
    ensures
        r@ == (DEFAULT_TIMEOUT_SECS, 0u32),
{
    Timeout::from_secs(DEFAULT_TIMEOUT_SECS)
}

/// The error returned by [`HealthRegistryBuilder::build`] when the declared
/// checks are invalid.
#[derive(Debug, Clone, PartialEq, Eq)]
pub enum BuildError {
    /// Two checks were declared with the same name.
    DuplicateName(String),
    /// A check was declared with a blank name.
    BlankName,
    /// A check was declared with a zero timeout.
    NonPositiveTimeout(String),
}

/// The human-readable text of a build error.
pub open spec fn build_error_text(e: BuildError) -> Seq<char> {
    match e {
        BuildError::DuplicateName(name) => "duplicate check name: "@ + name@,
        BuildError::BlankName => "check name must not be blank"@,
        BuildError::NonPositiveTimeout(name) => "timeout for '"@ + name@ + "' must be positive"@,
    }
}

impl BuildError {
    /// The human-readable text of the error.
    pub fn to_string(&self) -> (r: String)
        ensures
            r@ == build_error_text(*self),
    {
        match self {
            BuildError::DuplicateName(name) => {
                let mut s = String::from_str("duplicate check name: ");
                s.append(name.as_str());
                s
            },
            BuildError::BlankName => String::from_str("check name must not be blank"),
            BuildError::NonPositiveTimeout(name) => {
                let mut s = String::from_str("timeout for '");
                s.append(name.as_str());
                s.append("' must be positive");
                s
            },
        }
    }
}

/// What makes a declared check invalid.
#[derive(Debug, Clone, Copy, PartialEq, Eq, Structural)]
pub enum Problem {
    /// Its name is blank.
    BlankName,
    /// Its timeout is zero.
    ZeroTimeout,
    /// An earlier check has the same name.
    DuplicateName,
}

/// The problem with the `i`-th check of `cs`, if any; a blank name is
/// reported before a zero timeout, and that before a repeated name.
pub open spec fn problem_at<B>(cs: Seq<Check<B>>, i: int) -> Option<Problem> {
    if is_blank_text(cs[i].name@) {
        Some(Problem::BlankName)
    } else if is_zero_length(cs[i].timeout@) {
        Some(Problem::ZeroTimeout)
    } else if exists|j: int| 0 <= j < i && #[trigger] cs[j].name@ == cs[i].name@ {
        Some(Problem::DuplicateName)
    } else {
        None
    }
}

/// The first check of `cs` that has a problem, with that problem.
pub open spec fn first_problem<B>(cs: Seq<Check<B>>) -> Option<(int, Problem)>
    decreases cs.len(),
{
    if cs.len() == 0 {
        None
    } else {
        match first_problem(cs.drop_last()) {
            Some(p) => Some(p),
            None => match problem_at(cs, cs.len() - 1) {
                Some(k) => Some((cs.len() - 1, k)),
                None => None,
            },
        }
    }
}

/// Every check has a non-blank name, a non-zero timeout and a name no other
/// check has.
pub open spec fn valid_checks<B>(cs: Seq<Check<B>>) -> bool {
    &&& forall|i: int| 0 <= i < cs.len() ==> !is_blank_text(#[trigger] cs[i].name@)
    &&& forall|i: int| 0 <= i < cs.len() ==> !is_zero_length(#[trigger] cs[i].timeout@)
    &&& forall|i: int, j: int| 0 <= i < j < cs.len() ==> #[trigger] cs[i].name@ != #[trigger] cs[j].name@
}

/// The error `build` reports for `problem` at check `c`.
pub open spec fn error_for<B>(c: Check<B>, problem: Problem, e: BuildError) -> bool {
    match problem {
        Problem::BlankName => e == BuildError::BlankName,
        Problem::ZeroTimeout => e matches BuildError::NonPositiveTimeout(n) && n@ == c.name@,
        Problem::DuplicateName => e matches BuildError::DuplicateName(n) && n@ == c.name@,
    }
}

proof fn lemma_problem_prefix<B>(cs: Seq<Check<B>>, i: int, k: int)
    requires
        0 <= i < k <= cs.len(),
    ensures
        problem_at(cs.take(k), i) == problem_at(cs, i),
{
    let t = cs.take(k);
    assert(t[i] == cs[i]);
    if exists|j: int| 0 <= j < i && #[trigger] cs[j].name@ == cs[i].name@ {
        let j = choose|j: int| 0 <= j < i && #[trigger] cs[j].name@ == cs[i].name@;
        assert(t[j] == cs[j]);
    }
    if exists|j: int| 0 <= j < i && #[trigger] t[j].name@ == t[i].name@ {
        let j = choose|j: int| 0 <= j < i && #[trigger] t[j].name@ == t[i].name@;
        assert(t[j] == cs[j]);
    }
}

proof fn lemma_first_problem_step<B>(cs: Seq<Check<B>>, i: int)
    requires
        0 <= i < cs.len(),
        first_problem(cs.take(i)) is None,
    ensures
        first_problem(cs.take(i + 1)) == match problem_at(cs, i) {
            Some(k) => Some((i, k)),
            None => None,
        },
{
    assert(cs.take(i + 1).drop_last() =~= cs.take(i));
    lemma_problem_prefix(cs, i, i + 1);
}

/// A list of checks has no problem exactly when it is valid.
pub proof fn lemma_no_problem_iff_valid<B>(cs: Seq<Check<B>>)
    ensures
        first_problem(cs) is None <==> valid_checks(cs),
    decreases cs.len(),
{
    if cs.len() > 0 {
        let p = cs.drop_last();
        let n = cs.len() - 1;
        lemma_no_problem_iff_valid(p);
        lemma_problem_prefix(cs, n, cs.len() as int);
        assert(cs.take(cs.len() as int) =~= cs);
        if valid_checks(cs) {
            assert(valid_checks(p)) by {
                assert forall|i: int, j: int| 0 <= i < j < p.len() implies #[trigger] p[i].name@ != #[trigger] p[j].name@ by {
                    assert(p[i] == cs[i] && p[j] == cs[j]);
                }
                assert forall|i: int| 0 <= i < p.len() implies !is_blank_text(#[trigger] p[i].name@) by {
                    assert(p[i] == cs[i]);
                }
                assert forall|i: int| 0 <= i < p.len() implies !is_zero_length(#[trigger] p[i].timeout@) by {
                    assert(p[i] == cs[i]);
                }
            }
            assert(!is_blank_text(cs[n].name@));
            assert(!is_zero_length(cs[n].timeout@));
            assert(!exists|j: int| 0 <= j < n && #[trigger] cs[j].name@ == cs[n].name@);
        }
        if first_problem(cs) is None {
            assert(valid_checks(p));
            assert(problem_at(cs, n) is None);
            assert forall|i: int, j: int| 0 <= i < j < cs.len() implies #[trigger] cs[i].name@ != #[trigger] cs[j].name@ by {
                if j < n {
                    assert(p[i] == cs[i] && p[j] == cs[j]);
                }
            }
            assert forall|i: int| 0 <= i < cs.len() implies !is_blank_text(#[trigger] cs[i].name@) by {
                if i < n {
                    assert(p[i] == cs[i]);
                }
            }
            assert forall|i: int| 0 <= i < cs.len() implies !is_zero_length(#[trigger] cs[i].timeout@) by {
                if i < n {
                    assert(p[i] == cs[i]);
                }
            }
        }
    }
}

/// Some character of `s` is not whitespace.
pub open spec fn has_non_white_space(s: Seq<char>) -> bool {
    exists|j: int| 0 <= j < s.len() && !is_white_space(#[trigger] s[j])
}

/// `build` accepts a list of checks exactly when every name has a character
/// other than whitespace, every timeout lasts some time (a whole second or a
/// nanosecond at least), and no two checks share a name.
pub proof fn lemma_build_accepts<B>(cs: Seq<Check<B>>)
    ensures
        first_problem(cs) is None <==> {
            &&& forall|i: int| 0 <= i < cs.len() ==> has_non_white_space(#[trigger] cs[i].name@)
            &&& forall|i: int| 0 <= i < cs.len() ==> (#[trigger] cs[i].timeout@.0 != 0 || cs[i].timeout@.1 != 0)
            &&& forall|i: int, j: int| 0 <= i < j < cs.len() ==> #[trigger] cs[i].name@ != #[trigger] cs[j].name@
        },
{
    lemma_no_problem_iff_valid(cs);
    assert forall|i: int| 0 <= i < cs.len() implies (#[trigger] cs[i].timeout@.0 != 0 || cs[i].timeout@.1 != 0)
        <==> !is_zero_length(cs[i].timeout@) by {
        lemma_zero_length_is_no_time(cs[i].timeout@);
    }
    assert forall|i: int| 0 <= i < cs.len() implies has_non_white_space(#[trigger] cs[i].name@) <==> !is_blank_text(
        cs[i].name@,
    ) by {}
}

/// Builder for a [`HealthRegistry`]. Declarations are not checked until
/// [`build`](Self::build), so the chain of declarations cannot fail.
#[derive(Debug)]
pub struct HealthRegistryBuilder<B> {
    checks: Vec<Check<B>>,
}

impl<B> View for HealthRegistryBuilder<B> {
    type V = Seq<Check<B>>;

    closed spec fn view(&self) -> Seq<Check<B>> {
        self.checks@
    }
}

/// An immutable, valid set of health checks, in declaration order.
#[derive(Debug)]
pub struct HealthRegistry<B> {
    checks: Vec<Check<B>>,
}

impl<B> View for HealthRegistry<B> {
    type V = Seq<Check<B>>;

    closed spec fn view(&self) -> Seq<Check<B>> {
        self.checks@
    }
}

/// `cs` is `before` with one more check declared at its end.
pub open spec fn declared<B>(
    before: Seq<Check<B>>,
    cs: Seq<Check<B>>,
    name: Seq<char>,
    critical: bool,
    timeout: (u64, u32),
    body: B,
) -> bool {
    &&& cs.len() == before.len() + 1
    &&& cs.take(before.len() as int) == before
    &&& cs.last().name@ == name
    &&& cs.last().critical == critical
    &&& cs.last().timeout@ == timeout
    &&& cs.last().body == body
}

impl<B> HealthRegistryBuilder<B> {
    fn new() -> (r: Self)
        ensures
            r@ == Seq::<Check<B>>::empty(),
    {
        HealthRegistryBuilder { checks: Vec::new() }
    }

    /// Declare a check.
    pub fn check(self, name: &str, critical: Critical, timeout: Timeout, body: B) -> (r: Self)
        ensures
            declared(self@, r@, name@, critical == Critical::Yes, timeout@, body),
    {
        let mut checks = self.checks;
        let ghost before = checks@;
        let c = Check { name: String::from_str(name), critical: critical.is_critical(), timeout, body };
        checks.push(c);
        assert(checks@.take(before.len() as int) =~= before);
        HealthRegistryBuilder { checks }
    }

    /// Declare a non-critical check with the default timeout.
    pub fn check_default(self, name: &str, body: B) -> (r: Self)
        ensures
            declared(self@, r@, name@, false, (DEFAULT_TIMEOUT_SECS, 0u32), body),
    {
        self.check(name, Critical::No, default_timeout(), body)
    }

    /// Validate the declared checks and freeze them into a
    /// [`HealthRegistry`]. Checks are examined in declaration order and the
    /// first problem found is reported: a blank name, then a zero timeout,
    /// then a name an earlier check already has.
    pub fn build(self) -> (r: Result<HealthRegistry<B>, BuildError>)
        ensures
            match r {
                Ok(registry) => first_problem(self@) is None && registry@ == self@,
                Err(e) => first_problem(self@) matches Some((i, k)) && error_for(self@[i], k, e),
            },
    {
        let ghost cs = self.checks@;
        let n = self.checks.len();
        let mut i: usize = 0;
        assert(cs.take(0) =~= Seq::<Check<B>>::empty());
        while i < n
            invariant
                n == cs.len(),
                cs == self.checks@,
                i <= n,
                first_problem(cs.take(i as int)) is None,
            decreases n - i,
        {
            proof {
                lemma_first_problem_step(cs, i as int);
            }
            if is_blank(self.checks[i].name.as_str()) {
                proof { lemma_first_problem_extends(cs, i as int + 1); }
                return Err(BuildError::BlankName);
            }
            if self.checks[i].timeout.is_zero() {
                proof { lemma_first_problem_extends(cs, i as int + 1); }
                return Err(BuildError::NonPositiveTimeout(self.checks[i].name.clone()));
            }
            if Self::named_before(&self.checks, i) {
                proof { lemma_first_problem_extends(cs, i as int + 1); }
                return Err(BuildError::DuplicateName(self.checks[i].name.clone()));
            }
            i = i + 1;
        }
        assert(cs.take(n as int) =~= cs);
        proof {
            lemma_no_problem_iff_valid(cs);
        }
        Ok(HealthRegistry { checks: self.checks })
    }

    /// Whether a check before the `i`-th has the same name.
    fn named_before(checks: &Vec<Check<B>>, i: usize) -> (r: bool)
        requires
            i < checks@.len(),
        ensures
            r == exists|j: int| 0 <= j < i && #[trigger] checks@[j].name@ == checks@[i as int].name@,
    {
        let mut j: usize = 0;
        while j < i
            invariant
                i < checks@.len(),
                j <= i,
                forall|k: int| 0 <= k < j ==> #[trigger] checks@[k].name@ != checks@[i as int].name@,
            decreases i - j,
        {
            if checks[j].name == checks[i].name {
                return true;
            }
            j = j + 1;
        }
        false
    }
}

/// A first problem within a prefix is the first problem of the whole list.
proof fn lemma_first_problem_extends<B>(cs: Seq<Check<B>>, k: int)
    requires
        0 <= k <= cs.len(),
        first_problem(cs.take(k)) is Some,
    ensures
        first_problem(cs) == first_problem(cs.take(k)),
    decreases cs.len() - k,
{
    if k < cs.len() {
        assert(cs.take(k + 1).drop_last() =~= cs.take(k));
        lemma_first_problem_extends(cs, k + 1);
    } else {
        assert(cs.take(k) =~= cs);
    }
}

impl<B> HealthRegistry<B> {
    #[verifier::type_invariant]
    spec fn checks_valid(self) -> bool {
        valid_checks(self.checks@)
    }

    /// Start building a registry.
    pub fn builder() -> (r: HealthRegistryBuilder<B>)
        ensures
            r@ == Seq::<Check<B>>::empty(),
    {
        HealthRegistryBuilder::new()
    }

    /// The names of all registered checks, in declaration order.
    pub fn names(&self) -> (r: Vec<&str>)
        ensures
            r@.len() == self@.len(),
            forall|i: int| 0 <= i < r@.len() ==> #[trigger] r@[i]@ == self@[i].name@,
    {
        let mut r: Vec<&str> = Vec::new();
        let n = self.checks.len();
        let mut i: usize = 0;
        while i < n
            invariant
                n == self.checks@.len(),
                i <= n,
                r@.len() == i,
                forall|k: int| 0 <= k < i ==> #[trigger] r@[k]@ == self.checks@[k].name@,
            decreases n - i,
        {
            r.push(self.checks[i].name.as_str());
            i = i + 1;
        }
        r
    }

    /// A debug text that lists the check names only:
    /// `HealthRegistry { names: ["a", "b"] }`.
    pub fn debug_text(&self) -> (r: String)
        ensures
            r@ == "HealthRegistry { names: ["@ + joined(
                self@.map_values(|c: Check<B>| str_debug(c.name@)),
            ) + "] }"@,
    {
        let ghost items = self@.map_values(|c: Check<B>| str_debug(c.name@));
        let mut s = String::from_str("HealthRegistry { names: [");
        let n = self.checks.len();
        let mut i: usize = 0;
        assert(items.subrange(0, 0) =~= Seq::<Seq<char>>::empty());
        while i < n
            invariant
                n == self.checks@.len(),
                items == self@.map_values(|c: Check<B>| str_debug(c.name@)),
                self@ == self.checks@,
                i <= n,
                s@ == "HealthRegistry { names: ["@ + joined(items.subrange(0, i as int)),
            decreases n - i,
        {
            proof {
                lemma_joined_step(items, i as int);
            }
            if i > 0 {
                s.append(", ");
            }
            let item = debug_str(self.checks[i].name.as_str());
            s.append(item.as_str());
            i = i + 1;
        }
        assert(items.subrange(0, n as int) =~= items);
        s.append("] }");
        s
    }

    /// The registered checks, in declaration order.
    pub fn checks(&self) -> (r: &Vec<Check<B>>)
        ensures
            r@ == self@,
            valid_checks(self@),
    {
        proof {
            use_type_invariant(self);
        }
        &self.checks
    }

    /// The number of registered checks.
    pub fn len(&self) -> (r: usize)
        ensures
            r == self@.len(),
    {
        self.checks.len()
    }

    /// The report of one run: `events` holds, for each check in declaration
    /// order, how its body ended and how long it took; `duration_ms` is the
    /// time the whole run took.
    pub fn report(&self, events: Vec<(BodyEvent, u64)>, duration_ms: u64) -> (r: HealthReport)
        requires
            events@.len() == self@.len(),
        ensures
            r.checks@.len() == self@.len(),
            forall|i: int|
                0 <= i < self@.len() ==> settled(self@[i], events@[i].0, events@[i].1, #[trigger] r.checks@[i]),
            r.status == overall_status(r.checks@),
            r.duration_ms == duration_ms,
            forall|a: int, b: int|
                0 <= a < b < r.checks@.len() ==> #[trigger] r.checks@[a].name@ != #[trigger] r.checks@[b].name@,
            (r.status != Status::Down) <==> forall|i: int|
                0 <= i < r.checks@.len() ==> !(#[trigger] r.checks@[i].critical && r.checks@[i].status == Status::Down),
    {
        proof {
            use_type_invariant(self);
        }
        let mut pending = events;
        let mut outcomes: Vec<CheckOutcome> = Vec::new();
        let n = self.checks.len();
        let mut i: usize = 0;
        assert(events@.skip(0) =~= events@);
        while i < n
            invariant
                n == self.checks@.len(),
                events@.len() == n,
                i <= n,
                pending@ == events@.skip(i as int),
                outcomes@.len() == i,
                forall|k: int|
                    0 <= k < i ==> settled(self.checks@[k], events@[k].0, events@[k].1, #[trigger] outcomes@[k]),
            decreases n - i,
        {
            assert(pending@[0] == events@[i as int]);
            let (event, took) = pending.remove(0);
            assert(pending@ =~= events@.skip(i + 1));
            let o = self.checks[i].settle(event, took);
            outcomes.push(o);
            i = i + 1;
        }
        assert forall|a: int, b: int|
            0 <= a < b < outcomes@.len() implies #[trigger] outcomes@[a].name@ != #[trigger] outcomes@[b].name@ by {
            assert(settled(self.checks@[a], events@[a].0, events@[a].1, outcomes@[a]));
            assert(settled(self.checks@[b], events@[b].0, events@[b].1, outcomes@[b]));
        }
        let r = HealthReport::from_outcomes(outcomes, duration_ms);
        proof {
            lemma_overall_cases(r.checks@);
        }
        r
    }
}

} // verus!
