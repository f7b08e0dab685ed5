//! The aggregated [`HealthReport`] and the [`aggregate`] function behind it.

use vstd::prelude::*;
use vstd::string::*;

use crate::check::CheckOutcome;
use crate::json::{bool_json, bool_text, json_string, object_json, object_text, quote_values, quoted};
use crate::status::{rank, status_name, worst_of, Status};
use crate::string_map::{insert_all, lemma_insert_all_lookup, lemma_last_value_at, lookup, StringMap};
use crate::text::{decimal, decimal_string};

verus! {

/// What one outcome contributes to the overall status: a non-critical
/// `Down` counts only as `Degraded`.
pub open spec fn effective_status(o: CheckOutcome) -> Status {
    match o.status {
        Status::Down => if o.critical {
            Status::Down
        } else {
            Status::Degraded
        },
        s => s,
    }
}

/// Some critical check is down.
pub open spec fn has_critical_down(os: Seq<CheckOutcome>) -> bool {
    exists|i: int| 0 <= i < os.len() && #[trigger] os[i].critical && os[i].status == Status::Down
}

/// Some check is not up.
pub open spec fn has_unhealthy(os: Seq<CheckOutcome>) -> bool {
    exists|i: int| 0 <= i < os.len() && #[trigger] os[i].status != Status::Up
}

/// The overall status of a set of outcomes: `Down` when a critical check is
/// down; else `Degraded` when any check is not up; else `Up` (also when there
/// are no checks).
pub open spec fn overall_status(os: Seq<CheckOutcome>) -> Status {
    if has_critical_down(os) {
        Status::Down
    } else if has_unhealthy(os) {
        Status::Degraded
    } else {
        Status::Up
    }
}

proof fn lemma_overall_push(os: Seq<CheckOutcome>, o: CheckOutcome)
    ensures
        overall_status(os.push(o)) == worst_of(overall_status(os), effective_status(o)),
{
    let t = os.push(o);
    assert(t[os.len() as int] == o);
    if has_critical_down(os) {
        let i = choose|i: int| 0 <= i < os.len() && #[trigger] os[i].critical && os[i].status == Status::Down;
        assert(t[i] == os[i]);
    }
    if has_unhealthy(os) {
        let i = choose|i: int| 0 <= i < os.len() && #[trigger] os[i].status != Status::Up;
        assert(t[i] == os[i]);
    }
    if has_critical_down(t) {
        let i = choose|i: int| 0 <= i < t.len() && #[trigger] t[i].critical && t[i].status == Status::Down;
        if i < os.len() {
            assert(os[i] == t[i]);
        }
    }
    if has_unhealthy(t) {
        let i = choose|i: int| 0 <= i < t.len() && #[trigger] t[i].status != Status::Up;
        if i < os.len() {
            assert(os[i] == t[i]);
        }
    }
}

/// Aggregating two groups of outcomes together gives the worst of their
/// separate aggregates, and either group may come first.
pub proof fn lemma_overall_concat(a: Seq<CheckOutcome>, b: Seq<CheckOutcome>)
    ensures
        overall_status(a + b) == worst_of(overall_status(a), overall_status(b)),
        overall_status(a + b) == overall_status(b + a),
{
    let ab = a + b;
    let ba = b + a;
    assert forall|i: int| 0 <= i < a.len() implies ab[i] == a[i] && ba[b.len() + i] == a[i] by {}
    assert forall|i: int| 0 <= i < b.len() implies ab[a.len() + i] == b[i] && ba[i] == b[i] by {}
    if has_critical_down(a) {
        let i = choose|i: int| 0 <= i < a.len() && #[trigger] a[i].critical && a[i].status == Status::Down;
        assert(ab[i] == a[i]);
        assert(ba[b.len() + i] == a[i]);
    }
    if has_critical_down(b) {
        let i = choose|i: int| 0 <= i < b.len() && #[trigger] b[i].critical && b[i].status == Status::Down;
        assert(ab[a.len() + i] == b[i]);
        assert(ba[i] == b[i]);
    }
    if has_unhealthy(a) {
        let i = choose|i: int| 0 <= i < a.len() && #[trigger] a[i].status != Status::Up;
        assert(ab[i] == a[i]);
        assert(ba[b.len() + i] == a[i]);
    }
    if has_unhealthy(b) {
        let i = choose|i: int| 0 <= i < b.len() && #[trigger] b[i].status != Status::Up;
        assert(ab[a.len() + i] == b[i]);
        assert(ba[i] == b[i]);
    }
    if has_critical_down(ab) {
        let i = choose|i: int| 0 <= i < ab.len() && #[trigger] ab[i].critical && ab[i].status == Status::Down;
        if i < a.len() {
            assert(a[i] == ab[i]);
        } else {
            assert(b[i - a.len()] == ab[i]);
        }
    }
    if has_unhealthy(ab) {
        let i = choose|i: int| 0 <= i < ab.len() && #[trigger] ab[i].status != Status::Up;
        if i < a.len() {
            assert(a[i] == ab[i]);
        } else {
            assert(b[i - a.len()] == ab[i]);
        }
    }
    if has_critical_down(ba) {
        let i = choose|i: int| 0 <= i < ba.len() && #[trigger] ba[i].critical && ba[i].status == Status::Down;
        if i < b.len() {
            assert(b[i] == ba[i]);
        } else {
            assert(a[i - b.len()] == ba[i]);
        }
    }
    if has_unhealthy(ba) {
        let i = choose|i: int| 0 <= i < ba.len() && #[trigger] ba[i].status != Status::Up;
        if i < b.len() {
            assert(b[i] == ba[i]);
        } else {
            assert(a[i - b.len()] == ba[i]);
        }
    }
}

proof fn lemma_same_members_overall(a: Seq<CheckOutcome>, b: Seq<CheckOutcome>)
    requires
        forall|o: CheckOutcome| a.contains(o) ==> b.contains(o),
    ensures
        has_critical_down(a) ==> has_critical_down(b),
        has_unhealthy(a) ==> has_unhealthy(b),
{
    if has_critical_down(a) {
        let i = choose|i: int| 0 <= i < a.len() && #[trigger] a[i].critical && a[i].status == Status::Down;
        assert(a.contains(a[i]));
        let j = choose|j: int| 0 <= j < b.len() && b[j] == a[i];
        assert(b[j].critical);
    }
    if has_unhealthy(a) {
        let i = choose|i: int| 0 <= i < a.len() && #[trigger] a[i].status != Status::Up;
        assert(a.contains(a[i]));
        let j = choose|j: int| 0 <= j < b.len() && b[j] == a[i];
        assert(b[j].status != Status::Up);
    }
}

/// The overall status does not depend on the order of the outcomes: any
/// rearrangement of them aggregates to the same status.
pub proof fn lemma_overall_permutation(a: Seq<CheckOutcome>, b: Seq<CheckOutcome>)
    requires
        a.to_multiset() == b.to_multiset(),
    ensures
        overall_status(a) == overall_status(b),
{
    a.to_multiset_ensures();
    b.to_multiset_ensures();
    assert forall|o: CheckOutcome| a.contains(o) ==> b.contains(o) by {
        if a.contains(o) {
            assert(a.to_multiset().count(o) > 0);
        }
    }
    assert forall|o: CheckOutcome| b.contains(o) ==> a.contains(o) by {
        if b.contains(o) {
            assert(b.to_multiset().count(o) > 0);
        }
    }
    lemma_same_members_overall(a, b);
    lemma_same_members_overall(b, a);
}

/// With no checks the system is `Up`; it is `Down` exactly when a critical
/// check is down, and `Up` exactly when every check is up.
pub proof fn lemma_overall_cases(os: Seq<CheckOutcome>)
    ensures
        os.len() == 0 ==> overall_status(os) == Status::Up,
        overall_status(os) == Status::Down <==> exists|i: int|
            0 <= i < os.len() && #[trigger] os[i].critical && os[i].status == Status::Down,
        overall_status(os) == Status::Up <==> forall|i: int| 0 <= i < os.len() ==> #[trigger] os[i].status == Status::Up,
{
}

/// Aggregate per-check outcomes into an overall [`Status`]: a critical check
/// that is `Down` makes the system `Down`; a non-critical `Down`, or any
/// `Degraded`, degrades it; otherwise the system is `Up`.
pub fn aggregate(outcomes: &[CheckOutcome]) -> (r: Status)
    ensures
        r == overall_status(outcomes@),
{
    let mut overall = Status::Up;
    let n = outcomes.len();
    let mut i: usize = 0;
    assert(outcomes@.subrange(0, 0) =~= Seq::<CheckOutcome>::empty());
    while i < n
        invariant
            n == outcomes@.len(),
            i <= n,
            overall == overall_status(outcomes@.subrange(0, i as int)),
        decreases n - i,
    {
        let o = &outcomes[i];
        let effective = match o.status {
            Status::Down => if o.critical {
                Status::Down
            } else {
                Status::Degraded
            },
            Status::Degraded => Status::Degraded,
            Status::Up => Status::Up,
        };
        proof {
            lemma_overall_push(outcomes@.subrange(0, i as int), outcomes@[i as int]);
            assert(outcomes@.subrange(0, i as int).push(outcomes@[i as int]) =~= outcomes@.subrange(0, i + 1));
        }
        overall = overall.worst(effective);
        i = i + 1;
    }
    assert(outcomes@.subrange(0, n as int) =~= outcomes@);
    overall
}

/// The aggregated result of running a registry's checks.
#[derive(Debug, Clone, PartialEq, Eq)]
pub struct HealthReport {
    /// Overall system status.
    pub status: Status,
    /// Per-check outcomes, in declaration order.
    pub checks: Vec<CheckOutcome>,
    /// Wall-clock time to run all checks, in milliseconds.
    pub duration_ms: u64,
}

/// The JSON text of one outcome: its `critical` flag, its `details` (when
/// there are any), its `durationMs`, its `message` (when there is one) and its
/// `status`, keys in ascending order.
pub open spec fn outcome_text(o: CheckOutcome) -> Seq<char> {
    "{\"critical\":"@ + bool_text(o.critical) + (if o.details@.len() > 0 {
        ",\"details\":"@ + object_text(quote_values(o.details@))
    } else {
        Seq::empty()
    }) + ",\"durationMs\":"@ + decimal(o.duration_ms as nat) + (match o.message {
        Some(m) => ",\"message\":"@ + json_string(m@),
        None => Seq::empty(),
    }) + ",\"status\":"@ + json_string(status_name(o.status)) + "}"@
}

/// Each outcome's name paired with its JSON text, in declaration order.
pub open spec fn outcome_members(os: Seq<CheckOutcome>) -> Seq<(Seq<char>, Seq<char>)> {
    os.map_values(|o: CheckOutcome| (o.name@, outcome_text(o)))
}

/// The `checks` object: outcomes keyed by name in ascending order; of two
/// outcomes with one name, the later one stands.
pub open spec fn checks_members(os: Seq<CheckOutcome>) -> Seq<(Seq<char>, Seq<char>)> {
    insert_all(Seq::empty(), outcome_members(os))
}

/// The compact JSON document of a report: its `status`, its `checks` object
/// and its `durationMs`, in that order.
pub open spec fn report_text(status: Status, os: Seq<CheckOutcome>, duration_ms: u64) -> Seq<char> {
    "{\"status\":"@ + json_string(status_name(status)) + ",\"checks\":"@ + object_text(checks_members(os))
        + ",\"durationMs\":"@ + decimal(duration_ms as nat) + "}"@
}

/// When no two outcomes share a name, the `checks` object of the JSON
/// document carries every outcome's JSON text under its name.
pub proof fn lemma_checks_members_complete(os: Seq<CheckOutcome>, i: int)
    requires
        0 <= i < os.len(),
        forall|a: int, b: int| 0 <= a < b < os.len() ==> #[trigger] os[a].name@ != #[trigger] os[b].name@,
    ensures
        lookup(checks_members(os), os[i].name@) == Some(outcome_text(os[i])),
{
    let ms = outcome_members(os);
    assert(ms[i] == (os[i].name@, outcome_text(os[i])));
    assert forall|j: int| i < j < ms.len() implies #[trigger] ms[j].0 != ms[i].0 by {
        assert(ms[j].0 == os[j].name@);
    }
    lemma_last_value_at(ms, i);
    lemma_insert_all_lookup(Seq::empty(), ms, os[i].name@);
}

fn outcome_json(o: &CheckOutcome) -> (r: String)
    ensures
        r@ == outcome_text(*o),
{
    let mut s = String::from_str("{\"critical\":");
    s.append(bool_json(o.critical));
    if !o.details.is_empty() {
        s.append(",\"details\":");
        let details = o.details.entries();
        let text = object_json(details, true);
        s.append(text.as_str());
    }
    s.append(",\"durationMs\":");
    let duration = decimal_string(o.duration_ms as u128);
    s.append(duration.as_str());
    match &o.message {
        Some(m) => {
            s.append(",\"message\":");
            let text = quoted(m.as_str());
            s.append(text.as_str());
        },
        None => {},
    }
    s.append(",\"status\":");
    let status = quoted(o.status.as_str());
    s.append(status.as_str());
    s.append("}");
    assert(s@ =~= outcome_text(*o));
    s
}

impl HealthReport {
    /// The report for `checks`, with the status they aggregate to.
    pub fn from_outcomes(checks: Vec<CheckOutcome>, duration_ms: u64) -> (r: HealthReport)
        ensures
            r.status == overall_status(checks@),
            r.checks@ == checks@,
            r.duration_ms == duration_ms,
    {
        let status = aggregate(checks.as_slice());
        HealthReport { status, checks, duration_ms }
    }

    /// True unless the system is `Down`; suitable for a readiness gate.
    pub fn is_healthy(&self) -> (r: bool)
        ensures
            r == (self.status != Status::Down),
    {
        self.status != Status::Down
    }

    /// Render the report as a compact JSON document: a `status`, a `checks`
    /// object keyed by check name (each value carrying `status`, `critical`,
    /// `durationMs`, and when present `message` and `details`), and a
    /// `durationMs`.
    pub fn to_json(&self) -> (r: String)
        ensures
            r@ == report_text(self.status, self.checks@, self.duration_ms),
    {
        let mut members = StringMap::new();
        let n = self.checks.len();
        let mut i: usize = 0;
        let ghost all = outcome_members(self.checks@);
        while i < n
            invariant
                n == self.checks@.len(),
                all == outcome_members(self.checks@),
                i <= n,
                members@ == insert_all(Seq::empty(), all.subrange(0, i as int)),
            decreases n - i,
        {
            let name = self.checks[i].name.clone();
            let text = outcome_json(&self.checks[i]);
            proof {
                assert(all.subrange(0, i + 1).drop_last() =~= all.subrange(0, i as int));
                assert(all[i as int] == (name@, text@));
            }
            members.insert(name, text);
            i = i + 1;
        }
        assert(all.subrange(0, n as int) =~= all);
        let mut s = String::from_str("{\"status\":");
        let status = quoted(self.status.as_str());
        s.append(status.as_str());
        s.append(",\"checks\":");
        let checks = object_json(members.entries(), false);
        s.append(checks.as_str());
        s.append(",\"durationMs\":");
        let duration = decimal_string(self.duration_ms as u128);
        s.append(duration.as_str());
        s.append("}");
        assert(s@ =~= report_text(self.status, self.checks@, self.duration_ms));
        s
    }
}

} // verus!
