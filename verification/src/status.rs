//! The [`Status`] of a single check or of the system as a whole.

use vstd::prelude::*;

verus! {

/// The health of a single check or of the system as a whole, ordered from
/// healthiest to least healthy: `Up < Degraded < Down`.
#[derive(Debug, Clone, Copy, PartialEq, Eq, Structural, PartialOrd, Ord, Hash)]
pub enum Status {
    /// Fully operational.
    Up,
    /// Serving, but impaired.
    Degraded,
    /// Not serving.
    Down,
}

/// The position of a status in the health order: the larger, the less healthy.
pub open spec fn rank(s: Status) -> int {
    match s {
        Status::Up => 0,
        Status::Degraded => 1,
        Status::Down => 2,
    }
}

/// The less healthy of two statuses.
pub open spec fn worst_of(a: Status, b: Status) -> Status {
    if rank(a) >= rank(b) {
        a
    } else {
        b
    }
}

/// The wire name of a status.
pub open spec fn status_name(s: Status) -> Seq<char> {
    match s {
        Status::Up => "UP"@,
        Status::Degraded => "DEGRADED"@,
        Status::Down => "DOWN"@,
    }
}

/// Taking the worst of statuses does not depend on their order or grouping,
/// repeats change nothing, `Up` changes nothing and `Down` absorbs everything.
pub proof fn lemma_worst_laws(a: Status, b: Status, c: Status)
    ensures
        worst_of(a, b) == worst_of(b, a),
        worst_of(worst_of(a, b), c) == worst_of(a, worst_of(b, c)),
        worst_of(a, a) == a,
        worst_of(a, Status::Up) == a,
        worst_of(a, Status::Down) == Status::Down,
        rank(worst_of(a, b)) >= rank(a),
        rank(worst_of(a, b)) >= rank(b),
{
}

/// The health order is `Up < Degraded < Down`, and the rank tells statuses
/// apart.
pub proof fn lemma_rank_order(a: Status, b: Status)
    ensures
        rank(Status::Up) < rank(Status::Degraded) < rank(Status::Down),
        rank(a) == rank(b) ==> a == b,
{
}

impl Status {
    /// The wire name of the status (`"UP"`, `"DEGRADED"`, `"DOWN"`).
    pub fn as_str(self) -> (r: &'static str)
        ensures
            r@ == status_name(self),
    {
        match self {
            Status::Up => "UP",
            Status::Degraded => "DEGRADED",
            Status::Down => "DOWN",
        }
    }

    /// Return the less healthy of two statuses.
    pub fn worst(self, other: Status) -> (r: Status)
        ensures
            r == worst_of(self, other),
    {
        if Self::rank_of(self) >= Self::rank_of(other) {
            self
        } else {
            other
        }
    }

    fn rank_of(s: Status) -> (r: u8)
        ensures
            r == rank(s),
    {
        match s {
            Status::Up => 0,
            Status::Degraded => 1,
            Status::Down => 2,
        }
    }
}

} // verus!
