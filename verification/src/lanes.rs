//! A fixed-width vector of accumulators that are updated together.

use vstd::prelude::*;

verus! {

/// Number of accumulators in a [`Lanes`] value.
pub const LANES: usize = 4;

/// All lanes zero.
pub open spec fn lanes_zero() -> Seq<int> {
    Seq::new(LANES as nat, |l: int| 0int)
}

/// Lane by lane sum.
pub open spec fn lanes_add(a: Seq<int>, b: Seq<int>) -> Seq<int> {
    Seq::new(LANES as nat, |l: int| a[l] + b[l])
}

/// Lane by lane quotient by one divisor.
pub open spec fn lanes_div(a: Seq<int>, divisor: int) -> Seq<int> {
    Seq::new(LANES as nat, |l: int| a[l] / divisor)
}

/// Lane `l` takes byte `l` of `chunk`; a lane that the chunk does not reach
/// takes 0.
pub open spec fn lanes_gather(chunk: Seq<u8>) -> Seq<int> {
    Seq::new(
        LANES as nat,
        |l: int|
            if l < chunk.len() {
                chunk[l] as int
            } else {
                0int
            },
    )
}

/// Four accumulators that every operation updates together.
#[derive(Clone, Copy, Debug, PartialEq, Eq)]
pub struct Lanes {
    pub lanes: [u128; LANES],
}

impl View for Lanes {
    type V = Seq<int>;

    open spec fn view(&self) -> Seq<int> {
        Seq::new(LANES as nat, |l: int| self.lanes@[l] as int)
    }
}

impl Lanes {
    /// Every lane set to `value`.
    pub fn splat(value: u128) -> (made: Lanes)
        ensures
            made@ == Seq::new(LANES as nat, |l: int| value as int),
    {
        let made = Lanes { lanes: [value, value, value, value] };
        assert(made@ =~= Seq::new(LANES as nat, |l: int| value as int));
        made
    }

    /// Reads one lane per byte of `chunk`, and 0 into each lane that the
    /// chunk does not reach.
    pub fn gather_or_default(chunk: &[u8]) -> (made: Lanes)
        ensures
            made@ == lanes_gather(chunk@),
    {
        let n = chunk.len();
        let l0: u128 = if 0 < n { chunk[0] as u128 } else { 0 };
        let l1: u128 = if 1 < n { chunk[1] as u128 } else { 0 };
        let l2: u128 = if 2 < n { chunk[2] as u128 } else { 0 };
        let l3: u128 = if 3 < n { chunk[3] as u128 } else { 0 };
        let made = Lanes { lanes: [l0, l1, l2, l3] };
        assert(made@ =~= lanes_gather(chunk@));
        made
    }

    /// Lane by lane sum with `other`.
    pub fn accumulate(&self, other: &Lanes) -> (sum: Lanes)
        requires
            forall|l: int| 0 <= l < LANES ==> #[trigger] self@[l] + other@[l] <= u128::MAX,
        ensures
            sum@ == lanes_add(self@, other@),
    {
        assert(self@[0] + other@[0] <= u128::MAX);
        assert(self@[1] + other@[1] <= u128::MAX);
        assert(self@[2] + other@[2] <= u128::MAX);
        assert(self@[3] + other@[3] <= u128::MAX);
        let sum = Lanes {
            lanes: [
                self.lanes[0] + other.lanes[0],
                self.lanes[1] + other.lanes[1],
                self.lanes[2] + other.lanes[2],
                self.lanes[3] + other.lanes[3],
            ],
        };
        assert(sum@ =~= lanes_add(self@, other@));
        sum
    }

    /// Lane by lane truncating quotient by `divisor`.
    pub fn divide(&self, divisor: u128) -> (quotient: Lanes)
        requires
            divisor != 0,
        ensures
            quotient@ == lanes_div(self@, divisor as int),
    {
        let quotient = Lanes {
            lanes: [
                self.lanes[0] / divisor,
                self.lanes[1] / divisor,
                self.lanes[2] / divisor,
                self.lanes[3] / divisor,
            ],
        };
        assert(quotient@ =~= lanes_div(self@, divisor as int));
        quotient
    }

    /// The value in lane `l`.
    pub fn lane(&self, l: usize) -> (value: u128)
        requires
            l < LANES,
        ensures
            value == self@[l as int],
    {
        self.lanes[l]
    }
}

} // verus!
