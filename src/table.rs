use vstd::prelude::*;

verus! {

/// The threshold that stands for probability one: `2^53`, the number of
/// distinct draws.
pub const SCALE: u64 = 9007199254740992;

/// Number of energy classes, and of entries in an acceptance table.
pub const CLASSES: usize = 9;

/// Thresholds of a usable acceptance table: nine of them, each a probability
/// in `[0, 1]`, non-increasing as the energy class grows.
pub open spec fn table_wf(t: Seq<u64>) -> bool {
    &&& t.len() == CLASSES
    &&& forall|k: int| 0 <= k < CLASSES ==> #[trigger] t[k] <= SCALE
    &&& forall|k: int| 0 <= k < CLASSES - 1 ==> #[trigger] t[k] >= t[k + 1]
}

/// Flip-acceptance table indexed by energy class `k = e + 4`.
///
/// Entry `k` is the threshold `ceil(exp(-2 * e / T) * 2^53)`, capped at
/// `2^53`; a draw `u` accepts the flip exactly when `u` is below it.
pub struct Table {
    thresholds: [u64; 9],
}

impl View for Table {
    type V = Seq<u64>;

    closed spec fn view(&self) -> Seq<u64> {
        self.thresholds@
    }
}

impl Table {
    pub open spec fn wf(&self) -> bool {
        table_wf(self@)
    }

    /// The table with the given thresholds, if they form a usable table.
    pub fn from_thresholds(thresholds: [u64; 9]) -> (r: Option<Table>)
        ensures
            r is Some <==> table_wf(thresholds@),
            r matches Some(t) ==> t@ == thresholds@,
    {
        let mut k: usize = 0;
        while k < CLASSES
            invariant
                thresholds@.len() == CLASSES,
                k <= CLASSES,
                forall|x: int| 0 <= x < k ==> #[trigger] thresholds@[x] <= SCALE,
                forall|x: int| 0 <= x < k && x < CLASSES - 1 ==> #[trigger] thresholds@[x] >= thresholds@[x + 1],
            decreases CLASSES - k,
        {
            if thresholds[k] > SCALE {
                return None;
            }
            if k + 1 < CLASSES && thresholds[k] < thresholds[k + 1] {
                return None;
            }
            k += 1;
        }
        Some(Table { thresholds })
    }

    /// Threshold of energy class `k`.
    pub fn threshold(&self, k: usize) -> (r: u64)
        requires
            self.wf(),
            k < CLASSES,
        ensures
            r == self@[k as int],
    {
        self.thresholds[k]
    }

    /// All nine thresholds.
    pub fn thresholds(&self) -> (r: [u64; 9])
        ensures
            r@ == self@,
    {
        self.thresholds
    }
}

/// The acceptance probability never grows with the energy class: a flip that
/// raises the energy more is accepted at most as often.
pub proof fn lemma_table_monotone(t: Seq<u64>, k1: int, k2: int)
    requires
        table_wf(t),
        0 <= k1 <= k2 < CLASSES,
    ensures
        t[k1] >= t[k2],
    decreases k2 - k1,
{
    if k1 < k2 {
        lemma_table_monotone(t, k1 + 1, k2);
        assert(t[k1] >= t[k1 + 1]);
    }
}

} // verus!
