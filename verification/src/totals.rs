use vstd::prelude::*;

use crate::scholarship::{all_released, amount_total, released_total, unreleased_total, Semester};

verus! {

/// Every payout is either made or still owed.
pub proof fn lemma_totals_split(s: Seq<Semester>)
    ensures
        amount_total(s) == released_total(s) + unreleased_total(s),
    decreases s.len(),
{
    if s.len() > 0 {
        lemma_totals_split(s.drop_last());
    }
}

/// Replacing one semester changes each total by the difference it makes.
pub proof fn lemma_totals_update(s: Seq<Semester>, k: int, x: Semester)
    requires
        0 <= k < s.len(),
    ensures
        amount_total(s.update(k, x)) == amount_total(s) - s[k].release_amount + x.release_amount,
        released_total(s.update(k, x)) == released_total(s) - (if s[k].released {
            s[k].release_amount as int
        } else {
            0
        }) + (if x.released {
            x.release_amount as int
        } else {
            0
        }),
        unreleased_total(s.update(k, x)) == unreleased_total(s) - (if s[k].released {
            0
        } else {
            s[k].release_amount as int
        }) + (if x.released {
            0
        } else {
            x.release_amount as int
        }),
    decreases s.len(),
{
    let t = s.update(k, x);
    if k == s.len() - 1 {
        assert(t.drop_last() =~= s.drop_last());
    } else {
        assert(t.drop_last() =~= s.drop_last().update(k, x));
        lemma_totals_update(s.drop_last(), k, x);
    }
}

/// When every semester was paid, nothing is owed.
pub proof fn lemma_all_released_owes_nothing(s: Seq<Semester>)
    requires
        all_released(s),
    ensures
        unreleased_total(s) == 0,
    decreases s.len(),
{
    if s.len() > 0 {
        let p = s.drop_last();
        assert forall|i: int| 0 <= i < p.len() implies #[trigger] p[i].released by {
            assert(p[i] == s[i]);
        }
        lemma_all_released_owes_nothing(p);
        assert(s[s.len() - 1].released);
    }
}

} // verus!
