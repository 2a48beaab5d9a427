use vstd::prelude::*;

use crate::error::{error_text, ScholarshipError};
use crate::registry::{escrow_inflow, escrow_total, ScholarshipRegistry, Transfer};
use crate::scholarship::{
    all_released, amount_total, amounts_sum, creation_error, fresh_semester, gpa_recorded,
    paid_out, released_total, suspended, unreleased_total, Scholarship, ScholarshipStatus,
    Semester,
};
use crate::totals::{lemma_all_released_owes_nothing, lemma_totals_split};

verus! {

/// Every unit of a grant is either paid to the student or still owed: the
/// disbursed amount and the unpaid semesters add up to the total.
pub proof fn law_grant_is_paid_or_owed(sc: Scholarship)
    requires
        sc.wf(),
    ensures
        sc.total_amount == sc.disbursed_amount + unreleased_total(sc.semesters@),
        sc.outstanding() == unreleased_total(sc.semesters@),
{
    lemma_totals_split(sc.semesters@);
}

/// The escrow holds exactly the unpaid semesters of an active scholarship,
/// and nothing for a completed or suspended one.
pub proof fn law_escrow_holds_what_is_owed(sc: Scholarship)
    requires
        sc.wf(),
    ensures
        sc.held() == if sc.status == ScholarshipStatus::Active {
            unreleased_total(sc.semesters@)
        } else {
            0
        },
{
    lemma_totals_split(sc.semesters@);
}

/// A completed scholarship has paid its whole grant to the student.
pub proof fn law_completed_is_paid_in_full(sc: Scholarship)
    requires
        sc.wf(),
        sc.status == ScholarshipStatus::Completed,
    ensures
        sc.disbursed_amount == sc.total_amount,
        sc.held() == 0,
{
    lemma_totals_split(sc.semesters@);
    lemma_all_released_owes_nothing(sc.semesters@);
}

/// A suspension gives the sponsor back exactly what the student was not paid:
/// refund and payouts together make up the grant.
pub proof fn law_refund_and_payouts_make_up_the_grant(
    before: Scholarship,
    after: Scholarship,
    refund: i128,
)
    requires
        before.wf(),
        suspended(before, after, refund),
    ensures
        refund + after.disbursed_amount == before.total_amount,
        refund == unreleased_total(before.semesters@),
{
    lemma_totals_split(before.semesters@);
}

/// A completed or suspended scholarship pays nothing more: paying a
/// semester and suspending are both refused.
pub proof fn law_inactive_is_final(sc: Scholarship, semester_id: u32)
    requires
        sc.status != ScholarshipStatus::Active,
    ensures
        sc.release_error(semester_id) == Some(ScholarshipError::NotActive),
        sc.suspension_error() == Some(ScholarshipError::AlreadyInactive),
{
}

/// A semester is paid at most once: once paid, asking again is refused,
/// as already released while the scholarship is active and as not active
/// once the payout completed it.
pub proof fn law_no_double_payout(
    before: Scholarship,
    after: Scholarship,
    semester_id: u32,
    amount: i128,
)
    requires
        before.wf(),
        before.release_error(semester_id) is None,
        paid_out(before, after, semester_id, amount),
    ensures
        after.release_error(semester_id) == Some(
            if after.status == ScholarshipStatus::Active {
                ScholarshipError::AlreadyReleased
            } else {
                ScholarshipError::NotActive
            },
        ),
{
    assert(after.semesters@[semester_id - 1].released);
}

/// Only a semester whose reported GPA met its minimum is ever paid out.
pub proof fn law_only_verified_semesters_are_paid(sc: Scholarship, semester_id: u32)
    requires
        sc.wf(),
        1 <= semester_id <= sc.semesters@.len(),
        sc.semesters@[semester_id - 1].released,
    ensures
        sc.semesters@[semester_id - 1].performance_verified,
{
}

/// A scholarship is completed exactly when every semester has been paid.
pub proof fn law_completed_iff_all_paid(sc: Scholarship)
    requires
        sc.wf(),
    ensures
        (sc.status == ScholarshipStatus::Completed) == all_released(sc.semesters@),
{
}

/// Across the registry, a semester paid out by `release_semester_funds` is
/// never paid again: in the state that payout leaves, the same request is
/// refused.
pub proof fn law_registry_pays_a_semester_once(
    before: ScholarshipRegistry,
    after: ScholarshipRegistry,
    id: u32,
    semester_id: u32,
    amount: i128,
)
    requires
        before.wf(),
        before.lookup_error(id) is None,
        before.records()[id as int].release_error(semester_id) is None,
        paid_out(before.records()[id as int], after.records()[id as int], semester_id, amount),
        before.same_but(&after, id),
    ensures
        after.lookup_error(id) is None,
        after.records()[id as int].release_error(semester_id) is Some,
{
    law_no_double_payout(before.records()[id as int], after.records()[id as int], semester_id, amount);
}

/// The sum of a sequence of token flows.
pub open spec fn flows_sum(flows: Seq<int>) -> int
    decreases flows.len(),
{
    if flows.len() == 0 {
        0
    } else {
        flows_sum(flows.drop_last()) + flows.last()
    }
}

/// Over any run of accepted operations from an empty registry, where each
/// step changes the escrow by its transfer (as every operation's contract
/// ensures, with `escrow_inflow`), what the scholarships hold in escrow is
/// exactly the deposits minus the payouts made so far: the escrow account's
/// balance.
pub proof fn law_escrow_is_deposits_minus_payouts(
    states: Seq<ScholarshipRegistry>,
    flows: Seq<int>,
)
    requires
        states.len() == flows.len() + 1,
        states[0].records().len() == 0,
        forall|i: int|
            0 <= i < flows.len() ==> escrow_total(#[trigger] states[i + 1].records())
                == escrow_total(states[i].records()) + flows[i],
    ensures
        escrow_total(states.last().records()) == flows_sum(flows),
    decreases flows.len(),
{
    if flows.len() == 0 {
        assert(states.last() == states[0]);
    } else {
        let n = flows.len();
        let ps = states.drop_last();
        let pf = flows.drop_last();
        assert forall|i: int|
            0 <= i < pf.len() implies escrow_total(#[trigger] ps[i + 1].records())
                == escrow_total(ps[i].records()) + pf[i] by {
            assert(ps[i + 1] == states[i + 1]);
            assert(ps[i] == states[i]);
            assert(escrow_total(states[i + 1].records()) == escrow_total(states[i].records())
                + flows[i]);
        }
        law_escrow_is_deposits_minus_payouts(ps, pf);
        assert(escrow_total(states[n as int].records()) == escrow_total(states[n - 1].records())
            + flows[n - 1]);
    }
}

/// How many steps of a run created a scholarship (`Some` holds the id it got).
pub open spec fn creations(created: Seq<Option<u32>>) -> int
    decreases created.len(),
{
    if created.len() == 0 {
        0
    } else {
        creations(created.drop_last()) + if created.last() is Some {
            1int
        } else {
            0
        }
    }
}

/// One step of a run: a creation that returned `id` got the number of
/// scholarships stored before it and stored one more (as `create_scholarship`
/// ensures); any other step kept the number (as every other operation
/// ensures).
pub open spec fn counted_step(
    before: ScholarshipRegistry,
    after: ScholarshipRegistry,
    created: Option<u32>,
) -> bool {
    match created {
        Some(id) => id == before.records().len() && after.records().len() == before.records().len()
            + 1,
        None => after.records().len() == before.records().len(),
    }
}

/// Over any run of operations from an empty registry, scholarship ids are
/// handed out 0, 1, 2, … in creation order: each creation gets the number of
/// creations before it, so no id is given twice.
pub proof fn law_ids_count_up_from_zero(
    states: Seq<ScholarshipRegistry>,
    created: Seq<Option<u32>>,
)
    requires
        states.len() == created.len() + 1,
        states[0].records().len() == 0,
        forall|i: int|
            0 <= i < created.len() ==> counted_step(states[i], states[i + 1], #[trigger] created[i]),
    ensures
        forall|i: int|
            0 <= i < created.len() && created[i] is Some ==> created[i]->0 == creations(
                #[trigger] created.take(i),
            ),
        forall|i: int, j: int|
            0 <= i < j < created.len() && #[trigger] created[i] is Some && #[trigger] created[j] is Some
                ==> created[i]->0 < created[j]->0,
{
    assert forall|i: int|
        0 <= i < created.len() && created[i] is Some implies created[i]->0 == creations(
            #[trigger] created.take(i),
        ) by {
        lemma_stored_counts_creations(states, created, i);
        assert(counted_step(states[i], states[i + 1], created[i]));
    }
    assert forall|i: int, j: int|
        0 <= i < j < created.len() && #[trigger] created[i] is Some && #[trigger] created[j] is Some
            implies created[i]->0 < created[j]->0 by {
        lemma_stored_counts_creations(states, created, i);
        lemma_stored_counts_creations(states, created, j);
        assert(counted_step(states[i], states[i + 1], created[i]));
        assert(counted_step(states[j], states[j + 1], created[j]));
        lemma_creations_monotone(created, i + 1, j);
        assert(created.take(i + 1).drop_last() =~= created.take(i));
        assert(created.take(i + 1).last() == created[i]);
    }
}

proof fn lemma_stored_counts_creations(
    states: Seq<ScholarshipRegistry>,
    created: Seq<Option<u32>>,
    k: int,
)
    requires
        states.len() == created.len() + 1,
        states[0].records().len() == 0,
        forall|i: int|
            0 <= i < created.len() ==> counted_step(states[i], states[i + 1], #[trigger] created[i]),
        0 <= k <= created.len(),
    ensures
        states[k].records().len() == creations(created.take(k)),
    decreases k,
{
    if k == 0 {
        assert(created.take(0).len() == 0);
    } else {
        lemma_stored_counts_creations(states, created, k - 1);
        assert(created.take(k).drop_last() =~= created.take(k - 1));
        assert(created.take(k).last() == created[k - 1]);
        assert(counted_step(states[k - 1], states[k], created[k - 1]));
    }
}

proof fn lemma_creations_monotone(created: Seq<Option<u32>>, i: int, j: int)
    requires
        0 <= i <= j <= created.len(),
    ensures
        creations(created.take(i)) <= creations(created.take(j)),
    decreases j - i,
{
    if i < j {
        lemma_creations_monotone(created, i, j - 1);
        assert(created.take(j).drop_last() =~= created.take(j - 1));
    }
}

/// Amounts add up the ordinary way: the empty list sums to zero, and adding
/// one amount at the end adds it to the sum.
pub proof fn law_amounts_add_up(s: Seq<i128>, x: i128)
    ensures
        amounts_sum(Seq::<i128>::empty()) == 0,
        amounts_sum(s.push(x)) == amounts_sum(s) + x,
{
    assert(s.push(x).drop_last() =~= s);
}

/// The semester totals add up the ordinary way: nothing for no semesters;
/// one more semester adds its payout to the total, to the paid part when it
/// was paid and to the unpaid part when it was not.
pub proof fn law_semester_totals_add_up(s: Seq<Semester>, x: Semester)
    ensures
        amount_total(Seq::<Semester>::empty()) == 0,
        released_total(Seq::<Semester>::empty()) == 0,
        unreleased_total(Seq::<Semester>::empty()) == 0,
        amount_total(s.push(x)) == amount_total(s) + x.release_amount,
        released_total(s.push(x)) == released_total(s) + if x.released {
            x.release_amount as int
        } else {
            0
        },
        unreleased_total(s.push(x)) == unreleased_total(s) + if x.released {
            0
        } else {
            x.release_amount as int
        },
{
    assert(s.push(x).drop_last() =~= s);
}

/// A scholarship can be created from any figures with at least one semester,
/// as many minimum GPAs as amounts, and amounts adding up to the total; with
/// any number of semesters and minimum GPAs in any order. Empty or
/// mismatched lists are a config mismatch; otherwise a wrong sum is an
/// amount mismatch.
pub proof fn law_creation_refused_only_for_bad_figures(
    total: i128,
    amounts: Seq<i128>,
    min_gpas: Seq<u32>,
)
    ensures
        creation_error(total, amounts, min_gpas) is None <==> (amounts.len() > 0 && amounts.len()
            == min_gpas.len() && amounts_sum(amounts) == total),
        amounts.len() == 0 || amounts.len() != min_gpas.len() ==> creation_error(
            total,
            amounts,
            min_gpas,
        ) == Some(ScholarshipError::SemesterConfigMismatch),
        amounts.len() > 0 && amounts.len() == min_gpas.len() && amounts_sum(amounts) != total
            ==> creation_error(total, amounts, min_gpas) == Some(
            ScholarshipError::AmountMismatch,
        ),
{
}

/// The semester a new scholarship holds at position `i` is number `i + 1`,
/// pays the `i`-th amount, asks for the `i`-th minimum GPA, and is neither
/// paid nor verified.
pub proof fn law_new_semester_figures(i: int, amount: i128, min_gpa: u32)
    requires
        0 <= i < u32::MAX,
    ensures
        fresh_semester(i, amount, min_gpa).semester_id == i + 1,
        fresh_semester(i, amount, min_gpa).release_amount == amount,
        fresh_semester(i, amount, min_gpa).min_gpa == min_gpa,
        !fresh_semester(i, amount, min_gpa).released,
        !fresh_semester(i, amount, min_gpa).performance_verified,
{
}

/// A GPA report is refused only for a semester that does not exist or that
/// was already paid out, whatever the scholarship's status.
pub proof fn law_gpa_report_refused_only_for_cause(sc: Scholarship, semester_id: u32)
    ensures
        sc.gpa_report_error(semester_id) is None <==> (1 <= semester_id <= sc.semesters@.len()
            && !sc.semesters@[semester_id - 1].released),
        !(1 <= semester_id <= sc.semesters@.len()) ==> sc.gpa_report_error(semester_id) == Some(
            ScholarshipError::SemesterNotFound,
        ),
        1 <= semester_id <= sc.semesters@.len() && sc.semesters@[semester_id - 1].released
            ==> sc.gpa_report_error(semester_id) == Some(ScholarshipError::SemesterAlreadyReleased),
{
}

/// A recorded GPA verifies its semester exactly when it is at least the
/// semester's minimum, however far above it is; nothing else changes.
pub proof fn law_gpa_report_effect(before: Scholarship, after: Scholarship, semester_id: u32, gpa: u32)
    requires
        1 <= semester_id <= before.semesters@.len(),
        gpa_recorded(before, after, semester_id, gpa),
    ensures
        after.semesters@[semester_id - 1].performance_verified == (gpa >= before.semesters@[semester_id
            - 1].min_gpa),
        after.semesters@[semester_id - 1].released == before.semesters@[semester_id - 1].released,
        after.semesters@[semester_id - 1].release_amount == before.semesters@[semester_id
            - 1].release_amount,
        after.semesters@[semester_id - 1].min_gpa == before.semesters@[semester_id - 1].min_gpa,
        after.semesters@[semester_id - 1].semester_id == before.semesters@[semester_id
            - 1].semester_id,
        after.semesters@.len() == before.semesters@.len(),
        forall|j: int|
            0 <= j < before.semesters@.len() && j != semester_id - 1 ==> #[trigger] after.semesters@[j]
                == before.semesters@[j],
        after.disbursed_amount == before.disbursed_amount,
        after.total_amount == before.total_amount,
        after.status == before.status,
{
}

/// A payout is refused only when the scholarship is not active, the semester
/// does not exist, it was already paid, or its GPA was not verified: any
/// verified, unpaid semester of an active scholarship may be paid, in any
/// order, the last one included.
pub proof fn law_payout_refused_only_for_cause(sc: Scholarship, semester_id: u32)
    ensures
        sc.release_error(semester_id) is None <==> (sc.status == ScholarshipStatus::Active && 1
            <= semester_id <= sc.semesters@.len() && !sc.semesters@[semester_id - 1].released
            && sc.semesters@[semester_id - 1].performance_verified),
        sc.status != ScholarshipStatus::Active ==> sc.release_error(semester_id) == Some(
            ScholarshipError::NotActive,
        ),
        sc.status == ScholarshipStatus::Active && !(1 <= semester_id <= sc.semesters@.len())
            ==> sc.release_error(semester_id) == Some(ScholarshipError::SemesterNotFound),
        sc.status == ScholarshipStatus::Active && 1 <= semester_id <= sc.semesters@.len()
            && sc.semesters@[semester_id - 1].released ==> sc.release_error(semester_id) == Some(
            ScholarshipError::AlreadyReleased,
        ),
        sc.status == ScholarshipStatus::Active && 1 <= semester_id <= sc.semesters@.len()
            && !sc.semesters@[semester_id - 1].released
            && !sc.semesters@[semester_id - 1].performance_verified ==> sc.release_error(
            semester_id,
        ) == Some(ScholarshipError::PerformanceNotVerified),
{
}

/// A payout pays the semester's own amount, marks just that semester paid,
/// adds the amount to what was disbursed, and completes the scholarship
/// exactly when no semester is left unpaid.
pub proof fn law_payout_effect(before: Scholarship, after: Scholarship, semester_id: u32, amount: i128)
    requires
        1 <= semester_id <= before.semesters@.len(),
        paid_out(before, after, semester_id, amount),
    ensures
        amount == before.semesters@[semester_id - 1].release_amount,
        after.semesters@.len() == before.semesters@.len(),
        after.semesters@[semester_id - 1].released,
        after.semesters@[semester_id - 1].performance_verified == before.semesters@[semester_id
            - 1].performance_verified,
        after.semesters@[semester_id - 1].release_amount == before.semesters@[semester_id
            - 1].release_amount,
        after.semesters@[semester_id - 1].min_gpa == before.semesters@[semester_id - 1].min_gpa,
        after.semesters@[semester_id - 1].semester_id == before.semesters@[semester_id
            - 1].semester_id,
        forall|j: int|
            0 <= j < before.semesters@.len() && j != semester_id - 1 ==> #[trigger] after.semesters@[j]
                == before.semesters@[j],
        after.disbursed_amount == before.disbursed_amount + amount,
        after.total_amount == before.total_amount,
        (after.status == ScholarshipStatus::Completed) <==> (forall|j: int|
            0 <= j < after.semesters@.len() ==> #[trigger] after.semesters@[j].released),
        after.status != ScholarshipStatus::Suspended,
{
}

/// Only the range of the amounts limits a payout: whenever the new disbursed
/// amount and what is then left unpaid fit in an `i128`, the payout fits.
pub proof fn law_payout_fits_when_in_range(sc: Scholarship, semester_id: u32)
    requires
        i128::MIN <= sc.disbursed_amount + sc.semesters@[semester_id - 1].release_amount
            <= i128::MAX,
        i128::MIN <= sc.total_amount - (sc.disbursed_amount + sc.semesters@[semester_id
            - 1].release_amount) <= i128::MAX,
    ensures
        sc.payout_fits(semester_id),
{
}

/// A suspension is refused exactly when the scholarship is not active, and
/// nothing else (verified or unpaid semesters included) stands in its way.
pub proof fn law_suspension_refused_only_when_inactive(sc: Scholarship)
    ensures
        sc.suspension_error() is None <==> sc.status == ScholarshipStatus::Active,
        sc.status != ScholarshipStatus::Active ==> sc.suspension_error() == Some(
            ScholarshipError::AlreadyInactive,
        ),
{
}

/// A suspension refunds every unpaid semester and leaves the semesters and
/// the paid amount as they were.
pub proof fn law_suspension_effect(before: Scholarship, after: Scholarship, refund: i128)
    requires
        before.wf(),
        suspended(before, after, refund),
    ensures
        refund == before.total_amount - before.disbursed_amount,
        refund == unreleased_total(before.semesters@),
        after.status == ScholarshipStatus::Suspended,
        after.semesters@ == before.semesters@,
        after.disbursed_amount == before.disbursed_amount,
        after.total_amount == before.total_amount,
{
    lemma_totals_split(before.semesters@);
}

/// A registry operation on scholarship `id` is stopped before the
/// scholarship is consulted exactly when the registry is not initialized or
/// no scholarship has that id.
pub proof fn law_lookup_refused_only_for_cause(reg: ScholarshipRegistry, id: u32)
    ensures
        reg.lookup_error(id) is None <==> (reg.admin_id() is Some && id < reg.records().len()),
        reg.admin_id() is None ==> reg.lookup_error(id) == Some(ScholarshipError::NotInitialized),
        reg.admin_id() is Some && id >= reg.records().len() ==> reg.lookup_error(id) == Some(
            ScholarshipError::ScholarshipNotFound,
        ),
{
}

/// Each refusal is reported by its own text.
pub proof fn law_error_texts()
    ensures
        error_text(ScholarshipError::AlreadyInitialized) == "Already initialized"@,
        error_text(ScholarshipError::NotInitialized) == "Not initialized"@,
        error_text(ScholarshipError::SemesterConfigMismatch) == "Semester config mismatch"@,
        error_text(ScholarshipError::AmountMismatch) == "Amounts must sum to total_amount"@,
        error_text(ScholarshipError::ScholarshipNotFound) == "Scholarship not found"@,
        error_text(ScholarshipError::NotActive) == "Scholarship not active"@,
        error_text(ScholarshipError::SemesterNotFound) == "Semester not found"@,
        error_text(ScholarshipError::SemesterAlreadyReleased) == "Semester already released"@,
        error_text(ScholarshipError::AlreadyReleased) == "Already released"@,
        error_text(ScholarshipError::PerformanceNotVerified)
            == "Performance not verified or GPA requirement not met"@,
        error_text(ScholarshipError::AlreadyInactive) == "Already inactive"@,
{
}

/// A deposit adds its amount to the escrow, a payout takes its amount away,
/// and no transfer leaves it as it was.
pub proof fn law_transfers_move_the_escrow(t: Option<Transfer>)
    ensures
        t is None ==> escrow_inflow(t) == 0,
        t matches Some(Transfer::Deposit { amount, .. }) ==> escrow_inflow(t) == amount,
        t matches Some(Transfer::Payout { amount, .. }) ==> escrow_inflow(t) == -amount,
{
}

/// The escrow of the whole registry is the sum of what each scholarship holds.
pub proof fn law_escrow_adds_up(records: Seq<Scholarship>, x: Scholarship)
    ensures
        escrow_total(Seq::<Scholarship>::empty()) == 0,
        escrow_total(records.push(x)) == escrow_total(records) + x.held(),
{
    assert(records.push(x).drop_last() =~= records);
}

/// An operation on scholarship `id` leaves the settings and every other
/// scholarship as they were.
pub proof fn law_operations_touch_one_scholarship(
    before: ScholarshipRegistry,
    after: ScholarshipRegistry,
    id: u32,
)
    requires
        before.same_but(&after, id),
    ensures
        after.admin_id() == before.admin_id(),
        after.token_id() == before.token_id(),
        after.records().len() == before.records().len(),
        forall|j: int|
            0 <= j < before.records().len() && j != id ==> #[trigger] after.records()[j]
                == before.records()[j],
{
}

} // verus!
