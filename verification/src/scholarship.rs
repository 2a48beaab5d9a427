use vstd::prelude::*;

use crate::error::ScholarshipError;
use crate::party::PartyId;
use crate::totals::{lemma_totals_split, lemma_totals_update};
use crate::wide::{wide_add, wide_equals, wide_value};

verus! {

/// Where a scholarship stands in its life.
#[derive(Debug, Clone, Copy, PartialEq, Eq, Structural)]
pub enum ScholarshipStatus {
    /// Funds are in escrow and semesters may still be paid out.
    Active,
    /// Every semester has been paid out.
    Completed,
    /// The sponsor stopped the scholarship; what was unpaid went back.
    Suspended,
}

/// One semester of a scholarship: its payout and the GPA it asks for.
#[derive(Debug, Clone, Copy, PartialEq, Eq, Structural)]
pub struct Semester {
    /// The semester's number, counted from 1.
    pub semester_id: u32,
    /// What the student receives for this semester.
    pub release_amount: i128,
    /// The lowest GPA, in hundredths, that unlocks the payout.
    pub min_gpa: u32,
    /// Whether the payout has been made.
    pub released: bool,
    /// Whether the last GPA reported for this semester met its minimum.
    pub performance_verified: bool,
}

/// A scholarship: a grant from a sponsor to a student, split into semesters.
#[derive(Debug, Clone)]
pub struct Scholarship {
    pub student: PartyId,
    pub sponsor: PartyId,
    /// The whole grant, locked in escrow when the scholarship was created.
    pub total_amount: i128,
    /// What has been paid out to the student so far.
    pub disbursed_amount: i128,
    pub status: ScholarshipStatus,
    pub semesters: Vec<Semester>,
}

/// The sum of a sequence of amounts.
pub open spec fn amounts_sum(s: Seq<i128>) -> int
    decreases s.len(),
{
    if s.len() == 0 {
        0
    } else {
        amounts_sum(s.drop_last()) + s.last()
    }
}

/// The sum of the payouts of all semesters.
pub open spec fn amount_total(s: Seq<Semester>) -> int
    decreases s.len(),
{
    if s.len() == 0 {
        0
    } else {
        amount_total(s.drop_last()) + s.last().release_amount
    }
}

/// The sum of the payouts of the semesters already paid out.
pub open spec fn released_total(s: Seq<Semester>) -> int
    decreases s.len(),
{
    if s.len() == 0 {
        0
    } else {
        released_total(s.drop_last()) + if s.last().released {
            s.last().release_amount as int
        } else {
            0
        }
    }
}

/// The sum of the payouts of the semesters not yet paid out.
pub open spec fn unreleased_total(s: Seq<Semester>) -> int
    decreases s.len(),
{
    if s.len() == 0 {
        0
    } else {
        unreleased_total(s.drop_last()) + if s.last().released {
            0
        } else {
            s.last().release_amount as int
        }
    }
}

/// Whether every semester has been paid out.
pub open spec fn all_released(s: Seq<Semester>) -> bool {
    forall|i: int| 0 <= i < s.len() ==> #[trigger] s[i].released
}

/// The semester as it stands after a GPA is reported for it.
pub open spec fn with_gpa(s: Semester, gpa: u32) -> Semester {
    Semester { performance_verified: gpa >= s.min_gpa, ..s }
}

/// The semester as it stands after its payout.
pub open spec fn paid(s: Semester) -> Semester {
    Semester { released: true, ..s }
}

/// The semester that a new scholarship holds at position `i`.
pub open spec fn fresh_semester(i: int, amount: i128, min_gpa: u32) -> Semester {
    Semester {
        semester_id: (i + 1) as u32,
        release_amount: amount,
        min_gpa,
        released: false,
        performance_verified: false,
    }
}

/// Why a scholarship with these figures cannot be created, if it cannot:
/// the semester lists are empty or differ in length, or the amounts (summed
/// exactly, whatever their signs) do not add up to the total.
pub open spec fn creation_error(total: i128, amounts: Seq<i128>, min_gpas: Seq<u32>) -> Option<
    ScholarshipError,
> {
    if amounts.len() == 0 || amounts.len() != min_gpas.len() {
        Some(ScholarshipError::SemesterConfigMismatch)
    } else if amounts_sum(amounts) != total {
        Some(ScholarshipError::AmountMismatch)
    } else {
        None
    }
}

/// `after` is `before` with the GPA `gpa` recorded for semester `semester_id`.
pub open spec fn gpa_recorded(before: Scholarship, after: Scholarship, semester_id: u32, gpa: u32) -> bool {
    &&& after.semesters@ == before.semesters@.update(
        semester_id - 1,
        with_gpa(before.semesters@[semester_id - 1], gpa),
    )
    &&& after.student == before.student
    &&& after.sponsor == before.sponsor
    &&& after.total_amount == before.total_amount
    &&& after.disbursed_amount == before.disbursed_amount
    &&& after.status == before.status
}

/// `after` is `before` once semester `semester_id` has been paid out, and
/// `amount` is that semester's payout.
pub open spec fn paid_out(before: Scholarship, after: Scholarship, semester_id: u32, amount: i128) -> bool {
    &&& amount == before.semesters@[semester_id - 1].release_amount
    &&& after.semesters@ == before.semesters@.update(
        semester_id - 1,
        paid(before.semesters@[semester_id - 1]),
    )
    &&& after.disbursed_amount == before.disbursed_amount + amount
    &&& after.status == if all_released(after.semesters@) {
        ScholarshipStatus::Completed
    } else {
        ScholarshipStatus::Active
    }
    &&& after.student == before.student
    &&& after.sponsor == before.sponsor
    &&& after.total_amount == before.total_amount
}

/// `after` is `before` suspended, and `refund` is what had not been paid out.
pub open spec fn suspended(before: Scholarship, after: Scholarship, refund: i128) -> bool {
    &&& refund == before.total_amount - before.disbursed_amount
    &&& after.status == ScholarshipStatus::Suspended
    &&& after.semesters@ == before.semesters@
    &&& after.student == before.student
    &&& after.sponsor == before.sponsor
    &&& after.total_amount == before.total_amount
    &&& after.disbursed_amount == before.disbursed_amount
}

impl Scholarship {
    /// The consistency that every stored scholarship keeps: semesters are
    /// numbered from 1 in order, the payouts add up to the total, what was
    /// paid out is recorded as disbursed, the part not yet paid fits in an
    /// `i128`, only verified semesters were paid, and the scholarship is
    /// completed exactly when every semester was paid.
    pub open spec fn wf(&self) -> bool {
        let s = self.semesters@;
        &&& 0 < s.len() <= u32::MAX
        &&& forall|i: int| 0 <= i < s.len() ==> #[trigger] s[i].semester_id == i + 1
        &&& forall|i: int| 0 <= i < s.len() ==> #[trigger] s[i].released ==> s[i].performance_verified
        &&& self.total_amount == amount_total(s)
        &&& self.disbursed_amount == released_total(s)
        &&& i128::MIN <= self.total_amount - self.disbursed_amount <= i128::MAX
        &&& (self.status == ScholarshipStatus::Completed) == all_released(s)
    }

    /// The part of the grant not yet paid to the student.
    pub open spec fn outstanding(&self) -> int {
        self.total_amount - self.disbursed_amount
    }

    /// What the escrow holds for this scholarship: the unpaid part of the
    /// grant while it is active, nothing once it is completed (all paid) or
    /// suspended (the unpaid part went back to the sponsor).
    pub open spec fn held(&self) -> int {
        if self.status == ScholarshipStatus::Active {
            self.total_amount - self.disbursed_amount
        } else {
            0
        }
    }

    /// The position of semester number `semester_id`, if the scholarship has it.
    pub open spec fn semester_position(&self, semester_id: u32) -> Option<int> {
        if 1 <= semester_id <= self.semesters@.len() {
            Some(semester_id - 1)
        } else {
            None
        }
    }

    /// Why reporting a GPA for semester `semester_id` is refused, if it is:
    /// the semester does not exist, or it was already paid out.
    pub open spec fn gpa_report_error(&self, semester_id: u32) -> Option<ScholarshipError> {
        if self.semester_position(semester_id) is None {
            Some(ScholarshipError::SemesterNotFound)
        } else if self.semesters@[semester_id - 1].released {
            Some(ScholarshipError::SemesterAlreadyReleased)
        } else {
            None
        }
    }

    /// Why paying out semester `semester_id` is refused, if it is.
    pub open spec fn release_error(&self, semester_id: u32) -> Option<ScholarshipError> {
        if self.status != ScholarshipStatus::Active {
            Some(ScholarshipError::NotActive)
        } else if self.semester_position(semester_id) is None {
            Some(ScholarshipError::SemesterNotFound)
        } else if self.semesters@[semester_id - 1].released {
            Some(ScholarshipError::AlreadyReleased)
        } else if !self.semesters@[semester_id - 1].performance_verified {
            Some(ScholarshipError::PerformanceNotVerified)
        } else {
            None
        }
    }

    /// Whether paying out semester `semester_id` keeps the amounts in range:
    /// the new disbursed amount, and what is then left unpaid, fit in an `i128`.
    pub open spec fn payout_fits(&self, semester_id: u32) -> bool {
        let amount = self.semesters@[semester_id - 1].release_amount;
        &&& i128::MIN <= self.disbursed_amount + amount <= i128::MAX
        &&& i128::MIN <= self.total_amount - (self.disbursed_amount + amount) <= i128::MAX
    }

    /// Why suspending the scholarship is refused, if it is.
    pub open spec fn suspension_error(&self) -> Option<ScholarshipError> {
        if self.status != ScholarshipStatus::Active {
            Some(ScholarshipError::AlreadyInactive)
        } else {
            None
        }
    }
}

impl Scholarship {
    /// Builds a new, active scholarship from the sponsor's figures: one
    /// semester per amount, numbered from 1, each with its minimum GPA,
    /// nothing paid and nothing verified yet.
    pub fn create(
        sponsor: PartyId,
        student: PartyId,
        total_amount: i128,
        semester_amounts: &Vec<i128>,
        min_gpas: &Vec<u32>,
    ) -> (res: Result<Scholarship, ScholarshipError>)
        requires
            semester_amounts@.len() <= u32::MAX,
        ensures
            res is Ok <==> (semester_amounts@.len() > 0 && semester_amounts@.len() == min_gpas@.len()
                && amounts_sum(semester_amounts@) == total_amount),
            match res {
                Err(e) => creation_error(total_amount, semester_amounts@, min_gpas@) == Some(e),
                Ok(sc) => {
                    &&& creation_error(total_amount, semester_amounts@, min_gpas@) is None
                    &&& sc.wf()
                    &&& sc.student@ == student@
                    &&& sc.sponsor@ == sponsor@
                    &&& sc.total_amount == total_amount
                    &&& sc.disbursed_amount == 0
                    &&& sc.status == ScholarshipStatus::Active
                    &&& sc.semesters@.len() == semester_amounts@.len()
                    &&& forall|i: int|
                        0 <= i < sc.semesters@.len() ==> #[trigger] sc.semesters@[i]
                            == fresh_semester(i, semester_amounts@[i], min_gpas@[i])
                    &&& forall|i: int|
                        0 <= i < sc.semesters@.len() ==> {
                            &&& (#[trigger] sc.semesters@[i]).semester_id == i + 1
                            &&& sc.semesters@[i].release_amount == semester_amounts@[i]
                            &&& sc.semesters@[i].min_gpa == min_gpas@[i]
                            &&& !sc.semesters@[i].released
                            &&& !sc.semesters@[i].performance_verified
                        }
                },
            },
    {
        let n = semester_amounts.len();
        if n == 0 || n != min_gpas.len() {
            return Err(ScholarshipError::SemesterConfigMismatch);
        }
        let mut low: i128 = 0;
        let mut wraps: i128 = 0;
        let mut i: usize = 0;
        while i < n
            invariant
                n == semester_amounts@.len(),
                n == min_gpas@.len(),
                0 < n <= u32::MAX,
                i <= n,
                -(i as int) <= wraps <= i,
                wide_value(low, wraps) == amounts_sum(semester_amounts@.take(i as int)),
            decreases n - i,
        {
            assert(semester_amounts@.take(i + 1).drop_last() =~= semester_amounts@.take(i as int));
            assert(semester_amounts@.take(i + 1).last() == semester_amounts@[i as int]);
            let (l, w) = wide_add(low, wraps, semester_amounts[i]);
            low = l;
            wraps = w;
            i = i + 1;
        }
        assert(semester_amounts@.take(n as int) =~= semester_amounts@);
        if !wide_equals(low, wraps, total_amount) {
            return Err(ScholarshipError::AmountMismatch);
        }
        let mut semesters: Vec<Semester> = Vec::new();
        let mut i: usize = 0;
        while i < n
            invariant
                n == semester_amounts@.len(),
                n == min_gpas@.len(),
                n <= u32::MAX,
                i <= n,
                semesters@.len() == i,
                forall|j: int|
                    0 <= j < i ==> #[trigger] semesters@[j] == fresh_semester(
                        j,
                        semester_amounts@[j],
                        min_gpas@[j],
                    ),
                amount_total(semesters@) == amounts_sum(semester_amounts@.take(i as int)),
                released_total(semesters@) == 0,
            decreases n - i,
        {
            let ghost before = semesters@;
            semesters.push(
                Semester {
                    semester_id: (i + 1) as u32,
                    release_amount: semester_amounts[i],
                    min_gpa: min_gpas[i],
                    released: false,
                    performance_verified: false,
                },
            );
            assert(semesters@.drop_last() =~= before);
            assert(semester_amounts@.take(i + 1).drop_last() =~= semester_amounts@.take(i as int));
            i = i + 1;
        }
        assert(semester_amounts@.take(n as int) =~= semester_amounts@);
        assert(!semesters@[0].released);
        Ok(
            Scholarship {
                student,
                sponsor,
                total_amount,
                disbursed_amount: 0,
                status: ScholarshipStatus::Active,
                semesters,
            },
        )
    }
}

impl Scholarship {
    /// Whether every semester has been paid out.
    pub fn every_semester_released(&self) -> (res: bool)
        ensures
            res == all_released(self.semesters@),
    {
        let n = self.semesters.len();
        let mut i: usize = 0;
        while i < n
            invariant
                n == self.semesters@.len(),
                i <= n,
                forall|j: int| 0 <= j < i ==> #[trigger] self.semesters@[j].released,
            decreases n - i,
        {
            if !self.semesters[i].released {
                return false;
            }
            i = i + 1;
        }
        true
    }

    /// The part of the grant not yet paid to the student: the total less
    /// what was disbursed, which is the sum of the unpaid semesters.
    pub fn locked_balance(&self) -> (res: i128)
        requires
            self.wf(),
        ensures
            res == self.outstanding(),
            res == unreleased_total(self.semesters@),
    {
        proof {
            lemma_totals_split(self.semesters@);
        }
        self.total_amount - self.disbursed_amount
    }

    /// Whether paying out semester `semester_id`, if it would be accepted,
    /// keeps the amounts in range (see `payout_fits`).
    pub fn payout_in_range(&self, semester_id: u32) -> (res: bool)
        requires
            self.wf(),
        ensures
            res == (self.release_error(semester_id) is None ==> self.payout_fits(semester_id)),
    {
        if self.status != ScholarshipStatus::Active || semester_id == 0 || semester_id as usize
            > self.semesters.len() {
            return true;
        }
        let sem = self.semesters[(semester_id - 1) as usize];
        if sem.released || !sem.performance_verified {
            return true;
        }
        match self.disbursed_amount.checked_add(sem.release_amount) {
            Some(d) => self.total_amount.checked_sub(d).is_some(),
            None => false,
        }
    }

    /// Records the GPA reported for semester `semester_id`: the semester
    /// counts as verified exactly when the GPA is at least its minimum.
    pub fn record_gpa(&mut self, semester_id: u32, gpa: u32) -> (res: Result<(), ScholarshipError>)
        requires
            old(self).wf(),
        ensures
            final(self).wf(),
            res is Ok <==> (1 <= semester_id <= old(self).semesters@.len()
                && !old(self).semesters@[semester_id - 1].released),
            res is Ok ==> final(self).semesters@[semester_id - 1].performance_verified == (gpa
                >= old(self).semesters@[semester_id - 1].min_gpa),
            match res {
                Err(e) => {
                    &&& old(self).gpa_report_error(semester_id) == Some(e)
                    &&& *final(self) == *old(self)
                },
                Ok(_) => {
                    &&& old(self).gpa_report_error(semester_id) is None
                    &&& gpa_recorded(*old(self), *final(self), semester_id, gpa)
                },
            },
    {
        if semester_id == 0 || semester_id as usize > self.semesters.len() {
            return Err(ScholarshipError::SemesterNotFound);
        }
        let k = (semester_id - 1) as usize;
        let sem = self.semesters[k];
        if sem.released {
            return Err(ScholarshipError::SemesterAlreadyReleased);
        }
        let updated = Semester { performance_verified: gpa >= sem.min_gpa, ..sem };
        proof {
            lemma_totals_update(self.semesters@, k as int, updated);
        }
        let ghost before = self.semesters@;
        self.semesters[k] = updated;
        assert(all_released(self.semesters@) == all_released(before)) by {
            if all_released(before) {
                assert forall|i: int| 0 <= i < self.semesters@.len() implies #[trigger] self.semesters@[i].released by {
                    assert(before[i].released);
                }
            }
            if all_released(self.semesters@) {
                assert forall|i: int| 0 <= i < before.len() implies #[trigger] before[i].released by {
                    assert(self.semesters@[i].released);
                }
            }
        }
        Ok(())
    }

    /// Pays out semester `semester_id`: it is marked paid, its amount is added
    /// to what was disbursed and returned, and the scholarship is completed
    /// when this was the last unpaid semester.
    pub fn release(&mut self, semester_id: u32) -> (res: Result<i128, ScholarshipError>)
        requires
            old(self).wf(),
            old(self).release_error(semester_id) is None ==> old(self).payout_fits(semester_id),
        ensures
            final(self).wf(),
            res is Ok <==> (old(self).status == ScholarshipStatus::Active && 1 <= semester_id
                <= old(self).semesters@.len() && !old(self).semesters@[semester_id - 1].released
                && old(self).semesters@[semester_id - 1].performance_verified),
            res is Ok ==> res->Ok_0 == old(self).semesters@[semester_id - 1].release_amount,
            match res {
                Err(e) => {
                    &&& old(self).release_error(semester_id) == Some(e)
                    &&& *final(self) == *old(self)
                },
                Ok(amount) => {
                    &&& old(self).release_error(semester_id) is None
                    &&& paid_out(*old(self), *final(self), semester_id, amount)
                },
            },
    {
        if self.status != ScholarshipStatus::Active {
            return Err(ScholarshipError::NotActive);
        }
        if semester_id == 0 || semester_id as usize > self.semesters.len() {
            return Err(ScholarshipError::SemesterNotFound);
        }
        let k = (semester_id - 1) as usize;
        let sem = self.semesters[k];
        if sem.released {
            return Err(ScholarshipError::AlreadyReleased);
        }
        if !sem.performance_verified {
            return Err(ScholarshipError::PerformanceNotVerified);
        }
        let amount = sem.release_amount;
        let updated = Semester { released: true, ..sem };
        proof {
            lemma_totals_update(self.semesters@, k as int, updated);
        }
        self.semesters[k] = updated;
        self.disbursed_amount = self.disbursed_amount + amount;
        if self.every_semester_released() {
            self.status = ScholarshipStatus::Completed;
        }
        Ok(amount)
    }

    /// Suspends an active scholarship and returns what the sponsor gets back:
    /// everything not yet paid out.
    pub fn suspend(&mut self) -> (res: Result<i128, ScholarshipError>)
        requires
            old(self).wf(),
        ensures
            final(self).wf(),
            res is Ok <==> old(self).status == ScholarshipStatus::Active,
            res is Ok ==> res->Ok_0 == old(self).total_amount - old(self).disbursed_amount,
            match res {
                Err(e) => {
                    &&& old(self).suspension_error() == Some(e)
                    &&& *final(self) == *old(self)
                },
                Ok(refund) => {
                    &&& old(self).suspension_error() is None
                    &&& refund == unreleased_total(old(self).semesters@)
                    &&& suspended(*old(self), *final(self), refund)
                },
            },
    {
        if self.status != ScholarshipStatus::Active {
            return Err(ScholarshipError::AlreadyInactive);
        }
        let refund = self.locked_balance();
        self.status = ScholarshipStatus::Suspended;
        Ok(refund)
    }
}

impl Scholarship {
    /// Whether the scholarship is consistent (see `wf`); used to check a
    /// record read back from storage.
    pub fn is_consistent(&self) -> (res: bool)
        ensures
            res == self.wf(),
    {
        let n = self.semesters.len();
        if n == 0 || n > u32::MAX as usize {
            return false;
        }
        let ghost s = self.semesters@;
        let mut amount_low: i128 = 0;
        let mut amount_wraps: i128 = 0;
        let mut released_low: i128 = 0;
        let mut released_wraps: i128 = 0;
        let mut every_released = true;
        let mut i: usize = 0;
        while i < n
            invariant
                n == s.len(),
                s == self.semesters@,
                0 < n <= u32::MAX,
                i <= n,
                forall|j: int| 0 <= j < i ==> #[trigger] s[j].semester_id == j + 1,
                forall|j: int| 0 <= j < i ==> #[trigger] s[j].released ==> s[j].performance_verified,
                -(i as int) <= amount_wraps <= i,
                -(i as int) <= released_wraps <= i,
                wide_value(amount_low, amount_wraps) == amount_total(s.take(i as int)),
                wide_value(released_low, released_wraps) == released_total(s.take(i as int)),
                every_released == all_released(s.take(i as int)),
            decreases n - i,
        {
            let sem = self.semesters[i];
            if sem.semester_id as usize != i + 1 || (sem.released && !sem.performance_verified) {
                return false;
            }
            assert(s.take(i + 1).drop_last() =~= s.take(i as int));
            assert(s.take(i + 1).last() == sem);
            let (al, aw) = wide_add(amount_low, amount_wraps, sem.release_amount);
            amount_low = al;
            amount_wraps = aw;
            if sem.released {
                let (rl, rw) = wide_add(released_low, released_wraps, sem.release_amount);
                released_low = rl;
                released_wraps = rw;
            }
            proof {
                let t = s.take(i + 1);
                if all_released(t) {
                    assert forall|j: int| 0 <= j < i implies #[trigger] s.take(i as int)[j].released by {
                        assert(t[j] == s.take(i as int)[j]);
                    }
                }
                if all_released(s.take(i as int)) && sem.released {
                    assert forall|j: int| 0 <= j < i + 1 implies #[trigger] t[j].released by {
                        if j < i {
                            assert(t[j] == s.take(i as int)[j]);
                        }
                    }
                }
                if !all_released(s.take(i as int)) {
                    let w = choose|j: int| 0 <= j < i && !(#[trigger] s.take(i as int)[j]).released;
                    assert(t[w] == s.take(i as int)[w]);
                }
                if !sem.released {
                    assert(!t[i as int].released);
                }
            }
            every_released = every_released && sem.released;
            i = i + 1;
        }
        assert(s.take(n as int) =~= s);
        wide_equals(amount_low, amount_wraps, self.total_amount) && wide_equals(
            released_low,
            released_wraps,
            self.disbursed_amount,
        ) && self.total_amount.checked_sub(self.disbursed_amount).is_some() && (self.status
            == ScholarshipStatus::Completed) == every_released
    }
}

} // verus!
