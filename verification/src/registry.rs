use vstd::prelude::*;

use crate::error::ScholarshipError;
use crate::party::PartyId;
use crate::scholarship::{
    creation_error, fresh_semester, gpa_recorded, paid_out, suspended, Scholarship,
    ScholarshipStatus,
};

verus! {

/// The registry's settings: who administers it and which token it escrows.
#[derive(Debug, Clone)]
pub struct Config {
    pub admin: PartyId,
    pub token: PartyId,
}

/// A token movement that carries out a change to the registry.
#[derive(Debug)]
pub enum Transfer {
    /// `amount` moves from `from` into escrow.
    Deposit { from: PartyId, amount: i128 },
    /// `amount` moves out of escrow to `to`.
    Payout { to: PartyId, amount: i128 },
}

/// What the host must do around an accepted change: obtain the
/// authorization of `authorizer`, and make `transfer` in the registry's token.
#[derive(Debug)]
pub struct Effects {
    pub authorizer: PartyId,
    pub transfer: Option<Transfer>,
}

/// How much a transfer adds to the escrow (a payout takes away).
pub open spec fn escrow_inflow(t: Option<Transfer>) -> int {
    match t {
        None => 0,
        Some(Transfer::Deposit { amount, .. }) => amount as int,
        Some(Transfer::Payout { amount, .. }) => -amount,
    }
}

/// What the escrow holds for all the scholarships together.
pub open spec fn escrow_total(records: Seq<Scholarship>) -> int
    decreases records.len(),
{
    if records.len() == 0 {
        0
    } else {
        escrow_total(records.drop_last()) + records.last().held()
    }
}

/// Replacing one scholarship changes the escrow by the difference in what it holds.
pub proof fn lemma_escrow_update(records: Seq<Scholarship>, k: int, x: Scholarship)
    requires
        0 <= k < records.len(),
    ensures
        escrow_total(records.update(k, x)) == escrow_total(records) - records[k].held() + x.held(),
    decreases records.len(),
{
    let t = records.update(k, x);
    if k == records.len() - 1 {
        assert(t.drop_last() =~= records.drop_last());
    } else {
        assert(t.drop_last() =~= records.drop_last().update(k, x));
        lemma_escrow_update(records.drop_last(), k, x);
    }
}

/// Adding a scholarship adds what it holds to the escrow.
pub proof fn lemma_escrow_push(records: Seq<Scholarship>, x: Scholarship)
    ensures
        escrow_total(records.push(x)) == escrow_total(records) + x.held(),
{
    assert(records.push(x).drop_last() =~= records);
}

/// The registry of scholarships: its settings, once initialized, and every
/// scholarship ever created, the one with id `i` at position `i`.
#[derive(Clone)]
pub struct ScholarshipRegistry {
    config: Option<Config>,
    scholarships: Vec<Scholarship>,
}

impl ScholarshipRegistry {
    /// The scholarships, by id.
    pub closed spec fn records(&self) -> Seq<Scholarship> {
        self.scholarships@
    }

    /// The administrator, once initialized.
    pub closed spec fn admin_id(&self) -> Option<Seq<u8>> {
        match self.config {
            Some(c) => Some(c.admin@),
            None => None,
        }
    }

    /// The escrowed token, once initialized.
    pub closed spec fn token_id(&self) -> Option<Seq<u8>> {
        match self.config {
            Some(c) => Some(c.token@),
            None => None,
        }
    }

    /// Every scholarship is consistent, and every id fits in a `u32`.
    pub open spec fn wf(&self) -> bool {
        &&& self.records().len() <= u32::MAX
        &&& forall|i: int| 0 <= i < self.records().len() ==> #[trigger] self.records()[i].wf()
    }

    /// Why an operation on scholarship `id` is refused before the scholarship
    /// itself is consulted, if it is: before `initialize` the administrator
    /// and the token are unknown, and an id past the last one names nothing.
    pub open spec fn lookup_error(&self, id: u32) -> Option<ScholarshipError> {
        if self.admin_id() is None {
            Some(ScholarshipError::NotInitialized)
        } else if id >= self.records().len() {
            Some(ScholarshipError::ScholarshipNotFound)
        } else {
            None
        }
    }

    /// `after` differs from `self` at most in scholarship `id`.
    pub open spec fn same_but(&self, after: &ScholarshipRegistry, id: u32) -> bool {
        &&& after.admin_id() == self.admin_id()
        &&& after.token_id() == self.token_id()
        &&& after.records().len() == self.records().len()
        &&& forall|j: int|
            0 <= j < self.records().len() && j != id ==> #[trigger] after.records()[j]
                == self.records()[j]
    }

    /// An empty registry, not yet initialized.
    pub fn new() -> (res: Self)
        ensures
            res.wf(),
            res.records().len() == 0,
            res.admin_id() is None,
            res.token_id() is None,
    {
        ScholarshipRegistry { config: None, scholarships: Vec::new() }
    }

    /// Sets the administrator and the escrowed token, once.
    pub fn initialize(&mut self, admin: PartyId, token: PartyId) -> (res: Result<
        Effects,
        ScholarshipError,
    >)
        requires
            old(self).wf(),
        ensures
            final(self).wf(),
            final(self).records() == old(self).records(),
            match res {
                Err(e) => {
                    &&& e == ScholarshipError::AlreadyInitialized
                    &&& old(self).admin_id() is Some
                    &&& final(self).admin_id() == old(self).admin_id()
                    &&& final(self).token_id() == old(self).token_id()
                },
                Ok(eff) => {
                    &&& old(self).admin_id() is None
                    &&& final(self).admin_id() == Some(admin@)
                    &&& final(self).token_id() == Some(token@)
                    &&& eff.authorizer@ == admin@
                    &&& eff.transfer is None
                },
            },
    {
        if self.config.is_some() {
            return Err(ScholarshipError::AlreadyInitialized);
        }
        let authorizer = admin.clone();
        self.config = Some(Config { admin, token });
        Ok(Effects { authorizer, transfer: None })
    }
    /// Creates a scholarship with the next id, escrowing its whole grant
    /// from the sponsor.
    pub fn create_scholarship(
        &mut self,
        sponsor: PartyId,
        student: PartyId,
        total_amount: i128,
        semester_amounts: &Vec<i128>,
        min_gpas: &Vec<u32>,
    ) -> (res: Result<(u32, Effects), ScholarshipError>)
        requires
            old(self).wf(),
            old(self).records().len() < u32::MAX,
            semester_amounts@.len() <= u32::MAX,
        ensures
            final(self).wf(),
            final(self).admin_id() == old(self).admin_id(),
            final(self).token_id() == old(self).token_id(),
            match res {
                Err(e) => {
                    &&& if old(self).admin_id() is None {
                        e == ScholarshipError::NotInitialized
                    } else {
                        creation_error(total_amount, semester_amounts@, min_gpas@) == Some(e)
                    }
                    &&& final(self).records() == old(self).records()
                },
                Ok((id, eff)) => {
                    let sc = final(self).records()[id as int];
                    &&& old(self).admin_id() is Some
                    &&& creation_error(total_amount, semester_amounts@, min_gpas@) is None
                    &&& id == old(self).records().len()
                    &&& final(self).records() == old(self).records().push(sc)
                    &&& sc.student@ == student@
                    &&& sc.sponsor@ == sponsor@
                    &&& sc.total_amount == total_amount
                    &&& sc.disbursed_amount == 0
                    &&& sc.status == ScholarshipStatus::Active
                    &&& sc.semesters@.len() == semester_amounts@.len()
                    &&& forall|i: int|
                        0 <= i < sc.semesters@.len() ==> #[trigger] sc.semesters@[i]
                            == fresh_semester(i, semester_amounts@[i], min_gpas@[i])
                    &&& eff.authorizer@ == sponsor@
                    &&& eff.transfer matches Some(Transfer::Deposit { from, amount }) && from@
                        == sponsor@ && amount == total_amount
                    &&& escrow_total(final(self).records()) == escrow_total(old(self).records())
                        + escrow_inflow(eff.transfer)
                },
            },
    {
        if self.config.is_none() {
            return Err(ScholarshipError::NotInitialized);
        }
        let authorizer = sponsor.clone();
        let payer = sponsor.clone();
        let sc = match Scholarship::create(sponsor, student, total_amount, semester_amounts, min_gpas) {
            Ok(sc) => sc,
            Err(e) => {
                return Err(e);
            },
        };
        let id = self.scholarships.len() as u32;
        proof {
            lemma_escrow_push(self.scholarships@, sc);
        }
        self.scholarships.push(sc);
        Ok(
            (
                id,
                Effects {
                    authorizer,
                    transfer: Some(Transfer::Deposit { from: payer, amount: total_amount }),
                },
            ),
        )
    }
    /// Records the GPA the administrator reports for a semester of scholarship
    /// `id`: the semester counts as verified exactly when the GPA is at least
    /// its minimum.
    pub fn verify_performance(&mut self, id: u32, semester_id: u32, gpa: u32) -> (res: Result<
        Effects,
        ScholarshipError,
    >)
        requires
            old(self).wf(),
        ensures
            final(self).wf(),
            old(self).same_but(&*final(self), id),
            match res {
                Err(e) => {
                    &&& match old(self).lookup_error(id) {
                        Some(le) => e == le,
                        None => old(self).records()[id as int].gpa_report_error(semester_id)
                            == Some(e),
                    }
                    &&& final(self).records() == old(self).records()
                },
                Ok(eff) => {
                    &&& old(self).lookup_error(id) is None
                    &&& old(self).records()[id as int].gpa_report_error(semester_id) is None
                    &&& gpa_recorded(
                        old(self).records()[id as int],
                        final(self).records()[id as int],
                        semester_id,
                        gpa,
                    )
                    &&& Some(eff.authorizer@) == old(self).admin_id()
                    &&& eff.transfer is None
                    &&& escrow_total(final(self).records()) == escrow_total(old(self).records())
                        + escrow_inflow(eff.transfer)
                },
            },
    {
        let authorizer = match &self.config {
            Some(c) => c.admin.clone(),
            None => {
                return Err(ScholarshipError::NotInitialized);
            },
        };
        if id as usize >= self.scholarships.len() {
            return Err(ScholarshipError::ScholarshipNotFound);
        }
        let k = id as usize;
        let ghost before = self.scholarships@;
        let r = self.scholarships[k].record_gpa(semester_id, gpa);
        proof {
            lemma_escrow_update(before, k as int, self.scholarships@[k as int]);
            if r is Err {
                assert(self.scholarships@ =~= before);
            }
        }
        match r {
            Ok(()) => Ok(Effects { authorizer, transfer: None }),
            Err(e) => Err(e),
        }
    }

    /// Pays out a verified semester of scholarship `id` to its student, and
    /// returns the amount paid.
    pub fn release_semester_funds(&mut self, id: u32, semester_id: u32) -> (res: Result<
        (i128, Effects),
        ScholarshipError,
    >)
        requires
            old(self).wf(),
            old(self).lookup_error(id) is None && old(self).records()[id as int].release_error(
                semester_id,
            ) is None ==> old(self).records()[id as int].payout_fits(semester_id),
        ensures
            final(self).wf(),
            old(self).same_but(&*final(self), id),
            match res {
                Err(e) => {
                    &&& match old(self).lookup_error(id) {
                        Some(le) => e == le,
                        None => old(self).records()[id as int].release_error(semester_id) == Some(
                            e,
                        ),
                    }
                    &&& final(self).records() == old(self).records()
                },
                Ok((amount, eff)) => {
                    &&& old(self).lookup_error(id) is None
                    &&& old(self).records()[id as int].release_error(semester_id) is None
                    &&& paid_out(
                        old(self).records()[id as int],
                        final(self).records()[id as int],
                        semester_id,
                        amount,
                    )
                    &&& Some(eff.authorizer@) == old(self).admin_id()
                    &&& eff.transfer matches Some(Transfer::Payout { to, amount: paid }) && to@
                        == old(self).records()[id as int].student@ && paid == amount
                    &&& escrow_total(final(self).records()) == escrow_total(old(self).records())
                        + escrow_inflow(eff.transfer)
                },
            },
    {
        let authorizer = match &self.config {
            Some(c) => c.admin.clone(),
            None => {
                return Err(ScholarshipError::NotInitialized);
            },
        };
        if id as usize >= self.scholarships.len() {
            return Err(ScholarshipError::ScholarshipNotFound);
        }
        let k = id as usize;
        let ghost before = self.scholarships@;
        let r = self.scholarships[k].release(semester_id);
        proof {
            lemma_escrow_update(before, k as int, self.scholarships@[k as int]);
            if r is Err {
                assert(self.scholarships@ =~= before);
            } else {
                crate::totals::lemma_totals_split(before[k as int].semesters@);
                crate::totals::lemma_totals_split(self.scholarships@[k as int].semesters@);
                if crate::scholarship::all_released(self.scholarships@[k as int].semesters@) {
                    crate::totals::lemma_all_released_owes_nothing(
                        self.scholarships@[k as int].semesters@,
                    );
                }
            }
        }
        match r {
            Ok(amount) => {
                let to = self.scholarships[k].student.clone();
                Ok((amount, Effects { authorizer, transfer: Some(Transfer::Payout { to, amount }) }))
            },
            Err(e) => Err(e),
        }
    }

    /// Suspends scholarship `id` and refunds to its sponsor everything not
    /// yet paid out; returns the refund.
    pub fn suspend_scholarship(&mut self, id: u32) -> (res: Result<(i128, Effects), ScholarshipError>)
        requires
            old(self).wf(),
        ensures
            final(self).wf(),
            old(self).same_but(&*final(self), id),
            match res {
                Err(e) => {
                    &&& match old(self).lookup_error(id) {
                        Some(le) => e == le,
                        None => old(self).records()[id as int].suspension_error() == Some(e),
                    }
                    &&& final(self).records() == old(self).records()
                },
                Ok((refund, eff)) => {
                    &&& old(self).lookup_error(id) is None
                    &&& old(self).records()[id as int].suspension_error() is None
                    &&& suspended(old(self).records()[id as int], final(self).records()[id as int], refund)
                    &&& eff.authorizer@ == old(self).records()[id as int].sponsor@
                    &&& if refund != 0 {
                        eff.transfer matches Some(Transfer::Payout { to, amount }) && to@
                            == old(self).records()[id as int].sponsor@ && amount == refund
                    } else {
                        eff.transfer is None
                    }
                    &&& escrow_total(final(self).records()) == escrow_total(old(self).records())
                        + escrow_inflow(eff.transfer)
                },
            },
    {
        if self.config.is_none() {
            return Err(ScholarshipError::NotInitialized);
        }
        if id as usize >= self.scholarships.len() {
            return Err(ScholarshipError::ScholarshipNotFound);
        }
        let k = id as usize;
        let ghost before = self.scholarships@;
        let r = self.scholarships[k].suspend();
        proof {
            lemma_escrow_update(before, k as int, self.scholarships@[k as int]);
            if r is Err {
                assert(self.scholarships@ =~= before);
            }
        }
        match r {
            Ok(refund) => {
                let authorizer = self.scholarships[k].sponsor.clone();
                let transfer = if refund != 0 {
                    Some(Transfer::Payout { to: self.scholarships[k].sponsor.clone(), amount: refund })
                } else {
                    None
                };
                Ok((refund, Effects { authorizer, transfer }))
            },
            Err(e) => Err(e),
        }
    }
    /// Whether the registry has been initialized.
    pub fn is_initialized(&self) -> (res: bool)
        ensures
            res == (self.admin_id() is Some),
    {
        self.config.is_some()
    }

    /// The administrator, once initialized.
    pub fn admin(&self) -> (res: Option<&PartyId>)
        ensures
            match res {
                Some(a) => self.admin_id() == Some(a@),
                None => self.admin_id() is None,
            },
    {
        match &self.config {
            Some(c) => Some(&c.admin),
            None => None,
        }
    }

    /// The escrowed token, once initialized.
    pub fn token(&self) -> (res: Option<&PartyId>)
        ensures
            match res {
                Some(t) => self.token_id() == Some(t@),
                None => self.token_id() is None,
            },
    {
        match &self.config {
            Some(c) => Some(&c.token),
            None => None,
        }
    }

    /// How many scholarships have been created; also the next id.
    pub fn scholarship_count(&self) -> (res: usize)
        ensures
            res == self.records().len(),
    {
        self.scholarships.len()
    }

    /// Whether paying out semester `semester_id` of scholarship `id`, if it
    /// would be accepted, keeps the amounts in range (see `payout_fits`); a
    /// payout may be asked for only where it does.
    pub fn payout_in_range(&self, id: u32, semester_id: u32) -> (res: bool)
        requires
            self.wf(),
        ensures
            res == (self.lookup_error(id) is None && self.records()[id as int].release_error(
                semester_id,
            ) is None ==> self.records()[id as int].payout_fits(semester_id)),
    {
        if self.config.is_none() || id as usize >= self.scholarships.len() {
            return true;
        }
        self.scholarships[id as usize].payout_in_range(semester_id)
    }

    /// Scholarship `id`, if it exists.
    pub fn get_scholarship(&self, id: u32) -> (res: Option<&Scholarship>)
        ensures
            match res {
                Some(sc) => id < self.records().len() && *sc == self.records()[id as int],
                None => id >= self.records().len(),
            },
    {
        if (id as usize) < self.scholarships.len() {
            Some(&self.scholarships[id as usize])
        } else {
            None
        }
    }

    /// The part of scholarship `id`'s grant not yet paid to its student.
    pub fn get_locked_balance(&self, id: u32) -> (res: Result<i128, ScholarshipError>)
        requires
            self.wf(),
        ensures
            match res {
                Ok(v) => {
                    &&& id < self.records().len()
                    &&& v == self.records()[id as int].outstanding()
                },
                Err(e) => e == ScholarshipError::ScholarshipNotFound && id >= self.records().len(),
            },
    {
        if (id as usize) < self.scholarships.len() {
            Ok(self.scholarships[id as usize].locked_balance())
        } else {
            Err(ScholarshipError::ScholarshipNotFound)
        }
    }

    /// The id of the most recent scholarship of `student`, if there is one.
    pub fn student_scholarship_id(&self, student: &PartyId) -> (res: Option<u32>)
        requires
            self.wf(),
        ensures
            match res {
                Some(id) => {
                    &&& id < self.records().len()
                    &&& self.records()[id as int].student@ == student@
                    &&& forall|j: int|
                        id < j < self.records().len() ==> #[trigger] self.records()[j].student@
                            != student@
                },
                None => forall|j: int|
                    0 <= j < self.records().len() ==> #[trigger] self.records()[j].student@
                        != student@,
            },
    {
        let mut i: usize = self.scholarships.len();
        while i > 0
            invariant
                i <= self.records().len(),
                self.records().len() <= u32::MAX,
                self.scholarships@ == self.records(),
                forall|j: int|
                    i <= j < self.records().len() ==> #[trigger] self.records()[j].student@
                        != student@,
            decreases i,
        {
            i = i - 1;
            if self.scholarships[i].student.same_as(student) {
                return Some(i as u32);
            }
        }
        None
    }

    /// The most recent scholarship of `student`, if there is one.
    pub fn get_student_scholarship(&self, student: &PartyId) -> (res: Option<&Scholarship>)
        requires
            self.wf(),
        ensures
            match res {
                Some(sc) => exists|id: int|
                    {
                        &&& 0 <= id < self.records().len()
                        &&& *sc == #[trigger] self.records()[id]
                        &&& sc.student@ == student@
                        &&& forall|j: int|
                            id < j < self.records().len() ==> #[trigger] self.records()[j].student@
                                != student@
                    },
                None => forall|j: int|
                    0 <= j < self.records().len() ==> #[trigger] self.records()[j].student@
                        != student@,
            },
    {
        match self.student_scholarship_id(student) {
            Some(id) => Some(&self.scholarships[id as usize]),
            None => None,
        }
    }
    /// Rebuilds a registry from stored settings and scholarships, if every
    /// scholarship is consistent and every id fits in a `u32`.
    pub fn from_parts(config: Option<Config>, scholarships: Vec<Scholarship>) -> (res: Option<Self>)
        ensures
            res is Some <==> (scholarships@.len() <= u32::MAX && forall|i: int|
                0 <= i < scholarships@.len() ==> #[trigger] scholarships@[i].wf()),
            match res {
                Some(r) => {
                    &&& r.wf()
                    &&& r.records() == scholarships@
                    &&& r.admin_id() == match config {
                        Some(c) => Some(c.admin@),
                        None => None,
                    }
                    &&& r.token_id() == match config {
                        Some(c) => Some(c.token@),
                        None => None,
                    }
                },
                None => true,
            },
    {
        let n = scholarships.len();
        if n > u32::MAX as usize {
            return None;
        }
        let mut i: usize = 0;
        while i < n
            invariant
                n == scholarships@.len(),
                i <= n,
                forall|j: int| 0 <= j < i ==> #[trigger] scholarships@[j].wf(),
            decreases n - i,
        {
            if !scholarships[i].is_consistent() {
                return None;
            }
            i = i + 1;
        }
        Some(ScholarshipRegistry { config, scholarships })
    }

    /// The stored form of the registry: its settings and its scholarships.
    pub fn into_parts(self) -> (res: (Option<Config>, Vec<Scholarship>))
        ensures
            res.1@ == self.records(),
            self.admin_id() == match res.0 {
                Some(c) => Some(c.admin@),
                None => None,
            },
            self.token_id() == match res.0 {
                Some(c) => Some(c.token@),
                None => None,
            },
    {
        (self.config, self.scholarships)
    }
}

} // verus!
