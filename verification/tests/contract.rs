use std::collections::HashMap;

use scholarship_escrow::{
    Effects, PartyId, Scholarship, ScholarshipError, ScholarshipRegistry, ScholarshipStatus,
    Transfer,
};

// ─── Test Helpers ─────────────────────────────────────────────────────────────

fn party(name: &str) -> PartyId {
    PartyId::new(name.as_bytes().to_vec())
}

/// A stand-in for the ledger around the registry: it checks authorizations
/// and moves token balances as the registry's effects say, and undoes the
/// registry's change when the authorization is missing.
struct TestSetup {
    registry: ScholarshipRegistry,
    balances: HashMap<Vec<u8>, i128>,
    all_auths: bool,
    auths: Vec<PartyId>,
    contract_id: PartyId,
    admin: PartyId,
    sponsor: PartyId,
    student: PartyId,
    token: PartyId,
}

impl TestSetup {
    fn balance(&self, who: &PartyId) -> i128 {
        *self.balances.get(&who.bytes).unwrap_or(&0)
    }

    fn mint(&mut self, who: &PartyId, amount: i128) {
        *self.balances.entry(who.bytes.clone()).or_insert(0) += amount;
    }

    fn settle(&mut self, eff: Effects) -> Result<(), String> {
        if !self.all_auths && !self.auths.iter().any(|a| a == &eff.authorizer) {
            return Err("authorization missing".to_string());
        }
        let contract = self.contract_id.clone();
        match eff.transfer {
            None => {}
            Some(Transfer::Deposit { from, amount }) => {
                assert!(self.balance(&from) >= amount, "insufficient balance");
                self.mint(&from, -amount);
                self.mint(&contract, amount);
            }
            Some(Transfer::Payout { to, amount }) => {
                assert!(self.balance(&contract) >= amount, "escrow short");
                self.mint(&contract, -amount);
                self.mint(&to, amount);
            }
        }
        Ok(())
    }

    fn commit(&mut self, snapshot: ScholarshipRegistry, eff: Effects) -> Result<(), String> {
        let r = self.settle(eff);
        if r.is_err() {
            self.registry = snapshot;
        }
        r
    }

    fn initialize(&mut self, admin: &PartyId, token: &PartyId) -> Result<(), String> {
        let snapshot = self.registry.clone();
        let eff = self
            .registry
            .initialize(admin.clone(), token.clone())
            .map_err(|e| e.message().to_string())?;
        self.commit(snapshot, eff)
    }

    fn create_scholarship(
        &mut self,
        sponsor: &PartyId,
        student: &PartyId,
        total: i128,
        amounts: &Vec<i128>,
        gpas: &Vec<u32>,
    ) -> Result<u32, String> {
        let snapshot = self.registry.clone();
        let (id, eff) = self
            .registry
            .create_scholarship(sponsor.clone(), student.clone(), total, amounts, gpas)
            .map_err(|e| e.message().to_string())?;
        self.commit(snapshot, eff)?;
        Ok(id)
    }

    fn verify_performance(&mut self, id: u32, semester: u32, gpa: u32) -> Result<(), String> {
        let snapshot = self.registry.clone();
        let eff = self
            .registry
            .verify_performance(id, semester, gpa)
            .map_err(|e| e.message().to_string())?;
        self.commit(snapshot, eff)
    }

    fn release_semester_funds(&mut self, id: u32, semester: u32) -> Result<i128, String> {
        let snapshot = self.registry.clone();
        let (amount, eff) = self
            .registry
            .release_semester_funds(id, semester)
            .map_err(|e| e.message().to_string())?;
        self.commit(snapshot, eff)?;
        Ok(amount)
    }

    fn suspend_scholarship(&mut self, id: u32) -> Result<(), String> {
        let snapshot = self.registry.clone();
        let (_, eff) = self
            .registry
            .suspend_scholarship(id)
            .map_err(|e| e.message().to_string())?;
        self.commit(snapshot, eff)
    }

    fn get_scholarship(&self, id: u32) -> Result<&Scholarship, String> {
        self.registry.get_scholarship(id).ok_or_else(|| "Not found".to_string())
    }

    fn get_locked_balance(&self, id: u32) -> Result<i128, String> {
        self.registry.get_locked_balance(id).map_err(|e| e.message().to_string())
    }

    fn get_student_scholarship(&self, student: &PartyId) -> Result<&Scholarship, String> {
        self.registry
            .get_student_scholarship(student)
            .ok_or_else(|| "No scholarship for student".to_string())
    }
}

fn bare_setup() -> TestSetup {
    TestSetup {
        registry: ScholarshipRegistry::new(),
        balances: HashMap::new(),
        all_auths: true,
        auths: Vec::new(),
        contract_id: party("CONTRACT"),
        admin: party("ADMIN"),
        sponsor: party("SPONSOR"),
        student: party("STUDENT"),
        token: party("TOKEN"),
    }
}

/// Full setup: registry initialized, sponsor funded with 10_000 XLM.
fn setup() -> TestSetup {
    let mut s = bare_setup();
    let (admin, token, sponsor) = (s.admin.clone(), s.token.clone(), s.sponsor.clone());
    s.initialize(&admin, &token).unwrap();
    s.mint(&sponsor, 10_000_0000000i128);
    s
}

/// Helper: create a standard 4-semester scholarship
fn create_standard_scholarship(s: &mut TestSetup) -> u32 {
    let semester_amounts = vec![
        1_000_0000000i128,
        1_000_0000000i128,
        1_000_0000000i128,
        1_000_0000000i128,
    ];
    let min_gpas = vec![250u32, 250u32, 270u32, 300u32];
    let (sponsor, student) = (s.sponsor.clone(), s.student.clone());
    s.create_scholarship(&sponsor, &student, 4_000_0000000i128, &semester_amounts, &min_gpas)
        .unwrap()
}

fn release_all(s: &mut TestSetup, id: u32) {
    for i in 1u32..=4 {
        s.verify_performance(id, i, 350u32).unwrap();
        s.release_semester_funds(id, i).unwrap();
    }
}

// ─── Initialization Tests ─────────────────────────────────────────────────────

#[test]
fn test_initialize_success() {
    let mut s = bare_setup();
    let (admin, token) = (s.admin.clone(), s.token.clone());
    assert_eq!(s.initialize(&admin, &token), Ok(()));
    assert!(s.registry.is_initialized());
    assert_eq!(s.registry.admin(), Some(&admin));
    assert_eq!(s.registry.token(), Some(&token));
}

#[test]
fn test_initialize_twice_fails() {
    let mut s = setup();
    let other_admin = party("OTHER_ADMIN");
    let token = s.token.clone();
    assert_eq!(s.initialize(&other_admin, &token), Err("Already initialized".to_string()));
    assert_eq!(s.registry.admin(), Some(&s.admin));
}

// ─── Create Scholarship Tests ─────────────────────────────────────────────────

#[test]
fn test_create_scholarship_success() {
    let mut s = setup();
    let id = create_standard_scholarship(&mut s);

    assert_eq!(id, 0u32);

    let sc = s.get_scholarship(id).unwrap();
    assert_eq!(sc.student, s.student);
    assert_eq!(sc.sponsor, s.sponsor);
    assert_eq!(sc.total_amount, 4_000_0000000i128);
    assert_eq!(sc.disbursed_amount, 0i128);
    assert_eq!(sc.status, ScholarshipStatus::Active);
    assert_eq!(sc.semesters.len(), 4);
}

#[test]
fn test_create_scholarship_locks_funds() {
    let mut s = setup();
    let sponsor_balance_before = s.balance(&s.sponsor);

    create_standard_scholarship(&mut s);

    let sponsor_balance_after = s.balance(&s.sponsor);
    let contract_balance = s.balance(&s.contract_id);

    assert_eq!(sponsor_balance_before - sponsor_balance_after, 4_000_0000000i128);
    assert_eq!(contract_balance, 4_000_0000000i128);
}

#[test]
fn test_create_multiple_scholarships_increments_id() {
    let mut s = setup();
    let student2 = party("STUDENT2");

    let id0 = create_standard_scholarship(&mut s);

    let amounts = vec![500_0000000i128, 500_0000000i128];
    let gpas = vec![200u32, 200u32];
    let sponsor = s.sponsor.clone();
    let id1 = s
        .create_scholarship(&sponsor, &student2, 1_000_0000000i128, &amounts, &gpas)
        .unwrap();

    assert_eq!(id0, 0u32);
    assert_eq!(id1, 1u32);
}

#[test]
fn test_create_scholarship_empty_semesters_fails() {
    let mut s = setup();
    let (sponsor, student) = (s.sponsor.clone(), s.student.clone());
    let r = s.create_scholarship(&sponsor, &student, 1_000_0000000i128, &vec![], &vec![]);
    assert_eq!(r, Err("Semester config mismatch".to_string()));
}

#[test]
fn test_create_scholarship_mismatched_arrays_fails() {
    let mut s = setup();
    let (sponsor, student) = (s.sponsor.clone(), s.student.clone());
    let r = s.create_scholarship(
        &sponsor,
        &student,
        1_000_0000000i128,
        &vec![500_0000000i128, 500_0000000i128],
        &vec![250u32],
    );
    assert_eq!(r, Err("Semester config mismatch".to_string()));
}

#[test]
fn test_create_scholarship_wrong_total_fails() {
    let mut s = setup();
    let (sponsor, student) = (s.sponsor.clone(), s.student.clone());
    let r = s.create_scholarship(
        &sponsor,
        &student,
        2_000_0000000i128,
        &vec![500_0000000i128, 500_0000000i128],
        &vec![250u32, 250u32],
    );
    assert_eq!(r, Err("Amounts must sum to total_amount".to_string()));
}

// ─── Semester Config Tests ────────────────────────────────────────────────────

#[test]
fn test_semester_structure_correct() {
    let mut s = setup();
    let id = create_standard_scholarship(&mut s);
    let sc = s.get_scholarship(id).unwrap();

    for i in 0..sc.semesters.len() {
        let sem = sc.semesters[i];
        assert_eq!(sem.semester_id, i as u32 + 1);
        assert_eq!(sem.release_amount, 1_000_0000000i128);
        assert!(!sem.released);
        assert!(!sem.performance_verified);
    }

    assert_eq!(sc.semesters[0].min_gpa, 250u32);
    assert_eq!(sc.semesters[2].min_gpa, 270u32);
    assert_eq!(sc.semesters[3].min_gpa, 300u32);
}

// ─── Verify Performance Tests ─────────────────────────────────────────────────

#[test]
fn test_verify_performance_success() {
    let mut s = setup();
    let id = create_standard_scholarship(&mut s);

    s.verify_performance(id, 1, 280u32).unwrap();

    let sc = s.get_scholarship(id).unwrap();
    let sem1 = sc.semesters[0];
    assert!(sem1.performance_verified);
    assert!(!sem1.released);
}

#[test]
fn test_verify_performance_gpa_below_minimum_not_verified() {
    let mut s = setup();
    let id = create_standard_scholarship(&mut s);

    s.verify_performance(id, 1, 200u32).unwrap();

    let sc = s.get_scholarship(id).unwrap();
    assert!(!sc.semesters[0].performance_verified);
}

#[test]
fn test_verify_performance_exact_minimum_gpa() {
    let mut s = setup();
    let id = create_standard_scholarship(&mut s);

    s.verify_performance(id, 1, 250u32).unwrap();

    let sc = s.get_scholarship(id).unwrap();
    assert!(sc.semesters[0].performance_verified);
}

#[test]
fn test_verify_performance_invalid_semester() {
    let mut s = setup();
    let id = create_standard_scholarship(&mut s);
    assert_eq!(s.verify_performance(id, 99, 300u32), Err("Semester not found".to_string()));
}

#[test]
fn test_verify_performance_invalid_scholarship() {
    let mut s = setup();
    assert_eq!(s.verify_performance(999, 1, 300u32), Err("Scholarship not found".to_string()));
}

#[test]
fn test_verify_performance_after_release_fails() {
    let mut s = setup();
    let id = create_standard_scholarship(&mut s);

    s.verify_performance(id, 1, 280u32).unwrap();
    s.release_semester_funds(id, 1).unwrap();
    assert_eq!(s.verify_performance(id, 1, 300u32), Err("Semester already released".to_string()));
}

// ─── Release Funds Tests ──────────────────────────────────────────────────────

#[test]
fn test_release_semester_funds_success() {
    let mut s = setup();
    let id = create_standard_scholarship(&mut s);

    s.verify_performance(id, 1, 280u32).unwrap();

    let student_before = s.balance(&s.student);
    let released = s.release_semester_funds(id, 1).unwrap();

    assert_eq!(released, 1_000_0000000i128);

    let student_after = s.balance(&s.student);
    assert_eq!(student_after - student_before, 1_000_0000000i128);

    let sc = s.get_scholarship(id).unwrap();
    assert_eq!(sc.disbursed_amount, 1_000_0000000i128);
    assert!(sc.semesters[0].released);
}

#[test]
fn test_release_all_semesters_completes_scholarship() {
    let mut s = setup();
    let id = create_standard_scholarship(&mut s);

    let gpas = [280u32, 260u32, 290u32, 350u32];
    for (i, &gpa) in gpas.iter().enumerate() {
        let sem_id = (i as u32) + 1;
        s.verify_performance(id, sem_id, gpa).unwrap();
        s.release_semester_funds(id, sem_id).unwrap();
    }

    let sc = s.get_scholarship(id).unwrap();
    assert_eq!(sc.status, ScholarshipStatus::Completed);
    assert_eq!(sc.disbursed_amount, 4_000_0000000i128);

    assert_eq!(s.balance(&s.contract_id), 0i128);
    assert_eq!(s.balance(&s.student), 4_000_0000000i128);
}

#[test]
fn test_release_without_verification_fails() {
    let mut s = setup();
    let id = create_standard_scholarship(&mut s);
    assert_eq!(
        s.release_semester_funds(id, 1),
        Err("Performance not verified or GPA requirement not met".to_string())
    );
}

#[test]
fn test_release_after_failed_gpa_fails() {
    let mut s = setup();
    let id = create_standard_scholarship(&mut s);

    s.verify_performance(id, 1, 200u32).unwrap();
    assert_eq!(
        s.release_semester_funds(id, 1),
        Err("Performance not verified or GPA requirement not met".to_string())
    );
}

#[test]
fn test_release_same_semester_twice_fails() {
    let mut s = setup();
    let id = create_standard_scholarship(&mut s);

    s.verify_performance(id, 1, 280u32).unwrap();
    s.release_semester_funds(id, 1).unwrap();
    assert_eq!(s.release_semester_funds(id, 1), Err("Already released".to_string()));
}

#[test]
fn test_release_on_completed_scholarship_fails() {
    let mut s = setup();
    let id = create_standard_scholarship(&mut s);

    release_all(&mut s, id);

    assert_eq!(s.release_semester_funds(id, 1), Err("Scholarship not active".to_string()));
}

// ─── Suspend & Refund Tests ───────────────────────────────────────────────────

#[test]
fn test_suspend_refunds_all_when_none_released() {
    let mut s = setup();
    let id = create_standard_scholarship(&mut s);

    let sponsor_before = s.balance(&s.sponsor);
    s.suspend_scholarship(id).unwrap();
    let sponsor_after = s.balance(&s.sponsor);

    assert_eq!(sponsor_after - sponsor_before, 4_000_0000000i128);

    let sc = s.get_scholarship(id).unwrap();
    assert_eq!(sc.status, ScholarshipStatus::Suspended);
    assert_eq!(s.balance(&s.contract_id), 0i128);
}

#[test]
fn test_suspend_refunds_unreleased_only() {
    let mut s = setup();
    let id = create_standard_scholarship(&mut s);

    s.verify_performance(id, 1, 280u32).unwrap();
    s.release_semester_funds(id, 1).unwrap();
    s.verify_performance(id, 2, 260u32).unwrap();
    s.release_semester_funds(id, 2).unwrap();

    let sponsor_before = s.balance(&s.sponsor);
    s.suspend_scholarship(id).unwrap();
    let sponsor_after = s.balance(&s.sponsor);

    assert_eq!(sponsor_after - sponsor_before, 2_000_0000000i128);
    assert_eq!(s.balance(&s.contract_id), 0i128);
}

#[test]
fn test_suspend_already_suspended_fails() {
    let mut s = setup();
    let id = create_standard_scholarship(&mut s);
    s.suspend_scholarship(id).unwrap();
    assert_eq!(s.suspend_scholarship(id), Err("Already inactive".to_string()));
}

#[test]
fn test_suspend_completed_scholarship_fails() {
    let mut s = setup();
    let id = create_standard_scholarship(&mut s);

    release_all(&mut s, id);

    assert_eq!(s.suspend_scholarship(id), Err("Already inactive".to_string()));
}

#[test]
fn test_release_on_suspended_scholarship_fails() {
    let mut s = setup();
    let id = create_standard_scholarship(&mut s);
    s.suspend_scholarship(id).unwrap();
    assert_eq!(s.release_semester_funds(id, 1), Err("Scholarship not active".to_string()));
}

// ─── View Functions Tests ─────────────────────────────────────────────────────

#[test]
fn test_get_locked_balance_initial() {
    let mut s = setup();
    let id = create_standard_scholarship(&mut s);
    assert_eq!(s.get_locked_balance(id), Ok(4_000_0000000i128));
}

#[test]
fn test_get_locked_balance_decreases_after_release() {
    let mut s = setup();
    let id = create_standard_scholarship(&mut s);

    s.verify_performance(id, 1, 280u32).unwrap();
    s.release_semester_funds(id, 1).unwrap();

    assert_eq!(s.get_locked_balance(id), Ok(3_000_0000000i128));
}

#[test]
fn test_get_locked_balance_zero_after_full_disbursement() {
    let mut s = setup();
    let id = create_standard_scholarship(&mut s);

    release_all(&mut s, id);

    assert_eq!(s.get_locked_balance(id), Ok(0i128));
}

#[test]
fn test_get_student_scholarship() {
    let mut s = setup();
    create_standard_scholarship(&mut s);

    let sc = s.get_student_scholarship(&s.student).unwrap();
    assert_eq!(sc.student, s.student);
    assert_eq!(sc.total_amount, 4_000_0000000i128);
}

#[test]
fn test_get_student_scholarship_nonexistent() {
    let s = setup();
    let random = party("RANDOM");
    assert_eq!(
        s.get_student_scholarship(&random).map(|sc| sc.total_amount),
        Err("No scholarship for student".to_string())
    );
}

#[test]
fn test_get_scholarship_invalid_id() {
    let s = setup();
    assert_eq!(s.get_scholarship(999u32).map(|sc| sc.total_amount), Err("Not found".to_string()));
}

// ─── Authorization Tests ──────────────────────────────────────────────────────

#[test]
fn test_admin_auth_required_for_verify() {
    let mut s = bare_setup();
    s.all_auths = false;
    let (admin, token, sponsor) = (s.admin.clone(), s.token.clone(), s.sponsor.clone());
    s.mint(&sponsor, 10_000_0000000i128);

    s.auths = vec![admin.clone()];
    s.initialize(&admin, &token).unwrap();
    s.auths = vec![];

    let result = s.verify_performance(0u32, 1u32, 300u32);
    assert!(result.is_err(), "Should require admin auth");

    // With a scholarship in place the request names the administrator.
    s.auths = vec![sponsor.clone()];
    let student = s.student.clone();
    s.create_scholarship(&sponsor, &student, 1_000_0000000i128, &vec![1_000_0000000i128], &vec![250u32])
        .unwrap();
    let eff = s.registry.verify_performance(0u32, 1u32, 300u32).unwrap();
    assert_eq!(eff.authorizer, admin);
    assert!(s.settle(eff).is_err(), "Should require admin auth");
}

#[test]
fn test_sponsor_auth_required_for_create() {
    let mut s = bare_setup();
    s.all_auths = false;
    let (admin, token, sponsor, student) =
        (s.admin.clone(), s.token.clone(), s.sponsor.clone(), s.student.clone());
    s.mint(&sponsor, 10_000_0000000i128);

    s.auths = vec![admin.clone()];
    s.initialize(&admin, &token).unwrap();

    let result = s.create_scholarship(
        &sponsor,
        &student,
        1_000_0000000i128,
        &vec![1_000_0000000i128],
        &vec![250u32],
    );
    assert!(result.is_err(), "Should require sponsor auth");
    assert_eq!(s.registry.scholarship_count(), 0);
    assert_eq!(s.balance(&sponsor), 10_000_0000000i128);
}

// ─── Edge Case / Integration Tests ───────────────────────────────────────────

#[test]
fn test_full_lifecycle_happy_path() {
    let mut s = setup();
    let id = create_standard_scholarship(&mut s);

    assert_eq!(s.get_locked_balance(id), Ok(4_000_0000000i128));
    assert_eq!(s.balance(&s.student), 0i128);

    s.verify_performance(id, 1, 310u32).unwrap();
    s.release_semester_funds(id, 1).unwrap();
    assert_eq!(s.balance(&s.student), 1_000_0000000i128);

    s.verify_performance(id, 2, 260u32).unwrap();
    s.release_semester_funds(id, 2).unwrap();
    assert_eq!(s.balance(&s.student), 2_000_0000000i128);

    s.verify_performance(id, 3, 250u32).unwrap();
    let sc = s.get_scholarship(id).unwrap();
    assert!(!sc.semesters[2].performance_verified);

    let sponsor_before = s.balance(&s.sponsor);
    s.suspend_scholarship(id).unwrap();
    let sponsor_after = s.balance(&s.sponsor);

    assert_eq!(sponsor_after - sponsor_before, 2_000_0000000i128);
    assert_eq!(s.get_scholarship(id).unwrap().status, ScholarshipStatus::Suspended);
}

#[test]
fn test_single_semester_scholarship() {
    let mut s = setup();
    let (sponsor, student) = (s.sponsor.clone(), s.student.clone());
    let id = s
        .create_scholarship(&sponsor, &student, 500_0000000i128, &vec![500_0000000i128], &vec![300u32])
        .unwrap();

    s.verify_performance(id, 1, 350u32).unwrap();
    s.release_semester_funds(id, 1).unwrap();

    let sc = s.get_scholarship(id).unwrap();
    assert_eq!(sc.status, ScholarshipStatus::Completed);
    assert_eq!(s.balance(&s.student), 500_0000000i128);
}

#[test]
fn test_out_of_order_semester_release_blocked() {
    let mut s = setup();
    let id = create_standard_scholarship(&mut s);

    s.verify_performance(id, 2, 260u32).unwrap();

    let released = s.release_semester_funds(id, 2).unwrap();
    assert_eq!(released, 1_000_0000000i128);

    let sc = s.get_scholarship(id).unwrap();
    assert!(!sc.semesters[0].released);
    assert!(sc.semesters[1].released);
}

#[test]
fn suspension_leaves_escrow_to_active_scholarships() {
    let mut s = setup();
    let a = create_standard_scholarship(&mut s);
    let b = create_standard_scholarship(&mut s);
    s.verify_performance(a, 1, 300).unwrap();
    s.release_semester_funds(a, 1).unwrap();
    s.suspend_scholarship(b).unwrap();
    // The suspended scholarship's unpaid part went back to the sponsor, so
    // escrow holds only the active one's.
    assert_eq!(s.get_locked_balance(b), Ok(4_000_0000000i128));
    assert_eq!(s.get_locked_balance(a), Ok(3_000_0000000i128));
    assert_eq!(s.balance(&s.contract_id), 3_000_0000000i128);
    assert_eq!(s.balance(&s.sponsor), 2_000_0000000i128 + 4_000_0000000i128);
}
