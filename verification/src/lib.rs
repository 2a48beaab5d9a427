//! Escrowed, performance-gated scholarship payouts.
//!
//! A sponsor locks the whole grant in escrow when a scholarship is created;
//! the grant is split into semesters, each with a minimum GPA.  The
//! administrator records a student's GPA for a semester, and a semester whose
//! GPA met its minimum may be paid out to the student, once.  A sponsor may
//! suspend an active scholarship, which refunds what was not yet paid.
//!
//! The registry computes every state change and tells its host what to do
//! around it: whose authorization the change needs and which token transfer
//! carries it out.

mod error;
mod laws;
mod party;
mod registry;
mod scholarship;
mod totals;
mod wide;

pub use error::{error_text, ScholarshipError};
pub use laws::{
    law_error_texts, law_escrow_adds_up, law_operations_touch_one_scholarship,
    law_transfers_move_the_escrow,
    law_amounts_add_up, law_creation_refused_only_for_bad_figures, law_gpa_report_effect,
    law_gpa_report_refused_only_for_cause, law_lookup_refused_only_for_cause,
    law_new_semester_figures, law_payout_effect, law_payout_fits_when_in_range,
    law_payout_refused_only_for_cause, law_semester_totals_add_up, law_suspension_effect,
    law_suspension_refused_only_when_inactive,
    counted_step, creations, flows_sum, law_completed_iff_all_paid, law_completed_is_paid_in_full,
    law_escrow_holds_what_is_owed, law_escrow_is_deposits_minus_payouts, law_grant_is_paid_or_owed,
    law_ids_count_up_from_zero, law_inactive_is_final, law_no_double_payout,
    law_only_verified_semesters_are_paid, law_refund_and_payouts_make_up_the_grant,
    law_registry_pays_a_semester_once,
};
pub use party::PartyId;
pub use registry::{
    escrow_inflow, escrow_total, lemma_escrow_push, lemma_escrow_update, Config, Effects,
    ScholarshipRegistry, Transfer,
};
pub use scholarship::{
    all_released, amount_total, amounts_sum, creation_error, fresh_semester, gpa_recorded, paid,
    paid_out, released_total, suspended, unreleased_total, with_gpa, Scholarship,
    ScholarshipStatus, Semester,
};
