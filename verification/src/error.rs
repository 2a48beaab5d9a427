use vstd::prelude::*;

verus! {

/// Why a request to the registry was refused.
#[derive(Debug, Clone, Copy, PartialEq, Eq, Structural)]
pub enum ScholarshipError {
    /// `initialize` was called on a registry that already has its configuration.
    AlreadyInitialized,
    /// An operation that needs the administrator or the token ran before `initialize`.
    NotInitialized,
    /// No semesters were given, or the amounts and minimum GPAs differ in number.
    SemesterConfigMismatch,
    /// The semester amounts do not add up to the scholarship's total.
    AmountMismatch,
    /// No scholarship has the given id.
    ScholarshipNotFound,
    /// The scholarship is completed or suspended.
    NotActive,
    /// The scholarship has no semester with the given number.
    SemesterNotFound,
    /// A GPA was reported for a semester that was already paid out.
    SemesterAlreadyReleased,
    /// A payout was asked for a semester that was already paid out.
    AlreadyReleased,
    /// A payout was asked for a semester whose GPA was not recorded as meeting its minimum.
    PerformanceNotVerified,
    /// A suspension was asked for a scholarship that is completed or suspended.
    AlreadyInactive,
}

/// The text that reports an error to the caller.
pub open spec fn error_text(e: ScholarshipError) -> Seq<char> {
    match e {
        ScholarshipError::AlreadyInitialized => "Already initialized"@,
        ScholarshipError::NotInitialized => "Not initialized"@,
        ScholarshipError::SemesterConfigMismatch => "Semester config mismatch"@,
        ScholarshipError::AmountMismatch => "Amounts must sum to total_amount"@,
        ScholarshipError::ScholarshipNotFound => "Scholarship not found"@,
        ScholarshipError::NotActive => "Scholarship not active"@,
        ScholarshipError::SemesterNotFound => "Semester not found"@,
        ScholarshipError::SemesterAlreadyReleased => "Semester already released"@,
        ScholarshipError::AlreadyReleased => "Already released"@,
        ScholarshipError::PerformanceNotVerified => "Performance not verified or GPA requirement not met"@,
        ScholarshipError::AlreadyInactive => "Already inactive"@,
    }
}

impl ScholarshipError {
    /// The text that reports this error to the caller.
    pub fn message(&self) -> (res: &'static str)
        ensures
            res@ == error_text(*self),
    {
        match self {
            ScholarshipError::AlreadyInitialized => "Already initialized",
            ScholarshipError::NotInitialized => "Not initialized",
            ScholarshipError::SemesterConfigMismatch => "Semester config mismatch",
            ScholarshipError::AmountMismatch => "Amounts must sum to total_amount",
            ScholarshipError::ScholarshipNotFound => "Scholarship not found",
            ScholarshipError::NotActive => "Scholarship not active",
            ScholarshipError::SemesterNotFound => "Semester not found",
            ScholarshipError::SemesterAlreadyReleased => "Semester already released",
            ScholarshipError::AlreadyReleased => "Already released",
            ScholarshipError::PerformanceNotVerified => "Performance not verified or GPA requirement not met",
            ScholarshipError::AlreadyInactive => "Already inactive",
        }
    }
}

} // verus!
