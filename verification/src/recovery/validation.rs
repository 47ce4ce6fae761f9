//! The outcome of checking a recovered file's format.

use vstd::prelude::*;

verus! {

/// The validation result of a recovered file.
#[derive(Debug, Clone, Copy, PartialEq, Eq, Structural)]
pub enum ValidationStatus {
    /// The content is well-formed for its format.
    Valid,
    /// The content is damaged.
    Invalid,
    /// No result (no validator for the format, file too large, ...).
    Uncertain,
}

impl ValidationStatus {
    pub fn is_valid(&self) -> (r: bool)
        ensures
            r == (*self is Valid),
    {
        match self {
            ValidationStatus::Valid => true,
            _ => false,
        }
    }

    pub fn is_invalid(&self) -> (r: bool)
        ensures
            r == (*self is Invalid),
    {
        match self {
            ValidationStatus::Invalid => true,
            _ => false,
        }
    }

    pub fn is_uncertain(&self) -> (r: bool)
        ensures
            r == (*self is Uncertain),
    {
        match self {
            ValidationStatus::Uncertain => true,
            _ => false,
        }
    }
}

/// A format check of one recovered file.
#[derive(Debug, Clone)]
pub struct ValidationResult {
    pub status: ValidationStatus,
    pub format_detected: Option<String>,
    pub validator_name: String,
    /// Message for the customer.
    pub user_message_ja: Option<String>,
    /// Note for staff only; never shown to a customer.
    pub internal_note_ja: Option<String>,
    pub diagnostics: Vec<String>,
    /// Short label of why no result was reached, for `Uncertain`.
    pub uncertain_label: Option<String>,
}

impl ValidationResult {
    /// The message for the customer; empty without one.
    pub fn customer_message(&self) -> (r: String)
        ensures
            match self.user_message_ja {
                Some(m) => r@ == m@,
                None => r@.len() == 0,
            },
    {
        match &self.user_message_ja {
            Some(m) => m.clone(),
            None => String::new(),
        }
    }

    /// The staff note, if any.
    pub fn internal_note(&self) -> (r: Option<&str>)
        ensures
            match self.internal_note_ja {
                Some(m) => r matches Some(s) && s@ == m@,
                None => r is None,
            },
    {
        match &self.internal_note_ja {
            Some(m) => Some(m.as_str()),
            None => None,
        }
    }
}

} // verus!
