//! Composite validation: a named selection of registry predicates combined
//! by logical AND.

use vstd::prelude::*;
use crate::validation::{email_ok, name_ok, ValidationMethods};

verus! {

/// A registry name for one reusable predicate.
#[derive(Clone, Copy, PartialEq, Eq, Structural, Debug)]
pub enum Predicate {
    /// Passes non-empty strings.
    NotEmpty,
    /// Passes strings free of numeric characters.
    ValidateName,
    /// Passes strings shaped like an email address.
    ValidateEmail,
}

/// What it means for the predicate named `p` to pass `s`.
pub open spec fn predicate_holds(p: Predicate, s: Seq<char>) -> bool {
    match p {
        Predicate::NotEmpty => s.len() > 0,
        Predicate::ValidateName => name_ok(s),
        Predicate::ValidateEmail => email_ok(s),
    }
}

/// Every predicate in `ps` passes `s`; vacuously true of an empty sequence.
pub open spec fn all_hold(ps: Seq<Predicate>, s: Seq<char>) -> bool {
    forall|i: int| 0 <= i < ps.len() ==> predicate_holds(ps[i], s)
}

impl Predicate {
    /// Runs the named registry predicate on `input`.
    pub fn check(&self, input: &str) -> (r: bool)
        ensures
            r == predicate_holds(*self, input@),
    {
        match self {
            Predicate::NotEmpty => ValidationMethods::not_empty(input),
            Predicate::ValidateName => ValidationMethods::validate_name(input),
            Predicate::ValidateEmail => ValidationMethods::validate_email(input),
        }
    }
}

/// An ordered selection of registry predicates, evaluated as their AND.
pub struct Validator {
    validations: Vec<Predicate>,
}

impl Validator {
    /// The stored predicates, in order.
    pub closed spec fn preds(&self) -> Seq<Predicate> {
        self.validations@
    }

    /// Stores the given predicates unchanged.
    pub fn new(validations: Vec<Predicate>) -> (r: Validator)
        ensures
            r.preds() == validations@,
    {
        Validator { validations }
    }

    /// True iff every stored predicate passes `input`; true of any input
    /// when no predicate is stored. The result is a function of the stored
    /// predicates and the input alone, so repeated runs agree.
    pub fn validate(&self, input: &str) -> (r: bool)
        ensures
            r == all_hold(self.preds(), input@),
    {
        let mut i: usize = 0;
        while i < self.validations.len()
            invariant
                i <= self.validations.len(),
                forall|j: int| 0 <= j < i ==> predicate_holds(self.preds()[j], input@),
            decreases self.validations.len() - i,
        {
            if !self.validations[i].check(input) {
                return false;
            }
            i = i + 1;
        }
        true
    }
}

} // verus!
