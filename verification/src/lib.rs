//! Interactive input validation: reusable string predicates, a composite
//! AND-validator over them, and a read-trim-parse-validate prompting loop
//! that only ever hands back values its validator accepts.

pub mod chars;
pub mod validation;
pub mod parse;
pub mod prompt;
pub mod user;
pub mod validator;
