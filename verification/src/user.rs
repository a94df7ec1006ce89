//! The collected record and its one-line summary.

use vstd::prelude::*;
use vstd::string::StringExecFns;
use crate::chars::string_from_chars;

verus! {

/// The character for the single decimal digit `d`.
pub open spec fn digit_char(d: int) -> char {
    if d == 0 {
        '0'
    } else if d == 1 {
        '1'
    } else if d == 2 {
        '2'
    } else if d == 3 {
        '3'
    } else if d == 4 {
        '4'
    } else if d == 5 {
        '5'
    } else if d == 6 {
        '6'
    } else if d == 7 {
        '7'
    } else if d == 8 {
        '8'
    } else {
        '9'
    }
}

/// The decimal digits of `n`, most significant first, without leading
/// zeroes except for `n == 0` itself.
pub open spec fn dec_digits(n: int) -> Seq<char>
    decreases n,
{
    if n < 10 {
        seq![digit_char(n)]
    } else {
        dec_digits(n / 10) + seq![digit_char(n % 10)]
    }
}

/// The character for the digit `d`.
fn digit_char_exec(d: u32) -> (r: char)
    requires
        d < 10,
    ensures
        r == digit_char(d as int),
{
    if d == 0 {
        '0'
    } else if d == 1 {
        '1'
    } else if d == 2 {
        '2'
    } else if d == 3 {
        '3'
    } else if d == 4 {
        '4'
    } else if d == 5 {
        '5'
    } else if d == 6 {
        '6'
    } else if d == 7 {
        '7'
    } else if d == 8 {
        '8'
    } else {
        '9'
    }
}

/// Appends the decimal digits of `n` to `out`.
fn push_dec_digits(n: u32, out: &mut Vec<char>)
    ensures
        final(out)@ == old(out)@ + dec_digits(n as int),
    decreases n,
{
    if n < 10 {
        out.push(digit_char_exec(n));
    } else {
        push_dec_digits(n / 10, out);
        out.push(digit_char_exec(n % 10));
    }
}

/// The summary line `Name: <name>, Email: <email>, Age: <age>`.
pub open spec fn summary_spec(name: Seq<char>, email: Seq<char>, age: u32) -> Seq<char> {
    "Name: "@ + name + ", Email: "@ + email + ", Age: "@ + dec_digits(age as int)
}

/// The record of the three collected fields; constructed once, after each
/// field has passed its own validator, and immutable from then on.
pub struct User {
    pub name: String,
    pub email: String,
    pub age: u32,
}

impl User {
    /// A record holding exactly the given fields.
    pub fn new(name: String, email: String, age: u32) -> (r: User)
        ensures
            r.name@ == name@,
            r.email@ == email@,
            r.age == age,
    {
        User { name, email, age }
    }

    /// The summary line printed at the end of a run.
    pub fn summary_line(&self) -> (r: String)
        ensures
            r@ == summary_spec(self.name@, self.email@, self.age),
    {
        let mut s: String = "Name: ".to_owned();
        s.append(self.name.as_str());
        s.append(", Email: ");
        s.append(self.email.as_str());
        s.append(", Age: ");
        let mut digits: Vec<char> = Vec::new();
        push_dec_digits(self.age, &mut digits);
        let tail = string_from_chars(&digits);
        s.append(tail.as_str());
        proof {
            assert(s@ =~= summary_spec(self.name@, self.email@, self.age));
        }
        s
    }
}

} // verus!
