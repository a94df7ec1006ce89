//! The fixed registry of reusable validation predicates: each is a pure
//! function from a string to a pass/fail verdict.

use vstd::prelude::*;
use crate::chars::{
    is_dec_digit, is_name_char, is_numeric_char, is_word_char, chars_of, name_char, word_char,
};

verus! {

/// No character of `s` is numeric.
pub open spec fn name_ok(s: Seq<char>) -> bool {
    forall|i: int| 0 <= i < s.len() ==> !is_numeric_char(s[i])
}

/// `s` splits into an email address around an `'@'` at `i` and a final dot at
/// `j`: a non-empty local part of name characters, a non-empty domain part of
/// name characters, and a non-empty trailing label of word characters.
pub open spec fn email_split_at(s: Seq<char>, i: int, j: int) -> bool {
    &&& 1 <= i
    &&& i + 2 <= j
    &&& j + 2 <= s.len()
    &&& s[i] == '@'
    &&& s[j] == '.'
    &&& forall|k: int| 0 <= k < i ==> is_name_char(s[k])
    &&& forall|k: int| i < k < j ==> is_name_char(s[k])
    &&& forall|k: int| j < k < s.len() ==> is_word_char(s[k])
}

/// `s` has the shape of an email address: `localpart@domain.tld`, each
/// segment non-empty, the first two over word characters, dots and hyphens,
/// the last over word characters alone.
pub open spec fn email_ok(s: Seq<char>) -> bool {
    exists|i: int, j: int| email_split_at(s, i, j)
}

/// Index of the first `'@'` in `v`, if any.
fn find_first_at(v: &Vec<char>) -> (r: Option<usize>)
    ensures
        match r {
            Some(i) => i < v@.len() && v@[i as int] == '@' && (forall|k: int|
                0 <= k < i ==> v@[k] != '@'),
            None => forall|k: int| 0 <= k < v@.len() ==> v@[k] != '@',
        },
{
    let mut i: usize = 0;
    while i < v.len()
        invariant
            i <= v.len(),
            forall|k: int| 0 <= k < i ==> v@[k] != '@',
        decreases v.len() - i,
    {
        if v[i] == '@' {
            return Some(i);
        }
        i = i + 1;
    }
    None
}

/// Index of the last `'.'` in `v`, if any.
fn find_last_dot(v: &Vec<char>) -> (r: Option<usize>)
    ensures
        match r {
            Some(j) => j < v@.len() && v@[j as int] == '.' && (forall|k: int|
                j < k < v@.len() ==> v@[k] != '.'),
            None => forall|k: int| 0 <= k < v@.len() ==> v@[k] != '.',
        },
{
    let mut i: usize = v.len();
    while i > 0
        invariant
            i <= v.len(),
            forall|k: int| i <= k < v@.len() ==> v@[k] != '.',
        decreases i,
    {
        i = i - 1;
        if v[i] == '.' {
            return Some(i);
        }
    }
    None
}

/// Every character of `v[from..to)` is a name character.
fn all_name_chars(v: &Vec<char>, from: usize, to: usize) -> (r: bool)
    requires
        from <= to <= v@.len(),
    ensures
        r == (forall|k: int| from <= k < to ==> is_name_char(v@[k])),
{
    let mut i: usize = from;
    while i < to
        invariant
            from <= i <= to <= v@.len(),
            forall|k: int| from <= k < i ==> is_name_char(v@[k]),
        decreases to - i,
    {
        if !name_char(v[i]) {
            return false;
        }
        i = i + 1;
    }
    true
}

/// Every character of `v[from..to)` is a word character.
fn all_word_chars(v: &Vec<char>, from: usize, to: usize) -> (r: bool)
    requires
        from <= to <= v@.len(),
    ensures
        r == (forall|k: int| from <= k < to ==> is_word_char(v@[k])),
{
    let mut i: usize = from;
    while i < to
        invariant
            from <= i <= to <= v@.len(),
            forall|k: int| from <= k < i ==> is_word_char(v@[k]),
        decreases to - i,
    {
        if !word_char(v[i]) {
            return false;
        }
        i = i + 1;
    }
    true
}

/// In a valid email split, the `'@'` at `i` is the only one, and no `'.'`
/// stands after the one at `j`.
proof fn lemma_split_pins(s: Seq<char>, i: int, j: int)
    requires
        email_split_at(s, i, j),
    ensures
        forall|k: int| 0 <= k < s.len() && s[k] == '@' ==> k == i,
        forall|k: int| j < k < s.len() ==> s[k] != '.',
{
    assert forall|k: int| 0 <= k < s.len() && s[k] == '@' implies k == i by {
        if k < i {
            assert(is_name_char(s[k]));
        } else if i < k < j {
            assert(is_name_char(s[k]));
        } else if j < k {
            assert(is_word_char(s[k]));
        }
    }
    assert forall|k: int| j < k < s.len() implies s[k] != '.' by {
        assert(is_word_char(s[k]));
    }
}

/// If `s` is a valid email and `at` is its first `'@'`, the split stands at
/// `at`.
proof fn lemma_at_position(s: Seq<char>, at: int)
    requires
        email_ok(s),
        0 <= at < s.len(),
        s[at] == '@',
    ensures
        exists|j: int| email_split_at(s, at, j),
{
    let (i, j): (int, int) = choose|i: int, j: int| email_split_at(s, i, j);
    lemma_split_pins(s, i, j);
    assert(at == i);
    assert(email_split_at(s, at, j));
}

/// If a split stands at `at` and `j` is the last `'.'` of `s`, the split's
/// dot is `j`.
proof fn lemma_dot_position(s: Seq<char>, at: int, j: int)
    requires
        exists|jj: int| email_split_at(s, at, jj),
        0 <= j < s.len(),
        s[j] == '.',
        forall|k: int| j < k < s.len() ==> s[k] != '.',
    ensures
        email_split_at(s, at, j),
{
    let jj: int = choose|jj: int| email_split_at(s, at, jj);
    lemma_split_pins(s, at, jj);
    assert(jj == j);
}

/// The fixed registry of reusable checks.
pub struct ValidationMethods;

impl ValidationMethods {
    /// Rejects a name exactly when it holds a numeric character; the empty
    /// string passes. Any string holding an ASCII decimal digit is rejected,
    /// and any all-ASCII string free of decimal digits passes.
    pub fn validate_name(name: &str) -> (r: bool)
        ensures
            r == name_ok(name@),
            (exists|i: int| 0 <= i < name@.len() && is_dec_digit(name@[i])) ==> !r,
            (forall|i: int|
                0 <= i < name@.len() ==> (name@[i] as u32) < 128 && !is_dec_digit(name@[i])) ==> r,
    {
        let v = chars_of(name);
        let mut i: usize = 0;
        let mut ok = true;
        while i < v.len()
            invariant
                i <= v.len(),
                v@ == name@,
                ok == (forall|j: int| 0 <= j < i ==> !is_numeric_char(v@[j])),
                forall|j: int|
                    0 <= j < i && (v@[j] as u32) < 128 ==> is_numeric_char(v@[j]) == is_dec_digit(
                        v@[j],
                    ),
            decreases v.len() - i,
        {
            let c = v[i];
            if c.is_numeric() {
                ok = false;
            }
            i = i + 1;
        }
        ok
    }

    /// True exactly for a string of the shape `localpart@domain.tld`, with
    /// the local and domain parts over word characters, dots and hyphens,
    /// and the trailing label over word characters, all non-empty.
    pub fn validate_email(email: &str) -> (r: bool)
        ensures
            r == email_ok(email@),
    {
        let ghost s = email@;
        let v = chars_of(email);
        let at: usize = match find_first_at(&v) {
            Some(i) => i,
            None => {
                proof {
                    if email_ok(s) {
                        let (i, j): (int, int) = choose|i: int, j: int| email_split_at(s, i, j);
                        assert(s[i] == '@');
                    }
                }
                return false;
            },
        };
        if at == 0 || !all_name_chars(&v, 0, at) {
            proof {
                if email_ok(s) {
                    lemma_at_position(s, at as int);
                }
            }
            return false;
        }
        let dot: usize = match find_last_dot(&v) {
            Some(j) => j,
            None => {
                proof {
                    if email_ok(s) {
                        lemma_at_position(s, at as int);
                    }
                }
                return false;
            },
        };
        proof {
            if email_ok(s) {
                lemma_at_position(s, at as int);
                lemma_dot_position(s, at as int, dot as int);
            }
        }
        let n = v.len();
        if dot <= at + 1 || dot >= n - 1 {
            return false;
        }
        if !all_name_chars(&v, at + 1, dot) {
            return false;
        }
        if !all_word_chars(&v, dot + 1, v.len()) {
            return false;
        }
        proof {
            assert(email_split_at(s, at as int, dot as int));
        }
        true
    }

    /// True exactly for a non-empty string.
    pub fn not_empty(value: &str) -> (r: bool)
        ensures
            r == (value@.len() > 0),
    {
        !value.is_empty()
    }
}

} // verus!
