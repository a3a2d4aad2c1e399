//! The catalog's domain errors and their messages. A not-found message
//! names the requested id in decimal, verbatim.

use vstd::prelude::*;
use crate::text::{chars_of, is_substring_of, string_from_chars};

verus! {

/// A digit value, 0 through 9, as its character.
pub open spec fn digit_char(d: nat) -> char {
    if d == 0 {
        '0'
    } else if d == 1 {
        '1'
    } else if d == 2 {
        '2'
    } else if d == 3 {
        '3'
    } else if d == 4 {
        '4'
    } else if d == 5 {
        '5'
    } else if d == 6 {
        '6'
    } else if d == 7 {
        '7'
    } else if d == 8 {
        '8'
    } else {
        '9'
    }
}

/// The decimal digits of `n`, most significant first, with no leading
/// zeros (zero itself is the single digit '0').
pub open spec fn dec_digits_of(n: nat) -> Seq<char>
    decreases n,
{
    if n < 10 {
        seq![digit_char(n)]
    } else {
        dec_digits_of(n / 10).push(digit_char(n % 10))
    }
}

fn digit_char_exec(d: u32) -> (r: char)
    requires
        d < 10,
    ensures
        r == digit_char(d as nat),
{
    if d == 0 {
        '0'
    } else if d == 1 {
        '1'
    } else if d == 2 {
        '2'
    } else if d == 3 {
        '3'
    } else if d == 4 {
        '4'
    } else if d == 5 {
        '5'
    } else if d == 6 {
        '6'
    } else if d == 7 {
        '7'
    } else if d == 8 {
        '8'
    } else {
        '9'
    }
}

/// The decimal digits of a number, as characters.
fn dec_digits(n: u32) -> (r: Vec<char>)
    ensures
        r@ == dec_digits_of(n as nat),
    decreases n,
{
    if n < 10 {
        let mut v: Vec<char> = Vec::new();
        v.push(digit_char_exec(n));
        proof {
            assert(v@ =~= dec_digits_of(n as nat));
        }
        v
    } else {
        let mut v = dec_digits(n / 10);
        v.push(digit_char_exec(n % 10));
        v
    }
}

/// A domain error: a rejected create command, or an operation that targets
/// an id the store does not hold. Internal faults (a poisoned lock, a lost
/// connection) are no domain error and stay outside the library.
#[derive(Debug, PartialEq, Eq)]
pub enum StoreError {
    /// The create command failed validation: empty title or author, a year
    /// out of range, or a malformed ISBN.
    Validation,
    /// No record has the requested id.
    NotFound { id: u32 },
}

impl StoreError {
    /// The human-readable message for this error. A not-found message
    /// names the requested id in decimal.
    pub open spec fn spec_message(self) -> Seq<char> {
        match self {
            StoreError::Validation => "Invalid book data. Check title, author, year, and ISBN format."@,
            StoreError::NotFound { id } => "Book with ID "@ + dec_digits_of(id as nat)
                + " not found"@,
        }
    }

    /// The message text, exactly as `spec_message` gives it.
    pub fn message(&self) -> (r: String)
        ensures
            r@ == self.spec_message(),
    {
        match self {
            StoreError::Validation => "Invalid book data. Check title, author, year, and ISBN format.".to_owned(),
            StoreError::NotFound { id } => {
                let mut v = chars_of("Book with ID ");
                let mut digits = dec_digits(*id);
                v.append(&mut digits);
                let mut tail = chars_of(" not found");
                v.append(&mut tail);
                string_from_chars(&v)
            },
        }
    }
}

/// A not-found message contains the requested id's decimal digits verbatim.
pub proof fn lemma_not_found_message_names_id(id: u32)
    ensures
        is_substring_of(dec_digits_of(id as nat), (StoreError::NotFound { id }).spec_message()),
{
    let pre = "Book with ID "@;
    let digits = dec_digits_of(id as nat);
    let msg = (StoreError::NotFound { id }).spec_message();
    assert(msg.subrange(pre.len() as int, pre.len() as int + digits.len() as int) =~= digits);
}

} // verus!
