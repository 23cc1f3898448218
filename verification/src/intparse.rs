use vstd::prelude::*;
use crate::lexer::is_digit;
use crate::values::fits_i64;

verus! {

/// Why a text is not an `i64` (the kinds of `ParseIntError`).
#[derive(Clone, Copy, Debug, PartialEq, Eq, Structural)]
pub enum IntError {
    Empty,
    InvalidDigit,
    PosOverflow,
    NegOverflow,
}

/// The digits of `d` from `i`, folded into `acc` (subtracted when `neg`).
pub open spec fn scan_int(d: Seq<char>, i: int, acc: int, neg: bool) -> Result<i64, IntError>
    decreases d.len() - i,
{
    if i < 0 || i >= d.len() {
        Ok(acc as i64)
    } else if !is_digit(d[i]) {
        Err(IntError::InvalidDigit)
    } else {
        let next = if neg { acc * 10 - (d[i] as int - 48) } else { acc * 10 + (d[i] as int - 48) };
        if !fits_i64(next) {
            Err(if neg { IntError::NegOverflow } else { IntError::PosOverflow })
        } else {
            scan_int(d, i + 1, next, neg)
        }
    }
}

/// `str::parse::<i64>`: an optional sign and decimal digits, read left to right.
pub open spec fn parse_int(s: Seq<char>) -> Result<i64, IntError> {
    if s.len() == 0 {
        Err(IntError::Empty)
    } else if (s[0] == '+' || s[0] == '-') && s.len() == 1 {
        Err(IntError::InvalidDigit)
    } else if s[0] == '+' {
        scan_int(s, 1, 0, false)
    } else if s[0] == '-' {
        scan_int(s, 1, 0, true)
    } else {
        scan_int(s, 0, 0, false)
    }
}

/// The text that `ParseIntError` displays for each kind.
pub open spec fn int_error_message(e: IntError) -> Seq<char> {
    match e {
        IntError::Empty => "cannot parse integer from empty string"@,
        IntError::InvalidDigit => "invalid digit found in string"@,
        IntError::PosOverflow => "number too large to fit in target type"@,
        IntError::NegOverflow => "number too small to fit in target type"@,
    }
}

/// Reads an `i64` from the characters of a text, as `str::parse::<i64>` does.
pub fn parse_i64(cs: &Vec<char>) -> (r: Result<i64, IntError>)
    ensures
        r == parse_int(cs@),
{
    if cs.len() == 0 {
        return Err(IntError::Empty);
    }
    let c0 = cs[0];
    if (c0 == '+' || c0 == '-') && cs.len() == 1 {
        return Err(IntError::InvalidDigit);
    }
    let neg = c0 == '-';
    let mut i: usize = if c0 == '+' || c0 == '-' { 1 } else { 0 };
    let ghost i0 = i as int;
    let mut acc: i64 = 0;
    while i < cs.len()
        invariant
            i <= cs.len(),
            parse_int(cs@) == scan_int(cs@, i as int, acc as int, neg),
            neg ==> acc <= 0,
            !neg ==> acc >= 0,
        decreases cs.len() - i,
    {
        let c = cs[i];
        if !('0' <= c && c <= '9') {
            return Err(IntError::InvalidDigit);
        }
        let d: i64 = (c as u32 - 48u32) as i64;
        let m = match acc.checked_mul(10) {
            Some(m) => m,
            None => {
                return Err(if neg { IntError::NegOverflow } else { IntError::PosOverflow });
            },
        };
        let n = if neg { m.checked_sub(d) } else { m.checked_add(d) };
        match n {
            Some(n) => {
                acc = n;
            },
            None => {
                return Err(if neg { IntError::NegOverflow } else { IntError::PosOverflow });
            },
        }
        i = i + 1;
    }
    Ok(acc)
}

/// The message of an `IntError`.
pub fn int_error_text(e: IntError) -> (r: String)
    ensures
        r@ == int_error_message(e),
{
    match e {
        IntError::Empty => String::from_str("cannot parse integer from empty string"),
        IntError::InvalidDigit => String::from_str("invalid digit found in string"),
        IntError::PosOverflow => String::from_str("number too large to fit in target type"),
        IntError::NegOverflow => String::from_str("number too small to fit in target type"),
    }
}

} // verus!
