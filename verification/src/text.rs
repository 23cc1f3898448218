use vstd::prelude::*;
use vstd::std_specs::iter::IteratorSpec;

verus! {

broadcast use vstd::string::group_string_axioms;

/// The characters of a string slice, in order.
pub fn chars_of(s: &str) -> (v: Vec<char>)
    ensures
        v@ == s@,
{
    let mut v: Vec<char> = Vec::new();
    let mut it = s.chars();
    assert(it.remaining() == s@);
    loop
        invariant
            v@ + it.remaining() == s@,
            it.obeys_prophetic_iter_laws(),
            it.decrease() is Some,
        decreases it.decrease()->0,
    {
        let ghost before = it.remaining();
        match it.next() {
            Some(c) => {
                v.push(c);
                assert(v@ + it.remaining() =~= s@);
            },
            None => {
                assert(v@ =~= s@);
                return v;
            },
        }
    }
}


/// `String::push`: claimed to append exactly the character `c`.
#[verifier::external_body]
fn push_char(s: &mut String, c: char)
    ensures
        final(s)@ == old(s)@.push(c),
{
    s.push(c);
}

/// The string of the characters of `v`.
pub fn string_of(v: &Vec<char>) -> (s: String)
    ensures
        s@ == v@,
{
    let mut s = String::new();
    let mut i: usize = 0;
    while i < v.len()
        invariant
            i <= v@.len(),
            s@ == v@.subrange(0, i as int),
        decreases v.len() - i,
    {
        push_char(&mut s, v[i]);
        assert(v@.subrange(0, i as int).push(v@[i as int]) =~= v@.subrange(0, i + 1));
        i = i + 1;
    }
    assert(v@.subrange(0, v@.len() as int) =~= v@);
    s
}

/// Appends the characters of `s` to `buf`.
pub fn push_str(buf: &mut Vec<char>, s: &str)
    ensures
        final(buf)@ == old(buf)@ + s@,
{
    let cs = chars_of(s);
    push_all(buf, &cs);
}

/// Appends the characters of `cs` to `buf`.
pub fn push_all(buf: &mut Vec<char>, cs: &Vec<char>)
    ensures
        final(buf)@ == old(buf)@ + cs@,
{
    let ghost b0 = buf@;
    let mut i: usize = 0;
    while i < cs.len()
        invariant
            i <= cs.len(),
            buf@ == b0 + cs@.take(i as int),
        decreases cs.len() - i,
    {
        buf.push(cs[i]);
        i = i + 1;
        assert(buf@ =~= b0 + cs@.take(i as int));
    }
    assert(cs@.take(i as int) =~= cs@);
}

/// The character of a decimal digit.
pub open spec fn digit_char(d: nat) -> char {
    (48 + d) as char
}

/// The decimal digits of a natural number, most significant first.
pub open spec fn dec_nat(n: nat) -> Seq<char>
    decreases n,
{
    if n < 10 {
        seq![digit_char(n)]
    } else {
        dec_nat(n / 10).push(digit_char(n % 10))
    }
}

/// The decimal notation of an integer, with a leading `-` when it is negative.
pub open spec fn dec_int(i: int) -> Seq<char> {
    if i < 0 {
        seq!['-'] + dec_nat((-i) as nat)
    } else {
        dec_nat(i as nat)
    }
}

fn digit(d: u64) -> (c: char)
    requires
        d < 10,
    ensures
        c == digit_char(d as nat),
{
    let b: u8 = d as u8;
    (b + 48u8) as char
}

/// Appends the decimal digits of `n`.
pub fn push_dec_u64(buf: &mut Vec<char>, n: u64)
    ensures
        final(buf)@ == old(buf)@ + dec_nat(n as nat),
    decreases n,
{
    if n >= 10 {
        push_dec_u64(buf, n / 10);
    }
    let c = digit(n % 10);
    buf.push(c);
}

/// Appends the decimal notation of `n` (as `Display` for `i64` writes it).
pub fn push_dec_i64(buf: &mut Vec<char>, n: i64)
    ensures
        final(buf)@ == old(buf)@ + dec_int(n as int),
{
    if n < 0 {
        buf.push('-');
        let m: u64 = ((-(n + 1)) as u64) + 1;
        push_dec_u64(buf, m);
        assert(buf@ =~= old(buf)@ + dec_int(n as int));
    } else {
        push_dec_u64(buf, n as u64);
    }
}

/// Appends the decimal notation of `n` (as `Display` for `usize` writes it).
pub fn push_dec_usize(buf: &mut Vec<char>, n: usize)
    ensures
        final(buf)@ == old(buf)@ + dec_nat(n as nat),
{
    push_dec_u64(buf, n as u64);
}

/// The decimal notation of `n` as a string.
pub fn i64_to_string(n: i64) -> (s: String)
    ensures
        s@ == dec_int(n as int),
{
    let mut b: Vec<char> = Vec::new();
    push_dec_i64(&mut b, n);
    assert(b@ =~= dec_int(n as int));
    string_of(&b)
}

} // verus!
