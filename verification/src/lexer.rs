use vstd::prelude::*;
use vstd::utf8::{encode_utf8, encode_scalar, has_width_1_encoding, has_width_2_encoding, has_width_3_encoding, char_is_scalar};
use crate::positions::{Position, Span};
use crate::token::{SToken, STokenPos, Token, TokenPosition};
use crate::text::{chars_of, string_of};
use crate::values::utf8_len;

verus! {

/// What the source holds at a given place, and how many characters it spans.
pub enum Lexeme {
    /// Blanks (space, tab, form feed) and `//` comments, which yield no token.
    Skip(nat),
    /// A line break.
    NewLine,
    /// A token other than a number.
    Tok(SToken, nat),
    /// A run of digits and its value.
    Num(int, nat),
    /// Input that no token rule matches.
    Error(nat),
}

pub open spec fn is_letter(c: char) -> bool {
    ('a' <= c && c <= 'z') || ('A' <= c && c <= 'Z') || c == '_'
}

pub open spec fn is_digit(c: char) -> bool {
    '0' <= c && c <= '9'
}

pub open spec fn is_word_char(c: char) -> bool {
    is_letter(c) || is_digit(c)
}

pub open spec fn is_blank(c: char) -> bool {
    c == ' ' || c == '\t' || c == '\x0C'
}

/// The first index at or after `j` whose character is not a word character.
pub open spec fn word_end(s: Seq<char>, j: int) -> int
    decreases s.len() - j,
{
    if j < 0 || j >= s.len() || !is_word_char(s[j]) {
        j
    } else {
        word_end(s, j + 1)
    }
}

/// The first index at or after `j` whose character is not a digit.
pub open spec fn digits_end(s: Seq<char>, j: int) -> int
    decreases s.len() - j,
{
    if j < 0 || j >= s.len() || !is_digit(s[j]) {
        j
    } else {
        digits_end(s, j + 1)
    }
}

/// The first index at or after `j` that holds a line break (or the end).
pub open spec fn comment_end(s: Seq<char>, j: int) -> int
    decreases s.len() - j,
{
    if j < 0 || j >= s.len() || s[j] == '\n' {
        j
    } else {
        comment_end(s, j + 1)
    }
}

/// Scanning the body of a string literal from `j`: `Ok(k)` where `s[k]` is the
/// closing quote, or `Err(k)` where the literal breaks off before `k`.
pub open spec fn string_end(s: Seq<char>, j: int) -> Result<int, int>
    decreases s.len() - j,
{
    if j < 0 || j >= s.len() {
        Err(j)
    } else if s[j] == '"' {
        Ok(j)
    } else if s[j] == '\\' {
        if j + 1 < s.len() && s[j + 1] != '\n' {
            string_end(s, j + 2)
        } else {
            Err(j + 1)
        }
    } else {
        string_end(s, j + 1)
    }
}

/// The value of a sequence of decimal digits.
pub open spec fn digits_value(d: Seq<char>) -> int
    decreases d.len(),
{
    if d.len() == 0 {
        0
    } else {
        digits_value(d.drop_last()) * 10 + (d.last() as int - 48)
    }
}

/// The keyword token a word stands for, if any.
pub open spec fn keyword(w: Seq<char>) -> Option<SToken> {
    if w == "var"@ {
        Some(SToken::Var)
    } else if w == "ver"@ {
        Some(SToken::Ver)
    } else if w == "if"@ {
        Some(SToken::If)
    } else if w == "else"@ {
        Some(SToken::Else)
    } else if w == "while"@ {
        Some(SToken::While)
    } else if w == "for"@ {
        Some(SToken::For)
    } else if w == "fun"@ {
        Some(SToken::Fun)
    } else if w == "return"@ {
        Some(SToken::Return)
    } else if w == "use"@ {
        Some(SToken::Use)
    } else {
        None
    }
}

/// A token of one or two characters: `two` if the next character is `second`, else `one`.
pub open spec fn one_or_two(s: Seq<char>, i: int, second: char, one: SToken, two: SToken) -> Lexeme {
    if i + 1 < s.len() && s[i + 1] == second {
        Lexeme::Tok(two, 2)
    } else {
        Lexeme::Tok(one, 1)
    }
}

/// The lexeme that starts at index `i` (`0 <= i < s.len()`): the longest match
/// among the token rules, keywords before identifiers of the same length.
pub open spec fn lexeme_at(s: Seq<char>, i: int) -> Lexeme {
    let c = s[i];
    if is_blank(c) {
        Lexeme::Skip(1)
    } else if c == '/' {
        if i + 1 < s.len() && s[i + 1] == '/' {
            Lexeme::Skip((comment_end(s, i) - i) as nat)
        } else {
            Lexeme::Tok(SToken::Slash, 1)
        }
    } else if c == '\n' {
        Lexeme::NewLine
    } else if is_letter(c) {
        let e = word_end(s, i);
        let w = s.subrange(i, e);
        match keyword(w) {
            Some(k) => Lexeme::Tok(k, (e - i) as nat),
            None => Lexeme::Tok(SToken::Ident(w), (e - i) as nat),
        }
    } else if is_digit(c) {
        let e = digits_end(s, i);
        Lexeme::Num(digits_value(s.subrange(i, e)), (e - i) as nat)
    } else if c == '"' {
        match string_end(s, i + 1) {
            Ok(k) => Lexeme::Tok(SToken::Str(s.subrange(i + 1, k)), (k + 1 - i) as nat),
            Err(k) => Lexeme::Error((k - i) as nat),
        }
    } else if c == '=' {
        one_or_two(s, i, '=', SToken::Assign, SToken::Equal)
    } else if c == '+' {
        one_or_two(s, i, '+', SToken::Plus, SToken::PlusPlus)
    } else if c == '-' {
        one_or_two(s, i, '-', SToken::Minus, SToken::MinusMinus)
    } else if c == '<' {
        one_or_two(s, i, '=', SToken::Less, SToken::LessEqual)
    } else if c == '>' {
        one_or_two(s, i, '=', SToken::Greater, SToken::GreaterEqual)
    } else if c == '!' {
        if i + 1 < s.len() && s[i + 1] == '=' {
            Lexeme::Tok(SToken::NotEqual, 2)
        } else {
            Lexeme::Error(1)
        }
    } else if c == '*' {
        Lexeme::Tok(SToken::Star, 1)
    } else if c == ';' {
        Lexeme::Tok(SToken::Semicolon, 1)
    } else if c == '(' {
        Lexeme::Tok(SToken::LParen, 1)
    } else if c == ')' {
        Lexeme::Tok(SToken::RParen, 1)
    } else if c == '{' {
        Lexeme::Tok(SToken::LBrace, 1)
    } else if c == '}' {
        Lexeme::Tok(SToken::RBrace, 1)
    } else if c == ',' {
        Lexeme::Tok(SToken::Comma, 1)
    } else {
        Lexeme::Error(1)
    }
}

/// The number of characters a lexeme spans.
pub open spec fn lexeme_len(l: Lexeme) -> nat {
    match l {
        Lexeme::Skip(n) => n,
        Lexeme::NewLine => 1,
        Lexeme::Tok(_, n) => n,
        Lexeme::Num(_, n) => n,
        Lexeme::Error(n) => n,
    }
}

/// A token at `line`, spanning `w` bytes from `col`.
pub open spec fn placed(t: SToken, line: nat, col: nat, w: nat) -> STokenPos {
    STokenPos {
        token: t,
        position: Span {
            start: Position { line: line as usize, column: col as usize },
            end: Position { line: line as usize, column: (col + w) as usize },
        },
    }
}

/// The tokens of `s` from index `i`, when the scan stands at `line` and
/// column `col`. Columns count bytes of the tokens' text; blanks and comments
/// do not move the column, an unmatched character moves it by one, and a line
/// break starts the next line at column 2.
pub open spec fn lex_from(s: Seq<char>, i: int, line: nat, col: nat) -> Seq<STokenPos>
    decreases s.len() - i,
{
    if i < 0 || i >= s.len() {
        Seq::empty()
    } else {
        let l = lexeme_at(s, i);
        let n = lexeme_len(l);
        if n == 0 || i + n > s.len() {
            Seq::empty()
        } else {
            let w = utf8_len(s.subrange(i, i + n));
            match l {
                Lexeme::Skip(_) => lex_from(s, i + n, line, col),
                Lexeme::NewLine => lex_from(s, i + 1, line + 1, 2),
                Lexeme::Tok(t, _) => seq![placed(t, line, col, w)] + lex_from(s, i + n, line, col + w),
                Lexeme::Num(v, _) => seq![placed(SToken::Number(v as i64), line, col, w)] + lex_from(s, i + n, line, col + w),
                Lexeme::Error(_) => lex_from(s, i + n, line, col + 1),
            }
        }
    }
}

/// Whether every number in `s` from index `i` fits in an `i64`.
pub open spec fn numbers_fit(s: Seq<char>, i: int) -> bool
    decreases s.len() - i,
{
    if i < 0 || i >= s.len() {
        true
    } else {
        let l = lexeme_at(s, i);
        let n = lexeme_len(l);
        if n == 0 || i + n > s.len() {
            true
        } else {
            match l {
                Lexeme::Num(v, _) => v <= i64::MAX && numbers_fit(s, i + n),
                _ => numbers_fit(s, i + n),
            }
        }
    }
}

/// The tokens of a whole source text.
pub open spec fn lex_spec(s: Seq<char>) -> Seq<STokenPos> {
    lex_from(s, 0, 1, 1)
}

/// The mathematical values of a sequence of positioned tokens.
pub open spec fn tokens_view(v: Seq<TokenPosition>) -> Seq<STokenPos> {
    Seq::new(v.len(), |k: int| v[k]@)
}

// ---------------------------------------------------------------- lemmas

proof fn lemma_encode_concat(a: Seq<char>, b: Seq<char>)
    ensures
        encode_utf8(a + b) == encode_utf8(a) + encode_utf8(b),
    decreases a.len(),
{
    if a.len() == 0 {
        assert(a + b =~= b);
        assert(encode_utf8(a) =~= Seq::<u8>::empty());
        assert(encode_utf8(a) + encode_utf8(b) =~= encode_utf8(b));
    } else {
        assert((a + b).drop_first() =~= a.drop_first() + b);
        assert((a + b)[0] == a[0]);
        lemma_encode_concat(a.drop_first(), b);
        assert(encode_utf8(a + b) =~= encode_scalar(a[0] as u32) + encode_utf8(a.drop_first() + b));
        assert(encode_utf8(a) =~= encode_scalar(a[0] as u32) + encode_utf8(a.drop_first()));
    }
}

/// The number of bytes of the UTF-8 encoding of one character.
pub open spec fn char_width(c: char) -> nat {
    if (c as u32) <= 0x7F {
        1
    } else if (c as u32) <= 0x7FF {
        2
    } else if (c as u32) <= 0xFFFF {
        3
    } else {
        4
    }
}

proof fn lemma_char_width(c: char)
    ensures
        utf8_len(seq![c]) == char_width(c),
        1 <= char_width(c) <= 4,
{
    char_is_scalar(c);
    let s = seq![c];
    assert(s.drop_first() =~= Seq::<char>::empty());
    assert(encode_utf8(s) =~= encode_scalar(c as u32) + encode_utf8(s.drop_first()));
    assert(encode_utf8(s.drop_first()) =~= Seq::<u8>::empty());
}

pub proof fn lemma_utf8_len_push(a: Seq<char>, c: char)
    ensures
        utf8_len(a.push(c)) == utf8_len(a) + char_width(c),
{
    lemma_encode_concat(a, seq![c]);
    assert(a.push(c) =~= a + seq![c]);
    lemma_char_width(c);
}

pub proof fn lemma_utf8_len_split(s: Seq<char>, i: int, j: int, k: int)
    requires
        0 <= i <= j <= k <= s.len(),
    ensures
        utf8_len(s.subrange(i, k)) == utf8_len(s.subrange(i, j)) + utf8_len(s.subrange(j, k)),
{
    assert(s.subrange(i, k) =~= s.subrange(i, j) + s.subrange(j, k));
    lemma_encode_concat(s.subrange(i, j), s.subrange(j, k));
}

proof fn lemma_word_end(s: Seq<char>, j: int)
    requires
        0 <= j <= s.len(),
    ensures
        j <= word_end(s, j) <= s.len(),
        forall|k: int| j <= k < word_end(s, j) ==> is_word_char(#[trigger] s[k]),
        word_end(s, j) < s.len() ==> !is_word_char(s[word_end(s, j)]),
    decreases s.len() - j,
{
    if j < s.len() && is_word_char(s[j]) {
        lemma_word_end(s, j + 1);
    }
}

proof fn lemma_digits_end(s: Seq<char>, j: int)
    requires
        0 <= j <= s.len(),
    ensures
        j <= digits_end(s, j) <= s.len(),
        forall|k: int| j <= k < digits_end(s, j) ==> is_digit(#[trigger] s[k]),
        digits_end(s, j) < s.len() ==> !is_digit(s[digits_end(s, j)]),
    decreases s.len() - j,
{
    if j < s.len() && is_digit(s[j]) {
        lemma_digits_end(s, j + 1);
    }
}

proof fn lemma_comment_end(s: Seq<char>, j: int)
    requires
        0 <= j <= s.len(),
    ensures
        j <= comment_end(s, j) <= s.len(),
    decreases s.len() - j,
{
    if j < s.len() && s[j] != '\n' {
        lemma_comment_end(s, j + 1);
    }
}

proof fn lemma_string_end(s: Seq<char>, j: int)
    requires
        0 <= j <= s.len(),
    ensures
        match string_end(s, j) {
            Ok(k) => j <= k < s.len(),
            Err(k) => j <= k <= s.len(),
        },
    decreases s.len() - j,
{
    if j < s.len() && s[j] != '"' {
        if s[j] == '\\' {
            if j + 1 < s.len() && s[j + 1] != '\n' {
                lemma_string_end(s, j + 2);
            }
        } else {
            lemma_string_end(s, j + 1);
        }
    }
}

proof fn lemma_lexeme_len(s: Seq<char>, i: int)
    requires
        0 <= i < s.len(),
    ensures
        1 <= lexeme_len(lexeme_at(s, i)),
        i + lexeme_len(lexeme_at(s, i)) <= s.len(),
{
    let c = s[i];
    if c == '/' && i + 1 < s.len() && s[i + 1] == '/' {
        lemma_comment_end(s, i + 2);
        assert(comment_end(s, i) == comment_end(s, i + 1));
        assert(comment_end(s, i + 1) == comment_end(s, i + 2));
    } else if is_letter(c) {
        lemma_word_end(s, i);
    } else if is_digit(c) {
        lemma_digits_end(s, i);
    } else if c == '"' {
        lemma_string_end(s, i + 1);
    }
}

// ---------------------------------------------------------------- exec

/// What the executable scanner finds at a place.
enum Found {
    Skip(usize),
    NewLine,
    Tok(Token, usize),
    Num(i64, usize),
    TooBig,
    Error(usize),
}

fn word_is(cs: &Vec<char>, from: usize, to: usize, w: &str) -> (r: bool)
    requires
        from <= to <= cs.len(),
    ensures
        r == (cs@.subrange(from as int, to as int) == w@),
{
    let wc = chars_of(w);
    if to - from != wc.len() {
        proof {
            if cs@.subrange(from as int, to as int) == w@ {
                assert(cs@.subrange(from as int, to as int).len() == w@.len());
            }
        }
        return false;
    }
    let mut k: usize = 0;
    while k < wc.len()
        invariant
            to - from == wc.len(),
            from <= to <= cs.len(),
            wc@ == w@,
            k <= wc.len(),
            forall|m: int| 0 <= m < k ==> cs@[from + m] == wc@[m],
        decreases wc.len() - k,
    {
        if cs[from + k] != wc[k] {
            proof {
                assert(cs@.subrange(from as int, to as int)[k as int] != w@[k as int]);
            }
            return false;
        }
        k = k + 1;
    }
    assert(cs@.subrange(from as int, to as int) =~= w@);
    true
}

fn keyword_exec(cs: &Vec<char>, from: usize, to: usize) -> (r: Option<Token>)
    requires
        from <= to <= cs.len(),
    ensures
        match r {
            Some(t) => keyword(cs@.subrange(from as int, to as int)) == Some(t@),
            None => keyword(cs@.subrange(from as int, to as int)) is None,
        },
{
    if word_is(cs, from, to, "var") {
        Some(Token::Var)
    } else if word_is(cs, from, to, "ver") {
        Some(Token::Ver)
    } else if word_is(cs, from, to, "if") {
        Some(Token::If)
    } else if word_is(cs, from, to, "else") {
        Some(Token::Else)
    } else if word_is(cs, from, to, "while") {
        Some(Token::While)
    } else if word_is(cs, from, to, "for") {
        Some(Token::For)
    } else if word_is(cs, from, to, "fun") {
        Some(Token::Fun)
    } else if word_is(cs, from, to, "return") {
        Some(Token::Return)
    } else if word_is(cs, from, to, "use") {
        Some(Token::Use)
    } else {
        None
    }
}

fn is_letter_exec(c: char) -> (r: bool)
    ensures
        r == is_letter(c),
{
    ('a' <= c && c <= 'z') || ('A' <= c && c <= 'Z') || c == '_'
}

fn is_digit_exec(c: char) -> (r: bool)
    ensures
        r == is_digit(c),
{
    '0' <= c && c <= '9'
}

fn sub_string(cs: &Vec<char>, from: usize, to: usize) -> (r: String)
    requires
        from <= to <= cs.len(),
    ensures
        r@ == cs@.subrange(from as int, to as int),
{
    let mut v: Vec<char> = Vec::new();
    let mut k = from;
    while k < to
        invariant
            from <= k <= to <= cs.len(),
            v@ == cs@.subrange(from as int, k as int),
        decreases to - k,
    {
        v.push(cs[k]);
        k = k + 1;
        assert(v@ =~= cs@.subrange(from as int, k as int));
    }
    string_of(&v)
}

proof fn lemma_digits_value_push(d: Seq<char>, c: char)
    ensures
        digits_value(d.push(c)) == digits_value(d) * 10 + (c as int - 48),
{
    assert(d.push(c).drop_last() =~= d);
}

proof fn lemma_digits_value_nonneg(d: Seq<char>)
    requires
        forall|k: int| 0 <= k < d.len() ==> is_digit(#[trigger] d[k]),
    ensures
        digits_value(d) >= 0,
    decreases d.len(),
{
    if d.len() > 0 {
        lemma_digits_value_nonneg(d.drop_last());
    }
}

proof fn lemma_digits_value_grows(d: Seq<char>, k: int)
    requires
        0 <= k <= d.len(),
        forall|m: int| 0 <= m < d.len() ==> is_digit(#[trigger] d[m]),
    ensures
        digits_value(d.subrange(0, k)) <= digits_value(d),
    decreases d.len() - k,
{
    if k < d.len() {
        lemma_digits_value_grows(d, k + 1);
        assert(d.subrange(0, k + 1) =~= d.subrange(0, k).push(d[k]));
        lemma_digits_value_push(d.subrange(0, k), d[k]);
        lemma_digits_value_nonneg(d.subrange(0, k));
    } else {
        assert(d.subrange(0, k) =~= d);
    }
}

fn scan_number(cs: &Vec<char>, i: usize) -> (r: (Option<i64>, usize))
    requires
        i < cs.len(),
        is_digit(cs@[i as int]),
    ensures
        r.1 == digits_end(cs@, i as int),
        match r.0 {
            Some(v) => v == digits_value(cs@.subrange(i as int, r.1 as int)),
            None => digits_value(cs@.subrange(i as int, r.1 as int)) > i64::MAX,
        },
{
    proof { lemma_digits_end(cs@, i as int); }
    let ghost e = digits_end(cs@, i as int);
    let mut j = i;
    let mut v: i64 = 0;
    let mut ok = true;
    while j < cs.len() && is_digit_exec(cs[j])
        invariant
            i <= j <= e <= cs.len(),
            e == digits_end(cs@, i as int),
            forall|k: int| i <= k < e ==> is_digit(#[trigger] cs@[k]),
            e < cs.len() ==> !is_digit(cs@[e]),
            ok ==> v == digits_value(cs@.subrange(i as int, j as int)),
            ok ==> v >= 0,
            !ok ==> digits_value(cs@.subrange(i as int, j as int)) > i64::MAX,
        decreases cs.len() - j,
    {
        let c = cs[j];
        let d: i64 = (c as u32 - 48u32) as i64;
        proof {
            assert(cs@.subrange(i as int, j + 1) =~= cs@.subrange(i as int, j as int).push(c));
            lemma_digits_value_push(cs@.subrange(i as int, j as int), c);
            assert forall|k: int| 0 <= k < cs@.subrange(i as int, j as int).len()
                implies is_digit(#[trigger] cs@.subrange(i as int, j as int)[k]) by {
                assert(cs@.subrange(i as int, j as int)[k] == cs@[i + k]);
            }
            lemma_digits_value_nonneg(cs@.subrange(i as int, j as int));
        }
        if ok {
            match v.checked_mul(10) {
                Some(t) => match t.checked_add(d) {
                    Some(u) => {
                        v = u;
                    },
                    None => {
                        ok = false;
                    },
                },
                None => {
                    ok = false;
                },
            }
        }
        j = j + 1;
    }
    if ok {
        (Some(v), j)
    } else {
        (None, j)
    }
}

fn scan_string(cs: &Vec<char>, j0: usize) -> (r: Result<usize, usize>)
    requires
        j0 <= cs.len(),
    ensures
        match r {
            Ok(k) => string_end(cs@, j0 as int) == Ok::<int, int>(k as int),
            Err(k) => string_end(cs@, j0 as int) == Err::<int, int>(k as int),
        },
{
    let mut j = j0;
    while j < cs.len()
        invariant
            j0 <= j <= cs.len() + 1,
            string_end(cs@, j0 as int) == string_end(cs@, j as int),
        decreases cs.len() + 1 - j,
    {
        let c = cs[j];
        if c == '"' {
            return Ok(j);
        } else if c == '\\' {
            if j + 1 < cs.len() && cs[j + 1] != '\n' {
                j = j + 2;
            } else {
                return Err(j + 1);
            }
        } else {
            j = j + 1;
        }
    }
    Err(j)
}

fn comment_scan(cs: &Vec<char>, j0: usize) -> (r: usize)
    requires
        j0 <= cs.len(),
    ensures
        r == comment_end(cs@, j0 as int),
{
    let mut j = j0;
    while j < cs.len() && cs[j] != '\n'
        invariant
            j0 <= j <= cs.len(),
            comment_end(cs@, j0 as int) == comment_end(cs@, j as int),
        decreases cs.len() - j,
    {
        j = j + 1;
    }
    j
}

fn word_scan(cs: &Vec<char>, j0: usize) -> (r: usize)
    requires
        j0 <= cs.len(),
    ensures
        r == word_end(cs@, j0 as int),
{
    let mut j = j0;
    while j < cs.len() && (is_letter_exec(cs[j]) || is_digit_exec(cs[j]))
        invariant
            j0 <= j <= cs.len(),
            word_end(cs@, j0 as int) == word_end(cs@, j as int),
        decreases cs.len() - j,
    {
        j = j + 1;
    }
    j
}

fn one_or_two_exec(cs: &Vec<char>, i: usize, second: char, one: Token, two: Token) -> (r: Found)
    requires
        i < cs.len(),
    ensures
        match (r, one_or_two(cs@, i as int, second, one@, two@)) {
            (Found::Tok(t, n), Lexeme::Tok(st, sn)) => t@ == st && n == sn,
            _ => false,
        },
{
    if i + 1 < cs.len() && cs[i + 1] == second {
        Found::Tok(two, 2)
    } else {
        Found::Tok(one, 1)
    }
}

/// The executable match of `lexeme_at`.
spec fn found_matches(f: Found, l: Lexeme) -> bool {
    match (f, l) {
        (Found::Skip(n), Lexeme::Skip(m)) => n == m,
        (Found::NewLine, Lexeme::NewLine) => true,
        (Found::Tok(t, n), Lexeme::Tok(st, m)) => t@ == st && n == m,
        (Found::Num(v, n), Lexeme::Num(sv, m)) => v == sv && n == m,
        (Found::TooBig, Lexeme::Num(sv, _)) => sv > i64::MAX,
        (Found::Error(n), Lexeme::Error(m)) => n == m,
        _ => false,
    }
}

fn lexeme_exec(cs: &Vec<char>, i: usize) -> (r: Found)
    requires
        i < cs.len(),
    ensures
        found_matches(r, lexeme_at(cs@, i as int)),
{
    let c = cs[i];
    if c == ' ' || c == '\t' || c == '\x0C' {
        Found::Skip(1)
    } else if c == '/' {
        if i + 1 < cs.len() && cs[i + 1] == '/' {
            let e = comment_scan(cs, i);
            proof { lemma_comment_end(cs@, i as int); }
            Found::Skip(e - i)
        } else {
            Found::Tok(Token::Slash, 1)
        }
    } else if c == '\n' {
        Found::NewLine
    } else if is_letter_exec(c) {
        let e = word_scan(cs, i);
        proof { lemma_word_end(cs@, i as int); }
        match keyword_exec(cs, i, e) {
            Some(k) => Found::Tok(k, e - i),
            None => Found::Tok(Token::Ident(sub_string(cs, i, e)), e - i),
        }
    } else if is_digit_exec(c) {
        let (v, e) = scan_number(cs, i);
        proof { lemma_digits_end(cs@, i as int); }
        match v {
            Some(n) => Found::Num(n, e - i),
            None => Found::TooBig,
        }
    } else if c == '"' {
        proof { lemma_string_end(cs@, i + 1); }
        match scan_string(cs, i + 1) {
            Ok(k) => Found::Tok(Token::Str(sub_string(cs, i + 1, k)), k + 1 - i),
            Err(k) => Found::Error(k - i),
        }
    } else if c == '=' {
        one_or_two_exec(cs, i, '=', Token::Assign, Token::Equal)
    } else if c == '+' {
        one_or_two_exec(cs, i, '+', Token::Plus, Token::PlusPlus)
    } else if c == '-' {
        one_or_two_exec(cs, i, '-', Token::Minus, Token::MinusMinus)
    } else if c == '<' {
        one_or_two_exec(cs, i, '=', Token::Less, Token::LessEqual)
    } else if c == '>' {
        one_or_two_exec(cs, i, '=', Token::Greater, Token::GreaterEqual)
    } else if c == '!' {
        if i + 1 < cs.len() && cs[i + 1] == '=' {
            Found::Tok(Token::NotEqual, 2)
        } else {
            Found::Error(1)
        }
    } else if c == '*' {
        Found::Tok(Token::Star, 1)
    } else if c == ';' {
        Found::Tok(Token::Semicolon, 1)
    } else if c == '(' {
        Found::Tok(Token::LParen, 1)
    } else if c == ')' {
        Found::Tok(Token::RParen, 1)
    } else if c == '{' {
        Found::Tok(Token::LBrace, 1)
    } else if c == '}' {
        Found::Tok(Token::RBrace, 1)
    } else if c == ',' {
        Found::Tok(Token::Comma, 1)
    } else {
        Found::Error(1)
    }
}

fn width_exec(c: char) -> (r: usize)
    ensures
        r == char_width(c),
{
    let u = c as u32;
    if u <= 0x7F {
        1
    } else if u <= 0x7FF {
        2
    } else if u <= 0xFFFF {
        3
    } else {
        4
    }
}

fn span_width(cs: &Vec<char>, from: usize, to: usize) -> (r: usize)
    requires
        from <= to <= cs.len(),
        utf8_len(cs@) <= usize::MAX,
    ensures
        r == utf8_len(cs@.subrange(from as int, to as int)),
{
    let mut k = from;
    let mut w: usize = 0;
    proof {
        assert(cs@.subrange(from as int, from as int) =~= Seq::<char>::empty());
        assert(encode_utf8(Seq::<char>::empty()) =~= Seq::<u8>::empty());
        lemma_utf8_len_split(cs@, 0, from as int, cs@.len() as int);
        lemma_utf8_len_split(cs@, from as int, to as int, cs@.len() as int);
        assert(cs@.subrange(0, cs@.len() as int) =~= cs@);
    }
    while k < to
        invariant
            from <= k <= to <= cs.len(),
            utf8_len(cs@.subrange(from as int, to as int)) <= usize::MAX,
            w == utf8_len(cs@.subrange(from as int, k as int)),
        decreases to - k,
    {
        proof {
            assert(cs@.subrange(from as int, k + 1) =~= cs@.subrange(from as int, k as int).push(cs@[k as int]));
            lemma_utf8_len_push(cs@.subrange(from as int, k as int), cs@[k as int]);
            lemma_utf8_len_split(cs@, from as int, k + 1, to as int);
        }
        w = w + width_exec(cs[k]);
        k = k + 1;
    }
    w
}

/// The tokens of `input` with their positions, or `None` when a number in it
/// does not fit in an `i64`.
pub fn lex_checked(input: &str) -> (r: Option<Vec<TokenPosition>>)
    requires
        utf8_len(input@) < usize::MAX,
    ensures
        match r {
            Some(v) => numbers_fit(input@, 0) && tokens_view(v@) == lex_spec(input@),
            None => !numbers_fit(input@, 0),
        },
{
    let cs = chars_of(input);
    let mut tokens: Vec<TokenPosition> = Vec::new();
    let mut i: usize = 0;
    let mut line: usize = 1;
    let mut column: usize = 1;
    proof {
        assert(tokens_view(tokens@) =~= Seq::<STokenPos>::empty());
        assert(cs@.subrange(0, 0) =~= Seq::<char>::empty());
        assert(encode_utf8(Seq::<char>::empty()) =~= Seq::<u8>::empty());
    }
    while i < cs.len()
        invariant
            cs@ == input@,
            utf8_len(cs@) < usize::MAX,
            i <= cs.len(),
            1 <= line <= i + 1,
            1 <= column <= utf8_len(cs@.subrange(0, i as int)) + 1,
            lex_spec(cs@) == tokens_view(tokens@) + lex_from(cs@, i as int, line as nat, column as nat),
            numbers_fit(cs@, 0) == numbers_fit(cs@, i as int),
        decreases cs.len() - i,
    {
        proof {
            lemma_lexeme_len(cs@, i as int);
        }
        let ghost l = lexeme_at(cs@, i as int);
        let ghost n = lexeme_len(l);
        let found = lexeme_exec(&cs, i);
        let len: usize = match &found {
            Found::Skip(n) => *n,
            Found::NewLine => 1,
            Found::Tok(_, n) => *n,
            Found::Num(_, n) => *n,
            Found::TooBig => 0,
            Found::Error(n) => *n,
        };
        if let Found::TooBig = found {
            return None;
        }
        assert(len == n);
        proof {
            lemma_utf8_len_split(cs@, 0, i as int, cs@.len() as int);
            lemma_utf8_len_split(cs@, i as int, i + n, cs@.len() as int);
            lemma_utf8_len_split(cs@, 0, i as int, i + n);
            assert(cs@.subrange(0, cs@.len() as int) =~= cs@);
            lemma_utf8_len_ge(cs@.subrange(i as int, i + n));
            lemma_utf8_len_ge(cs@);
        }
        let w = span_width(&cs, i, i + len);
        let ghost old_tokens = tokens_view(tokens@);
        match found {
            Found::Skip(_) => {},
            Found::NewLine => {
                line = line + 1;
                column = 2;
            },
            Found::Tok(t, _) => {
                let start = Position { line, column };
                let end = Position { line, column: column + w };
                tokens.push(TokenPosition { token: t, position: Span { start, end } });
                column = column + w;
                proof {
                    assert(tokens_view(tokens@) =~= old_tokens + seq![placed(l->Tok_0, line as nat, (column - w) as nat, w as nat)]);
                }
            },
            Found::Num(v, _) => {
                let start = Position { line, column };
                let end = Position { line, column: column + w };
                tokens.push(TokenPosition { token: Token::Number(v), position: Span { start, end } });
                column = column + w;
                proof {
                    assert(tokens_view(tokens@) =~= old_tokens + seq![placed(SToken::Number(v), line as nat, (column - w) as nat, w as nat)]);
                }
            },
            Found::TooBig => {},
            Found::Error(_) => {
                column = column + 1;
            },
        }
        i = i + len;
    }
    proof {
        assert(lex_from(cs@, i as int, line as nat, column as nat) =~= Seq::<STokenPos>::empty());
        assert(tokens_view(tokens@) + Seq::<STokenPos>::empty() =~= tokens_view(tokens@));
    }
    Some(tokens)
}

proof fn lemma_utf8_len_ge(s: Seq<char>)
    ensures
        utf8_len(s) >= s.len(),
    decreases s.len(),
{
    if s.len() == 0 {
        assert(encode_utf8(s) =~= Seq::<u8>::empty());
    } else {
        lemma_utf8_len_ge(s.drop_last());
        assert(s.drop_last().push(s.last()) =~= s);
        lemma_utf8_len_push(s.drop_last(), s.last());
    }
}

/// Whether the UTF-8 encoding of `input` is shorter than `usize::MAX` bytes,
/// the size that `lex` can count positions in.
pub fn below_size_limit(input: &str) -> (r: bool)
    ensures
        r == (utf8_len(input@) < usize::MAX),
{
    let cs = chars_of(input);
    let mut k: usize = 0;
    let mut w: usize = 0;
    proof {
        assert(cs@.subrange(0, 0) =~= Seq::<char>::empty());
        lemma_utf8_len_split(cs@, 0, 0, cs@.len() as int);
    }
    while k < cs.len()
        invariant
            k <= cs@.len(),
            cs@ == input@,
            w == utf8_len(cs@.subrange(0, k as int)),
            w < usize::MAX,
        decreases cs@.len() - k,
    {
        let cw = width_exec(cs[k]);
        proof {
            assert(cs@.subrange(0, k as int).push(cs@[k as int]) =~= cs@.subrange(0, k + 1));
            lemma_utf8_len_push(cs@.subrange(0, k as int), cs@[k as int]);
            lemma_utf8_len_split(cs@, 0, k + 1, cs@.len() as int);
        }
        if cw >= usize::MAX - w {
            assert(cs@.subrange(0, cs@.len() as int) =~= cs@);
            return false;
        }
        w = w + cw;
        k = k + 1;
    }
    proof {
        assert(cs@.subrange(0, k as int) =~= cs@);
    }
    true
}

/// The tokens of `input` with their positions (line and column of where each
/// starts and ends); blanks, comments and unmatched characters yield none.
pub fn lex(input: &str) -> (r: Vec<TokenPosition>)
    requires
        utf8_len(input@) < usize::MAX,
        numbers_fit(input@, 0),
    ensures
        tokens_view(r@) == lex_spec(input@),
{
    match lex_checked(input) {
        Some(v) => v,
        None => Vec::new(),
    }
}

} // verus!
