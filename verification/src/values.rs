use vstd::prelude::*;
use vstd::utf8::encode_utf8;
use crate::text::{chars_of, dec_int, i64_to_string, push_all, string_of};

verus! {

/// A value of a Dr Script program: an integer or a string.
#[derive(Debug, Clone)]
pub enum Type {
    Int(i64),
    Str(String),
}

/// The mathematical value of a `Type`: strings are taken by their characters.
pub enum SVal {
    Int(i64),
    Str(Seq<char>),
}

impl View for Type {
    type V = SVal;

    open spec fn view(&self) -> SVal {
        match self {
            Type::Int(n) => SVal::Int(*n),
            Type::Str(s) => SVal::Str(s@),
        }
    }
}

/// A three-way comparison result.
#[derive(Clone, Copy, Debug, PartialEq, Eq, Structural)]
pub enum Order {
    Less,
    Equal,
    Greater,
}

/// How a value is written by `Display` (`print`, `str`, string concatenation).
pub open spec fn display(v: SVal) -> Seq<char> {
    match v {
        SVal::Int(n) => dec_int(n as int),
        SVal::Str(s) => s,
    }
}

/// The number of bytes of the UTF-8 encoding of a string.
pub open spec fn utf8_len(s: Seq<char>) -> nat {
    encode_utf8(s).len()
}

/// `s` written `n` times in a row.
pub open spec fn repeat(s: Seq<char>, n: nat) -> Seq<char>
    decreases n,
{
    if n == 0 {
        Seq::empty()
    } else {
        repeat(s, (n - 1) as nat) + s
    }
}

/// Integer division rounding toward zero, as Rust's `/` on integers.
pub open spec fn trunc_div(x: int, d: int) -> int {
    if x == 0 {
        0
    } else if x > 0 && d > 0 {
        x / d
    } else if x < 0 && d < 0 {
        (-x) / (-d)
    } else if x < 0 {
        -((-x) / d)
    } else {
        -(x / (-d))
    }
}

/// Whether an integer fits in an `i64`.
pub open spec fn fits_i64(x: int) -> bool {
    i64::MIN <= x <= i64::MAX
}

/// `str::repeat` on `s` with count `n`: its result, or the message of its panic.
pub open spec fn repeat_spec(s: Seq<char>, n: usize) -> Result<SVal, Seq<char>> {
    if (utf8_len(s) as usize) * n > usize::MAX {
        Err("capacity overflow"@)
    } else {
        Ok(SVal::Str(repeat(s, n as nat)))
    }
}

/// What `a + b` gives, or the message of the panic it raises.
pub open spec fn add_spec(a: SVal, b: SVal) -> Result<SVal, Seq<char>> {
    match (a, b) {
        (SVal::Int(x), SVal::Int(y)) => if fits_i64(x + y) {
            Ok(SVal::Int((x + y) as i64))
        } else {
            Err("attempt to add with overflow"@)
        },
        (SVal::Str(x), SVal::Str(y)) => Ok(SVal::Str(x + y)),
        (SVal::Str(x), SVal::Int(y)) => Ok(SVal::Str(x + dec_int(y as int))),
        (SVal::Int(x), SVal::Str(y)) => Ok(SVal::Str(dec_int(x as int) + y)),
    }
}

/// What `a - b` gives, or the message of the panic it raises.
pub open spec fn sub_spec(a: SVal, b: SVal) -> Result<SVal, Seq<char>> {
    match (a, b) {
        (SVal::Int(x), SVal::Int(y)) => if fits_i64(x - y) {
            Ok(SVal::Int((x - y) as i64))
        } else {
            Err("attempt to subtract with overflow"@)
        },
        _ => Err("Cannot subtract non-ints"@),
    }
}

/// What `a * b` gives, or the message of the panic it raises.
pub open spec fn mul_spec(a: SVal, b: SVal) -> Result<SVal, Seq<char>> {
    match (a, b) {
        (SVal::Int(x), SVal::Int(y)) => if fits_i64(x * y) {
            Ok(SVal::Int((x * y) as i64))
        } else {
            Err("attempt to multiply with overflow"@)
        },
        (SVal::Str(x), SVal::Int(y)) => repeat_spec(x, y as usize),
        (SVal::Int(x), SVal::Str(y)) => repeat_spec(y, x as usize),
        (SVal::Str(x), SVal::Str(y)) => Err("Cannot multiply strings: "@ + x + " and "@ + y),
    }
}

/// What `a / b` gives, or the message of the panic it raises.
pub open spec fn div_spec(a: SVal, b: SVal) -> Result<SVal, Seq<char>> {
    match (a, b) {
        (SVal::Int(x), SVal::Int(y)) => if y == 0 {
            Err("attempt to divide by zero"@)
        } else if x == i64::MIN && y == -1 {
            Err("attempt to divide with overflow"@)
        } else {
            Ok(SVal::Int(trunc_div(x as int, y as int) as i64))
        },
        _ => Err("Cannot divide non-ints"@),
    }
}

proof fn lemma_trunc_div_range(x: int, d: int)
    requires
        d != 0,
        i64::MIN <= x <= i64::MAX,
        i64::MIN <= d <= i64::MAX,
        !(x == i64::MIN && d == -1),
    ensures
        fits_i64(trunc_div(x, d)),
{
    if x > 0 && d > 0 {
        assert(0 <= x / d <= x) by (nonlinear_arith)
            requires x > 0 && d > 0;
    } else if x < 0 && d < 0 {
        assert(0 <= (-x) / (-d) <= -x) by (nonlinear_arith)
            requires x < 0 && d < 0;
        if x == i64::MIN {
            assert((-x) / (-d) <= -x / 2) by (nonlinear_arith)
                requires x < 0 && d < -1;
        }
    } else if x < 0 {
        assert(0 <= (-x) / d <= -x) by (nonlinear_arith)
            requires x < 0 && d > 0;
    } else if x > 0 {
        assert(0 <= x / (-d) <= x) by (nonlinear_arith)
            requires x > 0 && d < 0;
    }
}

/// Lexicographic order of two strings by their characters (the order of `String`).
pub open spec fn text_order(a: Seq<char>, b: Seq<char>) -> Order
    decreases a.len(),
{
    if a.len() == 0 {
        if b.len() == 0 { Order::Equal } else { Order::Less }
    } else if b.len() == 0 {
        Order::Greater
    } else if (a[0] as u32) < (b[0] as u32) {
        Order::Less
    } else if (a[0] as u32) > (b[0] as u32) {
        Order::Greater
    } else {
        text_order(a.drop_first(), b.drop_first())
    }
}

/// `partial_cmp` on values: integers and strings are ordered among themselves,
/// an integer and a string are not comparable.
pub open spec fn order_spec(a: SVal, b: SVal) -> Option<Order> {
    match (a, b) {
        (SVal::Int(x), SVal::Int(y)) => Some(
            if x < y { Order::Less } else if x == y { Order::Equal } else { Order::Greater },
        ),
        (SVal::Str(x), SVal::Str(y)) => Some(text_order(x, y)),
        _ => None,
    }
}

/// `==` on values: same kind and same content.
pub open spec fn eq_spec(a: SVal, b: SVal) -> bool {
    match (a, b) {
        (SVal::Int(x), SVal::Int(y)) => x == y,
        (SVal::Str(x), SVal::Str(y)) => x == y,
        _ => false,
    }
}

/// `a < b`.
pub open spec fn lt_spec(a: SVal, b: SVal) -> bool {
    order_spec(a, b) == Some(Order::Less)
}

/// `a <= b`.
pub open spec fn le_spec(a: SVal, b: SVal) -> bool {
    order_spec(a, b) == Some(Order::Less) || order_spec(a, b) == Some(Order::Equal)
}

/// `a > b`.
pub open spec fn gt_spec(a: SVal, b: SVal) -> bool {
    order_spec(a, b) == Some(Order::Greater)
}

/// `a >= b`.
pub open spec fn ge_spec(a: SVal, b: SVal) -> bool {
    order_spec(a, b) == Some(Order::Greater) || order_spec(a, b) == Some(Order::Equal)
}

fn text_order_exec(a: &Vec<char>, b: &Vec<char>) -> (r: Order)
    ensures
        r == text_order(a@, b@),
{
    let mut i: usize = 0;
    assert(a@.skip(0) =~= a@);
    assert(b@.skip(0) =~= b@);
    while i < a.len() && i < b.len()
        invariant
            i <= a.len(),
            i <= b.len(),
            text_order(a@, b@) == text_order(a@.skip(i as int), b@.skip(i as int)),
        decreases a.len() - i,
    {
        let x = a[i] as u32;
        let y = b[i] as u32;
        assert(a@.skip(i as int)[0] == a@[i as int]);
        assert(b@.skip(i as int)[0] == b@[i as int]);
        if x < y {
            return Order::Less;
        } else if x > y {
            return Order::Greater;
        }
        assert(a@.skip(i as int).drop_first() =~= a@.skip(i + 1));
        assert(b@.skip(i as int).drop_first() =~= b@.skip(i + 1));
        i = i + 1;
    }
    if i < a.len() {
        Order::Greater
    } else if i < b.len() {
        Order::Less
    } else {
        Order::Equal
    }
}

fn repeat_chars(s: &Vec<char>, n: usize) -> (r: Vec<char>)
    requires
        (utf8_len(s@) as usize) * n <= usize::MAX,
    ensures
        r@ == repeat(s@, n as nat),
{
    let mut r: Vec<char> = Vec::new();
    if s.len() == 0 {
        proof { lemma_repeat_empty(s@, n as nat); }
        return r;
    }
    let mut k: usize = 0;
    while k < n
        invariant
            k <= n,
            r@ == repeat(s@, k as nat),
        decreases n - k,
    {
        push_all(&mut r, s);
        k = k + 1;
    }
    r
}

proof fn lemma_repeat_empty(s: Seq<char>, n: nat)
    requires
        s.len() == 0,
    ensures
        repeat(s, n) == Seq::<char>::empty(),
    decreases n,
{
    if n > 0 {
        lemma_repeat_empty(s, (n - 1) as nat);
        assert(repeat(s, (n - 1) as nat) + s =~= Seq::<char>::empty());
    }
}

fn repeat_value(s: &String, n: usize) -> (r: Result<Type, String>)
    ensures
        match r {
            Ok(v) => repeat_spec(s@, n) == Ok::<SVal, Seq<char>>(v@),
            Err(m) => repeat_spec(s@, n) == Err::<SVal, Seq<char>>(m@),
        },
{
    let bl = s.as_str().len();
    match bl.checked_mul(n) {
        None => Err(String::from_str("capacity overflow")),
        Some(_) => {
            let cs = chars_of(s.as_str());
            let r = repeat_chars(&cs, n);
            Ok(Type::Str(string_of(&r)))
        },
    }
}

impl Type {
    /// Whether the value is the integer 0.
    pub fn is_zero(&self) -> (r: bool)
        ensures
            r == (self@ == SVal::Int(0)),
    {
        match self {
            Type::Int(n) => *n == 0,
            Type::Str(_) => false,
        }
    }

    /// A copy of the value.
    pub fn dup(&self) -> (r: Type)
        ensures
            r@ == self@,
    {
        match self {
            Type::Int(n) => Type::Int(*n),
            Type::Str(s) => Type::Str(s.clone()),
        }
    }

    /// The text that `Display` writes for the value.
    pub fn to_text(&self) -> (r: String)
        ensures
            r@ == display(self@),
    {
        match self {
            Type::Int(n) => i64_to_string(*n),
            Type::Str(s) => s.clone(),
        }
    }

    /// `self + other`, or the message of the panic that the operator raises.
    pub fn try_add(&self, other: &Type) -> (r: Result<Type, String>)
        ensures
            match r {
                Ok(v) => add_spec(self@, other@) == Ok::<SVal, Seq<char>>(v@),
                Err(m) => add_spec(self@, other@) == Err::<SVal, Seq<char>>(m@),
            },
    {
        match (self, other) {
            (Type::Int(x), Type::Int(y)) => match x.checked_add(*y) {
                Some(z) => Ok(Type::Int(z)),
                None => Err(String::from_str("attempt to add with overflow")),
            },
            (Type::Str(x), Type::Str(y)) => Ok(Type::Str(x.clone().concat(y.as_str()))),
            (Type::Str(x), Type::Int(y)) => {
                let t = i64_to_string(*y);
                Ok(Type::Str(x.clone().concat(t.as_str())))
            },
            (Type::Int(x), Type::Str(y)) => {
                let t = i64_to_string(*x);
                Ok(Type::Str(t.concat(y.as_str())))
            },
        }
    }

    /// `self - other`, or the message of the panic that the operator raises.
    pub fn try_sub(&self, other: &Type) -> (r: Result<Type, String>)
        ensures
            match r {
                Ok(v) => sub_spec(self@, other@) == Ok::<SVal, Seq<char>>(v@),
                Err(m) => sub_spec(self@, other@) == Err::<SVal, Seq<char>>(m@),
            },
    {
        match (self, other) {
            (Type::Int(x), Type::Int(y)) => match x.checked_sub(*y) {
                Some(z) => Ok(Type::Int(z)),
                None => Err(String::from_str("attempt to subtract with overflow")),
            },
            _ => Err(String::from_str("Cannot subtract non-ints")),
        }
    }

    /// `self * other`, or the message of the panic that the operator raises.
    pub fn try_mul(&self, other: &Type) -> (r: Result<Type, String>)
        ensures
            match r {
                Ok(v) => mul_spec(self@, other@) == Ok::<SVal, Seq<char>>(v@),
                Err(m) => mul_spec(self@, other@) == Err::<SVal, Seq<char>>(m@),
            },
    {
        match (self, other) {
            (Type::Int(x), Type::Int(y)) => match x.checked_mul(*y) {
                Some(z) => Ok(Type::Int(z)),
                None => Err(String::from_str("attempt to multiply with overflow")),
            },
            (Type::Str(x), Type::Int(y)) => repeat_value(x, *y as usize),
            (Type::Int(x), Type::Str(y)) => repeat_value(y, *x as usize),
            (Type::Str(x), Type::Str(y)) => {
                let mut m = String::from_str("Cannot multiply strings: ");
                m.append(x.as_str());
                m.append(" and ");
                m.append(y.as_str());
                Err(m)
            },
        }
    }

    /// `self / other`, or the message of the panic that the operator raises.
    pub fn try_div(&self, other: &Type) -> (r: Result<Type, String>)
        ensures
            match r {
                Ok(v) => div_spec(self@, other@) == Ok::<SVal, Seq<char>>(v@),
                Err(m) => div_spec(self@, other@) == Err::<SVal, Seq<char>>(m@),
            },
    {
        match (self, other) {
            (Type::Int(x), Type::Int(y)) => {
                if *y == 0 {
                    Err(String::from_str("attempt to divide by zero"))
                } else if *x == i64::MIN && *y == -1 {
                    Err(String::from_str("attempt to divide with overflow"))
                } else {
                    proof { lemma_trunc_div_range(*x as int, *y as int); }
                    match x.checked_div(*y) {
                        Some(q) => Ok(Type::Int(q)),
                        None => Err(String::from_str("attempt to divide with overflow")),
                    }
                }
            },
            _ => Err(String::from_str("Cannot divide non-ints")),
        }
    }

    /// The value of `self + other`; `other` and `self` are such that `+` does not panic.
    pub fn add(self, other: Type) -> (r: Type)
        requires
            add_spec(self@, other@) is Ok,
        ensures
            add_spec(self@, other@) == Ok::<SVal, Seq<char>>(r@),
    {
        match self.try_add(&other) {
            Ok(v) => v,
            Err(_) => self,
        }
    }

    /// The value of `self - other`, where `-` does not panic.
    pub fn sub(self, other: Type) -> (r: Type)
        requires
            sub_spec(self@, other@) is Ok,
        ensures
            sub_spec(self@, other@) == Ok::<SVal, Seq<char>>(r@),
    {
        match self.try_sub(&other) {
            Ok(v) => v,
            Err(_) => self,
        }
    }

    /// The value of `self * other`, where `*` does not panic.
    pub fn mul(self, other: Type) -> (r: Type)
        requires
            mul_spec(self@, other@) is Ok,
        ensures
            mul_spec(self@, other@) == Ok::<SVal, Seq<char>>(r@),
    {
        match self.try_mul(&other) {
            Ok(v) => v,
            Err(_) => self,
        }
    }

    /// The value of `self / other`, where `/` does not panic.
    pub fn div(self, other: Type) -> (r: Type)
        requires
            div_spec(self@, other@) is Ok,
        ensures
            div_spec(self@, other@) == Ok::<SVal, Seq<char>>(r@),
    {
        match self.try_div(&other) {
            Ok(v) => v,
            Err(_) => self,
        }
    }

    /// `*self += other`, where `+` does not panic.
    pub fn add_assign(&mut self, other: Type)
        requires
            add_spec(old(self)@, other@) is Ok,
        ensures
            add_spec(old(self)@, other@) == Ok::<SVal, Seq<char>>(final(self)@),
    {
        let v = self.dup().add(other);
        *self = v;
    }

    /// `*self -= other`, where `-` does not panic.
    pub fn sub_assign(&mut self, other: Type)
        requires
            sub_spec(old(self)@, other@) is Ok,
        ensures
            sub_spec(old(self)@, other@) == Ok::<SVal, Seq<char>>(final(self)@),
    {
        let v = self.dup().sub(other);
        *self = v;
    }

    /// `partial_cmp`: the order of two integers or of two strings, `None` for mixed kinds.
    pub fn partial_order(&self, other: &Type) -> (r: Option<Order>)
        ensures
            r == order_spec(self@, other@),
    {
        match (self, other) {
            (Type::Int(x), Type::Int(y)) => Some(
                if *x < *y { Order::Less } else if *x == *y { Order::Equal } else { Order::Greater },
            ),
            (Type::Str(x), Type::Str(y)) => {
                let a = chars_of(x.as_str());
                let b = chars_of(y.as_str());
                Some(text_order_exec(&a, &b))
            },
            _ => None,
        }
    }

    /// `==` on values.
    pub fn eq(&self, other: &Type) -> (r: bool)
        ensures
            r == eq_spec(self@, other@),
    {
        match (self, other) {
            (Type::Int(x), Type::Int(y)) => *x == *y,
            (Type::Str(x), Type::Str(y)) => *x == *y,
            _ => false,
        }
    }
}

} // verus!
