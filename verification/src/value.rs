//! Runtime values, and the string type that carries its own hash.
//!
//! A number is held as the 64 bits of an IEEE-754 double. Comparison and
//! negation are decided on those bits; arithmetic that rounds is left to the
//! caller of the machine.

use vstd::prelude::*;
use vstd::utf8::encode_utf8;

verus! {

/// Offset basis of the 32-bit FNV-1a hash.
pub const FNV_OFFSET_BASIS: u32 = 2166136261;

/// Prime of the 32-bit FNV-1a hash.
pub const FNV_PRIME: u32 = 16777619;

/// One round of FNV-1a: xor `byte` into `h`, then multiply by the prime
/// modulo 2^32.
pub open spec fn fnv1a_step(h: u32, byte: u8) -> u32 {
    (((h ^ (byte as u32)) as int * FNV_PRIME as int) % 0x1_0000_0000) as u32
}

/// The 32-bit FNV-1a hash of a byte sequence.
pub open spec fn fnv1a(data: Seq<u8>) -> u32
    decreases data.len(),
{
    if data.len() == 0 {
        FNV_OFFSET_BASIS
    } else {
        fnv1a_step(fnv1a(data.drop_last()), data.last())
    }
}

/// The hash of a text: FNV-1a over its UTF-8 bytes.
pub open spec fn text_hash(text: Seq<char>) -> u32 {
    fnv1a(encode_utf8(text))
}

/// Hashes `data` with 32-bit FNV-1a.
pub fn hash(data: &[u8]) -> (h: u32)
    ensures
        h == fnv1a(data@),
{
    let mut h: u32 = FNV_OFFSET_BASIS;
    let mut i: usize = 0;
    while i < data.len()
        invariant
            i <= data@.len(),
            h == fnv1a(data@.take(i as int)),
        decreases data@.len() - i,
    {
        proof {
            assert(data@.take(i + 1).drop_last() =~= data@.take(i as int));
        }
        h = (h ^ (data[i] as u32)).wrapping_mul(FNV_PRIME);
        i += 1;
    }
    proof {
        assert(data@.take(i as int) =~= data@);
    }
    h
}

/// An owned, immutable string that remembers the hash of its bytes.
pub struct ThinString {
    text: String,
    hash: u32,
}

impl View for ThinString {
    type V = Seq<char>;

    closed spec fn view(&self) -> Seq<char> {
        self.text@
    }
}

impl ThinString {
    #[verifier::type_invariant]
    spec fn hash_is_current(self) -> bool {
        self.hash == text_hash(self.text@)
    }

    /// Wraps `s`, hashing it once.
    pub fn new(s: String) -> (r: Self)
        ensures
            r@ == s@,
    {
        let hash = hash(s.as_str().as_bytes());
        ThinString { text: s, hash }
    }

    /// The FNV-1a hash of the string's bytes, computed when it was made.
    pub fn hash(&self) -> (h: u32)
        ensures
            h == text_hash(self@),
    {
        proof {
            use_type_invariant(self);
        }
        self.hash
    }

    /// Gives the text back.
    pub fn into_string(self) -> (s: String)
        ensures
            s@ == self@,
    {
        self.text
    }

    /// Borrows the text.
    pub fn as_str(&self) -> (s: &str)
        ensures
            s@ == self@,
    {
        self.text.as_str()
    }
}

impl Clone for ThinString {
    fn clone(&self) -> (r: Self)
        ensures
            r@ == self@,
    {
        proof {
            use_type_invariant(self);
        }
        ThinString { text: self.text.clone(), hash: self.hash }
    }
}

/// Largest bit pattern, sign cleared, that is not a NaN: positive infinity.
pub const NUMBER_INFINITY: u64 = 0x7FF0_0000_0000_0000;

/// The sign bit of a double.
pub const NUMBER_SIGN: u64 = 0x8000_0000_0000_0000;

/// The bits of `bits` without the sign.
pub open spec fn number_magnitude(bits: u64) -> int {
    if bits >= NUMBER_SIGN {
        bits - NUMBER_SIGN
    } else {
        bits as int
    }
}

/// Whether `bits` encodes a NaN: exponent all ones, fraction not zero.
pub open spec fn number_is_nan(bits: u64) -> bool {
    number_magnitude(bits) > NUMBER_INFINITY
}

/// Where a double that is not a NaN stands in the order of the reals: the
/// magnitude, negated under a set sign bit. Both zeros stand at 0.
pub open spec fn number_rank(bits: u64) -> int {
    if bits >= NUMBER_SIGN {
        -number_magnitude(bits)
    } else {
        number_magnitude(bits)
    }
}

/// IEEE-754 `==` on the bits of two doubles: a NaN equals nothing, the two
/// zeros equal each other.
pub open spec fn number_eq(a: u64, b: u64) -> bool {
    !number_is_nan(a) && !number_is_nan(b) && number_rank(a) == number_rank(b)
}

/// IEEE-754 `<` on the bits of two doubles: false when either is a NaN.
pub open spec fn number_lt(a: u64, b: u64) -> bool {
    !number_is_nan(a) && !number_is_nan(b) && number_rank(a) < number_rank(b)
}

/// IEEE-754 negation on the bits of a double: the sign bit flipped.
pub open spec fn number_neg(bits: u64) -> u64 {
    if bits >= NUMBER_SIGN {
        (bits - NUMBER_SIGN) as u64
    } else {
        (bits + NUMBER_SIGN) as u64
    }
}

fn magnitude_of(bits: u64) -> (m: u64)
    ensures
        m == number_magnitude(bits),
{
    if bits >= NUMBER_SIGN {
        bits - NUMBER_SIGN
    } else {
        bits
    }
}

/// Whether the double with these bits is a NaN.
pub fn number_is_nan_bits(bits: u64) -> (r: bool)
    ensures
        r == number_is_nan(bits),
{
    magnitude_of(bits) > NUMBER_INFINITY
}

/// Compares two doubles for equality as IEEE-754 does.
pub fn number_equal(a: u64, b: u64) -> (r: bool)
    ensures
        r == number_eq(a, b),
{
    if number_is_nan_bits(a) || number_is_nan_bits(b) {
        return false;
    }
    let ma = magnitude_of(a);
    let mb = magnitude_of(b);
    if ma == 0 && mb == 0 {
        true
    } else {
        a == b
    }
}

/// Whether the first double is less than the second, as IEEE-754 orders them.
pub fn number_less(a: u64, b: u64) -> (r: bool)
    ensures
        r == number_lt(a, b),
{
    if number_is_nan_bits(a) || number_is_nan_bits(b) {
        return false;
    }
    let ma = magnitude_of(a);
    let mb = magnitude_of(b);
    let a_negative = a >= NUMBER_SIGN;
    let b_negative = b >= NUMBER_SIGN;
    if a_negative {
        if b_negative {
            ma > mb
        } else {
            ma > 0 || mb > 0
        }
    } else {
        if b_negative {
            false
        } else {
            ma < mb
        }
    }
}

/// Negates a double by flipping its sign bit.
pub fn number_negate(bits: u64) -> (r: u64)
    ensures
        r == number_neg(bits),
{
    if bits >= NUMBER_SIGN {
        bits - NUMBER_SIGN
    } else {
        bits + NUMBER_SIGN
    }
}

/// What a [`Value`] is, with text as a sequence of characters.
pub enum ValueView {
    Nil,
    Bool(bool),
    Number(u64),
    String(Seq<char>),
}

/// A value of the language.
pub enum Value {
    Nil,
    Bool(bool),
    /// The bits of an IEEE-754 double.
    Number(u64),
    String(ThinString),
}

/// The value `nil`.
pub const NIL: Value = Value::Nil;

impl View for Value {
    type V = ValueView;

    open spec fn view(&self) -> ValueView {
        match self {
            Value::Nil => ValueView::Nil,
            Value::Bool(b) => ValueView::Bool(*b),
            Value::Number(n) => ValueView::Number(*n),
            Value::String(s) => ValueView::String(s@),
        }
    }
}

impl Clone for Value {
    fn clone(&self) -> (r: Self)
        ensures
            r@ == self@,
    {
        match self {
            Value::Nil => Value::Nil,
            Value::Bool(b) => Value::Bool(*b),
            Value::Number(n) => Value::Number(*n),
            Value::String(s) => Value::String(s.clone()),
        }
    }
}

/// Equality of the language: same kind and same content, numbers compared as
/// IEEE-754 doubles, anything else across kinds unequal.
pub open spec fn values_eq(a: ValueView, b: ValueView) -> bool {
    match (a, b) {
        (ValueView::Nil, ValueView::Nil) => true,
        (ValueView::Bool(x), ValueView::Bool(y)) => x == y,
        (ValueView::Number(x), ValueView::Number(y)) => number_eq(x, y),
        (ValueView::String(x), ValueView::String(y)) => x == y,
        _ => false,
    }
}

/// Falsey are `nil` and `false`; every other value is truthy.
pub open spec fn falsey(v: ValueView) -> bool {
    v == ValueView::Nil || v == ValueView::Bool(false)
}

impl Value {
    /// A string value holding `v`.
    pub fn string(v: String) -> (r: Self)
        ensures
            r@ == ValueView::String(v@),
    {
        Value::String(ThinString::new(v))
    }

    /// Compares with `other` as the language's `==` does.
    pub fn equals(&self, other: &Value) -> (r: bool)
        ensures
            r == values_eq(self@, other@),
    {
        match (self, other) {
            (Value::Nil, Value::Nil) => true,
            (Value::Bool(a), Value::Bool(b)) => *a == *b,
            (Value::Number(a), Value::Number(b)) => number_equal(*a, *b),
            (Value::String(a), Value::String(b)) => text_equal(a.as_str(), b.as_str()),
            _ => false,
        }
    }

    /// Whether the value counts as false in a condition.
    pub fn is_falsey(&self) -> (r: bool)
        ensures
            r == falsey(self@),
    {
        match self {
            Value::Nil => true,
            Value::Bool(b) => !*b,
            _ => false,
        }
    }
}

/// Compares two values as the language's `==` does.
pub fn values_equal(a: Value, b: Value) -> (r: bool)
    ensures
        r == values_eq(a@, b@),
{
    a.equals(&b)
}

/// Whether two texts hold the same bytes, which is when they hold the same
/// characters.
pub fn text_equal(a: &str, b: &str) -> (r: bool)
    ensures
        r == (a@ == b@),
{
    let x = a.as_bytes();
    let y = b.as_bytes();
    proof {
        vstd::utf8::encode_utf8_decode_utf8(a@);
        vstd::utf8::encode_utf8_decode_utf8(b@);
    }
    if x.len() != y.len() {
        return false;
    }
    let mut i: usize = 0;
    while i < x.len()
        invariant
            x@.len() == y@.len(),
            i <= x@.len(),
            x@.take(i as int) == y@.take(i as int),
            x@ == y@ ==> a@ == b@,
            x@ != y@ ==> a@ != b@,
        decreases x@.len() - i,
    {
        if x[i] != y[i] {
            return false;
        }
        proof {
            assert(x@.take(i + 1) =~= x@.take(i as int).push(x@[i as int]));
            assert(y@.take(i + 1) =~= y@.take(i as int).push(y@[i as int]));
        }
        i += 1;
    }
    proof {
        assert(x@.take(i as int) =~= x@);
        assert(y@.take(i as int) =~= y@);
    }
    true
}

} // verus!
