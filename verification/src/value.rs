//! Field values.
use serde_json::Value as JsonDocument;
use vstd::prelude::*;
use vstd::std_specs::cmp::{PartialEqSpec, PartialEqSpecImpl};

verus! {

/// A parsed JSON document, carried through unread.
#[verifier::external_type_specification]
#[verifier::external_body]
pub struct ExJsonValue(JsonDocument);

/// `clone` of `serde_json::Value`: the same document.
pub assume_specification[ <JsonDocument as std::clone::Clone>::clone ](
    v: &JsonDocument,
) -> (r: JsonDocument)
    ensures
        r == *v,
;

/// A JSON number. Each number has one form: a non-negative integer is `PosInt`, a negative one
/// `NegInt`, and a finite floating-point number is given by its IEEE 754 double bits.
#[derive(Clone, Copy, Debug, Eq)]
pub enum Number {
    PosInt(u64),
    NegInt(i64),
    Float(u64),
}

/// The bits of a double that is zero, with either sign.
pub open spec fn zero_double(bits: u64) -> bool {
    bits == 0 || bits == 0x8000_0000_0000_0000
}

/// Numbers are compared by value within a form: the two zeros among doubles are equal. An integer
/// never equals a double.
impl PartialEq for Number {
    fn eq(&self, other: &Self) -> (r: bool) {
        match (*self, *other) {
            (Number::PosInt(a), Number::PosInt(b)) => a == b,
            (Number::NegInt(a), Number::NegInt(b)) => a == b,
            (Number::Float(a), Number::Float(b)) => a == b || (a == 0 || a
                == 0x8000_0000_0000_0000) && (b == 0 || b == 0x8000_0000_0000_0000),
            _ => false,
        }
    }
}

impl PartialEqSpecImpl for Number {
    open spec fn obeys_eq_spec() -> bool {
        true
    }

    open spec fn eq_spec(&self, other: &Self) -> bool {
        match (*self, *other) {
            (Number::PosInt(a), Number::PosInt(b)) => a == b,
            (Number::NegInt(a), Number::NegInt(b)) => a == b,
            (Number::Float(a), Number::Float(b)) => a == b || zero_double(a) && zero_double(b),
            _ => false,
        }
    }
}

/// A value recorded for a field.
#[derive(Debug, PartialEq, Eq)]
pub enum Value {
    Bool(bool),
    Number(Number),
    String(String),
    Json(JsonDocument),
}

/// What a value is, with its text as characters.
pub enum ValueView {
    Bool(bool),
    Number(Number),
    String(Seq<char>),
    Json(JsonDocument),
}

impl View for Value {
    type V = ValueView;

    open spec fn view(&self) -> ValueView {
        match self {
            Value::Bool(b) => ValueView::Bool(*b),
            Value::Number(n) => ValueView::Number(*n),
            Value::String(s) => ValueView::String(s@),
            Value::Json(v) => ValueView::Json(*v),
        }
    }
}

impl Clone for Value {
    fn clone(&self) -> (r: Self)
        ensures
            r@ == self@,
    {
        match self {
            Value::Bool(b) => Value::Bool(*b),
            Value::Number(n) => Value::Number(*n),
            Value::String(s) => Value::String(s.clone()),
            Value::Json(v) => Value::Json(v.clone()),
        }
    }
}

/// The number for an integer.
pub open spec fn integer_number(n: int) -> Number {
    if n < 0 {
        Number::NegInt(n as i64)
    } else {
        Number::PosInt(n as u64)
    }
}

/// The exponent bits of a double.
pub open spec fn double_exponent(bits: u64) -> int {
    bits as int / 0x10_0000_0000_0000 % 0x800
}

/// The fraction bits of a double.
pub open spec fn double_fraction(bits: u64) -> int {
    bits as int % 0x10_0000_0000_0000
}

/// The sign bit of a double.
pub open spec fn double_negative(bits: u64) -> bool {
    bits >= 0x8000_0000_0000_0000
}

/// The value for a double: a number where it is finite, else its name as text.
pub open spec fn double_value(bits: u64) -> ValueView {
    if double_exponent(bits) != 0x7ff {
        ValueView::Number(Number::Float(bits))
    } else if double_fraction(bits) != 0 {
        ValueView::String("NaN"@)
    } else if double_negative(bits) {
        ValueView::String("-inf"@)
    } else {
        ValueView::String("inf"@)
    }
}

impl Number {
    /// The number for a signed integer.
    pub fn from_i64(n: i64) -> (r: Self)
        ensures
            r == integer_number(n as int),
    {
        if n < 0 {
            Number::NegInt(n)
        } else {
            Number::PosInt(n as u64)
        }
    }

    /// The number for an unsigned integer.
    pub fn from_u64(n: u64) -> (r: Self)
        ensures
            r == integer_number(n as int),
    {
        Number::PosInt(n)
    }
}

impl Value {
    /// The value for a double, given by its bits: a number, or text if it is infinite or not a
    /// number, since a JSON number can be neither.
    pub fn from_f64_bits(bits: u64) -> (r: Self)
        ensures
            r@ == double_value(bits),
    {
        if bits / 0x10_0000_0000_0000 % 0x800 != 0x7ff {
            Value::Number(Number::Float(bits))
        } else if bits % 0x10_0000_0000_0000 != 0 {
            Value::String("NaN".to_owned())
        } else if bits >= 0x8000_0000_0000_0000 {
            Value::String("-inf".to_owned())
        } else {
            Value::String("inf".to_owned())
        }
    }
}

impl From<bool> for Value {
    fn from(value: bool) -> (r: Self) {
        Value::Bool(value)
    }
}

impl vstd::std_specs::convert::FromSpecImpl<bool> for Value {
    open spec fn obeys_from_spec() -> bool {
        true
    }

    open spec fn from_spec(value: bool) -> Self {
        Value::Bool(value)
    }
}

impl From<Number> for Value {
    fn from(n: Number) -> (r: Self) {
        Value::Number(n)
    }
}

impl vstd::std_specs::convert::FromSpecImpl<Number> for Value {
    open spec fn obeys_from_spec() -> bool {
        true
    }

    open spec fn from_spec(n: Number) -> Self {
        Value::Number(n)
    }
}

impl From<String> for Value {
    fn from(s: String) -> (r: Self) {
        Value::String(s)
    }
}

impl vstd::std_specs::convert::FromSpecImpl<String> for Value {
    open spec fn obeys_from_spec() -> bool {
        true
    }

    open spec fn from_spec(s: String) -> Self {
        Value::String(s)
    }
}

impl From<&str> for Value {
    fn from(s: &str) -> (r: Self)
        ensures
            r@ == ValueView::String(s@),
    {
        Value::String(s.to_owned())
    }
}

impl vstd::std_specs::convert::FromSpecImpl<&str> for Value {
    open spec fn obeys_from_spec() -> bool {
        false
    }

    open spec fn from_spec(s: &str) -> Self {
        arbitrary()
    }
}

impl From<i8> for Value {
    fn from(n: i8) -> (r: Self) {
        Value::Number(Number::from_i64(n as i64))
    }
}

impl vstd::std_specs::convert::FromSpecImpl<i8> for Value {
    open spec fn obeys_from_spec() -> bool {
        true
    }

    open spec fn from_spec(n: i8) -> Self {
        Value::Number(integer_number(n as int))
    }
}

impl From<i16> for Value {
    fn from(n: i16) -> (r: Self) {
        Value::Number(Number::from_i64(n as i64))
    }
}

impl vstd::std_specs::convert::FromSpecImpl<i16> for Value {
    open spec fn obeys_from_spec() -> bool {
        true
    }

    open spec fn from_spec(n: i16) -> Self {
        Value::Number(integer_number(n as int))
    }
}

impl From<i32> for Value {
    fn from(n: i32) -> (r: Self) {
        Value::Number(Number::from_i64(n as i64))
    }
}

impl vstd::std_specs::convert::FromSpecImpl<i32> for Value {
    open spec fn obeys_from_spec() -> bool {
        true
    }

    open spec fn from_spec(n: i32) -> Self {
        Value::Number(integer_number(n as int))
    }
}

impl From<i64> for Value {
    fn from(n: i64) -> (r: Self) {
        Value::Number(Number::from_i64(n))
    }
}

impl vstd::std_specs::convert::FromSpecImpl<i64> for Value {
    open spec fn obeys_from_spec() -> bool {
        true
    }

    open spec fn from_spec(n: i64) -> Self {
        Value::Number(integer_number(n as int))
    }
}

impl From<isize> for Value {
    fn from(n: isize) -> (r: Self) {
        Value::Number(Number::from_i64(n as i64))
    }
}

impl vstd::std_specs::convert::FromSpecImpl<isize> for Value {
    open spec fn obeys_from_spec() -> bool {
        true
    }

    open spec fn from_spec(n: isize) -> Self {
        Value::Number(integer_number(n as int))
    }
}

impl From<u8> for Value {
    fn from(n: u8) -> (r: Self) {
        Value::Number(Number::from_u64(n as u64))
    }
}

impl vstd::std_specs::convert::FromSpecImpl<u8> for Value {
    open spec fn obeys_from_spec() -> bool {
        true
    }

    open spec fn from_spec(n: u8) -> Self {
        Value::Number(integer_number(n as int))
    }
}

impl From<u16> for Value {
    fn from(n: u16) -> (r: Self) {
        Value::Number(Number::from_u64(n as u64))
    }
}

impl vstd::std_specs::convert::FromSpecImpl<u16> for Value {
    open spec fn obeys_from_spec() -> bool {
        true
    }

    open spec fn from_spec(n: u16) -> Self {
        Value::Number(integer_number(n as int))
    }
}

impl From<u32> for Value {
    fn from(n: u32) -> (r: Self) {
        Value::Number(Number::from_u64(n as u64))
    }
}

impl vstd::std_specs::convert::FromSpecImpl<u32> for Value {
    open spec fn obeys_from_spec() -> bool {
        true
    }

    open spec fn from_spec(n: u32) -> Self {
        Value::Number(integer_number(n as int))
    }
}

impl From<u64> for Value {
    fn from(n: u64) -> (r: Self) {
        Value::Number(Number::from_u64(n))
    }
}

impl vstd::std_specs::convert::FromSpecImpl<u64> for Value {
    open spec fn obeys_from_spec() -> bool {
        true
    }

    open spec fn from_spec(n: u64) -> Self {
        Value::Number(integer_number(n as int))
    }
}

impl From<usize> for Value {
    fn from(n: usize) -> (r: Self) {
        Value::Number(Number::from_u64(n as u64))
    }
}

impl vstd::std_specs::convert::FromSpecImpl<usize> for Value {
    open spec fn obeys_from_spec() -> bool {
        true
    }

    open spec fn from_spec(n: usize) -> Self {
        Value::Number(integer_number(n as int))
    }
}

/// The integer that a number is; nothing where it is a double.
pub open spec fn integer_value(n: Number) -> Option<int> {
    match n {
        Number::PosInt(m) => Some(m as int),
        Number::NegInt(m) => Some(m as int),
        Number::Float(_) => None,
    }
}

/// The number for an integer is that integer, so different integers have different numbers. Its
/// form shows its sign.
pub proof fn integers_keep_their_value(n: int)
    requires
        i64::MIN <= n <= u64::MAX,
    ensures
        integer_value(integer_number(n)) == Some(n),
        integer_number(n) is NegInt <==> n < 0,
        integer_number(n) is PosInt <==> n >= 0,
{
}

/// The integer that a value is; nothing where it is no integer.
pub open spec fn value_integer(value: Value) -> Option<int> {
    match value {
        Value::Number(n) => integer_value(n),
        _ => None,
    }
}

/// A value made from an integer of any type is that integer.
pub proof fn converted_integers_keep_their_value(
    a: i8,
    b: i16,
    c: i32,
    d: i64,
    e: isize,
    f: u8,
    g: u16,
    h: u32,
    i: u64,
    j: usize,
)
    ensures
        value_integer(<Value as vstd::std_specs::convert::FromSpec<i8>>::from_spec(a)) == Some(
            a as int,
        ),
        value_integer(<Value as vstd::std_specs::convert::FromSpec<i16>>::from_spec(b)) == Some(
            b as int,
        ),
        value_integer(<Value as vstd::std_specs::convert::FromSpec<i32>>::from_spec(c)) == Some(
            c as int,
        ),
        value_integer(<Value as vstd::std_specs::convert::FromSpec<i64>>::from_spec(d)) == Some(
            d as int,
        ),
        value_integer(<Value as vstd::std_specs::convert::FromSpec<isize>>::from_spec(e)) == Some(
            e as int,
        ),
        value_integer(<Value as vstd::std_specs::convert::FromSpec<u8>>::from_spec(f)) == Some(
            f as int,
        ),
        value_integer(<Value as vstd::std_specs::convert::FromSpec<u16>>::from_spec(g)) == Some(
            g as int,
        ),
        value_integer(<Value as vstd::std_specs::convert::FromSpec<u32>>::from_spec(h)) == Some(
            h as int,
        ),
        value_integer(<Value as vstd::std_specs::convert::FromSpec<u64>>::from_spec(i)) == Some(
            i as int,
        ),
        value_integer(<Value as vstd::std_specs::convert::FromSpec<usize>>::from_spec(j)) == Some(
            j as int,
        ),
{
}

/// A value made from a truth value, a number or text is that.
pub proof fn converted_values_are_kept(b: bool, n: Number, s: String)
    ensures
        <Value as vstd::std_specs::convert::FromSpec<bool>>::from_spec(b) == Value::Bool(b),
        <Value as vstd::std_specs::convert::FromSpec<Number>>::from_spec(n) == Value::Number(n),
        <Value as vstd::std_specs::convert::FromSpec<String>>::from_spec(s) == Value::String(s),
{
}

/// What a value is shows all of it: values of different kinds, or with different contents, are not
/// the same.
pub proof fn views_show_the_value(b: bool, n: Number, s: String, v: JsonDocument)
    ensures
        Value::Bool(b)@ == ValueView::Bool(b),
        Value::Number(n)@ == ValueView::Number(n),
        Value::String(s)@ == ValueView::String(s@),
        Value::Json(v)@ == ValueView::Json(v),
{
}

/// Leaving the sign aside, doubles are ordered by their bits: those below the infinite one are
/// finite and keep their bits, and those above it are not numbers.
pub proof fn doubles_are_told_apart(bits: u64)
    ensures
        ({
            let magnitude = bits as int % 0x8000_0000_0000_0000;
            let infinite: int = 0x7ff0_0000_0000_0000;
            &&& magnitude < infinite ==> double_value(bits) == ValueView::Number(
                Number::Float(bits),
            )
            &&& magnitude == infinite && bits as int == magnitude ==> double_value(bits)
                == ValueView::String("inf"@)
            &&& magnitude == infinite && bits as int != magnitude ==> double_value(bits)
                == ValueView::String("-inf"@)
            &&& magnitude > infinite ==> double_value(bits) == ValueView::String("NaN"@)
        }),
{
}

/// Two numbers are equal if they are the same, or both a zero among doubles, and not otherwise.
pub proof fn equal_numbers_have_one_value(a: Number, b: Number)
    ensures
        PartialEqSpec::eq_spec(&a, &b) <==> a == b || (a matches Number::Float(x)
            && b matches Number::Float(y) && x % 0x8000_0000_0000_0000 == 0 && y
            % 0x8000_0000_0000_0000 == 0),
        PartialEqSpec::eq_spec(&a, &b) == PartialEqSpec::eq_spec(&b, &a),
{
}

} // verus!
