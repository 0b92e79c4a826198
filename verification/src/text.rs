//! Text building: decimal and hexadecimal rendering, and the few `str` operations the
//! library needs.
use vstd::prelude::*;
use vstd::string::*;
use vstd::utf8::*;

verus! {

/// `String::push` appends one character.
pub assume_specification[ std::string::String::push ](s: &mut std::string::String, c: char)
    ensures
        final(s)@ == old(s)@.push(c),
;

/// Calls `str::starts_with` with a `&str` pattern: true when the characters of `prefix` are
/// the first characters of `s`.
#[verifier::external_body]
pub(crate) fn starts_with(s: &str, prefix: &str) -> (r: bool)
    ensures
        r == prefix@.is_prefix_of(s@),
{
    s.starts_with(prefix)
}

/// The number of leading bytes up to which `bytes` is UTF-8: the largest `n` such that the
/// first `n` bytes are valid UTF-8 on their own.
pub open spec fn valid_up_to(bytes: Seq<u8>) -> nat
    decreases bytes.len(),
{
    if valid_utf8(bytes) || bytes.len() == 0 {
        bytes.len()
    } else {
        valid_up_to(bytes.drop_last())
    }
}

/// Calls `std::str::from_utf8`: the string made of the bytes where they are valid UTF-8, or
/// else what `Utf8Error::valid_up_to` gives, the largest index up to which they are.
#[verifier::external_body]
pub(crate) fn utf8_str(bytes: &[u8]) -> (r: Result<&str, usize>)
    ensures
        match r {
            Ok(s) => valid_utf8(bytes@) && s.spec_bytes() == bytes@,
            Err(n) => !valid_utf8(bytes@) && n == valid_up_to(bytes@),
        },
{
    std::str::from_utf8(bytes).map_err(|err| err.valid_up_to())
}

/// The verified prefix is within bounds, valid UTF-8, and no longer prefix is valid.
pub proof fn valid_up_to_is_longest(bytes: Seq<u8>)
    ensures
        valid_up_to(bytes) <= bytes.len(),
        valid_utf8(bytes.take(valid_up_to(bytes) as int)),
        forall|m: int|
            valid_up_to(bytes) < m <= bytes.len() ==> !valid_utf8(#[trigger] bytes.take(m)),
    decreases bytes.len(),
{
    assert(bytes.take(bytes.len() as int) =~= bytes);
    if valid_utf8(bytes) || bytes.len() == 0 {
    } else {
        let shorter = bytes.drop_last();
        valid_up_to_is_longest(shorter);
        assert forall|m: int| 0 <= m < bytes.len() implies #[trigger] bytes.take(m)
            =~= shorter.take(m) by {}
        assert forall|m: int| valid_up_to(bytes) < m <= bytes.len() implies !valid_utf8(
            #[trigger] bytes.take(m),
        ) by {
            if m < bytes.len() {
                assert(bytes.take(m) =~= shorter.take(m));
            }
        }
    }
}

/// The digit for a value below sixteen, in lower case.
pub open spec fn digit_char(d: int) -> char
    recommends
        0 <= d < 16,
{
    if d < 10 {
        ('0' as int + d) as char
    } else {
        ('a' as int + d - 10) as char
    }
}

/// The character of one digit.
pub fn digit(d: u8) -> (c: char)
    requires
        d < 16,
    ensures
        c == digit_char(d as int),
{
    if d < 10 {
        (48u8 + d) as char
    } else {
        (87u8 + d) as char
    }
}

/// `n` written in base ten, most significant digit first and without leading zeros.
pub open spec fn decimal_digits(n: nat) -> Seq<char>
    decreases n,
{
    if n < 10 {
        seq![digit_char(n as int)]
    } else {
        decimal_digits(n / 10).push(digit_char((n % 10) as int))
    }
}

/// Appends `n` in base ten.
pub fn push_decimal(s: &mut String, n: u64)
    ensures
        final(s)@ == old(s)@ + decimal_digits(n as nat),
    decreases n,
{
    if n >= 10 {
        push_decimal(s, n / 10);
    }
    s.push(digit((n % 10) as u8));
}

/// `n` in base ten, padded with spaces on the left to at least `width` characters.
pub open spec fn padded_decimal(n: nat, width: nat) -> Seq<char> {
    let digits = decimal_digits(n);
    if digits.len() >= width {
        digits
    } else {
        Seq::new((width - digits.len()) as nat, |i: int| ' ') + digits
    }
}

/// Appends `n` in base ten, right-aligned in `width` characters.
pub fn push_padded_decimal(s: &mut String, n: u64, width: usize)
    ensures
        final(s)@ == old(s)@ + padded_decimal(n as nat, width as nat),
{
    let mut digits: String = String::new();
    push_decimal(&mut digits, n);
    assert(digits@ =~= decimal_digits(n as nat));
    let len: usize = digits.as_str().unicode_len();
    let ghost before = s@;
    let mut i: usize = len;
    while i < width
        invariant
            digits@ == decimal_digits(n as nat),
            len == digits@.len(),
            len <= i,
            len < width ==> i <= width,
            len >= width ==> i == len,
            s@ =~= before + Seq::new((i - len) as nat, |k: int| ' '),
        decreases width - i,
    {
        s.push(' ');
        i = i + 1;
    }
    s.append(digits.as_str());
    assert(s@ =~= before + padded_decimal(n as nat, width as nat));
}

/// Two lower-case hexadecimal digits for each byte, high nibble first.
pub open spec fn hex_text(bytes: Seq<u8>) -> Seq<char> {
    Seq::new(
        2 * bytes.len(),
        |i: int|
            if i % 2 == 0 {
                digit_char(bytes[i / 2] as int / 16)
            } else {
                digit_char(bytes[i / 2] as int % 16)
            },
    )
}

/// Renders an identifier as hexadecimal text.
///
/// The longest identifier is a trace id, sixteen bytes.
pub fn ser_hex<const N: usize>(bytes: &[u8; N]) -> (r: String)
    requires
        N * 2 <= 32,
    ensures
        r@ == hex_text(bytes@),
{
    let mut s: String = String::new();
    let mut i: usize = 0;
    while i < N
        invariant
            i <= N,
            N * 2 <= 32,
            s@ =~= hex_text(bytes@.take(i as int)),
        decreases N - i,
    {
        let b: u8 = bytes[i];
        s.push(digit(b / 16));
        s.push(digit(b % 16));
        i = i + 1;
    }
    assert(bytes@.take(N as int) =~= bytes@);
    s
}

/// Renders an optional identifier; an absent one stays absent.
pub fn ser_opt_hex<const N: usize>(bytes: &Option<[u8; N]>) -> (r: Option<String>)
    requires
        N * 2 <= 32,
    ensures
        r is Some <==> bytes is Some,
        bytes is Some ==> r->0@ == hex_text(bytes->0@),
{
    match bytes {
        Some(bytes) => Some(ser_hex(bytes)),
        None => None,
    }
}

/// The value of a digit.
pub open spec fn digit_value(c: char) -> int {
    if '0' <= c && c <= '9' {
        c as int - '0' as int
    } else {
        c as int - 'a' as int + 10
    }
}

/// A decimal digit.
pub open spec fn decimal_char(c: char) -> bool {
    '0' <= c && c <= '9'
}

/// A hexadecimal digit in lower case.
pub open spec fn hex_char(c: char) -> bool {
    decimal_char(c) || 'a' <= c && c <= 'f'
}

/// The number that decimal digits stand for.
pub open spec fn decimal_value(digits: Seq<char>) -> int
    decreases digits.len(),
{
    if digits.len() == 0 {
        0
    } else {
        10 * decimal_value(digits.drop_last()) + digit_value(digits.last())
    }
}

/// A digit reads back as the value it was made of.
pub proof fn digit_reads_back(d: int)
    requires
        0 <= d < 16,
    ensures
        digit_value(digit_char(d)) == d,
        hex_char(digit_char(d)),
        d < 10 ==> decimal_char(digit_char(d)),
{
}

/// A number written in base ten reads back as the number, is made of decimal digits alone, and
/// has no leading zero unless it is zero.
pub proof fn decimal_reads_back(n: nat)
    ensures
        decimal_value(decimal_digits(n)) == n,
        decimal_digits(n).len() > 0,
        forall|i: int|
            0 <= i < decimal_digits(n).len() ==> decimal_char(#[trigger] decimal_digits(n)[i]),
        n > 0 ==> decimal_digits(n)[0] != '0',
        n == 0 ==> decimal_digits(n).len() == 1,
    decreases n,
{
    let digits = decimal_digits(n);
    if n < 10 {
        digit_reads_back(n as int);
        assert(digits.drop_last() =~= Seq::<char>::empty());
        assert(decimal_value(digits.drop_last()) == 0);
    } else {
        decimal_reads_back(n / 10);
        digit_reads_back((n % 10) as int);
        let front = decimal_digits(n / 10);
        assert(digits.drop_last() =~= front);
        assert forall|i: int| 0 <= i < digits.len() implies decimal_char(#[trigger] digits[i]) by {
            if i < front.len() {
                assert(digits[i] == front[i]);
            }
        }
        assert(digits[0] == front[0]);
    }
}

/// A padded number is the number at the right end of at least `width` characters, with nothing
/// but blanks before it.
pub proof fn padding_goes_before(n: nat, width: nat)
    ensures
        ({
            let digits = decimal_digits(n);
            let text = padded_decimal(n, width);
            let blanks = text.len() - digits.len();
            &&& text.len() >= width
            &&& text.len() == width || text.len() == digits.len()
            &&& text.len() >= digits.len()
            &&& text.skip(blanks) == digits
            &&& forall|i: int| 0 <= i < blanks ==> #[trigger] text[i] == ' '
        }),
{
    let digits = decimal_digits(n);
    let text = padded_decimal(n, width);
    assert(text.skip(text.len() - digits.len()) =~= digits);
}

/// Hexadecimal text reads back as the bytes: two digits in lower case for each, the high one
/// first.
pub proof fn hex_reads_back(bytes: Seq<u8>)
    ensures
        hex_text(bytes).len() == 2 * bytes.len(),
        forall|i: int| 0 <= i < 2 * bytes.len() ==> hex_char(#[trigger] hex_text(bytes)[i]),
        forall|i: int|
            0 <= i < bytes.len() ==> 16 * digit_value(hex_text(bytes)[2 * i]) + digit_value(
                hex_text(bytes)[2 * i + 1],
            ) == #[trigger] bytes[i],
{
    let text = hex_text(bytes);
    assert forall|i: int| 0 <= i < 2 * bytes.len() implies hex_char(#[trigger] text[i]) by {
        digit_reads_back(bytes[i / 2] as int / 16);
        digit_reads_back(bytes[i / 2] as int % 16);
    }
    assert forall|i: int| 0 <= i < bytes.len() implies 16 * digit_value(text[2 * i]) + digit_value(
        text[2 * i + 1],
    ) == #[trigger] bytes[i] by {
        let hi = 2 * i;
        let lo = 2 * i + 1;
        assert(hi / 2 == i && lo / 2 == i && hi % 2 == 0 && lo % 2 == 1);
        digit_reads_back(bytes[i] as int / 16);
        digit_reads_back(bytes[i] as int % 16);
    }
}

/// Digits of different values differ.
pub proof fn digits_distinct(a: int, b: int)
    requires
        0 <= a < 16,
        0 <= b < 16,
        digit_char(a) == digit_char(b),
    ensures
        a == b,
{
}

/// Hexadecimal text loses nothing: identifiers with the same text are the same identifier.
pub proof fn hex_is_injective(a: Seq<u8>, b: Seq<u8>)
    requires
        hex_text(a) == hex_text(b),
    ensures
        a == b,
{
    assert(hex_text(a).len() == 2 * a.len());
    assert(hex_text(b).len() == 2 * b.len());
    assert forall|i: int| 0 <= i < a.len() implies a[i] == b[i] by {
        let hi = 2 * i;
        let lo = 2 * i + 1;
        assert(hi / 2 == i && lo / 2 == i && hi % 2 == 0 && lo % 2 == 1);
        assert(hex_text(a)[hi] == digit_char(a[i] as int / 16));
        assert(hex_text(b)[hi] == digit_char(b[i] as int / 16));
        assert(hex_text(a)[lo] == digit_char(a[i] as int % 16));
        assert(hex_text(b)[lo] == digit_char(b[i] as int % 16));
        digits_distinct(a[i] as int / 16, b[i] as int / 16);
        digits_distinct(a[i] as int % 16, b[i] as int % 16);
    }
    assert(a =~= b);
}

} // verus!
