use crate::binxml::value_variant::{BinXmlValue, Sid};
use crate::guid::{hex_digit, hex_upper, Guid};
use crate::model::token::{SidValue, TypedValue};
use vstd::prelude::*;

verus! {

/// The decimal digit for `d`, which is below 10.
pub open spec fn decimal_digit(d: int) -> char {
    (48 + d) as char
}

/// `n` in decimal, without leading zeros.
pub open spec fn decimal_digits(n: nat) -> Seq<char>
    decreases n,
{
    if n < 10 {
        seq![decimal_digit(n as int)]
    } else {
        decimal_digits(n / 10).push(decimal_digit((n % 10) as int))
    }
}

/// `i` in decimal, with a minus sign in front where it is negative.
pub open spec fn decimal(i: int) -> Seq<char> {
    if i < 0 {
        seq!['-'] + decimal_digits((-i) as nat)
    } else {
        decimal_digits(i as nat)
    }
}

/// The lower-case hexadecimal digit for `d`, which is below 16.
pub open spec fn hex_digit_lower(d: int) -> char {
    if d < 10 {
        (48 + d) as char
    } else {
        (87 + d) as char
    }
}

/// `n` in lower-case hexadecimal, without leading zeros.
pub open spec fn hex_lower_digits(n: nat) -> Seq<char>
    decreases n,
{
    if n < 16 {
        seq![hex_digit_lower(n as int)]
    } else {
        hex_lower_digits(n / 16).push(hex_digit_lower((n % 16) as int))
    }
}

/// `n` as a hexadecimal number: `0x` and its lower-case digits.
pub open spec fn hex_number(n: nat) -> Seq<char> {
    seq!['0', 'x'] + hex_lower_digits(n)
}

/// The bytes of `bytes`, each as two upper-case hexadecimal digits.
pub open spec fn hex_bytes(bytes: Seq<u8>) -> Seq<char>
    decreases bytes.len(),
{
    if bytes.len() == 0 {
        Seq::empty()
    } else {
        hex_bytes(bytes.drop_last()) + hex_upper(bytes.last() as int, 2)
    }
}

/// The sub-authorities of a security identifier, each with a dash in front.
pub open spec fn sub_authorities_text(subs: Seq<u32>) -> Seq<char>
    decreases subs.len(),
{
    if subs.len() == 0 {
        Seq::empty()
    } else {
        sub_authorities_text(subs.drop_last()) + seq!['-'] + decimal(subs.last() as int)
    }
}

/// A security identifier in its usual form: `S`, the revision, the
/// authority and the sub-authorities, in decimal with dashes between.
pub open spec fn sid_text(sid: SidValue) -> Seq<char> {
    seq!['S', '-'] + decimal(sid.revision as int) + seq!['-'] + decimal(sid.authority as int)
        + sub_authorities_text(sid.sub_authorities)
}

/// The text of a value, for the values whose text is a matter of digits and
/// letters: a null value is the empty text, a string is itself, numbers are
/// decimal, pointer-sized and hexadecimal numbers are hexadecimal, byte
/// strings are upper-case hexadecimal.
///
/// Floating-point numbers, points in time, handles and nested fragments have
/// no text here.
pub open spec fn value_text(v: TypedValue) -> Option<Seq<char>> {
    match v {
        TypedValue::Null => Some(Seq::empty()),
        TypedValue::String(s) => Some(s),
        TypedValue::AnsiString(s) => Some(s),
        TypedValue::Int8(n) => Some(decimal(n as int)),
        TypedValue::UInt8(n) => Some(decimal(n as int)),
        TypedValue::Int16(n) => Some(decimal(n as int)),
        TypedValue::UInt16(n) => Some(decimal(n as int)),
        TypedValue::Int32(n) => Some(decimal(n as int)),
        TypedValue::UInt32(n) => Some(decimal(n as int)),
        TypedValue::Int64(n) => Some(decimal(n as int)),
        TypedValue::UInt64(n) => Some(decimal(n as int)),
        TypedValue::Bool(b) => Some(
            if b {
                seq!['t', 'r', 'u', 'e']
            } else {
                seq!['f', 'a', 'l', 's', 'e']
            },
        ),
        TypedValue::Binary(bytes) => Some(hex_bytes(bytes)),
        TypedValue::Guid(g) => Some(g.text()),
        TypedValue::SizeT(n) => Some(hex_number(n as nat)),
        TypedValue::Sid(sid) => Some(sid_text(sid)),
        TypedValue::HexInt32(n) => Some(hex_number(n as nat)),
        TypedValue::HexInt64(n) => Some(hex_number(n as nat)),
        TypedValue::Real32(_) => None,
        TypedValue::Real64(_) => None,
        TypedValue::FileTime(_) => None,
        TypedValue::SysTime(_) => None,
        TypedValue::EvtHandle => None,
        TypedValue::BinXml(_) => None,
        TypedValue::EvtXml => None,
    }
}

/// Appends `n` in decimal to `out`.
fn push_decimal_digits(out: &mut String, n: u64)
    ensures
        final(out)@ == old(out)@ + decimal_digits(n as nat),
    decreases n,
{
    if n >= 10 {
        push_decimal_digits(out, n / 10);
    }
    let d: u8 = (n % 10) as u8;
    out.push((48 + d) as char);
    assert(out@ =~= old(out)@ + decimal_digits(n as nat));
}

/// Appends an unsigned number in decimal to `out`.
fn push_unsigned(out: &mut String, n: u64)
    ensures
        final(out)@ == old(out)@ + decimal(n as int),
{
    push_decimal_digits(out, n);
}

/// Appends a signed number in decimal to `out`.
fn push_signed(out: &mut String, n: i64)
    ensures
        final(out)@ == old(out)@ + decimal(n as int),
{
    if n < 0 {
        out.push('-');
        let magnitude: u64 = if n == i64::MIN {
            9223372036854775808
        } else {
            (-n) as u64
        };
        push_decimal_digits(out, magnitude);
        assert(out@ =~= old(out)@ + decimal(n as int));
    } else {
        push_decimal_digits(out, n as u64);
    }
}

/// Appends `n` in lower-case hexadecimal to `out`.
fn push_hex_lower_digits(out: &mut String, n: u64)
    ensures
        final(out)@ == old(out)@ + hex_lower_digits(n as nat),
    decreases n,
{
    if n >= 16 {
        push_hex_lower_digits(out, n / 16);
    }
    let d: u8 = (n % 16) as u8;
    let c: char = if d < 10 {
        (48 + d) as char
    } else {
        (87 + d) as char
    };
    out.push(c);
    assert(out@ =~= old(out)@ + hex_lower_digits(n as nat));
}

/// Appends `n` as a hexadecimal number to `out`.
fn push_hex_number(out: &mut String, n: u64)
    ensures
        final(out)@ == old(out)@ + hex_number(n as nat),
{
    out.push('0');
    out.push('x');
    push_hex_lower_digits(out, n);
    assert(out@ =~= old(out)@ + hex_number(n as nat));
}

/// The upper-case hexadecimal digit for `d`.
fn upper_digit(d: u8) -> (c: char)
    requires
        d < 16,
    ensures
        c == hex_digit(d as int),
{
    if d < 10 {
        (48 + d) as char
    } else {
        (55 + d) as char
    }
}

/// Appends the bytes of `bytes` in upper-case hexadecimal to `out`.
fn push_hex_bytes(out: &mut String, bytes: &Vec<u8>)
    ensures
        final(out)@ == old(out)@ + hex_bytes(bytes@),
{
    let mut i: usize = 0;
    assert(bytes@.subrange(0, 0) =~= Seq::<u8>::empty());
    assert(out@ =~= old(out)@ + hex_bytes(bytes@.subrange(0, 0)));
    while i < bytes.len()
        invariant
            i <= bytes.len(),
            out@ == old(out)@ + hex_bytes(bytes@.subrange(0, i as int)),
        decreases bytes.len() - i,
    {
        let b = bytes[i];
        let ghost before = out@;
        out.push(upper_digit(b / 16));
        out.push(upper_digit(b % 16));
        proof {
            let prefix = bytes@.subrange(0, i + 1);
            assert(prefix.drop_last() =~= bytes@.subrange(0, i as int));
            assert(prefix.last() == b);
            reveal_with_fuel(hex_upper, 3);
            assert(hex_upper(b as int, 2) =~= seq![hex_digit(b as int / 16), hex_digit(b as int % 16)])
                by {
                assert((b as int / 16) % 16 == b as int / 16);
            }
            assert(out@ =~= old(out)@ + hex_bytes(prefix));
        }
        i += 1;
    }
    assert(bytes@.subrange(0, bytes@.len() as int) =~= bytes@);
}

/// Appends a security identifier in its usual form to `out`.
fn push_sid(out: &mut String, sid: &Sid)
    ensures
        final(out)@ == old(out)@ + sid_text(sid@),
{
    out.push('S');
    out.push('-');
    push_unsigned(out, sid.revision as u64);
    out.push('-');
    push_unsigned(out, sid.authority);
    let ghost head = out@;
    assert(head =~= old(out)@ + seq!['S', '-'] + decimal(sid.revision as int) + seq!['-'] + decimal(
        sid.authority as int,
    ));
    let mut i: usize = 0;
    assert(sid.sub_authorities@.subrange(0, 0) =~= Seq::<u32>::empty());
    assert(out@ =~= head + sub_authorities_text(sid.sub_authorities@.subrange(0, 0)));
    while i < sid.sub_authorities.len()
        invariant
            i <= sid.sub_authorities.len(),
            out@ == head + sub_authorities_text(sid.sub_authorities@.subrange(0, i as int)),
        decreases sid.sub_authorities.len() - i,
    {
        let sub = sid.sub_authorities[i];
        out.push('-');
        push_unsigned(out, sub as u64);
        proof {
            let prefix = sid.sub_authorities@.subrange(0, i + 1);
            assert(prefix.drop_last() =~= sid.sub_authorities@.subrange(0, i as int));
            assert(prefix.last() == sub);
            assert(out@ =~= head + sub_authorities_text(prefix));
        }
        i += 1;
    }
    assert(sid.sub_authorities@.subrange(0, sid.sub_authorities@.len() as int)
        =~= sid.sub_authorities@);
    assert(out@ =~= old(out)@ + sid_text(sid@));
}

/// The view of a text that may be absent.
pub open spec fn text_view(t: Option<String>) -> Option<Seq<char>> {
    match t {
        Some(s) => Some(s@),
        None => None,
    }
}

impl BinXmlValue {
    /// The text of the value, where it has one that is a matter of digits
    /// and letters; `None` for floating-point numbers, points in time,
    /// handles and nested fragments, which are left to the sink.
    pub fn as_text(&self) -> (r: Option<String>)
        ensures
            text_view(r) == value_text(self@),
    {
        let mut out = String::new();
        match self {
            BinXmlValue::NullType => {},
            BinXmlValue::StringType(s) => {
                return Some(s.clone());
            },
            BinXmlValue::AnsiStringType(s) => {
                return Some(s.clone());
            },
            BinXmlValue::Int8Type(n) => push_signed(&mut out, *n as i64),
            BinXmlValue::UInt8Type(n) => push_unsigned(&mut out, *n as u64),
            BinXmlValue::Int16Type(n) => push_signed(&mut out, *n as i64),
            BinXmlValue::UInt16Type(n) => push_unsigned(&mut out, *n as u64),
            BinXmlValue::Int32Type(n) => push_signed(&mut out, *n as i64),
            BinXmlValue::UInt32Type(n) => push_unsigned(&mut out, *n as u64),
            BinXmlValue::Int64Type(n) => push_signed(&mut out, *n),
            BinXmlValue::UInt64Type(n) => push_unsigned(&mut out, *n),
            BinXmlValue::BoolType(b) => {
                if *b {
                    out.push('t');
                    out.push('r');
                    out.push('u');
                    out.push('e');
                } else {
                    out.push('f');
                    out.push('a');
                    out.push('l');
                    out.push('s');
                    out.push('e');
                }
            },
            BinXmlValue::BinaryType(bytes) => push_hex_bytes(&mut out, bytes),
            BinXmlValue::GuidType(g) => {
                return Some(g.to_string());
            },
            BinXmlValue::SizeTType(n) => push_hex_number(&mut out, *n),
            BinXmlValue::SidType(sid) => push_sid(&mut out, sid),
            BinXmlValue::HexInt32Type(n) => push_hex_number(&mut out, *n as u64),
            BinXmlValue::HexInt64Type(n) => push_hex_number(&mut out, *n),
            BinXmlValue::Real32Type(_) => {
                return None;
            },
            BinXmlValue::Real64Type(_) => {
                return None;
            },
            BinXmlValue::FileTimeType(_) => {
                return None;
            },
            BinXmlValue::SysTimeType(_) => {
                return None;
            },
            BinXmlValue::EvtHandle => {
                return None;
            },
            BinXmlValue::BinXmlType(_) => {
                return None;
            },
            BinXmlValue::EvtXml => {
                return None;
            },
        }
        assert(out@ =~= value_text(self@).unwrap());
        Some(out)
    }
}

} // verus!
