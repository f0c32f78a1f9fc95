use crate::stream::has_bytes;
use vstd::prelude::*;

verus! {

/// `String::push` of std: the character is appended at the end.
pub assume_specification[ std::string::String::push ](s: &mut std::string::String, ch: char)
    ensures
        final(s)@ == old(s)@.push(ch),
;

/// The number that eight bytes at `pos` spell, highest byte first.
pub open spec fn be_u64(data: Seq<u8>, pos: int) -> u64
    recommends
        has_bytes(data, pos, 8),
{
    (data[pos] as int * 0x100_0000_0000_0000 + data[pos + 1] as int * 0x1_0000_0000_0000
        + data[pos + 2] as int * 0x100_0000_0000 + data[pos + 3] as int * 0x1_0000_0000
        + data[pos + 4] as int * 0x100_0000 + data[pos + 5] as int * 0x1_0000 + data[pos
        + 6] as int * 0x100 + data[pos + 7] as int) as u64
}

/// The upper-case hexadecimal digit for `d`, which is below 16.
pub open spec fn hex_digit(d: int) -> char {
    if d < 10 {
        (48 + d) as char
    } else {
        (55 + d) as char
    }
}

/// `n` in upper-case hexadecimal, in exactly `width` digits: the lowest
/// `width` digits of the number, with leading zeros.
pub open spec fn hex_upper(n: int, width: nat) -> Seq<char>
    decreases width,
{
    if width == 0 {
        Seq::empty()
    } else {
        hex_upper(n / 16, (width - 1) as nat).push(hex_digit(n % 16))
    }
}

/// A 128-bit identifier in the layout Windows stores it: three integers and
/// eight trailing bytes, which are held as one number, first byte highest.
#[derive(Debug, Clone, Copy, PartialEq, Eq, Structural)]
pub struct Guid {
    pub data1: u32,
    pub data2: u16,
    pub data3: u16,
    pub data4: u64,
}

/// Eight bytes of `data` from `pos` on as one number, first byte highest.
pub(crate) fn pack_be_u64(data: &[u8], pos: usize) -> (r: u64)
    requires
        has_bytes(data@, pos as int, 8),
    ensures
        r == be_u64(data@, pos as int),
{
    let b0: u64 = data[pos] as u64;
    let b1: u64 = data[pos + 1] as u64;
    let b2: u64 = data[pos + 2] as u64;
    let b3: u64 = data[pos + 3] as u64;
    let b4: u64 = data[pos + 4] as u64;
    let b5: u64 = data[pos + 5] as u64;
    let b6: u64 = data[pos + 6] as u64;
    let b7: u64 = data[pos + 7] as u64;
    b0 * 0x100_0000_0000_0000 + b1 * 0x1_0000_0000_0000 + b2 * 0x100_0000_0000 + b3
        * 0x1_0000_0000 + b4 * 0x100_0000 + b5 * 0x1_0000 + b6 * 0x100 + b7
}

/// Appends the lowest `width` hexadecimal digits of `n` to `out`.
fn push_hex(out: &mut String, n: u64, width: usize)
    ensures
        final(out)@ == old(out)@ + hex_upper(n as int, width as nat),
    decreases width,
{
    if width == 0 {
        assert(out@ =~= out@ + hex_upper(n as int, 0));
    } else {
        push_hex(out, n / 16, width - 1);
        let d: u8 = (n % 16) as u8;
        let c: char = if d < 10 {
            (48 + d) as char
        } else {
            (55 + d) as char
        };
        out.push(c);
        assert(out@ =~= old(out)@ + hex_upper(n as int, width as nat));
    }
}

impl Guid {
    /// Builds an identifier from its three integers and the first eight bytes
    /// of `data4`.
    pub fn new(data1: u32, data2: u16, data3: u16, data4: &[u8]) -> (r: Guid)
        requires
            data4@.len() >= 8,
        ensures
            r == (Guid { data1, data2, data3, data4: be_u64(data4@, 0) }),
    {
        Guid { data1, data2, data3, data4: pack_be_u64(data4, 0) }
    }

    /// The identifier in its usual text form: five groups of upper-case
    /// hexadecimal digits (8, 4, 4, 4 and 12 of them) with dashes between.
    pub open spec fn text(self) -> Seq<char> {
        hex_upper(self.data1 as int, 8).push('-') + hex_upper(self.data2 as int, 4).push('-')
            + hex_upper(self.data3 as int, 4).push('-') + hex_upper(
            self.data4 as int / 0x1_0000_0000_0000,
            4,
        ).push('-') + hex_upper(self.data4 as int, 12)
    }

    /// The identifier in its usual text form.
    pub fn to_string(&self) -> (r: String)
        ensures
            r@ == self.text(),
    {
        let mut out = String::new();
        push_hex(&mut out, self.data1 as u64, 8);
        out.push('-');
        push_hex(&mut out, self.data2 as u64, 4);
        out.push('-');
        push_hex(&mut out, self.data3 as u64, 4);
        out.push('-');
        push_hex(&mut out, self.data4 / 0x1_0000_0000_0000, 4);
        out.push('-');
        push_hex(&mut out, self.data4, 12);
        assert(out@ =~= self.text());
        out
    }
}

} // verus!
