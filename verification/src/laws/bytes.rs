//! Laws of numbers, byte strings and plain packets.

use vstd::prelude::*;
use crate::wire;

verus! {

/// Four bytes hold a number, the most significant byte first.
pub proof fn law_be32_is_positional(x: u32)
    ensures
        ({
            let b = wire::be32(x);
            &&& b.len() == 4
            &&& b[0] * 0x100_0000 + b[1] * 0x1_0000 + b[2] * 0x100 + b[3] == x
        }),
{
}

/// Eight bytes hold a number, the most significant byte first.
pub proof fn law_be64_is_positional(x: u64)
    ensures
        ({
            let b = wire::be64(x);
            let high = b[0] * 0x100_0000 + b[1] * 0x1_0000 + b[2] * 0x100 + b[3];
            let low = b[4] * 0x100_0000 + b[5] * 0x1_0000 + b[6] * 0x100 + b[7];
            &&& b.len() == 8
            &&& high * 0x1_0000_0000 + low == x
        }),
{
    law_be32_is_positional((x / 0x1_0000_0000) as u32);
    law_be32_is_positional((x % 0x1_0000_0000) as u32);
}

/// The number in four bytes is the sum of their values at their places; what
/// stands behind them does not count.
pub proof fn law_four_bytes_are_a_number(s: Seq<u8>)
    requires
        s.len() >= 4,
    ensures
        wire::from_be32(s) == s[0] * 0x100_0000 + s[1] * 0x1_0000 + s[2] * 0x100 + s[3],
{
}

/// A length field holds the length itself where it can, and otherwise differs from
/// it by a multiple of 2^32.
pub proof fn law_length_field(n: nat)
    ensures
        n < 0x1_0000_0000 ==> wire::len32(n) == n,
        wire::len32(n) <= n,
        (n - wire::len32(n)) % 0x1_0000_0000 == 0,
{
}

/// A byte string is its length in four bytes and then its content.
pub proof fn law_byte_string(data: Seq<u8>)
    ensures
        ({
            let s = wire::ssh_bytes(data);
            &&& s.len() == 4 + data.len()
            &&& s.skip(4) == data
            &&& s[0] * 0x100_0000 + s[1] * 0x1_0000 + s[2] * 0x100 + s[3] == data.len()
                % 0x1_0000_0000
        }),
{
    law_be32_is_positional((data.len() % 0x1_0000_0000) as u32);
    assert(wire::ssh_bytes(data).skip(4) =~= data);
}

/// A text goes as the byte string of its UTF-8 form.
pub proof fn law_text_goes_as_utf8(text: Seq<char>)
    ensures
        wire::ssh_string(text) == wire::ssh_bytes(vstd::utf8::encode_utf8(text)),
        wire::ssh_string(text).skip(4) == vstd::utf8::encode_utf8(text),
{
    law_byte_string(vstd::utf8::encode_utf8(text));
}

/// A number is read from where it stands, whatever stands around it.
pub proof fn law_number_is_read_in_place(before: Seq<u8>, x: u32, behind: Seq<u8>)
    ensures
        ({
            let s = before + wire::be32(x) + behind;
            &&& wire::u32_fits(s, before.len() as int)
            &&& wire::u32_at(s, before.len() as int) == x
        }),
{
    let s = before + wire::be32(x) + behind;
    let at = before.len() as int;
    assert(s.subrange(at, at + 4) =~= wire::be32(x));
    wire::law_be32_read_back(x);
}

/// No number is read where fewer than four bytes are left.
pub proof fn law_no_number_in_too_few_bytes(s: Seq<u8>, offset: int)
    ensures
        wire::u32_fits(s, offset) ==> 0 <= offset && s.len() - offset >= 4,
        0 <= offset && s.len() - offset >= 4 ==> wire::u32_fits(s, offset),
        offset < 0 || s.len() - offset < 4 ==> !wire::ssh_bytes_fit(s, offset),
{
}

/// Behind a length there is a whole byte string exactly if that many bytes follow;
/// it is the first of them, and reading goes on behind it.
pub proof fn law_byte_string_is_read_in_place(before: Seq<u8>, len: u32, behind: Seq<u8>)
    ensures
        ({
            let s = before + wire::be32(len) + behind;
            let offset = before.len() as int;
            &&& wire::ssh_bytes_fit(s, offset) <==> len <= behind.len()
            &&& wire::ssh_bytes_end(s, offset) == offset + 4 + len
            &&& len <= behind.len() ==> wire::ssh_bytes_at(s, offset) == behind.take(len as int)
        }),
{
    let s = before + wire::be32(len) + behind;
    let offset = before.len() as int;
    law_number_is_read_in_place(before, len, behind);
    if len <= behind.len() {
        assert(wire::ssh_bytes_at(s, offset) =~= behind.take(len as int));
    }
}

} // verus!
