//! SSH wire encoding: big-endian integers and length-prefixed byte strings.

use vstd::prelude::*;
use vstd::slice::slice_subrange;

verus! {

/// The four bytes of `x`, most significant first.
pub open spec fn be32(x: u32) -> Seq<u8> {
    seq![
        (x / 0x100_0000) as u8,
        (x / 0x1_0000 % 0x100) as u8,
        (x / 0x100 % 0x100) as u8,
        (x % 0x100) as u8,
    ]
}

/// The eight bytes of `x`, most significant first.
pub open spec fn be64(x: u64) -> Seq<u8> {
    be32((x / 0x1_0000_0000) as u32) + be32((x % 0x1_0000_0000) as u32)
}

/// The number whose big-endian bytes are the first four of `s`.
pub open spec fn from_be32(s: Seq<u8>) -> u32 {
    (s[0] * 0x100_0000 + s[1] * 0x1_0000 + s[2] * 0x100 + s[3]) as u32
}

/// A length as it goes into a four-byte length field: its low 32 bits.
pub open spec fn len32(n: nat) -> u32 {
    (n % 0x1_0000_0000) as u32
}

/// The wire form of a byte string: its length in four bytes, then its bytes.
pub open spec fn ssh_bytes(data: Seq<u8>) -> Seq<u8> {
    be32(len32(data.len())) + data
}

/// The wire form of a text: its UTF-8 form as a byte string.
pub open spec fn ssh_string(text: Seq<char>) -> Seq<u8> {
    ssh_bytes(vstd::utf8::encode_utf8(text))
}

/// Whether `s` holds four whole bytes at `offset`.
pub open spec fn u32_fits(s: Seq<u8>, offset: int) -> bool {
    0 <= offset && offset + 4 <= s.len()
}

/// The big-endian number at `offset` of `s`.
pub open spec fn u32_at(s: Seq<u8>, offset: int) -> u32 {
    from_be32(s.subrange(offset, offset + 4))
}

/// Whether a length-prefixed byte string at `offset` lies wholly inside `s`.
pub open spec fn ssh_bytes_fit(s: Seq<u8>, offset: int) -> bool {
    u32_fits(s, offset) && offset + 4 + u32_at(s, offset) <= s.len()
}

/// The offset just behind the byte string at `offset`.
pub open spec fn ssh_bytes_end(s: Seq<u8>, offset: int) -> int {
    offset + 4 + u32_at(s, offset)
}

/// The content of the byte string at `offset`.
pub open spec fn ssh_bytes_at(s: Seq<u8>, offset: int) -> Seq<u8> {
    s.subrange(offset + 4, ssh_bytes_end(s, offset))
}

/// Appends the bytes of `data` to `buf`.
pub fn push_bytes(buf: &mut Vec<u8>, data: &[u8])
    ensures
        final(buf)@ == old(buf)@ + data@,
{
    buf.extend_from_slice(data);
    assert(buf@ =~= old(buf)@ + data@);
}

/// Appends one byte to `buf`.
pub fn push_byte(buf: &mut Vec<u8>, byte: u8)
    ensures
        final(buf)@ == old(buf)@ + seq![byte],
{
    buf.push(byte);
    assert(buf@ =~= old(buf)@ + seq![byte]);
}

/// Whether two byte slices hold the same bytes.
pub fn same_bytes(a: &[u8], b: &[u8]) -> (same: bool)
    ensures
        same == (a@ == b@),
{
    if a.len() != b.len() {
        return false;
    }
    let mut i: usize = 0;
    while i < a.len()
        invariant
            i <= a@.len(),
            a@.len() == b@.len(),
            a@.take(i as int) == b@.take(i as int),
        decreases a@.len() - i,
    {
        if a[i] != b[i] {
            return false;
        }
        i = i + 1;
        assert(a@.take(i as int) =~= b@.take(i as int));
    }
    assert(a@ =~= b@) by {
        assert(a@.take(i as int) =~= a@);
        assert(b@.take(i as int) =~= b@);
    }
    true
}

/// The `N` bytes of `s` from `from` on, as an array.
pub fn array_at<const N: usize>(s: &[u8], from: usize) -> (out: [u8; N])
    requires
        from + N <= s@.len(),
    ensures
        out@ == s@.subrange(from as int, from + N),
{
    assert(s@.len() == s.len());
    let mut out: [u8; N] = [0u8; N];
    let mut i: usize = 0;
    while i < N
        invariant
            i <= N,
            from + N <= s@.len(),
            s@.len() <= usize::MAX,
            forall|j: int| 0 <= j < i ==> out@[j] == s@[from + j],
        decreases N - i,
    {
        out[i] = s[from + i];
        i = i + 1;
    }
    assert(out@ =~= s@.subrange(from as int, from + N));
    out
}

/// The four bytes of `x`, most significant first.
pub fn u32_to_be_bytes(x: u32) -> (bytes: [u8; 4])
    ensures
        bytes@ == be32(x),
{
    let bytes: [u8; 4] = [
        (x / 0x100_0000) as u8,
        (x / 0x1_0000 % 0x100) as u8,
        (x / 0x100 % 0x100) as u8,
        (x % 0x100) as u8,
    ];
    assert(bytes@ =~= be32(x));
    bytes
}

/// The eight bytes of `x`, most significant first.
pub fn u64_to_be_bytes(x: u64) -> (bytes: [u8; 8])
    ensures
        bytes@ == be64(x),
{
    let high: [u8; 4] = u32_to_be_bytes((x / 0x1_0000_0000) as u32);
    let low: [u8; 4] = u32_to_be_bytes((x % 0x1_0000_0000) as u32);
    let bytes: [u8; 8] = [high[0], high[1], high[2], high[3], low[0], low[1], low[2], low[3]];
    assert(bytes@ =~= be64(x));
    bytes
}

/// The number whose big-endian bytes are `bytes`.
pub fn u32_from_be_bytes(bytes: &[u8]) -> (x: u32)
    requires
        bytes@.len() == 4,
    ensures
        x == from_be32(bytes@),
{
    let b0: u32 = bytes[0] as u32;
    let b1: u32 = bytes[1] as u32;
    let b2: u32 = bytes[2] as u32;
    let b3: u32 = bytes[3] as u32;
    b0 * 0x100_0000 + b1 * 0x1_0000 + b2 * 0x100 + b3
}

/// Appends `x` to `buf` in four bytes.
pub fn push_u32(buf: &mut Vec<u8>, x: u32)
    ensures
        final(buf)@ == old(buf)@ + be32(x),
{
    push_bytes(buf, &u32_to_be_bytes(x));
}

/// The value that a four-byte length field takes for a length of `n`.
pub fn length_field(n: usize) -> (x: u32)
    ensures
        x == len32(n as nat),
{
    (n as u64 % 0x1_0000_0000) as u32
}

/// Appends a text to `buf` as a byte string: the length of its UTF-8 form, then
/// that form.
pub fn push_ssh_string(buf: &mut Vec<u8>, s: &str)
    ensures
        final(buf)@ == old(buf)@ + ssh_string(s@),
{
    push_ssh_bytes(buf, s.as_bytes());
}

/// Appends `data` to `buf` as a byte string. Of a length that four bytes cannot
/// hold, the low 32 bits are written.
pub fn push_ssh_bytes(buf: &mut Vec<u8>, data: &[u8])
    ensures
        final(buf)@ == old(buf)@ + ssh_bytes(data@),
{
    push_u32(buf, length_field(data.len()));
    push_bytes(buf, data);
    assert(buf@ =~= old(buf)@ + ssh_bytes(data@));
}

/// Reads the number at `offset` and moves `offset` behind it.
pub fn read_u32(payload: &[u8], offset: &mut usize) -> (val: u32)
    requires
        u32_fits(payload@, *old(offset) as int),
    ensures
        val == u32_at(payload@, *old(offset) as int),
        *final(offset) == *old(offset) + 4,
{
    assert(payload@.len() == payload.len());
    let val: u32 = u32_from_be_bytes(slice_subrange(payload, *offset, *offset + 4));
    *offset = *offset + 4;
    val
}

/// Reads the byte string at `offset` and moves `offset` behind it.
pub fn pop_ssh_bytes<'a>(payload: &'a [u8], offset: &mut usize) -> (data: &'a [u8])
    requires
        ssh_bytes_fit(payload@, *old(offset) as int),
    ensures
        data@ == ssh_bytes_at(payload@, *old(offset) as int),
        *final(offset) == ssh_bytes_end(payload@, *old(offset) as int),
{
    let len: usize = read_u32(payload, offset) as usize;
    assert(payload@.len() == payload.len());
    let data = slice_subrange(payload, *offset, *offset + len);
    *offset = *offset + len;
    data
}

/// Like [`pop_ssh_bytes`] for a payload that may end too early: `None`, with
/// `offset` unmoved, exactly when no whole byte string stands at `offset`.
pub fn try_pop_ssh_bytes<'a>(payload: &'a [u8], offset: &mut usize) -> (data: Option<&'a [u8]>)
    ensures
        data is Some <==> ssh_bytes_fit(payload@, *old(offset) as int),
        data matches Some(d) ==> {
            &&& d@ == ssh_bytes_at(payload@, *old(offset) as int)
            &&& *final(offset) == ssh_bytes_end(payload@, *old(offset) as int)
        },
        data is None ==> *final(offset) == *old(offset),
{
    let at: usize = *offset;
    if at > payload.len() || payload.len() - at < 4 {
        return None;
    }
    let mut behind: usize = at;
    let len: u32 = read_u32(payload, &mut behind);
    if (payload.len() - behind) as u64 >= len as u64 {
        Some(pop_ssh_bytes(payload, offset))
    } else {
        None
    }
}

/// A number written in four bytes is read back from them.
pub proof fn law_be32_read_back(x: u32)
    ensures
        be32(x).len() == 4,
        from_be32(be32(x)) == x,
{
}

/// Four bytes are the encoding of the number that is read from them.
pub proof fn law_be32_write_back(s: Seq<u8>)
    requires
        s.len() == 4,
    ensures
        be32(from_be32(s)) == s,
{
    let (a, b, c, d) = (s[0] as int, s[1] as int, s[2] as int, s[3] as int);
    let x = from_be32(s);
    assert(x as int == a * 0x100_0000 + b * 0x1_0000 + c * 0x100 + d);
    assert(x / 0x100_0000 == a);
    assert(x / 0x1_0000 == a * 0x100 + b);
    assert(x / 0x100 == a * 0x1_0000 + b * 0x100 + c);
    assert(be32(x) =~= s);
}

/// A byte string is read back from where it was pushed, whatever stands before
/// and behind it, and reading stops just behind it.
pub proof fn law_pop_gives_back_push(before: Seq<u8>, data: Seq<u8>, behind: Seq<u8>)
    requires
        data.len() < 0x1_0000_0000,
    ensures
        ({
            let s = before + ssh_bytes(data) + behind;
            let offset = before.len() as int;
            &&& ssh_bytes_fit(s, offset)
            &&& ssh_bytes_at(s, offset) == data
            &&& ssh_bytes_end(s, offset) == (before + ssh_bytes(data)).len()
        }),
{
    let s = before + ssh_bytes(data) + behind;
    let offset = before.len() as int;
    law_be32_read_back(len32(data.len()));
    assert(s.subrange(offset, offset + 4) =~= be32(len32(data.len())));
    assert(ssh_bytes_at(s, offset) =~= data);
}

/// Where a byte string stands at the head of what is left of `s`, it is read from
/// there, and what stands behind it is left.
pub proof fn lemma_pop_head(s: Seq<u8>, offset: int, data: Seq<u8>, behind: Seq<u8>)
    requires
        0 <= offset <= s.len(),
        s.skip(offset) == ssh_bytes(data) + behind,
        data.len() < 0x1_0000_0000,
    ensures
        ssh_bytes_fit(s, offset),
        ssh_bytes_at(s, offset) == data,
        offset <= ssh_bytes_end(s, offset) <= s.len(),
        s.skip(ssh_bytes_end(s, offset)) == behind,
{
    let before = s.take(offset);
    law_pop_gives_back_push(before, data, behind);
    assert(s =~= before + s.skip(offset));
    assert(before + ssh_bytes(data) + behind =~= before + (ssh_bytes(data) + behind));
    assert(s.skip(ssh_bytes_end(s, offset)) =~= behind);
}

} // verus!
