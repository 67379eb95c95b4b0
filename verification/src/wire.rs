//! Little-endian encoding and decoding of fixed-width integers over byte buffers.

use vstd::prelude::*;

verus! {

/// The unsigned value of a little-endian byte sequence.
pub open spec fn le_value(s: Seq<u8>) -> nat
    decreases s.len(),
{
    if s.len() == 0 {
        0
    } else {
        s[0] as nat + 256 * le_value(s.drop_first())
    }
}

/// The `n` low bytes of `x`, least significant first.
pub open spec fn le_bytes(x: nat, n: nat) -> Seq<u8>
    decreases n,
{
    if n == 0 {
        Seq::empty()
    } else {
        seq![(x % 256) as u8] + le_bytes(x / 256, (n - 1) as nat)
    }
}

/// Splits a little-endian `u8` off the front of `b`.
pub open spec fn take_u8(b: Seq<u8>) -> Option<(u8, Seq<u8>)> {
    if b.len() < 1 {
        None
    } else {
        Some((b[0], b.skip(1)))
    }
}

/// Splits a little-endian `u16` off the front of `b`.
pub open spec fn take_u16(b: Seq<u8>) -> Option<(u16, Seq<u8>)> {
    if b.len() < 2 {
        None
    } else {
        Some((le_value(b.take(2)) as u16, b.skip(2)))
    }
}

/// Splits a little-endian `u32` off the front of `b`.
pub open spec fn take_u32(b: Seq<u8>) -> Option<(u32, Seq<u8>)> {
    if b.len() < 4 {
        None
    } else {
        Some((le_value(b.take(4)) as u32, b.skip(4)))
    }
}

/// Splits a little-endian `u64` off the front of `b`.
pub open spec fn take_u64(b: Seq<u8>) -> Option<(u64, Seq<u8>)> {
    if b.len() < 8 {
        None
    } else {
        Some((le_value(b.take(8)) as u64, b.skip(8)))
    }
}

/// Splits `n` bytes off the front of `b`.
pub open spec fn take_bytes(b: Seq<u8>, n: nat) -> Option<(Seq<u8>, Seq<u8>)> {
    if b.len() < n {
        None
    } else {
        Some((b.take(n as int), b.skip(n as int)))
    }
}

/// The bytes `s[p..p + n]`.
pub open spec fn field(s: Seq<u8>, p: int, n: int) -> Seq<u8> {
    s.subrange(p, p + n)
}

/// The encoding in `n` bytes has `n` bytes.
pub proof fn lemma_le_bytes_len(x: nat, n: nat)
    ensures
        le_bytes(x, n).len() == n,
    decreases n,
{
    if n > 0 {
        lemma_le_bytes_len(x / 256, (n - 1) as nat);
    }
}

/// Decoding the encoding of a value that fits gives the value back.
pub proof fn lemma_le_roundtrip(x: nat, n: nat)
    requires
        x < vstd::arithmetic::power::pow(256, n),
    ensures
        le_value(le_bytes(x, n)) == x,
    decreases n,
{
    reveal(vstd::arithmetic::power::pow);
    if n > 0 {
        let rest = le_bytes(x / 256, (n - 1) as nat);
        let s = seq![(x % 256) as u8] + rest;
        assert(s.drop_first() =~= rest);
        let p = vstd::arithmetic::power::pow(256, (n - 1) as nat);
        assert(x < 256 * p);
        assert(x / 256 < p) by (nonlinear_arith)
            requires
                x < 256 * p,
        ;
        lemma_le_roundtrip(x / 256, (n - 1) as nat);
        assert(x == (x % 256) + 256 * (x / 256)) by {
            vstd::arithmetic::div_mod::lemma_fundamental_div_mod(x as int, 256);
        }
    } else {
        assert(le_bytes(x, n) =~= Seq::<u8>::empty());
    }
}

/// Encoding the value of a byte sequence in as many bytes gives the sequence back.
pub proof fn lemma_le_bytes_of_value(s: Seq<u8>)
    ensures
        le_bytes(le_value(s), s.len()) == s,
    decreases s.len(),
{
    if s.len() > 0 {
        let x = le_value(s);
        let t = s.drop_first();
        lemma_le_bytes_of_value(t);
        assert(x % 256 == s[0] as nat && x / 256 == le_value(t)) by {
            vstd::arithmetic::div_mod::lemma_fundamental_div_mod_converse(
                x as int, 256, le_value(t) as int, s[0] as int);
        }
        assert(le_bytes(x, s.len()) =~= s);
    } else {
        assert(le_bytes(le_value(s), 0) =~= s);
    }
}

/// The value of four bytes, byte by byte.
pub proof fn lemma_le_value4(s: Seq<u8>)
    requires
        s.len() == 4,
    ensures
        le_value(s) == s[0] + 256 * s[1] + 65536 * s[2] + 16777216 * s[3],
{
    reveal_with_fuel(le_value, 5);
    assert(s.drop_first().drop_first().drop_first().drop_first().len() == 0);
}

/// The value of two bytes, byte by byte.
pub proof fn lemma_le_value2(s: Seq<u8>)
    requires
        s.len() == 2,
    ensures
        le_value(s) == s[0] + 256 * s[1],
{
    reveal_with_fuel(le_value, 3);
    assert(s.drop_first().drop_first().len() == 0);
}

/// The value of eight bytes, byte by byte.
pub proof fn lemma_le_value8(s: Seq<u8>)
    requires
        s.len() == 8,
    ensures
        le_value(s) == s[0] + 256 * s[1] + 65536 * s[2] + 16777216 * s[3]
            + 0x1_0000_0000 * s[4] + 0x100_0000_0000 * s[5] + 0x1_0000_0000_0000 * s[6]
            + 0x100_0000_0000_0000 * s[7],
{
    lemma_le_value4(s.subrange(4, 8));
    reveal_with_fuel(le_value, 5);
    let t = s.drop_first().drop_first().drop_first().drop_first();
    assert(t =~= s.subrange(4, 8));
}

/// Reads a `u8` at `pos`; `None` when the buffer ends first.
pub fn read_u8(bytes: &[u8], pos: usize) -> (r: Option<u8>)
    ensures
        r is Some <==> pos < bytes@.len(),
        r matches Some(v) ==> v == bytes@[pos as int] && v as nat == le_value(field(bytes@, pos as int, 1)),
{
    if pos < bytes.len() {
        proof {
            reveal_with_fuel(le_value, 2);
            assert(field(bytes@, pos as int, 1).drop_first().len() == 0);
        }
        Some(bytes[pos])
    } else {
        None
    }
}

/// Reads a little-endian `u32` at `pos`; `None` when fewer than 4 bytes remain.
pub fn read_u32(bytes: &[u8], pos: usize) -> (r: Option<u32>)
    ensures
        r is Some <==> pos + 4 <= bytes@.len(),
        r matches Some(v) ==> v as nat == le_value(field(bytes@, pos as int, 4)),
{
    if bytes.len() < 4 || pos > bytes.len() - 4 {
        None
    } else {
        let v = bytes[pos] as u32 + bytes[pos + 1] as u32 * 256 + bytes[pos + 2] as u32 * 65536
            + bytes[pos + 3] as u32 * 16777216;
        proof {
            lemma_le_value4(field(bytes@, pos as int, 4));
        }
        Some(v)
    }
}

/// Reads a little-endian `u16` at `pos`; `None` when fewer than 2 bytes remain.
pub fn read_u16(bytes: &[u8], pos: usize) -> (r: Option<u16>)
    ensures
        r is Some <==> pos + 2 <= bytes@.len(),
        r matches Some(v) ==> v as nat == le_value(field(bytes@, pos as int, 2)),
{
    if bytes.len() < 2 || pos > bytes.len() - 2 {
        None
    } else {
        let v = bytes[pos] as u16 + bytes[pos + 1] as u16 * 256;
        proof {
            lemma_le_value2(field(bytes@, pos as int, 2));
        }
        Some(v)
    }
}

/// Reads a little-endian `u64` at `pos`; `None` when fewer than 8 bytes remain.
pub fn read_u64(bytes: &[u8], pos: usize) -> (r: Option<u64>)
    ensures
        r is Some <==> pos + 8 <= bytes@.len(),
        r matches Some(v) ==> v as nat == le_value(field(bytes@, pos as int, 8)),
{
    if bytes.len() < 8 || pos > bytes.len() - 8 {
        None
    } else {
        let v = bytes[pos] as u64 + bytes[pos + 1] as u64 * 256 + bytes[pos + 2] as u64 * 65536
            + bytes[pos + 3] as u64 * 16777216 + bytes[pos + 4] as u64 * 0x1_0000_0000
            + bytes[pos + 5] as u64 * 0x100_0000_0000 + bytes[pos + 6] as u64 * 0x1_0000_0000_0000
            + bytes[pos + 7] as u64 * 0x100_0000_0000_0000;
        proof {
            lemma_le_value8(field(bytes@, pos as int, 8));
        }
        Some(v)
    }
}

/// Reads a little-endian `u32` at `pos`, in the shape of [`take_u32`].
pub fn next_u32(bytes: &[u8], pos: usize) -> (r: Option<(u32, usize)>)
    requires
        pos <= bytes@.len(),
    ensures
        match take_u32(bytes@.skip(pos as int)) {
            None => r is None,
            Some((v, rest)) => r matches Some((w, end)) && w == v && end <= bytes@.len()
                && rest == bytes@.skip(end as int),
        },
{
    let len = bytes.len();
    assert(len == bytes@.len());
    match read_u32(bytes, pos) {
        None => None,
        Some(v) => {
            assert(bytes@.skip(pos as int).take(4) =~= field(bytes@, pos as int, 4));
            assert(bytes@.skip(pos as int).skip(4) =~= bytes@.skip(pos + 4));
            Some((v, pos + 4))
        },
    }
}

/// Reads a little-endian `u64` at `pos`, in the shape of [`take_u64`].
pub fn next_u64(bytes: &[u8], pos: usize) -> (r: Option<(u64, usize)>)
    requires
        pos <= bytes@.len(),
    ensures
        match take_u64(bytes@.skip(pos as int)) {
            None => r is None,
            Some((v, rest)) => r matches Some((w, end)) && w == v && end <= bytes@.len()
                && rest == bytes@.skip(end as int),
        },
{
    let len = bytes.len();
    assert(len == bytes@.len());
    match read_u64(bytes, pos) {
        None => None,
        Some(v) => {
            assert(bytes@.skip(pos as int).take(8) =~= field(bytes@, pos as int, 8));
            assert(bytes@.skip(pos as int).skip(8) =~= bytes@.skip(pos + 8));
            Some((v, pos + 8))
        },
    }
}

/// Reads a `u8` at `pos`, in the shape of [`take_u8`].
pub fn next_u8(bytes: &[u8], pos: usize) -> (r: Option<(u8, usize)>)
    requires
        pos <= bytes@.len(),
    ensures
        match take_u8(bytes@.skip(pos as int)) {
            None => r is None,
            Some((v, rest)) => r matches Some((w, end)) && w == v && end <= bytes@.len()
                && rest == bytes@.skip(end as int),
        },
{
    let len = bytes.len();
    assert(len == bytes@.len());
    match read_u8(bytes, pos) {
        None => None,
        Some(v) => {
            assert(bytes@.skip(pos as int).skip(1) =~= bytes@.skip(pos + 1));
            Some((v, pos + 1))
        },
    }
}

/// Copies `n` bytes at `pos`, in the shape of [`take_bytes`].
pub fn next_bytes(bytes: &[u8], pos: usize, n: usize) -> (r: Option<(Vec<u8>, usize)>)
    requires
        pos <= bytes@.len(),
    ensures
        match take_bytes(bytes@.skip(pos as int), n as nat) {
            None => r is None,
            Some((v, rest)) => r matches Some((w, end)) && w@ == v && end <= bytes@.len()
                && rest == bytes@.skip(end as int),
        },
{
    let len = bytes.len();
    assert(len == bytes@.len());
    match read_bytes(bytes, pos, n) {
        None => None,
        Some(v) => {
            assert(bytes@.skip(pos as int).take(n as int) =~= field(bytes@, pos as int, n as int));
            assert(bytes@.skip(pos as int).skip(n as int) =~= bytes@.skip(pos + n));
            Some((v, pos + n))
        },
    }
}

/// Copies `n` bytes starting at `pos`; `None` when the buffer ends first.
pub fn read_bytes(bytes: &[u8], pos: usize, n: usize) -> (r: Option<Vec<u8>>)
    ensures
        r is Some <==> pos + n <= bytes@.len(),
        r matches Some(v) ==> v@ == field(bytes@, pos as int, n as int),
{
    if pos > bytes.len() || n > bytes.len() - pos {
        return None;
    }
    let mut out: Vec<u8> = Vec::new();
    let mut i: usize = 0;
    while i < n
        invariant
            i <= n,
            pos + n <= bytes@.len(),
            bytes@.len() <= usize::MAX,
            out@ == field(bytes@, pos as int, i as int),
        decreases n - i,
    {
        out.push(bytes[pos + i]);
        i = i + 1;
        assert(out@ =~= field(bytes@, pos as int, i as int));
    }
    Some(out)
}

/// Appends one byte.
pub fn push_u8(out: &mut Vec<u8>, x: u8)
    ensures
        final(out)@ == old(out)@ + le_bytes(x as nat, 1),
{
    proof {
        reveal_with_fuel(le_bytes, 2);
    }
    out.push(x);
    assert(out@ =~= old(out)@ + le_bytes(x as nat, 1));
}

/// Appends a little-endian `u16`.
pub fn push_u16(out: &mut Vec<u8>, x: u16)
    ensures
        final(out)@ == old(out)@ + le_bytes(x as nat, 2),
{
    proof {
        reveal_with_fuel(le_bytes, 3);
    }
    let x1 = x / 256;
    out.push((x % 256) as u8);
    out.push((x1 % 256) as u8);
    assert(out@ =~= old(out)@ + le_bytes(x as nat, 2));
}

/// Appends a little-endian `u32`.
pub fn push_u32(out: &mut Vec<u8>, x: u32)
    ensures
        final(out)@ == old(out)@ + le_bytes(x as nat, 4),
{
    proof {
        reveal_with_fuel(le_bytes, 5);
    }
    let x1 = x / 256;
    let x2 = x1 / 256;
    let x3 = x2 / 256;
    out.push((x % 256) as u8);
    out.push((x1 % 256) as u8);
    out.push((x2 % 256) as u8);
    out.push((x3 % 256) as u8);
    assert(out@ =~= old(out)@ + le_bytes(x as nat, 4));
}

/// Appends a little-endian `u64`.
pub fn push_u64(out: &mut Vec<u8>, x: u64)
    ensures
        final(out)@ == old(out)@ + le_bytes(x as nat, 8),
{
    proof {
        reveal_with_fuel(le_bytes, 9);
    }
    let x1 = x / 256;
    let x2 = x1 / 256;
    let x3 = x2 / 256;
    let x4 = x3 / 256;
    let x5 = x4 / 256;
    let x6 = x5 / 256;
    let x7 = x6 / 256;
    out.push((x % 256) as u8);
    out.push((x1 % 256) as u8);
    out.push((x2 % 256) as u8);
    out.push((x3 % 256) as u8);
    out.push((x4 % 256) as u8);
    out.push((x5 % 256) as u8);
    out.push((x6 % 256) as u8);
    out.push((x7 % 256) as u8);
    assert(out@ =~= old(out)@ + le_bytes(x as nat, 8));
}

/// Appends a byte slice.
pub fn push_bytes(out: &mut Vec<u8>, bytes: &[u8])
    ensures
        final(out)@ == old(out)@ + bytes@,
{
    let mut i: usize = 0;
    while i < bytes.len()
        invariant
            i <= bytes@.len(),
            out@ == old(out)@ + bytes@.subrange(0, i as int),
        decreases bytes@.len() - i,
    {
        out.push(bytes[i]);
        i = i + 1;
        assert(out@ =~= old(out)@ + bytes@.subrange(0, i as int));
    }
    assert(bytes@.subrange(0, bytes@.len() as int) =~= bytes@);
}

/// Reading back a written `u32` gives the value and leaves what followed.
pub proof fn lemma_take_u32_le_bytes(x: u32, rest: Seq<u8>)
    ensures
        take_u32(le_bytes(x as nat, 4) + rest) == Some((x, rest)),
{
    lemma_le_bytes_len(x as nat, 4);
    lemma_le_roundtrip_widths(x as nat);
    let b = le_bytes(x as nat, 4) + rest;
    assert(b.take(4) =~= le_bytes(x as nat, 4));
    assert(b.skip(4) =~= rest);
}

/// Reading back a written `u64` gives the value and leaves what followed.
pub proof fn lemma_take_u64_le_bytes(x: u64, rest: Seq<u8>)
    ensures
        take_u64(le_bytes(x as nat, 8) + rest) == Some((x, rest)),
{
    lemma_le_bytes_len(x as nat, 8);
    lemma_le_roundtrip_widths(x as nat);
    let b = le_bytes(x as nat, 8) + rest;
    assert(b.take(8) =~= le_bytes(x as nat, 8));
    assert(b.skip(8) =~= rest);
}

/// Reading back a written `u8` gives the value and leaves what followed.
pub proof fn lemma_take_u8_le_bytes(x: u8, rest: Seq<u8>)
    ensures
        take_u8(le_bytes(x as nat, 1) + rest) == Some((x, rest)),
{
    reveal_with_fuel(le_bytes, 2);
    let b = le_bytes(x as nat, 1) + rest;
    assert(b.skip(1) =~= rest);
}

/// A `u8`, `u16`, `u32` or `u64` written and read back is unchanged.
pub proof fn lemma_le_roundtrip_widths(x: nat)
    ensures
        x < 0x100 ==> le_value(le_bytes(x, 1)) == x,
        x < 0x1_0000 ==> le_value(le_bytes(x, 2)) == x,
        x < 0x1_0000_0000 ==> le_value(le_bytes(x, 4)) == x,
        x < 0x1_0000_0000_0000_0000 ==> le_value(le_bytes(x, 8)) == x,
{
    reveal_with_fuel(vstd::arithmetic::power::pow, 9);
    assert(vstd::arithmetic::power::pow(256, 1) == 0x100);
    assert(vstd::arithmetic::power::pow(256, 2) == 0x1_0000);
    assert(vstd::arithmetic::power::pow(256, 4) == 0x1_0000_0000);
    assert(vstd::arithmetic::power::pow(256, 8) == 0x1_0000_0000_0000_0000);
    if x < 0x100 {
        lemma_le_roundtrip(x, 1);
    }
    if x < 0x1_0000 {
        lemma_le_roundtrip(x, 2);
    }
    if x < 0x1_0000_0000 {
        lemma_le_roundtrip(x, 4);
    }
    if x < 0x1_0000_0000_0000_0000 {
        lemma_le_roundtrip(x, 8);
    }
}

} // verus!
