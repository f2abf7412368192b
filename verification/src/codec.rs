//! The elementary encodings of the Java Edition protocol: VarInt, length-prefixed text and
//! big-endian numbers.
use vstd::prelude::*;
use vstd::string::*;
use vstd::utf8::*;

use crate::text::string_from_utf8;

verus! {

broadcast use vstd::seq::group_seq_axioms;

/// The longest text, in bytes, that a packet may hold.
pub const MAX_TEXT_BYTES: usize = 32767;

/// Why a packet body cannot be read.
#[derive(Debug, Clone, Copy, PartialEq, Eq, Structural)]
pub enum ReadError {
    /// The bytes end inside a value.
    Incomplete,
    /// A VarInt of more than five bytes, or a text longer than a packet may hold.
    TooLarge,
    /// A text that is not UTF-8.
    NotText,
}

impl ReadError {
    pub open spec fn words(self) -> Seq<char> {
        match self {
            ReadError::Incomplete => "unexpected end of packet"@,
            ReadError::TooLarge => "value too large"@,
            ReadError::NotText => "text is not valid UTF-8"@,
        }
    }

    pub fn message(&self) -> (r: String)
        ensures
            r@ == self.words(),
    {
        match self {
            ReadError::Incomplete => "unexpected end of packet".to_owned(),
            ReadError::TooLarge => "value too large".to_owned(),
            ReadError::NotText => "text is not valid UTF-8".to_owned(),
        }
    }
}

// ---------------------------------------------------------------------------
// VarInt
// ---------------------------------------------------------------------------

/// A 32-bit number as the unsigned number with the same bits.
pub open spec fn unsigned(x: i32) -> nat {
    if x < 0 {
        (x + 0x1_0000_0000) as nat
    } else {
        x as nat
    }
}

/// The 32-bit number whose bits are the low 32 bits of `v`.
pub open spec fn signed(v: nat) -> i32 {
    let low = v % 0x1_0000_0000;
    if low >= 0x8000_0000 {
        (low - 0x1_0000_0000) as i32
    } else {
        low as i32
    }
}

/// Seven bits to the byte, the lowest first; every byte but the last is marked by its top bit.
pub open spec fn groups(v: nat) -> Seq<u8>
    decreases v,
{
    if v < 128 {
        seq![v as u8]
    } else {
        seq![(v % 128 + 128) as u8] + groups(v / 128)
    }
}

pub open spec fn varint(x: i32) -> Seq<u8> {
    groups(unsigned(x))
}

/// The number in the groups at the head of `b`, of which there may be `n` at most, and what
/// follows it.
pub open spec fn ungroup(b: Seq<u8>, n: nat) -> Result<(nat, Seq<u8>), ReadError>
    decreases n,
{
    if n == 0 {
        Err(ReadError::TooLarge)
    } else if b.len() == 0 {
        Err(ReadError::Incomplete)
    } else if b[0] < 128 {
        Ok((b[0] as nat, b.skip(1)))
    } else {
        match ungroup(b.skip(1), (n - 1) as nat) {
            Ok((v, rest)) => Ok(((b[0] - 128 + 128 * v) as nat, rest)),
            Err(e) => Err(e),
        }
    }
}

/// The VarInt at the head of `b`, and what follows it.
pub open spec fn read_varint(b: Seq<u8>) -> Result<(i32, Seq<u8>), ReadError> {
    match ungroup(b, 5) {
        Ok((v, rest)) => Ok((signed(v), rest)),
        Err(e) => Err(e),
    }
}

proof fn lemma_ungroup_groups(v: nat, n: nat, rest: Seq<u8>)
    requires
        v < 128 || n >= 2,
        n >= 1,
        n == 1 ==> v < 128,
        n == 2 ==> v < 0x4000,
        n == 3 ==> v < 0x20_0000,
        n == 4 ==> v < 0x1000_0000,
        n == 5 ==> v < 0x8_0000_0000,
        n <= 5,
    ensures
        ungroup(groups(v) + rest, n) == Ok::<_, ReadError>((v, rest)),
        1 <= groups(v).len() <= n,
    decreases n,
{
    let b = groups(v) + rest;
    if v < 128 {
        assert(b.skip(1) == rest);
    } else {
        lemma_ungroup_groups(v / 128, (n - 1) as nat, rest);
        assert(b.skip(1) == groups(v / 128) + rest);
        assert(b[0] == (v % 128 + 128) as u8);
    }
}

/// A number written as a VarInt takes one to five bytes and is read back from them, whatever
/// follows.
pub proof fn law_varint_round_trip(x: i32, rest: Seq<u8>)
    ensures
        read_varint(varint(x) + rest) == Ok::<_, ReadError>((x, rest)),
        1 <= varint(x).len() <= 5,
{
    lemma_ungroup_groups(unsigned(x), 5, rest);
}

/// What is read stands at the head of the bytes: the rest is a proper suffix.
pub proof fn lemma_ungroup_suffix(b: Seq<u8>, n: nat)
    ensures
        ungroup(b, n) matches Ok((_, rest)) ==> rest.len() < b.len() && rest == b.skip(
            b.len() - rest.len(),
        ),
    decreases n,
{
    if n > 0 && b.len() > 0 && b[0] >= 128 {
        lemma_ungroup_suffix(b.skip(1), (n - 1) as nat);
        if let Ok((_, rest)) = ungroup(b.skip(1), (n - 1) as nat) {
            assert(b.skip(1).skip(b.len() - 1 - rest.len()) == b.skip(b.len() - rest.len()));
        }
    }
}

pub fn to_unsigned(x: i32) -> (r: u32)
    ensures
        r == unsigned(x),
{
    if x < 0 {
        ((x as i64) + 0x1_0000_0000i64) as u32
    } else {
        x as u32
    }
}

pub fn to_signed(v: u64) -> (r: i32)
    ensures
        r == signed(v as nat),
{
    let low: u64 = v % 0x1_0000_0000u64;
    if low >= 0x8000_0000u64 {
        ((low as i64) - 0x1_0000_0000i64) as i32
    } else {
        low as i32
    }
}

/// Appends `x` as a VarInt.
pub fn put_varint(out: &mut Vec<u8>, x: i32)
    ensures
        final(out)@ == old(out)@ + varint(x),
{
    let mut v: u32 = to_unsigned(x);
    let ghost before = out@;
    while v >= 128
        invariant
            before + varint(x) == out@ + groups(v as nat),
        decreases v,
    {
        let ghost o = out@;
        let ghost w = v;
        out.push((v % 128 + 128) as u8);
        v = v / 128;
        assert(out@ + groups(v as nat) == o + (seq![(w % 128 + 128) as u8] + groups(v as nat)));
    }
    let ghost o = out@;
    out.push(v as u8);
    assert(out@ == o + seq![v as u8]);
}

/// Reads the VarInt at `pos`; gives the number and the position behind it.
pub fn get_varint(b: &[u8], pos: usize) -> (r: Result<(i32, usize), ReadError>)
    requires
        pos <= b@.len(),
    ensures
        r matches Ok((v, p)) ==> pos < p <= b@.len() && read_varint(b@.skip(pos as int)) == Ok::<
            _,
            ReadError,
        >((v, b@.skip(p as int))),
        r matches Err(e) ==> read_varint(b@.skip(pos as int)) == Err::<(i32, Seq<u8>), _>(e),
{
    let mut value: u64 = 0;
    let mut scale: u64 = 1;
    let mut i: usize = 0;
    let ghost start = b@.skip(pos as int);
    assert(start.skip(0) == start);
    while i < 5
        invariant
            i <= 5,
            pos + i <= b@.len(),
            start == b@.skip(pos as int),
            i == 0 ==> scale == 1,
            i == 1 ==> scale == 0x80,
            i == 2 ==> scale == 0x4000,
            i == 3 ==> scale == 0x20_0000,
            i == 4 ==> scale == 0x1000_0000,
            value < scale,
            i < 5 ==> scale <= 0x1000_0000,
            i == 5 ==> scale == 0x8_0000_0000,
            match (ungroup(start, 5), ungroup(b@.skip(pos + i), (5 - i) as nat)) {
                (Ok((v, r1)), Ok((w, r2))) => r1 == r2 && v == value + scale * w,
                (Err(e1), Err(e2)) => e1 == e2,
                _ => false,
            },
        decreases 5 - i,
    {
        let ghost here = b@.skip(pos + i);
        if i == b.len() - pos {
            return Err(ReadError::Incomplete);
        }
        let byte = b[pos + i];
        assert(here[0] == byte);
        assert(here.skip(1) == b@.skip(pos + i + 1));
        if byte < 128 {
            assert(scale * byte <= scale * 127) by (nonlinear_arith)
                requires
                    byte < 128,
                    scale >= 0,
            ;
            let v: u64 = value + scale * (byte as u64);
            return Ok((to_signed(v), pos + i + 1));
        }
        assert(scale * (byte - 128) <= scale * 127) by (nonlinear_arith)
            requires
                128 <= byte <= 255,
                scale >= 0,
        ;
        assert(0 <= scale * (byte - 128)) by (nonlinear_arith)
            requires
                128 <= byte,
                scale >= 0,
        ;
        let ghost old_value = value;
        let ghost old_scale = scale;
        value = value + scale * ((byte - 128) as u64);
        scale = scale * 128;
        i = i + 1;
        proof {
            if let Ok((w, _)) = ungroup(b@.skip(pos + i), (5 - i) as nat) {
                assert(old_value + old_scale * (byte - 128 + 128 * w) == value + scale * w)
                    by (nonlinear_arith)
                    requires
                        value == old_value + old_scale * (byte - 128),
                        scale == old_scale * 128,
                ;
            }
        }
    }
    Err(ReadError::TooLarge)
}

// ---------------------------------------------------------------------------
// Text
// ---------------------------------------------------------------------------

/// Text with its length in bytes before it.
pub open spec fn text(s: Seq<char>) -> Seq<u8> {
    varint(encode_utf8(s).len() as i32) + encode_utf8(s)
}

/// A text can be written only where a VarInt can hold its length in bytes.
pub open spec fn writable(s: Seq<char>) -> bool {
    encode_utf8(s).len() <= i32::MAX
}

/// The text at the head of `b`, and what follows it.
pub open spec fn read_text(b: Seq<u8>) -> Result<(Seq<char>, Seq<u8>), ReadError> {
    match read_varint(b) {
        Err(e) => Err(e),
        Ok((n, rest)) => if n < 0 || n > MAX_TEXT_BYTES {
            Err(ReadError::TooLarge)
        } else if rest.len() < n {
            Err(ReadError::Incomplete)
        } else if !valid_utf8(rest.take(n as int)) {
            Err(ReadError::NotText)
        } else {
            Ok((decode_utf8(rest.take(n as int)), rest.skip(n as int)))
        },
    }
}

/// A text that a packet may hold is read back as it was written, whatever follows.
pub proof fn law_text_round_trip(s: Seq<char>, rest: Seq<u8>)
    requires
        encode_utf8(s).len() <= MAX_TEXT_BYTES,
    ensures
        read_text(text(s) + rest) == Ok::<_, ReadError>((s, rest)),
{
    let u = encode_utf8(s);
    law_varint_round_trip(u.len() as i32, u + rest);
    assert(text(s) + rest == varint(u.len() as i32) + (u + rest));
    assert((u + rest).take(u.len() as int) == u);
    assert((u + rest).skip(u.len() as int) == rest);
    encode_utf8_valid_utf8(s);
    encode_utf8_decode_utf8(s);
}

/// Appends a text with its length; fails, and appends nothing, where the length does not fit.
pub fn put_text(out: &mut Vec<u8>, s: &str) -> (ok: bool)
    ensures
        ok == writable(s@),
        ok ==> final(out)@ == old(out)@ + text(s@),
        !ok ==> final(out)@ == old(out)@,
{
    let bytes = s.as_bytes();
    if bytes.len() > 0x7fff_ffff {
        return false;
    }
    let ghost before = out@;
    put_varint(out, bytes.len() as i32);
    let ghost mid = out@;
    put_bytes(out, bytes);
    assert(out@ == before + text(s@));
    true
}

/// Appends bytes.
pub fn put_bytes(out: &mut Vec<u8>, b: &[u8])
    ensures
        final(out)@ == old(out)@ + b@,
{
    let ghost before = out@;
    let mut i: usize = 0;
    assert(b@.take(0) == Seq::<u8>::empty());
    assert(out@ == before + b@.take(0));
    while i < b.len()
        invariant
            i <= b@.len(),
            out@ == before + b@.take(i as int),
        decreases b.len() - i,
    {
        out.push(b[i]);
        assert(b@.take(i + 1) == b@.take(i as int).push(b@[i as int]));
        assert(out@ == before + b@.take(i + 1));
        i = i + 1;
    }
    assert(b@.take(b@.len() as int) == b@);
}

/// The bytes of `b` from `from` up to `to`.
pub fn slice_of(b: &[u8], from: usize, to: usize) -> (r: Vec<u8>)
    requires
        from <= to <= b@.len(),
    ensures
        r@ == b@.subrange(from as int, to as int),
{
    let mut r: Vec<u8> = Vec::new();
    let mut i: usize = from;
    while i < to
        invariant
            from <= i <= to,
            to <= b@.len(),
            r@ == b@.subrange(from as int, i as int),
        decreases to - i,
    {
        r.push(b[i]);
        assert(b@.subrange(from as int, i + 1) == b@.subrange(from as int, i as int).push(
            b@[i as int],
        ));
        i = i + 1;
    }
    r
}

/// Reads the text at `pos`; gives it and the position behind it.
pub fn get_text(b: &[u8], pos: usize) -> (r: Result<(String, usize), ReadError>)
    requires
        pos <= b@.len(),
    ensures
        r matches Ok((s, p)) ==> pos < p <= b@.len() && read_text(b@.skip(pos as int)) == Ok::<
            _,
            ReadError,
        >((s@, b@.skip(p as int))),
        r matches Err(e) ==> read_text(b@.skip(pos as int)) == Err::<(Seq<char>, Seq<u8>), _>(e),
{
    match get_varint(b, pos) {
        Err(e) => Err(e),
        Ok((n, p)) => {
            if n < 0 || n > 32767 {
                return Err(ReadError::TooLarge);
            }
            let n: usize = n as usize;
            if b.len() - p < n {
                return Err(ReadError::Incomplete);
            }
            let part = slice_of(b, p, p + n);
            proof {
                assert(b@.skip(p as int).take(n as int) == part@);
                assert(b@.skip(p as int).skip(n as int) == b@.skip(p + n));
            }
            match string_from_utf8(part) {
                None => Err(ReadError::NotText),
                Some(s) => {
                    proof {
                        encode_utf8_decode_utf8(s@);
                    }
                    Ok((s, p + n))
                },
            }
        },
    }
}

// ---------------------------------------------------------------------------
// Big-endian numbers
// ---------------------------------------------------------------------------

/// The low `width` bytes of `n`, the highest first.
pub open spec fn be(n: nat, width: nat) -> Seq<u8>
    decreases width,
{
    if width == 0 {
        Seq::empty()
    } else {
        be(n / 256, (width - 1) as nat).push((n % 256) as u8)
    }
}

/// The number that bytes stand for, the highest first.
pub open spec fn be_value(b: Seq<u8>) -> nat
    decreases b.len(),
{
    if b.len() == 0 {
        0
    } else {
        be_value(b.drop_last()) * 256 + b.last() as nat
    }
}

pub proof fn lemma_be_len(n: nat, width: nat)
    ensures
        be(n, width).len() == width,
    decreases width,
{
    if width > 0 {
        lemma_be_len(n / 256, (width - 1) as nat);
    }
}

/// Bytes are given back by the number that they stand for.
pub proof fn law_be_round_trip(b: Seq<u8>)
    ensures
        be(be_value(b), b.len()) == b,
    decreases b.len(),
{
    if b.len() > 0 {
        law_be_round_trip(b.drop_last());
        let n = be_value(b.drop_last()) * 256 + b.last() as nat;
        assert(n / 256 == be_value(b.drop_last()));
        assert(n % 256 == b.last() as nat);
        assert(be(be_value(b), b.len()) == b);
    }
}

/// Two numbers with the same bytes, in a width that holds both, are one number.
pub proof fn law_be_injective(n: nat, m: nat, width: nat)
    requires
        be(n, width) == be(m, width),
        be_fits(n, width),
        be_fits(m, width),
    ensures
        n == m,
    decreases width,
{
    if width > 0 {
        let a = be(n, width);
        let b = be(m, width);
        assert(a.last() == b.last());
        assert(be(n / 256, (width - 1) as nat) == a.drop_last());
        assert(be(m / 256, (width - 1) as nat) == b.drop_last());
        law_be_injective(n / 256, m / 256, (width - 1) as nat);
        assert(n % 256 == m % 256);
    }
}

/// `n` needs no more than `width` bytes.
pub open spec fn be_fits(n: nat, width: nat) -> bool
    decreases width,
{
    if width == 0 {
        n == 0
    } else {
        be_fits(n / 256, (width - 1) as nat)
    }
}

/// A number of `width` bytes, the highest first.
pub fn be_bytes(n: u128, width: usize) -> (r: Vec<u8>)
    ensures
        r@ == be(n as nat, width as nat),
    decreases width,
{
    if width == 0 {
        Vec::new()
    } else {
        let mut r = be_bytes(n / 256, width - 1);
        r.push((n % 256) as u8);
        r
    }
}

/// The number in up to eight bytes.
pub fn be_number(b: &[u8], from: usize, to: usize) -> (r: u64)
    requires
        from <= to <= b@.len(),
        to - from <= 8,
    ensures
        r == be_value(b@.subrange(from as int, to as int)),
{
    let mut i: usize = from;
    let mut r: u64 = 0;
    let ghost mut limit: int = 1;
    assert(b@.subrange(from as int, from as int) == Seq::<u8>::empty());
    proof {
        vstd::arithmetic::power::lemma_pow0(256);
    }
    while i < to
        invariant
            from <= i <= to,
            to <= b@.len(),
            to - from <= 8,
            r == be_value(b@.subrange(from as int, i as int)),
            r < limit,
            limit == vstd::arithmetic::power::pow(256, (i - from) as nat),
        decreases to - i,
    {
        proof {
            vstd::arithmetic::power::lemma_pow_increases(256, (i - from) as nat, 7);
            assert(vstd::arithmetic::power::pow(256, 7) == 0x100_0000_0000_0000) by {
                reveal_with_fuel(vstd::arithmetic::power::pow, 8);
            }
            let s = b@.subrange(from as int, i + 1);
            assert(s.drop_last() == b@.subrange(from as int, i as int));
            assert(vstd::arithmetic::power::pow(256, (i - from + 1) as nat) == 256 * limit) by {
                reveal_with_fuel(vstd::arithmetic::power::pow, 2);
            }
            limit = 256 * limit;
        }
        r = r * 256 + b[i] as u64;
        i = i + 1;
    }
    r
}

/// A packet as it goes over the wire: its number, then its body.
pub open spec fn framed(id: i32, body: Seq<u8>) -> Seq<u8> {
    varint(id) + body
}

pub fn frame(id: i32, body: &[u8]) -> (r: Vec<u8>)
    ensures
        r@ == framed(id, body@),
{
    let mut r: Vec<u8> = Vec::new();
    put_varint(&mut r, id);
    put_bytes(&mut r, body);
    r
}

/// A VarInt has seven bits of the number in each byte, the lowest first, and every byte but the
/// last is marked by its top bit. A number below zero is written by its bits.
pub proof fn law_varint_is_seven_bits_a_byte(x: i32)
    ensures
        0 <= x < 128 ==> varint(x) == seq![x as u8],
        x >= 128 ==> varint(x) == seq![(x % 128 + 128) as u8] + varint((x / 128) as i32),
        x < 0 ==> varint(x) == seq![((x + 0x1_0000_0000) % 128 + 128) as u8] + varint(
            ((x + 0x1_0000_0000) / 128) as i32,
        ),
{
}

/// A text is written as its UTF-8 bytes with their number before them.
pub proof fn law_text_is_counted_bytes(s: Seq<char>)
    ensures
        text(s).skip(varint(encode_utf8(s).len() as i32).len() as int) == encode_utf8(s),
        text(s).take(varint(encode_utf8(s).len() as i32).len() as int) == varint(
            encode_utf8(s).len() as i32,
        ),
{
    let v = varint(encode_utf8(s).len() as i32);
    assert((v + encode_utf8(s)).skip(v.len() as int) == encode_utf8(s));
    assert((v + encode_utf8(s)).take(v.len() as int) == v);
}

/// A number in bytes has its highest byte first.
pub proof fn law_highest_byte_comes_first(n: nat, width: nat)
    requires
        width > 0,
    ensures
        be(n, width).len() == width,
        be(n, width).last() == n % 256,
        be(n, width).drop_last() == be(n / 256, (width - 1) as nat),
{
    lemma_be_len(n, width);
    let front = be(n / 256, (width - 1) as nat);
    assert(front.push((n % 256) as u8).drop_last() == front);
}

/// A packet on the wire is its number and its body, and both are read back.
pub proof fn law_frame_reads_back(id: i32, body: Seq<u8>)
    ensures
        read_varint(framed(id, body)) == Ok::<_, ReadError>((id, body)),
{
    law_varint_round_trip(id, body);
}

/// A text that is too long, or whose length is below zero, is not read, and neither is one that is
/// cut short.
pub proof fn law_bad_texts_are_refused(n: i32, rest: Seq<u8>)
    ensures
        n < 0 || n > 32767 ==> read_text(varint(n) + rest) == Err::<(Seq<char>, Seq<u8>), _>(
            ReadError::TooLarge,
        ),
        0 <= n <= 32767 && rest.len() < n ==> read_text(varint(n) + rest) == Err::<
            (Seq<char>, Seq<u8>),
            _,
        >(ReadError::Incomplete),
{
    law_varint_round_trip(n, rest);
}

} // verus!
