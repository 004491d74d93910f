//! Byte-level pieces of an image: text as UTF-8, little-endian integers, padding.

use vstd::prelude::*;

verus! {

/// The UTF-8 encoding of a character.
pub open spec fn utf8_char(c: char) -> Seq<u8> {
    let v = c as u32;
    if v < 0x80 {
        seq![v as u8]
    } else if v < 0x800 {
        seq![(0xC0 | (v >> 6)) as u8, (0x80 | (v & 0x3F)) as u8]
    } else if v < 0x10000 {
        seq![(0xE0 | (v >> 12)) as u8, (0x80 | ((v >> 6) & 0x3F)) as u8, (0x80 | (v & 0x3F)) as u8]
    } else {
        seq![
            (0xF0 | (v >> 18)) as u8,
            (0x80 | ((v >> 12) & 0x3F)) as u8,
            (0x80 | ((v >> 6) & 0x3F)) as u8,
            (0x80 | (v & 0x3F)) as u8,
        ]
    }
}

/// The UTF-8 encoding of a text: what `str::as_bytes` holds.
pub open spec fn utf8(s: Seq<char>) -> Seq<u8>
    decreases s.len(),
{
    if s.len() == 0 {
        Seq::empty()
    } else {
        utf8(s.drop_last()) + utf8_char(s.last())
    }
}

/// Appends the UTF-8 encoding of `s` to `out`.
pub fn push_utf8(out: &mut Vec<u8>, s: &str)
    ensures
        final(out)@ == old(out)@ + utf8(s@),
{
    let cs = crate::text::chars_of(s);
    let mut i: usize = 0;
    assert(cs@.take(0) =~= Seq::<char>::empty());
    assert(old(out)@ + utf8(Seq::<char>::empty()) =~= old(out)@);
    while i < cs.len()
        invariant
            i <= cs@.len(),
            cs@ == s@,
            out@ == old(out)@ + utf8(cs@.take(i as int)),
        decreases cs@.len() - i,
    {
        let c = cs[i];
        let v = c as u32;
        let ghost before = out@;
        if v < 0x80 {
            out.push(v as u8);
        } else if v < 0x800 {
            out.push((0xC0 | (v >> 6)) as u8);
            out.push((0x80 | (v & 0x3F)) as u8);
        } else if v < 0x10000 {
            out.push((0xE0 | (v >> 12)) as u8);
            out.push((0x80 | ((v >> 6) & 0x3F)) as u8);
            out.push((0x80 | (v & 0x3F)) as u8);
        } else {
            out.push((0xF0 | (v >> 18)) as u8);
            out.push((0x80 | ((v >> 12) & 0x3F)) as u8);
            out.push((0x80 | ((v >> 6) & 0x3F)) as u8);
            out.push((0x80 | (v & 0x3F)) as u8);
        }
        assert(out@ =~= before + utf8_char(c));
        assert(cs@.take(i + 1).drop_last() =~= cs@.take(i as int));
        assert(old(out)@ + utf8(cs@.take(i + 1)) =~= old(out)@ + utf8(cs@.take(i as int))
            + utf8_char(c));
        i += 1;
    }
    assert(cs@.take(i as int) =~= cs@);
}

/// The number of bytes of the UTF-8 encoding of a text.
pub fn utf8_len(s: &str) -> (n: u128)
    ensures
        n == utf8(s@).len(),
        n <= 4 * (usize::MAX as int),
{
    let cs = crate::text::chars_of(s);
    let mut n: u128 = 0;
    let mut i: usize = 0;
    assert(cs@.take(0) =~= Seq::<char>::empty());
    while i < cs.len()
        invariant
            i <= cs@.len(),
            cs@ == s@,
            n == utf8(cs@.take(i as int)).len(),
            n <= 4 * i,
        decreases cs@.len() - i,
    {
        let v = cs[i] as u32;
        let w: u128 = if v < 0x80 {
            1
        } else if v < 0x800 {
            2
        } else if v < 0x10000 {
            3
        } else {
            4
        };
        assert(cs@.take(i + 1).drop_last() =~= cs@.take(i as int));
        assert(utf8_char(cs@[i as int]).len() == w);
        n = n + w;
        i += 1;
    }
    assert(cs@.take(i as int) =~= cs@);
    n
}

/// The little-endian bytes of a 16-bit integer.
pub open spec fn le16(v: u16) -> Seq<u8> {
    seq![(v & 0xff) as u8, ((v >> 8) & 0xff) as u8]
}

/// The little-endian bytes of a 32-bit integer.
pub open spec fn le32(v: u32) -> Seq<u8> {
    seq![(v & 0xff) as u8, ((v >> 8) & 0xff) as u8, ((v >> 16) & 0xff) as u8, ((v >> 24) & 0xff) as u8]
}

/// The little-endian bytes of a 64-bit integer.
pub open spec fn le64(v: u64) -> Seq<u8> {
    le32((v & 0xffff_ffff) as u32) + le32(((v >> 32) & 0xffff_ffff) as u32)
}

/// Appends a 16-bit integer, little-endian.
pub fn push_u16(out: &mut Vec<u8>, v: u16)
    ensures
        final(out)@ == old(out)@ + le16(v),
{
    out.push((v & 0xff) as u8);
    out.push(((v >> 8) & 0xff) as u8);
    assert(out@ =~= old(out)@ + le16(v));
}

/// Appends a 32-bit integer, little-endian.
pub fn push_u32(out: &mut Vec<u8>, v: u32)
    ensures
        final(out)@ == old(out)@ + le32(v),
{
    out.push((v & 0xff) as u8);
    out.push(((v >> 8) & 0xff) as u8);
    out.push(((v >> 16) & 0xff) as u8);
    out.push(((v >> 24) & 0xff) as u8);
    assert(out@ =~= old(out)@ + le32(v));
}

/// Appends a 64-bit integer, little-endian.
pub fn push_u64(out: &mut Vec<u8>, v: u64)
    ensures
        final(out)@ == old(out)@ + le64(v),
{
    push_u32(out, (v & 0xffff_ffff) as u32);
    push_u32(out, ((v >> 32) & 0xffff_ffff) as u32);
    assert(out@ =~= old(out)@ + le64(v));
}

/// Appends `n` zero bytes.
pub fn push_zeros(out: &mut Vec<u8>, n: usize)
    ensures
        final(out)@ == old(out)@ + Seq::new(n as nat, |i: int| 0u8),
{
    let mut k: usize = 0;
    while k < n
        invariant
            k <= n,
            out@ == old(out)@ + Seq::new(k as nat, |i: int| 0u8),
        decreases n - k,
    {
        out.push(0);
        k += 1;
        assert(out@ =~= old(out)@ + Seq::new(k as nat, |i: int| 0u8));
    }
}

/// The number of zero bytes that bring `written` bytes up to a multiple of `alignment`.
pub open spec fn padding(written: nat, alignment: nat) -> nat {
    if written % alignment == 0 {
        0
    } else {
        (alignment - written % alignment) as nat
    }
}

/// Pads what was written to `out` since it held `start` bytes up to a multiple of
/// `alignment` bytes.
pub fn pad_to(out: &mut Vec<u8>, start: usize, alignment: usize)
    requires
        start <= old(out)@.len(),
        alignment > 0,
    ensures
        final(out)@ == old(out)@ + Seq::new(
            padding((old(out)@.len() - start) as nat, alignment as nat),
            |i: int| 0u8,
        ),
        (final(out)@.len() - start) % (alignment as int) == 0,
{
    let written = out.len() - start;
    if written % alignment != 0 {
        let pad = alignment - written % alignment;
        push_zeros(out, pad);
        assert((written + pad) % (alignment as int) == 0) by (nonlinear_arith)
            requires
                pad == alignment - written % alignment,
                alignment > 0,
        ;
    } else {
        assert(out@ =~= old(out)@ + Seq::new(0, |i: int| 0u8));
    }
}

/// The lowercase hexadecimal digit `d`.
pub open spec fn hex_digit(d: nat) -> char {
    if d < 10 {
        crate::paths::digit(d)
    } else if d == 10 {
        'a'
    } else if d == 11 {
        'b'
    } else if d == 12 {
        'c'
    } else if d == 13 {
        'd'
    } else if d == 14 {
        'e'
    } else {
        'f'
    }
}

/// The lowercase hexadecimal digits of `n`, most significant first, without leading
/// zeros.
pub open spec fn spec_hex(n: nat) -> Seq<char>
    decreases n,
{
    if n < 16 {
        seq![hex_digit(n)]
    } else {
        spec_hex(n / 16).push(hex_digit(n % 16))
    }
}

/// `format!("{n:02x}")`: the hexadecimal digits of `n`, with a leading zero when there
/// is only one.
pub open spec fn spec_hex02(n: nat) -> Seq<char> {
    if spec_hex(n).len() < 2 {
        seq!['0'] + spec_hex(n)
    } else {
        spec_hex(n)
    }
}

pub(crate) fn hex_char(d: u128) -> (c: char)
    requires
        d < 16,
    ensures
        c == hex_digit(d as nat),
{
    match d {
        0 => '0',
        1 => '1',
        2 => '2',
        3 => '3',
        4 => '4',
        5 => '5',
        6 => '6',
        7 => '7',
        8 => '8',
        9 => '9',
        10 => 'a',
        11 => 'b',
        12 => 'c',
        13 => 'd',
        14 => 'e',
        _ => 'f',
    }
}

/// The lowercase hexadecimal digits of `n`, at least two of them.
pub fn hex02(n: u128) -> (v: Vec<char>)
    ensures
        v@ == spec_hex02(n as nat),
{
    let mut rest = n;
    let mut rev: Vec<char> = Vec::new();
    let ghost mut suffix: Seq<char> = Seq::empty();
    while rest >= 16
        invariant
            spec_hex(n as nat) == spec_hex(rest as nat) + suffix,
            rev@ == suffix.reverse(),
        decreases rest,
    {
        let d = rest % 16;
        rev.push(hex_char(d));
        proof {
            assert(spec_hex(rest as nat) == spec_hex((rest / 16) as nat).push(
                hex_digit((rest % 16) as nat),
            ));
            assert(spec_hex((rest / 16) as nat).push(hex_digit((rest % 16) as nat)) + suffix
                =~= spec_hex((rest / 16) as nat) + (seq![hex_digit(d as nat)] + suffix));
            assert((seq![hex_digit(d as nat)] + suffix).reverse() =~= suffix.reverse().push(
                hex_digit(d as nat),
            ));
            suffix = seq![hex_digit(d as nat)] + suffix;
        }
        rest = rest / 16;
    }
    rev.push(hex_char(rest));
    proof {
        assert(spec_hex(n as nat) =~= seq![hex_digit(rest as nat)] + suffix);
        assert((seq![hex_digit(rest as nat)] + suffix).reverse() =~= suffix.reverse().push(
            hex_digit(rest as nat),
        ));
        suffix = seq![hex_digit(rest as nat)] + suffix;
    }
    let mut v: Vec<char> = Vec::new();
    if rev.len() < 2 {
        v.push('0');
    }
    let ghost lead = v@;
    let mut i = rev.len();
    while i > 0
        invariant
            i <= rev@.len(),
            rev@ == suffix.reverse(),
            spec_hex(n as nat) == suffix,
            v@ == lead + suffix.subrange(0, rev@.len() - i),
        decreases i,
    {
        i -= 1;
        v.push(rev[i]);
        assert(v@ =~= lead + suffix.subrange(0, rev@.len() - i));
    }
    assert(suffix.subrange(0, rev@.len() as int) =~= suffix);
    v
}

/// The path of stored content with the given hash: `/ab/cd/ef/abcdef...` for a hash
/// of at least 10 hexadecimal digits, `/abc...` for a shorter one.
pub open spec fn spec_cas_path(id: u128) -> Seq<char> {
    let h = spec_hex02(id as nat);
    if h.len() >= 10 {
        seq!['/'] + h.subrange(0, 2) + seq!['/'] + h.subrange(2, 4) + seq!['/'] + h.subrange(4, 6)
            + seq!['/'] + h
    } else {
        seq!['/'] + h
    }
}

/// The path of stored content with the given hash.
pub fn cas_path(id: u128) -> (p: String)
    ensures
        p@ == spec_cas_path(id),
{
    let h = hex02(id);
    let hs = crate::text::string_of(h.as_slice());
    let mut p = String::new();
    if h.len() >= 10 {
        p.push('/');
        p.push(h[0]);
        p.push(h[1]);
        p.push('/');
        p.push(h[2]);
        p.push(h[3]);
        p.push('/');
        p.push(h[4]);
        p.push(h[5]);
        p.push('/');
    } else {
        p.push('/');
    }
    p.push_str(hs.as_str());
    assert(p@ =~= spec_cas_path(id));
    p
}

/// The size of an extended attribute entry: its header, name suffix and value, aligned
/// to 4 bytes.
pub open spec fn spec_xattr_entry_size(suffix_len: nat, value_len: nat) -> nat {
    let size = 4 + suffix_len + value_len;
    size + padding(size, 4)
}

/// The size of an extended attribute entry.
pub fn xattr_entry_size(suffix_len: usize, value_len: usize) -> (n: usize)
    requires
        suffix_len + value_len + 8 <= usize::MAX,
    ensures
        n == spec_xattr_entry_size(suffix_len as nat, value_len as nat),
{
    let size = 4 + suffix_len + value_len;
    if size % 4 == 0 {
        size
    } else {
        size + (4 - size % 4)
    }
}

} // verus!
