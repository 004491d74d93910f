//! Payloads of stone archives: sequences of records.

use vstd::prelude::*;

verus! {

/// The kind of a payload.
#[derive(Debug, Clone, Copy, PartialEq, Eq, Structural)]
pub enum Kind {
    /// The metadata store
    Meta,
    /// File store, i.e. hash indexed
    Content,
    /// Map files to disk with basic UNIX permissions and types
    Layout,
    /// For indexing the deduplicated store
    Index,
    /// Attribute storage
    Attributes,
    Unknown,
}

impl Kind {
    /// The kind that the stored byte stands for.
    pub fn from_u8(b: u8) -> (k: Self)
        ensures
            k == (if b == 1 {
                Kind::Meta
            } else if b == 2 {
                Kind::Content
            } else if b == 3 {
                Kind::Layout
            } else if b == 4 {
                Kind::Index
            } else if b == 5 {
                Kind::Attributes
            } else {
                Kind::Unknown
            }),
    {
        match b {
            1 => Kind::Meta,
            2 => Kind::Content,
            3 => Kind::Layout,
            4 => Kind::Index,
            5 => Kind::Attributes,
            _ => Kind::Unknown,
        }
    }

    /// The byte that stands for this kind.
    pub fn to_u8(&self) -> (b: u8)
        ensures
            b == match self {
                Kind::Meta => 1u8,
                Kind::Content => 2u8,
                Kind::Layout => 3u8,
                Kind::Index => 4u8,
                Kind::Attributes => 5u8,
                Kind::Unknown => 255u8,
            },
    {
        match self {
            Kind::Meta => 1,
            Kind::Content => 2,
            Kind::Layout => 3,
            Kind::Index => 4,
            Kind::Attributes => 5,
            Kind::Unknown => 255,
        }
    }
}

/// The compression of a payload.
#[derive(Debug, Clone, Copy, PartialEq, Eq, Structural)]
pub enum Compression {
    /// Payload has no compression
    NoCompression,
    /// Payload uses ZSTD compression
    Zstd,
    Unknown,
}

impl Compression {
    /// The compression that the stored byte stands for.
    pub fn from_u8(b: u8) -> (c: Self)
        ensures
            c == (if b == 1 {
                Compression::NoCompression
            } else if b == 2 {
                Compression::Zstd
            } else {
                Compression::Unknown
            }),
    {
        if b == 1 {
            Compression::NoCompression
        } else if b == 2 {
            Compression::Zstd
        } else {
            Compression::Unknown
        }
    }

    /// The byte that stands for this compression.
    pub fn to_u8(&self) -> (b: u8)
        ensures
            b == match self {
                Compression::NoCompression => 1u8,
                Compression::Zstd => 2u8,
                Compression::Unknown => 255u8,
            },
    {
        match self {
            Compression::NoCompression => 1,
            Compression::Zstd => 2,
            Compression::Unknown => 255,
        }
    }
}

/// A record could not be read.
#[derive(Debug, Clone, PartialEq, Eq)]
pub enum DecodeError {
    /// The input ended before the record did.
    UnexpectedEof,
}

/// A record could not be written.
#[derive(Debug, Clone, PartialEq, Eq)]
pub enum EncodeError {
    /// The record does not fit the format.
    Overflow,
}

/// A record of a payload, read from and written to bytes.
pub trait Record: Sized {
    /// What reading a record that starts at position `pos` of `bytes` gives: the record
    /// and the position after it, or why it cannot be read.
    spec fn spec_decode(bytes: Seq<u8>, pos: int) -> Result<(Self, int), DecodeError>;

    /// The bytes that the record is written as, or why it cannot be written.
    spec fn spec_encode(&self) -> Result<Seq<u8>, EncodeError>;

    /// Reads a record that starts at position `pos` of `bytes`; on success, the record
    /// and the position after it.
    fn decode(bytes: &[u8], pos: usize) -> (r: Result<(Self, usize), DecodeError>)
        ensures
            match r {
                Ok((x, next)) => pos <= next <= bytes@.len() && Self::spec_decode(bytes@, pos as int)
                    == Ok::<(Self, int), DecodeError>((x, next as int)),
                Err(e) => Self::spec_decode(bytes@, pos as int) == Err::<(Self, int), DecodeError>(e),
            },
    ;

    /// Writes the record to the end of `out`; on failure, what it wrote before failing
    /// stays.
    fn encode(&self, out: &mut Vec<u8>) -> (r: Result<(), EncodeError>)
        ensures
            final(out)@.len() >= old(out)@.len(),
            final(out)@.subrange(0, old(out)@.len() as int) == old(out)@,
            match r {
                Ok(()) => self.spec_encode() matches Ok(b) && final(out)@ == old(out)@ + b,
                Err(e) => self.spec_encode() == Err::<Seq<u8>, EncodeError>(e),
            },
    ;

    /// The encoded size of the record, in bytes.
    spec fn spec_size(&self) -> nat;

    /// The encoded size of the record, in bytes.
    fn size(&self) -> (n: usize)
        ensures
            n == self.spec_size(),
    ;
}

/// What reading `n` records, one after the other, from position `pos` on gives: the
/// records and the position after the last, or the first error.
pub open spec fn spec_decode_records<T: Record>(bytes: Seq<u8>, pos: int, n: nat) -> Result<(Seq<T>, int), DecodeError>
    decreases n,
{
    if n == 0 {
        Ok((Seq::empty(), pos))
    } else {
        match spec_decode_records::<T>(bytes, pos, (n - 1) as nat) {
            Err(e) => Err(e),
            Ok((v, at)) => match T::spec_decode(bytes, at) {
                Ok((x, next)) => Ok((v.push(x), next)),
                Err(e) => Err(e),
            },
        }
    }
}

/// Reads `num_records` records, one after the other, from position `pos` on; the
/// records and the position after the last, or the first error.
pub fn decode_records<T: Record>(bytes: &[u8], pos: usize, num_records: usize) -> (r: Result<
    (Vec<T>, usize),
    DecodeError,
>)
    ensures
        match r {
            Ok((v, next)) => spec_decode_records::<T>(bytes@, pos as int, num_records as nat) == Ok::<
                (Seq<T>, int),
                DecodeError,
            >((v@, next as int)),
            Err(e) => spec_decode_records::<T>(bytes@, pos as int, num_records as nat) == Err::<
                (Seq<T>, int),
                DecodeError,
            >(e),
        },
        r matches Ok((v, next)) ==> v@.len() == num_records && pos <= next <= if pos
            <= bytes@.len() {
            bytes@.len() as int
        } else {
            pos as int
        },
{
    let mut records: Vec<T> = Vec::new();
    let mut at = pos;
    let mut k: usize = 0;
    while k < num_records
        invariant
            k <= num_records,
            records@.len() == k,
            pos <= at,
            k > 0 ==> at <= bytes@.len(),
            at <= (if pos <= bytes@.len() {
                bytes@.len() as int
            } else {
                pos as int
            }),
            spec_decode_records::<T>(bytes@, pos as int, k as nat) == Ok::<(Seq<T>, int), DecodeError>(
                (records@, at as int),
            ),
        decreases num_records - k,
    {
        match T::decode(bytes, at) {
            Ok((record, next)) => {
                records.push(record);
                at = next;
            },
            Err(e) => {
                proof {
                    lemma_decode_records_err::<T>(bytes@, pos as int, (k + 1) as nat, num_records as nat, e);
                }
                return Err(e);
            },
        }
        k += 1;
    }
    Ok((records, at))
}

/// Once reading fails, reading more records fails the same way.
proof fn lemma_decode_records_err<T: Record>(bytes: Seq<u8>, pos: int, k: nat, n: nat, e: DecodeError)
    requires
        k <= n,
        spec_decode_records::<T>(bytes, pos, k) == Err::<(Seq<T>, int), DecodeError>(e),
    ensures
        spec_decode_records::<T>(bytes, pos, n) == Err::<(Seq<T>, int), DecodeError>(e),
    decreases n - k,
{
    if k < n {
        lemma_decode_records_err::<T>(bytes, pos, k, (n - 1) as nat, e);
    }
}

/// What writing the records in order gives: all their bytes, or the first error.
pub open spec fn spec_encode_records<T: Record>(rs: Seq<T>) -> Result<Seq<u8>, EncodeError>
    decreases rs.len(),
{
    if rs.len() == 0 {
        Ok(Seq::empty())
    } else {
        match spec_encode_records(rs.drop_last()) {
            Err(e) => Err(e),
            Ok(b) => match rs.last().spec_encode() {
                Ok(c) => Ok(b + c),
                Err(e) => Err(e),
            },
        }
    }
}

/// Once writing fails, writing more records fails the same way.
proof fn lemma_encode_records_err<T: Record>(rs: Seq<T>, k: int, e: EncodeError)
    requires
        0 <= k <= rs.len(),
        spec_encode_records(rs.take(k)) == Err::<Seq<u8>, EncodeError>(e),
    ensures
        spec_encode_records(rs) == Err::<Seq<u8>, EncodeError>(e),
    decreases rs.len() - k,
{
    if k < rs.len() {
        assert(rs.drop_last().take(k) =~= rs.take(k));
        lemma_encode_records_err(rs.drop_last(), k, e);
    } else {
        assert(rs.take(k) =~= rs);
    }
}

/// Writes the records, in order, to the end of `out`; stops at the first error, what
/// was written before it staying.
pub fn encode_records<T: Record>(out: &mut Vec<u8>, records: &[T]) -> (r: Result<(), EncodeError>)
    ensures
        final(out)@.len() >= old(out)@.len(),
        final(out)@.subrange(0, old(out)@.len() as int) == old(out)@,
        match spec_encode_records(records@) {
            Ok(b) => r is Ok && final(out)@ == old(out)@ + b,
            Err(e) => r == Err::<(), EncodeError>(e),
        },
{
    let mut i: usize = 0;
    assert(records@.take(0) =~= Seq::<T>::empty());
    assert(old(out)@ + Seq::<u8>::empty() =~= old(out)@);
    while i < records.len()
        invariant
            i <= records@.len(),
            out@.len() >= old(out)@.len(),
            out@.subrange(0, old(out)@.len() as int) == old(out)@,
            spec_encode_records(records@.take(i as int)) matches Ok(b) && out@ == old(out)@ + b,
        decreases records@.len() - i,
    {
        let ghost before = out@;
        assert(records@.take(i + 1).drop_last() =~= records@.take(i as int));
        assert(records@.take(i + 1).last() == records@[i as int]);
        match records[i].encode(out) {
            Ok(()) => {},
            Err(e) => {
                assert(out@.subrange(0, old(out)@.len() as int) =~= before.subrange(
                    0,
                    old(out)@.len() as int,
                ));
                proof {
                    lemma_encode_records_err(records@, i + 1, e);
                }
                return Err(e);
            },
        }
        assert(out@.subrange(0, old(out)@.len() as int) =~= before.subrange(
            0,
            old(out)@.len() as int,
        ));
        proof {
            let b = spec_encode_records(records@.take(i as int))->Ok_0;
            let c = records@[i as int].spec_encode()->Ok_0;
            assert(out@ =~= old(out)@ + (b + c));
        }
        i += 1;
    }
    assert(records@.take(i as int) =~= records@);
    Ok(())
}

/// The sum of the encoded sizes of the records.
pub open spec fn sizes_sum<T: Record>(records: Seq<T>) -> nat
    decreases records.len(),
{
    if records.len() == 0 {
        0
    } else {
        sizes_sum(records.drop_last()) + records.last().spec_size()
    }
}

/// The sum of the encoded sizes of the records.
pub fn records_total_size<T: Record>(records: &[T]) -> (n: usize)
    requires
        sizes_sum(records@) <= usize::MAX,
    ensures
        n == sizes_sum(records@),
{
    let mut total: usize = 0;
    let mut i: usize = 0;
    while i < records.len()
        invariant
            i <= records@.len(),
            total == sizes_sum(records@.take(i as int)),
            sizes_sum(records@) <= usize::MAX,
        decreases records@.len() - i,
    {
        assert(records@.take(i + 1).drop_last() =~= records@.take(i as int));
        proof {
            lemma_sizes_sum_prefix(records@, i + 1);
        }
        total = total + records[i].size();
        i += 1;
    }
    assert(records@.take(i as int) =~= records@);
    total
}

/// The sizes of a prefix add up to no more than those of all the records.
proof fn lemma_sizes_sum_prefix<T: Record>(records: Seq<T>, n: int)
    requires
        0 <= n <= records.len(),
    ensures
        sizes_sum(records.take(n)) <= sizes_sum(records),
    decreases records.len() - n,
{
    if n < records.len() {
        assert(records.take(n + 1).drop_last() =~= records.take(n));
        lemma_sizes_sum_prefix(records, n + 1);
    } else {
        assert(records.take(n) =~= records);
    }
}

/// Whether each record, written as bytes and put between any others, is read back as
/// itself from where it starts, reading stopping after its last byte.
pub open spec fn reads_back<T: Record>() -> bool {
    forall|r: T, a: Seq<u8>, c: Seq<u8>|
        #![trigger T::spec_decode(a + r.spec_encode()->Ok_0 + c, a.len() as int)]
        r.spec_encode() is Ok ==> T::spec_decode(a + r.spec_encode()->Ok_0 + c, a.len() as int) == Ok::<
            (T, int),
            DecodeError,
        >((r, (a.len() + r.spec_encode()->Ok_0.len()) as int))
}

/// Records read back as they were written: where each record reads back as itself,
/// records written one after the other, between any other bytes, are read back in
/// order, reading stopping after the last byte written.
pub proof fn law_records_round_trip<T: Record>(rs: Seq<T>, pre: Seq<u8>, post: Seq<u8>)
    requires
        reads_back::<T>(),
        spec_encode_records(rs) is Ok,
    ensures
        spec_decode_records::<T>(pre + spec_encode_records(rs)->Ok_0 + post, pre.len() as int, rs.len())
            == Ok::<(Seq<T>, int), DecodeError>((rs, (pre.len() + spec_encode_records(rs)->Ok_0.len()) as int)),
    decreases rs.len(),
{
    let b = spec_encode_records(rs)->Ok_0;
    if rs.len() == 0 {
        assert(rs =~= Seq::<T>::empty());
    } else {
        let p = rs.drop_last();
        let x = rs.last();
        let bp = spec_encode_records(p)->Ok_0;
        let c = x.spec_encode()->Ok_0;
        assert(b == bp + c);
        law_records_round_trip(p, pre, c + post);
        let bytes = pre + b + post;
        assert(pre + bp + (c + post) =~= bytes);
        assert((pre + bp) + c + post =~= bytes);
        assert(T::spec_decode((pre + bp) + x.spec_encode()->Ok_0 + post, (pre + bp).len() as int) == Ok::<
            (T, int),
            DecodeError,
        >((x, ((pre + bp).len() + c.len()) as int)));
        assert(p.push(x) =~= rs);
    }
}

} // verus!
