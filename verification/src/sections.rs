//! Runs of fixed-size records, and counted sections made of them.

use crate::wire::{get_u16, lemma_le_codecs, WireRecord};
use vstd::bytes::*;
use vstd::prelude::*;

verus! {

/// The bytes of a run of records, one after the other.
pub open spec fn spec_records_bytes<T: WireRecord>(items: Seq<T>) -> Seq<u8>
    decreases items.len(),
{
    if items.len() == 0 {
        Seq::empty()
    } else {
        spec_records_bytes(items.drop_last()) + items.last().wire_bytes()
    }
}

/// The `k`-th chunk of `size` bytes.
pub open spec fn spec_chunk(bytes: Seq<u8>, k: int, size: int) -> Seq<u8> {
    bytes.subrange(k * size, (k + 1) * size)
}

/// The run of `count` records that `bytes` stands for: it has exactly the
/// room for them, and every chunk is a record.
pub open spec fn spec_parse_records<T: WireRecord>(bytes: Seq<u8>, count: nat) -> Option<Seq<T>> {
    let size = T::spec_len() as int;
    if bytes.len() == count * size && forall|k: int|
        0 <= k < count ==> (#[trigger] T::spec_parse(spec_chunk(bytes, k, size))) is Some {
        Some(Seq::new(count, |k: int| T::spec_parse(spec_chunk(bytes, k, size))->Some_0))
    } else {
        None
    }
}

/// A section at `offset`: a 16-bit count, then that many records. Gives the
/// records and the offset just past them.
pub open spec fn spec_section<T: WireRecord>(bytes: Seq<u8>, offset: int) -> Option<(Seq<T>, int)> {
    if offset + 2 > bytes.len() {
        None
    } else {
        let count = spec_u16_from_le_bytes(bytes.subrange(offset, offset + 2));
        let start = offset + 2;
        let end = start + count * T::spec_len();
        if end > bytes.len() {
            None
        } else {
            match spec_parse_records::<T>(bytes.subrange(start, end), count as nat) {
                Some(items) => Some((items, end)),
                None => None,
            }
        }
    }
}

/// The bytes of a section: its count, then its records.
pub open spec fn spec_section_bytes<T: WireRecord>(items: Seq<T>) -> Seq<u8> {
    spec_u16_to_le_bytes(items.len() as u16) + spec_records_bytes(items)
}

pub fn append_records<T: WireRecord>(out: &mut Vec<u8>, items: &[T])
    ensures
        final(out)@ == old(out)@ + spec_records_bytes(items@),
{
    let n = items.len();
    let mut i: usize = 0;
    while i < n
        invariant
            n == items@.len(),
            i <= n,
            out@ == old(out)@ + spec_records_bytes(items@.subrange(0, i as int)),
        decreases n - i,
    {
        let ghost before = out@;
        items[i].append_record(out);
        proof {
            let next = items@.subrange(0, i + 1);
            assert(next.drop_last() =~= items@.subrange(0, i as int));
            assert(next.last() == items@[i as int]);
            assert(out@ =~= old(out)@ + spec_records_bytes(next));
        }
        i = i + 1;
    }
    assert(items@.subrange(0, n as int) =~= items@);
}

pub fn append_section<T: WireRecord>(out: &mut Vec<u8>, items: &[T])
    requires
        items@.len() <= u16::MAX,
    ensures
        final(out)@ == old(out)@ + spec_section_bytes(items@),
{
    let count = items.len() as u16;
    let mut b = u16_to_le_bytes(count);
    out.append(&mut b);
    append_records(out, items);
    assert(final(out)@ =~= old(out)@ + spec_section_bytes(items@));
}

/// Reads `count` records that fill `bytes` exactly.
pub fn decode_records<T: WireRecord>(bytes: &[u8], count: usize) -> (r: Option<Vec<T>>)
    requires
        bytes@.len() == count * T::spec_len(),
    ensures
        match spec_parse_records::<T>(bytes@, count as nat) {
            Some(items) => r matches Some(v) && v@ == items,
            None => r is None,
        },
{
    let size = T::record_len();
    let ghost sz = size as int;
    let len = bytes.len();
    let mut items: Vec<T> = Vec::new();
    let mut k: usize = 0;
    let mut offset: usize = 0;
    while k < count
        invariant
            size == T::spec_len(),
            sz == size,
            0 < sz,
            len == bytes@.len(),
            bytes@.len() == count * sz,
            k <= count,
            offset == k * sz,
            items@.len() == k,
            forall|j: int|
                0 <= j < k ==> (#[trigger] T::spec_parse(spec_chunk(bytes@, j, sz))) is Some,
            forall|j: int|
                0 <= j < k ==> items@[j] == T::spec_parse(spec_chunk(bytes@, j, sz))->Some_0,
        decreases count - k,
    {
        proof {
            assert((k + 1) * sz == k * sz + sz) by (nonlinear_arith);
            assert((k + 1) * sz <= count * sz) by (nonlinear_arith)
                requires
                    k + 1 <= count,
                    sz > 0,
            ;
        }
        let chunk = &bytes[offset..offset + size];
        assert(chunk@ == spec_chunk(bytes@, k as int, sz));
        match T::parse_record(chunk) {
            Some(item) => {
                items.push(item);
            },
            None => {
                return None;
            },
        }
        k = k + 1;
        offset = offset + size;
    }
    proof {
        let spec_items = Seq::new(
            count as nat,
            |j: int| T::spec_parse(spec_chunk(bytes@, j, sz))->Some_0,
        );
        assert(items@ =~= spec_items);
    }
    Some(items)
}

/// Reads the section at `offset`.
pub fn decode_section<T: WireRecord>(bytes: &[u8], offset: usize) -> (r: Option<(Vec<T>, usize)>)
    requires
        offset <= bytes@.len(),
    ensures
        match spec_section::<T>(bytes@, offset as int) {
            Some((items, end)) => r matches Some((v, e)) && v@ == items && e == end,
            None => r is None,
        },
{
    let len = bytes.len();
    if len - offset < 2 {
        return None;
    }
    let count = get_u16(bytes, offset) as usize;
    let size = T::record_len();
    let start = offset + 2;
    proof {
        assert(count * size <= 65535 * 64) by (nonlinear_arith)
            requires
                count <= 65535,
                size <= 64,
        ;
    }
    let total = count * size;
    if total > len - start {
        return None;
    }
    let end = start + total;
    match decode_records::<T>(&bytes[start..end], count) {
        Some(items) => Some((items, end)),
        None => None,
    }
}

/// The bytes of a run of records are as long as the records together.
pub proof fn lemma_records_bytes_len<T: WireRecord>(items: Seq<T>)
    ensures
        spec_records_bytes(items).len() == items.len() * T::spec_len(),
    decreases items.len(),
{
    if items.len() > 0 {
        lemma_records_bytes_len(items.drop_last());
        items.last().lemma_record_round_trip();
        assert((items.len() - 1) * T::spec_len() + T::spec_len() == items.len() * T::spec_len())
            by (nonlinear_arith);
    }
}

/// The `k`-th chunk of a run of records is the `k`-th record.
pub proof fn lemma_records_bytes_chunk<T: WireRecord>(items: Seq<T>, k: int)
    requires
        0 <= k < items.len(),
    ensures
        spec_chunk(spec_records_bytes(items), k, T::spec_len() as int) == items[k].wire_bytes(),
    decreases items.len(),
{
    let size = T::spec_len() as int;
    let n = items.len() as int;
    let front = items.drop_last();
    lemma_records_bytes_len(items);
    lemma_records_bytes_len(front);
    items.last().lemma_record_round_trip();
    assert((n - 1) * size + size == n * size) by (nonlinear_arith);
    if k == n - 1 {
        assert(spec_chunk(spec_records_bytes(items), k, size) =~= items.last().wire_bytes());
    } else {
        lemma_records_bytes_chunk(front, k);
        assert((k + 1) * size <= (n - 1) * size) by (nonlinear_arith)
            requires
                k + 1 <= n - 1,
                size >= 0,
        ;
        assert(0 <= k * size) by (nonlinear_arith)
            requires
                k >= 0,
                size >= 0,
        ;
        assert((k + 1) * size == k * size + size) by (nonlinear_arith);
        let a = spec_records_bytes(front);
        let b = items.last().wire_bytes();
        assert(spec_records_bytes(items) == a + b);
        assert((a + b).subrange(k * size, (k + 1) * size) =~= a.subrange(k * size, (k + 1) * size));
        assert(items[k] == front[k]);
    }
}

/// A run of records reads back as the records.
pub proof fn lemma_records_round_trip<T: WireRecord>(items: Seq<T>)
    ensures
        spec_parse_records::<T>(spec_records_bytes(items), items.len()) == Some(items),
{
    let size = T::spec_len() as int;
    let b = spec_records_bytes(items);
    lemma_records_bytes_len(items);
    assert forall|k: int| 0 <= k < items.len() implies (#[trigger] T::spec_parse(
        spec_chunk(b, k, size),
    )) == Some(items[k]) by {
        lemma_records_bytes_chunk(items, k);
        items[k].lemma_record_round_trip();
    }
    let parsed = Seq::new(items.len(), |k: int| T::spec_parse(spec_chunk(b, k, size))->Some_0);
    assert(parsed =~= items);
}

/// A section written at `offset` reads back as its records, and ends where
/// its bytes end.
pub proof fn lemma_section_round_trip<T: WireRecord>(
    before: Seq<u8>,
    items: Seq<T>,
    after: Seq<u8>,
)
    requires
        items.len() <= u16::MAX,
    ensures
        spec_section::<T>(before + spec_section_bytes(items) + after, before.len() as int) == Some(
            (items, before.len() + spec_section_bytes(items).len() as int),
        ),
        spec_section_bytes(items).len() == 2 + items.len() * T::spec_len(),
{
    lemma_le_codecs();
    lemma_records_bytes_len(items);
    lemma_records_round_trip(items);
    let bytes = before + spec_section_bytes(items) + after;
    let offset = before.len() as int;
    assert(bytes.subrange(offset, offset + 2) =~= spec_u16_to_le_bytes(items.len() as u16));
    let end = offset + 2 + items.len() * T::spec_len();
    assert(bytes.subrange(offset + 2, end) =~= spec_records_bytes(items));
}

} // verus!
