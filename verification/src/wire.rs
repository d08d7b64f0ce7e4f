//! Little-endian reading and writing of fixed-width integers, and the
//! notion of a fixed-size record on the wire.

use vstd::bytes::*;
use vstd::prelude::*;

verus! {

/// A value that travels as a fixed number of bytes.
pub trait WireRecord: Sized {
    /// How many bytes one record takes.
    spec fn spec_len() -> nat;

    /// The record that a chunk of bytes stands for, if it stands for one.
    spec fn spec_parse(bytes: Seq<u8>) -> Option<Self>;

    /// The bytes that stand for this record.
    spec fn wire_bytes(self) -> Seq<u8>;

    fn record_len() -> (n: usize)
        ensures
            n == Self::spec_len(),
            0 < n <= 64,
    ;

    fn parse_record(bytes: &[u8]) -> (r: Option<Self>)
        ensures
            r == Self::spec_parse(bytes@),
    ;

    fn append_record(&self, out: &mut Vec<u8>)
        ensures
            final(out)@ == old(out)@ + self.wire_bytes(),
    ;

    /// Writing a record and reading it back gives the record.
    proof fn lemma_record_round_trip(self)
        ensures
            self.wire_bytes().len() == Self::spec_len(),
            Self::spec_parse(self.wire_bytes()) == Some(self),
    ;

    /// Only a chunk of the right size can stand for a record.
    proof fn lemma_parse_len(bytes: Seq<u8>)
        ensures
            Self::spec_parse(bytes) is Some ==> bytes.len() == Self::spec_len(),
    ;
}

pub fn put_u16(out: &mut Vec<u8>, v: u16)
    ensures
        final(out)@ == old(out)@ + spec_u16_to_le_bytes(v),
{
    let mut b = u16_to_le_bytes(v);
    out.append(&mut b);
}

pub fn put_u32(out: &mut Vec<u8>, v: u32)
    ensures
        final(out)@ == old(out)@ + spec_u32_to_le_bytes(v),
{
    let mut b = u32_to_le_bytes(v);
    out.append(&mut b);
}

pub fn put_u64(out: &mut Vec<u8>, v: u64)
    ensures
        final(out)@ == old(out)@ + spec_u64_to_le_bytes(v),
{
    let mut b = u64_to_le_bytes(v);
    out.append(&mut b);
}

pub fn get_u16(bytes: &[u8], at: usize) -> (r: u16)
    requires
        at + 2 <= bytes@.len(),
    ensures
        r == spec_u16_from_le_bytes(bytes@.subrange(at as int, at + 2)),
{
    let len = bytes.len();
    assert(at + 2 <= len);
    u16_from_le_bytes(&bytes[at..at + 2])
}

pub fn get_u32(bytes: &[u8], at: usize) -> (r: u32)
    requires
        at + 4 <= bytes@.len(),
    ensures
        r == spec_u32_from_le_bytes(bytes@.subrange(at as int, at + 4)),
{
    let len = bytes.len();
    assert(at + 4 <= len);
    u32_from_le_bytes(&bytes[at..at + 4])
}

pub fn get_u64(bytes: &[u8], at: usize) -> (r: u64)
    requires
        at + 8 <= bytes@.len(),
    ensures
        r == spec_u64_from_le_bytes(bytes@.subrange(at as int, at + 8)),
{
    let len = bytes.len();
    assert(at + 8 <= len);
    u64_from_le_bytes(&bytes[at..at + 8])
}

/// The little-endian codecs of vstd, brought into scope as facts.
pub proof fn lemma_le_codecs()
    ensures
        forall|x: u16|
            {
                &&& #[trigger] spec_u16_to_le_bytes(x).len() == 2
                &&& spec_u16_from_le_bytes(spec_u16_to_le_bytes(x)) == x
            },
        forall|x: u32|
            {
                &&& #[trigger] spec_u32_to_le_bytes(x).len() == 4
                &&& spec_u32_from_le_bytes(spec_u32_to_le_bytes(x)) == x
            },
        forall|x: u64|
            #![trigger spec_u64_to_le_bytes(x)]
            {
                &&& spec_u64_to_le_bytes(x).len() == 8
                &&& spec_u64_from_le_bytes(spec_u64_to_le_bytes(x)) == x
            },
{
    lemma_auto_spec_u16_to_from_le_bytes();
    lemma_auto_spec_u32_to_from_le_bytes();
    lemma_auto_spec_u64_to_from_le_bytes();
}

} // verus!
