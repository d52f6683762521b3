use vstd::prelude::*;

verus! {

/// Type Name Format: the 3-bit header field that classifies how a record's
/// type bytes are to be interpreted.
#[derive(Clone, Copy, Debug, PartialEq, Eq, Structural)]
pub enum TNF {
    Empty,
    WellKnown,
    MediaType,
    AbsoluteUri,
    External,
    Unknown,
    Unchanged,
    Reserved,
}

/// The 3-bit wire value of a type name format.
pub open spec fn spec_tnf_bits(t: TNF) -> u8 {
    match t {
        TNF::Empty => 0,
        TNF::WellKnown => 1,
        TNF::MediaType => 2,
        TNF::AbsoluteUri => 3,
        TNF::External => 4,
        TNF::Unknown => 5,
        TNF::Unchanged => 6,
        TNF::Reserved => 7,
    }
}

/// The type name format a 3-bit wire value denotes. Every 3-bit value has a
/// defined variant, so record decoding never rejects a header on its TNF.
pub open spec fn spec_tnf_from_bits(bits: u8) -> TNF {
    if bits == 0 {
        TNF::Empty
    } else if bits == 1 {
        TNF::WellKnown
    } else if bits == 2 {
        TNF::MediaType
    } else if bits == 3 {
        TNF::AbsoluteUri
    } else if bits == 4 {
        TNF::External
    } else if bits == 5 {
        TNF::Unknown
    } else if bits == 6 {
        TNF::Unchanged
    } else {
        TNF::Reserved
    }
}

pub fn tnf_bits(t: TNF) -> (bits: u8)
    ensures
        bits == spec_tnf_bits(t),
        bits < 8,
{
    match t {
        TNF::Empty => 0,
        TNF::WellKnown => 1,
        TNF::MediaType => 2,
        TNF::AbsoluteUri => 3,
        TNF::External => 4,
        TNF::Unknown => 5,
        TNF::Unchanged => 6,
        TNF::Reserved => 7,
    }
}

pub fn tnf_from_bits(bits: u8) -> (t: TNF)
    requires
        bits < 8,
    ensures
        t == spec_tnf_from_bits(bits),
{
    if bits == 0 {
        TNF::Empty
    } else if bits == 1 {
        TNF::WellKnown
    } else if bits == 2 {
        TNF::MediaType
    } else if bits == 3 {
        TNF::AbsoluteUri
    } else if bits == 4 {
        TNF::External
    } else if bits == 5 {
        TNF::Unknown
    } else if bits == 6 {
        TNF::Unchanged
    } else {
        TNF::Reserved
    }
}

/// Reading back the bits a type name format was written with returns the
/// same format.
pub proof fn lemma_tnf_bits_roundtrip(t: TNF)
    ensures
        spec_tnf_from_bits(spec_tnf_bits(t)) == t,
{
}

} // verus!
