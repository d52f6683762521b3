use vstd::prelude::*;
use vstd::slice::{slice_index_get, slice_subrange, slice_to_vec};
use crate::error::PayloadMismatchError;
use crate::record::{push_bytes, NdefRecord};
use crate::tnf::TNF;

verus! {

/// The URI record type of the well-known format.
pub const RTD_URI: &'static str = "U";

/// No abbreviation: the URI text stands whole.
pub const NONE_ABBRE: u8 = 0;

/// Abbreviation for a leading "http://www.".
pub const HTTP_WWW: u8 = 1;

/// Abbreviation for a leading "https://www.".
pub const HTTPS_WWW: u8 = 2;

/// Abbreviation for a leading "http://".
pub const HTTP: u8 = 3;

/// Abbreviation for a leading "https://".
pub const HTTPS: u8 = 4;

/// What a payload implementation must supply for a record to be built from
/// it. The record and message codecs depend on nothing else: they never look
/// inside the bytes a payload hands over.
pub trait Payload {
    /// The bytes to place in the record's type field.
    spec fn spec_record_type(&self) -> Seq<u8>;

    /// The type name format the record should carry.
    spec fn spec_type_name_format(&self) -> TNF;

    /// The raw payload bytes to embed in the record.
    spec fn spec_bytes(&self) -> Seq<u8>;

    fn record_type(&self) -> (r: Vec<u8>)
        ensures
            r@ == self.spec_record_type(),
    ;

    fn type_name_format(&self) -> (t: TNF)
        ensures
            t == self.spec_type_name_format(),
    ;

    fn to_bytes(&self) -> (r: Vec<u8>)
        ensures
            r@ == self.spec_bytes(),
    ;
}

/// The prefix an abbreviation code of the URI record type stands for; codes
/// outside the table stand for no prefix.
pub open spec fn spec_uri_prefix(code: u8) -> Seq<u8> {
    if code == HTTP_WWW {
        seq![104u8, 116u8, 116u8, 112u8, 58u8, 47u8, 47u8, 119u8, 119u8, 119u8, 46u8]
    } else if code == HTTPS_WWW {
        seq![104u8, 116u8, 116u8, 112u8, 115u8, 58u8, 47u8, 47u8, 119u8, 119u8, 119u8, 46u8]
    } else if code == HTTP {
        seq![104u8, 116u8, 116u8, 112u8, 58u8, 47u8, 47u8]
    } else if code == HTTPS {
        seq![104u8, 116u8, 116u8, 112u8, 115u8, 58u8, 47u8, 47u8]
    } else {
        Seq::empty()
    }
}

/// The prefix bytes an abbreviation code stands for.
pub fn uri_prefix_bytes(code: u8) -> (r: Vec<u8>)
    ensures
        r@ == spec_uri_prefix(code),
{
    let mut r: Vec<u8> = Vec::new();
    if code == HTTP_WWW || code == HTTPS_WWW {
        r.push(104);
        r.push(116);
        r.push(116);
        r.push(112);
        if code == HTTPS_WWW {
            r.push(115);
        }
        r.push(58);
        r.push(47);
        r.push(47);
        r.push(119);
        r.push(119);
        r.push(119);
        r.push(46);
    } else if code == HTTP || code == HTTPS {
        r.push(104);
        r.push(116);
        r.push(116);
        r.push(112);
        if code == HTTPS {
            r.push(115);
        }
        r.push(58);
        r.push(47);
        r.push(47);
    }
    proof {
        assert(r@ =~= spec_uri_prefix(code));
    }
    r
}

/// Model of a URI payload: an abbreviation code followed by the URI text.
#[verifier::ext_equal]
pub ghost struct UriPayloadV {
    pub abbreviation: u8,
    pub uri: Seq<u8>,
}

/// A well-known URI payload: one abbreviation byte, then the URI text with
/// the abbreviated prefix left out.
#[derive(Debug)]
pub struct UriPayload {
    abbreviation: u8,
    uri: Vec<u8>,
}

impl View for UriPayload {
    type V = UriPayloadV;

    closed spec fn view(&self) -> UriPayloadV {
        UriPayloadV { abbreviation: self.abbreviation, uri: self.uri@ }
    }
}

impl UriPayload {
    /// A URI payload with no abbreviation.
    pub fn from_static(uri: &[u8]) -> (p: Self)
        ensures
            p@.abbreviation == NONE_ABBRE,
            p@.uri == uri@,
    {
        UriPayload { abbreviation: NONE_ABBRE, uri: slice_to_vec(uri) }
    }

    /// A URI payload whose text follows the prefix the code stands for.
    pub fn with_abbrev(abbreviation: u8, uri: Vec<u8>) -> (p: Self)
        ensures
            p@.abbreviation == abbreviation,
            p@.uri == uri@,
    {
        UriPayload { abbreviation, uri }
    }

    /// The abbreviation code.
    pub fn abbreviation(&self) -> (a: u8)
        ensures
            a == self@.abbreviation,
    {
        self.abbreviation
    }

    /// The URI text, without the abbreviated prefix.
    pub fn uri(&self) -> (u: &Vec<u8>)
        ensures
            u@ == self@.uri,
    {
        &self.uri
    }

    /// The URI text with its abbreviated prefix expanded.
    pub fn full_uri(&self) -> (r: Vec<u8>)
        ensures
            r@ == spec_uri_prefix(self@.abbreviation) + self@.uri,
    {
        let mut r = uri_prefix_bytes(self.abbreviation);
        push_bytes(&mut r, self.uri.as_slice());
        r
    }

    /// Reinterprets a decoded generic record as a URI payload: the record
    /// must carry the well-known format, the URI record type, and at least
    /// the abbreviation byte.
    pub fn try_from(record: &NdefRecord) -> (res: Result<UriPayload, PayloadMismatchError>)
        ensures
            res is Ok <==> (record@.tnf == TNF::WellKnown && record@.record_type == seq![85u8]
                && record@.payload.len() >= 1),
            res matches Ok(p) ==> p@.abbreviation == record@.payload[0] && p@.uri
                == record@.payload.skip(1),
            res matches Err(e) ==> {
                &&& e == PayloadMismatchError::WrongTnf <==> record@.tnf != TNF::WellKnown
                &&& e == PayloadMismatchError::WrongType <==> record@.tnf == TNF::WellKnown
                    && record@.record_type != seq![85u8]
                &&& e == PayloadMismatchError::EmptyPayload <==> record@.tnf == TNF::WellKnown
                    && record@.record_type == seq![85u8] && record@.payload.len() == 0
            },
    {
        if record.tnf() != TNF::WellKnown {
            return Err(PayloadMismatchError::WrongTnf);
        }
        let rt = record.record_type();
        if rt.len() != 1 || *slice_index_get(rt, 0) != 85 {
            proof {
                assert(record@.record_type != seq![85u8]);
            }
            return Err(PayloadMismatchError::WrongType);
        }
        proof {
            assert(record@.record_type =~= seq![85u8]);
        }
        let pl = record.payload();
        if pl.len() == 0 {
            return Err(PayloadMismatchError::EmptyPayload);
        }
        let abbreviation = *slice_index_get(pl, 0);
        let uri = slice_to_vec(slice_subrange(pl, 1, pl.len()));
        proof {
            assert(record@.payload.subrange(1, record@.payload.len() as int)
                =~= record@.payload.skip(1));
        }
        Ok(UriPayload { abbreviation, uri })
    }
}

impl Payload for UriPayload {
    open spec fn spec_record_type(&self) -> Seq<u8> {
        seq![85u8]
    }

    open spec fn spec_type_name_format(&self) -> TNF {
        TNF::WellKnown
    }

    open spec fn spec_bytes(&self) -> Seq<u8> {
        seq![self@.abbreviation] + self@.uri
    }

    fn record_type(&self) -> (r: Vec<u8>) {
        let mut r: Vec<u8> = Vec::new();
        r.push(85);
        proof {
            assert(r@ =~= seq![85u8]);
        }
        r
    }

    fn type_name_format(&self) -> (t: TNF) {
        TNF::WellKnown
    }

    fn to_bytes(&self) -> (r: Vec<u8>) {
        let mut r: Vec<u8> = Vec::new();
        r.push(self.abbreviation);
        push_bytes(&mut r, self.uri.as_slice());
        proof {
            assert(r@ =~= seq![self@.abbreviation] + self@.uri);
        }
        r
    }
}

/// Model of an external payload: its type bytes and its raw payload bytes.
#[verifier::ext_equal]
pub ghost struct ExternalPayloadV {
    pub record_type: Seq<u8>,
    pub payload: Seq<u8>,
}

/// An application-defined payload carried under the external type name
/// format; both the type bytes and the payload bytes are the caller's.
pub struct ExternalPayload {
    record_type: Vec<u8>,
    payload: Vec<u8>,
}

impl View for ExternalPayload {
    type V = ExternalPayloadV;

    closed spec fn view(&self) -> ExternalPayloadV {
        ExternalPayloadV { record_type: self.record_type@, payload: self.payload@ }
    }
}

impl ExternalPayload {
    /// An external payload with the given type and payload bytes.
    pub fn from_static(record_type: &[u8], payload: &[u8]) -> (p: Self)
        ensures
            p@.record_type == record_type@,
            p@.payload == payload@,
    {
        ExternalPayload { record_type: slice_to_vec(record_type), payload: slice_to_vec(payload) }
    }
}

impl Payload for ExternalPayload {
    open spec fn spec_record_type(&self) -> Seq<u8> {
        self@.record_type
    }

    open spec fn spec_type_name_format(&self) -> TNF {
        TNF::External
    }

    open spec fn spec_bytes(&self) -> Seq<u8> {
        self@.payload
    }

    fn record_type(&self) -> (r: Vec<u8>) {
        slice_to_vec(self.record_type.as_slice())
    }

    fn type_name_format(&self) -> (t: TNF) {
        TNF::External
    }

    fn to_bytes(&self) -> (r: Vec<u8>) {
        slice_to_vec(self.payload.as_slice())
    }
}

/// A smart-poster payload: the well-known "Sp" record type around bytes that
/// this codec carries without interpreting them.
pub struct SmartPosterPayload {
    payload: Vec<u8>,
}

impl View for SmartPosterPayload {
    type V = Seq<u8>;

    closed spec fn view(&self) -> Seq<u8> {
        self.payload@
    }
}

impl SmartPosterPayload {
    /// A smart-poster payload with the given bytes.
    pub fn from_static(payload: &[u8]) -> (p: Self)
        ensures
            p@ == payload@,
    {
        SmartPosterPayload { payload: slice_to_vec(payload) }
    }
}

impl Payload for SmartPosterPayload {
    open spec fn spec_record_type(&self) -> Seq<u8> {
        seq![83u8, 112u8]
    }

    open spec fn spec_type_name_format(&self) -> TNF {
        TNF::WellKnown
    }

    open spec fn spec_bytes(&self) -> Seq<u8> {
        self@
    }

    fn record_type(&self) -> (r: Vec<u8>) {
        let mut r: Vec<u8> = Vec::new();
        r.push(83);
        r.push(112);
        proof {
            assert(r@ =~= seq![83u8, 112u8]);
        }
        r
    }

    fn type_name_format(&self) -> (t: TNF) {
        TNF::WellKnown
    }

    fn to_bytes(&self) -> (r: Vec<u8>) {
        slice_to_vec(self.payload.as_slice())
    }
}

} // verus!
