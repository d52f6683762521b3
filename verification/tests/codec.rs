use ndef::error::{
    BuildError, DecodingError, EncodingError, FramingError, MessageDecodeError,
    PayloadMismatchError,
};
use ndef::message::NdefMessage;
use ndef::payload::{
    ExternalPayload, Payload, SmartPosterPayload, UriPayload, HTTP, HTTPS, HTTPS_WWW, HTTP_WWW,
    NONE_ABBRE, RTD_URI,
};
use ndef::record::NdefRecord;
use ndef::tnf::TNF;

#[test]
fn test_multiple_records() {
    let record1 = NdefRecord::builder()
        .tnf(TNF::WellKnown)
        .payload(&UriPayload::from_static(b"weixin://dl/business"))
        .build()
        .unwrap();

    let record2 = NdefRecord::builder()
        .tnf(TNF::External)
        .payload(&ExternalPayload::from_static(
            b"android.com:pkg",
            b"com.tencent.mm",
        ))
        .build()
        .unwrap();

    let message = NdefMessage::from_records(vec![record1, record2]);
    assert_eq!(message.records().len(), 2);
    let buffer = message.to_buffer().unwrap();
    let expect = "910115550077656978696e3a2f2f646c2f627573696e657373540f0e616e64726f69642e636f6d3a706b67636f6d2e74656e63656e742e6d6d";
    assert_eq!(expect, hex::encode(buffer));

    let message = NdefMessage::decode(&hex::decode(expect).unwrap()).unwrap();

    assert_eq!(2, message.records().len());

    let record = message.records().get(0).unwrap();
    assert_eq!(TNF::WellKnown, record.tnf());
    assert_eq!(RTD_URI.as_bytes(), record.record_type());
    let payload = UriPayload::try_from(record).unwrap();
    assert_eq!(NONE_ABBRE, payload.abbreviation());
    assert_eq!(b"weixin://dl/business".as_slice(), payload.uri().as_slice());
    assert_eq!(b"weixin://dl/business".to_vec(), payload.full_uri());

    let record = message.records().get(1).unwrap();
    assert_eq!(TNF::External, record.tnf());
    assert_eq!(b"android.com:pkg".as_slice(), record.record_type());
    assert_eq!(b"com.tencent.mm".as_slice(), record.payload());

    assert!(UriPayload::try_from(record).is_err());
}

#[test]
fn test_single_record() {
    let record = NdefRecord::builder()
        .tnf(TNF::WellKnown)
        .payload(&UriPayload::with_abbrev(HTTP_WWW, b"supwisdom.com".to_vec()))
        .build()
        .unwrap();
    let message = NdefMessage::from_records(vec![record]);
    let expect = "d1010e5501737570776973646f6d2e636f6d";
    assert_eq!(expect, hex::encode(message.to_buffer().unwrap()));

    let message = NdefMessage::decode(&hex::decode(expect).unwrap()).unwrap();
    assert_eq!(1, message.records().len());
    let record = message.records().get(0).unwrap();
    assert_eq!(TNF::WellKnown, record.tnf());
    assert_eq!(RTD_URI.as_bytes(), record.record_type());
    let payload = UriPayload::try_from(record).unwrap();
    assert_eq!(HTTP_WWW, payload.abbreviation());
    assert_eq!(b"supwisdom.com".as_slice(), payload.uri().as_slice());
    assert_eq!(b"http://www.supwisdom.com".to_vec(), payload.full_uri());
}

#[test]
fn test_not_sr() {
    let record = NdefRecord::builder()
        .tnf(TNF::External)
        .payload(&SmartPosterPayload::from_static(&[0xabu8; 300]))
        .build()
        .unwrap();
    let message = NdefMessage::from_records(vec![record]);
    let buffer = message.to_buffer().unwrap();
    let expect = format!("c4020000012c5370{}", "ab".repeat(300));
    assert_eq!(expect, hex::encode(buffer));
}

#[test]
fn test_complex_structure_decode() {
    let expect = "9c1e550469736f2e6f72673a31383031333a646576696365656e676167656d656e746d646f63d8185851a30063312e30018201d8185828a3010120042158207e5c55b2acd1cce87fe9dbcba205afe165ad7261930d5df7b1bbce7a5cd9c1430281830201a300f501f40a50fc52fb75fe8a431eaf7d34b39cbba8f8110211487315d1020b61630103424c4501046d646f635a2015036170706c69636174696f6e2f766e642e626c7565746f6f74682e6c652e6f6f62424c45021c001107f8a8bb9cb3347daf1e438afe75fb52fc";
    let message = NdefMessage::decode(&hex::decode(expect).unwrap()).unwrap();
    assert_eq!(3, message.records().len());
}

#[test]
fn sr_boundary_at_255_and_256() {
    let record = NdefRecord::builder()
        .tnf(TNF::External)
        .payload(&ExternalPayload::from_static(b"a.com:x", &[0x11u8; 255]))
        .build()
        .unwrap();
    let buffer = NdefMessage::from_records(vec![record]).to_buffer().unwrap();
    // MB, ME, SR set; External: header 0xd4; one-byte length field of 255.
    assert_eq!(0xd4, buffer[0]);
    assert_eq!(0xff, buffer[2]);
    assert_eq!(3 + 7 + 255, buffer.len());

    let record = NdefRecord::builder()
        .tnf(TNF::External)
        .payload(&ExternalPayload::from_static(b"a.com:x", &[0x11u8; 256]))
        .build()
        .unwrap();
    let buffer = NdefMessage::from_records(vec![record]).to_buffer().unwrap();
    // MB, ME set, SR clear; four-byte big-endian length field of 256.
    assert_eq!(0xc4, buffer[0]);
    assert_eq!(vec![0x00u8, 0x00, 0x01, 0x00], buffer[2..6].to_vec());
    assert_eq!(6 + 7 + 256, buffer.len());
}

#[test]
fn long_record_round_trip() {
    // A payload over 255 bytes forces the four-byte length field; decoding
    // must read it back big-endian.
    let record = NdefRecord::builder()
        .tnf(TNF::External)
        .payload(&ExternalPayload::from_static(b"a.com:x", &[0x5au8; 777]))
        .id(vec![0x01, 0x02])
        .build()
        .unwrap();
    let buffer = NdefMessage::from_records(vec![record]).to_buffer().unwrap();
    assert_eq!(vec![0x00u8, 0x00, 0x03, 0x09], buffer[2..6].to_vec());

    let message = NdefMessage::decode(&buffer).unwrap();
    assert_eq!(1, message.records().len());
    let record = message.records().get(0).unwrap();
    assert_eq!(TNF::External, record.tnf());
    assert_eq!(b"a.com:x".as_slice(), record.record_type());
    assert_eq!(&Some(vec![0x01, 0x02]), record.id());
    assert_eq!([0x5au8; 777].as_slice(), record.payload());
}

#[test]
fn decode_rejects_early_mb() {
    // Two empty short records; both carry MB, the second also carries ME.
    let buffer: Vec<u8> = vec![0x90, 0x00, 0x00, 0xd0, 0x00, 0x00];
    let err = NdefMessage::decode(&buffer).unwrap_err();
    assert_eq!(
        MessageDecodeError::Framing(FramingError::MbOnNonFirstRecord),
        err
    );
}

#[test]
fn decode_rejects_missing_me() {
    // A single record with MB but no ME that consumes the whole buffer.
    let buffer: Vec<u8> = vec![0x90, 0x00, 0x00];
    let err = NdefMessage::decode(&buffer).unwrap_err();
    assert_eq!(MessageDecodeError::Framing(FramingError::MissingMe), err);

    // Two records where only the first carries ME.
    let buffer: Vec<u8> = vec![0xd0, 0x00, 0x00, 0x10, 0x00, 0x00];
    let err = NdefMessage::decode(&buffer).unwrap_err();
    assert_eq!(MessageDecodeError::Framing(FramingError::MissingMe), err);
}

#[test]
fn decode_accepts_first_record_without_mb() {
    // Nothing requires the first record to carry MB: only ME on the last
    // record is checked.
    let buffer: Vec<u8> = vec![0x50, 0x00, 0x00];
    let message = NdefMessage::decode(&buffer).unwrap();
    assert_eq!(1, message.records().len());
    assert_eq!(TNF::Empty, message.records().get(0).unwrap().tnf());
}

#[test]
fn decode_rejects_truncated_input() {
    let err = NdefMessage::decode(&[]).unwrap_err();
    assert_eq!(MessageDecodeError::Decoding(DecodingError::Truncated), err);

    // Header promises a five-byte payload the buffer does not hold.
    let buffer: Vec<u8> = vec![0xd1, 0x01, 0x05, 0x55];
    let err = NdefMessage::decode(&buffer).unwrap_err();
    assert_eq!(MessageDecodeError::Decoding(DecodingError::Truncated), err);

    // A long record cut off inside its four-byte length field.
    let buffer: Vec<u8> = vec![0xc4, 0x02, 0x00, 0x00];
    let err = NdefMessage::decode(&buffer).unwrap_err();
    assert_eq!(MessageDecodeError::Decoding(DecodingError::Truncated), err);
}

#[test]
fn builder_requires_tnf_and_payload() {
    let err = NdefRecord::builder().build().unwrap_err();
    assert_eq!(BuildError::MissingTnf, err);

    let err = NdefRecord::builder().tnf(TNF::WellKnown).build().unwrap_err();
    assert_eq!(BuildError::MissingPayload, err);

    let err = NdefRecord::builder()
        .payload(&UriPayload::from_static(b"a"))
        .build()
        .unwrap_err();
    assert_eq!(BuildError::MissingTnf, err);
}

#[test]
fn id_survives_a_round_trip() {
    let record = NdefRecord::builder()
        .tnf(TNF::External)
        .payload(&ExternalPayload::from_static(b"a.com:x", b"data"))
        .id(vec![0x6d, 0x64, 0x6f, 0x63])
        .build()
        .unwrap();
    let buffer = NdefMessage::from_records(vec![record]).to_buffer().unwrap();
    // IL bit set in the header.
    assert_eq!(0xdc, buffer[0]);

    let message = NdefMessage::decode(&buffer).unwrap();
    assert_eq!(1, message.records().len());
    let record = message.records().get(0).unwrap();
    assert_eq!(TNF::External, record.tnf());
    assert_eq!(b"a.com:x".as_slice(), record.record_type());
    assert_eq!(&Some(vec![0x6d, 0x64, 0x6f, 0x63]), record.id());
    assert_eq!(b"data".as_slice(), record.payload());
}

#[test]
fn encode_rejects_oversized_type_and_id() {
    let record = NdefRecord::builder()
        .tnf(TNF::External)
        .payload(&ExternalPayload::from_static(&[0x61u8; 256], b"x"))
        .build()
        .unwrap();
    let err = NdefMessage::from_records(vec![record]).to_buffer().unwrap_err();
    assert_eq!(EncodingError::TypeTooLong, err);

    let record = NdefRecord::builder()
        .tnf(TNF::External)
        .payload(&ExternalPayload::from_static(b"a.com:x", b"x"))
        .id(vec![0x62u8; 256])
        .build()
        .unwrap();
    let err = NdefMessage::from_records(vec![record]).to_buffer().unwrap_err();
    assert_eq!(EncodingError::IdTooLong, err);
}

#[test]
fn empty_message_encodes_to_nothing() {
    let message = NdefMessage::new();
    assert_eq!(0, message.records().len());
    assert_eq!(Vec::<u8>::new(), message.to_buffer().unwrap());
}

#[test]
fn uri_abbreviation_table() {
    let p = UriPayload::with_abbrev(HTTPS_WWW, b"a.org".to_vec());
    assert_eq!(b"https://www.a.org".to_vec(), p.full_uri());
    let p = UriPayload::with_abbrev(HTTP, b"a.org".to_vec());
    assert_eq!(b"http://a.org".to_vec(), p.full_uri());
    let p = UriPayload::with_abbrev(HTTPS, b"a.org".to_vec());
    assert_eq!(b"https://a.org".to_vec(), p.full_uri());
    // A code outside the table stands for no prefix.
    let p = UriPayload::with_abbrev(0x27, b"a.org".to_vec());
    assert_eq!(b"a.org".to_vec(), p.full_uri());
}

#[test]
fn uri_try_from_mismatches() {
    let record = NdefRecord::builder()
        .tnf(TNF::External)
        .payload(&ExternalPayload::from_static(b"a.com:x", b"data"))
        .build()
        .unwrap();
    assert_eq!(
        PayloadMismatchError::WrongTnf,
        UriPayload::try_from(&record).unwrap_err()
    );

    let record = NdefRecord::builder()
        .tnf(TNF::WellKnown)
        .payload(&ExternalPayload::from_static(b"T", b"data"))
        .build()
        .unwrap();
    assert_eq!(
        PayloadMismatchError::WrongType,
        UriPayload::try_from(&record).unwrap_err()
    );

    let record = NdefRecord::builder()
        .tnf(TNF::WellKnown)
        .payload(&ExternalPayload::from_static(b"U", b""))
        .build()
        .unwrap();
    assert_eq!(
        PayloadMismatchError::EmptyPayload,
        UriPayload::try_from(&record).unwrap_err()
    );
}

#[test]
fn payload_capabilities() {
    let p = UriPayload::from_static(b"a.org");
    assert_eq!(TNF::WellKnown, p.type_name_format());
    assert_eq!(b"U".to_vec(), p.record_type());
    assert_eq!(b"\x00a.org".to_vec(), p.to_bytes());

    let p = ExternalPayload::from_static(b"a.com:x", b"zz");
    assert_eq!(TNF::External, p.type_name_format());
    assert_eq!(b"a.com:x".to_vec(), p.record_type());
    assert_eq!(b"zz".to_vec(), p.to_bytes());

    let p = SmartPosterPayload::from_static(b"inner");
    assert_eq!(TNF::WellKnown, p.type_name_format());
    assert_eq!(b"Sp".to_vec(), p.record_type());
    assert_eq!(b"inner".to_vec(), p.to_bytes());
}

#[test]
fn three_record_framing_flags() {
    let mut message = NdefMessage::new();
    for text in [b"one".as_slice(), b"two".as_slice(), b"ten".as_slice()] {
        let record = NdefRecord::builder()
            .tnf(TNF::WellKnown)
            .payload(&UriPayload::from_static(text))
            .build()
            .unwrap();
        message.add_record(record);
    }
    let buffer = message.to_buffer().unwrap();
    // Records are 8 bytes each: only the first has MB, only the last ME.
    assert_eq!(24, buffer.len());
    assert_eq!(0x91, buffer[0]);
    assert_eq!(0x11, buffer[8]);
    assert_eq!(0x51, buffer[16]);

    let decoded = NdefMessage::decode(&buffer).unwrap();
    assert_eq!(3, decoded.records().len());
    for (i, record) in decoded.records().iter().enumerate() {
        assert_eq!(TNF::WellKnown, record.tnf());
        let payload = UriPayload::try_from(record).unwrap();
        assert_eq!(NONE_ABBRE, payload.abbreviation());
        assert_eq!(
            [b"one".as_slice(), b"two".as_slice(), b"ten".as_slice()][i],
            payload.uri().as_slice()
        );
    }
}
