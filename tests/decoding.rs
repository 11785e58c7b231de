use nzcp::barcode::QrBarcode;
use nzcp::barcode::QrBarcodeError;
use nzcp::barcode::decode_base32;
use nzcp::cose::CoseStructure;
use nzcp::cwt::CwtClaims;
use nzcp::cwt::VerifiableCredential;
use nzcp::did::DecentralizedIdentifier;
use nzcp::error::CoseSegment;
use nzcp::error::CoseSignStructureError;
use nzcp::error::Field;
use nzcp::error::PayloadError;
use nzcp::error::SignatureAlgorithmError;
use nzcp::protected_headers::ProtectedHeaders;
use nzcp::protected_headers::SignatureAlgorithm;
use nzcp::signature::CoseSignStructure;
use nzcp::signature::CoseSignature;

const COSE_HEX: &str = "d2844aa204456b65792d310126a059011fa501781e6469643a7765623a6e7a63702e636f76696431392e6865616c74682e6e7a051a61819a0a041a7450400a627663a46840636f6e7465787482782668747470733a2f2f7777772e77332e6f72672f323031382f63726564656e7469616c732f7631782a68747470733a2f2f6e7a63702e636f76696431392e6865616c74682e6e7a2f636f6e74657874732f76316776657273696f6e65312e302e306474797065827456657269666961626c6543726564656e7469616c6f5075626c6963436f766964506173737163726564656e7469616c5375626a656374a369676976656e4e616d65644a61636b6a66616d696c794e616d656753706172726f7763646f626a313936302d30342d3136075060a4f54d4e304332be33ad78b1eafa4b5840d2e07b1dd7263d833166bdbb4f1a093837a905d7eca2ee836b6b2ada23c23154fba88a529f675d6686ee632b09ec581ab08f72b458904bb3396d10fa66d11477";

const CWT_HEX: &str = "a501781e6469643a7765623a6e7a63702e636f76696431392e6865616c74682e6e7a051a61819a0a041a7450400a627663a46840636f6e7465787482782668747470733a2f2f7777772e77332e6f72672f323031382f63726564656e7469616c732f7631782a68747470733a2f2f6e7a63702e636f76696431392e6865616c74682e6e7a2f636f6e74657874732f76316776657273696f6e65312e302e306474797065827456657269666961626c6543726564656e7469616c6f5075626c6963436f766964506173737163726564656e7469616c5375626a6563746A68656C6C6F776F726C64075060A4F54D4E304332BE33AD78B1EAFA4B";

#[test]
fn deserialize_cose() {
    let bytes = hex::decode(COSE_HEX).unwrap();
    let structure = CoseStructure::decode(&bytes).unwrap();
    assert_eq!(
        structure.protected_headers,
        ProtectedHeaders { kid: String::from("key-1"), algorithm: SignatureAlgorithm::Es256 }
    )
}

#[test]
fn deserialize_cbor() {
    let bytes = hex::decode(CWT_HEX).unwrap();
    let payload = CwtClaims::decode(&bytes).unwrap();
    let mut subject = vec![0x6a];
    subject.extend_from_slice(b"helloworld");
    assert_eq!(
        payload,
        CwtClaims {
            cwt_token_id: hex::decode("60a4f54d4e304332be33ad78b1eafa4b").unwrap(),
            issuer: DecentralizedIdentifier::Web(String::from("nzcp.covid19.health.nz")),
            not_before: 1635883530,
            expiry: 1951416330,
            verifiable_credential: VerifiableCredential {
                context: vec![
                    String::from("https://www.w3.org/2018/credentials/v1"),
                    String::from("https://nzcp.covid19.health.nz/contexts/v1"),
                ],
                base_type: String::from("VerifiableCredential"),
                pass_type: String::from("PublicCovidPass"),
                version: String::from("1.0.0"),
                credential_subject: subject,
            },
        }
    )
}

#[test]
fn envelope_keeps_exact_segments() {
    let bytes = hex::decode(COSE_HEX).unwrap();
    let structure = CoseStructure::decode(&bytes).unwrap();
    assert_eq!(structure.signature.protected_headers_raw, hex::decode("a204456b65792d310126").unwrap());
    assert_eq!(structure.signature.cwt_payload_raw, bytes[17..17 + 287].to_vec());
    assert_eq!(structure.signature.bytes.len(), 64);
    assert_eq!(structure.signature.sign_structure, CoseSignStructure::Sign1);
    // The credential subject is the exact CBOR map of the pass's person.
    let subject = &structure.cwt_payload.verifiable_credential.credential_subject;
    assert_eq!(subject[0], 0xa3);
    assert_eq!(subject.len(), 1 + 10 + 5 + 11 + 8 + 4 + 11);
}

#[test]
fn sig_structure_bytes() {
    let sig = CoseSignature {
        bytes: vec![],
        sign_structure: CoseSignStructure::Sign1,
        protected_headers_raw: vec![0xa1, 0x01, 0x26],
        cwt_payload_raw: vec![0xa0],
    };
    let mut expected = vec![0x84, 0x6a];
    expected.extend_from_slice(b"Signature1");
    expected.extend_from_slice(&[0x43, 0xa1, 0x01, 0x26, 0x40, 0x41, 0xa0]);
    assert_eq!(sig.sig_structure(), expected);
}

#[test]
fn sig_structure_long_payload_head() {
    let sig = CoseSignature {
        bytes: vec![],
        sign_structure: CoseSignStructure::Sign1,
        protected_headers_raw: vec![7; 24],
        cwt_payload_raw: vec![9; 300],
    };
    let out = sig.sig_structure();
    assert_eq!(&out[12..14], &[0x58, 24]);
    assert_eq!(&out[14 + 24..14 + 24 + 4], &[0x40, 0x59, 0x01, 0x2c]);
    assert_eq!(out.len(), 12 + 2 + 24 + 1 + 3 + 300);
}

#[test]
fn envelope_without_tag() {
    let bytes = hex::decode(&COSE_HEX[2..]).unwrap();
    assert_eq!(
        CoseStructure::decode(&bytes),
        Err(PayloadError::SignStructure(CoseSignStructureError::MissingTag))
    );
}

#[test]
fn envelope_with_other_tag() {
    let mut bytes = hex::decode(COSE_HEX).unwrap();
    bytes[0] = 0xd1;
    assert_eq!(
        CoseStructure::decode(&bytes),
        Err(PayloadError::SignStructure(CoseSignStructureError::InvalidSignStructure))
    );
}

#[test]
fn envelope_missing_segments() {
    let bytes = vec![0xd2, 0x82, 0x43, 0xa1, 0x01, 0x26, 0xa0];
    assert_eq!(
        CoseStructure::decode(&bytes),
        Err(PayloadError::MissingSegment(CoseSegment::CwtPayload))
    );
    assert_eq!(
        CoseStructure::decode(&[0xd2, 0x80]),
        Err(PayloadError::MissingSegment(CoseSegment::ProtectedHeaders))
    );
}

#[test]
fn envelope_with_trailing_byte() {
    let mut bytes = hex::decode(COSE_HEX).unwrap();
    bytes.push(0);
    assert_eq!(CoseStructure::decode(&bytes), Err(PayloadError::Malformed));
}

#[test]
fn envelope_truncated() {
    let bytes = hex::decode(COSE_HEX).unwrap();
    assert_eq!(CoseStructure::decode(&bytes[..bytes.len() - 1]), Err(PayloadError::Malformed));
}

#[test]
fn headers_unknown_label() {
    assert_eq!(
        ProtectedHeaders::decode(&[0xa2, 0x01, 0x26, 0x03, 0x00]),
        Err(PayloadError::UnknownIntegerField(3))
    );
}

#[test]
fn headers_missing_fields() {
    assert_eq!(
        ProtectedHeaders::decode(&[0xa1, 0x01, 0x26]),
        Err(PayloadError::MissingField(Field::KeyId))
    );
    assert_eq!(
        ProtectedHeaders::decode(&[0xa1, 0x04, 0x41, 0xff]),
        Err(PayloadError::Malformed)
    );
    assert_eq!(
        ProtectedHeaders::decode(&[0xa1, 0x04, 0x61, 0x61]),
        Err(PayloadError::MissingField(Field::Algorithm))
    );
}

#[test]
fn headers_other_algorithm() {
    assert_eq!(
        ProtectedHeaders::decode(&[0xa2, 0x04, 0x61, 0x61, 0x01, 0x38, 0x22]),
        Err(PayloadError::SignatureAlgorithm(SignatureAlgorithmError::SignatureAlgorithm))
    );
    assert_eq!(SignatureAlgorithm::from_cose_id(-7), Ok(SignatureAlgorithm::Es256));
    assert_eq!(
        SignatureAlgorithm::from_cose_id(-35),
        Err(SignatureAlgorithmError::SignatureAlgorithm)
    );
}

#[test]
fn sign_structure_from_tag() {
    assert_eq!(CoseSignStructure::from_tag(Some(18)), Ok(CoseSignStructure::Sign1));
    assert_eq!(
        CoseSignStructure::from_tag(Some(98)),
        Err(CoseSignStructureError::InvalidSignStructure)
    );
    assert_eq!(CoseSignStructure::from_tag(None), Err(CoseSignStructureError::MissingTag));
}

#[test]
fn claims_other_did_method() {
    let mut bytes = hex::decode(CWT_HEX).unwrap();
    // "did:web:" becomes "did:wxb:"
    bytes[9] = b'x';
    assert_eq!(CwtClaims::decode(&bytes), Err(PayloadError::UnsupportedDidMethod));
}

#[test]
fn claims_missing_and_unknown_keys() {
    let mut bytes = hex::decode(CWT_HEX).unwrap();
    // five entries announced, four given: the token id is missing.
    bytes[0] = 0xa4;
    let cut = bytes.len() - 18;
    assert_eq!(
        CwtClaims::decode(&bytes[..cut]),
        Err(PayloadError::MissingField(Field::CwtTokenId))
    );
    bytes[cut] = 0x08;
    bytes[0] = 0xa5;
    assert_eq!(CwtClaims::decode(&bytes), Err(PayloadError::UnknownIntegerField(8)));
}

#[test]
fn base32_decoding() {
    assert_eq!(decode_base32(b"MZXW6YTBOI"), Some(b"foobar".to_vec()));
    assert_eq!(decode_base32(b"MZXW6"), Some(b"foo".to_vec()));
    assert_eq!(decode_base32(b"MY"), Some(b"f".to_vec()));
    assert_eq!(decode_base32(b""), Some(vec![]));
    assert_eq!(decode_base32(b"MZX"), None);
    assert_eq!(decode_base32(b"mzxw6"), None);
    assert_eq!(decode_base32(b"MZXW6==="), None);
}

#[test]
fn barcode_errors() {
    assert_eq!(QrBarcode::parse("NZCP:/1/MZXW6"), Ok(QrBarcode(b"foo".to_vec())));
    assert_eq!(QrBarcode::parse("NZCQ:/1/MZXW6"), Err(QrBarcodeError::InvalidPrefix));
    assert_eq!(QrBarcode::parse("NZCP:"), Err(QrBarcodeError::InvalidPrefix));
    assert_eq!(QrBarcode::parse("NZCP:/2/MZXW6"), Err(QrBarcodeError::InvalidVersion));
    assert_eq!(QrBarcode::parse("NZCP:/12/MZXW6"), Err(QrBarcodeError::InvalidVersion));
    assert_eq!(QrBarcode::parse("NZCP:/1/MZ1W6"), Err(QrBarcodeError::InvalidBase32));
}

fn with_unprotected(unprotected: &[u8]) -> Vec<u8> {
    let bytes = hex::decode(COSE_HEX).unwrap();
    let mut out = bytes[..13].to_vec();
    out.extend_from_slice(unprotected);
    out.extend_from_slice(&bytes[14..]);
    out
}

#[test]
fn indefinite_unprotected_headers_are_ignored() {
    let original = CoseStructure::decode(&hex::decode(COSE_HEX).unwrap()).unwrap();
    // An empty map of indefinite length.
    assert_eq!(CoseStructure::decode(&with_unprotected(&[0xbf, 0xff])), Ok(original.clone()));
    // A map holding an indefinite text string in two chunks and an indefinite array.
    let unprotected = [0xbf, 0x01, 0x7f, 0x61, 0x61, 0x61, 0x62, 0xff, 0x02, 0x9f, 0x01, 0xff, 0xff];
    assert_eq!(CoseStructure::decode(&with_unprotected(&unprotected)), Ok(original));
    // A map that never ends.
    assert_eq!(CoseStructure::decode(&with_unprotected(&[0xbf, 0x01])), Err(PayloadError::Malformed));
}

#[test]
fn indefinite_envelope_array() {
    let bytes = hex::decode(COSE_HEX).unwrap();
    let original = CoseStructure::decode(&bytes).unwrap();
    let mut indefinite = vec![0xd2, 0x9f];
    indefinite.extend_from_slice(&bytes[2..]);
    indefinite.push(0xff);
    assert_eq!(CoseStructure::decode(&indefinite), Ok(original));
    indefinite.pop();
    assert_eq!(CoseStructure::decode(&indefinite), Err(PayloadError::Malformed));
}

#[test]
fn indefinite_header_and_claims_maps() {
    assert_eq!(
        ProtectedHeaders::decode(&[0xbf, 0x04, 0x45, b'k', b'e', b'y', b'-', b'1', 0x01, 0x26, 0xff]),
        Ok(ProtectedHeaders { kid: String::from("key-1"), algorithm: SignatureAlgorithm::Es256 })
    );
    let bytes = hex::decode(CWT_HEX).unwrap();
    let definite = CwtClaims::decode(&bytes).unwrap();
    let mut indefinite = bytes.clone();
    indefinite[0] = 0xbf;
    indefinite.push(0xff);
    assert_eq!(CwtClaims::decode(&indefinite), Ok(definite));
    // The break byte is missing.
    indefinite.pop();
    assert_eq!(CwtClaims::decode(&indefinite), Err(PayloadError::Malformed));
}
