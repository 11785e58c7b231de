use nzcp::barcode::QrBarcodeError;
use nzcp::cose::CoseStructure;
use nzcp::did::DecentralizedIdentifier;
use nzcp::did::DecentralizedIdentifierError;
use nzcp::did::Document;
use nzcp::did::EcParams;
use nzcp::did::JwkParams;
use nzcp::did::VerificationMethod;
use nzcp::did::VerificationMethodMap;
use nzcp::error::CoseVerificationError;
use nzcp::error::NzcpError;
use nzcp::pass::decode_pass_uri;
use nzcp::pass::default_trusted_issuers;
use nzcp::pass::verified_credential_subject_at;
use nzcp::validation::CwtValidationError;

const VALID_PASS: &str = "NZCP:/1/2KCEVIQEIVVWK6JNGEASNICZAEP2KALYDZSGSZB2O5SWEOTOPJRXALTDN53GSZBRHEXGQZLBNR2GQLTOPICRUYMBTIFAIGTUKBAAUYTWMOSGQQDDN5XHIZLYOSBHQJTIOR2HA4Z2F4XXO53XFZ3TGLTPOJTS6MRQGE4C6Y3SMVSGK3TUNFQWY4ZPOYYXQKTIOR2HA4Z2F4XW46TDOAXGG33WNFSDCOJONBSWC3DUNAXG46RPMNXW45DFPB2HGL3WGFTXMZLSONUW63TFGEXDALRQMR2HS4DFQJ2FMZLSNFTGSYLCNRSUG4TFMRSW45DJMFWG6UDVMJWGSY2DN53GSZCQMFZXG4LDOJSWIZLOORUWC3CTOVRGUZLDOSRWSZ3JOZSW4TTBNVSWISTBMNVWUZTBNVUWY6KOMFWWKZ2TOBQXE4TPO5RWI33CNIYTSNRQFUYDILJRGYDVAYFE6VGU4MCDGK7DHLLYWHVPUS2YIDJOA6Y524TD3AZRM263WTY2BE4DPKIF27WKF3UDNNVSVWRDYIYVJ65IRJJJ6Z25M2DO4YZLBHWFQGVQR5ZLIWEQJOZTS3IQ7JTNCFDX";

const EXPIRED_PASS: &str = "NZCP:/1/2KCEVIQEIVVWK6JNGEASNICZAEP2KALYDZSGSZB2O5SWEOTOPJRXALTDN53GSZBRHEXGQZLBNR2GQLTOPICRUX5AM2FQIGTBPBPYWYTWMOSGQQDDN5XHIZLYOSBHQJTIOR2HA4Z2F4XXO53XFZ3TGLTPOJTS6MRQGE4C6Y3SMVSGK3TUNFQWY4ZPOYYXQKTIOR2HA4Z2F4XW46TDOAXGG33WNFSDCOJONBSWC3DUNAXG46RPMNXW45DFPB2HGL3WGFTXMZLSONUW63TFGEXDALRQMR2HS4DFQJ2FMZLSNFTGSYLCNRSUG4TFMRSW45DJMFWG6UDVMJWGSY2DN53GSZCQMFZXG4LDOJSWIZLOORUWC3CTOVRGUZLDOSRWSZ3JOZSW4TTBNVSWISTBMNVWUZTBNVUWY6KOMFWWKZ2TOBQXE4TPO5RWI33CNIYTSNRQFUYDILJRGYDVA56TNJCCUN2NVK5NGAYOZ6VIWACYIBM3QXW7SLCMD2WTJ3GSEI5JH7RXAEURGATOHAHXC2O6BEJKBSVI25ICTBR5SFYUDSVLB2F6SJ63LWJ6Z3FWNHOXF6A2QLJNUFRQNTRU";

const MODIFIED_SIGNATURE_PASS: &str = "NZCP:/1/2KCEVIQEIVVWK6JNGEASNICZAEP2KALYDZSGSZB2O5SWEOTOPJRXALTDN53GSZBRHEXGQZLBNR2GQLTOPICRUYMBTIFAIGTUKBAAUYTWMOSGQQDDN5XHIZLYOSBHQJTIOR2HA4Z2F4XXO53XFZ3TGLTPOJTS6MRQGE4C6Y3SMVSGK3TUNFQWY4ZPOYYXQKTIOR2HA4Z2F4XW46TDOAXGG33WNFSDCOJONBSWC3DUNAXG46RPMNXW45DFPB2HGL3WGFTXMZLSONUW63TFGEXDALRQMR2HS4DFQJ2FMZLSNFTGSYLCNRSUG4TFMRSW45DJMFWG6UDVMJWGSY2DN53GSZCQMFZXG4LDOJSWIZLOORUWC3CTOVRGUZLDOSRWSZ3JOZSW4TTBNVSWISTBMNVWUZTBNVUWY6KOMFWWKZ2TOBQXE4TPO5RWI33CNIYTSNRQFUYDILJRGYDVAYFE6VGU4MCDGK7DHLLYWHVPUS2YIAAAAAAAAAAAAAAAAC63WTY2BE4DPKIF27WKF3UDNNVSVWRDYIYVJ65IRJJJ6Z25M2DO4YZLBHWFQGVQR5ZLIWEQJOZTS3IQ7JTNCFDX";

const NOT_ACTIVE_PASS: &str = "NZCP:/1/2KCEVIQEIVVWK6JNGEASNICZAEP2KALYDZSGSZB2O5SWEOTOPJRXALTDN53GSZBRHEXGQZLBNR2GQLTOPICRU2XI5UFQIGTMZIQIWYTWMOSGQQDDN5XHIZLYOSBHQJTIOR2HA4Z2F4XXO53XFZ3TGLTPOJTS6MRQGE4C6Y3SMVSGK3TUNFQWY4ZPOYYXQKTIOR2HA4Z2F4XW46TDOAXGG33WNFSDCOJONBSWC3DUNAXG46RPMNXW45DFPB2HGL3WGFTXMZLSONUW63TFGEXDALRQMR2HS4DFQJ2FMZLSNFTGSYLCNRSUG4TFMRSW45DJMFWG6UDVMJWGSY2DN53GSZCQMFZXG4LDOJSWIZLOORUWC3CTOVRGUZLDOSRWSZ3JOZSW4TTBNVSWISTBMNVWUZTBNVUWY6KOMFWWKZ2TOBQXE4TPO5RWI33CNIYTSNRQFUYDILJRGYDVA27NR3GFF4CCGWF66QGMJSJIF3KYID3KTKCBUOIKIC6VZ3SEGTGM3N2JTWKGDBAPLSG76Q3MXIDJRMNLETOKAUTSBOPVQEQAX25MF77RV6QVTTSCV2ZY2VMN7FATRGO3JATR";

const KEY_2_PASS: &str = "NZCP:/1/2KCEVIQEIVVWK6JNGIASNICZAEP2KALYDZSGSZB2O5SWEOTOPJRXALTDN53GSZBRHEXGQZLBNR2GQLTOPICRUYMBTIFAIGTUKBAAUYTWMOSGQQDDN5XHIZLYOSBHQJTIOR2HA4Z2F4XXO53XFZ3TGLTPOJTS6MRQGE4C6Y3SMVSGK3TUNFQWY4ZPOYYXQKTIOR2HA4Z2F4XW46TDOAXGG33WNFSDCOJONBSWC3DUNAXG46RPMNXW45DFPB2HGL3WGFTXMZLSONUW63TFGEXDALRQMR2HS4DFQJ2FMZLSNFTGSYLCNRSUG4TFMRSW45DJMFWG6UDVMJWGSY2DN53GSZCQMFZXG4LDOJSWIZLOORUWC3CTOVRGUZLDOSRWSZ3JOZSW4TTBNVSWISTBMNVWUZTBNVUWY6KOMFWWKZ2TOBQXE4TPO5RWI33CNIYTSNRQFUYDILJRGYDVBMP3LEDMB4CLBS2I7IOYJZW46U2YIBCSOFZMQADVQGM3JKJBLCY7ATASDTUYWIP4RX3SH3IFBJ3QWPQ7FJE6RNT5MU3JHCCGKJISOLIMY3OWH5H5JFUEZKBF27OMB37H5AHF";

const PASS_TYPE: &str = "PublicCovidPass";
const PASS_CONTEXT: &str = "https://nzcp.covid19.health.nz/contexts/v1";

/// 2023-11-14, inside the window of the example passes.
const NOW: i64 = 1700000000;

fn example_issuers() -> Vec<DecentralizedIdentifier> {
    vec![DecentralizedIdentifier::Web(String::from("nzcp.covid19.health.nz"))]
}

fn base64url(s: &str) -> Vec<u8> {
    let mut bits: u32 = 0;
    let mut count = 0;
    let mut out = Vec::new();
    for c in s.bytes() {
        let v = match c {
            b'A'..=b'Z' => c - b'A',
            b'a'..=b'z' => c - b'a' + 26,
            b'0'..=b'9' => c - b'0' + 52,
            b'-' => 62,
            b'_' => 63,
            _ => panic!("not base64url"),
        } as u32;
        bits = (bits << 6) | v;
        count += 6;
        if count >= 8 {
            count -= 8;
            out.push((bits >> count) as u8);
            bits &= (1 << count) - 1;
        }
    }
    out
}

/// The DID document that the example issuer publishes.
fn example_document() -> Document {
    let id = String::from("did:web:nzcp.covid19.health.nz#key-1");
    Document {
        assertion_method: Some(vec![VerificationMethod::DidUrl(id.clone())]),
        verification_method: Some(vec![VerificationMethod::Embedded(VerificationMethodMap {
            id,
            type_: String::from("JsonWebKey2020"),
            public_key_jwk: Some(JwkParams::EllipticCurve(EcParams {
                curve: Some(String::from("P-256")),
                x_coordinate: Some(base64url("zRR-XGsCp12Vvbgui4DD6O6cqmhfPuXMhi1OxPl8760")),
                y_coordinate: Some(base64url("Iv5SU6FuW-TRYh5_GOrJlcV_gpF_GpFQhCOD8LSk3T0")),
            })),
        })]),
    }
}

fn verify_at(barcode: &str, now: i64) -> Result<Vec<u8>, NzcpError> {
    let cose = decode_pass_uri(barcode, &example_issuers())?;
    verified_credential_subject_at(cose, None, Some(example_document()), now, PASS_TYPE, PASS_CONTEXT)
}

fn text(s: &str) -> Vec<u8> {
    let mut out = vec![0x60 + s.len() as u8];
    out.extend_from_slice(s.as_bytes());
    out
}

#[test]
fn valid_pass() {
    let mut expected = vec![0xa3];
    for part in ["givenName", "Jack", "familyName", "Sparrow", "dob", "1960-04-16"] {
        expected.extend(text(part));
    }
    assert_eq!(verify_at(VALID_PASS, NOW), Ok(expected));
}

#[test]
fn expired_pass() {
    assert_eq!(
        verify_at(EXPIRED_PASS, NOW),
        Err(NzcpError::InvalidCWT(CwtValidationError::Expired(1635278731)))
    );
}

#[test]
fn invalid_barcode() {
    let barcode = "NZCP:/1/asdfghasSDFGHFDSADFGHFDSADFGHGFSDADFGBHFSADFGHFDSFGHFDDS0123456789";
    assert_eq!(
        verify_at(barcode, NOW),
        Err(NzcpError::QrBarcode(QrBarcodeError::InvalidBase32))
    );
}

#[test]
fn modified_signature() {
    assert_eq!(
        verify_at(MODIFIED_SIGNATURE_PASS, NOW),
        Err(NzcpError::InvalidSignature(CoseVerificationError::VerificationFailed))
    );
}

#[test]
fn not_active_pass() {
    assert_eq!(
        verify_at(NOT_ACTIVE_PASS, NOW),
        Err(NzcpError::InvalidCWT(CwtValidationError::NotYetActive(1793649931)))
    );
}

#[test]
fn public_key_not_found() {
    assert_eq!(
        verify_at(KEY_2_PASS, NOW),
        Err(NzcpError::InvalidSignature(
            CoseVerificationError::DecentralizedIdentifierResolution(
                DecentralizedIdentifierError::MissingAssertionMethod(String::from(
                    "did:web:nzcp.covid19.health.nz#key-2"
                ))
            )
        ))
    );
}

#[test]
fn untrusted_issuer_is_refused_before_resolution() {
    assert_eq!(
        decode_pass_uri(VALID_PASS, &default_trusted_issuers()),
        Err(NzcpError::InvalidSignature(CoseVerificationError::UntrustedIssuer(String::from(
            "did:web:nzcp.covid19.health.nz"
        ))))
    );
}

#[test]
fn resolver_failures() {
    let cose = decode_pass_uri(VALID_PASS, &example_issuers()).unwrap();
    assert_eq!(
        verified_credential_subject_at(
            cose.clone(),
            Some(String::from("notFound")),
            None,
            NOW,
            PASS_TYPE,
            PASS_CONTEXT
        ),
        Err(NzcpError::InvalidSignature(
            CoseVerificationError::DecentralizedIdentifierResolution(
                DecentralizedIdentifierError::ResolutionError(String::from("notFound"))
            )
        ))
    );
    assert_eq!(
        verified_credential_subject_at(cose, None, None, NOW, PASS_TYPE, PASS_CONTEXT),
        Err(NzcpError::InvalidSignature(
            CoseVerificationError::DecentralizedIdentifierResolution(
                DecentralizedIdentifierError::EmptyDocument
            )
        ))
    );
}

#[test]
fn flipped_bits_fail_signature() {
    let cose = decode_pass_uri(VALID_PASS, &example_issuers()).unwrap();
    for byte in [0usize, 5, 9] {
        let mut tampered = cose.clone();
        tampered.signature.protected_headers_raw[byte] ^= 0x01;
        assert_eq!(
            verified_credential_subject_at(tampered, None, Some(example_document()), NOW, PASS_TYPE, PASS_CONTEXT),
            Err(NzcpError::InvalidSignature(CoseVerificationError::VerificationFailed))
        );
    }
    for byte in [0usize, 100, 286] {
        let mut tampered = cose.clone();
        tampered.signature.cwt_payload_raw[byte] ^= 0x80;
        assert_eq!(
            verified_credential_subject_at(tampered, None, Some(example_document()), NOW, PASS_TYPE, PASS_CONTEXT),
            Err(NzcpError::InvalidSignature(CoseVerificationError::VerificationFailed))
        );
    }
}

#[test]
fn window_boundaries() {
    // The valid pass: not before 1635883530, expires 1951416330.
    assert!(verify_at(VALID_PASS, 1635883530).is_ok());
    assert_eq!(
        verify_at(VALID_PASS, 1635883529),
        Err(NzcpError::InvalidCWT(CwtValidationError::NotYetActive(1635883530)))
    );
    assert!(verify_at(VALID_PASS, 1951416329).is_ok());
    assert_eq!(
        verify_at(VALID_PASS, 1951416330),
        Err(NzcpError::InvalidCWT(CwtValidationError::Expired(1951416330)))
    );
}

#[test]
fn indefinite_unprotected_headers_keep_signature() {
    let bytes = nzcp::barcode::QrBarcode::parse(VALID_PASS).unwrap().0;
    // The unprotected headers (an empty map, after the protected headers) become an
    // indefinite-length map holding one entry; they are not signed.
    assert_eq!(bytes[13], 0xa0);
    let mut changed = bytes[..13].to_vec();
    changed.extend_from_slice(&[0xbf, 0x01, 0x02, 0xff]);
    changed.extend_from_slice(&bytes[14..]);
    let cose = CoseStructure::decode(&changed).unwrap();
    let subject = verified_credential_subject_at(cose, None, Some(example_document()), NOW, PASS_TYPE, PASS_CONTEXT);
    assert_eq!(subject, verify_at(VALID_PASS, NOW));
    assert!(subject.is_ok());
}
