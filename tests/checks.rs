use nzcp::cwt::CwtClaims;
use nzcp::cwt::VerifiableCredential;
use nzcp::did::DecentralizedIdentifier;
use nzcp::did::DecentralizedIdentifierError;
use nzcp::did::Document;
use nzcp::did::EcParams;
use nzcp::did::JwkParams;
use nzcp::did::PublicKey;
use nzcp::did::VerificationMethod;
use nzcp::did::VerificationMethodMap;
use nzcp::did::resolved_document;
use nzcp::error::CoseVerificationError;
use nzcp::pass::default_trusted_issuers;
use nzcp::validation::CwtValidationError;

const PASS_TYPE: &str = "PublicCovidPass";
const PASS_CONTEXT: &str = "https://nzcp.covid19.health.nz/contexts/v1";

fn credential() -> VerifiableCredential {
    VerifiableCredential {
        context: vec![
            String::from("https://www.w3.org/2018/credentials/v1"),
            String::from(PASS_CONTEXT),
        ],
        base_type: String::from("VerifiableCredential"),
        pass_type: String::from(PASS_TYPE),
        version: String::from("1.0.0"),
        credential_subject: vec![0xa0],
    }
}

fn claims(not_before: i64, expiry: i64) -> CwtClaims {
    CwtClaims {
        cwt_token_id: vec![0; 16],
        issuer: DecentralizedIdentifier::Web(String::from("nzcp.identity.health.nz")),
        not_before,
        expiry,
        verifiable_credential: credential(),
    }
}

#[test]
fn credential_format_errors() {
    assert_eq!(credential().validate(PASS_TYPE, PASS_CONTEXT), Ok(()));
    let mut vc = credential();
    vc.version = String::from("1.0.1");
    assert_eq!(
        vc.validate(PASS_TYPE, PASS_CONTEXT),
        Err(CwtValidationError::UnsupportedVersion(String::from("1.0.1")))
    );
    let mut vc = credential();
    vc.context.truncate(1);
    assert_eq!(
        vc.validate(PASS_TYPE, PASS_CONTEXT),
        Err(CwtValidationError::InvalidContext(vec![String::from(
            "https://www.w3.org/2018/credentials/v1"
        )]))
    );
    let vc = credential();
    assert_eq!(
        vc.validate("OtherPass", PASS_CONTEXT),
        Err(CwtValidationError::InvalidType(
            String::from("VerifiableCredential"),
            String::from(PASS_TYPE)
        ))
    );
}

#[test]
fn expiry_boundary_is_exclusive() {
    let c = claims(100, 200);
    assert_eq!(c.validate_at(100, PASS_TYPE, PASS_CONTEXT), Ok(()));
    assert_eq!(c.validate_at(199, PASS_TYPE, PASS_CONTEXT), Ok(()));
    assert_eq!(
        c.validate_at(200, PASS_TYPE, PASS_CONTEXT),
        Err(CwtValidationError::Expired(200))
    );
    assert_eq!(
        c.validate_at(99, PASS_TYPE, PASS_CONTEXT),
        Err(CwtValidationError::NotYetActive(100))
    );
}

#[test]
fn window_is_checked_before_format() {
    let mut c = claims(100, 200);
    c.verifiable_credential.version = String::from("2.0.0");
    assert_eq!(c.validate_at(500, PASS_TYPE, PASS_CONTEXT), Err(CwtValidationError::Expired(200)));
    assert_eq!(
        c.validate_at(50, PASS_TYPE, PASS_CONTEXT),
        Err(CwtValidationError::NotYetActive(100))
    );
    assert_eq!(
        c.validate_at(150, PASS_TYPE, PASS_CONTEXT),
        Err(CwtValidationError::UnsupportedVersion(String::from("2.0.0")))
    );
}

#[test]
fn subject_of_valid_claims() {
    assert_eq!(
        claims(100, 200).validated_credential_subject_at(150, PASS_TYPE, PASS_CONTEXT),
        Ok(vec![0xa0])
    );
    assert_eq!(
        claims(100, 200).validated_credential_subject_at(250, PASS_TYPE, PASS_CONTEXT),
        Err(CwtValidationError::Expired(200))
    );
}

#[test]
fn current_time_validation() {
    // A window that includes every plausible present.
    assert_eq!(claims(0, i64::MAX).validate(PASS_TYPE, PASS_CONTEXT), Ok(()));
    assert_eq!(
        claims(0, 1).validated_credential_subject(PASS_TYPE, PASS_CONTEXT),
        Err(CwtValidationError::Expired(1))
    );
}

#[test]
fn issuer_trust() {
    let c = claims(0, 1);
    assert_eq!(
        c.verify_issuer(&default_trusted_issuers()),
        Ok(DecentralizedIdentifier::Web(String::from("nzcp.identity.health.nz")))
    );
    assert_eq!(
        c.verify_issuer(&vec![]),
        Err(CoseVerificationError::UntrustedIssuer(String::from(
            "did:web:nzcp.identity.health.nz"
        )))
    );
}

#[test]
fn did_text() {
    let did = DecentralizedIdentifier::Web(String::from("example.com"));
    assert_eq!(did.did(), "did:web:example.com");
    assert_eq!(
        DecentralizedIdentifier::from_did(&String::from("did:web:example.com")),
        Some(did)
    );
    assert_eq!(DecentralizedIdentifier::from_did(&String::from("did:key:abc")), None);
}

const KEY: &str = "did:web:example.com#key-1";

fn method(jwk: Option<JwkParams>) -> VerificationMethod {
    VerificationMethod::Embedded(VerificationMethodMap {
        id: String::from(KEY),
        type_: String::from("JsonWebKey2020"),
        public_key_jwk: jwk,
    })
}

fn ec(curve: Option<&str>, x: Option<Vec<u8>>, y: Option<Vec<u8>>) -> Option<JwkParams> {
    Some(JwkParams::EllipticCurve(EcParams { curve: curve.map(String::from), x_coordinate: x, y_coordinate: y }))
}

fn document(methods: Vec<VerificationMethod>) -> Document {
    Document {
        assertion_method: Some(vec![VerificationMethod::DidUrl(String::from(KEY))]),
        verification_method: Some(methods),
    }
}

fn lookup(doc: &Document) -> Result<PublicKey, DecentralizedIdentifierError> {
    DecentralizedIdentifier::Web(String::from("example.com"))
        .public_key_from_document(doc, &String::from("key-1"))
}

#[test]
fn key_lookup_success() {
    let doc = document(vec![
        VerificationMethod::DidUrl(String::from(KEY)),
        method(ec(Some("P-256"), Some(vec![1; 32]), Some(vec![2; 32]))),
        method(ec(Some("P-256"), Some(vec![3; 32]), Some(vec![4; 32]))),
    ]);
    assert_eq!(lookup(&doc), Ok(PublicKey { x: vec![1; 32], y: vec![2; 32] }));
}

#[test]
fn key_lookup_errors() {
    let good = method(ec(Some("P-256"), Some(vec![1; 32]), Some(vec![2; 32])));
    let mut doc = document(vec![good.clone()]);
    doc.assertion_method = None;
    assert_eq!(lookup(&doc), Err(DecentralizedIdentifierError::MissingAssertionMethods));
    doc.assertion_method = Some(vec![VerificationMethod::RelativeDidUrl(String::from("#key-1"))]);
    assert_eq!(lookup(&doc), Err(DecentralizedIdentifierError::MissingAssertionMethod(String::from(KEY))));
    let mut doc = document(vec![]);
    assert_eq!(lookup(&doc), Err(DecentralizedIdentifierError::MissingVerificationMethod(String::from(KEY))));
    doc.verification_method = None;
    assert_eq!(lookup(&doc), Err(DecentralizedIdentifierError::MissingVerificationMethods));
    let mut other = VerificationMethodMap {
        id: String::from(KEY),
        type_: String::from("Ed25519VerificationKey2018"),
        public_key_jwk: None,
    };
    assert_eq!(
        lookup(&document(vec![VerificationMethod::Embedded(other.clone())])),
        Err(DecentralizedIdentifierError::NotJsonWebKey2020)
    );
    other.type_ = String::from("JsonWebKey2020");
    assert_eq!(lookup(&document(vec![VerificationMethod::Embedded(other)])), Err(DecentralizedIdentifierError::MissingJWK));
    assert_eq!(lookup(&document(vec![method(Some(JwkParams::Other))])), Err(DecentralizedIdentifierError::JWKNotEllipticCurve));
    assert_eq!(
        lookup(&document(vec![method(ec(Some("P-384"), Some(vec![1]), Some(vec![2])))])),
        Err(DecentralizedIdentifierError::JWKWrongCurve)
    );
    assert_eq!(lookup(&document(vec![method(ec(None, Some(vec![1]), Some(vec![2])))])), Err(DecentralizedIdentifierError::JWKWrongCurve));
    assert_eq!(lookup(&document(vec![method(ec(Some("P-256"), None, Some(vec![2])))])), Err(DecentralizedIdentifierError::JWKMissingX));
    assert_eq!(lookup(&document(vec![method(ec(Some("P-256"), Some(vec![1]), None))])), Err(DecentralizedIdentifierError::JWKMissingY));
}

#[test]
fn unlisted_method_is_refused() {
    let good = method(ec(Some("P-256"), Some(vec![1; 32]), Some(vec![2; 32])));
    let mut doc = document(vec![good]);
    doc.assertion_method = Some(vec![VerificationMethod::DidUrl(String::from("did:web:example.com#key-2"))]);
    assert_eq!(
        lookup(&doc),
        Err(DecentralizedIdentifierError::MissingAssertionMethod(String::from(KEY)))
    );
}

#[test]
fn resolver_output() {
    assert_eq!(
        resolved_document(Some(String::from("boom")), None),
        Err(DecentralizedIdentifierError::ResolutionError(String::from("boom")))
    );
    assert_eq!(resolved_document(None, None), Err(DecentralizedIdentifierError::EmptyDocument));
    let doc = document(vec![]);
    assert_eq!(resolved_document(None, Some(doc.clone())), Ok(doc));
}

#[test]
fn public_covid_pass_error_message() {
    assert_eq!(
        nzcp::pass::PublicCovidPassError::InvalidDateOfBirth.message(),
        "The given date of birth was invalid."
    );
}
