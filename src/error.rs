//! The errors that decoding and verifying a pass can end in.
use vstd::prelude::*;

use crate::barcode::QrBarcodeError;
use crate::did::DecentralizedIdentifierError;
use crate::validation::CwtValidationError;

verus! {

/// The sign structure could not be inferred from the envelope's CBOR tag.
#[derive(Debug, Clone, Copy, PartialEq, Eq, Structural)]
pub enum CoseSignStructureError {
    /// The envelope carries no CBOR tag.
    MissingTag,
    /// The tag names another structure than COSE_Sign1.
    InvalidSignStructure,
}

/// The protected headers name an algorithm other than ES256.
#[derive(Debug, Clone, Copy, PartialEq, Eq, Structural)]
pub enum SignatureAlgorithmError {
    SignatureAlgorithm,
}

/// One of the four segments of a COSE_Sign1 envelope.
#[derive(Debug, Clone, Copy, PartialEq, Eq, Structural)]
pub enum CoseSegment {
    ProtectedHeaders,
    UnprotectedHeaders,
    CwtPayload,
    Signature,
}

/// A field of the protected headers, of the CWT claims, or of the verifiable credential.
#[derive(Debug, Clone, Copy, PartialEq, Eq, Structural)]
pub enum Field {
    /// Protected header 4.
    KeyId,
    /// Protected header 1.
    Algorithm,
    /// Claim 7.
    CwtTokenId,
    /// Claim 1.
    Issuer,
    /// Claim 5.
    NotBefore,
    /// Claim 4.
    Expiry,
    /// Claim `vc`.
    VerifiableCredential,
    /// `@context` of the credential.
    Context,
    /// `type` of the credential.
    Type,
    /// `version` of the credential.
    Version,
    /// `credentialSubject` of the credential.
    CredentialSubject,
}

/// The bytes of a barcode do not hold a well-formed pass envelope.
#[derive(Debug, Clone, Copy, PartialEq, Eq, Structural)]
pub enum PayloadError {
    /// Not well-formed CBOR, an item of another type than expected, or bytes left over.
    Malformed,
    /// The envelope's tag is missing or wrong.
    SignStructure(CoseSignStructureError),
    /// The envelope's array ends before the given segment.
    MissingSegment(CoseSegment),
    /// The protected headers name an unsupported algorithm.
    SignatureAlgorithm(SignatureAlgorithmError),
    /// A map holds an integer key that is not one of its fields.
    UnknownIntegerField(i128),
    /// A map holds a key of another kind that is not one of its fields.
    UnknownField,
    /// A mandatory field is absent.
    MissingField(Field),
    /// A field of the credential appears twice.
    DuplicateField(Field),
    /// The issuer is not a `did:web:` identifier.
    UnsupportedDidMethod,
}

/// Why the signature of an envelope was not accepted.
#[derive(Debug, Clone, PartialEq, Eq)]
pub enum CoseVerificationError {
    /// Deliberately opaque: a malformed key, a malformed signature and a signature that
    /// does not match all end here.
    VerificationFailed,
    /// The claims did not validate.
    CwtValidation(CwtValidationError),
    /// The issuer is not among the trusted ones; holds its identifier.
    UntrustedIssuer(String),
    /// The issuer's public key could not be resolved.
    DecentralizedIdentifierResolution(DecentralizedIdentifierError),
}

/// An error that occurred while verifying a pass barcode.
#[derive(Debug, Clone, PartialEq, Eq)]
pub enum NzcpError {
    /// The barcode string was invalid.
    QrBarcode(QrBarcodeError),
    /// The payload could not be decoded.
    InvalidPayload(PayloadError),
    /// The signature was invalid, or the issuer was not trusted or its key not found.
    InvalidSignature(CoseVerificationError),
    /// The CWT claims were not valid.
    InvalidCWT(CwtValidationError),
}

} // verus!
