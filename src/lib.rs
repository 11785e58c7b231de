//! Verification of New Zealand COVID Pass barcodes: decoding the barcode, parsing the
//! COSE_Sign1 envelope and its CWT claims with exact byte spans, looking up the issuer's
//! key in its DID document, checking the ES256 signature, and validating the claims.
pub mod barcode;
pub mod cbor;
pub mod cose;
pub mod cwt;
pub mod did;
pub mod error;
pub mod pass;
pub mod protected_headers;
pub mod signature;
pub mod validation;

pub use crate::did::DecentralizedIdentifier;
pub use crate::pass::decode_pass_uri;
pub use crate::pass::verified_credential_subject;
pub use crate::pass::Pass;
