//! The vocabulary of the content-signing surface: algorithms, formats,
//! trust stores and verification policy. Signing itself is an external
//! collaborator; the registry only carries these descriptions.
use vstd::prelude::*;

verus! {

#[derive(Clone)]
pub enum SignatureAlgorithm {
    RsaPssSha256,
    RsaPkcs1Sha256,
    EcdsaP256Sha256,
    EcdsaP384Sha384,
    Ed25519,
}

#[derive(Clone)]
pub enum SignatureFormat {
    Cosign,
    NotaryV2,
    Simple,
    InToto,
}

#[derive(Clone)]
pub struct TrustStore {
    pub name: String,
    pub root_certificates: Vec<Vec<u8>>,
    pub intermediate_certificates: Vec<Vec<u8>>,
    pub revoked_certificates: Vec<String>,
}

#[derive(Clone)]
pub struct VerificationPolicy {
    pub require_signatures: bool,
    pub required_signatures_count: usize,
    pub allowed_signature_formats: Vec<SignatureFormat>,
    pub allowed_algorithms: Vec<SignatureAlgorithm>,
    pub trust_stores: Vec<String>,
    pub require_certificate_chain: bool,
    pub allow_self_signed: bool,
    pub max_signature_age_hours: Option<u64>,
}

} // verus!
