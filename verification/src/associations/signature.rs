//! Signatures whose signer has already been recovered.

use vstd::prelude::*;
use crate::associations::member::{MemberId, MemberIdentifier};
use crate::util::clone_bytes;

verus! {

/// The scheme a signature was made with.
#[derive(Clone, Copy, Debug, PartialEq, Eq, Structural)]
pub enum SignatureKind {
    Erc191,
    Erc1271,
    InstallationKey,
    LegacyDelegated,
}

/// The mathematical value of a verified signature.
pub struct SignatureView {
    pub signer: MemberId,
    pub kind: SignatureKind,
    pub raw_bytes: Seq<u8>,
}

/// A signature together with the principal it was found to come from.
#[derive(Debug, PartialEq, Eq)]
pub struct VerifiedSignature {
    pub signer: MemberIdentifier,
    pub kind: SignatureKind,
    pub raw_bytes: Vec<u8>,
}

impl View for VerifiedSignature {
    type V = SignatureView;

    open spec fn view(&self) -> SignatureView {
        SignatureView { signer: self.signer@, kind: self.kind, raw_bytes: self.raw_bytes@ }
    }
}

impl Clone for VerifiedSignature {
    fn clone(&self) -> (copy: Self)
        ensures
            copy@ == self@,
    {
        VerifiedSignature {
            signer: self.signer.clone(),
            kind: self.kind,
            raw_bytes: clone_bytes(&self.raw_bytes),
        }
    }
}

impl VerifiedSignature {
    /// A verified signature from its parts.
    pub fn new(signer: MemberIdentifier, kind: SignatureKind, raw_bytes: Vec<u8>) -> (s: Self)
        ensures
            s.signer == signer,
            s.kind == kind,
            s.raw_bytes == raw_bytes,
    {
        VerifiedSignature { signer, kind, raw_bytes }
    }
}

} // verus!
