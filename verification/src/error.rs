//! The errors a validation can end with.

use vstd::prelude::*;

use crate::identifier::TransactionIdentifier;

verus! {

/// Why the threshold combiner gave no plaintext.
#[derive(Clone, Copy, Debug, PartialEq, Eq, Structural)]
pub enum DecryptFailure {
    /// Fewer shares were supplied than the threshold asks for.
    KeygenMissing,
    /// A share's proof of correct decryption does not verify.
    ShareRejected,
    /// The combined plaintext does not match the ciphertext's authentication tag.
    AuthTagRejected,
    /// A ciphertext, share or plaintext could not be decoded.
    Decoding,
    /// The quorum's Lagrange coefficients do not fit the combiner's arithmetic.
    QuorumOutOfRange,
    /// Any other failure of the combiner.
    Other,
}

/// Every way in which validating a transaction can fail. Each is terminal:
/// validation reports the first error it detects and recovers nothing.
#[derive(Clone, Copy, Debug, PartialEq, Eq)]
pub enum ValidationError {
    IdentifierBadComposition,
    BadHexEncoding,
    UnknownTransactionType,
    TransactionNotFound(TransactionIdentifier),
    WrongTransactionKind,
    MissingVotingEndTransaction,
    InvalidUpstreamID,
    InvalidUpstreamIndex,
    WrongMixSelected,
    BadSignature,
    TrusteeDoesNotExist([u8; 16]),
    TrusteePublicKeyMismatch([u8; 16]),
    PartialDecryptionProofFailed,
    ShuffleProofFailed,
    AuthenticatorProofFailed,
    NotEnoughShares(usize, usize),
    VoteDecryptionFailed(DecryptFailure),
    VoteDecryptionMismatch,
}

impl ValidationError {
    /// The stable tag of an error, for logs and external interfaces.
    pub open spec fn spec_tag(self) -> Seq<char> {
        match self {
            ValidationError::IdentifierBadComposition => "identifier_bad_composition"@,
            ValidationError::BadHexEncoding => "bad_hex_encoding"@,
            ValidationError::UnknownTransactionType => "unknown_transaction_type"@,
            ValidationError::TransactionNotFound(_) => "transaction_not_found"@,
            ValidationError::WrongTransactionKind => "wrong_transaction_kind"@,
            ValidationError::MissingVotingEndTransaction => "missing_voting_end_transaction"@,
            ValidationError::InvalidUpstreamID => "invalid_upstream_id"@,
            ValidationError::InvalidUpstreamIndex => "invalid_upstream_index"@,
            ValidationError::WrongMixSelected => "wrong_mix_selected"@,
            ValidationError::BadSignature => "bad_signature"@,
            ValidationError::TrusteeDoesNotExist(_) => "trustee_does_not_exist"@,
            ValidationError::TrusteePublicKeyMismatch(_) => "trustee_public_key_mismatch"@,
            ValidationError::PartialDecryptionProofFailed => "partial_decryption_proof_failed"@,
            ValidationError::ShuffleProofFailed => "shuffle_proof_failed"@,
            ValidationError::AuthenticatorProofFailed => "authenticator_proof_failed"@,
            ValidationError::NotEnoughShares(_, _) => "not_enough_shares"@,
            ValidationError::VoteDecryptionFailed(_) => "vote_decryption_failed"@,
            ValidationError::VoteDecryptionMismatch => "vote_decryption_mismatch"@,
        }
    }

    /// Returns the stable tag of this error.
    pub fn tag(&self) -> (s: &'static str)
        ensures
            s@ == self.spec_tag(),
    {
        match self {
            ValidationError::IdentifierBadComposition => "identifier_bad_composition",
            ValidationError::BadHexEncoding => "bad_hex_encoding",
            ValidationError::UnknownTransactionType => "unknown_transaction_type",
            ValidationError::TransactionNotFound(_) => "transaction_not_found",
            ValidationError::WrongTransactionKind => "wrong_transaction_kind",
            ValidationError::MissingVotingEndTransaction => "missing_voting_end_transaction",
            ValidationError::InvalidUpstreamID => "invalid_upstream_id",
            ValidationError::InvalidUpstreamIndex => "invalid_upstream_index",
            ValidationError::WrongMixSelected => "wrong_mix_selected",
            ValidationError::BadSignature => "bad_signature",
            ValidationError::TrusteeDoesNotExist(_) => "trustee_does_not_exist",
            ValidationError::TrusteePublicKeyMismatch(_) => "trustee_public_key_mismatch",
            ValidationError::PartialDecryptionProofFailed => "partial_decryption_proof_failed",
            ValidationError::ShuffleProofFailed => "shuffle_proof_failed",
            ValidationError::AuthenticatorProofFailed => "authenticator_proof_failed",
            ValidationError::NotEnoughShares(_, _) => "not_enough_shares",
            ValidationError::VoteDecryptionFailed(_) => "vote_decryption_failed",
            ValidationError::VoteDecryptionMismatch => "vote_decryption_mismatch",
        }
    }
}

} // verus!
