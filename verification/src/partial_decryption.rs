//! Partial decryptions: one trustee's share of the decryption of one
//! ciphertext, and the rules it is validated by.

use vstd::prelude::*;

use crate::crypto::{share_verifies, verify_partial_decryption, DecryptShare};
use crate::election::find_trustee;
use crate::error::ValidationError;
use crate::identifier::{array_eq, PublicKey, TransactionIdentifier, TransactionType, Uuid};
use crate::key_generation::keygen_public_key_id;
use crate::store::{
    get_election, get_keygen_public_key, get_mix, get_vote, spec_get_election,
    spec_get_keygen_public_key, spec_get_mix, spec_get_vote, Record, Store,
};
use crate::transaction::{ElectionTransaction, PartialDecryptionTransaction, Signable};
use crate::voting_end::{has_voting_end, voting_ended};

verus! {

/// The unique part of a partial decryption's identifier: the kind of the
/// upstream transaction, the first 14 bytes of its unique part, and the
/// trustee's index.
pub open spec fn partial_decryption_unique(
    upstream_id: TransactionIdentifier,
    trustee_index: u8,
) -> Seq<u8> {
    seq![upstream_id.transaction_type.byte()] + upstream_id.unique_id@.subrange(0, 14)
        + seq![trustee_index]
}

/// The identifier that a partial decryption must carry.
pub open spec fn partial_decryption_id(
    election_id: TransactionIdentifier,
    upstream_id: TransactionIdentifier,
    trustee_index: u8,
) -> TransactionIdentifier {
    TransactionIdentifier::of_parts(
        election_id.election_id,
        TransactionType::PartialDecryption,
        partial_decryption_unique(upstream_id, trustee_index),
    )
}

impl PartialDecryptionTransaction {
    /// A partial decryption by the trustee with the given index, with the
    /// identifier that its fields determine.
    pub fn new(
        election_id: TransactionIdentifier,
        upstream_id: TransactionIdentifier,
        upstream_index: usize,
        trustee_id: Uuid,
        trustee_index: u8,
        trustee_public_key: PublicKey,
        partial_decryption: DecryptShare,
    ) -> (tx: PartialDecryptionTransaction)
        ensures
            tx.id == partial_decryption_id(election_id, upstream_id, trustee_index),
            tx.id.election_id == election_id.election_id,
            tx.id.transaction_type == TransactionType::PartialDecryption,
            tx.id.unique_id@ == partial_decryption_unique(upstream_id, trustee_index),
            tx.election_id == election_id,
            tx.upstream_id == upstream_id,
            tx.upstream_index == upstream_index,
            tx.trustee_id == trustee_id,
            tx.trustee_public_key == trustee_public_key,
            tx.partial_decryption == partial_decryption,
    {
        PartialDecryptionTransaction {
            id: PartialDecryptionTransaction::build_id(election_id, upstream_id, trustee_index),
            election_id,
            upstream_id,
            upstream_index,
            trustee_id,
            trustee_public_key,
            partial_decryption,
        }
    }

    /// The identifier of the partial decryption that the trustee with the
    /// given index makes of the given upstream transaction.
    pub fn build_id(
        election_id: TransactionIdentifier,
        upstream_id: TransactionIdentifier,
        trustee_index: u8,
    ) -> (id: TransactionIdentifier)
        ensures
            id == partial_decryption_id(election_id, upstream_id, trustee_index),
            id.election_id == election_id.election_id,
            id.transaction_type == TransactionType::PartialDecryption,
            id.unique_id@ == partial_decryption_unique(upstream_id, trustee_index),
    {
        let mut unique_info: [u8; 16] = [0u8; 16];
        unique_info[0] = upstream_id.transaction_type.to_byte();
        let mut i: usize = 0;
        while i < 14
            invariant
                i <= 14,
                unique_info@[0] == upstream_id.transaction_type.byte(),
                forall|j: int| 0 <= j < i ==> unique_info@[1 + j] == upstream_id.unique_id@[j],
            decreases 14 - i,
        {
            unique_info[1 + i] = upstream_id.unique_id[i];
            i = i + 1;
        }
        unique_info[15] = trustee_index;
        assert(unique_info@.subrange(0, 16) =~= partial_decryption_unique(
            upstream_id,
            trustee_index,
        ));
        TransactionIdentifier::with_unique_info(
            election_id,
            TransactionType::PartialDecryption,
            unique_info.as_slice(),
        )
    }

    /// The ciphertext that this share claims to decrypt, or the error that
    /// the reference to it is refused with. For a vote the index must be
    /// zero. For a mix the election must have a mix-net, the mix must be its
    /// last shuffle, and the index must lie within the mix's output.
    pub open spec fn spec_upstream_ciphertext(
        &self,
        log: Seq<Record>,
        election: ElectionTransaction,
    ) -> Result<Seq<u8>, ValidationError> {
        if self.upstream_id.transaction_type == TransactionType::Vote {
            if self.upstream_index != 0 {
                Err(ValidationError::InvalidUpstreamIndex)
            } else {
                match spec_get_vote(log, self.upstream_id) {
                    Err(e) => Err(e),
                    Ok(vote) => Ok(vote.encrypted_vote@),
                }
            }
        } else {
            match spec_get_mix(log, self.upstream_id) {
                Err(e) => Err(e),
                Ok(mix) => match election.mixnet {
                    None => Err(ValidationError::WrongMixSelected),
                    Some(config) => if mix.mix_index + 1 != config.num_shuffles {
                        Err(ValidationError::WrongMixSelected)
                    } else if self.upstream_index >= mix.reencryption@.len() {
                        Err(ValidationError::InvalidUpstreamIndex)
                    } else {
                        Ok(mix.reencryption@[self.upstream_index as int]@)
                    },
                },
            }
        }
    }

    /// What validation against a log ends with. The checks are made in this
    /// order, and the first that fails gives the error:
    /// the election is in the log; the upstream transaction is a vote or a
    /// mix; the voting has ended; the ciphertext is found; the trustee, with
    /// this public key, is on the election's roster; the upstream
    /// transaction belongs to the same election and the identifier is the one
    /// that the fields determine; the trustee's key share is in the log and
    /// names the same trustee and key; and the share's proof holds against
    /// that key share and the ciphertext.
    pub open spec fn spec_validate(&self, log: Seq<Record>) -> Result<(), ValidationError> {
        match spec_get_election(log, self.election_id) {
            Err(e) => Err(e),
            Ok(election) => if self.upstream_id.transaction_type != TransactionType::Vote
                && self.upstream_id.transaction_type != TransactionType::Mix {
                Err(ValidationError::InvalidUpstreamID)
            } else if !voting_ended(log, self.election_id) {
                Err(ValidationError::MissingVotingEndTransaction)
            } else {
                match self.spec_upstream_ciphertext(log, election) {
                    Err(e) => Err(e),
                    Ok(ciphertext) => match find_trustee(
                        election.trustees@,
                        self.trustee_id,
                        Some(self.trustee_public_key),
                    ) {
                        None => Err(ValidationError::TrusteeDoesNotExist(self.trustee_id)),
                        Some(trustee) => if self.upstream_id.election_id
                            != self.election_id.election_id || self.id != partial_decryption_id(
                            self.election_id,
                            self.upstream_id,
                            trustee.index,
                        ) {
                            Err(ValidationError::IdentifierBadComposition)
                        } else {
                            match spec_get_keygen_public_key(
                                log,
                                keygen_public_key_id(self.election_id, self.trustee_id),
                            ) {
                                Err(e) => Err(e),
                                Ok(key) => if key.trustee_id != self.trustee_id
                                    || key.trustee_public_key != self.trustee_public_key {
                                    Err(
                                        ValidationError::TrusteePublicKeyMismatch(
                                            self.trustee_id,
                                        ),
                                    )
                                } else if !share_verifies(
                                    key.public_key_proof@,
                                    self.partial_decryption@,
                                    ciphertext,
                                ) {
                                    Err(ValidationError::PartialDecryptionProofFailed)
                                } else {
                                    Ok(())
                                },
                            }
                        },
                    },
                }
            },
        }
    }

    /// Finds the ciphertext that this share claims to decrypt.
    fn upstream_ciphertext<'a, S: Store>(&self, store: &'a S, election: &ElectionTransaction) -> (r:
        Result<&'a Vec<u8>, ValidationError>)
        requires
            self.upstream_id.transaction_type == TransactionType::Vote
                || self.upstream_id.transaction_type == TransactionType::Mix,
        ensures
            r matches Ok(c) ==> self.spec_upstream_ciphertext(store.log(), *election) == Ok::<
                Seq<u8>,
                ValidationError,
            >(c@),
            r matches Err(e) ==> self.spec_upstream_ciphertext(store.log(), *election) == Err::<
                Seq<u8>,
                ValidationError,
            >(e),
    {
        match self.upstream_id.transaction_type {
            TransactionType::Vote => {
                if self.upstream_index != 0 {
                    return Err(ValidationError::InvalidUpstreamIndex);
                }
                match get_vote(store, self.upstream_id) {
                    Err(e) => Err(e),
                    Ok(vote) => Ok(&vote.encrypted_vote),
                }
            },
            _ => {
                match get_mix(store, self.upstream_id) {
                    Err(e) => Err(e),
                    Ok(mix) => {
                        match election.mixnet {
                            None => Err(ValidationError::WrongMixSelected),
                            Some(config) => {
                                if config.num_shuffles == 0 || mix.mix_index != config.num_shuffles
                                    - 1 {
                                    Err(ValidationError::WrongMixSelected)
                                } else if self.upstream_index >= mix.reencryption.len() {
                                    Err(ValidationError::InvalidUpstreamIndex)
                                } else {
                                    Ok(&mix.reencryption[self.upstream_index])
                                }
                            },
                        }
                    },
                }
            },
        }
    }

    /// Validates the transaction against the store. The store is read, never
    /// written.
    pub fn validate_tx<S: Store>(&self, store: &S) -> (r: Result<(), ValidationError>)
        ensures
            r == self.spec_validate(store.log()),
    {
        let election = match get_election(store, self.election_id) {
            Err(e) => {
                return Err(e);
            },
            Ok(election) => election,
        };
        match self.upstream_id.transaction_type {
            TransactionType::Vote => {},
            TransactionType::Mix => {},
            _ => {
                return Err(ValidationError::InvalidUpstreamID);
            },
        }
        if !has_voting_end(store, self.election_id) {
            return Err(ValidationError::MissingVotingEndTransaction);
        }
        let ciphertext = match self.upstream_ciphertext(store, election) {
            Err(e) => {
                return Err(e);
            },
            Ok(ciphertext) => ciphertext,
        };
        let trustee = match election.get_trustee(&self.trustee_id, Some(&self.trustee_public_key)) {
            None => {
                return Err(ValidationError::TrusteeDoesNotExist(self.trustee_id));
            },
            Some(trustee) => trustee,
        };
        if !array_eq(&self.upstream_id.election_id, &self.election_id.election_id) {
            return Err(ValidationError::IdentifierBadComposition);
        }
        if Self::build_id(self.election_id, self.upstream_id, trustee.index) != self.id {
            return Err(ValidationError::IdentifierBadComposition);
        }
        assert(self.trustee_id@.subrange(0, 16) =~= self.trustee_id@);
        let key_id = TransactionIdentifier::with_unique_info(
            self.election_id,
            TransactionType::KeyGenPublicKey,
            self.trustee_id.as_slice(),
        );
        let key = match get_keygen_public_key(store, key_id) {
            Err(e) => {
                return Err(e);
            },
            Ok(key) => key,
        };
        if !array_eq(&self.trustee_id, &key.trustee_id) || !array_eq(
            &self.trustee_public_key,
            &key.trustee_public_key,
        ) {
            return Err(ValidationError::TrusteePublicKeyMismatch(self.trustee_id));
        }
        if !verify_partial_decryption(
            key.public_key_proof.as_slice(),
            self.partial_decryption.as_slice(),
            ciphertext.as_slice(),
        ) {
            return Err(ValidationError::PartialDecryptionProofFailed);
        }
        Ok(())
    }
}

/// A partial decryption that validates carries the identifier that its
/// fields determine: that of its election, its upstream transaction and the
/// index of its trustee on the election's roster.
pub proof fn lemma_valid_partial_decryption_id(tx: PartialDecryptionTransaction, log: Seq<Record>)
    requires
        tx.spec_validate(log) is Ok,
    ensures
        tx.upstream_id.election_id == tx.election_id.election_id,
        spec_get_election(log, tx.election_id) matches Ok(election) && (find_trustee(
            election.trustees@,
            tx.trustee_id,
            Some(tx.trustee_public_key),
        ) matches Some(trustee) && tx.id == partial_decryption_id(
            tx.election_id,
            tx.upstream_id,
            trustee.index,
        )),
{
}

/// Only the output of the last shuffle is decrypted. Where the election and
/// the end of its voting are in the log, a partial decryption that refers to
/// a mix which the log holds, but which is not the last shuffle of the
/// election's mix-net, is refused with `WrongMixSelected`.
pub proof fn lemma_wrong_mix_is_refused(tx: PartialDecryptionTransaction, log: Seq<Record>)
    requires
        spec_get_election(log, tx.election_id) is Ok,
        voting_ended(log, tx.election_id),
        tx.upstream_id.transaction_type == TransactionType::Mix,
        spec_get_mix(log, tx.upstream_id) is Ok,
        spec_get_election(log, tx.election_id)->Ok_0.mixnet matches Some(config) ==> spec_get_mix(
            log,
            tx.upstream_id,
        )->Ok_0.mix_index != config.num_shuffles - 1,
    ensures
        tx.spec_validate(log) == Err::<(), ValidationError>(ValidationError::WrongMixSelected),
{
}

/// No partial decryption validates before the voting has ended.
pub proof fn lemma_partial_decryption_needs_voting_end(
    tx: PartialDecryptionTransaction,
    log: Seq<Record>,
)
    requires
        !voting_ended(log, tx.election_id),
    ensures
        tx.spec_validate(log) is Err,
{
}

impl Signable for PartialDecryptionTransaction {
    open spec fn spec_id(&self) -> TransactionIdentifier {
        self.id
    }

    open spec fn spec_public(&self) -> Option<PublicKey> {
        Some(self.trustee_public_key)
    }

    open spec fn spec_inputs(&self) -> Seq<TransactionIdentifier> {
        seq![self.election_id, self.upstream_id]
    }

    fn id(&self) -> (id: TransactionIdentifier) {
        self.id
    }

    fn public(&self) -> (key: Option<PublicKey>) {
        Some(self.trustee_public_key)
    }

    fn inputs(&self) -> (ids: Vec<TransactionIdentifier>) {
        let mut ids: Vec<TransactionIdentifier> = Vec::new();
        ids.push(self.election_id);
        ids.push(self.upstream_id);
        assert(ids@ =~= seq![self.election_id, self.upstream_id]);
        ids
    }
}

} // verus!
