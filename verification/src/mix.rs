//! Mixes: the shuffles of the mix-net, and the rules they are validated by.

use vstd::prelude::*;

use crate::election::find_trustee;
use crate::error::ValidationError;
use crate::identifier::{TransactionIdentifier, TransactionType, Uuid};
use crate::store::{get_election, spec_get_election, Record, Store};
use crate::transaction::MixTransaction;
use crate::voting_end::{has_voting_end, voting_ended};

verus! {

/// The unique part of a mix's identifier: the number of the shuffle, then
/// the first 15 bytes of the id of the trustee that made it.
pub open spec fn mix_unique(mix_index: u8, trustee_id: Uuid) -> Seq<u8> {
    seq![mix_index] + trustee_id@.subrange(0, 15)
}

/// The identifier that a mix must carry.
pub open spec fn mix_id(
    election_id: TransactionIdentifier,
    mix_index: u8,
    trustee_id: Uuid,
) -> TransactionIdentifier {
    TransactionIdentifier::of_parts(
        election_id.election_id,
        TransactionType::Mix,
        mix_unique(mix_index, trustee_id),
    )
}

impl MixTransaction {
    /// The identifier of the mix with the given number that the given
    /// trustee makes.
    pub fn build_id(election_id: TransactionIdentifier, mix_index: u8, trustee_id: &Uuid) -> (id:
        TransactionIdentifier)
        ensures
            id == mix_id(election_id, mix_index, *trustee_id),
            id.election_id == election_id.election_id,
            id.transaction_type == TransactionType::Mix,
            id.unique_id@ == mix_unique(mix_index, *trustee_id),
    {
        let mut unique_info: [u8; 16] = [0u8; 16];
        unique_info[0] = mix_index;
        let mut i: usize = 0;
        while i < 15
            invariant
                i <= 15,
                unique_info@[0] == mix_index,
                forall|j: int| 0 <= j < i ==> unique_info@[1 + j] == trustee_id@[j],
            decreases 15 - i,
        {
            unique_info[1 + i] = trustee_id[i];
            i = i + 1;
        }
        assert(unique_info@.subrange(0, 16) =~= mix_unique(mix_index, *trustee_id));
        TransactionIdentifier::with_unique_info(
            election_id,
            TransactionType::Mix,
            unique_info.as_slice(),
        )
    }

    /// What validation against a log ends with. `shuffle_verified` is the
    /// verdict on the shuffle proof, which is reached outside this library:
    /// that the mix re-encrypts, under the joint key, the votes of the
    /// election where it is the first shuffle, and the output of the shuffle
    /// before it otherwise. The checks are made in this order, and the first
    /// that fails gives the error: the election is in the log; the voting has
    /// ended; the election has a mix-net and the mix is one of its shuffles,
    /// else `WrongMixSelected`; the trustee, with this public key, is on the
    /// roster; the identifier is the one that the fields determine; and the
    /// shuffle proof holds, else `ShuffleProofFailed`.
    pub open spec fn spec_validate(&self, log: Seq<Record>, shuffle_verified: bool) -> Result<
        (),
        ValidationError,
    > {
        match spec_get_election(log, self.election_id) {
            Err(e) => Err(e),
            Ok(election) => if !voting_ended(log, self.election_id) {
                Err(ValidationError::MissingVotingEndTransaction)
            } else if !(election.mixnet matches Some(config) && self.mix_index
                < config.num_shuffles) {
                Err(ValidationError::WrongMixSelected)
            } else if find_trustee(
                election.trustees@,
                self.trustee_id,
                Some(self.trustee_public_key),
            ) is None {
                Err(ValidationError::TrusteeDoesNotExist(self.trustee_id))
            } else if self.id != mix_id(self.election_id, self.mix_index, self.trustee_id) {
                Err(ValidationError::IdentifierBadComposition)
            } else if !shuffle_verified {
                Err(ValidationError::ShuffleProofFailed)
            } else {
                Ok(())
            },
        }
    }

    /// Validates the transaction against the store, given the verdict on its
    /// shuffle proof.
    pub fn validate_tx<S: Store>(&self, store: &S, shuffle_verified: bool) -> (r: Result<
        (),
        ValidationError,
    >)
        ensures
            r == self.spec_validate(store.log(), shuffle_verified),
    {
        let election = match get_election(store, self.election_id) {
            Err(e) => {
                return Err(e);
            },
            Ok(election) => election,
        };
        if !has_voting_end(store, self.election_id) {
            return Err(ValidationError::MissingVotingEndTransaction);
        }
        match election.mixnet {
            None => {
                return Err(ValidationError::WrongMixSelected);
            },
            Some(config) => {
                if self.mix_index >= config.num_shuffles {
                    return Err(ValidationError::WrongMixSelected);
                }
            },
        }
        if election.get_trustee(&self.trustee_id, Some(&self.trustee_public_key)).is_none() {
            return Err(ValidationError::TrusteeDoesNotExist(self.trustee_id));
        }
        if Self::build_id(self.election_id, self.mix_index, &self.trustee_id) != self.id {
            return Err(ValidationError::IdentifierBadComposition);
        }
        if !shuffle_verified {
            return Err(ValidationError::ShuffleProofFailed);
        }
        Ok(())
    }
}

} // verus!
