//! Votes and the rules they are validated by.

use vstd::prelude::*;

use crate::crypto::{ciphertext_decodes, ciphertext_is_well_formed};
use crate::error::{DecryptFailure, ValidationError};
use crate::identifier::{array_eq, TransactionType, Uuid};
use crate::store::{get_election, spec_get_election, Record, Store};
use crate::transaction::VoteTransaction;

verus! {

/// Tells whether a ballot is among those of an election.
pub fn ballot_listed(ballots: &[Uuid], ballot_id: &Uuid) -> (r: bool)
    ensures
        r == ballots@.contains(*ballot_id),
{
    let mut i: usize = 0;
    while i < ballots.len()
        invariant
            i <= ballots@.len(),
            forall|k: int| 0 <= k < i ==> ballots@[k] != *ballot_id,
        decreases ballots@.len() - i,
    {
        if array_eq(&ballots[i], ballot_id) {
            return true;
        }
        i = i + 1;
    }
    false
}

impl VoteTransaction {
    /// What validation against a log ends with. `authenticated` is the
    /// verdict of the blind-signature scheme on the vote's authentication
    /// entries, which is reached outside this library. The checks are made
    /// in this order, and the first that fails gives the error: the election
    /// is in the log; the ballot is one of the election's and the vote is
    /// authenticated for it, else `AuthenticatorProofFailed`; the encrypted
    /// vote is a well-formed ciphertext, else `VoteDecryptionFailed` with
    /// `Decoding`; and the identifier is that of a vote of this election.
    pub open spec fn spec_validate(&self, log: Seq<Record>, authenticated: bool) -> Result<
        (),
        ValidationError,
    > {
        match spec_get_election(log, self.election_id) {
            Err(e) => Err(e),
            Ok(election) => if !election.ballots@.contains(self.ballot_id) || !authenticated {
                Err(ValidationError::AuthenticatorProofFailed)
            } else if !ciphertext_decodes(self.encrypted_vote@) {
                Err(ValidationError::VoteDecryptionFailed(DecryptFailure::Decoding))
            } else if self.id.election_id != self.election_id.election_id
                || self.id.transaction_type != TransactionType::Vote {
                Err(ValidationError::IdentifierBadComposition)
            } else {
                Ok(())
            },
        }
    }

    /// Validates the transaction against the store, given the verdict on its
    /// authentication.
    pub fn validate_tx<S: Store>(&self, store: &S, authenticated: bool) -> (r: Result<
        (),
        ValidationError,
    >)
        ensures
            r == self.spec_validate(store.log(), authenticated),
    {
        let election = match get_election(store, self.election_id) {
            Err(e) => {
                return Err(e);
            },
            Ok(election) => election,
        };
        if !ballot_listed(election.ballots.as_slice(), &self.ballot_id) || !authenticated {
            return Err(ValidationError::AuthenticatorProofFailed);
        }
        if !ciphertext_is_well_formed(self.encrypted_vote.as_slice()) {
            return Err(ValidationError::VoteDecryptionFailed(DecryptFailure::Decoding));
        }
        if !array_eq(&self.id.election_id, &self.election_id.election_id) {
            return Err(ValidationError::IdentifierBadComposition);
        }
        match self.id.transaction_type {
            TransactionType::Vote => Ok(()),
            _ => Err(ValidationError::IdentifierBadComposition),
        }
    }
}

} // verus!
