//! The end of the voting: the transaction after which votes are decrypted.

use vstd::prelude::*;

use crate::error::ValidationError;
use crate::identifier::{TransactionIdentifier, TransactionType};
use crate::store::{get_election, lookup, spec_get_election, Record, Store};
use crate::transaction::VotingEndTransaction;

verus! {

/// Sixteen zero bytes: the unique part of a voting-end identifier.
pub open spec fn zeros() -> Seq<u8> {
    Seq::new(16, |i: int| 0u8)
}

/// The identifier of the transaction that ends the voting of an election.
pub open spec fn voting_end_id(election_id: TransactionIdentifier) -> TransactionIdentifier {
    TransactionIdentifier::of_parts(election_id.election_id, TransactionType::VotingEnd, zeros())
}

/// Whether the log holds the transaction that ends the voting.
pub open spec fn voting_ended(log: Seq<Record>, election_id: TransactionIdentifier) -> bool {
    lookup(log, voting_end_id(election_id)) is Some
}

/// Tells whether the store holds the transaction that ends the voting.
pub fn has_voting_end<S: Store>(store: &S, election_id: TransactionIdentifier) -> (r: bool)
    ensures
        r == voting_ended(store.log(), election_id),
{
    let unique: [u8; 16] = [0u8; 16];
    assert(unique@.subrange(0, 16) =~= zeros());
    let id = TransactionIdentifier::with_unique_info(
        election_id,
        TransactionType::VotingEnd,
        unique.as_slice(),
    );
    store.get_transaction(id).is_some()
}

impl VotingEndTransaction {
    /// The transaction that ends the voting of an election.
    pub fn new(election_id: TransactionIdentifier) -> (tx: VotingEndTransaction)
        ensures
            tx.id == voting_end_id(election_id),
            tx.id.election_id == election_id.election_id,
            tx.id.transaction_type == TransactionType::VotingEnd,
            tx.id.unique_id@ == zeros(),
            tx.election_id == election_id,
    {
        let unique: [u8; 16] = [0u8; 16];
        assert(unique@.subrange(0, 16) =~= zeros());
        VotingEndTransaction {
            id: TransactionIdentifier::with_unique_info(
                election_id,
                TransactionType::VotingEnd,
                unique.as_slice(),
            ),
            election_id,
        }
    }

    /// What validation against a log ends with: the election must be in the
    /// log, and the identifier must be the one of the election's voting end,
    /// whose unique part is zero. As a store holds no identifier twice, the
    /// voting of an election ends at most once.
    pub open spec fn spec_validate(&self, log: Seq<Record>) -> Result<(), ValidationError> {
        match spec_get_election(log, self.election_id) {
            Err(e) => Err(e),
            Ok(_) => if self.id != voting_end_id(self.election_id) {
                Err(ValidationError::IdentifierBadComposition)
            } else {
                Ok(())
            },
        }
    }

    /// Validates the transaction against the store.
    pub fn validate_tx<S: Store>(&self, store: &S) -> (r: Result<(), ValidationError>)
        ensures
            r == self.spec_validate(store.log()),
    {
        match get_election(store, self.election_id) {
            Err(e) => {
                return Err(e);
            },
            Ok(_) => {},
        }
        let expected = VotingEndTransaction::new(self.election_id);
        if expected.id != self.id {
            return Err(ValidationError::IdentifierBadComposition);
        }
        Ok(())
    }
}

} // verus!
