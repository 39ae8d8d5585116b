//! Key generation: the share of the joint encryption key that each trustee
//! publishes, and against which its partial decryptions are later checked.

use vstd::prelude::*;

use crate::crypto::{curve_element_decodes, key_decodes};
use crate::election::find_trustee;
use crate::error::ValidationError;
use crate::identifier::{TransactionIdentifier, TransactionType, Uuid};
use crate::store::{get_election, spec_get_election, Record, Store};
use crate::transaction::KeyGenPublicKeyTransaction;

verus! {

/// The identifier under which a trustee publishes its share of the key: its
/// unique part is the trustee's id.
pub open spec fn keygen_public_key_id(
    election_id: TransactionIdentifier,
    trustee_id: Uuid,
) -> TransactionIdentifier {
    TransactionIdentifier::of_parts(
        election_id.election_id,
        TransactionType::KeyGenPublicKey,
        trustee_id@,
    )
}

impl KeyGenPublicKeyTransaction {
    /// What validation against a log ends with. The checks are made in this
    /// order, and the first that fails gives the error: the election is in
    /// the log; the trustee, with this public key, is on its roster; the
    /// identifier is the one that the election and the trustee determine; and
    /// the key share is a curve element, else `TrusteePublicKeyMismatch`.
    ///
    /// The key share is a bare commitment: that it decodes is all that can
    /// be checked of it before a partial decryption is checked against it.
    pub open spec fn spec_validate(&self, log: Seq<Record>) -> Result<(), ValidationError> {
        match spec_get_election(log, self.election_id) {
            Err(e) => Err(e),
            Ok(election) => if find_trustee(
                election.trustees@,
                self.trustee_id,
                Some(self.trustee_public_key),
            ) is None {
                Err(ValidationError::TrusteeDoesNotExist(self.trustee_id))
            } else if self.id != keygen_public_key_id(self.election_id, self.trustee_id) {
                Err(ValidationError::IdentifierBadComposition)
            } else if !key_decodes(self.public_key_proof@) {
                Err(ValidationError::TrusteePublicKeyMismatch(self.trustee_id))
            } else {
                Ok(())
            },
        }
    }

    /// Validates the transaction against the store.
    pub fn validate_tx<S: Store>(&self, store: &S) -> (r: Result<(), ValidationError>)
        ensures
            r == self.spec_validate(store.log()),
    {
        let election = match get_election(store, self.election_id) {
            Err(e) => {
                return Err(e);
            },
            Ok(election) => election,
        };
        if election.get_trustee(&self.trustee_id, Some(&self.trustee_public_key)).is_none() {
            return Err(ValidationError::TrusteeDoesNotExist(self.trustee_id));
        }
        assert(self.trustee_id@.subrange(0, 16) =~= self.trustee_id@);
        let expected = TransactionIdentifier::with_unique_info(
            self.election_id,
            TransactionType::KeyGenPublicKey,
            self.trustee_id.as_slice(),
        );
        if expected != self.id {
            return Err(ValidationError::IdentifierBadComposition);
        }
        if !curve_element_decodes(self.public_key_proof.as_slice()) {
            return Err(ValidationError::TrusteePublicKeyMismatch(self.trustee_id));
        }
        Ok(())
    }
}

} // verus!
