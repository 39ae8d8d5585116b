//! Signed transactions of any kind and their validation: the envelope
//! first, then the rules of the kind.

use vstd::prelude::*;

use crate::crypto::{ed25519_accepts, ed25519_verify};
use crate::error::ValidationError;
use crate::identifier::{PublicKey, TransactionIdentifier};
use crate::store::{get_election, spec_get_election, Record, Store};
use crate::transaction::{
    DecryptionTransaction, PartialDecryptionTransaction, Signable, SignedTransaction,
    Transaction,
};

verus! {

impl Signable for Transaction {
    open spec fn spec_id(&self) -> TransactionIdentifier {
        match self {
            Transaction::Election(tx) => tx.spec_id(),
            Transaction::KeyGenPublicKey(tx) => tx.spec_id(),
            Transaction::Vote(tx) => tx.spec_id(),
            Transaction::VotingEnd(tx) => tx.spec_id(),
            Transaction::Mix(tx) => tx.spec_id(),
            Transaction::PartialDecryption(tx) => tx.spec_id(),
            Transaction::Decryption(tx) => tx.spec_id(),
        }
    }

    open spec fn spec_public(&self) -> Option<PublicKey> {
        match self {
            Transaction::Election(tx) => tx.spec_public(),
            Transaction::KeyGenPublicKey(tx) => tx.spec_public(),
            Transaction::Vote(tx) => tx.spec_public(),
            Transaction::VotingEnd(tx) => tx.spec_public(),
            Transaction::Mix(tx) => tx.spec_public(),
            Transaction::PartialDecryption(tx) => tx.spec_public(),
            Transaction::Decryption(tx) => tx.spec_public(),
        }
    }

    open spec fn spec_inputs(&self) -> Seq<TransactionIdentifier> {
        match self {
            Transaction::Election(tx) => tx.spec_inputs(),
            Transaction::KeyGenPublicKey(tx) => tx.spec_inputs(),
            Transaction::Vote(tx) => tx.spec_inputs(),
            Transaction::VotingEnd(tx) => tx.spec_inputs(),
            Transaction::Mix(tx) => tx.spec_inputs(),
            Transaction::PartialDecryption(tx) => tx.spec_inputs(),
            Transaction::Decryption(tx) => tx.spec_inputs(),
        }
    }

    fn id(&self) -> (id: TransactionIdentifier) {
        match self {
            Transaction::Election(tx) => tx.id,
            Transaction::KeyGenPublicKey(tx) => tx.id,
            Transaction::Vote(tx) => tx.id,
            Transaction::VotingEnd(tx) => tx.id,
            Transaction::Mix(tx) => tx.id,
            Transaction::PartialDecryption(tx) => tx.id,
            Transaction::Decryption(tx) => tx.id,
        }
    }

    fn public(&self) -> (key: Option<PublicKey>) {
        match self {
            Transaction::Election(tx) => tx.public(),
            Transaction::KeyGenPublicKey(tx) => tx.public(),
            Transaction::Vote(tx) => tx.public(),
            Transaction::VotingEnd(tx) => tx.public(),
            Transaction::Mix(tx) => tx.public(),
            Transaction::PartialDecryption(tx) => tx.public(),
            Transaction::Decryption(tx) => tx.public(),
        }
    }

    fn inputs(&self) -> (ids: Vec<TransactionIdentifier>) {
        match self {
            Transaction::Election(tx) => tx.inputs(),
            Transaction::KeyGenPublicKey(tx) => tx.inputs(),
            Transaction::Vote(tx) => tx.inputs(),
            Transaction::VotingEnd(tx) => tx.inputs(),
            Transaction::Mix(tx) => tx.inputs(),
            Transaction::PartialDecryption(tx) => tx.inputs(),
            Transaction::Decryption(tx) => tx.inputs(),
        }
    }
}

impl Transaction {
    /// The identifier of the election that the transaction belongs to: its
    /// own for an election.
    pub open spec fn spec_election_id(&self) -> TransactionIdentifier {
        match self {
            Transaction::Election(tx) => tx.id,
            Transaction::KeyGenPublicKey(tx) => tx.election_id,
            Transaction::Vote(tx) => tx.election_id,
            Transaction::VotingEnd(tx) => tx.election_id,
            Transaction::Mix(tx) => tx.election_id,
            Transaction::PartialDecryption(tx) => tx.election_id,
            Transaction::Decryption(tx) => tx.election_id,
        }
    }

    /// Returns the identifier of the election that the transaction belongs
    /// to.
    pub fn election_id(&self) -> (id: TransactionIdentifier)
        ensures
            id == self.spec_election_id(),
    {
        match self {
            Transaction::Election(tx) => tx.id,
            Transaction::KeyGenPublicKey(tx) => tx.election_id,
            Transaction::Vote(tx) => tx.election_id,
            Transaction::VotingEnd(tx) => tx.election_id,
            Transaction::Mix(tx) => tx.election_id,
            Transaction::PartialDecryption(tx) => tx.election_id,
            Transaction::Decryption(tx) => tx.election_id,
        }
    }
}

impl SignedTransaction<Transaction> {
    /// The authority whose key signs what names no signer of its own: that
    /// of the election itself, or of the election that the log holds.
    pub open spec fn spec_authority(&self, log: Seq<Record>) -> Result<
        PublicKey,
        ValidationError,
    > {
        match self.transaction {
            Transaction::Election(tx) => Ok(tx.authority_public),
            _ => match spec_get_election(log, self.transaction.spec_election_id()) {
                Err(e) => Err(e),
                Ok(election) => Ok(election.authority_public),
            },
        }
    }

    /// What checking the envelope ends with: `UnknownTransactionType` where
    /// the variant and the type byte of the identifier disagree, the error of
    /// the election's lookup, `BadSignature` unless the signer signed
    /// `encoded`, else success.
    pub open spec fn spec_verify(&self, encoded: Seq<u8>, log: Seq<Record>) -> Result<
        (),
        ValidationError,
    > {
        if self.transaction.spec_id().transaction_type
            != self.transaction.spec_transaction_type() {
            Err(ValidationError::UnknownTransactionType)
        } else {
            match self.spec_authority(log) {
                Err(e) => Err(e),
                Ok(authority) => if ed25519_accepts(
                    self.signer(authority)@,
                    encoded,
                    self.signature@,
                ) {
                    Ok(())
                } else {
                    Err(ValidationError::BadSignature)
                },
            }
        }
    }

    /// Checks the envelope of a transaction of any kind against the store:
    /// that its variant is the kind its identifier names, and that its
    /// signature over `encoded`, the canonical encoding of the inner
    /// transaction, is that of its signer.
    pub fn verify<S: Store>(&self, encoded: &[u8], store: &S) -> (r: Result<(), ValidationError>)
        ensures
            r == self.spec_verify(encoded@, store.log()),
    {
        match self.transaction.check_kind() {
            Err(e) => {
                return Err(e);
            },
            Ok(_) => {},
        }
        let authority: PublicKey = match &self.transaction {
            Transaction::Election(tx) => tx.authority_public,
            _ => match get_election(store, self.transaction.election_id()) {
                Err(e) => {
                    return Err(e);
                },
                Ok(election) => election.authority_public,
            },
        };
        self.verify_signature(encoded, &authority)
    }
}

impl SignedTransaction<Transaction> {
    /// What validating a signed transaction of any kind ends with: the error
    /// of its envelope, else what the rules of its kind give. An election
    /// that breaks the rules of an election is refused with
    /// `IdentifierBadComposition`. `proofs_hold` is the verdict on the proofs
    /// that are checked outside this library: the authentication of a vote
    /// and the shuffle proof of a mix.
    pub open spec fn spec_validate(
        &self,
        encoded: Seq<u8>,
        proofs_hold: bool,
        log: Seq<Record>,
    ) -> Result<(), ValidationError> {
        match self.spec_verify(encoded, log) {
            Err(e) => Err(e),
            Ok(_) => match self.transaction {
                Transaction::Election(tx) => if tx.well_formed() {
                    Ok(())
                } else {
                    Err(ValidationError::IdentifierBadComposition)
                },
                Transaction::KeyGenPublicKey(tx) => tx.spec_validate(log),
                Transaction::Vote(tx) => tx.spec_validate(log, proofs_hold),
                Transaction::VotingEnd(tx) => tx.spec_validate(log),
                Transaction::Mix(tx) => tx.spec_validate(log, proofs_hold),
                Transaction::PartialDecryption(tx) => tx.spec_validate(log),
                Transaction::Decryption(tx) => tx.spec_validate(log),
            },
        }
    }

    /// Validates a signed transaction of any kind against the store: its
    /// envelope over `encoded`, the canonical encoding of the inner
    /// transaction, then the rules of its kind. The store is read, never
    /// written.
    pub fn validate<S: Store>(&self, encoded: &[u8], proofs_hold: bool, store: &S) -> (r: Result<
        (),
        ValidationError,
    >)
        ensures
            r == self.spec_validate(encoded@, proofs_hold, store.log()),
    {
        match self.verify(encoded, store) {
            Err(e) => {
                return Err(e);
            },
            Ok(_) => {},
        }
        match &self.transaction {
            Transaction::Election(tx) => {
                if tx.is_well_formed() {
                    Ok(())
                } else {
                    Err(ValidationError::IdentifierBadComposition)
                }
            },
            Transaction::KeyGenPublicKey(tx) => tx.validate_tx(store),
            Transaction::Vote(tx) => tx.validate_tx(store, proofs_hold),
            Transaction::VotingEnd(tx) => tx.validate_tx(store),
            Transaction::Mix(tx) => tx.validate_tx(store, proofs_hold),
            Transaction::PartialDecryption(tx) => tx.validate_tx(store),
            Transaction::Decryption(tx) => tx.validate_tx(store),
        }
    }
}

impl SignedTransaction<PartialDecryptionTransaction> {
    /// What validating the signed transaction ends with: `BadSignature`
    /// unless the trustee's key signed `encoded`, else what the rules give.
    pub open spec fn spec_validate(&self, encoded: Seq<u8>, log: Seq<Record>) -> Result<
        (),
        ValidationError,
    > {
        if !ed25519_accepts(self.transaction.trustee_public_key@, encoded, self.signature@) {
            Err(ValidationError::BadSignature)
        } else {
            self.transaction.spec_validate(log)
        }
    }

    /// Validates a signed partial decryption: its signature over `encoded`,
    /// the canonical encoding of the inner transaction, then its rules.
    pub fn validate<S: Store>(&self, encoded: &[u8], store: &S) -> (r: Result<(), ValidationError>)
        ensures
            r == self.spec_validate(encoded@, store.log()),
    {
        if !ed25519_verify(&self.transaction.trustee_public_key, encoded, &self.signature) {
            return Err(ValidationError::BadSignature);
        }
        self.transaction.validate_tx(store)
    }
}

impl SignedTransaction<DecryptionTransaction> {
    /// What validating the signed transaction ends with: the error of the
    /// election's lookup, `BadSignature` unless the election's authority
    /// signed `encoded`, else what the rules give.
    pub open spec fn spec_validate(&self, encoded: Seq<u8>, log: Seq<Record>) -> Result<
        (),
        ValidationError,
    > {
        match spec_get_election(log, self.transaction.election_id) {
            Err(e) => Err(e),
            Ok(election) => if !ed25519_accepts(
                election.authority_public@,
                encoded,
                self.signature@,
            ) {
                Err(ValidationError::BadSignature)
            } else {
                self.transaction.spec_validate(log)
            },
        }
    }

    /// Validates a signed decryption: its signature over `encoded`, the
    /// canonical encoding of the inner transaction, by the authority of its
    /// election, then its rules.
    pub fn validate<S: Store>(&self, encoded: &[u8], store: &S) -> (r: Result<(), ValidationError>)
        ensures
            r == self.spec_validate(encoded@, store.log()),
    {
        let election = match get_election(store, self.transaction.election_id) {
            Err(e) => {
                return Err(e);
            },
            Ok(election) => election,
        };
        if !ed25519_verify(&election.authority_public, encoded, &self.signature) {
            return Err(ValidationError::BadSignature);
        }
        self.transaction.validate_tx(store)
    }
}

} // verus!
