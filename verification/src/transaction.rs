//! The kinds of transaction, their tagged union, and the signed envelope.

use vstd::prelude::*;

use crate::crypto::{ed25519_accepts, ed25519_verify, Ciphertext, DecryptShare, PublicKeyProof};
use crate::error::ValidationError;
use crate::identifier::{PublicKey, TransactionIdentifier, TransactionType, Uuid};

verus! {

/// A trustee of an election: who it is, its number in the threshold scheme,
/// and the key it signs with.
#[derive(Clone, Copy, Debug)]
pub struct Trustee {
    pub id: Uuid,
    pub index: u8,
    pub public_key: PublicKey,
}

/// The mix-net of an election: how many shuffles the votes pass through.
#[derive(Clone, Copy, Debug)]
pub struct MixConfig {
    pub num_shuffles: u8,
}

/// Sets an election up. Nothing in it changes afterwards.
#[derive(Debug)]
pub struct ElectionTransaction {
    pub id: TransactionIdentifier,
    pub authority_public: PublicKey,
    pub ballots: Vec<Uuid>,
    pub authenticators: Vec<Vec<u8>>,
    pub trustees: Vec<Trustee>,
    pub trustees_threshold: usize,
    pub mixnet: Option<MixConfig>,
}

/// A trustee's commitment to its share of the joint encryption key.
#[derive(Debug)]
pub struct KeyGenPublicKeyTransaction {
    pub id: TransactionIdentifier,
    pub election_id: TransactionIdentifier,
    pub trustee_id: Uuid,
    pub trustee_public_key: PublicKey,
    pub public_key_proof: PublicKeyProof,
}

/// An encrypted vote, signed with the voter's anonymous key.
#[derive(Debug)]
pub struct VoteTransaction {
    pub id: TransactionIdentifier,
    pub election_id: TransactionIdentifier,
    pub anonymous_key: PublicKey,
    pub ballot_id: Uuid,
    pub authentication: Vec<Vec<u8>>,
    pub encrypted_vote: Ciphertext,
}

/// Closes the voting. There is one per election, and its unique part is zero.
#[derive(Debug)]
pub struct VotingEndTransaction {
    pub id: TransactionIdentifier,
    pub election_id: TransactionIdentifier,
}

/// One shuffle of the mix-net: the re-encrypted ciphertexts and the proof.
#[derive(Debug)]
pub struct MixTransaction {
    pub id: TransactionIdentifier,
    pub election_id: TransactionIdentifier,
    pub mix_index: u8,
    pub trustee_id: Uuid,
    pub trustee_public_key: PublicKey,
    pub reencryption: Vec<Ciphertext>,
    pub proof: Vec<u8>,
}

/// One trustee's share of the decryption of one ciphertext.
#[derive(Debug)]
pub struct PartialDecryptionTransaction {
    pub id: TransactionIdentifier,
    pub election_id: TransactionIdentifier,
    /// The vote or the mix that holds the ciphertext.
    pub upstream_id: TransactionIdentifier,
    /// The place of the ciphertext in the mix, or zero for a vote.
    pub upstream_index: usize,
    pub trustee_id: Uuid,
    pub trustee_public_key: PublicKey,
    pub partial_decryption: DecryptShare,
}

/// The decrypted vote, with the trustees whose shares were combined.
#[derive(Debug)]
pub struct DecryptionTransaction {
    pub id: TransactionIdentifier,
    pub election_id: TransactionIdentifier,
    pub vote_id: TransactionIdentifier,
    pub trustees: Vec<Uuid>,
    pub decrypted_vote: Vec<u8>,
}

/// Any transaction of the log.
#[derive(Debug)]
pub enum Transaction {
    Election(ElectionTransaction),
    KeyGenPublicKey(KeyGenPublicKeyTransaction),
    Vote(VoteTransaction),
    VotingEnd(VotingEndTransaction),
    Mix(MixTransaction),
    PartialDecryption(PartialDecryptionTransaction),
    Decryption(DecryptionTransaction),
}

impl Transaction {
    /// The kind that the variant stands for.
    pub open spec fn spec_transaction_type(&self) -> TransactionType {
        match self {
            Transaction::Election(_) => TransactionType::Election,
            Transaction::KeyGenPublicKey(_) => TransactionType::KeyGenPublicKey,
            Transaction::Vote(_) => TransactionType::Vote,
            Transaction::VotingEnd(_) => TransactionType::VotingEnd,
            Transaction::Mix(_) => TransactionType::Mix,
            Transaction::PartialDecryption(_) => TransactionType::PartialDecryption,
            Transaction::Decryption(_) => TransactionType::Decryption,
        }
    }

    /// The identifier that the transaction carries.
    pub open spec fn spec_id(&self) -> TransactionIdentifier {
        match self {
            Transaction::Election(tx) => tx.id,
            Transaction::KeyGenPublicKey(tx) => tx.id,
            Transaction::Vote(tx) => tx.id,
            Transaction::VotingEnd(tx) => tx.id,
            Transaction::Mix(tx) => tx.id,
            Transaction::PartialDecryption(tx) => tx.id,
            Transaction::Decryption(tx) => tx.id,
        }
    }

    /// Returns the kind that the variant stands for.
    pub fn transaction_type(&self) -> (t: TransactionType)
        ensures
            t == self.spec_transaction_type(),
    {
        match self {
            Transaction::Election(_) => TransactionType::Election,
            Transaction::KeyGenPublicKey(_) => TransactionType::KeyGenPublicKey,
            Transaction::Vote(_) => TransactionType::Vote,
            Transaction::VotingEnd(_) => TransactionType::VotingEnd,
            Transaction::Mix(_) => TransactionType::Mix,
            Transaction::PartialDecryption(_) => TransactionType::PartialDecryption,
            Transaction::Decryption(_) => TransactionType::Decryption,
        }
    }

    /// Returns the identifier that the transaction carries.
    pub fn id(&self) -> (id: TransactionIdentifier)
        ensures
            id == self.spec_id(),
    {
        match self {
            Transaction::Election(tx) => tx.id,
            Transaction::KeyGenPublicKey(tx) => tx.id,
            Transaction::Vote(tx) => tx.id,
            Transaction::VotingEnd(tx) => tx.id,
            Transaction::Mix(tx) => tx.id,
            Transaction::PartialDecryption(tx) => tx.id,
            Transaction::Decryption(tx) => tx.id,
        }
    }

    /// The variant and the type byte of the identifier must name the same
    /// kind; a transaction in which they disagree is refused.
    pub fn check_kind(&self) -> (r: Result<(), ValidationError>)
        ensures
            r == if self.spec_id().transaction_type == self.spec_transaction_type() {
                Ok::<(), ValidationError>(())
            } else {
                Err::<(), ValidationError>(ValidationError::UnknownTransactionType)
            },
    {
        if self.id().transaction_type == self.transaction_type() {
            Ok(())
        } else {
            Err(ValidationError::UnknownTransactionType)
        }
    }
}

impl ElectionTransaction {
    /// The election transaction that `tx` is. Only an election can be handed
    /// in.
    pub fn from(tx: Transaction) -> (r: ElectionTransaction)
        requires
            tx is Election,
        ensures
            tx == Transaction::Election(r),
    {
        match tx {
            Transaction::Election(tx) => tx,
            _ => vstd::pervasive::unreached(),
        }
    }
}

impl From<Transaction> for Option<ElectionTransaction> {
    fn from(tx: Transaction) -> (r: Option<ElectionTransaction>) {
        match tx {
            Transaction::Election(tx) => Some(tx),
            _ => None,
        }
    }
}

impl vstd::std_specs::convert::FromSpecImpl<Transaction> for Option<ElectionTransaction> {
    open spec fn obeys_from_spec() -> bool {
        true
    }

    open spec fn from_spec(tx: Transaction) -> Option<ElectionTransaction> {
        match tx {
            Transaction::Election(tx) => Some(tx),
            _ => None,
        }
    }
}

impl VoteTransaction {
    /// The vote transaction that `tx` is. Only a vote can be handed
    /// in.
    pub fn from(tx: Transaction) -> (r: VoteTransaction)
        requires
            tx is Vote,
        ensures
            tx == Transaction::Vote(r),
    {
        match tx {
            Transaction::Vote(tx) => tx,
            _ => vstd::pervasive::unreached(),
        }
    }
}

impl From<Transaction> for Option<VoteTransaction> {
    fn from(tx: Transaction) -> (r: Option<VoteTransaction>) {
        match tx {
            Transaction::Vote(tx) => Some(tx),
            _ => None,
        }
    }
}

impl vstd::std_specs::convert::FromSpecImpl<Transaction> for Option<VoteTransaction> {
    open spec fn obeys_from_spec() -> bool {
        true
    }

    open spec fn from_spec(tx: Transaction) -> Option<VoteTransaction> {
        match tx {
            Transaction::Vote(tx) => Some(tx),
            _ => None,
        }
    }
}

impl DecryptionTransaction {
    /// The decryption transaction that `tx` is. Only a decryption can be handed
    /// in.
    pub fn from(tx: Transaction) -> (r: DecryptionTransaction)
        requires
            tx is Decryption,
        ensures
            tx == Transaction::Decryption(r),
    {
        match tx {
            Transaction::Decryption(tx) => tx,
            _ => vstd::pervasive::unreached(),
        }
    }
}

impl From<Transaction> for Option<DecryptionTransaction> {
    fn from(tx: Transaction) -> (r: Option<DecryptionTransaction>) {
        match tx {
            Transaction::Decryption(tx) => Some(tx),
            _ => None,
        }
    }
}

impl vstd::std_specs::convert::FromSpecImpl<Transaction> for Option<DecryptionTransaction> {
    open spec fn obeys_from_spec() -> bool {
        true
    }

    open spec fn from_spec(tx: Transaction) -> Option<DecryptionTransaction> {
        match tx {
            Transaction::Decryption(tx) => Some(tx),
            _ => None,
        }
    }
}

/// What the envelope needs to know of the transaction it wraps.
pub trait Signable {
    /// The identifier of the transaction.
    spec fn spec_id(&self) -> TransactionIdentifier;

    /// The key that signs the transaction; `None` for the election authority.
    spec fn spec_public(&self) -> Option<PublicKey>;

    /// The transactions that this one depends on. The list is advisory: it
    /// names the election and the transaction that is acted on, and
    /// validation may read further ones (the end of the voting, a trustee's
    /// key share).
    spec fn spec_inputs(&self) -> Seq<TransactionIdentifier>;

    fn id(&self) -> (id: TransactionIdentifier)
        ensures
            id == self.spec_id(),
    ;

    fn public(&self) -> (key: Option<PublicKey>)
        ensures
            key == self.spec_public(),
    ;

    fn inputs(&self) -> (ids: Vec<TransactionIdentifier>)
        ensures
            ids@ == self.spec_inputs(),
    ;
}

/// A transaction with the Ed25519 signature over its canonical encoding.
#[derive(Debug)]
pub struct SignedTransaction<T> {
    pub transaction: T,
    pub signature: [u8; 64],
}

impl<T: Signable> SignedTransaction<T> {
    /// The key the signature is checked against: the transaction's own
    /// signer, or the election authority where it names none.
    pub open spec fn signer(&self, authority: PublicKey) -> PublicKey {
        match self.transaction.spec_public() {
            Some(key) => key,
            None => authority,
        }
    }

    /// Checks the signature over `encoded`, the canonical encoding of the
    /// inner transaction.
    pub fn verify_signature(&self, encoded: &[u8], authority: &PublicKey) -> (r: Result<
        (),
        ValidationError,
    >)
        ensures
            r == if ed25519_accepts(self.signer(*authority)@, encoded@, self.signature@) {
                Ok::<(), ValidationError>(())
            } else {
                Err::<(), ValidationError>(ValidationError::BadSignature)
            },
    {
        let key: PublicKey = match self.transaction.public() {
            Some(key) => key,
            None => *authority,
        };
        if ed25519_verify(&key, encoded, &self.signature) {
            Ok(())
        } else {
            Err(ValidationError::BadSignature)
        }
    }
}

impl Signable for KeyGenPublicKeyTransaction {
    open spec fn spec_id(&self) -> TransactionIdentifier {
        self.id
    }

    open spec fn spec_public(&self) -> Option<PublicKey> {
        Some(self.trustee_public_key)
    }

    open spec fn spec_inputs(&self) -> Seq<TransactionIdentifier> {
        seq![self.election_id]
    }

    fn id(&self) -> (id: TransactionIdentifier) {
        self.id
    }

    fn public(&self) -> (key: Option<PublicKey>) {
        Some(self.trustee_public_key)
    }

    fn inputs(&self) -> (ids: Vec<TransactionIdentifier>) {
        let mut ids: Vec<TransactionIdentifier> = Vec::new();
        ids.push(self.election_id);
        assert(ids@ =~= seq![self.election_id]);
        ids
    }
}

impl Signable for VoteTransaction {
    open spec fn spec_id(&self) -> TransactionIdentifier {
        self.id
    }

    open spec fn spec_public(&self) -> Option<PublicKey> {
        Some(self.anonymous_key)
    }

    open spec fn spec_inputs(&self) -> Seq<TransactionIdentifier> {
        seq![self.election_id]
    }

    fn id(&self) -> (id: TransactionIdentifier) {
        self.id
    }

    fn public(&self) -> (key: Option<PublicKey>) {
        Some(self.anonymous_key)
    }

    fn inputs(&self) -> (ids: Vec<TransactionIdentifier>) {
        let mut ids: Vec<TransactionIdentifier> = Vec::new();
        ids.push(self.election_id);
        assert(ids@ =~= seq![self.election_id]);
        ids
    }
}

impl Signable for VotingEndTransaction {
    open spec fn spec_id(&self) -> TransactionIdentifier {
        self.id
    }

    open spec fn spec_public(&self) -> Option<PublicKey> {
        None
    }

    open spec fn spec_inputs(&self) -> Seq<TransactionIdentifier> {
        seq![self.election_id]
    }

    fn id(&self) -> (id: TransactionIdentifier) {
        self.id
    }

    fn public(&self) -> (key: Option<PublicKey>) {
        None
    }

    fn inputs(&self) -> (ids: Vec<TransactionIdentifier>) {
        let mut ids: Vec<TransactionIdentifier> = Vec::new();
        ids.push(self.election_id);
        assert(ids@ =~= seq![self.election_id]);
        ids
    }
}

impl Signable for MixTransaction {
    open spec fn spec_id(&self) -> TransactionIdentifier {
        self.id
    }

    open spec fn spec_public(&self) -> Option<PublicKey> {
        Some(self.trustee_public_key)
    }

    open spec fn spec_inputs(&self) -> Seq<TransactionIdentifier> {
        seq![self.election_id]
    }

    fn id(&self) -> (id: TransactionIdentifier) {
        self.id
    }

    fn public(&self) -> (key: Option<PublicKey>) {
        Some(self.trustee_public_key)
    }

    fn inputs(&self) -> (ids: Vec<TransactionIdentifier>) {
        let mut ids: Vec<TransactionIdentifier> = Vec::new();
        ids.push(self.election_id);
        assert(ids@ =~= seq![self.election_id]);
        ids
    }
}

} // verus!
