//! The store of validated transactions that validation reads from.
//!
//! A store is modelled by its log: the transactions it holds, in the order
//! in which it lists them. No identifier is looked up past its first entry,
//! and `set` never replaces or removes one.

use vstd::prelude::*;

use crate::error::ValidationError;
use crate::identifier::{TransactionIdentifier, TransactionType};
use crate::transaction::{
    ElectionTransaction, KeyGenPublicKeyTransaction, MixTransaction,
    PartialDecryptionTransaction, SignedTransaction, Transaction, VoteTransaction,
};

verus! {

/// A signed transaction of any kind, as the store holds it.
pub type Record = SignedTransaction<Transaction>;

/// The first record of the log with the given identifier.
pub open spec fn lookup(log: Seq<Record>, id: TransactionIdentifier) -> Option<Record>
    decreases log.len(),
{
    if log.len() == 0 {
        None
    } else if log.first().transaction.spec_id() == id {
        Some(log.first())
    } else {
        lookup(log.drop_first(), id)
    }
}

/// Whether a record belongs to the given election and is of the given kind,
/// going by its identifier.
pub open spec fn in_election(
    record: Record,
    election_id: TransactionIdentifier,
    transaction_type: TransactionType,
) -> bool {
    &&& record.transaction.spec_id().election_id == election_id.election_id
    &&& record.transaction.spec_id().transaction_type == transaction_type
}

/// The records of one election and one kind, in the order of the log.
pub open spec fn select(
    log: Seq<Record>,
    election_id: TransactionIdentifier,
    transaction_type: TransactionType,
) -> Seq<Record>
    decreases log.len(),
{
    if log.len() == 0 {
        Seq::empty()
    } else {
        let rest = select(log.drop_last(), election_id, transaction_type);
        if in_election(log.last(), election_id, transaction_type) {
            rest.push(log.last())
        } else {
            rest
        }
    }
}

/// What a sequence of references refers to.
pub open spec fn referents<T>(refs: Seq<&T>) -> Seq<T> {
    Seq::new(refs.len(), |i: int| *refs[i])
}

/// The log after `record` has been handed to `set`: it is appended, unless
/// a record with its identifier is there already.
pub open spec fn log_with(log: Seq<Record>, record: Record) -> Seq<Record> {
    if lookup(log, record.transaction.spec_id()) is Some {
        log
    } else {
        log.push(record)
    }
}

/// Whether no two records of the log carry the same identifier.
pub open spec fn identifiers_distinct(log: Seq<Record>) -> bool {
    forall|i: int, j: int|
        0 <= i < j < log.len() ==> (#[trigger] log[i]).transaction.spec_id() != (
        #[trigger] log[j]).transaction.spec_id()
}

/// A lookup finds a record of the log with the identifier asked for, and
/// finds none only where the log holds none.
pub proof fn lemma_lookup(log: Seq<Record>, id: TransactionIdentifier)
    ensures
        lookup(log, id) matches Some(record) ==> record.transaction.spec_id() == id
            && log.contains(record),
        lookup(log, id) is None ==> forall|i: int|
            0 <= i < log.len() ==> (#[trigger] log[i]).transaction.spec_id() != id,
    decreases log.len(),
{
    if log.len() > 0 {
        let rest = log.drop_first();
        lemma_lookup(rest, id);
        if log.first().transaction.spec_id() == id {
            assert(log[0] == log.first());
        } else {
            if let Some(record) = lookup(rest, id) {
                let k = choose|k: int| 0 <= k < rest.len() && rest[k] == record;
                assert(log[k + 1] == record);
            } else {
                assert forall|i: int| 0 <= i < log.len() implies (
                #[trigger] log[i]).transaction.spec_id() != id by {
                    if i > 0 {
                        assert(rest[i - 1] == log[i]);
                    }
                }
            }
        }
    }
}

/// What a lookup finds after a record has been appended.
pub proof fn lemma_lookup_after_push(log: Seq<Record>, record: Record, id: TransactionIdentifier)
    ensures
        lookup(log.push(record), id) == if lookup(log, id) is Some {
            lookup(log, id)
        } else if record.transaction.spec_id() == id {
            Some(record)
        } else {
            None
        },
    decreases log.len(),
{
    let longer = log.push(record);
    if log.len() == 0 {
        assert(longer.first() == record);
        assert(longer.drop_first() =~= Seq::<Record>::empty());
        assert(lookup(longer.drop_first(), id) is None);
        assert(lookup(log, id) is None);
    } else {
        assert(longer.first() == log.first());
        assert(longer.drop_first() =~= log.drop_first().push(record));
        lemma_lookup_after_push(log.drop_first(), record, id);
    }
}

/// The store only grows, and what it holds does not change: after `set`,
/// every identifier that was found before is found with the same record,
/// the record handed in is found unless its identifier was taken, and a log
/// without repeated identifiers stays without.
pub proof fn lemma_set_keeps_the_log(log: Seq<Record>, record: Record, id: TransactionIdentifier)
    ensures
        lookup(log, id) is Some ==> lookup(log_with(log, record), id) == lookup(log, id),
        lookup(log, record.transaction.spec_id()) is None ==> lookup(
            log_with(log, record),
            record.transaction.spec_id(),
        ) == Some(record),
        identifiers_distinct(log) ==> identifiers_distinct(log_with(log, record)),
        log_with(log, record).len() >= log.len(),
        log_with(log, record).subrange(0, log.len() as int) == log,
{
    lemma_lookup_after_push(log, record, id);
    lemma_lookup_after_push(log, record, record.transaction.spec_id());
    lemma_lookup(log, record.transaction.spec_id());
    assert(log_with(log, record).subrange(0, log.len() as int) =~= log);
}

/// The election with the given identifier.
pub open spec fn spec_get_election(log: Seq<Record>, id: TransactionIdentifier) -> Result<
    ElectionTransaction,
    ValidationError,
> {
    match lookup(log, id) {
        None => Err(ValidationError::TransactionNotFound(id)),
        Some(record) => match record.transaction {
            Transaction::Election(tx) => Ok(tx),
            _ => Err(ValidationError::WrongTransactionKind),
        },
    }
}

/// The vote with the given identifier.
pub open spec fn spec_get_vote(log: Seq<Record>, id: TransactionIdentifier) -> Result<
    VoteTransaction,
    ValidationError,
> {
    match lookup(log, id) {
        None => Err(ValidationError::TransactionNotFound(id)),
        Some(record) => match record.transaction {
            Transaction::Vote(tx) => Ok(tx),
            _ => Err(ValidationError::WrongTransactionKind),
        },
    }
}

/// The mix with the given identifier.
pub open spec fn spec_get_mix(log: Seq<Record>, id: TransactionIdentifier) -> Result<
    MixTransaction,
    ValidationError,
> {
    match lookup(log, id) {
        None => Err(ValidationError::TransactionNotFound(id)),
        Some(record) => match record.transaction {
            Transaction::Mix(tx) => Ok(tx),
            _ => Err(ValidationError::WrongTransactionKind),
        },
    }
}

/// The key-generation public key with the given identifier.
pub open spec fn spec_get_keygen_public_key(
    log: Seq<Record>,
    id: TransactionIdentifier,
) -> Result<KeyGenPublicKeyTransaction, ValidationError> {
    match lookup(log, id) {
        None => Err(ValidationError::TransactionNotFound(id)),
        Some(record) => match record.transaction {
            Transaction::KeyGenPublicKey(tx) => Ok(tx),
            _ => Err(ValidationError::WrongTransactionKind),
        },
    }
}

/// The partial decryption with the given identifier.
pub open spec fn spec_get_partial_decryption(
    log: Seq<Record>,
    id: TransactionIdentifier,
) -> Result<PartialDecryptionTransaction, ValidationError> {
    match lookup(log, id) {
        None => Err(ValidationError::TransactionNotFound(id)),
        Some(record) => match record.transaction {
            Transaction::PartialDecryption(tx) => Ok(tx),
            _ => Err(ValidationError::WrongTransactionKind),
        },
    }
}

/// Typed lookup over transactions that have been validated.
pub trait Store {
    /// The transactions held, in the order in which the store lists them.
    spec fn log(&self) -> Seq<Record>;

    /// The transaction with the given identifier, of whatever kind.
    fn get_transaction(&self, id: TransactionIdentifier) -> (r: Option<&Record>)
        ensures
            r matches Some(record) ==> lookup(self.log(), id) == Some(*record),
            r is None ==> lookup(self.log(), id) is None,
    ;

    /// All transactions of one election and one kind.
    fn get_multiple(
        &self,
        election_id: TransactionIdentifier,
        transaction_type: TransactionType,
    ) -> (r: Vec<&Record>)
        ensures
            referents(r@) == select(self.log(), election_id, transaction_type),
    ;

    /// Adds a transaction. A transaction whose identifier is already held is
    /// not added: the store only ever grows.
    fn set(&mut self, record: Record)
        ensures
            final(self).log() == log_with(old(self).log(), record),
    ;
}

/// The election with the given identifier. Fails with `TransactionNotFound`
/// where the store holds none, and with `WrongTransactionKind` where what it
/// holds is no election.
pub fn get_election<S: Store>(store: &S, id: TransactionIdentifier) -> (r: Result<
    &ElectionTransaction,
    ValidationError,
>)
    ensures
        r matches Ok(tx) ==> spec_get_election(store.log(), id) == Ok::<
            ElectionTransaction,
            ValidationError,
        >(*tx),
        r matches Err(e) ==> spec_get_election(store.log(), id) == Err::<
            ElectionTransaction,
            ValidationError,
        >(e),
{
    match store.get_transaction(id) {
        None => Err(ValidationError::TransactionNotFound(id)),
        Some(record) => match &record.transaction {
            Transaction::Election(tx) => Ok(tx),
            _ => Err(ValidationError::WrongTransactionKind),
        },
    }
}

/// The vote with the given identifier; fails as `get_election` does.
pub fn get_vote<S: Store>(store: &S, id: TransactionIdentifier) -> (r: Result<
    &VoteTransaction,
    ValidationError,
>)
    ensures
        r matches Ok(tx) ==> spec_get_vote(store.log(), id) == Ok::<
            VoteTransaction,
            ValidationError,
        >(*tx),
        r matches Err(e) ==> spec_get_vote(store.log(), id) == Err::<
            VoteTransaction,
            ValidationError,
        >(e),
{
    match store.get_transaction(id) {
        None => Err(ValidationError::TransactionNotFound(id)),
        Some(record) => match &record.transaction {
            Transaction::Vote(tx) => Ok(tx),
            _ => Err(ValidationError::WrongTransactionKind),
        },
    }
}

/// The mix with the given identifier; fails as `get_election` does.
pub fn get_mix<S: Store>(store: &S, id: TransactionIdentifier) -> (r: Result<
    &MixTransaction,
    ValidationError,
>)
    ensures
        r matches Ok(tx) ==> spec_get_mix(store.log(), id) == Ok::<
            MixTransaction,
            ValidationError,
        >(*tx),
        r matches Err(e) ==> spec_get_mix(store.log(), id) == Err::<
            MixTransaction,
            ValidationError,
        >(e),
{
    match store.get_transaction(id) {
        None => Err(ValidationError::TransactionNotFound(id)),
        Some(record) => match &record.transaction {
            Transaction::Mix(tx) => Ok(tx),
            _ => Err(ValidationError::WrongTransactionKind),
        },
    }
}

/// The key-generation public key with the given identifier; fails as
/// `get_election` does.
pub fn get_keygen_public_key<S: Store>(store: &S, id: TransactionIdentifier) -> (r: Result<
    &KeyGenPublicKeyTransaction,
    ValidationError,
>)
    ensures
        r matches Ok(tx) ==> spec_get_keygen_public_key(store.log(), id) == Ok::<
            KeyGenPublicKeyTransaction,
            ValidationError,
        >(*tx),
        r matches Err(e) ==> spec_get_keygen_public_key(store.log(), id) == Err::<
            KeyGenPublicKeyTransaction,
            ValidationError,
        >(e),
{
    match store.get_transaction(id) {
        None => Err(ValidationError::TransactionNotFound(id)),
        Some(record) => match &record.transaction {
            Transaction::KeyGenPublicKey(tx) => Ok(tx),
            _ => Err(ValidationError::WrongTransactionKind),
        },
    }
}

/// The partial decryption with the given identifier; fails as
/// `get_election` does.
pub fn get_partial_decryption<S: Store>(store: &S, id: TransactionIdentifier) -> (r: Result<
    &PartialDecryptionTransaction,
    ValidationError,
>)
    ensures
        r matches Ok(tx) ==> spec_get_partial_decryption(store.log(), id) == Ok::<
            PartialDecryptionTransaction,
            ValidationError,
        >(*tx),
        r matches Err(e) ==> spec_get_partial_decryption(store.log(), id) == Err::<
            PartialDecryptionTransaction,
            ValidationError,
        >(e),
{
    match store.get_transaction(id) {
        None => Err(ValidationError::TransactionNotFound(id)),
        Some(record) => match &record.transaction {
            Transaction::PartialDecryption(tx) => Ok(tx),
            _ => Err(ValidationError::WrongTransactionKind),
        },
    }
}

/// A store in memory: the log itself.
pub struct MemStore {
    pub records: Vec<Record>,
}

impl MemStore {
    /// An empty store.
    pub fn new() -> (store: MemStore)
        ensures
            store.log() == Seq::<Record>::empty(),
    {
        MemStore { records: Vec::new() }
    }

    /// The place of the first record with the given identifier.
    fn position(&self, id: TransactionIdentifier) -> (r: Option<usize>)
        ensures
            r matches Some(i) ==> i < self.records@.len() && lookup(self.records@, id) == Some(
                self.records@[i as int],
            ),
            r is None ==> lookup(self.records@, id) is None,
    {
        let mut i: usize = 0;
        assert(self.records@.skip(0) =~= self.records@);
        while i < self.records.len()
            invariant
                i <= self.records@.len(),
                lookup(self.records@, id) == lookup(self.records@.skip(i as int), id),
            decreases self.records@.len() - i,
        {
            proof {
                let rest = self.records@.skip(i as int);
                assert(rest.first() == self.records@[i as int]);
                assert(rest.drop_first() =~= self.records@.skip(i + 1));
            }
            if self.records[i].transaction.id() == id {
                return Some(i);
            }
            i = i + 1;
        }
        assert(self.records@.skip(i as int).len() == 0);
        None
    }
}

impl Default for MemStore {
    fn default() -> (store: MemStore)
        ensures
            store.log() == Seq::<Record>::empty(),
    {
        MemStore::new()
    }
}

impl Store for MemStore {
    open spec fn log(&self) -> Seq<Record> {
        self.records@
    }

    fn get_transaction(&self, id: TransactionIdentifier) -> (r: Option<&Record>) {
        match self.position(id) {
            Some(i) => Some(&self.records[i]),
            None => None,
        }
    }

    fn get_multiple(
        &self,
        election_id: TransactionIdentifier,
        transaction_type: TransactionType,
    ) -> (r: Vec<&Record>) {
        let mut found: Vec<&Record> = Vec::new();
        let mut i: usize = 0;
        assert(self.records@.take(0) =~= Seq::<Record>::empty());
        while i < self.records.len()
            invariant
                i <= self.records@.len(),
                referents(found@) == select(
                    self.records@.take(i as int),
                    election_id,
                    transaction_type,
                ),
            decreases self.records@.len() - i,
        {
            let record = &self.records[i];
            let id = record.transaction.id();
            let ghost before = found@;
            proof {
                let next = self.records@.take(i + 1);
                assert(next.drop_last() =~= self.records@.take(i as int));
                assert(next.last() == self.records@[i as int]);
            }
            let same_election = crate::identifier::bytes_eq(
                id.election_id.as_slice(),
                election_id.election_id.as_slice(),
            );
            proof {
                if same_election {
                    crate::identifier::lemma_array_eq(id.election_id, election_id.election_id);
                }
            }
            if same_election && id.transaction_type == transaction_type {
                found.push(record);
                assert(referents(found@) =~= referents(before).push(*record));
            }
            i = i + 1;
        }
        assert(self.records@.take(i as int) =~= self.records@);
        found
    }

    fn set(&mut self, record: Record) {
        match self.position(record.transaction.id()) {
            Some(_) => {},
            None => {
                self.records.push(record);
            },
        }
    }
}

} // verus!
