//! The threshold decryption engine and the decryption transaction.
//!
//! A vote is decrypted by combining the shares of a quorum of trustees. The
//! shares are handed to the combiner in the order of the election's roster,
//! whatever order the caller lists them in, so that any two validators of
//! one decryption agree.

use vstd::prelude::*;

use crate::crypto::{
    ciphertext_decodes, coefficients_fit, coefficients_in_range, decryption_add_share,
    decryption_finish, decryption_new, decryption_setup, decryption_shares, key_decodes, numbers,
    plaintext_from_scalar, quorum_in_range, share_decodes, spec_plaintext, threshold_outcome,
    Shares,
};
use crate::election::find_trustee;
use crate::error::{DecryptFailure, ValidationError};
use crate::identifier::{
    array_eq, bytes_eq, PublicKey, TransactionIdentifier, TransactionType, Uuid,
};
use crate::partial_decryption::partial_decryption_id;
use crate::store::{
    get_election, get_partial_decryption, get_vote, referents, select, spec_get_election,
    spec_get_partial_decryption, spec_get_vote, Record, Store,
};
use crate::transaction::{
    DecryptionTransaction, ElectionTransaction, KeyGenPublicKeyTransaction,
    PartialDecryptionTransaction, Signable, Transaction, Trustee,
};
use crate::voting_end::{has_voting_end, voting_ended};

verus! {

/// The last key share in the list that the given trustee published.
pub open spec fn last_key(keys: Seq<KeyGenPublicKeyTransaction>, trustee: Uuid) -> Option<
    KeyGenPublicKeyTransaction,
>
    decreases keys.len(),
{
    if keys.len() == 0 {
        None
    } else if keys.last().trustee_id == trustee {
        Some(keys.last())
    } else {
        last_key(keys.drop_last(), trustee)
    }
}

/// The last partial decryption in the list that the given trustee made.
pub open spec fn last_partial(partials: Seq<PartialDecryptionTransaction>, trustee: Uuid) -> Option<
    PartialDecryptionTransaction,
>
    decreases partials.len(),
{
    if partials.len() == 0 {
        None
    } else if partials.last().trustee_id == trustee {
        Some(partials.last())
    } else {
        last_partial(partials.drop_last(), trustee)
    }
}

/// What a trustee contributes to a decryption: its key share and its
/// decryption share, if the lists hold both.
pub open spec fn share_of(
    trustee: Trustee,
    keys: Seq<KeyGenPublicKeyTransaction>,
    partials: Seq<PartialDecryptionTransaction>,
) -> Option<(Seq<u8>, Seq<u8>)> {
    match (last_partial(partials, trustee.id), last_key(keys, trustee.id)) {
        (Some(partial), Some(key)) => Some((key.public_key_proof@, partial.partial_decryption@)),
        _ => None,
    }
}

/// Whether a contribution, if there is one, decodes.
pub open spec fn contribution_decodes(contribution: Option<(Seq<u8>, Seq<u8>)>) -> bool {
    contribution matches Some(pair) ==> key_decodes(pair.0) && share_decodes(pair.1)
}

/// Whether every contribution of the roster decodes.
pub open spec fn selection_decodes(
    trustees: Seq<Trustee>,
    keys: Seq<KeyGenPublicKeyTransaction>,
    partials: Seq<PartialDecryptionTransaction>,
) -> bool {
    forall|i: int|
        0 <= i < trustees.len() ==> contribution_decodes(
            #[trigger] share_of(trustees[i], keys, partials),
        )
}

/// The shares that the combiner is given: for each trustee of the roster, in
/// roster order, its contribution under its index. A later trustee with the
/// same index replaces an earlier one.
pub open spec fn selected_shares(
    trustees: Seq<Trustee>,
    keys: Seq<KeyGenPublicKeyTransaction>,
    partials: Seq<PartialDecryptionTransaction>,
) -> Shares
    decreases trustees.len(),
{
    if trustees.len() == 0 {
        Shares::empty()
    } else {
        let rest = selected_shares(trustees.drop_last(), keys, partials);
        match share_of(trustees.last(), keys, partials) {
            Some(pair) => rest.insert(trustees.last().index as nat, pair),
            None => rest,
        }
    }
}

/// How many trustees of the roster contribute.
pub open spec fn selection_count(
    trustees: Seq<Trustee>,
    keys: Seq<KeyGenPublicKeyTransaction>,
    partials: Seq<PartialDecryptionTransaction>,
) -> nat
    decreases trustees.len(),
{
    if trustees.len() == 0 {
        0
    } else {
        let rest = selection_count(trustees.drop_last(), keys, partials);
        if share_of(trustees.last(), keys, partials) is Some {
            rest + 1
        } else {
            rest
        }
    }
}

/// The indices under which the trustees of the roster contribute, each once,
/// in the order in which the roster first has them.
pub open spec fn selection_members(
    trustees: Seq<Trustee>,
    keys: Seq<KeyGenPublicKeyTransaction>,
    partials: Seq<PartialDecryptionTransaction>,
) -> Seq<u8>
    decreases trustees.len(),
{
    if trustees.len() == 0 {
        Seq::empty()
    } else {
        let rest = selection_members(trustees.drop_last(), keys, partials);
        if share_of(trustees.last(), keys, partials) is Some && !rest.contains(
            trustees.last().index,
        ) {
            rest.push(trustees.last().index)
        } else {
            rest
        }
    }
}

/// Whether the quorum is one the combiner can compute with: every
/// contributing index is at least one, and for each of them the product of
/// the others and the product of their distances from it fit a signed 32-bit
/// integer.
pub open spec fn selection_in_range(
    trustees: Seq<Trustee>,
    keys: Seq<KeyGenPublicKeyTransaction>,
    partials: Seq<PartialDecryptionTransaction>,
) -> bool {
    coefficients_in_range(numbers(selection_members(trustees, keys, partials)))
}

/// The decrypted vote, or the error that decryption ends with.
///
/// Bytes that do not decode, in the ciphertext or in a contribution, give
/// `Decoding`; fewer contributing trustees than the threshold give
/// `NotEnoughShares`, with the threshold and their number; a quorum out of
/// the combiner's range gives `QuorumOutOfRange`; otherwise the combiner
/// decides, and its plaintext scalar is turned into the message.
pub open spec fn spec_decrypt_vote(
    encrypted_vote: Seq<u8>,
    trustees_threshold: usize,
    trustees: Seq<Trustee>,
    keys: Seq<KeyGenPublicKeyTransaction>,
    partials: Seq<PartialDecryptionTransaction>,
) -> Result<Seq<u8>, ValidationError> {
    if !ciphertext_decodes(encrypted_vote) || !selection_decodes(trustees, keys, partials) {
        Err(ValidationError::VoteDecryptionFailed(DecryptFailure::Decoding))
    } else if selection_count(trustees, keys, partials) < trustees_threshold {
        Err(
            ValidationError::NotEnoughShares(
                trustees_threshold,
                selection_count(trustees, keys, partials) as usize,
            ),
        )
    } else if !selection_in_range(trustees, keys, partials) {
        Err(ValidationError::VoteDecryptionFailed(DecryptFailure::QuorumOutOfRange))
    } else {
        match threshold_outcome(
            trustees_threshold as nat,
            encrypted_vote,
            selected_shares(trustees, keys, partials),
        ) {
            Ok(scalar) => Ok(spec_plaintext(scalar)),
            Err(failure) => Err(ValidationError::VoteDecryptionFailed(failure)),
        }
    }
}

/// Tells whether an index is among the members.
fn is_member(members: &Vec<u8>, index: u8) -> (r: bool)
    ensures
        r == members@.contains(index),
{
    let mut i: usize = 0;
    while i < members.len()
        invariant
            i <= members@.len(),
            forall|k: int| 0 <= k < i ==> members@[k] != index,
        decreases members@.len() - i,
    {
        if members[i] == index {
            return true;
        }
        i = i + 1;
    }
    false
}

/// Whether `members` lists the parties of a combiner, each once.
pub open spec fn lists_parties(parties: Set<nat>, members: Seq<u8>) -> bool {
    &&& members.no_duplicates()
    &&& forall|p: nat| parties.contains(p) <==> numbers(members).contains(p)
}

/// A party that joins a combiner joins its list of members, unless it is
/// listed already.
pub proof fn lemma_party_joins(parties: Set<nat>, members: Seq<u8>, index: u8)
    requires
        lists_parties(parties, members),
    ensures
        members.contains(index) ==> lists_parties(parties.insert(index as nat), members),
        !members.contains(index) ==> lists_parties(
            parties.insert(index as nat),
            members.push(index),
        ),
{
    let old_numbers = numbers(members);
    if members.contains(index) {
        let k = choose|k: int| 0 <= k < members.len() && members[k] == index;
        assert(old_numbers[k] == index as nat);
        assert(old_numbers.contains(index as nat));
    } else {
        let longer = members.push(index);
        let new_numbers = numbers(longer);
        assert forall|p: nat| parties.insert(index as nat).contains(p) <==> new_numbers.contains(
            p,
        ) by {
            if old_numbers.contains(p) {
                let k = choose|k: int| 0 <= k < old_numbers.len() && old_numbers[k] == p;
                assert(new_numbers[k] == p);
            }
            if p == index as nat {
                assert(new_numbers[members.len() as int] == p);
            }
            if new_numbers.contains(p) {
                let k = choose|k: int| 0 <= k < new_numbers.len() && new_numbers[k] == p;
                if k < members.len() {
                    assert(old_numbers[k] == p);
                }
            }
        }
        assert forall|i: int, j: int|
            0 <= i < longer.len() && 0 <= j < longer.len() && i != j implies longer[i]
            != longer[j] by {
            if i < members.len() && j < members.len() {
            } else if i < members.len() {
                assert(members[i] == longer[i]);
            } else {
                assert(members[j] == longer[j]);
            }
        }
    }
}

/// Indices that differ are the numbers of parties that differ.
pub proof fn lemma_numbers_distinct(members: Seq<u8>)
    requires
        members.no_duplicates(),
    ensures
        numbers(members).no_duplicates(),
{
    let all = numbers(members);
    assert forall|i: int, j: int|
        0 <= i < all.len() && 0 <= j < all.len() && i != j implies all[i] != all[j] by {
        assert(members[i] != members[j]);
    }
}

/// Finds the last key share in the list that the given trustee published.
fn find_last_key<'a>(keys: &[&'a KeyGenPublicKeyTransaction], trustee: &Uuid) -> (r: Option<
    &'a KeyGenPublicKeyTransaction,
>)
    ensures
        r matches Some(key) ==> last_key(referents(keys@), *trustee) == Some(*key),
        r is None ==> last_key(referents(keys@), *trustee) is None,
{
    let ghost all = referents(keys@);
    let mut i: usize = keys.len();
    assert(all.take(i as int) =~= all);
    while i > 0
        invariant
            i <= keys@.len(),
            all == referents(keys@),
            last_key(all, *trustee) == last_key(all.take(i as int), *trustee),
        decreases i,
    {
        proof {
            let prefix = all.take(i as int);
            assert(prefix.last() == all[i - 1]);
            assert(prefix.drop_last() =~= all.take(i - 1));
        }
        let key = keys[i - 1];
        if array_eq(&key.trustee_id, trustee) {
            return Some(key);
        }
        i = i - 1;
    }
    assert(all.take(0).len() == 0);
    None
}

/// Finds the last partial decryption in the list that the given trustee made.
fn find_last_partial<'a>(partials: &[&'a PartialDecryptionTransaction], trustee: &Uuid) -> (r:
    Option<&'a PartialDecryptionTransaction>)
    ensures
        r matches Some(partial) ==> last_partial(referents(partials@), *trustee) == Some(
            *partial,
        ),
        r is None ==> last_partial(referents(partials@), *trustee) is None,
{
    let ghost all = referents(partials@);
    let mut i: usize = partials.len();
    assert(all.take(i as int) =~= all);
    while i > 0
        invariant
            i <= partials@.len(),
            all == referents(partials@),
            last_partial(all, *trustee) == last_partial(all.take(i as int), *trustee),
        decreases i,
    {
        proof {
            let prefix = all.take(i as int);
            assert(prefix.last() == all[i - 1]);
            assert(prefix.drop_last() =~= all.take(i - 1));
        }
        let partial = partials[i - 1];
        if array_eq(&partial.trustee_id, trustee) {
            return Some(partial);
        }
        i = i - 1;
    }
    assert(all.take(0).len() == 0);
    None
}

/// Decrypts a vote from key shares and partial decryptions that are held
/// elsewhere. See `decrypt_vote`.
pub fn combine_shares(
    encrypted_vote: &[u8],
    trustees_threshold: usize,
    trustees: &[Trustee],
    keys: &[&KeyGenPublicKeyTransaction],
    partials: &[&PartialDecryptionTransaction],
) -> (r: Result<Vec<u8>, ValidationError>)
    ensures
        r matches Ok(vote) ==> spec_decrypt_vote(
            encrypted_vote@,
            trustees_threshold,
            trustees@,
            referents(keys@),
            referents(partials@),
        ) == Ok::<Seq<u8>, ValidationError>(vote@),
        r matches Err(e) ==> spec_decrypt_vote(
            encrypted_vote@,
            trustees_threshold,
            trustees@,
            referents(keys@),
            referents(partials@),
        ) == Err::<Seq<u8>, ValidationError>(e),
{
    let ghost ks = referents(keys@);
    let ghost ps = referents(partials@);
    let mut d = match decryption_new(trustees_threshold, encrypted_vote) {
        None => {
            return Err(ValidationError::VoteDecryptionFailed(DecryptFailure::Decoding));
        },
        Some(d) => d,
    };
    let mut count: usize = 0;
    let mut members: Vec<u8> = Vec::new();
    let mut i: usize = 0;
    assert(trustees@.take(0) =~= Seq::<Trustee>::empty());
    assert(numbers(members@) =~= Seq::<nat>::empty());
    while i < trustees.len()
        invariant
            i <= trustees@.len(),
            ks == referents(keys@),
            ps == referents(partials@),
            ciphertext_decodes(encrypted_vote@),
            decryption_setup(&d) == (trustees_threshold as nat, encrypted_vote@),
            decryption_shares(&d) == selected_shares(trustees@.take(i as int), ks, ps),
            forall|j: int|
                0 <= j < i ==> contribution_decodes(#[trigger] share_of(trustees@[j], ks, ps)),
            count == selection_count(trustees@.take(i as int), ks, ps),
            members@ == selection_members(trustees@.take(i as int), ks, ps),
            count <= i,
            lists_parties(decryption_shares(&d).dom(), members@),
        decreases trustees@.len() - i,
    {
        let trustee = trustees[i];
        proof {
            let next = trustees@.take(i + 1);
            assert(next.drop_last() =~= trustees@.take(i as int));
            assert(next.last() == trustees@[i as int]);
        }
        match find_last_partial(partials, &trustee.id) {
            None => {},
            Some(partial) => match find_last_key(keys, &trustee.id) {
                None => {},
                Some(key) => {
                    proof {
                        lemma_party_joins(decryption_shares(&d).dom(), members@, trustee.index);
                    }
                    let added = decryption_add_share(
                        &mut d,
                        trustee.index as usize,
                        key.public_key_proof.as_slice(),
                        partial.partial_decryption.as_slice(),
                    );
                    if !added {
                        proof {
                            assert(!contribution_decodes(share_of(trustees@[i as int], ks, ps)));
                        }
                        return Err(
                            ValidationError::VoteDecryptionFailed(DecryptFailure::Decoding),
                        );
                    }
                    count = count + 1;
                    if !is_member(&members, trustee.index) {
                        members.push(trustee.index);
                    }
                },
            },
        }
        i = i + 1;
    }
    assert(trustees@.take(i as int) =~= trustees@);
    if count < trustees_threshold {
        return Err(ValidationError::NotEnoughShares(trustees_threshold, count));
    }
    if !coefficients_fit(members.as_slice()) {
        return Err(ValidationError::VoteDecryptionFailed(DecryptFailure::QuorumOutOfRange));
    }
    proof {
        lemma_numbers_distinct(members@);
        assert(quorum_in_range(decryption_shares(&d).dom(), numbers(members@)));
    }
    match decryption_finish(&d) {
        Err(failure) => Err(ValidationError::VoteDecryptionFailed(failure)),
        Ok(scalar) => Ok(plaintext_from_scalar(scalar.as_slice())),
    }
}

/// Borrows every element of a slice.
fn borrow_all<T>(items: &[T]) -> (refs: Vec<&T>)
    ensures
        referents(refs@) == items@,
{
    let mut refs: Vec<&T> = Vec::new();
    let mut i: usize = 0;
    while i < items.len()
        invariant
            i <= items@.len(),
            refs@.len() == i,
            forall|j: int| 0 <= j < i ==> *refs@[j] == items@[j],
        decreases items@.len() - i,
    {
        refs.push(&items[i]);
        i = i + 1;
    }
    assert(referents(refs@) =~= items@);
    refs
}

/// Decrypts a vote from the partial decryptions of a quorum of trustees.
///
/// Each trustee of the roster that has both a key share among `pubkeys` and a
/// partial decryption among `partials` contributes its share under its index;
/// where a list names a trustee more than once, the last entry counts. The
/// shares are combined with threshold `trustees_threshold`; fewer
/// contributing trustees than that are refused with `NotEnoughShares`.
pub fn decrypt_vote(
    encrypted_vote: &[u8],
    trustees_threshold: usize,
    trustees: &[Trustee],
    pubkeys: &[KeyGenPublicKeyTransaction],
    partials: &[PartialDecryptionTransaction],
) -> (r: Result<Vec<u8>, ValidationError>)
    ensures
        r matches Ok(vote) ==> spec_decrypt_vote(
            encrypted_vote@,
            trustees_threshold,
            trustees@,
            pubkeys@,
            partials@,
        ) == Ok::<Seq<u8>, ValidationError>(vote@),
        r matches Err(e) ==> spec_decrypt_vote(
            encrypted_vote@,
            trustees_threshold,
            trustees@,
            pubkeys@,
            partials@,
        ) == Err::<Seq<u8>, ValidationError>(e),
{
    let keys = borrow_all(pubkeys);
    let shares = borrow_all(partials);
    combine_shares(
        encrypted_vote,
        trustees_threshold,
        trustees,
        keys.as_slice(),
        shares.as_slice(),
    )
}

/// The identifier that the decryption of a vote must carry: its unique part
/// is the first 16 bytes of the vote's identifier.
pub open spec fn decryption_id(
    election_id: TransactionIdentifier,
    vote_id: TransactionIdentifier,
) -> TransactionIdentifier {
    TransactionIdentifier::of_parts(
        election_id.election_id,
        TransactionType::Decryption,
        vote_id.bytes().subrange(0, 16),
    )
}

/// The error of the first among the first `upto` listed trustees that is
/// not on the roster.
pub open spec fn stranger_error(listed: Seq<Uuid>, roster: Seq<Trustee>, upto: int) -> Option<
    ValidationError,
>
    decreases upto,
{
    if upto <= 0 {
        None
    } else {
        match stranger_error(listed, roster, upto - 1) {
            Some(e) => Some(e),
            None => if find_trustee(roster, listed[upto - 1], None) is None {
                Some(ValidationError::TrusteeDoesNotExist(listed[upto - 1]))
            } else {
                None
            },
        }
    }
}

/// The fault of a listing of trustees: the first that is not on the roster
/// gives `TrusteeDoesNotExist`; where all are on the roster, one that is
/// listed twice gives `IdentifierBadComposition`.
pub open spec fn listing_error(listed: Seq<Uuid>, roster: Seq<Trustee>) -> Option<
    ValidationError,
> {
    match stranger_error(listed, roster, listed.len() as int) {
        Some(e) => Some(e),
        None => if !listed.no_duplicates() {
            Some(ValidationError::IdentifierBadComposition)
        } else {
            None
        },
    }
}

/// The identifier of the partial decryption of `vote_id` by the listed
/// trustee `id`, who goes by its index on the roster.
pub open spec fn trustee_partial_id(
    roster: Seq<Trustee>,
    election_id: TransactionIdentifier,
    vote_id: TransactionIdentifier,
    id: Uuid,
) -> TransactionIdentifier {
    partial_decryption_id(election_id, vote_id, find_trustee(roster, id, None).unwrap().index)
}

/// The partial decryptions of the first `upto` listed trustees, in the order
/// of the listing, or the error of the first that the log does not hold.
pub open spec fn gather(
    listed: Seq<Uuid>,
    roster: Seq<Trustee>,
    log: Seq<Record>,
    election_id: TransactionIdentifier,
    vote_id: TransactionIdentifier,
    upto: int,
) -> Result<Seq<PartialDecryptionTransaction>, ValidationError>
    decreases upto,
{
    if upto <= 0 {
        Ok(Seq::empty())
    } else {
        match gather(listed, roster, log, election_id, vote_id, upto - 1) {
            Err(e) => Err(e),
            Ok(found) => match spec_get_partial_decryption(
                log,
                trustee_partial_id(roster, election_id, vote_id, listed[upto - 1]),
            ) {
                Err(e) => Err(e),
                Ok(partial) => Ok(found.push(partial)),
            },
        }
    }
}

/// The key shares among some records, in their order.
pub open spec fn keygen_keys(records: Seq<Record>) -> Seq<KeyGenPublicKeyTransaction>
    decreases records.len(),
{
    if records.len() == 0 {
        Seq::empty()
    } else {
        let rest = keygen_keys(records.drop_last());
        match records.last().transaction {
            Transaction::KeyGenPublicKey(key) => rest.push(key),
            _ => rest,
        }
    }
}

/// A stranger in the listing stays the first however far one reads on.
pub proof fn lemma_stranger_error_stays(
    listed: Seq<Uuid>,
    roster: Seq<Trustee>,
    at: int,
    upto: int,
)
    requires
        at <= upto,
        stranger_error(listed, roster, at) is Some,
    ensures
        stranger_error(listed, roster, upto) == stranger_error(listed, roster, at),
    decreases upto - at,
{
    if at < upto {
        lemma_stranger_error_stays(listed, roster, at, upto - 1);
    }
}

/// A listing without a stranger names only trustees of the roster.
pub proof fn lemma_no_stranger(listed: Seq<Uuid>, roster: Seq<Trustee>, upto: int, i: int)
    requires
        0 <= i < upto,
        stranger_error(listed, roster, upto) is None,
    ensures
        find_trustee(roster, listed[i], None) is Some,
    decreases upto,
{
    if i < upto - 1 {
        lemma_no_stranger(listed, roster, upto - 1, i);
    }
}

/// A missing partial decryption stays the first error however far one reads
/// on.
pub proof fn lemma_gather_error_stays(
    listed: Seq<Uuid>,
    roster: Seq<Trustee>,
    log: Seq<Record>,
    election_id: TransactionIdentifier,
    vote_id: TransactionIdentifier,
    at: int,
    upto: int,
)
    requires
        at <= upto,
        gather(listed, roster, log, election_id, vote_id, at) is Err,
    ensures
        gather(listed, roster, log, election_id, vote_id, upto) == gather(
            listed,
            roster,
            log,
            election_id,
            vote_id,
            at,
        ),
    decreases upto - at,
{
    if at < upto {
        lemma_gather_error_stays(listed, roster, log, election_id, vote_id, at, upto - 1);
    }
}

/// Picks the key shares out of some records.
fn keygen_refs<'a>(records: &[&'a Record]) -> (keys: Vec<&'a KeyGenPublicKeyTransaction>)
    ensures
        referents(keys@) == keygen_keys(referents(records@)),
{
    let ghost all = referents(records@);
    let mut keys: Vec<&'a KeyGenPublicKeyTransaction> = Vec::new();
    let mut i: usize = 0;
    assert(all.take(0) =~= Seq::<Record>::empty());
    assert(referents(keys@) =~= Seq::<KeyGenPublicKeyTransaction>::empty());
    while i < records.len()
        invariant
            i <= records@.len(),
            all == referents(records@),
            referents(keys@) == keygen_keys(all.take(i as int)),
        decreases records@.len() - i,
    {
        proof {
            let next = all.take(i + 1);
            assert(next.drop_last() =~= all.take(i as int));
            assert(next.last() == *records@[i as int]);
        }
        let record = records[i];
        let ghost before = keys@;
        match &record.transaction {
            Transaction::KeyGenPublicKey(key) => {
                keys.push(key);
                assert(referents(keys@) =~= referents(before).push(*key));
            },
            _ => {},
        }
        i = i + 1;
    }
    assert(all.take(i as int) =~= all);
    keys
}

impl DecryptionTransaction {
    /// The decryption of a vote, with the identifier that its fields
    /// determine.
    pub fn new(
        election_id: TransactionIdentifier,
        vote_id: TransactionIdentifier,
        trustees: Vec<Uuid>,
        decrypted_vote: Vec<u8>,
    ) -> (tx: DecryptionTransaction)
        ensures
            tx.id == decryption_id(election_id, vote_id),
            tx.id.election_id == election_id.election_id,
            tx.id.transaction_type == TransactionType::Decryption,
            tx.id.unique_id@ == vote_id.bytes().subrange(0, 16),
            tx.election_id == election_id,
            tx.vote_id == vote_id,
            tx.trustees == trustees,
            tx.decrypted_vote == decrypted_vote,
    {
        let vote_bytes = vote_id.to_bytes();
        DecryptionTransaction {
            id: TransactionIdentifier::with_unique_info(
                election_id,
                TransactionType::Decryption,
                vote_bytes.as_slice(),
            ),
            election_id,
            vote_id,
            trustees,
            decrypted_vote,
        }
    }

    /// The partial decryptions of the listed quorum, or the error that the
    /// quorum is refused with: fewer trustees listed than the threshold
    /// (`NotEnoughShares`), a fault in the listing, or a listed trustee
    /// whose partial decryption of this vote the log does not hold.
    pub open spec fn spec_quorum(
        &self,
        log: Seq<Record>,
        roster: Seq<Trustee>,
        threshold: usize,
    ) -> Result<Seq<PartialDecryptionTransaction>, ValidationError> {
        let listed = self.trustees@;
        if listed.len() < threshold {
            Err(ValidationError::NotEnoughShares(threshold, listed.len() as usize))
        } else {
            match listing_error(listed, roster) {
                Some(e) => Err(e),
                None => gather(
                    listed,
                    roster,
                    log,
                    self.election_id,
                    self.vote_id,
                    listed.len() as int,
                ),
            }
        }
    }

    /// What validation against a log ends with. The checks are made in this
    /// order, and the first that fails gives the error: the election is in
    /// the log; the voting has ended; the vote is in the log; the quorum is
    /// accepted; the shares of the quorum, combined, give the bytes that the
    /// transaction publishes; and, last, the vote belongs to the same
    /// election and the identifier is the one that the fields determine.
    pub open spec fn spec_validate(&self, log: Seq<Record>) -> Result<(), ValidationError> {
        match spec_get_election(log, self.election_id) {
            Err(e) => Err(e),
            Ok(election) => if !voting_ended(log, self.election_id) {
                Err(ValidationError::MissingVotingEndTransaction)
            } else {
                match spec_get_vote(log, self.vote_id) {
                    Err(e) => Err(e),
                    Ok(vote) => match self.spec_quorum(
                        log,
                        election.trustees@,
                        election.trustees_threshold,
                    ) {
                        Err(e) => Err(e),
                        Ok(partials) => match spec_decrypt_vote(
                            vote.encrypted_vote@,
                            election.trustees_threshold,
                            election.trustees@,
                            keygen_keys(
                                select(log, self.election_id, TransactionType::KeyGenPublicKey),
                            ),
                            partials,
                        ) {
                            Err(e) => Err(e),
                            Ok(decrypted) => if decrypted != self.decrypted_vote@ {
                                Err(ValidationError::VoteDecryptionMismatch)
                            } else if self.vote_id.election_id != self.election_id.election_id
                                || self.id != decryption_id(self.election_id, self.vote_id) {
                                Err(ValidationError::IdentifierBadComposition)
                            } else {
                                Ok(())
                            },
                        },
                    },
                }
            },
        }
    }

    /// Checks that every listed trustee is on the roster and listed once.
    fn check_listing(&self, election: &ElectionTransaction) -> (r: Result<(), ValidationError>)
        ensures
            r matches Ok(_) ==> listing_error(self.trustees@, election.trustees@) is None,
            r matches Err(e) ==> listing_error(self.trustees@, election.trustees@) == Some(e),
    {
        let n: usize = self.trustees.len();
        let mut i: usize = 0;
        while i < n
            invariant
                i <= n,
                n == self.trustees@.len(),
                stranger_error(self.trustees@, election.trustees@, i as int) is None,
            decreases n - i,
        {
            let id = self.trustees[i];
            if election.get_trustee(&id, None).is_none() {
                proof {
                    lemma_stranger_error_stays(
                        self.trustees@,
                        election.trustees@,
                        i + 1,
                        n as int,
                    );
                }
                return Err(ValidationError::TrusteeDoesNotExist(id));
            }
            i = i + 1;
        }
        let mut j: usize = 0;
        while j < n
            invariant
                j <= n,
                n == self.trustees@.len(),
                stranger_error(self.trustees@, election.trustees@, n as int) is None,
                forall|a: int, b: int|
                    0 <= a < b < j ==> self.trustees@[a] != self.trustees@[b],
            decreases n - j,
        {
            let mut k: usize = 0;
            while k < j
                invariant
                    k <= j < n,
                    n == self.trustees@.len(),
                    stranger_error(self.trustees@, election.trustees@, n as int) is None,
                    forall|a: int| 0 <= a < k ==> self.trustees@[a] != self.trustees@[j as int],
                decreases j - k,
            {
                if array_eq(&self.trustees[k], &self.trustees[j]) {
                    return Err(ValidationError::IdentifierBadComposition);
                }
                k = k + 1;
            }
            j = j + 1;
        }
        assert(self.trustees@.no_duplicates()) by {
            assert forall|a: int, b: int|
                0 <= a < n && 0 <= b < n && a != b implies self.trustees@[a]
                != self.trustees@[b] by {
                if a < b {
                } else {
                    assert(self.trustees@[b] != self.trustees@[a]);
                }
            }
        }
        Ok(())
    }

    /// Collects the partial decryptions of the listed trustees.
    fn gather_partials<'a, S: Store>(&self, store: &'a S, election: &ElectionTransaction) -> (r:
        Result<Vec<&'a PartialDecryptionTransaction>, ValidationError>)
        requires
            listing_error(self.trustees@, election.trustees@) is None,
        ensures
            r matches Ok(found) ==> gather(
                self.trustees@,
                election.trustees@,
                store.log(),
                self.election_id,
                self.vote_id,
                self.trustees@.len() as int,
            ) == Ok::<Seq<PartialDecryptionTransaction>, ValidationError>(referents(found@)),
            r matches Err(e) ==> gather(
                self.trustees@,
                election.trustees@,
                store.log(),
                self.election_id,
                self.vote_id,
                self.trustees@.len() as int,
            ) == Err::<Seq<PartialDecryptionTransaction>, ValidationError>(e),
    {
        let n: usize = self.trustees.len();
        let mut found: Vec<&'a PartialDecryptionTransaction> = Vec::new();
        let mut i: usize = 0;
        assert(referents(found@) =~= Seq::<PartialDecryptionTransaction>::empty());
        while i < n
            invariant
                i <= n,
                n == self.trustees@.len(),
                stranger_error(self.trustees@, election.trustees@, n as int) is None,
                gather(
                    self.trustees@,
                    election.trustees@,
                    store.log(),
                    self.election_id,
                    self.vote_id,
                    i as int,
                ) == Ok::<Seq<PartialDecryptionTransaction>, ValidationError>(referents(found@)),
            decreases n - i,
        {
            let id = self.trustees[i];
            proof {
                lemma_no_stranger(self.trustees@, election.trustees@, n as int, i as int);
            }
            let index: u8 = match election.get_trustee(&id, None) {
                Some(trustee) => trustee.index,
                None => 0,
            };
            let partial_id = PartialDecryptionTransaction::build_id(
                self.election_id,
                self.vote_id,
                index,
            );
            let ghost before = found@;
            match get_partial_decryption(store, partial_id) {
                Err(e) => {
                    proof {
                        lemma_gather_error_stays(
                            self.trustees@,
                            election.trustees@,
                            store.log(),
                            self.election_id,
                            self.vote_id,
                            i + 1,
                            n as int,
                        );
                    }
                    return Err(e);
                },
                Ok(partial) => {
                    found.push(partial);
                    assert(referents(found@) =~= referents(before).push(*partial));
                },
            }
            i = i + 1;
        }
        Ok(found)
    }

    /// Validates the transaction against the store. The store is read, never
    /// written.
    pub fn validate_tx<S: Store>(&self, store: &S) -> (r: Result<(), ValidationError>)
        ensures
            r == self.spec_validate(store.log()),
    {
        let election = match get_election(store, self.election_id) {
            Err(e) => {
                return Err(e);
            },
            Ok(election) => election,
        };
        if !has_voting_end(store, self.election_id) {
            return Err(ValidationError::MissingVotingEndTransaction);
        }
        let vote = match get_vote(store, self.vote_id) {
            Err(e) => {
                return Err(e);
            },
            Ok(vote) => vote,
        };
        let required: usize = election.trustees_threshold;
        if self.trustees.len() < required {
            return Err(ValidationError::NotEnoughShares(required, self.trustees.len()));
        }
        match self.check_listing(election) {
            Err(e) => {
                return Err(e);
            },
            Ok(_) => {},
        }
        let partials = match self.gather_partials(store, election) {
            Err(e) => {
                return Err(e);
            },
            Ok(partials) => partials,
        };
        let records = store.get_multiple(self.election_id, TransactionType::KeyGenPublicKey);
        let keys = keygen_refs(records.as_slice());
        let decrypted = match combine_shares(
            vote.encrypted_vote.as_slice(),
            required,
            election.trustees.as_slice(),
            keys.as_slice(),
            partials.as_slice(),
        ) {
            Err(e) => {
                return Err(e);
            },
            Ok(decrypted) => decrypted,
        };
        if !bytes_eq(decrypted.as_slice(), self.decrypted_vote.as_slice()) {
            return Err(ValidationError::VoteDecryptionMismatch);
        }
        if !array_eq(&self.vote_id.election_id, &self.election_id.election_id) {
            return Err(ValidationError::IdentifierBadComposition);
        }
        let vote_bytes = self.vote_id.to_bytes();
        let expected = TransactionIdentifier::with_unique_info(
            self.election_id,
            TransactionType::Decryption,
            vote_bytes.as_slice(),
        );
        if expected != self.id {
            return Err(ValidationError::IdentifierBadComposition);
        }
        Ok(())
    }
}

/// A decryption that validates carries the identifier that its fields
/// determine: that of its election and the first 16 bytes of its vote's
/// identifier.
pub proof fn lemma_valid_decryption_id(tx: DecryptionTransaction, log: Seq<Record>)
    requires
        tx.spec_validate(log) is Ok,
    ensures
        tx.vote_id.election_id == tx.election_id.election_id,
        tx.id == decryption_id(tx.election_id, tx.vote_id),
{
}

/// No decryption validates before the voting has ended.
pub proof fn lemma_decryption_needs_voting_end(tx: DecryptionTransaction, log: Seq<Record>)
    requires
        !voting_ended(log, tx.election_id),
    ensures
        tx.spec_validate(log) is Err,
{
}

/// Whether the log holds the partial decryption of the transaction's vote by
/// the listed trustee `id`.
pub open spec fn has_partial(
    tx: DecryptionTransaction,
    log: Seq<Record>,
    roster: Seq<Trustee>,
    id: Uuid,
) -> bool {
    spec_get_partial_decryption(
        log,
        trustee_partial_id(roster, tx.election_id, tx.vote_id, id),
    ) is Ok
}

/// A listing of trustees of the roster has no stranger.
pub proof fn lemma_subset_has_no_stranger(listed: Seq<Uuid>, roster: Seq<Trustee>, upto: int)
    requires
        upto <= listed.len(),
        forall|i: int| 0 <= i < upto ==> find_trustee(roster, #[trigger] listed[i], None) is Some,
    ensures
        stranger_error(listed, roster, upto) is None,
    decreases upto,
{
    if upto > 0 {
        lemma_subset_has_no_stranger(listed, roster, upto - 1);
        assert(find_trustee(roster, listed[upto - 1], None) is Some);
    }
}

/// The partial decryptions are all gathered exactly when the log holds one
/// for each listed trustee.
pub proof fn lemma_gather_succeeds(
    tx: DecryptionTransaction,
    log: Seq<Record>,
    roster: Seq<Trustee>,
    upto: int,
)
    requires
        0 <= upto <= tx.trustees@.len(),
    ensures
        gather(tx.trustees@, roster, log, tx.election_id, tx.vote_id, upto) is Ok <==> forall|
            i: int,
        |
            0 <= i < upto ==> has_partial(tx, log, roster, #[trigger] tx.trustees@[i]),
        gather(tx.trustees@, roster, log, tx.election_id, tx.vote_id, upto) matches Ok(found)
            ==> found.len() == upto,
    decreases upto,
{
    if upto > 0 {
        lemma_gather_succeeds(tx, log, roster, upto - 1);
        if gather(tx.trustees@, roster, log, tx.election_id, tx.vote_id, upto) is Ok {
            assert forall|i: int| 0 <= i < upto implies has_partial(
                tx,
                log,
                roster,
                #[trigger] tx.trustees@[i],
            ) by {
                if i == upto - 1 {
                } else {
                }
            }
        } else {
            if gather(tx.trustees@, roster, log, tx.election_id, tx.vote_id, upto - 1) is Ok {
                assert(!has_partial(tx, log, roster, tx.trustees@[upto - 1]));
            }
        }
    }
}

/// Threshold sufficiency. For a quorum listed from the election's roster
/// without repetition, the quorum is accepted exactly when it has at least
/// as many members as the threshold and the log holds a partial decryption
/// of the vote by every member; the accepted quorum contributes one partial
/// decryption for each member.
pub proof fn lemma_quorum_accepted(
    tx: DecryptionTransaction,
    log: Seq<Record>,
    roster: Seq<Trustee>,
    threshold: usize,
)
    requires
        forall|i: int|
            0 <= i < tx.trustees@.len() ==> find_trustee(
                roster,
                #[trigger] tx.trustees@[i],
                None,
            ) is Some,
        forall|i: int, j: int|
            0 <= i < j < tx.trustees@.len() ==> #[trigger] tx.trustees@[i]
                != #[trigger] tx.trustees@[j],
    ensures
        tx.spec_quorum(log, roster, threshold) is Ok <==> tx.trustees@.len() >= threshold
            && forall|i: int|
            0 <= i < tx.trustees@.len() ==> has_partial(
                tx,
                log,
                roster,
                #[trigger] tx.trustees@[i],
            ),
        tx.spec_quorum(log, roster, threshold) matches Ok(partials) ==> partials.len()
            == tx.trustees@.len(),
{
    lemma_subset_has_no_stranger(tx.trustees@, roster, tx.trustees@.len() as int);
    assert(tx.trustees@.no_duplicates()) by {
        assert forall|i: int, j: int|
            0 <= i < tx.trustees@.len() && 0 <= j < tx.trustees@.len() && i
            != j implies tx.trustees@[i] != tx.trustees@[j] by {
            if i < j {
            } else {
                assert(tx.trustees@[j] != tx.trustees@[i]);
            }
        }
    }
    lemma_gather_succeeds(tx, log, roster, tx.trustees@.len() as int);
}

/// The order in which key shares and partial decryptions are supplied does
/// not matter: two supplies in which every trustee's last key share and last
/// partial decryption are the same decrypt to the same result, because the
/// shares reach the combiner in the order of the roster.
pub proof fn lemma_decryption_follows_roster_order(
    encrypted_vote: Seq<u8>,
    trustees_threshold: usize,
    trustees: Seq<Trustee>,
    keys_a: Seq<KeyGenPublicKeyTransaction>,
    partials_a: Seq<PartialDecryptionTransaction>,
    keys_b: Seq<KeyGenPublicKeyTransaction>,
    partials_b: Seq<PartialDecryptionTransaction>,
)
    requires
        forall|id: Uuid| last_key(keys_a, id) == last_key(keys_b, id),
        forall|id: Uuid| last_partial(partials_a, id) == last_partial(partials_b, id),
    ensures
        spec_decrypt_vote(encrypted_vote, trustees_threshold, trustees, keys_a, partials_a)
            == spec_decrypt_vote(encrypted_vote, trustees_threshold, trustees, keys_b, partials_b),
{
    lemma_same_selection(trustees, keys_a, partials_a, keys_b, partials_b);
    assert forall|i: int| 0 <= i < trustees.len() implies share_of(trustees[i], keys_a, partials_a)
        == share_of(trustees[i], keys_b, partials_b) by {}
    assert(selection_decodes(trustees, keys_a, partials_a) == selection_decodes(
        trustees,
        keys_b,
        partials_b,
    )) by {
        if selection_decodes(trustees, keys_a, partials_a) {
            assert forall|i: int| 0 <= i < trustees.len() implies contribution_decodes(
                #[trigger] share_of(trustees[i], keys_b, partials_b),
            ) by {
                assert(contribution_decodes(share_of(trustees[i], keys_a, partials_a)));
            }
        }
        if selection_decodes(trustees, keys_b, partials_b) {
            assert forall|i: int| 0 <= i < trustees.len() implies contribution_decodes(
                #[trigger] share_of(trustees[i], keys_a, partials_a),
            ) by {
                assert(contribution_decodes(share_of(trustees[i], keys_b, partials_b)));
            }
        }
    }
}

/// Whether a list holds at most one key share of each trustee.
pub open spec fn one_key_per_trustee(keys: Seq<KeyGenPublicKeyTransaction>) -> bool {
    forall|i: int, j: int|
        0 <= i < j < keys.len() ==> (#[trigger] keys[i]).trustee_id != (
        #[trigger] keys[j]).trustee_id
}

/// Whether a list holds at most one partial decryption of each trustee.
pub open spec fn one_partial_per_trustee(partials: Seq<PartialDecryptionTransaction>) -> bool {
    forall|i: int, j: int|
        0 <= i < j < partials.len() ==> (#[trigger] partials[i]).trustee_id != (
        #[trigger] partials[j]).trustee_id
}

/// The key share found for a trustee is one of the list and is that
/// trustee's; none is found only where the list holds none of that trustee.
pub proof fn lemma_last_key(keys: Seq<KeyGenPublicKeyTransaction>, trustee: Uuid)
    ensures
        last_key(keys, trustee) matches Some(key) ==> keys.contains(key) && key.trustee_id
            == trustee,
        last_key(keys, trustee) is None ==> forall|i: int|
            0 <= i < keys.len() ==> (#[trigger] keys[i]).trustee_id != trustee,
    decreases keys.len(),
{
    if keys.len() > 0 {
        let rest = keys.drop_last();
        lemma_last_key(rest, trustee);
        if keys.last().trustee_id == trustee {
            assert(keys[keys.len() - 1] == keys.last());
        } else {
            if let Some(key) = last_key(rest, trustee) {
                let k = choose|k: int| 0 <= k < rest.len() && rest[k] == key;
                assert(keys[k] == key);
            } else {
                assert forall|i: int| 0 <= i < keys.len() implies (
                #[trigger] keys[i]).trustee_id != trustee by {
                    if i < keys.len() - 1 {
                        assert(rest[i] == keys[i]);
                    }
                }
            }
        }
    }
}

/// The partial decryption found for a trustee is one of the list and is that
/// trustee's; none is found only where the list holds none of that trustee.
pub proof fn lemma_last_partial(partials: Seq<PartialDecryptionTransaction>, trustee: Uuid)
    ensures
        last_partial(partials, trustee) matches Some(partial) ==> partials.contains(partial)
            && partial.trustee_id == trustee,
        last_partial(partials, trustee) is None ==> forall|i: int|
            0 <= i < partials.len() ==> (#[trigger] partials[i]).trustee_id != trustee,
    decreases partials.len(),
{
    if partials.len() > 0 {
        let rest = partials.drop_last();
        lemma_last_partial(rest, trustee);
        if partials.last().trustee_id == trustee {
            assert(partials[partials.len() - 1] == partials.last());
        } else {
            if let Some(partial) = last_partial(rest, trustee) {
                let k = choose|k: int| 0 <= k < rest.len() && rest[k] == partial;
                assert(partials[k] == partial);
            } else {
                assert forall|i: int| 0 <= i < partials.len() implies (
                #[trigger] partials[i]).trustee_id != trustee by {
                    if i < partials.len() - 1 {
                        assert(rest[i] == partials[i]);
                    }
                }
            }
        }
    }
}

/// Order independence of the supply. Two lists of key shares with the same
/// members, and two lists of partial decryptions with the same members, each
/// with at most one entry for a trustee, decrypt to the same result in
/// whatever order they are listed.
pub proof fn lemma_supply_order_is_irrelevant(
    encrypted_vote: Seq<u8>,
    trustees_threshold: usize,
    trustees: Seq<Trustee>,
    keys_a: Seq<KeyGenPublicKeyTransaction>,
    partials_a: Seq<PartialDecryptionTransaction>,
    keys_b: Seq<KeyGenPublicKeyTransaction>,
    partials_b: Seq<PartialDecryptionTransaction>,
)
    requires
        forall|key: KeyGenPublicKeyTransaction| keys_a.contains(key) <==> keys_b.contains(key),
        forall|partial: PartialDecryptionTransaction|
            partials_a.contains(partial) <==> partials_b.contains(partial),
        one_key_per_trustee(keys_a),
        one_key_per_trustee(keys_b),
        one_partial_per_trustee(partials_a),
        one_partial_per_trustee(partials_b),
    ensures
        spec_decrypt_vote(encrypted_vote, trustees_threshold, trustees, keys_a, partials_a)
            == spec_decrypt_vote(encrypted_vote, trustees_threshold, trustees, keys_b, partials_b),
{
    assert forall|id: Uuid| last_key(keys_a, id) == last_key(keys_b, id) by {
        lemma_last_key(keys_a, id);
        lemma_last_key(keys_b, id);
        match (last_key(keys_a, id), last_key(keys_b, id)) {
            (Some(x), Some(y)) => {
                assert(keys_b.contains(x));
                let i = choose|i: int| 0 <= i < keys_b.len() && keys_b[i] == x;
                let j = choose|j: int| 0 <= j < keys_b.len() && keys_b[j] == y;
                if i < j {
                    assert(keys_b[i].trustee_id != keys_b[j].trustee_id);
                }
                if j < i {
                    assert(keys_b[j].trustee_id != keys_b[i].trustee_id);
                }
            },
            (Some(x), None) => {
                assert(keys_b.contains(x));
                let i = choose|i: int| 0 <= i < keys_b.len() && keys_b[i] == x;
                assert(keys_b[i].trustee_id != id);
            },
            (None, Some(y)) => {
                assert(keys_a.contains(y));
                let i = choose|i: int| 0 <= i < keys_a.len() && keys_a[i] == y;
                assert(keys_a[i].trustee_id != id);
            },
            (None, None) => {},
        }
    }
    lemma_last_partial_of_same_members(partials_a, partials_b);
    lemma_decryption_follows_roster_order(
        encrypted_vote,
        trustees_threshold,
        trustees,
        keys_a,
        partials_a,
        keys_b,
        partials_b,
    );
}

/// Supplies that agree on every trustee's last key share and last partial
/// decryption select the same shares.
pub proof fn lemma_same_selection(
    trustees: Seq<Trustee>,
    keys_a: Seq<KeyGenPublicKeyTransaction>,
    partials_a: Seq<PartialDecryptionTransaction>,
    keys_b: Seq<KeyGenPublicKeyTransaction>,
    partials_b: Seq<PartialDecryptionTransaction>,
)
    requires
        forall|id: Uuid| last_key(keys_a, id) == last_key(keys_b, id),
        forall|id: Uuid| last_partial(partials_a, id) == last_partial(partials_b, id),
    ensures
        selected_shares(trustees, keys_a, partials_a) == selected_shares(
            trustees,
            keys_b,
            partials_b,
        ),
        selection_count(trustees, keys_a, partials_a) == selection_count(
            trustees,
            keys_b,
            partials_b,
        ),
        selection_members(trustees, keys_a, partials_a) == selection_members(
            trustees,
            keys_b,
            partials_b,
        ),
    decreases trustees.len(),
{
    if trustees.len() > 0 {
        lemma_same_selection(trustees.drop_last(), keys_a, partials_a, keys_b, partials_b);
        assert(share_of(trustees.last(), keys_a, partials_a) == share_of(
            trustees.last(),
            keys_b,
            partials_b,
        ));
    }
}

/// What was gathered is, place by place, the partial decryption that the
/// log holds for the trustee listed there.
pub proof fn lemma_gathered(
    listed: Seq<Uuid>,
    roster: Seq<Trustee>,
    log: Seq<Record>,
    election_id: TransactionIdentifier,
    vote_id: TransactionIdentifier,
    upto: int,
)
    requires
        0 <= upto,
        gather(listed, roster, log, election_id, vote_id, upto) is Ok,
    ensures
        gather(listed, roster, log, election_id, vote_id, upto)->Ok_0.len() == upto,
        forall|i: int|
            0 <= i < upto ==> spec_get_partial_decryption(
                log,
                trustee_partial_id(roster, election_id, vote_id, listed[i]),
            ) == Ok::<PartialDecryptionTransaction, ValidationError>(
                #[trigger] gather(listed, roster, log, election_id, vote_id, upto)->Ok_0[i],
            ),
    decreases upto,
{
    if upto > 0 {
        lemma_gathered(listed, roster, log, election_id, vote_id, upto - 1);
        let before = gather(listed, roster, log, election_id, vote_id, upto - 1)->Ok_0;
        let found = gather(listed, roster, log, election_id, vote_id, upto)->Ok_0;
        assert forall|i: int| 0 <= i < upto implies spec_get_partial_decryption(
            log,
            trustee_partial_id(roster, election_id, vote_id, listed[i]),
        ) == Ok::<PartialDecryptionTransaction, ValidationError>(#[trigger] found[i]) by {
            if i < upto - 1 {
                assert(found[i] == before[i]);
            }
        }
    }
}

/// Whether every partial decryption that the log holds under the identifier
/// of a listed trustee names that trustee.
pub open spec fn partials_name_their_trustees(
    tx: DecryptionTransaction,
    log: Seq<Record>,
    roster: Seq<Trustee>,
) -> bool {
    forall|i: int|
        0 <= i < tx.trustees@.len() ==> (spec_get_partial_decryption(
            log,
            trustee_partial_id(roster, tx.election_id, tx.vote_id, #[trigger] tx.trustees@[i]),
        ) matches Ok(partial) ==> partial.trustee_id == tx.trustees@[i])
}

/// Order independence of the listing. Two decryptions of one vote that list
/// the same trustees in whatever order, and that both validate against one
/// log, publish the same bytes, provided the partial decryptions in the log
/// name the trustees under whose identifiers they stand.
pub proof fn lemma_listing_order_is_irrelevant(
    a: DecryptionTransaction,
    b: DecryptionTransaction,
    log: Seq<Record>,
)
    requires
        a.election_id == b.election_id,
        a.vote_id == b.vote_id,
        forall|id: Uuid| a.trustees@.contains(id) <==> b.trustees@.contains(id),
        a.spec_validate(log) is Ok,
        b.spec_validate(log) is Ok,
        partials_name_their_trustees(a, log, spec_get_election(log, a.election_id)->Ok_0.trustees@),
    ensures
        a.decrypted_vote@ == b.decrypted_vote@,
{
    let election = spec_get_election(log, a.election_id)->Ok_0;
    let roster = election.trustees@;
    let threshold = election.trustees_threshold;
    let vote = spec_get_vote(log, a.vote_id)->Ok_0;
    let keys = keygen_keys(select(log, a.election_id, TransactionType::KeyGenPublicKey));
    let shares_a = a.spec_quorum(log, roster, threshold)->Ok_0;
    let shares_b = b.spec_quorum(log, roster, threshold)->Ok_0;
    let n = a.trustees@.len() as int;
    let m = b.trustees@.len() as int;
    lemma_gathered(a.trustees@, roster, log, a.election_id, a.vote_id, n);
    lemma_gathered(b.trustees@, roster, log, b.election_id, b.vote_id, m);
    assert(a.trustees@.no_duplicates());
    assert(b.trustees@.no_duplicates());
    // Each gathered share names the trustee listed at its place.
    assert forall|i: int| 0 <= i < n implies (#[trigger] shares_a[i]).trustee_id
        == a.trustees@[i] by {
        assert(spec_get_partial_decryption(
            log,
            trustee_partial_id(roster, a.election_id, a.vote_id, a.trustees@[i]),
        ) == Ok::<PartialDecryptionTransaction, ValidationError>(shares_a[i]));
    }
    assert forall|j: int| 0 <= j < m implies (#[trigger] shares_b[j]).trustee_id
        == b.trustees@[j] && shares_a.contains(shares_b[j]) by {
        assert(a.trustees@.contains(b.trustees@[j]));
        let i = choose|i: int| 0 <= i < n && a.trustees@[i] == b.trustees@[j];
        assert(spec_get_partial_decryption(
            log,
            trustee_partial_id(roster, a.election_id, a.vote_id, a.trustees@[i]),
        ) == Ok::<PartialDecryptionTransaction, ValidationError>(shares_a[i]));
        assert(spec_get_partial_decryption(
            log,
            trustee_partial_id(roster, b.election_id, b.vote_id, b.trustees@[j]),
        ) == Ok::<PartialDecryptionTransaction, ValidationError>(shares_b[j]));
        assert(shares_b[j] == shares_a[i]);
    }
    assert forall|i: int| 0 <= i < n implies shares_b.contains(#[trigger] shares_a[i]) by {
        assert(b.trustees@.contains(a.trustees@[i]));
        let j = choose|j: int| 0 <= j < m && b.trustees@[j] == a.trustees@[i];
        assert(spec_get_partial_decryption(
            log,
            trustee_partial_id(roster, a.election_id, a.vote_id, a.trustees@[i]),
        ) == Ok::<PartialDecryptionTransaction, ValidationError>(shares_a[i]));
        assert(spec_get_partial_decryption(
            log,
            trustee_partial_id(roster, b.election_id, b.vote_id, b.trustees@[j]),
        ) == Ok::<PartialDecryptionTransaction, ValidationError>(shares_b[j]));
        assert(shares_b[j] == shares_a[i]);
    }
    assert forall|partial: PartialDecryptionTransaction|
        shares_a.contains(partial) <==> shares_b.contains(partial) by {
        if shares_a.contains(partial) {
            let i = choose|i: int| 0 <= i < shares_a.len() && shares_a[i] == partial;
            assert(shares_b.contains(shares_a[i]));
        }
        if shares_b.contains(partial) {
            let j = choose|j: int| 0 <= j < shares_b.len() && shares_b[j] == partial;
            assert(shares_a.contains(shares_b[j]));
        }
    }
    assert(one_partial_per_trustee(shares_a)) by {
        assert forall|i: int, j: int| 0 <= i < j < shares_a.len() implies (
        #[trigger] shares_a[i]).trustee_id != (#[trigger] shares_a[j]).trustee_id by {
            assert(a.trustees@[i] != a.trustees@[j]);
        }
    }
    assert(one_partial_per_trustee(shares_b)) by {
        assert forall|i: int, j: int| 0 <= i < j < shares_b.len() implies (
        #[trigger] shares_b[i]).trustee_id != (#[trigger] shares_b[j]).trustee_id by {
            assert(b.trustees@[i] != b.trustees@[j]);
        }
    }
    lemma_last_partial_of_same_members(shares_a, shares_b);
    lemma_decryption_follows_roster_order(
        vote.encrypted_vote@,
        threshold,
        roster,
        keys,
        shares_a,
        keys,
        shares_b,
    );
}

/// Two lists of partial decryptions with the same members, each with at most
/// one of a trustee, find the same partial decryption for every trustee.
pub proof fn lemma_last_partial_of_same_members(
    partials_a: Seq<PartialDecryptionTransaction>,
    partials_b: Seq<PartialDecryptionTransaction>,
)
    requires
        forall|partial: PartialDecryptionTransaction|
            partials_a.contains(partial) <==> partials_b.contains(partial),
        one_partial_per_trustee(partials_a),
        one_partial_per_trustee(partials_b),
    ensures
        forall|id: Uuid| last_partial(partials_a, id) == last_partial(partials_b, id),
{
    assert forall|id: Uuid| last_partial(partials_a, id) == last_partial(partials_b, id) by {
        lemma_last_partial(partials_a, id);
        lemma_last_partial(partials_b, id);
        match (last_partial(partials_a, id), last_partial(partials_b, id)) {
            (Some(x), Some(y)) => {
                assert(partials_b.contains(x));
                let i = choose|i: int| 0 <= i < partials_b.len() && partials_b[i] == x;
                let j = choose|j: int| 0 <= j < partials_b.len() && partials_b[j] == y;
                if i < j {
                    assert(partials_b[i].trustee_id != partials_b[j].trustee_id);
                }
                if j < i {
                    assert(partials_b[j].trustee_id != partials_b[i].trustee_id);
                }
            },
            (Some(x), None) => {
                assert(partials_b.contains(x));
                let i = choose|i: int| 0 <= i < partials_b.len() && partials_b[i] == x;
                assert(partials_b[i].trustee_id != id);
            },
            (None, Some(y)) => {
                assert(partials_a.contains(y));
                let i = choose|i: int| 0 <= i < partials_a.len() && partials_a[i] == y;
                assert(partials_a[i].trustee_id != id);
            },
            (None, None) => {},
        }
    }
}

impl Signable for DecryptionTransaction {
    open spec fn spec_id(&self) -> TransactionIdentifier {
        self.id
    }

    open spec fn spec_public(&self) -> Option<PublicKey> {
        None
    }

    open spec fn spec_inputs(&self) -> Seq<TransactionIdentifier> {
        seq![self.election_id, self.vote_id]
    }

    fn id(&self) -> (id: TransactionIdentifier) {
        self.id
    }

    fn public(&self) -> (key: Option<PublicKey>) {
        None
    }

    fn inputs(&self) -> (ids: Vec<TransactionIdentifier>) {
        let mut ids: Vec<TransactionIdentifier> = Vec::new();
        ids.push(self.election_id);
        ids.push(self.vote_id);
        assert(ids@ =~= seq![self.election_id, self.vote_id]);
        ids
    }
}

} // verus!
