use cryptoballot::crypto::{ciphertext_is_well_formed, coefficients_fit, plaintext_from_scalar};
use cryptoballot::error::{DecryptFailure, ValidationError};
use cryptoballot::identifier::{array_eq, bytes_eq, TransactionIdentifier, TransactionType};
use cryptoballot::store::{
    get_election, get_keygen_public_key, get_mix, get_partial_decryption, get_vote, MemStore,
    Store,
};
use cryptoballot::transaction::{
    DecryptionTransaction, ElectionTransaction, KeyGenPublicKeyTransaction, MixConfig,
    MixTransaction, PartialDecryptionTransaction, Signable,
    SignedTransaction, Transaction, Trustee, VoteTransaction, VotingEndTransaction,
};
use cryptoballot::vote::ballot_listed;
use cryptoballot::voting_end::has_voting_end;

const ALL_TYPES: [TransactionType; 9] = [
    TransactionType::Election,
    TransactionType::KeyGenCommitment,
    TransactionType::KeyGenShare,
    TransactionType::KeyGenPublicKey,
    TransactionType::Vote,
    TransactionType::VotingEnd,
    TransactionType::Mix,
    TransactionType::PartialDecryption,
    TransactionType::Decryption,
];

fn record(transaction: Transaction) -> SignedTransaction<Transaction> {
    SignedTransaction {
        transaction,
        signature: [0u8; 64],
    }
}

fn an_election(id: TransactionIdentifier) -> ElectionTransaction {
    ElectionTransaction {
        id,
        authority_public: [7u8; 32],
        ballots: vec![[1u8; 16]],
        authenticators: Vec::new(),
        trustees: vec![
            Trustee {
                id: [1u8; 16],
                index: 1,
                public_key: [11u8; 32],
            },
            Trustee {
                id: [2u8; 16],
                index: 2,
                public_key: [12u8; 32],
            },
            Trustee {
                id: [3u8; 16],
                index: 3,
                public_key: [13u8; 32],
            },
        ],
        trustees_threshold: 2,
        mixnet: None,
    }
}

fn a_vote_in(election_id: TransactionIdentifier) -> VoteTransaction {
    VoteTransaction {
        id: TransactionIdentifier::new(election_id, TransactionType::Vote),
        election_id,
        anonymous_key: [9u8; 32],
        ballot_id: [1u8; 16],
        authentication: Vec::new(),
        encrypted_vote: vec![1, 2, 3],
    }
}

#[test]
fn type_bytes_count_from_zero() {
    for (place, kind) in ALL_TYPES.iter().enumerate() {
        assert_eq!(kind.to_byte(), place as u8);
        assert_eq!(TransactionType::from_byte(place as u8), Some(*kind));
    }
    for byte in 9..=255u8 {
        assert_eq!(TransactionType::from_byte(byte), None);
    }
}

#[test]
fn identifier_bytes_are_election_type_unique() {
    let mut election_id = [0u8; 15];
    let mut unique_id = [0u8; 16];
    for i in 0..15 {
        election_id[i] = i as u8 + 1;
    }
    for i in 0..16 {
        unique_id[i] = 0xf0 + i as u8;
    }
    let id = TransactionIdentifier {
        election_id,
        transaction_type: TransactionType::Mix,
        unique_id,
    };
    let bytes = id.to_bytes();
    assert_eq!(&bytes[..15], &election_id);
    assert_eq!(bytes[15], 6);
    assert_eq!(&bytes[16..], &unique_id);
    assert_eq!(TransactionIdentifier::from_bytes(&bytes), Ok(id));
    assert_eq!(
        id.to_string(),
        "0102030405060708090a0b0c0d0e0f06f0f1f2f3f4f5f6f7f8f9fafbfcfdfeff"
    );
}

#[test]
fn identifier_from_bytes_rejects_bad_input() {
    assert_eq!(
        TransactionIdentifier::from_bytes(&[0u8; 31]),
        Err(ValidationError::IdentifierBadComposition)
    );
    assert_eq!(
        TransactionIdentifier::from_bytes(&[0u8; 33]),
        Err(ValidationError::IdentifierBadComposition)
    );
    let mut bytes = [0u8; 32];
    bytes[15] = 200;
    assert_eq!(
        TransactionIdentifier::from_bytes(&bytes),
        Err(ValidationError::UnknownTransactionType)
    );
}

#[test]
fn round_trip_for_every_type() {
    for kind in ALL_TYPES.iter() {
        let election = TransactionIdentifier::new_for_election();
        let id = TransactionIdentifier::new(election, *kind);
        assert_eq!(id.election_id, election.election_id);
        assert_eq!(id.transaction_type, *kind);
        let text = id.to_string();
        assert_eq!(text.len(), 64);
        assert_eq!(text, text.to_lowercase());
        assert_eq!(TransactionIdentifier::from_str(&text), Ok(id));
    }
}

#[test]
fn new_identifiers_differ() {
    let a = TransactionIdentifier::new_for_election();
    let b = TransactionIdentifier::new_for_election();
    assert_eq!(a.transaction_type, TransactionType::Election);
    assert_ne!(a.election_id, b.election_id);
    assert_ne!(a.unique_id, b.unique_id);
    assert_ne!(a.unique_id, [0u8; 16]);
    let c = TransactionIdentifier::new(a, TransactionType::Vote);
    let d = TransactionIdentifier::new(a, TransactionType::Vote);
    assert!(c != d);
    assert!(c == c);
}

#[test]
fn election_identifier_from_its_parts() {
    let id = TransactionIdentifier::for_election([3u8; 15], [4u8; 16]);
    assert_eq!(id.election_id, [3u8; 15]);
    assert_eq!(id.transaction_type, TransactionType::Election);
    assert_eq!(id.unique_id, [4u8; 16]);
    assert_eq!(
        id.to_string(),
        "0303030303030303030303030303030004040404040404040404040404040404"
    );
}

#[test]
fn unique_info_gives_its_first_sixteen_bytes() {
    let election = TransactionIdentifier::new_for_election();
    let mut info = [0u8; 20];
    for i in 0..20 {
        info[i] = i as u8;
    }
    let id = TransactionIdentifier::with_unique_info(election, TransactionType::VotingEnd, &info);
    assert_eq!(id.election_id, election.election_id);
    assert_eq!(id.transaction_type, TransactionType::VotingEnd);
    assert_eq!(&id.unique_id[..], &info[..16]);
}

#[test]
fn partial_decryption_identifier_layout() {
    let election = TransactionIdentifier::new_for_election();
    let mut upstream = TransactionIdentifier::new(election, TransactionType::Vote);
    for i in 0..16 {
        upstream.unique_id[i] = 0xa0 + i as u8;
    }
    let id = PartialDecryptionTransaction::build_id(election, upstream, 3);
    assert_eq!(id.election_id, election.election_id);
    assert_eq!(id.transaction_type, TransactionType::PartialDecryption);
    assert_eq!(
        id.unique_id,
        [4, 0xa0, 0xa1, 0xa2, 0xa3, 0xa4, 0xa5, 0xa6, 0xa7, 0xa8, 0xa9, 0xaa, 0xab, 0xac, 0xad, 3]
    );
    upstream.transaction_type = TransactionType::Mix;
    let id = PartialDecryptionTransaction::build_id(election, upstream, 255);
    assert_eq!(id.unique_id[0], 6);
    assert_eq!(id.unique_id[15], 255);
    let tx = PartialDecryptionTransaction::new(election, upstream, 2, [5u8; 16], 255, [6u8; 32], vec![1]);
    assert_eq!(tx.id, id);
    assert_eq!(tx.upstream_index, 2);
    assert_eq!(tx.public(), Some([6u8; 32]));
    assert_eq!(tx.inputs(), vec![election, upstream]);
    assert_eq!(Signable::id(&tx), id);
}

#[test]
fn decryption_identifier_layout() {
    let election = TransactionIdentifier::new_for_election();
    let vote = TransactionIdentifier::new(election, TransactionType::Vote);
    let tx = DecryptionTransaction::new(election, vote, vec![[1u8; 16]], b"x".to_vec());
    assert_eq!(tx.id.election_id, election.election_id);
    assert_eq!(tx.id.transaction_type, TransactionType::Decryption);
    assert_eq!(&tx.id.unique_id[..], &vote.to_bytes()[..16]);
    assert_eq!(tx.public(), None);
    assert_eq!(tx.inputs(), vec![election, vote]);
}

#[test]
fn byte_comparisons() {
    assert!(bytes_eq(&[], &[]));
    assert!(bytes_eq(&[1, 2], &[1, 2]));
    assert!(!bytes_eq(&[1, 2], &[1, 3]));
    assert!(!bytes_eq(&[1, 2], &[1, 2, 3]));
    assert!(array_eq(&[4u8; 16], &[4u8; 16]));
    let mut other = [4u8; 16];
    other[15] = 5;
    assert!(!array_eq(&[4u8; 16], &other));
}

#[test]
fn plaintext_is_the_scalar_reversed_without_padding() {
    let mut scalar = [0u8; 32];
    scalar[..5].copy_from_slice(b"ecilA");
    assert_eq!(plaintext_from_scalar(&scalar), b"Alice");
    assert_eq!(plaintext_from_scalar(&[0u8; 32]), Vec::<u8>::new());
    assert_eq!(plaintext_from_scalar(&[]), Vec::<u8>::new());
    assert_eq!(plaintext_from_scalar(&[0, 0, 7, 0]), vec![7, 0, 0]);
    assert_eq!(plaintext_from_scalar(&[1, 2, 3]), vec![3, 2, 1]);
}

#[test]
fn coefficients_that_fit_32_bits() {
    assert!(coefficients_fit(&[]));
    assert!(coefficients_fit(&[1]));
    assert!(coefficients_fit(&[255]));
    assert!(coefficients_fit(&[1, 2, 3]));
    // 11! / 1 = 39 916 800 and 12! / 1 = 479 001 600 fit, 13! / 1 does not.
    assert!(coefficients_fit(&[1, 2, 3, 4, 5, 6, 7, 8, 9, 10, 11]));
    assert!(coefficients_fit(&[12, 11, 10, 9, 8, 7, 6, 5, 4, 3, 2, 1]));
    assert!(!coefficients_fit(&[1, 2, 3, 4, 5, 6, 7, 8, 9, 10, 11, 12, 13]));
    // 253 * 254 * 255 = 16 386 810 fits, 252 * 253 * 254 * 255 does not.
    assert!(coefficients_fit(&[252, 253, 254, 255]));
    assert!(!coefficients_fit(&[251, 252, 253, 254, 255]));
    // The distances decide: from 255 they are 254 * 253 * 252 = 16 194 024,
    // which fits, and 254 * 253 * 252 * 251, which does not.
    assert!(coefficients_fit(&[1, 2, 3, 255]));
    assert!(!coefficients_fit(&[1, 2, 3, 4, 255]));
    // No party is numbered zero.
    assert!(!coefficients_fit(&[0]));
    assert!(!coefficients_fit(&[1, 0, 2]));
}

#[test]
fn error_tags_are_stable() {
    let id = TransactionIdentifier::new_for_election();
    let tagged = [
        (ValidationError::IdentifierBadComposition, "identifier_bad_composition"),
        (ValidationError::BadHexEncoding, "bad_hex_encoding"),
        (ValidationError::UnknownTransactionType, "unknown_transaction_type"),
        (ValidationError::TransactionNotFound(id), "transaction_not_found"),
        (ValidationError::WrongTransactionKind, "wrong_transaction_kind"),
        (ValidationError::MissingVotingEndTransaction, "missing_voting_end_transaction"),
        (ValidationError::InvalidUpstreamID, "invalid_upstream_id"),
        (ValidationError::InvalidUpstreamIndex, "invalid_upstream_index"),
        (ValidationError::WrongMixSelected, "wrong_mix_selected"),
        (ValidationError::BadSignature, "bad_signature"),
        (ValidationError::TrusteeDoesNotExist([0u8; 16]), "trustee_does_not_exist"),
        (ValidationError::TrusteePublicKeyMismatch([0u8; 16]), "trustee_public_key_mismatch"),
        (ValidationError::PartialDecryptionProofFailed, "partial_decryption_proof_failed"),
        (ValidationError::ShuffleProofFailed, "shuffle_proof_failed"),
        (ValidationError::AuthenticatorProofFailed, "authenticator_proof_failed"),
        (ValidationError::NotEnoughShares(2, 1), "not_enough_shares"),
        (
            ValidationError::VoteDecryptionFailed(DecryptFailure::Other),
            "vote_decryption_failed",
        ),
        (ValidationError::VoteDecryptionMismatch, "vote_decryption_mismatch"),
    ];
    for (error, tag) in tagged.iter() {
        assert_eq!(error.tag(), *tag);
    }
}

#[test]
fn election_rules() {
    let id = TransactionIdentifier::new_for_election();
    assert!(an_election(id).is_well_formed());

    let mut e = an_election(id);
    e.ballots.clear();
    assert!(!e.is_well_formed());

    let mut e = an_election(id);
    e.trustees.clear();
    assert!(!e.is_well_formed());

    let mut e = an_election(id);
    e.trustees_threshold = 0;
    assert!(!e.is_well_formed());
    e.trustees_threshold = 3;
    assert!(e.is_well_formed());
    e.trustees_threshold = 4;
    assert!(!e.is_well_formed());

    let mut e = an_election(id);
    e.trustees[2].index = 0;
    assert!(!e.is_well_formed());
    e.trustees[2].index = 255;
    assert!(e.is_well_formed());
    e.trustees[2].index = 1;
    assert!(!e.is_well_formed());

    let mut e = an_election(id);
    e.mixnet = Some(MixConfig { num_shuffles: 0 });
    assert!(!e.is_well_formed());
    e.mixnet = Some(MixConfig { num_shuffles: 1 });
    assert!(e.is_well_formed());
}

#[test]
fn trustees_are_found_by_id_and_key() {
    let e = an_election(TransactionIdentifier::new_for_election());
    assert_eq!(e.get_trustee(&[2u8; 16], None).map(|t| t.index), Some(2));
    assert_eq!(
        e.get_trustee(&[2u8; 16], Some(&[12u8; 32])).map(|t| t.index),
        Some(2)
    );
    assert!(e.get_trustee(&[2u8; 16], Some(&[11u8; 32])).is_none());
    assert!(e.get_trustee(&[9u8; 16], None).is_none());
    assert_eq!(e.public(), None);
    assert!(e.inputs().is_empty());
}

#[test]
fn variant_and_type_byte_must_agree() {
    let election_id = TransactionIdentifier::new_for_election();
    let tx = Transaction::Election(an_election(election_id));
    assert_eq!(tx.transaction_type(), TransactionType::Election);
    assert_eq!(tx.id(), election_id);
    assert_eq!(tx.check_kind(), Ok(()));
    let mut wrong = election_id;
    wrong.transaction_type = TransactionType::Vote;
    let tx = Transaction::Election(an_election(wrong));
    assert_eq!(
        tx.check_kind(),
        Err(ValidationError::UnknownTransactionType)
    );
    let vote = Transaction::Vote(a_vote_in(election_id));
    assert_eq!(vote.transaction_type(), TransactionType::Vote);
    assert_eq!(vote.check_kind(), Ok(()));
    assert_eq!(vote.public(), Some([9u8; 32]));
    assert_eq!(vote.inputs(), vec![election_id]);
}

#[test]
fn transactions_unwrap_to_their_own_kind_only() {
    let election_id = TransactionIdentifier::new_for_election();
    let vote_id = TransactionIdentifier::new(election_id, TransactionType::Vote);
    let election: Option<ElectionTransaction> =
        Transaction::Election(an_election(election_id)).into();
    assert_eq!(election.unwrap().id, election_id);
    let no_vote: Option<VoteTransaction> = Transaction::Election(an_election(election_id)).into();
    assert!(no_vote.is_none());
    let no_decryption: Option<DecryptionTransaction> =
        Transaction::Election(an_election(election_id)).into();
    assert!(no_decryption.is_none());
    let vote: Option<VoteTransaction> = Transaction::Vote(a_vote_in(election_id)).into();
    assert!(vote.is_some());
    let no_election: Option<ElectionTransaction> =
        Transaction::Vote(a_vote_in(election_id)).into();
    assert!(no_election.is_none());
    let decryption = DecryptionTransaction::new(election_id, vote_id, Vec::new(), vec![1]);
    let unwrapped: Option<DecryptionTransaction> = Transaction::Decryption(decryption).into();
    assert_eq!(unwrapped.unwrap().decrypted_vote, vec![1]);

    let election = ElectionTransaction::from(Transaction::Election(an_election(election_id)));
    assert_eq!(election.trustees_threshold, 2);
    let vote = VoteTransaction::from(Transaction::Vote(a_vote_in(election_id)));
    assert_eq!(vote.election_id, election_id);
    let decryption = DecryptionTransaction::new(election_id, vote_id, Vec::new(), vec![2]);
    let decryption = DecryptionTransaction::from(Transaction::Decryption(decryption));
    assert_eq!(decryption.vote_id, vote_id);
}

#[test]
fn voting_end_has_a_zero_unique_part() {
    let election_id = TransactionIdentifier::new_for_election();
    let end = VotingEndTransaction::new(election_id);
    assert_eq!(end.id.election_id, election_id.election_id);
    assert_eq!(end.id.transaction_type, TransactionType::VotingEnd);
    assert_eq!(end.id.unique_id, [0u8; 16]);
    assert_eq!(end.public(), None);
    let mut store = MemStore::new();
    assert_eq!(
        end.validate_tx(&store),
        Err(ValidationError::TransactionNotFound(election_id))
    );
    store.set(record(Transaction::Election(an_election(election_id))));
    assert_eq!(end.validate_tx(&store), Ok(()));
    let mut other = VotingEndTransaction::new(election_id);
    other.id.unique_id[15] = 1;
    assert_eq!(
        other.validate_tx(&store),
        Err(ValidationError::IdentifierBadComposition)
    );
    assert!(!has_voting_end(&store, election_id));
    store.set(record(Transaction::VotingEnd(end)));
    assert!(has_voting_end(&store, election_id));
    assert!(!has_voting_end(&store, TransactionIdentifier::new_for_election()));
}

#[test]
fn store_finds_by_identifier_and_kind() {
    let election_id = TransactionIdentifier::new_for_election();
    let vote = a_vote_in(election_id);
    let vote_id = vote.id;
    let mut store = MemStore::default();
    assert!(store.get_transaction(election_id).is_none());
    store.set(record(Transaction::Election(an_election(election_id))));
    store.set(record(Transaction::Vote(vote)));
    assert_eq!(store.get_transaction(election_id).unwrap().transaction.id(), election_id);
    assert_eq!(get_election(&store, election_id).unwrap().id, election_id);
    assert_eq!(get_vote(&store, vote_id).unwrap().id, vote_id);
    assert_eq!(
        get_vote(&store, election_id).err(),
        Some(ValidationError::WrongTransactionKind)
    );
    assert_eq!(
        get_election(&store, vote_id).err(),
        Some(ValidationError::WrongTransactionKind)
    );
    assert_eq!(
        get_mix(&store, vote_id).err(),
        Some(ValidationError::WrongTransactionKind)
    );
    assert_eq!(
        get_keygen_public_key(&store, vote_id).err(),
        Some(ValidationError::WrongTransactionKind)
    );
    assert_eq!(
        get_partial_decryption(&store, vote_id).err(),
        Some(ValidationError::WrongTransactionKind)
    );
    let missing = TransactionIdentifier::new(election_id, TransactionType::Vote);
    assert_eq!(
        get_vote(&store, missing).err(),
        Some(ValidationError::TransactionNotFound(missing))
    );
}

#[test]
fn store_only_grows() {
    let election_id = TransactionIdentifier::new_for_election();
    let mut store = MemStore::new();
    store.set(record(Transaction::Election(an_election(election_id))));
    let mut second = an_election(election_id);
    second.trustees_threshold = 3;
    store.set(record(Transaction::Election(second)));
    assert_eq!(store.records.len(), 1);
    assert_eq!(get_election(&store, election_id).unwrap().trustees_threshold, 2);
}

#[test]
fn store_lists_one_election_and_kind_in_order() {
    let election_id = TransactionIdentifier::new_for_election();
    let other_id = TransactionIdentifier::new_for_election();
    let mut store = MemStore::new();
    store.set(record(Transaction::Election(an_election(election_id))));
    store.set(record(Transaction::Election(an_election(other_id))));
    let mut expected = Vec::new();
    for _ in 0..3 {
        let vote = a_vote_in(election_id);
        expected.push(vote.id);
        store.set(record(Transaction::Vote(vote)));
        store.set(record(Transaction::Vote(a_vote_in(other_id))));
    }
    store.set(record(Transaction::VotingEnd(VotingEndTransaction {
        id: TransactionIdentifier::with_unique_info(election_id, TransactionType::VotingEnd, &[0u8; 16]),
        election_id,
    })));
    let votes = store.get_multiple(election_id, TransactionType::Vote);
    let mut found = Vec::new();
    for v in votes.iter() {
        found.push(v.transaction.id());
    }
    assert_eq!(found, expected);
    assert_eq!(store.get_multiple(election_id, TransactionType::Election).len(), 1);
    assert_eq!(store.get_multiple(election_id, TransactionType::VotingEnd).len(), 1);
    assert_eq!(store.get_multiple(election_id, TransactionType::Mix).len(), 0);
    assert_eq!(store.get_multiple(other_id, TransactionType::Vote).len(), 3);
}

#[test]
fn key_share_is_published_by_a_trustee_under_its_own_identifier() {
    let election_id = TransactionIdentifier::new_for_election();
    let mut store = MemStore::new();
    let element = serde_cbor::to_vec(&cryptid::elgamal::CryptoContext::new().generator()).unwrap();
    let key = |trustee_id: [u8; 16], public_key: [u8; 32]| KeyGenPublicKeyTransaction {
        id: TransactionIdentifier::with_unique_info(
            election_id,
            TransactionType::KeyGenPublicKey,
            &trustee_id,
        ),
        election_id,
        trustee_id,
        trustee_public_key: public_key,
        public_key_proof: element.clone(),
    };
    assert_eq!(
        key([1u8; 16], [11u8; 32]).validate_tx(&store),
        Err(ValidationError::TransactionNotFound(election_id))
    );
    store.set(record(Transaction::Election(an_election(election_id))));
    assert_eq!(key([1u8; 16], [11u8; 32]).validate_tx(&store), Ok(()));
    assert_eq!(key([1u8; 16], [11u8; 32]).id.unique_id, [1u8; 16]);
    assert_eq!(
        key([1u8; 16], [12u8; 32]).validate_tx(&store),
        Err(ValidationError::TrusteeDoesNotExist([1u8; 16]))
    );
    assert_eq!(
        key([8u8; 16], [11u8; 32]).validate_tx(&store),
        Err(ValidationError::TrusteeDoesNotExist([8u8; 16]))
    );
    let mut misnamed = key([1u8; 16], [11u8; 32]);
    misnamed.id = key([2u8; 16], [12u8; 32]).id;
    assert_eq!(
        misnamed.validate_tx(&store),
        Err(ValidationError::IdentifierBadComposition)
    );
    let mut no_element = key([1u8; 16], [11u8; 32]);
    no_element.public_key_proof = vec![1, 2, 3];
    assert_eq!(
        no_element.validate_tx(&store),
        Err(ValidationError::TrusteePublicKeyMismatch([1u8; 16]))
    );
    let mut off_curve = key([1u8; 16], [11u8; 32]);
    let last = off_curve.public_key_proof.len() - 1;
    off_curve.public_key_proof[last] ^= 0x40;
    assert_eq!(
        off_curve.validate_tx(&store),
        Err(ValidationError::TrusteePublicKeyMismatch([1u8; 16]))
    );
    assert_eq!(key([1u8; 16], [11u8; 32]).public(), Some([11u8; 32]));
}

#[test]
fn mix_rules() {
    let election_id = TransactionIdentifier::new_for_election();
    let mut election = an_election(election_id);
    election.mixnet = Some(MixConfig { num_shuffles: 2 });
    let mix = |mix_index: u8| MixTransaction {
        id: MixTransaction::build_id(election_id, mix_index, &[2u8; 16]),
        election_id,
        mix_index,
        trustee_id: [2u8; 16],
        trustee_public_key: [12u8; 32],
        reencryption: Vec::new(),
        proof: Vec::new(),
    };
    let mut unique = [2u8; 16];
    unique[0] = 1;
    assert_eq!(mix(1).id.unique_id, unique);
    assert_eq!(mix(1).id.transaction_type, TransactionType::Mix);
    assert_eq!(mix(1).public(), Some([12u8; 32]));

    let mut store = MemStore::new();
    assert_eq!(
        mix(0).validate_tx(&store, true),
        Err(ValidationError::TransactionNotFound(election_id))
    );
    store.set(record(Transaction::Election(election)));
    assert_eq!(
        mix(0).validate_tx(&store, true),
        Err(ValidationError::MissingVotingEndTransaction)
    );
    store.set(record(Transaction::VotingEnd(VotingEndTransaction::new(election_id))));
    assert_eq!(mix(0).validate_tx(&store, true), Ok(()));
    assert_eq!(mix(1).validate_tx(&store, true), Ok(()));
    assert_eq!(
        mix(2).validate_tx(&store, true),
        Err(ValidationError::WrongMixSelected)
    );
    assert_eq!(
        mix(0).validate_tx(&store, false),
        Err(ValidationError::ShuffleProofFailed)
    );
    let mut stranger = mix(0);
    stranger.trustee_public_key = [13u8; 32];
    assert_eq!(
        stranger.validate_tx(&store, true),
        Err(ValidationError::TrusteeDoesNotExist([2u8; 16]))
    );
    let mut misnamed = mix(0);
    misnamed.id = mix(1).id;
    assert_eq!(
        misnamed.validate_tx(&store, true),
        Err(ValidationError::IdentifierBadComposition)
    );

    // An election without a mix-net has no mix.
    let plain_id = TransactionIdentifier::new_for_election();
    store.set(record(Transaction::Election(an_election(plain_id))));
    store.set(record(Transaction::VotingEnd(VotingEndTransaction::new(plain_id))));
    let mut elsewhere = mix(0);
    elsewhere.election_id = plain_id;
    assert_eq!(
        elsewhere.validate_tx(&store, true),
        Err(ValidationError::WrongMixSelected)
    );
}

#[test]
fn vote_rules() {
    let election_id = TransactionIdentifier::new_for_election();
    let mut ctx = cryptid::elgamal::CryptoContext::new();
    let pair = ctx.gen_elgamal_key_pair().unwrap();
    let r = ctx.random_power().unwrap();
    let ciphertext = pair.pk.encrypt_auth(&ctx, &ctx.generator(), &r);
    let vote = || {
        let mut v = a_vote_in(election_id);
        v.encrypted_vote = serde_cbor::to_vec(&ciphertext).unwrap();
        v
    };
    let mut store = MemStore::new();
    assert_eq!(
        vote().validate_tx(&store, true),
        Err(ValidationError::TransactionNotFound(election_id))
    );
    store.set(record(Transaction::Election(an_election(election_id))));
    assert_eq!(vote().validate_tx(&store, true), Ok(()));
    assert_eq!(
        vote().validate_tx(&store, false),
        Err(ValidationError::AuthenticatorProofFailed)
    );
    let mut other_ballot = vote();
    other_ballot.ballot_id = [2u8; 16];
    assert_eq!(
        other_ballot.validate_tx(&store, true),
        Err(ValidationError::AuthenticatorProofFailed)
    );
    // The vote of the fixture holds bytes that are no ciphertext.
    assert_eq!(
        a_vote_in(election_id).validate_tx(&store, true),
        Err(ValidationError::VoteDecryptionFailed(DecryptFailure::Decoding))
    );
    let mut misplaced = vote();
    misplaced.id = TransactionIdentifier::new(
        TransactionIdentifier::new_for_election(),
        TransactionType::Vote,
    );
    assert_eq!(
        misplaced.validate_tx(&store, true),
        Err(ValidationError::IdentifierBadComposition)
    );
    let mut misnamed = vote();
    misnamed.id.transaction_type = TransactionType::Mix;
    assert_eq!(
        misnamed.validate_tx(&store, true),
        Err(ValidationError::IdentifierBadComposition)
    );
    assert!(ballot_listed(&[[1u8; 16], [2u8; 16]], &[2u8; 16]));
    assert!(!ballot_listed(&[[1u8; 16], [2u8; 16]], &[3u8; 16]));
    assert!(!ballot_listed(&[], &[3u8; 16]));
    assert!(ciphertext_is_well_formed(&vote().encrypted_vote));
    assert!(!ciphertext_is_well_formed(&[1, 2, 3]));
}
