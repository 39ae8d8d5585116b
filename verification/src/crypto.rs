//! The cryptographic primitives that validation consumes.
//!
//! Signatures are Ed25519 (`ed25519-dalek`); the threshold ElGamal combiner
//! and its proofs are those of `cryptid`; randomness comes from the operating
//! system through `rand`. Cryptographic values travel through this library
//! as their CBOR encodings, and every contract here is stated over those
//! bytes. The items marked `external_body` are taken on trust; everything
//! else in this file is proved from them.

use vstd::prelude::*;

use crate::error::DecryptFailure;

verus! {

/// An ElGamal ciphertext with its authentication tag, CBOR-encoded.
pub type Ciphertext = Vec<u8>;

/// One trustee's share of a decryption with its proof, CBOR-encoded.
pub type DecryptShare = Vec<u8>;

/// A trustee's share of the joint public key, CBOR-encoded: the commitment
/// that its decryption shares are proved against.
pub type PublicKeyProof = Vec<u8>;

/// The shares that a combiner holds, by party: the key share and the
/// decryption share of each, as their encodings.
pub type Shares = Map<nat, (Seq<u8>, Seq<u8>)>;

/// `rand::RngCore::fill_bytes` of `rand::rngs::OsRng`: fills an array with
/// bytes from the operating system's random source. Nothing is promised of
/// the bytes. The call does not return if the system has no such source.
#[verifier::external_body]
pub(crate) fn random_bytes<const N: usize>() -> (out: [u8; N]) {
    let mut out = [0u8; N];
    rand::RngCore::fill_bytes(&mut rand::rngs::OsRng, &mut out);
    out
}

/// Whether Ed25519 verification accepts `signature` for `message` under
/// `public_key`. Bytes that are no public key, or no signature, are not
/// accepted.
pub uninterp spec fn ed25519_accepts(
    public_key: Seq<u8>,
    message: Seq<u8>,
    signature: Seq<u8>,
) -> bool;

/// `ed25519_dalek::PublicKey::verify`, on a key read by
/// `PublicKey::from_bytes` and a signature read by `Signature::from_bytes`:
/// a function of the three byte strings alone. Bytes that are read as no key
/// or as no signature give `false`.
#[verifier::external_body]
pub(crate) fn ed25519_verify(
    public_key: &[u8; 32],
    message: &[u8],
    signature: &[u8; 64],
) -> (ok: bool)
    ensures
        ok == ed25519_accepts(public_key@, message@, signature@),
{
    let key = ed25519_dalek::PublicKey::from_bytes(public_key);
    let sig = ed25519_dalek::Signature::from_bytes(signature);
    match (key, sig) {
        (Ok(key), Ok(sig)) => ed25519_dalek::Verifier::verify(&key, message, &sig).is_ok(),
        _ => false,
    }
}

#[verifier::external_type_specification]
#[verifier::external_body]
pub struct ExDecryption(cryptid::threshold::Decryption);

/// The shares that have been added to a combiner. A share added for a party
/// that already has one replaces it.
pub uninterp spec fn decryption_shares(d: &cryptid::threshold::Decryption) -> Shares;

/// The threshold and the ciphertext that a combiner was made with.
pub uninterp spec fn decryption_setup(d: &cryptid::threshold::Decryption) -> (nat, Seq<u8>);

/// Whether bytes are the encoding of an authenticated ciphertext.
pub uninterp spec fn ciphertext_decodes(ciphertext: Seq<u8>) -> bool;

/// Whether bytes are the encoding of a curve element, as a key share is.
pub uninterp spec fn key_decodes(key: Seq<u8>) -> bool;

/// Whether bytes are the encoding of a decryption share.
pub uninterp spec fn share_decodes(share: Seq<u8>) -> bool;

/// What the combiner ends with, given its threshold, its ciphertext and its
/// shares: the 32 bytes of the plaintext scalar, or the reason for none.
pub uninterp spec fn threshold_outcome(
    threshold: nat,
    ciphertext: Seq<u8>,
    shares: Shares,
) -> Result<Seq<u8>, DecryptFailure>;

/// A combiner's result with the scalar as its bytes.
pub open spec fn scalar_view(r: Result<[u8; 32], DecryptFailure>) -> Result<
    Seq<u8>,
    DecryptFailure,
> {
    match r {
        Ok(scalar) => Ok(scalar@),
        Err(e) => Err(e),
    }
}

/// How far two party numbers lie apart.
pub open spec fn distance(a: nat, b: nat) -> nat {
    if a >= b {
        (a - b) as nat
    } else {
        (b - a) as nat
    }
}

/// The product of the numbers of all members but `party`: the numerator of
/// that party's Lagrange coefficient, as the combiner computes it.
pub open spec fn product_of_others(members: Seq<nat>, party: nat) -> nat
    decreases members.len(),
{
    if members.len() == 0 {
        1
    } else if members.last() == party {
        product_of_others(members.drop_last(), party)
    } else {
        product_of_others(members.drop_last(), party) * members.last()
    }
}

/// The product of the distances of all other members from `party`: the
/// magnitude of the denominator of that party's Lagrange coefficient.
pub open spec fn product_of_distances(members: Seq<nat>, party: nat) -> nat
    decreases members.len(),
{
    if members.len() == 0 {
        1
    } else if members.last() == party {
        product_of_distances(members.drop_last(), party)
    } else {
        product_of_distances(members.drop_last(), party) * distance(members.last(), party)
    }
}

/// Whether the Lagrange coefficients of these members can be computed in
/// signed 32-bit arithmetic: every member is numbered at least one, and for
/// every member the product of the others' numbers and the product of their
/// distances from it fit.
pub open spec fn coefficients_in_range(members: Seq<nat>) -> bool {
    &&& forall|i: int| 0 <= i < members.len() ==> #[trigger] members[i] >= 1
    &&& forall|i: int|
        0 <= i < members.len() ==> product_of_others(members, #[trigger] members[i])
            <= i32::MAX
    &&& forall|i: int|
        0 <= i < members.len() ==> product_of_distances(members, #[trigger] members[i])
            <= i32::MAX
}

/// Whether the combiner can compute with these parties. `members` lists the
/// parties, each once. The combiner multiplies, for each party, the numbers
/// of the others and their differences from it, in whatever order it walks
/// them; as no factor is zero, no product on the way exceeds the full one.
pub open spec fn quorum_in_range(parties: Set<nat>, members: Seq<nat>) -> bool {
    &&& members.no_duplicates()
    &&& forall|p: nat| parties.contains(p) <==> members.contains(p)
    &&& coefficients_in_range(members)
}

/// The numbers of the parties with the given indices.
pub open spec fn numbers(indices: Seq<u8>) -> Seq<nat> {
    Seq::new(indices.len(), |i: int| indices[i] as nat)
}

/// A product over a part of the members is at most the product over all of
/// them, as every factor is at least one.
pub proof fn lemma_products_grow(members: Seq<nat>, party: nat, upto: int)
    requires
        0 <= upto <= members.len(),
        forall|i: int| 0 <= i < members.len() ==> #[trigger] members[i] >= 1,
    ensures
        1 <= product_of_others(members.take(upto), party) <= product_of_others(members, party),
        1 <= product_of_distances(members.take(upto), party) <= product_of_distances(
            members,
            party,
        ),
    decreases members.len() - upto,
{
    if upto == members.len() {
        assert(members.take(upto) =~= members);
        lemma_products_positive(members, party);
    } else {
        lemma_products_grow(members, party, upto + 1);
        let longer = members.take(upto + 1);
        assert(longer.drop_last() =~= members.take(upto));
        assert(longer.last() == members[upto]);
        lemma_products_positive(members.take(upto), party);
        let others = product_of_others(members.take(upto), party);
        let distances = product_of_distances(members.take(upto), party);
        if members[upto] != party {
            let number = members[upto];
            let apart = distance(members[upto], party);
            assert(others <= others * number) by (nonlinear_arith)
                requires
                    others >= 1,
                    number >= 1,
            ;
            assert(distances <= distances * apart) by (nonlinear_arith)
                requires
                    distances >= 1,
                    apart >= 1,
            ;
        }
    }
}

/// Every product is at least one, as every factor is.
pub proof fn lemma_products_positive(members: Seq<nat>, party: nat)
    requires
        forall|i: int| 0 <= i < members.len() ==> #[trigger] members[i] >= 1,
    ensures
        product_of_others(members, party) >= 1,
        product_of_distances(members, party) >= 1,
    decreases members.len(),
{
    if members.len() > 0 {
        let rest = members.drop_last();
        assert forall|i: int| 0 <= i < rest.len() implies #[trigger] rest[i] >= 1 by {
            assert(rest[i] == members[i]);
        }
        lemma_products_positive(rest, party);
        assert(members.last() == members[members.len() - 1]);
        if members.last() != party {
            let others = product_of_others(rest, party);
            let distances = product_of_distances(rest, party);
            let number = members.last();
            let apart = distance(members.last(), party);
            assert(others * number >= 1) by (nonlinear_arith)
                requires
                    others >= 1,
                    number >= 1,
            ;
            assert(distances * apart >= 1) by (nonlinear_arith)
                requires
                    distances >= 1,
                    apart >= 1,
            ;
        }
    }
}

/// Tells whether the Lagrange coefficients of the parties with these indices
/// can be computed in signed 32-bit arithmetic.
pub fn coefficients_fit(indices: &[u8]) -> (ok: bool)
    ensures
        ok == coefficients_in_range(numbers(indices@)),
{
    let ghost members = numbers(indices@);
    let n: usize = indices.len();
    let mut z: usize = 0;
    while z < n
        invariant
            z <= n,
            n == indices@.len(),
            members == numbers(indices@),
            forall|i: int| 0 <= i < z ==> #[trigger] members[i] >= 1,
        decreases n - z,
    {
        if indices[z] == 0 {
            assert(members[z as int] == 0);
            return false;
        }
        z = z + 1;
    }
    let mut i: usize = 0;
    while i < n
        invariant
            i <= n,
            n == indices@.len(),
            members == numbers(indices@),
            forall|k: int| 0 <= k < n ==> #[trigger] members[k] >= 1,
            forall|k: int|
                0 <= k < i ==> product_of_others(members, #[trigger] members[k]) <= i32::MAX,
            forall|k: int|
                0 <= k < i ==> product_of_distances(members, #[trigger] members[k]) <= i32::MAX,
        decreases n - i,
    {
        let party: u8 = indices[i];
        let mut others: u64 = 1;
        let mut distances: u64 = 1;
        let mut k: usize = 0;
        assert(members.take(0) =~= Seq::<nat>::empty());
        while k < n
            invariant
                k <= n,
                i < n,
                n == indices@.len(),
                members == numbers(indices@),
                party == indices@[i as int],
                forall|m: int| 0 <= m < n ==> #[trigger] members[m] >= 1,
                others == product_of_others(members.take(k as int), party as nat),
                distances == product_of_distances(members.take(k as int), party as nat),
                others <= i32::MAX,
                distances <= i32::MAX,
            decreases n - k,
        {
            let other: u8 = indices[k];
            proof {
                let longer = members.take(k + 1);
                assert(longer.drop_last() =~= members.take(k as int));
                assert(longer.last() == members[k as int]);
                assert(members[k as int] == other as nat);
            }
            if other != party {
                let apart: u8 = if other > party {
                    other - party
                } else {
                    party - other
                };
                assert(apart as nat == distance(other as nat, party as nat));
                assert(others * other <= 0x7fff_ffff * 255) by (nonlinear_arith)
                    requires
                        others <= 0x7fff_ffff,
                        other <= 255,
                ;
                assert(distances * apart <= 0x7fff_ffff * 255) by (nonlinear_arith)
                    requires
                        distances <= 0x7fff_ffff,
                        apart <= 255,
                ;
                others = others * (other as u64);
                distances = distances * (apart as u64);
                if others > 0x7fff_ffff || distances > 0x7fff_ffff {
                    proof {
                        lemma_products_grow(members, party as nat, k + 1);
                        assert(members[i as int] == party as nat);
                    }
                    return false;
                }
            }
            k = k + 1;
        }
        proof {
            assert(members.take(n as int) =~= members);
            assert(members[i as int] == party as nat);
        }
        i = i + 1;
    }
    true
}

/// `cryptid::threshold::Decryption::new`, on a ciphertext read from its
/// encoding by `serde_cbor::from_slice`: `None` where the bytes do not
/// decode, else a combiner with that threshold and ciphertext and no share.
#[verifier::external_body]
pub(crate) fn decryption_new(
    threshold: usize,
    ciphertext: &[u8],
) -> (r: Option<cryptid::threshold::Decryption>)
    ensures
        r is Some <==> ciphertext_decodes(ciphertext@),
        r matches Some(d) ==> decryption_setup(&d) == (threshold as nat, ciphertext@)
            && decryption_shares(&d) == Shares::empty(),
{
    let ct = serde_cbor::from_slice::<cryptid::elgamal::AuthCiphertext>(ciphertext).ok()?;
    let ctx = cryptid::elgamal::CryptoContext::new();
    Some(cryptid::threshold::Decryption::new(threshold, &ctx, &ct))
}

/// `serde_cbor::from_slice`, for a curve element: whether the bytes decode.
#[verifier::external_body]
pub(crate) fn curve_element_decodes(key: &[u8]) -> (ok: bool)
    ensures
        ok == key_decodes(key@),
{
    serde_cbor::from_slice::<cryptid::elgamal::CurveElem>(key).is_ok()
}

/// `cryptid::threshold::Decryption::add_share`, on a key share and a
/// decryption share read from their encodings by `serde_cbor::from_slice`:
/// where both decode, the pair is stored under `party`, in place of what was
/// there; where one does not, nothing changes.
#[verifier::external_body]
pub(crate) fn decryption_add_share(
    d: &mut cryptid::threshold::Decryption,
    party: usize,
    key: &[u8],
    share: &[u8],
) -> (added: bool)
    ensures
        added == (key_decodes(key@) && share_decodes(share@)),
        decryption_setup(final(d)) == decryption_setup(old(d)),
        decryption_shares(final(d)) == if added {
            decryption_shares(old(d)).insert(party as nat, (key@, share@))
        } else {
            decryption_shares(old(d))
        },
{
    let key = serde_cbor::from_slice::<cryptid::elgamal::CurveElem>(key);
    let share = serde_cbor::from_slice::<cryptid::threshold::DecryptShare>(share);
    match (key, share) {
        (Ok(key), Ok(share)) => {
            d.add_share(party, &key, &share);
            true
        },
        _ => false,
    }
}

/// `cryptid::threshold::Threshold::finish` for a combiner: verifies every
/// share, combines them and decodes the plaintext. The result is a function
/// of the threshold, the ciphertext and the shares. The outside error is
/// told apart by its variant. The combiner's integer arithmetic overflows
/// on a quorum out of range, which the `requires` leaves out.
#[verifier::external_body]
pub(crate) fn decryption_finish(
    d: &cryptid::threshold::Decryption,
) -> (r: Result<[u8; 32], DecryptFailure>)
    requires
        exists|members: Seq<nat>| quorum_in_range(decryption_shares(d).dom(), members),
    ensures
        scalar_view(r) == threshold_outcome(
            decryption_setup(d).0,
            decryption_setup(d).1,
            decryption_shares(d),
        ),
{
    match cryptid::threshold::Threshold::finish(d) {
        Ok(scalar) => Ok(scalar.to_bytes()),
        Err(cryptid::CryptoError::KeygenMissing) => Err(DecryptFailure::KeygenMissing),
        Err(cryptid::CryptoError::ShareRejected) => Err(DecryptFailure::ShareRejected),
        Err(cryptid::CryptoError::AuthTagRejected) => Err(DecryptFailure::AuthTagRejected),
        Err(cryptid::CryptoError::Decoding) => Err(DecryptFailure::Decoding),
        Err(_) => Err(DecryptFailure::Other),
    }
}

/// Tells whether bytes are the encoding of an authenticated ciphertext.
pub fn ciphertext_is_well_formed(ciphertext: &[u8]) -> (ok: bool)
    ensures
        ok == ciphertext_decodes(ciphertext@),
{
    decryption_new(0, ciphertext).is_some()
}

/// A share verifies against a key share and a ciphertext when all three
/// decode and a combiner with threshold one, given that share alone, does not
/// reject it. (Such a combiner first checks the share's proof, and fails with
/// `ShareRejected` exactly when the proof does not hold for this key share
/// and this ciphertext. The proof does not depend on the party's number.)
pub open spec fn share_verifies(key: Seq<u8>, share: Seq<u8>, ciphertext: Seq<u8>) -> bool {
    &&& ciphertext_decodes(ciphertext)
    &&& key_decodes(key)
    &&& share_decodes(share)
    &&& threshold_outcome(1, ciphertext, Shares::empty().insert(1, (key, share))) != Err::<
        Seq<u8>,
        DecryptFailure,
    >(DecryptFailure::ShareRejected)
}

/// Checks one trustee's decryption share against its key share and the
/// ciphertext it claims to decrypt.
pub fn verify_partial_decryption(key: &[u8], share: &[u8], ciphertext: &[u8]) -> (ok: bool)
    ensures
        ok == share_verifies(key@, share@, ciphertext@),
{
    match decryption_new(1, ciphertext) {
        None => false,
        Some(mut d) => {
            if !decryption_add_share(&mut d, 1, key, share) {
                return false;
            }
            proof {
                let parties = decryption_shares(&d).dom();
                let members = seq![1nat];
                assert(parties =~= Set::<nat>::empty().insert(1nat));
                assert(members[0] == 1);
                assert(members.drop_last() =~= Seq::<nat>::empty());
                assert(product_of_others(members.drop_last(), 1) == 1);
                assert(product_of_distances(members.drop_last(), 1) == 1);
                assert(product_of_others(members, 1) == 1);
                assert(product_of_distances(members, 1) == 1);
                assert(quorum_in_range(parties, members));
            }
            match decryption_finish(&d) {
                Err(DecryptFailure::ShareRejected) => false,
                _ => true,
            }
        },
    }
}

/// The message that a plaintext scalar stands for. The scalar is the message
/// read as a big-endian number and written as 32 little-endian bytes, so the
/// message is those bytes without the zeros at the end, in reverse.
pub open spec fn spec_plaintext(scalar: Seq<u8>) -> Seq<u8>
    decreases scalar.len(),
{
    if scalar.len() == 0 {
        Seq::empty()
    } else if scalar.last() == 0 {
        spec_plaintext(scalar.drop_last())
    } else {
        scalar.reverse()
    }
}

/// Returns the message that a plaintext scalar stands for.
pub fn plaintext_from_scalar(scalar: &[u8]) -> (message: Vec<u8>)
    ensures
        message@ == spec_plaintext(scalar@),
{
    let mut end: usize = scalar.len();
    assert(scalar@.subrange(0, end as int) =~= scalar@);
    while end > 0 && scalar[end - 1] == 0
        invariant
            end <= scalar@.len(),
            spec_plaintext(scalar@) == spec_plaintext(scalar@.subrange(0, end as int)),
        decreases end,
    {
        proof {
            let s = scalar@.subrange(0, end as int);
            assert(s.drop_last() =~= scalar@.subrange(0, end - 1));
        }
        end = end - 1;
    }
    let ghost kept = scalar@.subrange(0, end as int);
    let mut message: Vec<u8> = Vec::new();
    let mut i: usize = end;
    while i > 0
        invariant
            i <= end <= scalar@.len(),
            kept == scalar@.subrange(0, end as int),
            message@.len() == end - i,
            forall|j: int| 0 <= j < message@.len() ==> message@[j] == kept[end - 1 - j],
        decreases i,
    {
        message.push(scalar[i - 1]);
        i = i - 1;
    }
    proof {
        if end == 0 {
            assert(kept.len() == 0);
            assert(message@ =~= spec_plaintext(kept));
        } else {
            assert(kept.last() != 0);
            assert(message@ =~= kept.reverse());
        }
    }
    message
}

} // verus!
