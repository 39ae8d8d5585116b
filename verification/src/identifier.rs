//! Transaction identifiers.
//!
//! An identifier is 32 bytes: 15 bytes that name the election, one byte for
//! the kind of transaction, and 16 bytes that are unique within that election
//! and kind. On the wire it is written as 64 hexadecimal digits.

use vstd::prelude::*;

use crate::crypto::random_bytes;
use crate::error::ValidationError;
use crate::hex_codec::{
    hex_decode, hex_encode, is_hex, lemma_hex_round_trip, spec_hex_decode, spec_hex_encode,
};

verus! {

/// The 16 bytes of a UUID, as trustees and ballots are named.
pub type Uuid = [u8; 16];

/// The 32 bytes of an Ed25519 public key.
pub type PublicKey = [u8; 32];

/// The kind of a transaction. Its position in this list, counted from zero,
/// is the byte that stands for it in an identifier.
#[derive(Clone, Copy, Debug, PartialEq, Eq, Structural)]
pub enum TransactionType {
    Election,
    KeyGenCommitment,
    KeyGenShare,
    KeyGenPublicKey,
    Vote,
    VotingEnd,
    Mix,
    PartialDecryption,
    Decryption,
}

impl TransactionType {
    /// The byte that stands for this kind.
    pub open spec fn byte(self) -> u8 {
        match self {
            TransactionType::Election => 0,
            TransactionType::KeyGenCommitment => 1,
            TransactionType::KeyGenShare => 2,
            TransactionType::KeyGenPublicKey => 3,
            TransactionType::Vote => 4,
            TransactionType::VotingEnd => 5,
            TransactionType::Mix => 6,
            TransactionType::PartialDecryption => 7,
            TransactionType::Decryption => 8,
        }
    }

    /// The kind that a byte stands for, if any.
    pub open spec fn of_byte(b: u8) -> Option<TransactionType> {
        if b == 0 {
            Some(TransactionType::Election)
        } else if b == 1 {
            Some(TransactionType::KeyGenCommitment)
        } else if b == 2 {
            Some(TransactionType::KeyGenShare)
        } else if b == 3 {
            Some(TransactionType::KeyGenPublicKey)
        } else if b == 4 {
            Some(TransactionType::Vote)
        } else if b == 5 {
            Some(TransactionType::VotingEnd)
        } else if b == 6 {
            Some(TransactionType::Mix)
        } else if b == 7 {
            Some(TransactionType::PartialDecryption)
        } else if b == 8 {
            Some(TransactionType::Decryption)
        } else {
            None
        }
    }

    /// Returns the byte that stands for this kind.
    pub fn to_byte(self) -> (b: u8)
        ensures
            b == self.byte(),
    {
        match self {
            TransactionType::Election => 0,
            TransactionType::KeyGenCommitment => 1,
            TransactionType::KeyGenShare => 2,
            TransactionType::KeyGenPublicKey => 3,
            TransactionType::Vote => 4,
            TransactionType::VotingEnd => 5,
            TransactionType::Mix => 6,
            TransactionType::PartialDecryption => 7,
            TransactionType::Decryption => 8,
        }
    }

    /// Reads a kind from its byte; `None` for a byte that stands for no kind.
    pub fn from_byte(b: u8) -> (r: Option<TransactionType>)
        ensures
            r == TransactionType::of_byte(b),
    {
        match b {
            0 => Some(TransactionType::Election),
            1 => Some(TransactionType::KeyGenCommitment),
            2 => Some(TransactionType::KeyGenShare),
            3 => Some(TransactionType::KeyGenPublicKey),
            4 => Some(TransactionType::Vote),
            5 => Some(TransactionType::VotingEnd),
            6 => Some(TransactionType::Mix),
            7 => Some(TransactionType::PartialDecryption),
            8 => Some(TransactionType::Decryption),
            _ => None,
        }
    }

    /// A kind is read back from its own byte.
    pub proof fn lemma_kind_of_own_byte(t: TransactionType)
        ensures
            TransactionType::of_byte(t.byte()) == Some(t),
    {
    }

    /// A byte that stands for a kind is that kind's byte.
    pub proof fn lemma_byte_of_kind(b: u8)
        ensures
            TransactionType::of_byte(b) matches Some(k) ==> k.byte() == b,
    {
    }
}

/// Names a transaction and places it in its election.
#[derive(Clone, Copy, Debug)]
pub struct TransactionIdentifier {
    pub election_id: [u8; 15],
    pub transaction_type: TransactionType,
    pub unique_id: [u8; 16],
}

/// Two arrays that hold the same bytes are the same array.
pub proof fn lemma_array_eq<const N: usize>(a: [u8; N], b: [u8; N])
    requires
        a@ == b@,
    ensures
        a == b,
{
    assert forall|i: int| 0 <= i < N implies a[i] == b[i] by {
        assert(a@[i] == b@[i]);
    }
    assert(a =~= b);
}

/// Compares two byte strings.
pub fn bytes_eq(a: &[u8], b: &[u8]) -> (r: bool)
    ensures
        r == (a@ == b@),
{
    if a.len() != b.len() {
        return false;
    }
    let mut i: usize = 0;
    while i < a.len()
        invariant
            a@.len() == b@.len(),
            i <= a@.len(),
            forall|j: int| 0 <= j < i ==> a@[j] == b@[j],
        decreases a@.len() - i,
    {
        if a[i] != b[i] {
            return false;
        }
        i = i + 1;
    }
    assert(a@ =~= b@);
    true
}

/// Compares two arrays of bytes.
pub fn array_eq<const N: usize>(a: &[u8; N], b: &[u8; N]) -> (r: bool)
    ensures
        r == (*a == *b),
{
    let r = bytes_eq(a.as_slice(), b.as_slice());
    proof {
        if r {
            lemma_array_eq(*a, *b);
        }
    }
    r
}

/// Copies `N` bytes of `src`, starting at `start`, into an array.
pub fn array_from_slice<const N: usize>(src: &[u8], start: usize) -> (out: [u8; N])
    requires
        start + N <= src@.len(),
    ensures
        out@ == src@.subrange(start as int, start + N),
{
    let len: usize = src.len();
    let mut out: [u8; N] = [0u8; N];
    let mut i: usize = 0;
    while i < N
        invariant
            start + N <= src@.len(),
            len == src@.len(),
            i <= N,
            out@.len() == N,
            forall|j: int| 0 <= j < i ==> out@[j] == src@[start + j],
        decreases N - i,
    {
        out[i] = src[start + i];
        i = i + 1;
    }
    assert(out@ =~= src@.subrange(start as int, start + N));
    out
}

impl TransactionIdentifier {
    /// The 32 bytes of the identifier: election, kind, unique part.
    pub open spec fn bytes(self) -> Seq<u8> {
        self.election_id@ + seq![self.transaction_type.byte()] + self.unique_id@
    }

    /// The identifier as it is written: 64 lower-case hexadecimal digits.
    pub open spec fn rendered(self) -> Seq<char> {
        spec_hex_encode(self.bytes())
    }

    /// Text that names an identifier: 64 hexadecimal digits whose sixteenth
    /// byte stands for a kind of transaction.
    pub open spec fn parses(s: Seq<char>) -> bool {
        &&& is_hex(s)
        &&& s.len() == 64
        &&& TransactionType::of_byte(spec_hex_decode(s)[15]) is Some
    }

    /// The identifier that text names, if it names one.
    pub open spec fn parsed(s: Seq<char>) -> Option<TransactionIdentifier> {
        if Self::parses(s) {
            Some(choose|id: TransactionIdentifier| id.bytes() == spec_hex_decode(s))
        } else {
            None
        }
    }

    /// The error that text which names no identifier is refused with.
    pub open spec fn parse_error(s: Seq<char>) -> ValidationError {
        if !is_hex(s) {
            ValidationError::BadHexEncoding
        } else if s.len() != 64 {
            ValidationError::IdentifierBadComposition
        } else {
            ValidationError::UnknownTransactionType
        }
    }

    /// The identifier with the given election, kind and unique part.
    pub open spec fn of_parts(
        election_id: [u8; 15],
        transaction_type: TransactionType,
        unique: Seq<u8>,
    ) -> TransactionIdentifier {
        choose|id: TransactionIdentifier|
            id.election_id == election_id && id.transaction_type == transaction_type
                && id.unique_id@ == unique
    }

    /// Every identifier is the one that its own parts name.
    pub proof fn lemma_of_parts(id: TransactionIdentifier)
        ensures
            Self::of_parts(id.election_id, id.transaction_type, id.unique_id@) == id,
    {
        let chosen = Self::of_parts(id.election_id, id.transaction_type, id.unique_id@);
        lemma_array_eq(chosen.unique_id, id.unique_id);
    }

    /// Identifiers with the same 32 bytes are the same identifier.
    pub proof fn lemma_bytes_injective(a: TransactionIdentifier, b: TransactionIdentifier)
        requires
            a.bytes() == b.bytes(),
        ensures
            a == b,
    {
        let x = a.bytes();
        let y = b.bytes();
        assert(a.election_id@ =~= x.subrange(0, 15));
        assert(b.election_id@ =~= y.subrange(0, 15));
        assert(a.unique_id@ =~= x.subrange(16, 32));
        assert(b.unique_id@ =~= y.subrange(16, 32));
        assert(x[15] == a.transaction_type.byte());
        assert(y[15] == b.transaction_type.byte());
        lemma_array_eq(a.election_id, b.election_id);
        lemma_array_eq(a.unique_id, b.unique_id);
        TransactionType::lemma_kind_of_own_byte(a.transaction_type);
        TransactionType::lemma_kind_of_own_byte(b.transaction_type);
    }

    /// Parsing what was rendered gives the identifier back.
    pub proof fn lemma_render_parse_round_trip(id: TransactionIdentifier)
        ensures
            Self::parsed(id.rendered()) == Some(id),
    {
        let s = id.rendered();
        lemma_hex_round_trip(id.bytes());
        assert(id.bytes().len() == 32);
        assert(id.bytes()[15] == id.transaction_type.byte());
        TransactionType::lemma_kind_of_own_byte(id.transaction_type);
        assert(Self::parses(s));
        let chosen = choose|other: TransactionIdentifier| other.bytes() == spec_hex_decode(s);
        assert(chosen.bytes() == id.bytes());
        Self::lemma_bytes_injective(chosen, id);
    }

    /// An identifier in the election of `election_id`, of the given kind,
    /// whose unique part is the first 16 bytes of `unique_info`.
    pub fn with_unique_info(
        election_id: TransactionIdentifier,
        transaction_type: TransactionType,
        unique_info: &[u8],
    ) -> (id: TransactionIdentifier)
        requires
            unique_info@.len() >= 16,
        ensures
            id == Self::of_parts(
                election_id.election_id,
                transaction_type,
                unique_info@.subrange(0, 16),
            ),
            id.election_id == election_id.election_id,
            id.transaction_type == transaction_type,
            id.unique_id@ == unique_info@.subrange(0, 16),
    {
        let id = TransactionIdentifier {
            election_id: election_id.election_id,
            transaction_type,
            unique_id: array_from_slice::<16>(unique_info, 0),
        };
        proof {
            Self::lemma_of_parts(id);
        }
        id
    }

    /// A new identifier in the election of `election_id`, of the given kind,
    /// with a unique part drawn at random.
    pub fn new(election_id: TransactionIdentifier, transaction_type: TransactionType) -> (id:
        TransactionIdentifier)
        ensures
            id.election_id == election_id.election_id,
            id.transaction_type == transaction_type,
    {
        let unique: [u8; 16] = random_bytes::<16>();
        Self::with_unique_info(election_id, transaction_type, unique.as_slice())
    }

    /// The identifier of the election with the given election part and
    /// unique part.
    pub fn for_election(election_id: [u8; 15], unique_id: [u8; 16]) -> (id: TransactionIdentifier)
        ensures
            id.election_id == election_id,
            id.transaction_type == TransactionType::Election,
            id.unique_id == unique_id,
    {
        TransactionIdentifier {
            election_id,
            transaction_type: TransactionType::Election,
            unique_id,
        }
    }

    /// The identifier of a new election: its election part and its unique
    /// part are both drawn at random.
    pub fn new_for_election() -> (id: TransactionIdentifier)
        ensures
            id.transaction_type == TransactionType::Election,
    {
        let election_id: [u8; 15] = random_bytes::<15>();
        let unique_id: [u8; 16] = random_bytes::<16>();
        Self::for_election(election_id, unique_id)
    }

    /// Returns the 32 bytes of the identifier.
    pub fn to_bytes(&self) -> (out: [u8; 32])
        ensures
            out@ == self.bytes(),
    {
        let mut out: [u8; 32] = [0u8; 32];
        let mut i: usize = 0;
        while i < 15
            invariant
                i <= 15,
                forall|j: int| 0 <= j < i ==> out@[j] == self.election_id@[j],
            decreases 15 - i,
        {
            out[i] = self.election_id[i];
            i = i + 1;
        }
        out[15] = self.transaction_type.to_byte();
        let mut k: usize = 0;
        while k < 16
            invariant
                k <= 16,
                forall|j: int| 0 <= j < 15 ==> out@[j] == self.election_id@[j],
                out@[15] == self.transaction_type.byte(),
                forall|j: int| 0 <= j < k ==> out@[16 + j] == self.unique_id@[j],
            decreases 16 - k,
        {
            out[16 + k] = self.unique_id[k];
            k = k + 1;
        }
        assert(out@ =~= self.bytes());
        out
    }

    /// Reads an identifier from its 32 bytes.
    pub fn from_bytes(bytes: &[u8]) -> (r: Result<TransactionIdentifier, ValidationError>)
        ensures
            r is Ok <==> bytes@.len() == 32 && TransactionType::of_byte(bytes@[15]) is Some,
            r matches Ok(id) ==> id.bytes() == bytes@,
            bytes@.len() != 32 ==> r == Err::<TransactionIdentifier, ValidationError>(
                ValidationError::IdentifierBadComposition,
            ),
            bytes@.len() == 32 && TransactionType::of_byte(bytes@[15]) is None ==> r == Err::<
                TransactionIdentifier,
                ValidationError,
            >(ValidationError::UnknownTransactionType),
    {
        if bytes.len() != 32 {
            return Err(ValidationError::IdentifierBadComposition);
        }
        match TransactionType::from_byte(bytes[15]) {
            None => Err(ValidationError::UnknownTransactionType),
            Some(transaction_type) => {
                let id = TransactionIdentifier {
                    election_id: array_from_slice::<15>(bytes, 0),
                    transaction_type,
                    unique_id: array_from_slice::<16>(bytes, 16),
                };
                proof {
                    TransactionType::lemma_byte_of_kind(bytes@[15]);
                    assert(id.bytes() =~= bytes@);
                }
                Ok(id)
            },
        }
    }

    /// Renders the identifier as 64 lower-case hexadecimal digits.
    pub fn to_string(&self) -> (s: String)
        ensures
            s@ == self.rendered(),
    {
        let bytes = self.to_bytes();
        hex_encode(bytes.as_slice())
    }

    /// Parses an identifier from 64 hexadecimal digits of either case.
    ///
    /// Text that is not hexadecimal is refused with `BadHexEncoding`, text of
    /// another length with `IdentifierBadComposition`, and a type byte that
    /// stands for no kind with `UnknownTransactionType`.
    pub fn from_str(s: &str) -> (r: Result<TransactionIdentifier, ValidationError>)
        ensures
            r matches Ok(id) ==> Self::parsed(s@) == Some(id),
            r matches Ok(id) ==> id.bytes() == spec_hex_decode(s@),
            r matches Err(e) ==> Self::parsed(s@) is None && e == Self::parse_error(s@),
    {
        match hex_decode(s) {
            Err(_) => Err(ValidationError::BadHexEncoding),
            Ok(bytes) => {
                let r = Self::from_bytes(bytes.as_slice());
                proof {
                    assert(spec_hex_decode(s@).len() == s@.len() / 2);
                    if let Ok(id) = r {
                        let chosen = choose|other: TransactionIdentifier|
                            other.bytes() == spec_hex_decode(s@);
                        Self::lemma_bytes_injective(chosen, id);
                    }
                }
                r
            },
        }
    }
}

impl PartialEq for TransactionIdentifier {
    fn eq(&self, other: &TransactionIdentifier) -> (r: bool) {
        let same = bytes_eq(self.election_id.as_slice(), other.election_id.as_slice())
            && self.transaction_type.to_byte() == other.transaction_type.to_byte() && bytes_eq(
            self.unique_id.as_slice(),
            other.unique_id.as_slice(),
        );
        proof {
            if same {
                lemma_array_eq(self.election_id, other.election_id);
                lemma_array_eq(self.unique_id, other.unique_id);
                TransactionType::lemma_kind_of_own_byte(self.transaction_type);
                TransactionType::lemma_kind_of_own_byte(other.transaction_type);
            }
        }
        same
    }
}

impl Eq for TransactionIdentifier {

}

impl vstd::std_specs::cmp::PartialEqSpecImpl for TransactionIdentifier {
    open spec fn obeys_eq_spec() -> bool {
        true
    }

    open spec fn eq_spec(&self, other: &TransactionIdentifier) -> bool {
        *self == *other
    }
}

} // verus!
