//! The roster of an election and the rules an election must meet.

use vstd::prelude::*;

use crate::identifier::{array_eq, PublicKey, TransactionIdentifier, Uuid};
use crate::transaction::{ElectionTransaction, Signable, Trustee};

verus! {

/// Whether a trustee is the one asked for: it has the given id and, where a
/// key is given, that public key.
pub open spec fn trustee_matches(trustee: Trustee, id: Uuid, key: Option<PublicKey>) -> bool {
    &&& trustee.id == id
    &&& key matches Some(k) ==> trustee.public_key == k
}

/// The first trustee of the roster that is the one asked for.
pub open spec fn find_trustee(trustees: Seq<Trustee>, id: Uuid, key: Option<PublicKey>) -> Option<
    Trustee,
>
    decreases trustees.len(),
{
    if trustees.len() == 0 {
        None
    } else if trustee_matches(trustees.first(), id, key) {
        Some(trustees.first())
    } else {
        find_trustee(trustees.drop_first(), id, key)
    }
}

/// No two trustees before `upto` share an index, and each index is at least
/// one.
pub open spec fn indices_valid(trustees: Seq<Trustee>, upto: int) -> bool {
    &&& forall|i: int| 0 <= i < upto ==> (#[trigger] trustees[i]).index >= 1
    &&& forall|i: int, j: int|
        0 <= i < j < upto ==> (#[trigger] trustees[i]).index != (#[trigger] trustees[j]).index
}

impl ElectionTransaction {
    /// The rules of an election: at least one ballot and one trustee, a
    /// threshold between one and the number of trustees, trustee indices that
    /// are distinct and between 1 and 255, and a mix-net, if there is one,
    /// of at least one shuffle.
    pub open spec fn well_formed(&self) -> bool {
        &&& self.ballots@.len() >= 1
        &&& self.trustees@.len() >= 1
        &&& 1 <= self.trustees_threshold <= self.trustees@.len()
        &&& indices_valid(self.trustees@, self.trustees@.len() as int)
        &&& self.mixnet matches Some(config) ==> config.num_shuffles >= 1
    }

    /// Checks the rules of an election.
    pub fn is_well_formed(&self) -> (ok: bool)
        ensures
            ok == self.well_formed(),
    {
        if self.ballots.len() < 1 || self.trustees.len() < 1 {
            return false;
        }
        if self.trustees_threshold < 1 || self.trustees_threshold > self.trustees.len() {
            return false;
        }
        if let Some(config) = self.mixnet {
            if config.num_shuffles < 1 {
                return false;
            }
        }
        let n: usize = self.trustees.len();
        let mut j: usize = 0;
        while j < n
            invariant
                j <= n,
                n == self.trustees@.len(),
                indices_valid(self.trustees@, j as int),
            decreases n - j,
        {
            if self.trustees[j].index < 1 {
                return false;
            }
            let mut i: usize = 0;
            while i < j
                invariant
                    i <= j < n,
                    n == self.trustees@.len(),
                    forall|k: int| 0 <= k < i ==> (#[trigger] self.trustees@[k]).index
                        != self.trustees@[j as int].index,
                decreases j - i,
            {
                if self.trustees[i].index == self.trustees[j].index {
                    return false;
                }
                i = i + 1;
            }
            j = j + 1;
        }
        true
    }

    /// The first trustee with the given id and, where a key is given, that
    /// public key.
    pub fn get_trustee(&self, id: &Uuid, key: Option<&PublicKey>) -> (r: Option<Trustee>)
        ensures
            r == find_trustee(
                self.trustees@,
                *id,
                match key {
                    Some(k) => Some(*k),
                    None => None,
                },
            ),
    {
        let ghost wanted: Option<PublicKey> = match key {
            Some(k) => Some(*k),
            None => None,
        };
        let mut i: usize = 0;
        assert(self.trustees@.skip(0) =~= self.trustees@);
        while i < self.trustees.len()
            invariant
                i <= self.trustees@.len(),
                wanted == match key {
                    Some(k) => Some(*k),
                    None => None::<PublicKey>,
                },
                find_trustee(self.trustees@, *id, wanted) == find_trustee(
                    self.trustees@.skip(i as int),
                    *id,
                    wanted,
                ),
            decreases self.trustees@.len() - i,
        {
            proof {
                let rest = self.trustees@.skip(i as int);
                assert(rest.first() == self.trustees@[i as int]);
                assert(rest.drop_first() =~= self.trustees@.skip(i + 1));
            }
            let trustee = self.trustees[i];
            let same_key = match key {
                Some(k) => array_eq(&trustee.public_key, k),
                None => true,
            };
            if array_eq(&trustee.id, id) && same_key {
                return Some(trustee);
            }
            i = i + 1;
        }
        assert(self.trustees@.skip(i as int).len() == 0);
        None
    }
}

impl Signable for ElectionTransaction {
    open spec fn spec_id(&self) -> TransactionIdentifier {
        self.id
    }

    open spec fn spec_public(&self) -> Option<PublicKey> {
        None
    }

    open spec fn spec_inputs(&self) -> Seq<TransactionIdentifier> {
        Seq::empty()
    }

    fn id(&self) -> (id: TransactionIdentifier) {
        self.id
    }

    fn public(&self) -> (key: Option<PublicKey>) {
        None
    }

    fn inputs(&self) -> (ids: Vec<TransactionIdentifier>) {
        Vec::new()
    }
}

} // verus!
