use vstd::prelude::*;

use crate::types::{EraId, PublicKey};

verus! {

/// The weight of one validator in an era.
#[derive(Clone, Copy, Debug, PartialEq, Eq, Structural)]
pub struct ValidatorWeight {
    pub public_key: PublicKey,
    pub weight: u64,
}

/// Sum of the weights in `s`.
pub open spec fn total_weight(s: Seq<ValidatorWeight>) -> nat
    decreases s.len(),
{
    if s.len() == 0 {
        0
    } else {
        total_weight(s.drop_last()) + s.last().weight as nat
    }
}

/// Sum of the weights in `s` of the validators whose key is in `signers`.
pub open spec fn signed_weight(s: Seq<ValidatorWeight>, signers: Seq<PublicKey>) -> nat
    decreases s.len(),
{
    if s.len() == 0 {
        0
    } else {
        signed_weight(s.drop_last(), signers) + if signers.contains(s.last().public_key) {
            s.last().weight as nat
        } else {
            0
        }
    }
}

/// Weak finality: at least a third of the total weight has signed.
pub open spec fn is_weak(signed: nat, total: nat) -> bool {
    3 * signed >= total
}

/// Strict finality: more than two thirds of the total weight has signed.
pub open spec fn is_strict(signed: nat, total: nat) -> bool {
    3 * signed > 2 * total
}

/// How much of an era's weight has signed a block.
#[derive(Clone, Copy, Debug, PartialEq, Eq, Structural)]
pub enum SignatureWeight {
    Insufficient,
    Weak,
    Strict,
}

pub open spec fn finality_level(signed: nat, total: nat) -> SignatureWeight {
    if is_strict(signed, total) {
        SignatureWeight::Strict
    } else if is_weak(signed, total) {
        SignatureWeight::Weak
    } else {
        SignatureWeight::Insufficient
    }
}

/// Sum of the weights in `s` under the key `k`.
pub open spec fn weight_of(s: Seq<ValidatorWeight>, k: PublicKey) -> nat
    decreases s.len(),
{
    if s.len() == 0 {
        0
    } else {
        weight_of(s.drop_last(), k) + if s.last().public_key == k {
            s.last().weight as nat
        } else {
            0
        }
    }
}

/// The signed weight depends only on which keys signed: a key listed twice counts once.
pub proof fn lemma_signed_weight_members(
    s: Seq<ValidatorWeight>,
    a: Seq<PublicKey>,
    b: Seq<PublicKey>,
)
    requires
        forall|x: PublicKey| a.contains(x) <==> b.contains(x),
    ensures
        signed_weight(s, a) == signed_weight(s, b),
    decreases s.len(),
{
    if s.len() > 0 {
        lemma_signed_weight_members(s.drop_last(), a, b);
    }
}

/// A key that had not signed adds exactly its weight to the signed weight.
pub proof fn lemma_signed_weight_push(s: Seq<ValidatorWeight>, signers: Seq<PublicKey>, k: PublicKey)
    requires
        !signers.contains(k),
    ensures
        signed_weight(s, signers.push(k)) == signed_weight(s, signers) + weight_of(s, k),
    decreases s.len(),
{
    if s.len() > 0 {
        lemma_signed_weight_push(s.drop_last(), signers, k);
        let x = s.last().public_key;
        assert(signers.push(k).contains(x) <==> (signers.contains(x) || x == k)) by {
            if signers.push(k).contains(x) {
                let i = choose|i: int| 0 <= i < signers.push(k).len() && signers.push(k)[i] == x;
                if i < signers.len() {
                    assert(signers[i] == x);
                }
            }
            if signers.contains(x) {
                let i = choose|i: int| 0 <= i < signers.len() && signers[i] == x;
                assert(signers.push(k)[i] == x);
            }
            if x == k {
                assert(signers.push(k)[signers.len() as int] == x);
            }
        }
    }
}

pub proof fn lemma_signed_le_total(s: Seq<ValidatorWeight>, signers: Seq<PublicKey>)
    ensures
        signed_weight(s, signers) <= total_weight(s),
    decreases s.len(),
{
    if s.len() > 0 {
        lemma_signed_le_total(s.drop_last(), signers);
    }
}

pub proof fn lemma_total_prefix(s: Seq<ValidatorWeight>, i: int)
    requires
        0 <= i <= s.len(),
    ensures
        total_weight(s.subrange(0, i)) <= total_weight(s),
    decreases s.len() - i,
{
    if i < s.len() {
        lemma_total_prefix(s, i + 1);
        assert(s.subrange(0, i + 1).drop_last() =~= s.subrange(0, i));
    } else {
        assert(s.subrange(0, i) =~= s);
    }
}

/// Classifies a signed weight against a total.
pub fn signature_weight(signed: u64, total: u64) -> (r: SignatureWeight)
    ensures
        r == finality_level(signed as nat, total as nat),
{
    let s = signed as u128;
    let t = total as u128;
    if 3 * s > 2 * t {
        SignatureWeight::Strict
    } else if 3 * s >= t {
        SignatureWeight::Weak
    } else {
        SignatureWeight::Insufficient
    }
}

/// The number of equally weighted validators, out of `n`, whose signatures reach weak
/// finality: a third of them, rounded up.
pub fn weak_finality_threshold(n: usize) -> (r: usize)
    ensures
        3 * r >= n,
        r == 0 || 3 * (r - 1) < n,
{
    n / 3 + if n % 3 == 0 {
        0
    } else {
        1
    }
}

/// The validators of one era with their weights.
#[derive(Clone, Debug)]
pub struct EraValidatorWeights {
    pub era_id: EraId,
    pub validators: Vec<ValidatorWeight>,
}

impl EraValidatorWeights {
    /// Keys are distinct and the total weight fits a `u64`.
    pub open spec fn wf(self) -> bool {
        &&& forall|i: int, j: int|
            0 <= i < self.validators@.len() && 0 <= j < self.validators@.len() && i != j
                ==> self.validators@[i].public_key != self.validators@[j].public_key
        &&& total_weight(self.validators@) <= u64::MAX
    }

    pub open spec fn has_validator(self, k: PublicKey) -> bool {
        exists|i: int|
            0 <= i < self.validators@.len() && self.validators@[i].public_key == k
    }

    pub open spec fn total(self) -> nat {
        total_weight(self.validators@)
    }

    pub open spec fn signed(self, signers: Seq<PublicKey>) -> nat {
        signed_weight(self.validators@, signers)
    }

    /// Checks `wf`: the matrix takes only well-formed eras.
    pub fn is_well_formed(&self) -> (r: bool)
        ensures
            r == self.wf(),
    {
        let n = self.validators.len();
        let mut total: u64 = 0;
        let mut i: usize = 0;
        while i < n
            invariant
                n == self.validators@.len(),
                i <= n,
                total == total_weight(self.validators@.subrange(0, i as int)),
                forall|a: int, b: int|
                    0 <= a < i && 0 <= b < n && a != b ==> self.validators@[a].public_key
                        != self.validators@[b].public_key,
            decreases n - i,
        {
            proof {
                assert(self.validators@.subrange(0, i as int + 1).drop_last()
                    =~= self.validators@.subrange(0, i as int));
            }
            let w = self.validators[i].weight;
            if total > u64::MAX - w {
                proof {
                    lemma_total_prefix(self.validators@, i as int + 1);
                }
                return false;
            }
            total = total + w;
            let mut j: usize = 0;
            while j < n
                invariant
                    n == self.validators@.len(),
                    i < n,
                    j <= n,
                    forall|b: int|
                        0 <= b < j && b != i ==> self.validators@[i as int].public_key
                            != self.validators@[b].public_key,
                decreases n - j,
            {
                if j != i && self.validators[j].public_key == self.validators[i].public_key {
                    return false;
                }
                j = j + 1;
            }
            i = i + 1;
        }
        assert(self.validators@.subrange(0, n as int) =~= self.validators@);
        true
    }

    /// Total weight of the era.
    pub fn total_weight(&self) -> (r: u64)
        requires
            self.wf(),
        ensures
            r == self.total(),
    {
        let mut total: u64 = 0;
        let mut i: usize = 0;
        while i < self.validators.len()
            invariant
                self.wf(),
                i <= self.validators@.len(),
                total == total_weight(self.validators@.subrange(0, i as int)),
            decreases self.validators@.len() - i,
        {
            proof {
                assert(self.validators@.subrange(0, i as int + 1).drop_last()
                    =~= self.validators@.subrange(0, i as int));
                lemma_total_prefix(self.validators@, i as int + 1);
            }
            total = total + self.validators[i].weight;
            i = i + 1;
        }
        assert(self.validators@.subrange(0, i as int) =~= self.validators@);
        total
    }

    /// Weight of the validators whose key is in `signers`.
    pub fn signed_weight(&self, signers: &Vec<PublicKey>) -> (r: u64)
        requires
            self.wf(),
        ensures
            r == self.signed(signers@),
    {
        let mut total: u64 = 0;
        let mut i: usize = 0;
        while i < self.validators.len()
            invariant
                self.wf(),
                i <= self.validators@.len(),
                total == signed_weight(self.validators@.subrange(0, i as int), signers@),
            decreases self.validators@.len() - i,
        {
            let ghost pre = self.validators@.subrange(0, i as int + 1);
            proof {
                assert(pre.drop_last() =~= self.validators@.subrange(0, i as int));
                lemma_total_prefix(self.validators@, i as int + 1);
                lemma_signed_le_total(pre, signers@);
            }
            let v = self.validators[i];
            let mut found = false;
            let mut j: usize = 0;
            while j < signers.len()
                invariant
                    j <= signers@.len(),
                    found == exists|k: int| 0 <= k < j && signers@[k] == v.public_key,
                decreases signers@.len() - j,
            {
                if signers[j] == v.public_key {
                    found = true;
                }
                j = j + 1;
            }
            if found {
                total = total + v.weight;
            }
            i = i + 1;
        }
        assert(self.validators@.subrange(0, i as int) =~= self.validators@);
        total
    }

    pub fn contains(&self, k: PublicKey) -> (r: bool)
        ensures
            r == self.has_validator(k),
    {
        let mut i: usize = 0;
        while i < self.validators.len()
            invariant
                i <= self.validators@.len(),
                forall|a: int| 0 <= a < i ==> self.validators@[a].public_key != k,
            decreases self.validators@.len() - i,
        {
            if self.validators[i].public_key == k {
                return true;
            }
            i = i + 1;
        }
        false
    }

    fn same_as(&self, other: &EraValidatorWeights) -> (r: bool)
        ensures
            r == (self.era_id == other.era_id && self.validators@ == other.validators@),
    {
        if self.era_id != other.era_id || self.validators.len() != other.validators.len() {
            return false;
        }
        let mut i: usize = 0;
        while i < self.validators.len()
            invariant
                i <= self.validators@.len(),
                self.validators@.len() == other.validators@.len(),
                forall|a: int| 0 <= a < i ==> self.validators@[a] == other.validators@[a],
            decreases self.validators@.len() - i,
        {
            if self.validators[i] != other.validators[i] {
                return false;
            }
            i = i + 1;
        }
        assert(self.validators@ =~= other.validators@);
        true
    }
}

/// Validator weights by era; an era, once registered, never changes.
#[derive(Clone, Debug)]
pub struct ValidatorMatrix {
    pub eras: Vec<EraValidatorWeights>,
}

impl ValidatorMatrix {
    pub open spec fn wf(self) -> bool {
        &&& forall|i: int| 0 <= i < self.eras@.len() ==> #[trigger] self.eras@[i].wf()
        &&& forall|i: int, j: int|
            0 <= i < self.eras@.len() && 0 <= j < self.eras@.len() && i != j
                ==> self.eras@[i].era_id != self.eras@[j].era_id
    }

    pub open spec fn has_era(self, era: EraId) -> bool {
        exists|i: int| 0 <= i < self.eras@.len() && self.eras@[i].era_id == era
    }

    pub fn new() -> (r: Self)
        ensures
            r.wf(),
            r.eras@.len() == 0,
    {
        ValidatorMatrix { eras: Vec::new() }
    }

    fn find(&self, era: EraId) -> (r: Option<usize>)
        ensures
            match r {
                Some(i) => i < self.eras@.len() && self.eras@[i as int].era_id == era,
                None => !self.has_era(era),
            },
    {
        let mut i: usize = 0;
        while i < self.eras.len()
            invariant
                i <= self.eras@.len(),
                forall|a: int| 0 <= a < i ==> self.eras@[a].era_id != era,
            decreases self.eras@.len() - i,
        {
            if self.eras[i].era_id == era {
                return Some(i);
            }
            i = i + 1;
        }
        None
    }

    /// What `register_validator_weights` leaves behind, case by case.
    pub open spec fn weights_registered(
        old: ValidatorMatrix,
        new: ValidatorMatrix,
        weights: EraValidatorWeights,
        r: bool,
    ) -> bool {
        &&& !weights.wf() ==> !r && new == old
        &&& weights.wf() && !old.has_era(weights.era_id) ==> r && new.eras@ == old.eras@.push(
            weights,
        )
        &&& old.has_era(weights.era_id) ==> new == old && (r <==> exists|i: int|
            0 <= i < old.eras@.len() && old.eras@[i].era_id == weights.era_id
                && old.eras@[i].validators@ == weights.validators@ && weights.wf())
        &&& forall|e: EraId| old.has_era(e) ==> new.has_era(e)
    }

    /// Registers the weights of an era. Returns false, leaving the matrix unchanged, where the
    /// weights are not well formed or where the era is registered with other weights.
    pub fn register_validator_weights(&mut self, weights: EraValidatorWeights) -> (r: bool)
        requires
            old(self).wf(),
        ensures
            final(self).wf(),
            Self::weights_registered(*old(self), *final(self), weights, r),
    {
        if !weights.is_well_formed() {
            return false;
        }
        match self.find(weights.era_id) {
            Some(i) => {
                let r = self.eras[i].same_as(&weights);
                proof {
                    if exists|k: int|
                        0 <= k < self.eras@.len() && self.eras@[k].era_id == weights.era_id
                            && self.eras@[k].validators@ == weights.validators@ {
                        let k = choose|k: int|
                            0 <= k < self.eras@.len() && self.eras@[k].era_id == weights.era_id
                                && self.eras@[k].validators@ == weights.validators@;
                        assert(k == i);
                    }
                }
                r
            },
            None => {
                let ghost before = self.eras@;
                self.eras.push(weights);
                proof {
                    assert forall|e: EraId| old(self).has_era(e) implies self.has_era(e) by {
                        let k = choose|k: int| 0 <= k < before.len() && before[k].era_id == e;
                        assert(self.eras@[k] == before[k]);
                    }
                    assert forall|i: int| 0 <= i < self.eras@.len() implies #[trigger] self.eras@[i].wf() by {
                        if i < before.len() {
                            assert(self.eras@[i] == before[i]);
                        }
                    }
                }
                true
            },
        }
    }

    /// The weights registered for an era.
    pub fn validator_weights(&self, era: EraId) -> (r: Option<EraValidatorWeights>)
        requires
            self.wf(),
        ensures
            match r {
                Some(w) => w.era_id == era && w.wf() && exists|i: int|
                    0 <= i < self.eras@.len() && self.eras@[i].era_id == era
                        && self.eras@[i].validators@ == w.validators@,
                None => !self.has_era(era),
            },
    {
        match self.find(era) {
            Some(i) => {
                let e = &self.eras[i];
                let w = EraValidatorWeights { era_id: e.era_id, validators: e.validators.clone() };
                assert(w.validators@ =~= e.validators@);
                assert(self.eras@[i as int].wf());
                Some(w)
            },
            None => None,
        }
    }
}

} // verus!
