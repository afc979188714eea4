//! The aggregate-public-key circuit: given a constant seed point, a list of
//! input key points and one packed selector element, it decodes the selector
//! into bits and accumulates `seed + sum of the selected keys` with
//! branch-free selection, so the circuit's shape does not depend on the
//! selector's value.  Companion utilities pack selector bits into a field
//! element and turn key coordinates into the public-input limb sequence the
//! emulated verifier side expects.
use vstd::prelude::*;
use crate::affine::{
    pts_val_377, pts_val_381, NonZeroAffineVar, NonZeroAffineVarEmulated, PlainPoint377,
    PlainPoint381,
};
use crate::emulated_r1cs::{
    ebool_val, efr_int, efr_input, efr_to_bits_le, fq381_limbs, limbs381, EmCs,
};
use crate::fq_ops::{
    fq377_int, fr381_add, fr381_from_u64, fr381_int, Fq377, Fr381,
};
use crate::model::{bit_of, cond_fold, cond_fold_ok, pack_le, q377, r381};
use crate::native_r1cs::{nbool_val, nfp_input, nfp_int, nfp_to_bits_le, NativeCs};
use crate::GadgetError;

verus! {

/// The native-regime aggregation circuit instance: produced once per proof,
/// consumed exactly once by constraint generation.
pub struct ApkCircuit {
    pub keys: Vec<PlainPoint377>,
    pub seed: PlainPoint377,
    pub packed_bits: Fq377,
}

impl ApkCircuit {
    /// The selector bits, little-endian, as the circuit will decode them.
    pub open spec fn bits(self) -> Seq<bool> {
        Seq::new(377nat, |i: int| bit_of(fq377_int(self.packed_bits) % q377(), i as nat))
    }

    /// Bundles the circuit's inputs.
    pub fn new(keys: Vec<PlainPoint377>, seed: PlainPoint377, packed_bits: Fq377) -> (r: Self)
        ensures
            r.keys == keys && r.seed == seed && r.packed_bits == packed_bits,
    {
        ApkCircuit { keys, seed, packed_bits }
    }

    /// Generates the circuit: the seed as a constant, the keys as inputs,
    /// the packed selector as an input decoded into bits, then one candidate
    /// addition and one branch-free selection per key.  Returns the final
    /// running point.  Fails exactly where some running sum's x-coordinate
    /// collides with the next key's, selected or not.
    pub fn generate_constraints(self, cs: &NativeCs) -> (r: Result<NonZeroAffineVar, GadgetError>)
        requires
            self.keys@.len() <= 377,
        ensures
            r is Ok <==> cond_fold_ok(q377(), self.seed.val(), pts_val_377(self.keys@), self.bits()),
            r is Ok ==> (r->Ok_0).val() == cond_fold(
                q377(),
                self.seed.val(),
                pts_val_377(self.keys@),
                self.bits(),
            ),
            r is Err ==> r->Err_0 == GadgetError::Arithmetic,
    {
        let ghost kvals = pts_val_377(self.keys@);
        let ghost bits = self.bits();
        let seed_var = NonZeroAffineVar::new_constant(&self.seed);
        let mut key_vars: Vec<NonZeroAffineVar> = Vec::new();
        let mut k: usize = 0;
        while k < self.keys.len()
            invariant
                k <= self.keys@.len(),
                key_vars@.len() == k,
                forall|j: int| 0 <= j < k ==> (#[trigger] key_vars@[j]).val() == pts_val_377(
                    self.keys@,
                )[j],
            decreases self.keys@.len() - k,
        {
            key_vars.push(NonZeroAffineVar::new_input(cs, &self.keys[k]));
            k = k + 1;
        }
        let packed_var = nfp_input(cs, &self.packed_bits);
        let bit_vars = nfp_to_bits_le(&packed_var);
        let mut curr = seed_var;
        let mut i: usize = 0;
        proof {
            assert(kvals.skip(0) =~= kvals);
            assert(bits.skip(0) =~= bits);
        }
        while i < key_vars.len()
            invariant
                self.keys@.len() <= 377,
                key_vars@.len() == self.keys@.len(),
                kvals == pts_val_377(self.keys@),
                kvals.len() == self.keys@.len(),
                bits == self.bits(),
                bits.len() == 377,
                bit_vars@.len() == 377,
                forall|j: int| 0 <= j < key_vars@.len() ==> (#[trigger] key_vars@[j]).val()
                    == kvals[j],
                forall|j: int| 0 <= j < 377 ==> nbool_val(#[trigger] bit_vars@[j]) == bits[j],
                i <= key_vars@.len(),
                cond_fold(q377(), self.seed.val(), kvals, bits) == cond_fold(
                    q377(),
                    curr.val(),
                    kvals.skip(i as int),
                    bits.skip(i as int),
                ),
                cond_fold_ok(q377(), self.seed.val(), kvals, bits) <==> cond_fold_ok(
                    q377(),
                    curr.val(),
                    kvals.skip(i as int),
                    bits.skip(i as int),
                ),
            decreases key_vars@.len() - i,
        {
            proof {
                assert(kvals.skip(i as int).len() > 0);
                assert(kvals.skip(i as int)[0] == kvals[i as int]);
                assert(bits.skip(i as int)[0] == bits[i as int]);
                assert(kvals.skip(i as int).drop_first() =~= kvals.skip(i as int + 1));
                assert(bits.skip(i as int).drop_first() =~= bits.skip(i as int + 1));
            }
            let cand = curr.add_unchecked(&key_vars[i]);
            match cand {
                Ok(next_sum) => {
                    curr = NonZeroAffineVar::conditionally_select(&bit_vars[i], &next_sum, &curr);
                    i = i + 1;
                },
                Err(e) => {
                    return Err(e);
                },
            }
        }
        proof {
            assert(kvals.skip(i as int).len() == 0);
        }
        Ok(curr)
    }
}

/// The emulated-regime aggregation circuit instance: the same shape over
/// BLS12-381 keys with the selector packed into the scalar field.
pub struct ApkCircuitEmulated {
    pub keys: Vec<PlainPoint381>,
    pub seed: PlainPoint381,
    pub packed_bits: Fr381,
}

impl ApkCircuitEmulated {
    /// The selector bits, little-endian, as the circuit will decode them.
    pub open spec fn bits(self) -> Seq<bool> {
        Seq::new(255nat, |i: int| bit_of(fr381_int(self.packed_bits) % r381(), i as nat))
    }

    /// Bundles the circuit's inputs.
    pub fn new(keys: Vec<PlainPoint381>, seed: PlainPoint381, packed_bits: Fr381) -> (r: Self)
        ensures
            r.keys == keys && r.seed == seed && r.packed_bits == packed_bits,
    {
        ApkCircuitEmulated { keys, seed, packed_bits }
    }

    /// Generates the emulated circuit; identical structure, with every field
    /// operation routed through the emulated handle.
    pub fn generate_constraints(self, cs: &EmCs) -> (r: Result<
        NonZeroAffineVarEmulated,
        GadgetError,
    >)
        requires
            self.keys@.len() <= 255,
        ensures
            r is Ok <==> cond_fold_ok(
                crate::model::q381(),
                self.seed.val(),
                pts_val_381(self.keys@),
                self.bits(),
            ),
            r is Ok ==> (r->Ok_0).val() == cond_fold(
                crate::model::q381(),
                self.seed.val(),
                pts_val_381(self.keys@),
                self.bits(),
            ),
            r is Err ==> r->Err_0 == GadgetError::Arithmetic,
    {
        let ghost kvals = pts_val_381(self.keys@);
        let ghost bits = self.bits();
        let seed_var = NonZeroAffineVarEmulated::new_constant(&self.seed);
        let mut key_vars: Vec<NonZeroAffineVarEmulated> = Vec::new();
        let mut k: usize = 0;
        while k < self.keys.len()
            invariant
                k <= self.keys@.len(),
                key_vars@.len() == k,
                forall|j: int| 0 <= j < k ==> (#[trigger] key_vars@[j]).val() == pts_val_381(
                    self.keys@,
                )[j],
            decreases self.keys@.len() - k,
        {
            key_vars.push(NonZeroAffineVarEmulated::new_input(cs, &self.keys[k]));
            k = k + 1;
        }
        let packed_var = efr_input(cs, &self.packed_bits);
        let bit_vars = efr_to_bits_le(&packed_var);
        let mut curr = seed_var;
        let mut i: usize = 0;
        proof {
            assert(kvals.skip(0) =~= kvals);
            assert(bits.skip(0) =~= bits);
        }
        while i < key_vars.len()
            invariant
                self.keys@.len() <= 255,
                key_vars@.len() == self.keys@.len(),
                kvals == pts_val_381(self.keys@),
                kvals.len() == self.keys@.len(),
                bits == self.bits(),
                bits.len() == 255,
                bit_vars@.len() == 255,
                forall|j: int| 0 <= j < key_vars@.len() ==> (#[trigger] key_vars@[j]).val()
                    == kvals[j],
                forall|j: int| 0 <= j < 255 ==> ebool_val(#[trigger] bit_vars@[j]) == bits[j],
                i <= key_vars@.len(),
                cond_fold(crate::model::q381(), self.seed.val(), kvals, bits) == cond_fold(
                    crate::model::q381(),
                    curr.val(),
                    kvals.skip(i as int),
                    bits.skip(i as int),
                ),
                cond_fold_ok(crate::model::q381(), self.seed.val(), kvals, bits) <==> cond_fold_ok(
                    crate::model::q381(),
                    curr.val(),
                    kvals.skip(i as int),
                    bits.skip(i as int),
                ),
            decreases key_vars@.len() - i,
        {
            proof {
                assert(kvals.skip(i as int).len() > 0);
                assert(kvals.skip(i as int)[0] == kvals[i as int]);
                assert(bits.skip(i as int)[0] == bits[i as int]);
                assert(kvals.skip(i as int).drop_first() =~= kvals.skip(i as int + 1));
                assert(bits.skip(i as int).drop_first() =~= bits.skip(i as int + 1));
            }
            let cand = curr.add_unchecked(&key_vars[i]);
            match cand {
                Ok(next_sum) => {
                    curr = NonZeroAffineVarEmulated::conditionally_select(
                        &bit_vars[i],
                        &next_sum,
                        &curr,
                    );
                    i = i + 1;
                },
                Err(e) => {
                    return Err(e);
                },
            }
        }
        proof {
            assert(kvals.skip(i as int).len() == 0);
        }
        Ok(curr)
    }
}

/// The public-input limb sequence of a sequence of keys: for each key, the
/// limb decompositions of its two coordinates, in order.
pub open spec fn keys_limbs(keys: Seq<PlainPoint381>) -> Seq<int>
    decreases keys.len(),
{
    if keys.len() == 0 {
        Seq::empty()
    } else {
        limbs381(keys[0].x) + limbs381(keys[0].y) + keys_limbs(keys.drop_first())
    }
}

/// Converts key coordinates into the public-input limb sequence the
/// emulated regime's verifier side expects: a pure data transform, no
/// constraints.
pub fn keys_to_limbs(keys: &Vec<PlainPoint381>) -> (r: Vec<Fr381>)
    ensures
        r@.map_values(|e: Fr381| fr381_int(e)) == keys_limbs(keys@),
{
    let mut out: Vec<Fr381> = Vec::new();
    let mut i: usize = 0;
    proof {
        assert(out@.map_values(|e: Fr381| fr381_int(e)) =~= Seq::<int>::empty());
        assert(keys@.skip(0) =~= keys@);
        assert(Seq::<int>::empty() + keys_limbs(keys@) =~= keys_limbs(keys@));
    }
    while i < keys.len()
        invariant
            i <= keys@.len(),
            out@.map_values(|e: Fr381| fr381_int(e)) + keys_limbs(keys@.skip(i as int))
                == keys_limbs(keys@),
        decreases keys@.len() - i,
    {
        proof {
            assert(keys@.skip(i as int).len() > 0);
            assert(keys@.skip(i as int)[0] == keys@[i as int]);
            assert(keys@.skip(i as int).drop_first() =~= keys@.skip(i as int + 1));
        }
        let mut lx = fq381_limbs(&keys[i].x);
        let mut ly = fq381_limbs(&keys[i].y);
        proof {
            assert(lx@.map_values(|e: Fr381| fr381_int(e)) =~= limbs381(keys@[i as int].x));
            assert(ly@.map_values(|e: Fr381| fr381_int(e)) =~= limbs381(keys@[i as int].y));
        }
        let ghost out_pre = out@;
        out.append(&mut lx);
        let ghost out_mid = out@;
        out.append(&mut ly);
        proof {
            let f = |e: Fr381| fr381_int(e);
            assert(out_mid.map_values(f) =~= out_pre.map_values(f) + limbs381(keys@[i as int].x));
            assert(out@.map_values(f) =~= out_mid.map_values(f) + limbs381(keys@[i as int].y));
            assert(out@.map_values(f) + keys_limbs(keys@.skip(i as int + 1)) =~= out_pre.map_values(
                f,
            ) + keys_limbs(keys@.skip(i as int)));
        }
        i = i + 1;
    }
    proof {
        assert(keys@.skip(i as int).len() == 0);
        assert(out@.map_values(|e: Fr381| fr381_int(e)) + Seq::<int>::empty() =~= out@.map_values(
            |e: Fr381| fr381_int(e),
        ));
    }
    out
}

/// Packs selector bits, little-endian, into one scalar field element, the
/// inverse of the circuit-side bit decomposition for up to 254 bits.
pub fn pack_bits_le(bits: &Vec<bool>) -> (r: Fr381)
    ensures
        fr381_int(r) == pack_le(bits@) % r381(),
{
    let mut acc = fr381_from_u64(0);
    let mut k: usize = bits.len();
    assert(bits@.skip(k as int).len() == 0);
    while k > 0
        invariant
            k <= bits@.len(),
            fr381_int(acc) == pack_le(bits@.skip(k as int)) % r381(),
        decreases k,
    {
        k = k - 1;
        let doubled = fr381_add(&acc, &acc);
        let bit = if bits[k] {
            fr381_from_u64(1)
        } else {
            fr381_from_u64(0)
        };
        let next = fr381_add(&doubled, &bit);
        proof {
            let tail = bits@.skip(k as int + 1);
            let whole = bits@.skip(k as int);
            assert(whole[0] == bits@[k as int]);
            assert(whole.drop_first() =~= tail);
            let t = pack_le(tail);
            let b0: int = if bits@[k as int] { 1 } else { 0 };
            assert(pack_le(whole) == b0 + 2 * t);
            vstd::arithmetic::div_mod::lemma_mod_twice(t, r381());
            crate::model::lemma_cong_add(r381(), t % r381(), t % r381(), t, t);
            assert(fr381_int(doubled) == (t + t) % r381());
            vstd::arithmetic::div_mod::lemma_mod_twice(t + t, r381());
            vstd::arithmetic::div_mod::lemma_small_mod(b0 as nat, r381() as nat);
            crate::model::lemma_cong_add(r381(), (t + t) % r381(), b0, t + t, b0);
            assert(fr381_int(next) == (t + t + b0) % r381());
            assert(t + t + b0 == pack_le(whole));
        }
        acc = next;
    }
    proof {
        assert(bits@.skip(0) =~= bits@);
    }
    acc
}

} // verus!
