//! The incremental sum accumulator, in both regimes.
//!
//! The state keeps the last point added, the slope of the last step, and the
//! running sum's x-coordinate; the running sum's y-coordinate is never
//! materialized until `finalize`.  `add` computes the next slope directly
//! from this compressed state.  The ghost sequence `pts` records the points
//! accumulated so far; well-formedness ties the state to the reference fold
//! over them.
use vstd::prelude::*;
use crate::affine::{NonZeroAffineVar, NonZeroAffineVarEmulated};
use crate::emulated_r1cs::{
    efp_div_unchecked, efp_enforce_equal, efp_int, efp_mul, efp_mul_without_reduce, efp_square,
    efp_sub, efp_value, efp_witness, efp_zero, em_cs_clone, emr_add, emr_reduce, EmCs, EmVar,
};
use crate::fq_ops::{
    fq377_is_zero, fq381_add, fq381_div, fq381_is_zero, fq381_mul, fq381_sub, fq381_int,
};
use crate::model::{
    acc_inv, fsub, lemma_acc_step, lemma_deferred_identity, lemma_fdiv_mod_args,
    lemma_state_materializes_sum, q377, q381, seq_sum, slope_product_fact,
};
use crate::native_r1cs::{
    nfp_add, nfp_div_unchecked, nfp_int, nfp_mul, nfp_square, nfp_sub, nfp_value, NativeVar,
};
use crate::GadgetError;

verus! {

/// Native-regime sum accumulator.
pub struct SumAccumulator {
    pub x1_prev: NativeVar,
    pub y1_prev: NativeVar,
    pub lambda_prev: NativeVar,
    pub x3_prev: NativeVar,
    /// The coordinate residues of the points accumulated so far.
    pub pts: Ghost<Seq<(int, int)>>,
}

impl SumAccumulator {
    /// The residues of the four stored wires.
    pub open spec fn st(self) -> (int, int, int, int) {
        (
            nfp_int(self.x1_prev),
            nfp_int(self.y1_prev),
            nfp_int(self.lambda_prev),
            nfp_int(self.x3_prev),
        )
    }

    /// The state is a faithful compression of the running sum of `pts`.
    pub open spec fn wf(self) -> bool {
        acc_inv(q377(), self.st(), self.pts@)
    }

    /// Starts the accumulator from the first two points: one slope, one
    /// squaring, two subtractions; the successor's y-coordinate is not
    /// computed.  Fails exactly where the two x-coordinates coincide.
    pub fn init(p1: NonZeroAffineVar, p2: NonZeroAffineVar) -> (r: Result<Self, GadgetError>)
        ensures
            r is Ok <==> fsub(q377(), p2.val().0, p1.val().0) != 0,
            r is Ok ==> (r->Ok_0).wf() && (r->Ok_0).pts@ == seq![p1.val(), p2.val()],
            r is Err ==> r->Err_0 == GadgetError::Arithmetic,
    {
        let num = nfp_sub(&p2.y, &p1.y);
        let den = nfp_sub(&p2.x, &p1.x);
        let den_plain = nfp_value(&den);
        if fq377_is_zero(&den_plain) {
            proof {
                vstd::arithmetic::div_mod::lemma_mod_twice(p2.val().0 - p1.val().0, q377());
            }
            return Err(GadgetError::Arithmetic);
        }
        proof {
            vstd::arithmetic::div_mod::lemma_mod_twice(p2.val().0 - p1.val().0, q377());
            lemma_fdiv_mod_args(q377(), p2.val().1 - p1.val().1, p2.val().0 - p1.val().0);
        }
        let lam = nfp_div_unchecked(&num, &den);
        let lam2 = nfp_square(&lam);
        let x3 = nfp_sub(&nfp_sub(&lam2, &p1.x), &p2.x);
        let ghost pts = seq![p1.val(), p2.val()];
        proof {
            lemma_init_inv(
                q377(),
                p1.val(),
                p2.val(),
                nfp_int(num),
                nfp_int(den),
                nfp_int(lam),
                nfp_int(x3),
            );
        }
        Ok(
            SumAccumulator {
                x1_prev: p1.x,
                y1_prev: p1.y,
                lambda_prev: lam,
                x3_prev: x3,
                pts: Ghost(pts),
            },
        )
    }

    /// One accumulation step: the slope of the still unmaterialized running
    /// sum and `p` is computed directly from the compressed state, then the
    /// new x-coordinate; the old state is consumed.  Fails exactly where
    /// `p`'s x-coordinate collides with the running sum's.
    pub fn add(self, p: NonZeroAffineVar) -> (r: Result<Self, GadgetError>)
        requires
            self.wf(),
        ensures
            r is Ok <==> fsub(q377(), p.val().0, seq_sum(q377(), self.pts@).0) != 0,
            r is Ok ==> (r->Ok_0).wf() && (r->Ok_0).pts@ == self.pts@.push(p.val()),
            r is Err ==> r->Err_0 == GadgetError::Arithmetic,
    {
        let t1 = nfp_sub(&self.x3_prev, &self.x1_prev);
        let t2 = nfp_mul(&self.lambda_prev, &t1);
        let t3 = nfp_add(&t2, &self.y1_prev);
        let num = nfp_add(&t3, &p.y);
        let den = nfp_sub(&p.x, &self.x3_prev);
        let den_plain = nfp_value(&den);
        if fq377_is_zero(&den_plain) {
            proof {
                vstd::arithmetic::div_mod::lemma_mod_twice(
                    p.val().0 - seq_sum(q377(), self.pts@).0,
                    q377(),
                );
            }
            return Err(GadgetError::Arithmetic);
        }
        proof {
            vstd::arithmetic::div_mod::lemma_mod_twice(
                p.val().0 - seq_sum(q377(), self.pts@).0,
                q377(),
            );
        }
        let lam = nfp_div_unchecked(&num, &den);
        let lam2 = nfp_square(&lam);
        let x3 = nfp_sub(&nfp_sub(&lam2, &self.x3_prev), &p.x);
        proof {
            lemma_acc_step(
                q377(),
                self.st(),
                self.pts@,
                p.val(),
                nfp_int(num),
                nfp_int(den),
                nfp_int(lam),
            );
        }
        Ok(
            SumAccumulator {
                x1_prev: p.x,
                y1_prev: p.y,
                lambda_prev: lam,
                x3_prev: x3,
                pts: Ghost(self.pts@.push(p.val())),
            },
        )
    }

    /// Materializes the running sum at last: `y3 = lambda_prev * (x1_prev -
    /// x3_prev) - y1_prev`, the one subtraction earlier steps saved.
    pub fn finalize(self) -> (r: NonZeroAffineVar)
        requires
            self.wf(),
        ensures
            r.val() == seq_sum(q377(), self.pts@),
    {
        let t = nfp_sub(&self.x1_prev, &self.x3_prev);
        let m = nfp_mul(&self.lambda_prev, &t);
        let y3 = nfp_sub(&m, &self.y1_prev);
        proof {
            lemma_state_materializes_sum(q377(), self.st(), self.pts@);
        }
        NonZeroAffineVar { x: self.x3_prev, y: y3 }
    }
}

/// The well-formedness of a freshly initialized state, shared by both
/// regimes: the first two points, the slope between them with its product
/// identity, and the chord sum's x-coordinate.
proof fn lemma_init_inv(
    q: int,
    p1: (int, int),
    p2: (int, int),
    num_i: int,
    den_i: int,
    lam_i: int,
    x3_i: int,
)
    requires
        q > 1,
        num_i == crate::model::fsub(q, p2.1, p1.1),
        den_i == crate::model::fsub(q, p2.0, p1.0),
        lam_i == crate::model::fdiv(q, num_i, den_i),
        crate::model::fmul(q, lam_i, den_i) == num_i % q,
        x3_i == crate::model::fsub(
            q,
            crate::model::fsub(q, crate::model::fmul(q, lam_i, lam_i), p1.0),
            p2.0,
        ),
    ensures
        acc_inv(q, (p1.0, p1.1, lam_i, x3_i), seq![p1, p2]),
{
    let pts = seq![p1, p2];
    lemma_fdiv_mod_args(q, p2.1 - p1.1, p2.0 - p1.0);
    assert(lam_i == crate::model::slope(q, p1, p2));
    // The product identity over the unreduced differences.
    vstd::arithmetic::div_mod::lemma_mod_twice(p2.0 - p1.0, q);
    vstd::arithmetic::div_mod::lemma_mod_twice(p2.1 - p1.1, q);
    crate::model::lemma_cong_mul(q, lam_i, (p2.0 - p1.0) % q, lam_i, p2.0 - p1.0);
    assert(slope_product_fact(q, p1, p2));
    // The two-point sequence folds to one chord addition from p1.
    assert(pts.drop_last() =~= seq![p1]);
    assert(seq![p1].drop_first() =~= Seq::<(int, int)>::empty());
    assert(seq_sum(q, seq![p1]) == p1);
    assert(pts.drop_first() =~= seq![p2]);
    assert(seq![p2].drop_first() =~= Seq::<(int, int)>::empty());
    assert(seq_sum(q, pts) == crate::model::add_fold(
        q,
        crate::model::chord_add(q, p1, p2),
        Seq::<(int, int)>::empty(),
    ));
    assert(seq_sum(q, pts) == crate::model::chord_add(q, p1, p2));
    assert(x3_i == crate::model::chord_add(q, p1, p2).0);
    assert(pts.last() == p2);
}

/// Emulated-regime sum accumulator.  The structure matches the native one;
/// `add` differs: the slope is computed outside the constraint relation from
/// the plain values and witnessed, and correctness is enforced by the
/// multiplicative identity with both products unreduced and one single
/// reduction, instead of re-deriving the slope by a division in the circuit.
pub struct SumAccumulatorEmulated {
    pub cs: EmCs,
    pub x1_prev: EmVar,
    pub y1_prev: EmVar,
    pub lambda_prev: EmVar,
    pub x3_prev: EmVar,
    /// The coordinate residues of the points accumulated so far.
    pub pts: Ghost<Seq<(int, int)>>,
}

impl SumAccumulatorEmulated {
    /// The residues of the four stored wires.
    pub open spec fn st(self) -> (int, int, int, int) {
        (
            efp_int(self.x1_prev),
            efp_int(self.y1_prev),
            efp_int(self.lambda_prev),
            efp_int(self.x3_prev),
        )
    }

    /// The state is a faithful compression of the running sum of `pts`.
    pub open spec fn wf(self) -> bool {
        acc_inv(q381(), self.st(), self.pts@)
    }

    /// Starts the accumulator from the first two points, as in the native
    /// regime but routed through the emulated field handle (two reductions;
    /// only `add` is specialized).
    pub fn init(cs: &EmCs, p1: NonZeroAffineVarEmulated, p2: NonZeroAffineVarEmulated) -> (r:
        Result<Self, GadgetError>)
        ensures
            r is Ok <==> fsub(q381(), p2.val().0, p1.val().0) != 0,
            r is Ok ==> (r->Ok_0).wf() && (r->Ok_0).pts@ == seq![p1.val(), p2.val()],
            r is Err ==> r->Err_0 == GadgetError::Arithmetic,
    {
        let num = efp_sub(&p2.y, &p1.y);
        let den = efp_sub(&p2.x, &p1.x);
        let den_plain = efp_value(&den);
        if fq381_is_zero(&den_plain) {
            proof {
                vstd::arithmetic::div_mod::lemma_mod_twice(p2.val().0 - p1.val().0, q381());
            }
            return Err(GadgetError::Arithmetic);
        }
        proof {
            vstd::arithmetic::div_mod::lemma_mod_twice(p2.val().0 - p1.val().0, q381());
        }
        let lam = efp_div_unchecked(&num, &den);
        let lam2 = efp_square(&lam);
        let x3 = efp_sub(&efp_sub(&lam2, &p1.x), &p2.x);
        let ghost pts = seq![p1.val(), p2.val()];
        proof {
            lemma_init_inv(
                q381(),
                p1.val(),
                p2.val(),
                efp_int(num),
                efp_int(den),
                efp_int(lam),
                efp_int(x3),
            );
        }
        Ok(
            SumAccumulatorEmulated {
                cs: em_cs_clone(cs),
                x1_prev: p1.x,
                y1_prev: p1.y,
                lambda_prev: lam,
                x3_prev: x3,
                pts: Ghost(pts),
            },
        )
    }

    /// One accumulation step with the deferred reduction: the slope is
    /// computed from the plain values, allocated as a witness, and checked
    /// through `reduce(lam * (p.x - x3_prev) + lambda_prev * (x1_prev -
    /// x3_prev)) - y1_prev - p.y == 0`, with both products unreduced and one
    /// reduction where the naive update would take two.
    pub fn add(self, p: NonZeroAffineVarEmulated) -> (r: Result<Self, GadgetError>)
        requires
            self.wf(),
        ensures
            r is Ok <==> fsub(q381(), p.val().0, seq_sum(q381(), self.pts@).0) != 0,
            r is Ok ==> (r->Ok_0).wf() && (r->Ok_0).pts@ == self.pts@.push(p.val()),
            r is Err ==> r->Err_0 == GadgetError::Arithmetic,
    {
        // Witness computation from the plain values, outside the relation.
        let x1v = efp_value(&self.x1_prev);
        let y1v = efp_value(&self.y1_prev);
        let lpv = efp_value(&self.lambda_prev);
        let x3v = efp_value(&self.x3_prev);
        let pxv = efp_value(&p.x);
        let pyv = efp_value(&p.y);
        let dv = fq381_sub(&pxv, &x3v);
        if fq381_is_zero(&dv) {
            proof {
                vstd::arithmetic::div_mod::lemma_mod_twice(
                    p.val().0 - seq_sum(q381(), self.pts@).0,
                    q381(),
                );
            }
            return Err(GadgetError::Arithmetic);
        }
        proof {
            vstd::arithmetic::div_mod::lemma_mod_twice(
                p.val().0 - seq_sum(q381(), self.pts@).0,
                q381(),
            );
        }
        let t1 = fq381_sub(&x3v, &x1v);
        let t2 = fq381_mul(&lpv, &t1);
        let t3 = fq381_add(&t2, &y1v);
        let numv = fq381_add(&t3, &pyv);
        let lamv = fq381_div(&numv, &dv);
        let lam = efp_witness(&self.cs, &lamv);
        // The deferred-reduction correctness check.
        let d1 = efp_sub(&p.x, &self.x3_prev);
        let prod1 = efp_mul_without_reduce(&lam, &d1);
        let d2 = efp_sub(&self.x1_prev, &self.x3_prev);
        let prod2 = efp_mul_without_reduce(&self.lambda_prev, &d2);
        let s = emr_add(&prod1, &prod2);
        let red = emr_reduce(&s);
        let z1 = efp_sub(&red, &self.y1_prev);
        let z = efp_sub(&z1, &p.y);
        let zero = efp_zero();
        proof {
            lemma_deferred_identity(
                q381(),
                self.st(),
                p.val(),
                fq381_int(numv),
                fq381_int(dv),
                fq381_int(lamv),
            );
            vstd::arithmetic::div_mod::lemma_mod_twice(
                crate::model::fadd(
                    q381(),
                    crate::model::fmul(q381(), efp_int(lam), efp_int(d1)),
                    crate::model::fmul(q381(), efp_int(self.lambda_prev), efp_int(d2)),
                ),
                q381(),
            );
        }
        efp_enforce_equal(&z, &zero);
        // The new x-coordinate must be canonical: it feeds the next step's
        // unreduced product.
        let lam2 = efp_square(&lam);
        let x3 = efp_sub(&efp_sub(&lam2, &self.x3_prev), &p.x);
        proof {
            lemma_acc_step(
                q381(),
                self.st(),
                self.pts@,
                p.val(),
                fq381_int(numv),
                fq381_int(dv),
                efp_int(lam),
            );
        }
        Ok(
            SumAccumulatorEmulated {
                cs: self.cs,
                x1_prev: p.x,
                y1_prev: p.y,
                lambda_prev: lam,
                x3_prev: x3,
                pts: Ghost(self.pts@.push(p.val())),
            },
        )
    }

    /// Materializes the running sum, as in the native regime.
    pub fn finalize(self) -> (r: NonZeroAffineVarEmulated)
        requires
            self.wf(),
        ensures
            r.val() == seq_sum(q381(), self.pts@),
    {
        let t = efp_sub(&self.x1_prev, &self.x3_prev);
        let m = efp_mul(&self.lambda_prev, &t);
        let y3 = efp_sub(&m, &self.y1_prev);
        proof {
            lemma_state_materializes_sum(q381(), self.st(), self.pts@);
        }
        NonZeroAffineVarEmulated { x: self.x3_prev, y: y3 }
    }
}

} // verus!
