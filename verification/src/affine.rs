//! Non-zero affine points and unchecked chord-slope addition, as plain
//! values and as circuit variables of both regimes.
//!
//! "Unchecked" means the addition formula assumes the two points are neither
//! equal nor opposite; what is checked is the one thing the formula cannot
//! survive, a shared x-coordinate, which is reported as
//! [`GadgetError::Arithmetic`] instead of silently producing a wrong point.
use vstd::prelude::*;
use crate::fq_ops::{
    fq377_div, fq377_int, fq377_is_zero, fq377_mul, fq377_sub, fq381_div, fq381_int, fq381_is_zero,
    fq381_mul, fq381_sub, Fq377, Fq381,
};
use crate::model::{chord_add, fsub, lemma_fdiv_mod_args, q377, q381, seq_sum, add_fold, add_fold_ok};
use crate::native_r1cs::{
    nbool_val, nfp_constant, nfp_div_unchecked, nfp_input, nfp_int, nfp_mul, nfp_select, nfp_square,
    nfp_sub, nfp_value, nfp_witness, NativeBool, NativeCs, NativeVar,
};
use crate::emulated_r1cs::{
    ebool_val, efp_constant, efp_div_unchecked, efp_input, efp_int, efp_mul, efp_select, efp_square,
    efp_sub, efp_value, efp_witness, EmBool, EmCs, EmVar,
};
use crate::GadgetError;

verus! {

/// A plain affine point on the native curve (BLS12-377), known by its
/// caller not to be the group identity.
pub struct PlainPoint377 {
    pub x: Fq377,
    pub y: Fq377,
}

impl PlainPoint377 {
    /// The pair of coordinate residues the point stands for.
    pub open spec fn val(self) -> (int, int) {
        (fq377_int(self.x), fq377_int(self.y))
    }

    /// Packs two coordinates into a point.
    pub fn new(x: Fq377, y: Fq377) -> (r: Self)
        ensures
            r.val() == (fq377_int(x), fq377_int(y)),
    {
        PlainPoint377 { x, y }
    }
}

/// A plain affine point on the emulated curve (BLS12-381).
pub struct PlainPoint381 {
    pub x: Fq381,
    pub y: Fq381,
}

impl PlainPoint381 {
    /// The pair of coordinate residues the point stands for.
    pub open spec fn val(self) -> (int, int) {
        (fq381_int(self.x), fq381_int(self.y))
    }

    /// Packs two coordinates into a point.
    pub fn new(x: Fq381, y: Fq381) -> (r: Self)
        ensures
            r.val() == (fq381_int(x), fq381_int(y)),
    {
        PlainPoint381 { x, y }
    }
}

/// The coordinate residues of a sequence of plain native points.
pub open spec fn pts_val_377(pts: Seq<PlainPoint377>) -> Seq<(int, int)> {
    pts.map_values(|p: PlainPoint377| p.val())
}

/// The coordinate residues of a sequence of plain emulated points.
pub open spec fn pts_val_381(pts: Seq<PlainPoint381>) -> Seq<(int, int)> {
    pts.map_values(|p: PlainPoint381| p.val())
}

/// Plain chord-slope addition on the native curve, the reference the
/// circuit gadgets are held to.  Fails exactly where the x-coordinates
/// coincide in the field.
pub fn plain_add_377(p1: &PlainPoint377, p2: &PlainPoint377) -> (r: Result<
    PlainPoint377,
    GadgetError,
>)
    ensures
        r is Ok <==> fsub(q377(), p2.val().0, p1.val().0) != 0,
        r is Ok ==> (r->Ok_0).val() == chord_add(q377(), p1.val(), p2.val()),
        r is Err ==> r->Err_0 == GadgetError::Arithmetic,
{
    let num = fq377_sub(&p2.y, &p1.y);
    let den = fq377_sub(&p2.x, &p1.x);
    if fq377_is_zero(&den) {
        proof {
            vstd::arithmetic::div_mod::lemma_mod_twice(p2.val().0 - p1.val().0, q377());
        }
        return Err(GadgetError::Arithmetic);
    }
    proof {
        vstd::arithmetic::div_mod::lemma_mod_twice(p2.val().0 - p1.val().0, q377());
        lemma_fdiv_mod_args(q377(), p2.val().1 - p1.val().1, p2.val().0 - p1.val().0);
    }
    let lam = fq377_div(&num, &den);
    let lam2 = fq377_mul(&lam, &lam);
    let x3 = fq377_sub(&fq377_sub(&lam2, &p1.x), &p2.x);
    let y3 = fq377_sub(&fq377_mul(&lam, &fq377_sub(&p1.x, &x3)), &p1.y);
    Ok(PlainPoint377 { x: x3, y: y3 })
}

/// Plain chord-slope addition on the emulated curve.
pub fn plain_add_381(p1: &PlainPoint381, p2: &PlainPoint381) -> (r: Result<
    PlainPoint381,
    GadgetError,
>)
    ensures
        r is Ok <==> fsub(q381(), p2.val().0, p1.val().0) != 0,
        r is Ok ==> (r->Ok_0).val() == chord_add(q381(), p1.val(), p2.val()),
        r is Err ==> r->Err_0 == GadgetError::Arithmetic,
{
    let num = fq381_sub(&p2.y, &p1.y);
    let den = fq381_sub(&p2.x, &p1.x);
    if fq381_is_zero(&den) {
        proof {
            vstd::arithmetic::div_mod::lemma_mod_twice(p2.val().0 - p1.val().0, q381());
        }
        return Err(GadgetError::Arithmetic);
    }
    proof {
        vstd::arithmetic::div_mod::lemma_mod_twice(p2.val().0 - p1.val().0, q381());
        lemma_fdiv_mod_args(q381(), p2.val().1 - p1.val().1, p2.val().0 - p1.val().0);
    }
    let lam = fq381_div(&num, &den);
    let lam2 = fq381_mul(&lam, &lam);
    let x3 = fq381_sub(&fq381_sub(&lam2, &p1.x), &p2.x);
    let y3 = fq381_sub(&fq381_mul(&lam, &fq381_sub(&p1.x, &x3)), &p1.y);
    Ok(PlainPoint381 { x: x3, y: y3 })
}

/// The plain reference sum of a sequence of native points, folding
/// [`plain_add_377`] from the first point on.
pub fn plain_sum_377(pts: &Vec<PlainPoint377>) -> (r: Result<PlainPoint377, GadgetError>)
    requires
        pts@.len() >= 1,
    ensures
        r is Ok <==> add_fold_ok(q377(), pts@[0].val(), pts_val_377(pts@).drop_first()),
        r is Ok ==> (r->Ok_0).val() == seq_sum(q377(), pts_val_377(pts@)),
        r is Err ==> r->Err_0 == GadgetError::Arithmetic,
{
    let ghost vals = pts_val_377(pts@);
    let mut running = PlainPoint377 {
        x: crate::fq_ops::fq377_clone(&pts[0].x),
        y: crate::fq_ops::fq377_clone(&pts[0].y),
    };
    let mut i: usize = 1;
    assert(running.val() == vals[0]);
    assert(add_fold(q377(), vals[0], vals.subrange(1, 1int)) == vals[0]);
    while i < pts.len()
        invariant
            1 <= i <= pts@.len(),
            vals == pts_val_377(pts@),
            vals.len() == pts@.len(),
            running.val() == add_fold(q377(), vals[0], vals.subrange(1, i as int)),
            add_fold_ok(q377(), vals[0], vals.drop_first()) <==> add_fold_ok(
                q377(),
                running.val(),
                vals.skip(i as int),
            ),
        decreases pts@.len() - i,
    {
        let step = plain_add_377(&running, &pts[i]);
        proof {
            assert(vals.skip(i as int).len() > 0);
            assert(vals.skip(i as int)[0] == vals[i as int]);
            assert(vals.skip(i as int).drop_first() =~= vals.skip(i as int + 1));
        }
        match step {
            Ok(next) => {
                proof {
                    assert(vals.subrange(1, i as int).push(vals[i as int]) =~= vals.subrange(
                        1,
                        i as int + 1,
                    ));
                    crate::model::lemma_add_fold_snoc(
                        q377(),
                        vals[0],
                        vals.subrange(1, i as int),
                        vals[i as int],
                    );
                }
                running = next;
                i = i + 1;
            },
            Err(e) => {
                return Err(e);
            },
        }
    }
    proof {
        assert(vals.skip(i as int).len() == 0);
        assert(vals.subrange(1, i as int) =~= vals.drop_first());
    }
    Ok(running)
}

/// The plain reference sum of a sequence of emulated points.
pub fn plain_sum_381(pts: &Vec<PlainPoint381>) -> (r: Result<PlainPoint381, GadgetError>)
    requires
        pts@.len() >= 1,
    ensures
        r is Ok <==> add_fold_ok(q381(), pts@[0].val(), pts_val_381(pts@).drop_first()),
        r is Ok ==> (r->Ok_0).val() == seq_sum(q381(), pts_val_381(pts@)),
        r is Err ==> r->Err_0 == GadgetError::Arithmetic,
{
    let ghost vals = pts_val_381(pts@);
    let mut running = PlainPoint381 {
        x: crate::fq_ops::fq381_clone(&pts[0].x),
        y: crate::fq_ops::fq381_clone(&pts[0].y),
    };
    let mut i: usize = 1;
    assert(running.val() == vals[0]);
    assert(add_fold(q381(), vals[0], vals.subrange(1, 1int)) == vals[0]);
    while i < pts.len()
        invariant
            1 <= i <= pts@.len(),
            vals == pts_val_381(pts@),
            vals.len() == pts@.len(),
            running.val() == add_fold(q381(), vals[0], vals.subrange(1, i as int)),
            add_fold_ok(q381(), vals[0], vals.drop_first()) <==> add_fold_ok(
                q381(),
                running.val(),
                vals.skip(i as int),
            ),
        decreases pts@.len() - i,
    {
        let step = plain_add_381(&running, &pts[i]);
        proof {
            assert(vals.skip(i as int).len() > 0);
            assert(vals.skip(i as int)[0] == vals[i as int]);
            assert(vals.skip(i as int).drop_first() =~= vals.skip(i as int + 1));
        }
        match step {
            Ok(next) => {
                proof {
                    assert(vals.subrange(1, i as int).push(vals[i as int]) =~= vals.subrange(
                        1,
                        i as int + 1,
                    ));
                    crate::model::lemma_add_fold_snoc(
                        q381(),
                        vals[0],
                        vals.subrange(1, i as int),
                        vals[i as int],
                    );
                }
                running = next;
                i = i + 1;
            },
            Err(e) => {
                return Err(e);
            },
        }
    }
    proof {
        assert(vals.skip(i as int).len() == 0);
        assert(vals.subrange(1, i as int) =~= vals.drop_first());
    }
    Ok(running)
}

/// A non-zero affine point as a pair of native circuit variables.
pub struct NonZeroAffineVar {
    pub x: NativeVar,
    pub y: NativeVar,
}

impl NonZeroAffineVar {
    /// The pair of coordinate residues assigned to the point's wires.
    pub open spec fn val(self) -> (int, int) {
        (nfp_int(self.x), nfp_int(self.y))
    }

    /// Packs two coordinate variables into a point.
    pub fn new(x: NativeVar, y: NativeVar) -> (r: Self)
        ensures
            r.val() == (nfp_int(x), nfp_int(y)),
    {
        NonZeroAffineVar { x, y }
    }

    /// Allocates the point's coordinates as private witnesses.
    pub fn new_witness(cs: &NativeCs, p: &PlainPoint377) -> (r: Self)
        ensures
            r.val() == p.val(),
    {
        NonZeroAffineVar { x: nfp_witness(cs, &p.x), y: nfp_witness(cs, &p.y) }
    }

    /// Allocates the point's coordinates as public inputs.
    pub fn new_input(cs: &NativeCs, p: &PlainPoint377) -> (r: Self)
        ensures
            r.val() == p.val(),
    {
        NonZeroAffineVar { x: nfp_input(cs, &p.x), y: nfp_input(cs, &p.y) }
    }

    /// Embeds the point as a circuit constant.
    pub fn new_constant(p: &PlainPoint377) -> (r: Self)
        ensures
            r.val() == p.val(),
    {
        NonZeroAffineVar { x: nfp_constant(&p.x), y: nfp_constant(&p.y) }
    }

    /// Reads the plain point assigned to the wires.
    pub fn value(&self) -> (r: PlainPoint377)
        ensures
            r.val() == self.val(),
    {
        PlainPoint377 { x: nfp_value(&self.x), y: nfp_value(&self.y) }
    }

    /// Chord-slope addition in the circuit: computes the slope by an
    /// inverse-free division, then the new coordinates.  Valid only for
    /// points with distinct x-coordinates; a collision is reported as an
    /// arithmetic failure before any constraint is emitted for it.
    pub fn add_unchecked(&self, other: &Self) -> (r: Result<Self, GadgetError>)
        ensures
            r is Ok <==> fsub(q377(), other.val().0, self.val().0) != 0,
            r is Ok ==> (r->Ok_0).val() == chord_add(q377(), self.val(), other.val()),
            r is Err ==> r->Err_0 == GadgetError::Arithmetic,
    {
        let num = nfp_sub(&other.y, &self.y);
        let den = nfp_sub(&other.x, &self.x);
        let den_plain = nfp_value(&den);
        if fq377_is_zero(&den_plain) {
            proof {
                vstd::arithmetic::div_mod::lemma_mod_twice(other.val().0 - self.val().0, q377());
            }
            return Err(GadgetError::Arithmetic);
        }
        proof {
            vstd::arithmetic::div_mod::lemma_mod_twice(other.val().0 - self.val().0, q377());
            lemma_fdiv_mod_args(q377(), other.val().1 - self.val().1, other.val().0 - self.val().0);
        }
        let lam = nfp_div_unchecked(&num, &den);
        let lam2 = nfp_square(&lam);
        let x3 = nfp_sub(&nfp_sub(&lam2, &self.x), &other.x);
        let y3 = nfp_sub(&nfp_mul(&lam, &nfp_sub(&self.x, &x3)), &self.y);
        Ok(NonZeroAffineVar { x: x3, y: y3 })
    }

    /// Branch-free selection between two fully formed points, applied
    /// coordinate-wise.
    pub fn conditionally_select(cond: &NativeBool, t: &Self, f: &Self) -> (r: Self)
        ensures
            r.val() == if nbool_val(*cond) {
                t.val()
            } else {
                f.val()
            },
    {
        NonZeroAffineVar { x: nfp_select(cond, &t.x, &f.x), y: nfp_select(cond, &t.y, &f.y) }
    }
}

/// A non-zero affine point as a pair of emulated circuit variables.
pub struct NonZeroAffineVarEmulated {
    pub x: EmVar,
    pub y: EmVar,
}

impl NonZeroAffineVarEmulated {
    /// The pair of foreign-field residues assigned to the point's wires.
    pub open spec fn val(self) -> (int, int) {
        (efp_int(self.x), efp_int(self.y))
    }

    /// Packs two coordinate variables into a point.
    pub fn new(x: EmVar, y: EmVar) -> (r: Self)
        ensures
            r.val() == (efp_int(x), efp_int(y)),
    {
        NonZeroAffineVarEmulated { x, y }
    }

    /// Allocates the point's coordinates as private witnesses.
    pub fn new_witness(cs: &EmCs, p: &PlainPoint381) -> (r: Self)
        ensures
            r.val() == p.val(),
    {
        NonZeroAffineVarEmulated { x: efp_witness(cs, &p.x), y: efp_witness(cs, &p.y) }
    }

    /// Allocates the point's coordinates as public inputs.
    pub fn new_input(cs: &EmCs, p: &PlainPoint381) -> (r: Self)
        ensures
            r.val() == p.val(),
    {
        NonZeroAffineVarEmulated { x: efp_input(cs, &p.x), y: efp_input(cs, &p.y) }
    }

    /// Embeds the point as a circuit constant.
    pub fn new_constant(p: &PlainPoint381) -> (r: Self)
        ensures
            r.val() == p.val(),
    {
        NonZeroAffineVarEmulated { x: efp_constant(&p.x), y: efp_constant(&p.y) }
    }

    /// Reads the plain point assigned to the wires.
    pub fn value(&self) -> (r: PlainPoint381)
        ensures
            r.val() == self.val(),
    {
        PlainPoint381 { x: efp_value(&self.x), y: efp_value(&self.y) }
    }

    /// Chord-slope addition in the circuit, the generic (two-reduction)
    /// form; the accumulator's deferred-reduction form lives with the
    /// accumulator.
    pub fn add_unchecked(&self, other: &Self) -> (r: Result<Self, GadgetError>)
        ensures
            r is Ok <==> fsub(q381(), other.val().0, self.val().0) != 0,
            r is Ok ==> (r->Ok_0).val() == chord_add(q381(), self.val(), other.val()),
            r is Err ==> r->Err_0 == GadgetError::Arithmetic,
    {
        let num = efp_sub(&other.y, &self.y);
        let den = efp_sub(&other.x, &self.x);
        let den_plain = efp_value(&den);
        if fq381_is_zero(&den_plain) {
            proof {
                vstd::arithmetic::div_mod::lemma_mod_twice(other.val().0 - self.val().0, q381());
            }
            return Err(GadgetError::Arithmetic);
        }
        proof {
            vstd::arithmetic::div_mod::lemma_mod_twice(other.val().0 - self.val().0, q381());
            lemma_fdiv_mod_args(q381(), other.val().1 - self.val().1, other.val().0 - self.val().0);
        }
        let lam = efp_div_unchecked(&num, &den);
        let lam2 = efp_square(&lam);
        let x3 = efp_sub(&efp_sub(&lam2, &self.x), &other.x);
        let y3 = efp_sub(&efp_mul(&lam, &efp_sub(&self.x, &x3)), &self.y);
        Ok(NonZeroAffineVarEmulated { x: x3, y: y3 })
    }

    /// Branch-free selection between two fully formed points.
    pub fn conditionally_select(cond: &EmBool, t: &Self, f: &Self) -> (r: Self)
        ensures
            r.val() == if ebool_val(*cond) {
                t.val()
            } else {
                f.val()
            },
    {
        NonZeroAffineVarEmulated {
            x: efp_select(cond, &t.x, &f.x),
            y: efp_select(cond, &t.y, &f.y),
        }
    }
}

} // verus!
