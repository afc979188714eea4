//! The mathematical model the whole library is specified against.
//!
//! Circuit variables and plain field elements are both modelled by the
//! residue they stand for, an `int` taken modulo the prime `q` of the curve's
//! base field.  The chord-slope addition formula, the accumulator fold and
//! the conditional (selector-driven) fold are defined here as spec functions,
//! and the lemmas that relate the compressed accumulator update to full chord
//! addition are proved here once, shared by the native and the emulated
//! regime.
use vstd::prelude::*;
use vstd::arithmetic::div_mod::{
    lemma_add_mod_noop, lemma_mod_twice, lemma_mul_mod_noop_general, lemma_sub_mod_noop,
};
use vstd::arithmetic::power2::pow2;

verus! {

/// Modulus of the BLS12-377 base field, the native-regime coordinate field
/// (it is also the scalar field of BW6-761, the native constraint field).
pub open spec fn q377() -> int {
    258664426012969094010652733694893533536393512754914660539884262666720468348340822774968888139573360124440321458177int
}

/// Modulus of the BLS12-381 base field, the emulated-regime coordinate field.
pub open spec fn q381() -> int {
    4002409555221667393417789825735904156556882819939007885332058136124031650490837864442687629129015664037894272559787int
}

/// Modulus of the BLS12-381 scalar field, the emulated constraint field,
/// in which selector bits are packed.
pub open spec fn r381() -> int {
    52435875175126190479447740508185965837690552500527637822603658699938581184513int
}

/// The multiplicative inverse modulo `q` as the arkworks `Field::inverse`
/// computes it: a pure function of the modulus and of the residue alone.
/// Nothing is assumed of it here; each trusted wrapper that divides states
/// the product identity of the quotient it returned.
pub uninterp spec fn field_inv(q: int, a: int) -> int;

/// Sum in the field of residues modulo `q`.
pub open spec fn fadd(q: int, a: int, b: int) -> int {
    (a + b) % q
}

/// Difference in the field of residues modulo `q`.
pub open spec fn fsub(q: int, a: int, b: int) -> int {
    (a - b) % q
}

/// Product in the field of residues modulo `q`.
pub open spec fn fmul(q: int, a: int, b: int) -> int {
    (a * b) % q
}

/// Quotient `a / b` realized as `a * inverse(b)`, the way every division in
/// this library is performed.
pub open spec fn fdiv(q: int, a: int, b: int) -> int {
    (a * field_inv(q, b % q)) % q
}

/// The chord slope between two affine points with distinct x-coordinates.
pub open spec fn slope(q: int, p1: (int, int), p2: (int, int)) -> int {
    fdiv(q, p2.1 - p1.1, p2.0 - p1.0)
}

/// Chord-slope addition of two affine points:
/// `x3 = lambda^2 - x1 - x2`, `y3 = lambda * (x1 - x3) - y1`.
pub open spec fn chord_add(q: int, p1: (int, int), p2: (int, int)) -> (int, int) {
    let lam = slope(q, p1, p2);
    let x3 = fsub(q, fsub(q, fmul(q, lam, lam), p1.0), p2.0);
    let y3 = fsub(q, fmul(q, lam, fsub(q, p1.0, x3)), p1.1);
    (x3, y3)
}

/// Left fold of chord addition over a sequence of points, starting from `p0`.
pub open spec fn add_fold(q: int, p0: (int, int), pts: Seq<(int, int)>) -> (int, int)
    decreases pts.len(),
{
    if pts.len() == 0 {
        p0
    } else {
        add_fold(q, chord_add(q, p0, pts[0]), pts.drop_first())
    }
}

/// The reference sum of a non-empty sequence of points: fold the chord
/// addition over the tail, starting from the first point.
pub open spec fn seq_sum(q: int, pts: Seq<(int, int)>) -> (int, int)
    recommends pts.len() >= 1,
{
    add_fold(q, pts[0], pts.drop_first())
}

/// Branch-free conditional aggregation: at every position the candidate sum
/// is formed and kept only where the selector bit is set.
pub open spec fn cond_fold(q: int, seed: (int, int), keys: Seq<(int, int)>, bits: Seq<bool>) -> (int, int)
    recommends keys.len() <= bits.len(),
    decreases keys.len(),
{
    if keys.len() == 0 {
        seed
    } else {
        let next = if bits[0] { chord_add(q, seed, keys[0]) } else { seed };
        cond_fold(q, next, keys.drop_first(), bits.drop_first())
    }
}

/// Whether the fold of chord additions is defined all along: at every step
/// the point being added must not share an x-coordinate with the running sum.
pub open spec fn add_fold_ok(q: int, p0: (int, int), pts: Seq<(int, int)>) -> bool
    decreases pts.len(),
{
    pts.len() == 0 || (fsub(q, pts[0].0, p0.0) != 0 && add_fold_ok(
        q,
        chord_add(q, p0, pts[0]),
        pts.drop_first(),
    ))
}

/// Whether the branch-free conditional fold is defined all along: the
/// candidate addition is formed at every position, selected or not, so a
/// collision fails it even where the bit is clear.
pub open spec fn cond_fold_ok(q: int, seed: (int, int), keys: Seq<(int, int)>, bits: Seq<bool>) -> bool
    recommends keys.len() <= bits.len(),
    decreases keys.len(),
{
    keys.len() == 0 || ({
        let next = if bits[0] { chord_add(q, seed, keys[0]) } else { seed };
        fsub(q, keys[0].0, seed.0) != 0 && cond_fold_ok(q, next, keys.drop_first(), bits.drop_first())
    })
}

/// The subsequence of keys whose selector bit is set.
pub open spec fn selected(keys: Seq<(int, int)>, bits: Seq<bool>) -> Seq<(int, int)>
    recommends keys.len() <= bits.len(),
    decreases keys.len(),
{
    if keys.len() == 0 {
        Seq::empty()
    } else if bits[0] {
        seq![keys[0]] + selected(keys.drop_first(), bits.drop_first())
    } else {
        selected(keys.drop_first(), bits.drop_first())
    }
}

/// The integer a little-endian byte string stands for.
pub open spec fn bytes_le_int(b: Seq<u8>) -> int
    decreases b.len(),
{
    if b.len() == 0 {
        0
    } else {
        b[0] + 256 * bytes_le_int(b.drop_first())
    }
}

/// The integer that packs a little-endian bit string.
pub open spec fn pack_le(bits: Seq<bool>) -> int
    decreases bits.len(),
{
    if bits.len() == 0 {
        0
    } else {
        (if bits[0] { 1int } else { 0int }) + 2 * pack_le(bits.drop_first())
    }
}

/// Bit `i` of the binary expansion of `v`.
pub open spec fn bit_of(v: int, i: nat) -> bool {
    v / (pow2(i) as int) % 2 == 1
}

/// The compressed accumulator state `(x1_prev, y1_prev, lambda_prev, x3_prev)`
/// stands for the running sum of `pts`: the last point added and the slope of
/// the last step are stored, the running sum's x-coordinate is stored, and its
/// y-coordinate is deliberately not materialized.
pub open spec fn acc_inv(q: int, st: (int, int, int, int), pts: Seq<(int, int)>) -> bool {
    let prev = seq_sum(q, pts.drop_last());
    &&& pts.len() >= 2
    &&& st.2 == slope(q, prev, pts.last())
    &&& st.3 == seq_sum(q, pts).0
    &&& ((st.0, st.1) == prev || ((st.0, st.1) == pts.last() && slope_product_fact(
        q,
        prev,
        pts.last(),
    )))
}

/// The slope `lam` of the chord through `p1` and `p2` satisfies
/// `lam * (x2 - x1) = y2 - y1` in the field.  This is how every division
/// wrapper reports its quotient; the accumulator records it for the last
/// step it took.
pub open spec fn slope_product_fact(q: int, p1: (int, int), p2: (int, int)) -> bool {
    fmul(q, slope(q, p1, p2), p2.0 - p1.0) == fsub(q, p2.1, p1.1)
}

/// Congruent arguments give a congruent sum.
pub proof fn lemma_cong_add(q: int, a: int, b: int, c: int, d: int)
    requires
        q > 1,
        a % q == c % q,
        b % q == d % q,
    ensures
        (a + b) % q == (c + d) % q,
{
    lemma_add_mod_noop(a, b, q);
    lemma_add_mod_noop(c, d, q);
}

/// Congruent arguments give a congruent difference.
pub proof fn lemma_cong_sub(q: int, a: int, b: int, c: int, d: int)
    requires
        q > 1,
        a % q == c % q,
        b % q == d % q,
    ensures
        (a - b) % q == (c - d) % q,
{
    lemma_sub_mod_noop(a, b, q);
    lemma_sub_mod_noop(c, d, q);
}

/// Congruent arguments give a congruent product.
pub proof fn lemma_cong_mul(q: int, a: int, b: int, c: int, d: int)
    requires
        q > 1,
        a % q == c % q,
        b % q == d % q,
    ensures
        (a * b) % q == (c * d) % q,
{
    lemma_mul_mod_noop_general(a, b, q);
    lemma_mul_mod_noop_general(c, d, q);
}

/// Reducing the arguments of a quotient first does not change it.
pub proof fn lemma_fdiv_mod_args(q: int, a: int, b: int)
    requires
        q > 1,
    ensures
        fdiv(q, a % q, b % q) == fdiv(q, a, b),
{
    lemma_mod_twice(b, q);
    lemma_mul_mod_noop_general(a, field_inv(q, b % q), q);
}

/// Flattened form of the chord ordinate: `y3` is congruent to the unreduced
/// expression `lam * (x1 - x3) - y1`.
pub proof fn lemma_chord_y_flat(q: int, p1: (int, int), p2: (int, int))
    requires
        q > 1,
    ensures
        chord_add(q, p1, p2).1
            == (slope(q, p1, p2) * (p1.0 - chord_add(q, p1, p2).0) - p1.1) % q,
{
    let lam = slope(q, p1, p2);
    let x3 = chord_add(q, p1, p2).0;
    lemma_mod_twice(p1.0 - x3, q);
    lemma_cong_mul(q, lam, (p1.0 - x3) % q, lam, p1.0 - x3);
    lemma_mod_twice(lam * ((p1.0 - x3) % q), q);
    lemma_cong_sub(q, (lam * ((p1.0 - x3) % q)) % q, p1.1, lam * (p1.0 - x3), p1.1);
    assert(chord_add(q, p1, p2).1 == ((lam * ((p1.0 - x3) % q)) % q - p1.1) % q);
}

/// The chord ordinate may be computed from either endpoint: under the slope
/// product identity, `lam * (x1 - x3) - y1` and `lam * (x2 - x3) - y2` are
/// congruent.  This is what lets the accumulator defer materializing the
/// running sum's ordinate.
pub proof fn lemma_y_other_endpoint(q: int, p1: (int, int), p2: (int, int))
    requires
        q > 1,
        slope_product_fact(q, p1, p2),
    ensures
        chord_add(q, p1, p2).1
            == fsub(q, fmul(q, slope(q, p1, p2), fsub(q, p2.0, chord_add(q, p1, p2).0)), p2.1),
{
    let lam = slope(q, p1, p2);
    let x3 = chord_add(q, p1, p2).0;
    let a_in = lam * (p1.0 - x3) - p1.1;
    let b_in = lam * (p2.0 - x3) - p2.1;
    lemma_chord_y_flat(q, p1, p2);
    // Flatten the nested reductions on the p2 side as well.
    lemma_mod_twice(p2.0 - x3, q);
    lemma_cong_mul(q, lam, (p2.0 - x3) % q, lam, p2.0 - x3);
    lemma_mod_twice(lam * ((p2.0 - x3) % q), q);
    lemma_cong_sub(q, (lam * ((p2.0 - x3) % q)) % q, p2.1, lam * (p2.0 - x3), p2.1);
    assert(fsub(q, fmul(q, lam, fsub(q, p2.0, x3)), p2.1) == b_in % q);
    // The two unreduced forms differ by lam * (x2 - x1) - (y2 - y1), which
    // the slope product identity makes congruent to zero.
    assert(lam * (p2.0 - x3) - p2.1 == (lam * (p1.0 - x3) - p1.1) + (lam * (p2.0 - p1.0) - (
        p2.1 - p1.1))) by (nonlinear_arith);
    assert(b_in == a_in + (lam * (p2.0 - p1.0) - (p2.1 - p1.1)));
    lemma_mod_twice(p2.0 - p1.0, q);
    lemma_cong_mul(q, lam, (p2.0 - p1.0) % q, lam, p2.0 - p1.0);
    lemma_mod_twice(p2.1 - p1.1, q);
    lemma_cong_sub(q, lam * (p2.0 - p1.0), p2.1 - p1.1, lam * (p2.0 - p1.0), p2.1 - p1.1);
    assert((lam * (p2.0 - p1.0) - (p2.1 - p1.1)) % q == 0int % q) by {
        lemma_cong_sub(q, lam * (p2.0 - p1.0), p2.1 - p1.1, p2.1 - p1.1, p2.1 - p1.1);
    }
    lemma_cong_add(q, a_in, lam * (p2.0 - p1.0) - (p2.1 - p1.1), a_in, 0);
    assert(b_in % q == a_in % q);
}

/// Unrolling a left fold from the right: folding over `s` is folding over
/// all of `s` but its last point, then adding that last point.
pub proof fn lemma_add_fold_unsnoc(q: int, p0: (int, int), s: Seq<(int, int)>)
    requires
        s.len() >= 1,
    ensures
        add_fold(q, p0, s) == chord_add(q, add_fold(q, p0, s.drop_last()), s.last()),
    decreases s.len(),
{
    assert(add_fold(q, p0, s) == add_fold(q, chord_add(q, p0, s[0]), s.drop_first()));
    if s.len() == 1 {
        assert(s.drop_last() =~= Seq::<(int, int)>::empty());
        assert(s.drop_first() =~= Seq::<(int, int)>::empty());
        assert(add_fold(q, p0, s.drop_first()) == p0);
        assert(add_fold(q, p0, s) == chord_add(q, p0, s[0]));
    } else {
        lemma_add_fold_unsnoc(q, chord_add(q, p0, s[0]), s.drop_first());
        assert(s.drop_first().drop_last() =~= s.drop_last().drop_first());
        assert(s.drop_first().last() == s.last());
        assert(s.drop_last()[0] == s[0]);
        assert(s.drop_last().len() >= 1);
        assert(add_fold(q, p0, s.drop_last()) == add_fold(
            q,
            chord_add(q, p0, s.drop_last()[0]),
            s.drop_last().drop_first(),
        ));
    }
}

/// A well-formed compressed state determines the materialized running sum:
/// its x-coordinate is stored directly, and its y-coordinate is recovered as
/// `lambda_prev * (x1_prev - x3_prev) - y1_prev`, which is what `finalize`
/// computes.  The native and the emulated accumulator both rest on this.
pub proof fn lemma_state_materializes_sum(q: int, st: (int, int, int, int), pts: Seq<(int, int)>)
    requires
        q > 1,
        acc_inv(q, st, pts),
    ensures
        seq_sum(q, pts) == (st.3, fsub(q, fmul(q, st.2, fsub(q, st.0, st.3)), st.1)),
{
    let prev = seq_sum(q, pts.drop_last());
    let last = pts.last();
    assert(pts.drop_last().len() >= 1);
    assert(pts.drop_last()[0] == pts[0]);
    lemma_add_fold_unsnoc(q, pts[0], pts.drop_first());
    assert(pts.drop_first().drop_last() =~= pts.drop_last().drop_first());
    assert(pts.drop_first().last() == pts.last());
    assert(seq_sum(q, pts) == chord_add(q, prev, last));
    if (st.0, st.1) == prev {
        assert(chord_add(q, prev, last).1 == fsub(
            q,
            fmul(q, st.2, fsub(q, st.0, st.3)),
            st.1,
        ));
    } else {
        lemma_y_other_endpoint(q, prev, last);
    }
}

/// Appending one point to a fold adds it to the fold's result.
pub proof fn lemma_add_fold_snoc(q: int, p0: (int, int), s: Seq<(int, int)>, p: (int, int))
    ensures
        add_fold(q, p0, s.push(p)) == chord_add(q, add_fold(q, p0, s), p),
{
    lemma_add_fold_unsnoc(q, p0, s.push(p));
    assert(s.push(p).drop_last() =~= s);
    assert(s.push(p).last() == p);
}

/// One accumulator step, proved once for both regimes.  Given a well-formed
/// compressed state for `pts` and the values the step computes — the
/// numerator `lambda_prev * (x3_prev - x1_prev) + y1_prev + p.y`, the
/// denominator `p.x - x3_prev`, and the quotient with its product identity —
/// the quotient is the slope of the chord from the (unmaterialized) running
/// sum to `p`, the numerator is congruent to the materialized difference of
/// ordinates, and the updated state is well-formed for `pts` extended by `p`.
pub proof fn lemma_acc_step(
    q: int,
    st: (int, int, int, int),
    pts: Seq<(int, int)>,
    pv: (int, int),
    num_i: int,
    den_i: int,
    lam_i: int,
)
    requires
        q > 1,
        acc_inv(q, st, pts),
        num_i == fadd(q, fadd(q, fmul(q, st.2, fsub(q, st.3, st.0)), st.1), pv.1),
        den_i == fsub(q, pv.0, st.3),
        lam_i == (num_i * field_inv(q, den_i % q)) % q,
        fmul(q, lam_i, den_i) == num_i % q,
    ensures
        num_i == fsub(q, pv.1, seq_sum(q, pts).1),
        lam_i == slope(q, seq_sum(q, pts), pv),
        acc_inv(
            q,
            (pv.0, pv.1, lam_i, fsub(q, fsub(q, fmul(q, lam_i, lam_i), st.3), pv.0)),
            pts.push(pv),
        ),
{
    let s_pt = seq_sum(q, pts);
    lemma_state_materializes_sum(q, st, pts);
    let sy = fsub(q, fmul(q, st.2, fsub(q, st.0, st.3)), st.1);
    assert(s_pt.1 == sy);
    assert(s_pt.0 == st.3);
    // Flatten the reduced numerator to the unreduced expression.
    let xx = st.2 * (st.3 - st.0);
    lemma_mod_twice(st.3 - st.0, q);
    lemma_cong_mul(q, st.2, (st.3 - st.0) % q, st.2, st.3 - st.0);
    lemma_mod_twice(st.2 * ((st.3 - st.0) % q), q);
    lemma_cong_add(q, (st.2 * ((st.3 - st.0) % q)) % q, st.1, xx, st.1);
    lemma_mod_twice((st.2 * ((st.3 - st.0) % q)) % q + st.1, q);
    lemma_cong_add(q, ((st.2 * ((st.3 - st.0) % q)) % q + st.1) % q, pv.1, xx + st.1, pv.1);
    assert(num_i == (xx + st.1 + pv.1) % q);
    // Flatten the materialized ordinate the same way.
    let yy = st.2 * (st.0 - st.3);
    lemma_mod_twice(st.0 - st.3, q);
    lemma_cong_mul(q, st.2, (st.0 - st.3) % q, st.2, st.0 - st.3);
    lemma_mod_twice(st.2 * ((st.0 - st.3) % q), q);
    lemma_cong_sub(q, (st.2 * ((st.0 - st.3) % q)) % q, st.1, yy, st.1);
    assert(sy == (yy - st.1) % q);
    // The compressed numerator is exactly the materialized one.
    assert(st.2 * (st.3 - st.0) + st.1 + pv.1 == pv.1 - (st.2 * (st.0 - st.3) - st.1))
        by (nonlinear_arith);
    assert(xx + st.1 + pv.1 == pv.1 - (yy - st.1));
    lemma_mod_twice(yy - st.1, q);
    lemma_cong_sub(q, pv.1, sy, pv.1, yy - st.1);
    assert(num_i == fsub(q, pv.1, s_pt.1));
    // Hence the quotient is the chord slope from the running sum.
    lemma_mod_twice(pv.0 - st.3, q);
    assert(den_i % q == (pv.0 - s_pt.0) % q);
    lemma_mod_twice(pv.1 - s_pt.1, q);
    assert(num_i % q == (pv.1 - s_pt.1) % q);
    lemma_cong_mul(
        q,
        num_i,
        field_inv(q, (pv.0 - s_pt.0) % q),
        pv.1 - s_pt.1,
        field_inv(q, (pv.0 - s_pt.0) % q),
    );
    assert(lam_i == slope(q, s_pt, pv));
    // The extended sequence folds to one more chord addition.
    lemma_add_fold_snoc(q, pts[0], pts.drop_first(), pv);
    assert(pts.push(pv).drop_first() =~= pts.drop_first().push(pv));
    assert(pts.push(pv)[0] == pts[0]);
    assert(seq_sum(q, pts.push(pv)) == chord_add(q, s_pt, pv));
    assert(pts.push(pv).drop_last() =~= pts);
    assert(pts.push(pv).last() == pv);
    // The product identity carries over to the new last step.
    lemma_cong_mul(q, lam_i, den_i, lam_i, pv.0 - s_pt.0);
    assert(fmul(q, lam_i, pv.0 - s_pt.0) == fsub(q, pv.1, s_pt.1));
    assert(slope_product_fact(q, s_pt, pv));
    let x3n = fsub(q, fsub(q, fmul(q, lam_i, lam_i), st.3), pv.0);
    assert(x3n == chord_add(q, s_pt, pv).0);
    assert(acc_inv(q, (pv.0, pv.1, lam_i, x3n), pts.push(pv)));
}

/// The identity the emulated regime checks with a single deferred
/// reduction: `reduce(lam * (p.x - x3_prev) + lambda_prev * (x1_prev -
/// x3_prev)) - y1_prev - p.y` is zero in the field, given the quotient's
/// product identity.  One reduction therefore suffices where the naive
/// update would take two.
pub proof fn lemma_deferred_identity(
    q: int,
    st: (int, int, int, int),
    pv: (int, int),
    num_i: int,
    den_i: int,
    lam_i: int,
)
    requires
        q > 1,
        num_i == fadd(q, fadd(q, fmul(q, st.2, fsub(q, st.3, st.0)), st.1), pv.1),
        den_i == fsub(q, pv.0, st.3),
        fmul(q, lam_i, den_i) == num_i % q,
    ensures
        fsub(
            q,
            fsub(
                q,
                fadd(q, fmul(q, lam_i, den_i), fmul(q, st.2, fsub(q, st.0, st.3))) % q,
                st.1,
            ),
            pv.1,
        ) == 0,
{
    let xx = st.2 * (st.3 - st.0);
    let yy = st.2 * (st.0 - st.3);
    // Flatten the numerator as in the step lemma.
    lemma_mod_twice(st.3 - st.0, q);
    lemma_cong_mul(q, st.2, (st.3 - st.0) % q, st.2, st.3 - st.0);
    lemma_mod_twice(st.2 * ((st.3 - st.0) % q), q);
    lemma_cong_add(q, (st.2 * ((st.3 - st.0) % q)) % q, st.1, xx, st.1);
    lemma_mod_twice((st.2 * ((st.3 - st.0) % q)) % q + st.1, q);
    lemma_cong_add(q, ((st.2 * ((st.3 - st.0) % q)) % q + st.1) % q, pv.1, xx + st.1, pv.1);
    assert(num_i == (xx + st.1 + pv.1) % q);
    // Flatten the second unreduced product.
    lemma_mod_twice(st.0 - st.3, q);
    lemma_cong_mul(q, st.2, (st.0 - st.3) % q, st.2, st.0 - st.3);
    assert(fmul(q, st.2, fsub(q, st.0, st.3)) == yy % q);
    // The sum of the two products is congruent to y1_prev + p.y.
    lemma_mod_twice(xx + st.1 + pv.1, q);
    lemma_mod_twice(yy, q);
    lemma_cong_add(q, fmul(q, lam_i, den_i), fmul(q, st.2, fsub(q, st.0, st.3)), xx + st.1 + pv.1, yy);
    assert(st.2 * (st.3 - st.0) + st.1 + pv.1 + st.2 * (st.0 - st.3) == st.1 + pv.1)
        by (nonlinear_arith);
    assert(xx + st.1 + pv.1 + yy == st.1 + pv.1);
    assert(fadd(q, fmul(q, lam_i, den_i), fmul(q, st.2, fsub(q, st.0, st.3))) == (st.1 + pv.1) % q);
    // Subtracting y1_prev and p.y leaves zero.
    let red = (st.1 + pv.1) % q;
    lemma_mod_twice(red, q);
    lemma_mod_twice(st.1 + pv.1, q);
    lemma_cong_sub(q, red % q, st.1, st.1 + pv.1, st.1);
    lemma_mod_twice(red - st.1, q);
    lemma_cong_sub(q, (red - st.1) % q, pv.1, pv.1, pv.1);
    assert(fsub(q, fsub(q, red % q, st.1), pv.1) == 0int % q);
}

/// A packed little-endian bit string is non-negative, bounded by two to the
/// number of bits, and decodes bit by bit to the bits that were packed.
pub proof fn lemma_pack_le_bits(bits: Seq<bool>)
    ensures
        0 <= pack_le(bits) < pow2(bits.len()),
        forall|i: nat| i < bits.len() ==> #[trigger] bit_of(pack_le(bits), i) == bits[i as int],
    decreases bits.len(),
{
    vstd::arithmetic::power2::lemma_pow2_pos(bits.len());
    if bits.len() == 0 {
    } else {
        let tail = bits.drop_first();
        let b0: int = if bits[0] { 1 } else { 0 };
        let t = pack_le(tail);
        let v = b0 + 2 * t;
        lemma_pack_le_bits(tail);
        vstd::arithmetic::power2::lemma_pow2_unfold(bits.len());
        assert(v < pow2(bits.len()));
        vstd::arithmetic::div_mod::lemma_fundamental_div_mod_converse(v, 2, t, b0);
        assert(v % 2 == b0 && v / 2 == t);
        assert(pow2(0) == 1) by {
            vstd::arithmetic::power2::lemma2_to64();
        }
        assert(bit_of(v, 0) == bits[0]);
        assert forall|i: nat| 0 < i < bits.len() implies #[trigger] bit_of(v, i) == bits[
            i as int
        ] by {
            vstd::arithmetic::power2::lemma_pow2_unfold(i);
            vstd::arithmetic::power2::lemma_pow2_pos((i - 1) as nat);
            vstd::arithmetic::div_mod::lemma_div_denominator(v, 2, pow2((i - 1) as nat) as int);
            assert(v / (2 * pow2((i - 1) as nat) as int) == t / (pow2((i - 1) as nat) as int));
            assert(bit_of(v, i) == bit_of(t, (i - 1) as nat));
        }
    }
}

/// Round trip through a field element: packing up to 254 bits into the
/// scalar field of the emulated regime and decoding the element's binary
/// expansion returns exactly the bits that were packed.
pub proof fn lemma_pack_le_round_trip(bits: Seq<bool>)
    requires
        bits.len() <= 254,
    ensures
        forall|i: nat| i < bits.len() ==> #[trigger] bit_of(pack_le(bits) % r381(), i) == bits[
            i as int
        ],
{
    lemma_pack_le_bits(bits);
    lemma_pow2_254_lt_r381();
    if bits.len() < 254 {
        vstd::arithmetic::power2::lemma_pow2_strictly_increases(bits.len(), 254);
    }
    assert(pack_le(bits) < r381());
    vstd::arithmetic::div_mod::lemma_small_mod(pack_le(bits) as nat, r381() as nat);
}

/// Two to the 254th power is still below the scalar field's modulus: the
/// field can pack 254 bits without wrapping.
pub proof fn lemma_pow2_254_lt_r381()
    ensures
        pow2(254) < r381(),
{
    vstd::arithmetic::power2::lemma2_to64();
    vstd::arithmetic::power2::lemma2_to64_rest();
    vstd::arithmetic::power2::lemma_pow2_adds(64, 64);
    vstd::arithmetic::power2::lemma_pow2_adds(128, 64);
    vstd::arithmetic::power2::lemma_pow2_adds(192, 62);
    assert(0x10000000000000000int * 0x10000000000000000int
        == 0x100000000000000000000000000000000int) by (nonlinear_arith);
    assert(0x100000000000000000000000000000000int * 0x10000000000000000int
        == 0x1000000000000000000000000000000000000000000000000int) by (nonlinear_arith);
    assert(0x1000000000000000000000000000000000000000000000000int * 0x4000000000000000int
        == 0x4000000000000000000000000000000000000000000000000000000000000000int)
        by (nonlinear_arith);
    assert(pow2(254)
        == 0x4000000000000000000000000000000000000000000000000000000000000000int);
}

/// The branch-free conditional fold computes the seed plus the sum of
/// exactly the keys whose selector bit is set.
pub proof fn lemma_cond_fold_is_selected_sum(
    q: int,
    seed: (int, int),
    keys: Seq<(int, int)>,
    bits: Seq<bool>,
)
    requires
        keys.len() <= bits.len(),
    ensures
        cond_fold(q, seed, keys, bits) == add_fold(q, seed, selected(keys, bits)),
    decreases keys.len(),
{
    if keys.len() == 0 {
    } else if bits[0] {
        lemma_cond_fold_is_selected_sum(
            q,
            chord_add(q, seed, keys[0]),
            keys.drop_first(),
            bits.drop_first(),
        );
        let tail = selected(keys.drop_first(), bits.drop_first());
        assert((seq![keys[0]] + tail)[0] == keys[0]);
        assert((seq![keys[0]] + tail).drop_first() =~= tail);
    } else {
        lemma_cond_fold_is_selected_sum(q, seed, keys.drop_first(), bits.drop_first());
    }
}

} // verus!
