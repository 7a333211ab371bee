//! Filling a rule table from random draws.
//!
//! The draws themselves are made by the caller, who owns the distributions; this
//! module turns a full set of them into rules. It visits the ordered pairs of
//! types row by row and, after writing the two radii of a pair, copies them to
//! the mirrored pair, so that a pair visited later overwrites what its mirror
//! left. What results is stated by [`generated`]: the radii of a pair and of
//! its mirror both come from the draw of the later of the two.
use crate::particle::{flat, place, Color, ParticleTypes, Rules};
use crate::scalar::{
    lemma_abs_not_negative, lemma_at_least_reaches, lemma_negative_is_at_most_zero,
    lemma_neg_mirrors, Scalar,
};
use vstd::prelude::*;

verus! {

/// What was drawn for one ordered pair of types.
#[derive(Clone, Copy, Debug)]
pub struct RuleDraw {
    /// A draw from the distribution of attractions.
    pub attract: Scalar,
    /// A draw from the range of least radii; not read for a type and itself.
    pub min_r: Scalar,
    /// A draw from the range of greatest radii.
    pub max_r: Scalar,
}

/// The larger of two type indices.
pub open spec fn later(i: int, j: int) -> int {
    if i >= j {
        i
    } else {
        j
    }
}

/// The smaller of two type indices.
pub open spec fn earlier(i: int, j: int) -> int {
    if i >= j {
        j
    } else {
        i
    }
}

/// How far along the ramp of `n` colours type `i` lies, from 0 to 254.
pub open spec fn ramp(i: int, n: int) -> int {
    i * 255 / n
}

/// The colour of type `i` among `n`: red rises and blue falls with the index.
pub open spec fn ramp_color(i: int, n: int) -> Color {
    Color { r: ramp(i, n) as u8, g: 255, b: (255 - ramp(i, n)) as u8, a: 255 }
}

/// The attraction that the generator gives type `i` towards type `j`: what was
/// drawn for the pair, but forced to the negative for a type towards itself.
pub open spec fn generated_attract(draws: Seq<RuleDraw>, n: nat, i: int, j: int) -> Scalar {
    let drawn = draws[flat(i, j, n as int)].attract;
    if i == j {
        drawn.spec_abs().spec_neg()
    } else {
        drawn
    }
}

/// The least radius that the generator gives the pair `i`, `j`: the diameter
/// for a type and itself, else what was drawn for the later of the pair and
/// its mirror, raised to the diameter.
pub open spec fn generated_min_r(draws: Seq<RuleDraw>, n: nat, i: int, j: int) -> Scalar {
    if i == j {
        Scalar::spec_diameter()
    } else {
        draws[flat(later(i, j), earlier(i, j), n as int)].min_r.spec_at_least(
            Scalar::spec_diameter(),
        )
    }
}

/// The greatest radius that the generator gives the pair `i`, `j`: what was
/// drawn for the later of the pair and its mirror, raised to the least radius.
pub open spec fn generated_max_r(draws: Seq<RuleDraw>, n: nat, i: int, j: int) -> Scalar {
    draws[flat(later(i, j), earlier(i, j), n as int)].max_r.spec_at_least(
        generated_min_r(draws, n, i, j),
    )
}

/// The rules that the generator makes of `draws` for `n` types.
pub open spec fn generated(draws: Seq<RuleDraw>, n: nat) -> Rules {
    Rules {
        colors: Seq::new(n, |i: int| ramp_color(i, n as int)),
        attract: Seq::new(n, |i: int| Seq::new(n, |j: int| generated_attract(draws, n, i, j))),
        min_r: Seq::new(n, |i: int| Seq::new(n, |j: int| generated_min_r(draws, n, i, j))),
        max_r: Seq::new(n, |i: int| Seq::new(n, |j: int| generated_max_r(draws, n, i, j))),
    }
}

/// Whether the two radii of every pair equal those of its mirror.
pub open spec fn radii_symmetric(rules: Rules) -> bool {
    forall|i: int, j: int|
        0 <= i < rules.len() && 0 <= j < rules.len() ==> #[trigger] rules.min_r[i][j]
            == rules.min_r[j][i] && #[trigger] rules.max_r[i][j] == rules.max_r[j][i]
}

/// Whether for every pair the greatest radius is at least the least radius,
/// and that at least the diameter.
pub open spec fn radii_ordered(rules: Rules) -> bool {
    forall|i: int, j: int|
        0 <= i < rules.len() && 0 <= j < rules.len() ==> (#[trigger] rules.max_r[i][j]).spec_ge(
            #[trigger] rules.min_r[i][j],
        ) && rules.min_r[i][j].spec_ge(Scalar::spec_diameter())
}

/// Whether every type repels its own kind: its attraction to itself has the
/// sign bit set, and so is at most zero unless it is a NaN.
pub open spec fn self_repelling(rules: Rules) -> bool {
    forall|i: int|
        0 <= i < rules.len() ==> (#[trigger] rules.attract[i])[i].negative() && (
        rules.attract[i][i].spec_is_nan() || rules.attract[i][i].spec_le(Scalar::spec_zero()))
}

/// Generated radii are symmetric: a pair and its mirror have the same least
/// and the same greatest radius, bit for bit.
pub proof fn lemma_generated_symmetric(draws: Seq<RuleDraw>, n: nat, i: int, j: int)
    ensures
        generated_min_r(draws, n, i, j) == generated_min_r(draws, n, j, i),
        generated_max_r(draws, n, i, j) == generated_max_r(draws, n, j, i),
{
}

/// A generated attraction of a type to itself has its sign bit set, and is at
/// most zero unless the draw was a NaN.
pub proof fn lemma_generated_self_repels(draws: Seq<RuleDraw>, n: nat, i: int)
    ensures
        generated_attract(draws, n, i, i).negative(),
        !draws[flat(i, i, n as int)].attract.spec_is_nan() ==> generated_attract(
            draws,
            n,
            i,
            i,
        ).spec_le(Scalar::spec_zero()),
{
    let drawn = draws[flat(i, i, n as int)].attract;
    lemma_abs_not_negative(drawn);
    lemma_neg_mirrors(drawn.spec_abs());
}

/// Generated radii are ordered, whatever was drawn: the greatest is at least
/// the least, and the least at least the diameter.
pub proof fn lemma_generated_ordered(draws: Seq<RuleDraw>, n: nat, i: int, j: int)
    ensures
        generated_max_r(draws, n, i, j).spec_ge(generated_min_r(draws, n, i, j)),
        generated_min_r(draws, n, i, j).spec_ge(Scalar::spec_diameter()),
        !generated_min_r(draws, n, i, j).spec_is_nan(),
        !generated_max_r(draws, n, i, j).spec_is_nan(),
{
    let from = draws[flat(later(i, j), earlier(i, j), n as int)];
    lemma_at_least_reaches(from.min_r, Scalar::spec_diameter());
    lemma_at_least_reaches(from.max_r, generated_min_r(draws, n, i, j));
}

/// The three laws hold of every generated table.
pub proof fn lemma_generated_lawful(draws: Seq<RuleDraw>, n: nat)
    ensures
        generated(draws, n).well_shaped(),
        generated(draws, n).len() == n,
        radii_symmetric(generated(draws, n)),
        radii_ordered(generated(draws, n)),
        self_repelling(generated(draws, n)),
{
    let rules = generated(draws, n);
    assert forall|i: int, j: int| 0 <= i < n && 0 <= j < n implies #[trigger] rules.min_r[i][j]
        == rules.min_r[j][i] && #[trigger] rules.max_r[i][j] == rules.max_r[j][i] by {
        lemma_generated_symmetric(draws, n, i, j);
    }
    assert forall|i: int, j: int| 0 <= i < n && 0 <= j < n implies (#[trigger] rules.max_r[i][j]).spec_ge(
        #[trigger] rules.min_r[i][j],
    ) && rules.min_r[i][j].spec_ge(Scalar::spec_diameter()) by {
        lemma_generated_ordered(draws, n, i, j);
    }
    assert forall|i: int| 0 <= i < n implies (#[trigger] rules.attract[i])[i].negative() && (
    rules.attract[i][i].spec_is_nan() || rules.attract[i][i].spec_le(Scalar::spec_zero())) by {
        lemma_generated_self_repels(draws, n, i);
        lemma_negative_is_at_most_zero(rules.attract[i][i]);
    }
}

/// Whether the pair of row `hi`, column `lo` was visited before the walk
/// reached row `i`, column `j`.
pub open spec fn visited(hi: int, lo: int, i: int, j: int) -> bool {
    hi < i || (hi == i && lo < j)
}

/// What the walk has made of the table when it stands at row `i`, column
/// `j`: every visited pair has its attraction, and every pair whose later
/// mirror was visited has its radii.
pub open spec fn settled(rules: Rules, draws: Seq<RuleDraw>, n: nat, i: int, j: int) -> bool {
    &&& rules.len() == n
    &&& rules.well_shaped()
    &&& forall|a: int, b: int|
        0 <= a < n && 0 <= b < n && visited(a, b, i, j) ==> #[trigger] rules.attract[a][b]
            == generated_attract(draws, n, a, b)
    &&& forall|a: int, b: int|
        0 <= a < n && 0 <= b < n && visited(later(a, b), earlier(a, b), i, j)
            ==> #[trigger] rules.min_r[a][b] == generated_min_r(draws, n, a, b)
    &&& forall|a: int, b: int|
        0 <= a < n && 0 <= b < n && visited(later(a, b), earlier(a, b), i, j)
            ==> #[trigger] rules.max_r[a][b] == generated_max_r(draws, n, a, b)
}

/// The colour of type `i` among `n`, computed.
fn ramp_color_of(i: usize, n: usize) -> (c: Color)
    requires
        i < n,
    ensures
        c == ramp_color(i as int, n as int),
{
    let scaled: u128 = (i as u128) * 255;
    let step: u128 = scaled / (n as u128);
    assert(step < 255) by (nonlinear_arith)
        requires
            0 <= i < n,
            scaled == i * 255,
            step == scaled / (n as u128),
    ;
    let red: u8 = step as u8;
    Color { r: red, g: 255, b: 255 - red, a: 255 }
}

/// Writes `value` where `slot` points, if it points anywhere.
fn put(slot: Option<&mut Scalar>, value: Scalar)
    ensures
        slot matches Some(cell) ==> *final(cell) == value,
{
    match slot {
        Some(cell) => {
            *cell = value;
        },
        None => {},
    }
}

impl ParticleTypes {
    /// Overwrites every rule and colour of the table from `draws`, one draw
    /// per ordered pair of types, row after row.
    ///
    /// Each type gets its colour from the ramp. Each pair gets the attraction
    /// drawn for it, forced negative for a type towards itself; a least radius
    /// of at least the diameter; and a greatest radius of at least the least.
    /// The radii are copied to the mirrored pair at once, so the table ends
    /// symmetric in its radii, ordered in them, and with every type repelling
    /// its own kind.
    pub fn regenerate(&mut self, draws: &Vec<RuleDraw>)
        requires
            old(self).wf(),
            draws@.len() == old(self)@.len() * old(self)@.len(),
        ensures
            final(self).wf(),
            final(self)@ == generated(draws@, old(self)@.len()),
            radii_symmetric(final(self)@),
            radii_ordered(final(self)@),
            self_repelling(final(self)@),
    {
        let n: usize = self.len();
        let mut i: usize = 0;
        while i < n
            invariant
                i <= n,
                n == self@.len(),
                self.wf(),
                draws@.len() == n * n,
                settled(self@, draws@, n as nat, i as int, 0),
                forall|a: int| 0 <= a < i ==> self@.colors[a] == ramp_color(a, n as int),
            decreases n - i,
        {
            let shade: Color = ramp_color_of(i, n);
            match self.color_mut(i) {
                Some(c) => {
                    *c = shade;
                },
                None => {},
            }
            let mut j: usize = 0;
            while j < n
                invariant
                    i < n,
                    j <= n,
                    n == self@.len(),
                    self.wf(),
                    draws@.len() == n * n,
                    settled(self@, draws@, n as nat, i as int, j as int),
                    forall|a: int| 0 <= a <= i ==> self@.colors[a] == ramp_color(a, n as int),
                decreases n - j,
            {
                let at: usize = place(i, j, n, draws.len());
                let drawn: RuleDraw = draws[at];
                let attract: Scalar = if i == j {
                    drawn.attract.abs().neg()
                } else {
                    drawn.attract
                };
                let min_r: Scalar = if i == j {
                    Scalar::diameter()
                } else {
                    drawn.min_r.at_least(Scalar::diameter())
                };
                let max_r: Scalar = drawn.max_r.at_least(min_r);
                put(self.attract_mut(i, j), attract);
                put(self.min_r_mut(i, j), min_r);
                put(self.max_r_mut(i, j), max_r);
                put(self.max_r_mut(j, i), max_r);
                put(self.min_r_mut(j, i), min_r);
                j += 1;
            }
            i += 1;
        }
        proof {
            let made = generated(draws@, n as nat);
            assert forall|a: int| 0 <= a < n implies #[trigger] self@.attract[a]
                == made.attract[a] by {
                assert(self@.attract[a] =~= made.attract[a]);
            }
            assert forall|a: int| 0 <= a < n implies #[trigger] self@.min_r[a] == made.min_r[a] by {
                assert(self@.min_r[a] =~= made.min_r[a]);
            }
            assert forall|a: int| 0 <= a < n implies #[trigger] self@.max_r[a] == made.max_r[a] by {
                assert(self@.max_r[a] =~= made.max_r[a]);
            }
            assert(self@.attract =~= made.attract);
            assert(self@.min_r =~= made.min_r);
            assert(self@.max_r =~= made.max_r);
            assert(self@.colors =~= made.colors);
            lemma_generated_lawful(draws@, n as nat);
        }
    }
}

} // verus!
