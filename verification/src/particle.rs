//! Particles, display colours, and the table of rules between particle types.
use crate::scalar::Scalar;
use vstd::prelude::*;

verus! {

/// A display colour: red, green, blue, alpha.
#[derive(Clone, Copy, Debug, PartialEq, Eq, Structural)]
pub struct Color {
    pub r: u8,
    pub g: u8,
    pub b: u8,
    pub a: u8,
}

impl Color {
    /// Opaque black, the colour of a type that no generator has touched.
    pub open spec fn spec_black() -> Color {
        Color { r: 0, g: 0, b: 0, a: 255 }
    }

    #[verifier::when_used_as_spec(spec_black)]
    pub fn black() -> (c: Color)
        ensures
            c == Color::spec_black(),
    {
        Color { r: 0, g: 0, b: 0, a: 255 }
    }
}

/// A point particle: where it is, how fast it moves, and which type it has.
#[derive(Clone, Copy, Debug)]
pub struct Particle {
    pub x: Scalar,
    pub y: Scalar,
    pub vx: Scalar,
    pub vy: Scalar,
    pub p_type: u8,
}

impl Particle {
    /// The particle at rest at the origin, of type 0.
    pub open spec fn spec_at_rest() -> Particle {
        Particle {
            x: Scalar::spec_zero(),
            y: Scalar::spec_zero(),
            vx: Scalar::spec_zero(),
            vy: Scalar::spec_zero(),
            p_type: 0,
        }
    }
}

impl Default for Particle {
    fn default() -> (p: Particle)
        ensures
            p == Particle::spec_at_rest(),
    {
        Particle {
            x: Scalar::zero(),
            y: Scalar::zero(),
            vx: Scalar::zero(),
            vy: Scalar::zero(),
            p_type: 0,
        }
    }
}

/// What a rule table holds, as mathematics: one colour per type, and three
/// square matrices over the types, read as `matrix[i][j]` for the rule that
/// type `i` follows towards type `j`.
pub struct Rules {
    pub colors: Seq<Color>,
    pub attract: Seq<Seq<Scalar>>,
    pub min_r: Seq<Seq<Scalar>>,
    pub max_r: Seq<Seq<Scalar>>,
}

/// Whether `m` has `n` rows of `n` entries.
pub open spec fn is_square(m: Seq<Seq<Scalar>>, n: nat) -> bool {
    &&& m.len() == n
    &&& forall|i: int| 0 <= i < n ==> (#[trigger] m[i]).len() == n
}

/// The `n` by `n` matrix of zeros.
pub open spec fn zero_matrix(n: nat) -> Seq<Seq<Scalar>> {
    Seq::new(n, |i: int| Seq::new(n, |j: int| Scalar::spec_zero()))
}

/// `m` cut or grown to `n` by `n`: entries of the overlap stay, new ones are
/// zero.
pub open spec fn resized_matrix(m: Seq<Seq<Scalar>>, n: nat) -> Seq<Seq<Scalar>> {
    Seq::new(
        n,
        |i: int|
            Seq::new(
                n,
                |j: int|
                    if i < m.len() && j < m.len() {
                        m[i][j]
                    } else {
                        Scalar::spec_zero()
                    },
            ),
    )
}

/// `m` with the entry at row `i`, column `j` replaced by `v`.
pub open spec fn with_entry(m: Seq<Seq<Scalar>>, i: int, j: int, v: Scalar) -> Seq<Seq<Scalar>> {
    m.update(i, m[i].update(j, v))
}

impl Rules {
    /// The number of types.
    pub open spec fn len(self) -> nat {
        self.colors.len()
    }

    /// Whether the three matrices are square over the types.
    pub open spec fn well_shaped(self) -> bool {
        &&& is_square(self.attract, self.len())
        &&& is_square(self.min_r, self.len())
        &&& is_square(self.max_r, self.len())
    }

    /// The table of `n` types that nothing has been written to.
    pub open spec fn blank(n: nat) -> Rules {
        Rules {
            colors: Seq::new(n, |i: int| Color::spec_black()),
            attract: zero_matrix(n),
            min_r: zero_matrix(n),
            max_r: zero_matrix(n),
        }
    }

    /// The table cut or grown to `n` types. What it held for the types that
    /// stay is kept; new types are black and their rules zero.
    pub open spec fn resized(self, n: nat) -> Rules {
        Rules {
            colors: Seq::new(
                n,
                |i: int|
                    if i < self.len() {
                        self.colors[i]
                    } else {
                        Color::spec_black()
                    },
            ),
            attract: resized_matrix(self.attract, n),
            min_r: resized_matrix(self.min_r, n),
            max_r: resized_matrix(self.max_r, n),
        }
    }
}

/// Resizing keeps what the table held for the types that stay: every rule
/// between two of them, and the colour of each, are what they were.
pub proof fn lemma_resize_keeps_rules(rules: Rules, n: nat, i: int, j: int)
    requires
        rules.well_shaped(),
        0 <= i < rules.len(),
        0 <= j < rules.len(),
        i < n,
        j < n,
    ensures
        rules.resized(n).attract[i][j] == rules.attract[i][j],
        rules.resized(n).min_r[i][j] == rules.min_r[i][j],
        rules.resized(n).max_r[i][j] == rules.max_r[i][j],
        rules.resized(n).colors[i] == rules.colors[i],
        rules.resized(n).len() == n,
        rules.resized(n).well_shaped(),
{
}

/// Where the entry of row `i`, column `j` lies in a matrix of side `n` stored
/// row after row.
pub open spec fn flat(i: int, j: int, n: int) -> int {
    i * n + j
}

/// The matrix of side `n` that `cells` stores row after row.
pub open spec fn unflatten(cells: Seq<Scalar>, n: nat) -> Seq<Seq<Scalar>> {
    Seq::new(n, |i: int| Seq::new(n, |j: int| cells[flat(i, j, n as int)]))
}

/// Every entry of a square matrix has a place in its storage.
pub proof fn lemma_flat_in_bounds(i: int, j: int, n: int)
    requires
        0 <= i < n,
        0 <= j < n,
    ensures
        0 <= i * n,
        0 <= flat(i, j, n) < n * n,
        flat(i, j, n) < (i + 1) * n,
        (i + 1) * n <= n * n,
{
    assert(0 <= i * n && i * n + j < (i + 1) * n && (i + 1) * n <= n * n) by (nonlinear_arith)
        requires
            0 <= i < n,
            0 <= j < n,
    ;
}

/// No two entries of a square matrix share a place in its storage.
pub proof fn lemma_flat_injective(i: int, j: int, a: int, b: int, n: int)
    requires
        0 <= i,
        0 <= a,
        0 <= j < n,
        0 <= b < n,
        flat(i, j, n) == flat(a, b, n),
    ensures
        i == a,
        j == b,
{
    assert(i == a) by (nonlinear_arith)
        requires
            0 <= i,
            0 <= a,
            0 <= j < n,
            0 <= b < n,
            i * n + j == a * n + b,
    ;
}

/// Writing one place of the storage writes one entry of the matrix.
pub proof fn lemma_unflatten_update(cells: Seq<Scalar>, n: nat, i: int, j: int, v: Scalar)
    requires
        cells.len() == n * n,
        0 <= i < n,
        0 <= j < n,
    ensures
        unflatten(cells.update(flat(i, j, n as int), v), n) == with_entry(
            unflatten(cells, n),
            i,
            j,
            v,
        ),
{
    let at = flat(i, j, n as int);
    let left = unflatten(cells.update(at, v), n);
    let right = with_entry(unflatten(cells, n), i, j, v);
    lemma_flat_in_bounds(i, j, n as int);
    assert forall|a: int| 0 <= a < n implies #[trigger] left[a] == right[a] by {
        assert forall|b: int| 0 <= b < n implies left[a][b] == right[a][b] by {
            lemma_flat_in_bounds(a, b, n as int);
            if flat(a, b, n as int) == at {
                lemma_flat_injective(a, b, i, j, n as int);
            }
        }
        assert(left[a] =~= right[a]);
    }
    assert(left =~= right);
}

/// The rules between particle types: for every ordered pair of types an
/// attraction, a least and a greatest radius, and for every type a colour.
pub struct ParticleTypes {
    color: Vec<Color>,
    attract: Vec<Scalar>,
    min_r: Vec<Scalar>,
    max_r: Vec<Scalar>,
}

impl View for ParticleTypes {
    type V = Rules;

    closed spec fn view(&self) -> Rules {
        Rules {
            colors: self.color@,
            attract: unflatten(self.attract@, self.color@.len()),
            min_r: unflatten(self.min_r@, self.color@.len()),
            max_r: unflatten(self.max_r@, self.color@.len()),
        }
    }
}

impl ParticleTypes {
    /// Each matrix is stored whole.
    pub closed spec fn stored(&self) -> bool {
        let n = self.color@.len();
        &&& self.attract@.len() == n * n
        &&& self.min_r@.len() == n * n
        &&& self.max_r@.len() == n * n
    }

    /// The table is sound: its storage is whole, and so its view is
    /// well shaped.
    pub open spec fn wf(&self) -> bool {
        &&& self.stored()
        &&& self@.well_shaped()
    }

    /// The table of `len` types with every rule zero and every colour black.
    pub fn with_len(len: usize) -> (table: ParticleTypes)
        requires
            len * len <= usize::MAX,
        ensures
            table.wf(),
            table@ == Rules::blank(len as nat),
    {
        let cells: usize = len * len;
        let table = ParticleTypes {
            color: filled_colors(len),
            attract: zeros(cells),
            min_r: zeros(cells),
            max_r: zeros(cells),
        };
        proof {
            let n = len as nat;
            assert forall|i: int| 0 <= i < n implies #[trigger] table@.attract[i] == zero_matrix(
                n,
            )[i] && table@.min_r[i] == zero_matrix(n)[i] && table@.max_r[i] == zero_matrix(n)[i] by {
                assert forall|j: int| 0 <= j < n implies table@.attract[i][j] == Scalar::spec_zero()
                    && table@.min_r[i][j] == Scalar::spec_zero() && table@.max_r[i][j]
                    == Scalar::spec_zero() by {
                    lemma_flat_in_bounds(i, j, n as int);
                }
                assert(table@.attract[i] =~= zero_matrix(n)[i]);
                assert(table@.min_r[i] =~= zero_matrix(n)[i]);
                assert(table@.max_r[i] =~= zero_matrix(n)[i]);
            }
            assert(table@.attract =~= zero_matrix(n));
            assert(table@.min_r =~= zero_matrix(n));
            assert(table@.max_r =~= zero_matrix(n));
            assert(table@.colors =~= Rules::blank(n).colors);
        }
        table
    }

    /// The number of types.
    pub fn len(&self) -> (n: usize)
        ensures
            n == self@.len(),
    {
        self.color.len()
    }

    /// Cuts or grows the table to `size` types. The colours and rules of the
    /// types that stay are kept, those of new types are black and zero.
    pub fn resize(&mut self, size: usize)
        requires
            old(self).wf(),
            size * size <= usize::MAX,
        ensures
            final(self).wf(),
            final(self)@ == old(self)@.resized(size as nat),
    {
        let before: usize = self.color.len();
        let mut color: Vec<Color> = Vec::new();
        let mut k: usize = 0;
        while k < size
            invariant
                k <= size,
                before == self.color@.len(),
                color@.len() == k,
                forall|m: int|
                    0 <= m < k ==> color@[m] == if m < before {
                        self.color@[m]
                    } else {
                        Color::spec_black()
                    },
            decreases size - k,
        {
            if k < before {
                color.push(self.color[k]);
            } else {
                color.push(Color::black());
            }
            k += 1;
        }
        let attract = resized_cells(&self.attract, before, size);
        let min_r = resized_cells(&self.min_r, before, size);
        let max_r = resized_cells(&self.max_r, before, size);
        proof {
            assert(color@ =~= old(self)@.resized(size as nat).colors);
            lemma_unflatten_resized(old(self).attract@, before as nat, attract@, size as nat);
            lemma_unflatten_resized(old(self).min_r@, before as nat, min_r@, size as nat);
            lemma_unflatten_resized(old(self).max_r@, before as nat, max_r@, size as nat);
        }
        self.color = color;
        self.attract = attract;
        self.min_r = min_r;
        self.max_r = max_r;
    }

    /// The colour of type `i`, if there is such a type.
    pub fn color(&self, i: usize) -> (r: Option<&Color>)
        ensures
            r.is_some() == (i < self@.len()),
            r matches Some(c) ==> *c == self@.colors[i as int],
    {
        if i < self.color.len() {
            Some(&self.color[i])
        } else {
            None
        }
    }

    /// The colour of type `i`, to write to, if there is such a type.
    pub fn color_mut(&mut self, i: usize) -> (r: Option<&mut Color>)
        requires
            old(self).wf(),
        ensures
            final(self).wf(),
            r.is_some() == (i < old(self)@.len()),
            r.is_none() ==> final(self)@ == old(self)@,
            r matches Some(c) ==> *c == old(self)@.colors[i as int] && final(self)@ == (Rules {
                colors: old(self)@.colors.update(i as int, *final(c)),
                ..old(self)@
            }),
    {
        if i < self.color.len() {
            Some(&mut self.color[i])
        } else {
            None
        }
    }

    /// The attraction that type `i` feels towards type `j`, if both are types
    /// of the table.
    pub fn attract(&self, i: usize, j: usize) -> (r: Option<&Scalar>)
        requires
            self.wf(),
        ensures
            r.is_some() == (i < self@.len() && j < self@.len()),
            r matches Some(v) ==> *v == self@.attract[i as int][j as int],
    {
        let n: usize = self.color.len();
        if i < n && j < n {
            let at: usize = place(i, j, n, self.attract.len());
            Some(&self.attract[at])
        } else {
            None
        }
    }

    /// The attraction that type `i` feels towards type `j`, to write to, if
    /// both are types of the table.
    pub fn attract_mut(&mut self, i: usize, j: usize) -> (r: Option<&mut Scalar>)
        requires
            old(self).wf(),
        ensures
            final(self).wf(),
            r.is_some() == (i < old(self)@.len() && j < old(self)@.len()),
            r.is_none() ==> final(self)@ == old(self)@,
            r matches Some(v) ==> *v == old(self)@.attract[i as int][j as int] && final(self)@ == (
            Rules {
                attract: with_entry(old(self)@.attract, i as int, j as int, *final(v)),
                ..old(self)@
            }),
    {
        let n: usize = self.color.len();
        if i < n && j < n {
            let at: usize = place(i, j, n, self.attract.len());
            proof {
                lemma_unflatten_update_all(self.attract@, n as nat, i as int, j as int);
            }
            Some(&mut self.attract[at])
        } else {
            None
        }
    }

    /// The radius under which type `i` is pushed away from type `j`, if both
    /// are types of the table.
    pub fn min_r(&self, i: usize, j: usize) -> (r: Option<&Scalar>)
        requires
            self.wf(),
        ensures
            r.is_some() == (i < self@.len() && j < self@.len()),
            r matches Some(v) ==> *v == self@.min_r[i as int][j as int],
    {
        let n: usize = self.color.len();
        if i < n && j < n {
            let at: usize = place(i, j, n, self.min_r.len());
            Some(&self.min_r[at])
        } else {
            None
        }
    }

    /// The radius under which type `i` is pushed away from type `j`, to write
    /// to, if both are types of the table.
    pub fn min_r_mut(&mut self, i: usize, j: usize) -> (r: Option<&mut Scalar>)
        requires
            old(self).wf(),
        ensures
            final(self).wf(),
            r.is_some() == (i < old(self)@.len() && j < old(self)@.len()),
            r.is_none() ==> final(self)@ == old(self)@,
            r matches Some(v) ==> *v == old(self)@.min_r[i as int][j as int] && final(self)@ == (
            Rules {
                min_r: with_entry(old(self)@.min_r, i as int, j as int, *final(v)),
                ..old(self)@
            }),
    {
        let n: usize = self.color.len();
        if i < n && j < n {
            let at: usize = place(i, j, n, self.min_r.len());
            proof {
                lemma_unflatten_update_all(self.min_r@, n as nat, i as int, j as int);
            }
            Some(&mut self.min_r[at])
        } else {
            None
        }
    }

    /// The radius beyond which type `i` no longer feels type `j`, if both are
    /// types of the table.
    pub fn max_r(&self, i: usize, j: usize) -> (r: Option<&Scalar>)
        requires
            self.wf(),
        ensures
            r.is_some() == (i < self@.len() && j < self@.len()),
            r matches Some(v) ==> *v == self@.max_r[i as int][j as int],
    {
        let n: usize = self.color.len();
        if i < n && j < n {
            let at: usize = place(i, j, n, self.max_r.len());
            Some(&self.max_r[at])
        } else {
            None
        }
    }

    /// The radius beyond which type `i` no longer feels type `j`, to write
    /// to, if both are types of the table.
    pub fn max_r_mut(&mut self, i: usize, j: usize) -> (r: Option<&mut Scalar>)
        requires
            old(self).wf(),
        ensures
            final(self).wf(),
            r.is_some() == (i < old(self)@.len() && j < old(self)@.len()),
            r.is_none() ==> final(self)@ == old(self)@,
            r matches Some(v) ==> *v == old(self)@.max_r[i as int][j as int] && final(self)@ == (
            Rules {
                max_r: with_entry(old(self)@.max_r, i as int, j as int, *final(v)),
                ..old(self)@
            }),
    {
        let n: usize = self.color.len();
        if i < n && j < n {
            let at: usize = place(i, j, n, self.max_r.len());
            proof {
                lemma_unflatten_update_all(self.max_r@, n as nat, i as int, j as int);
            }
            Some(&mut self.max_r[at])
        } else {
            None
        }
    }
}

/// The place in a storage of `stored` entries of the entry of row `i`, column
/// `j`.
pub(crate) fn place(i: usize, j: usize, n: usize, stored: usize) -> (at: usize)
    requires
        i < n,
        j < n,
        stored == n * n,
    ensures
        at == flat(i as int, j as int, n as int),
        at < stored,
{
    proof {
        lemma_flat_in_bounds(i as int, j as int, n as int);
    }
    i * n + j
}

/// Writing one place of the storage writes one entry of the matrix, whatever
/// is written.
proof fn lemma_unflatten_update_all(cells: Seq<Scalar>, n: nat, i: int, j: int)
    requires
        cells.len() == n * n,
        0 <= i < n,
        0 <= j < n,
    ensures
        forall|v: Scalar| #[trigger]
            unflatten(cells.update(flat(i, j, n as int), v), n) == with_entry(
                unflatten(cells, n),
                i,
                j,
                v,
            ),
{
    assert forall|v: Scalar| #[trigger]
        unflatten(cells.update(flat(i, j, n as int), v), n) == with_entry(
            unflatten(cells, n),
            i,
            j,
            v,
        ) by {
        lemma_unflatten_update(cells, n, i, j, v);
    }
}

/// Storage that agrees entry by entry with the resized matrix stores it.
proof fn lemma_unflatten_resized(old_cells: Seq<Scalar>, before: nat, cells: Seq<Scalar>, n: nat)
    requires
        old_cells.len() == before * before,
        cells.len() == n * n,
        forall|i: int, j: int|
            0 <= i < n && 0 <= j < n ==> cells[#[trigger] flat(i, j, n as int)] == if i < before
                && j < before {
                old_cells[flat(i, j, before as int)]
            } else {
                Scalar::spec_zero()
            },
    ensures
        unflatten(cells, n) == resized_matrix(unflatten(old_cells, before), n),
        is_square(unflatten(cells, n), n),
{
    let left = unflatten(cells, n);
    let right = resized_matrix(unflatten(old_cells, before), n);
    assert forall|i: int| 0 <= i < n implies #[trigger] left[i] == right[i] by {
        assert forall|j: int| 0 <= j < n implies left[i][j] == right[i][j] by {
            assert(cells[flat(i, j, n as int)] == left[i][j]);
        }
        assert(left[i] =~= right[i]);
    }
    assert(left =~= right);
}

/// The storage of a matrix of side `before`, cut or grown to side `size`.
fn resized_cells(cells: &Vec<Scalar>, before: usize, size: usize) -> (out: Vec<Scalar>)
    requires
        cells@.len() == before * before,
        size * size <= usize::MAX,
    ensures
        out@.len() == size * size,
        forall|i: int, j: int|
            0 <= i < size && 0 <= j < size ==> out@[#[trigger] flat(i, j, size as int)] == if i
                < before && j < before {
                cells@[flat(i, j, before as int)]
            } else {
                Scalar::spec_zero()
            },
{
    let mut out: Vec<Scalar> = Vec::new();
    let mut i: usize = 0;
    while i < size
        invariant
            i <= size,
            cells@.len() == before * before,
            size * size <= usize::MAX,
            out@.len() == i * size,
            forall|a: int, b: int|
                0 <= a < i && 0 <= b < size ==> out@[#[trigger] flat(a, b, size as int)] == if a
                    < before && b < before {
                    cells@[flat(a, b, before as int)]
                } else {
                    Scalar::spec_zero()
                },
        decreases size - i,
    {
        let mut j: usize = 0;
        while j < size
            invariant
                i < size,
                j <= size,
                cells@.len() == before * before,
                size * size <= usize::MAX,
                out@.len() == i * size + j,
                forall|a: int, b: int|
                    0 <= a < i && 0 <= b < size ==> out@[#[trigger] flat(a, b, size as int)] == if a
                        < before && b < before {
                        cells@[flat(a, b, before as int)]
                    } else {
                        Scalar::spec_zero()
                    },
                forall|b: int|
                    0 <= b < j ==> out@[#[trigger] flat(i as int, b, size as int)] == if i < before
                        && b < before {
                        cells@[flat(i as int, b, before as int)]
                    } else {
                        Scalar::spec_zero()
                    },
            decreases size - j,
        {
            let ghost prior = out@;
            let value: Scalar = if i < before && j < before {
                let at: usize = place(i, j, before, cells.len());
                cells[at]
            } else {
                Scalar::zero()
            };
            out.push(value);
            proof {
                assert(out@.len() == flat(i as int, j as int, size as int) + 1);
                assert forall|a: int, b: int| 0 <= a < i && 0 <= b < size implies out@[#[trigger] flat(
                    a,
                    b,
                    size as int,
                )] == prior[flat(a, b, size as int)] by {
                    lemma_flat_in_bounds(a, b, size as int);
                    assert((a + 1) * size <= i * size) by (nonlinear_arith)
                        requires
                            a + 1 <= i,
                            0 <= size,
                    ;
                }
            }
            j += 1;
        }
        proof {
            assert((i + 1) * size == i * size + size) by (nonlinear_arith);
        }
        i += 1;
    }
    out
}

/// `n` zeros.
fn zeros(n: usize) -> (v: Vec<Scalar>)
    ensures
        v@.len() == n,
        forall|k: int| 0 <= k < n ==> v@[k] == Scalar::spec_zero(),
{
    let mut v: Vec<Scalar> = Vec::new();
    let mut k: usize = 0;
    while k < n
        invariant
            k <= n,
            v@.len() == k,
            forall|m: int| 0 <= m < k ==> v@[m] == Scalar::spec_zero(),
        decreases n - k,
    {
        v.push(Scalar::zero());
        k += 1;
    }
    v
}

/// `n` times black.
fn filled_colors(n: usize) -> (v: Vec<Color>)
    ensures
        v@.len() == n,
        forall|k: int| 0 <= k < n ==> v@[k] == Color::spec_black(),
{
    let mut v: Vec<Color> = Vec::new();
    let mut k: usize = 0;
    while k < n
        invariant
            k <= n,
            v@.len() == k,
            forall|m: int| 0 <= m < k ==> v@[m] == Color::spec_black(),
        decreases n - k,
    {
        v.push(Color::black());
        k += 1;
    }
    v
}

} // verus!
