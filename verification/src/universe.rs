//! The world: its particles, its rules, and the settings of a run.
use crate::generator::{generated, radii_ordered, radii_symmetric, self_repelling, RuleDraw};
use crate::particle::{with_entry, Particle, ParticleTypes, Rules};
use crate::rng::{draw_below, thread_generator};
use crate::scalar::Scalar;
use crate::step::{first_within, is_first_within};
use rand::rngs::ThreadRng;
use vstd::prelude::*;

verus! {

/// The parameters that the caller draws rules with: mean and deviation of the
/// attractions, and the ranges of the least and of the greatest radius.
#[derive(Clone, Copy, Debug)]
pub struct RandomSettings {
    pub attract_mean: Scalar,
    pub attract_std: Scalar,
    pub min_r_lower: Scalar,
    pub min_r_upper: Scalar,
    pub max_r_lower: Scalar,
    pub max_r_upper: Scalar,
}

impl RandomSettings {
    /// The settings with every parameter zero.
    pub open spec fn spec_new() -> RandomSettings {
        RandomSettings {
            attract_mean: Scalar::spec_zero(),
            attract_std: Scalar::spec_zero(),
            min_r_lower: Scalar::spec_zero(),
            min_r_upper: Scalar::spec_zero(),
            max_r_lower: Scalar::spec_zero(),
            max_r_upper: Scalar::spec_zero(),
        }
    }

    /// The settings with every parameter zero.
    #[verifier::when_used_as_spec(spec_new)]
    pub fn new() -> (settings: RandomSettings)
        ensures
            settings == RandomSettings::spec_new(),
    {
        RandomSettings {
            attract_mean: Scalar::zero(),
            attract_std: Scalar::zero(),
            min_r_lower: Scalar::zero(),
            min_r_upper: Scalar::zero(),
            max_r_lower: Scalar::zero(),
            max_r_upper: Scalar::zero(),
        }
    }

    /// Replaces every parameter; each range is given as lower, upper.
    pub fn re_seed(
        &mut self,
        attract_mean: Scalar,
        attract_std: Scalar,
        min_r: (Scalar, Scalar),
        max_r: (Scalar, Scalar),
    )
        ensures
            *final(self) == (RandomSettings {
                attract_mean,
                attract_std,
                min_r_lower: min_r.0,
                min_r_upper: min_r.1,
                max_r_lower: max_r.0,
                max_r_upper: max_r.1,
            }),
    {
        *self = RandomSettings {
            attract_mean,
            attract_std,
            min_r_lower: min_r.0,
            min_r_upper: min_r.1,
            max_r_lower: max_r.0,
            max_r_upper: max_r.1,
        };
    }
}

/// Where a particle is put and how fast it is sent off.
#[derive(Clone, Copy, Debug)]
pub struct Placement {
    pub x: Scalar,
    pub y: Scalar,
    pub vx: Scalar,
    pub vy: Scalar,
}

/// The rule that one particle follows towards another.
#[derive(Clone, Copy, Debug)]
pub struct PairRule {
    pub attract: Scalar,
    pub min_r: Scalar,
    pub max_r: Scalar,
}

/// What a world holds, as mathematics.
pub struct World {
    pub width: Scalar,
    pub height: Scalar,
    pub wrap: bool,
    pub friction: Scalar,
    pub flat_force: bool,
    pub settings: RandomSettings,
    pub rules: Rules,
    pub particles: Seq<Particle>,
}

impl World {
    /// Whether every particle has a type of the rule table.
    pub open spec fn typed(self) -> bool {
        forall|k: int|
            0 <= k < self.particles.len() ==> (#[trigger] self.particles[k]).p_type
                < self.rules.len()
    }

    /// The rule that particle `i` follows towards particle `j`.
    pub open spec fn pair_rule(self, i: int, j: int) -> PairRule {
        let from = self.particles[i].p_type as int;
        let to = self.particles[j].p_type as int;
        PairRule {
            attract: self.rules.attract[from][to],
            min_r: self.rules.min_r[from][to],
            max_r: self.rules.max_r[from][to],
        }
    }
}

/// Whether `after` is `before` cut or grown to `count` particles for a table
/// of `types` types: a particle that stays keeps place and speed, and keeps
/// its type where the table still has it, else has some type of the table; a
/// new particle is at rest at the origin, of type 0.
pub open spec fn repopulated(
    before: Seq<Particle>,
    after: Seq<Particle>,
    types: nat,
    count: nat,
) -> bool {
    &&& after.len() == count
    &&& forall|k: int|
        0 <= k < count ==> (#[trigger] after[k]).p_type < types && if k < before.len() {
            &&& after[k].x == before[k].x
            &&& after[k].y == before[k].y
            &&& after[k].vx == before[k].vx
            &&& after[k].vy == before[k].vy
            &&& before[k].p_type < types ==> after[k].p_type == before[k].p_type
        } else {
            after[k] == Particle::spec_at_rest()
        }
}

/// Whether `after` is `before` with every particle put where `placements`
/// says, and of some type of a table of `types` types.
pub open spec fn scattered(
    before: Seq<Particle>,
    after: Seq<Particle>,
    placements: Seq<Placement>,
    types: nat,
) -> bool {
    &&& after.len() == before.len()
    &&& forall|k: int|
        0 <= k < after.len() ==> (#[trigger] after[k]).p_type < types && after[k].x
            == placements[k].x && after[k].y == placements[k].y && after[k].vx == placements[k].vx
            && after[k].vy == placements[k].vy
}

/// A world of particles and the rules between their types.
pub struct Universe {
    width: Scalar,
    height: Scalar,
    wrap: bool,
    particles: Vec<Particle>,
    types: ParticleTypes,
    rng: ThreadRng,
    rand_settings: RandomSettings,
    friction: Scalar,
    flat_force: bool,
}

impl View for Universe {
    type V = World;

    closed spec fn view(&self) -> World {
        World {
            width: self.width,
            height: self.height,
            wrap: self.wrap,
            friction: self.friction,
            flat_force: self.flat_force,
            settings: self.rand_settings,
            rules: self.types@,
            particles: self.particles@,
        }
    }
}

impl Universe {
    /// The rule table is sound.
    pub closed spec fn table_sound(&self) -> bool {
        self.types.wf()
    }

    /// The world is sound: its table is, and every particle has a type of it.
    pub open spec fn wf(&self) -> bool {
        &&& self.table_sound()
        &&& self@.rules.well_shaped()
        &&& self@.typed()
    }

    /// A world of `num_types` types and `num_particles` particles, `width` by
    /// `height`, that wraps around. Every rule is zero, every particle at rest
    /// at the origin and of type 0, friction is zero and forces are not flat.
    pub fn new(num_types: usize, num_particles: usize, width: Scalar, height: Scalar) -> (world:
        Universe)
        requires
            num_types * num_types <= usize::MAX,
            num_particles > 0 ==> num_types > 0,
        ensures
            world.wf(),
            world@ == (World {
                width,
                height,
                wrap: true,
                friction: Scalar::spec_zero(),
                flat_force: false,
                settings: RandomSettings::spec_new(),
                rules: Rules::blank(num_types as nat),
                particles: Seq::new(num_particles as nat, |k: int| Particle::spec_at_rest()),
            }),
    {
        let mut particles: Vec<Particle> = Vec::new();
        let mut k: usize = 0;
        while k < num_particles
            invariant
                k <= num_particles,
                particles@.len() == k,
                forall|m: int| 0 <= m < k ==> particles@[m] == Particle::spec_at_rest(),
            decreases num_particles - k,
        {
            particles.push(Particle::default());
            k += 1;
        }
        let world = Universe {
            width,
            height,
            wrap: true,
            types: ParticleTypes::with_len(num_types),
            particles,
            rng: thread_generator(),
            rand_settings: RandomSettings::new(),
            friction: Scalar::zero(),
            flat_force: false,
        };
        assert(world@.particles =~= Seq::new(
            num_particles as nat,
            |k: int| Particle::spec_at_rest(),
        ));
        world
    }

    /// Cuts or grows the world to `num_types` types and `num_particles`
    /// particles. Rules and colours of the types that stay are kept, as are
    /// the particles that stay; a particle whose type is gone is given a type
    /// drawn anew.
    pub fn set_population(&mut self, num_types: usize, num_particles: usize)
        requires
            old(self).wf(),
            num_types * num_types <= usize::MAX,
            num_particles > 0 ==> num_types > 0,
        ensures
            final(self).wf(),
            final(self)@.rules == old(self)@.rules.resized(num_types as nat),
            repopulated(
                old(self)@.particles,
                final(self)@.particles,
                num_types as nat,
                num_particles as nat,
            ),
            final(self)@ == (World {
                rules: final(self)@.rules,
                particles: final(self)@.particles,
                ..old(self)@
            }),
    {
        self.types.resize(num_types);
        let before: usize = self.particles.len();
        let mut k: usize = 0;
        let mut particles: Vec<Particle> = Vec::new();
        while k < num_particles
            invariant
                k <= num_particles,
                num_particles > 0 ==> num_types > 0,
                before == self.particles@.len(),
                self.table_sound(),
                self@ == (World {
                    rules: old(self)@.rules.resized(num_types as nat),
                    ..old(self)@
                }),
                repopulated(self.particles@, particles@, num_types as nat, k as nat),
            decreases num_particles - k,
        {
            let mut p: Particle = if k < before {
                self.particles[k]
            } else {
                Particle::default()
            };
            if p.p_type as usize >= num_types {
                let drawn: usize = draw_below(&mut self.rng, num_types);
                p.p_type = #[verifier::truncate]
                (drawn as u8);
                assert(p.p_type < num_types) by {
                    if num_types <= 256 {
                        assert(drawn as u8 == drawn);
                    }
                }
            }
            particles.push(p);
            k += 1;
        }
        self.particles = particles;
    }

    /// Takes the settings of a new run, then overwrites every rule from
    /// `draws` and scatters every particle as `placements` says. Each range
    /// is given as lower, upper.
    pub fn re_seed(
        &mut self,
        attract_mean: Scalar,
        attract_std: Scalar,
        min_r: (Scalar, Scalar),
        max_r: (Scalar, Scalar),
        friction: Scalar,
        flat_force: bool,
        draws: &Vec<RuleDraw>,
        placements: &Vec<Placement>,
    )
        requires
            old(self).wf(),
            draws@.len() == old(self)@.rules.len() * old(self)@.rules.len(),
            placements@.len() == old(self)@.particles.len(),
        ensures
            final(self).wf(),
            final(self)@.rules == generated(draws@, old(self)@.rules.len()),
            radii_symmetric(final(self)@.rules),
            radii_ordered(final(self)@.rules),
            self_repelling(final(self)@.rules),
            scattered(
                old(self)@.particles,
                final(self)@.particles,
                placements@,
                old(self)@.rules.len(),
            ),
            final(self)@ == (World {
                friction,
                flat_force,
                settings: RandomSettings {
                    attract_mean,
                    attract_std,
                    min_r_lower: min_r.0,
                    min_r_upper: min_r.1,
                    max_r_lower: max_r.0,
                    max_r_upper: max_r.1,
                },
                rules: final(self)@.rules,
                particles: final(self)@.particles,
                ..old(self)@
            }),
    {
        self.friction = friction;
        self.flat_force = flat_force;
        self.rand_settings.re_seed(attract_mean, attract_std, min_r, max_r);
        self.set_random_types(draws);
        self.set_random_particles(placements);
    }

    /// Overwrites every rule and colour from `draws`, one draw per ordered
    /// pair of types, row after row. The radii end symmetric and ordered, and
    /// every type repels its own kind.
    pub fn set_random_types(&mut self, draws: &Vec<RuleDraw>)
        requires
            old(self).wf(),
            draws@.len() == old(self)@.rules.len() * old(self)@.rules.len(),
        ensures
            final(self).wf(),
            final(self)@ == (World {
                rules: generated(draws@, old(self)@.rules.len()),
                ..old(self)@
            }),
            radii_symmetric(final(self)@.rules),
            radii_ordered(final(self)@.rules),
            self_repelling(final(self)@.rules),
    {
        self.types.regenerate(draws);
    }

    /// Puts every particle where `placements` says, one placement per
    /// particle, and draws it a type of the table. The rules stay.
    pub fn set_random_particles(&mut self, placements: &Vec<Placement>)
        requires
            old(self).wf(),
            placements@.len() == old(self)@.particles.len(),
        ensures
            final(self).wf(),
            scattered(
                old(self)@.particles,
                final(self)@.particles,
                placements@,
                old(self)@.rules.len(),
            ),
            final(self)@ == (World { particles: final(self)@.particles, ..old(self)@ }),
    {
        let count: usize = self.particles.len();
        let types: usize = self.types.len();
        let mut k: usize = 0;
        while k < count
            invariant
                k <= count,
                count == self.particles@.len(),
                count == placements@.len(),
                types == self.types@.len(),
                self.wf(),
                self@ == (World { particles: self@.particles, ..old(self)@ }),
                forall|m: int|
                    0 <= m < k ==> (#[trigger] self.particles@[m]).x == placements@[m].x
                        && self.particles@[m].y == placements@[m].y && self.particles@[m].vx
                        == placements@[m].vx && self.particles@[m].vy == placements@[m].vy,
            decreases count - k,
        {
            assert(self.particles@[k as int].p_type < types);
            let drawn: usize = draw_below(&mut self.rng, types);
            let kind: u8 = #[verifier::truncate]
            (drawn as u8);
            assert(kind < types) by {
                if types <= 256 {
                    assert(drawn as u8 == drawn);
                }
            }
            let at: Placement = placements[k];
            self.particles.set(k, Particle { x: at.x, y: at.y, vx: at.vx, vy: at.vy, p_type: kind });
            k += 1;
        }
    }

    /// Switches between wrapping around and walls.
    pub fn toggle_wrap(&mut self)
        ensures
            final(self)@ == (World { wrap: !old(self)@.wrap, ..old(self)@ }),
            old(self).wf() ==> final(self).wf(),
    {
        self.wrap = !self.wrap;
    }

    /// Where particle `index` is along the width, if there is such a particle.
    pub fn get_particle_x(&self, index: usize) -> (x: Option<Scalar>)
        ensures
            x == if index < self@.particles.len() {
                Some(self@.particles[index as int].x)
            } else {
                None
            },
    {
        if index < self.particles.len() {
            Some(self.particles[index].x)
        } else {
            None
        }
    }

    /// Where particle `index` is along the height, if there is such a
    /// particle.
    pub fn get_particle_y(&self, index: usize) -> (y: Option<Scalar>)
        ensures
            y == if index < self@.particles.len() {
                Some(self@.particles[index as int].y)
            } else {
                None
            },
    {
        if index < self.particles.len() {
            Some(self.particles[index].y)
        } else {
            None
        }
    }

    /// The number of particles.
    pub fn particle_count(&self) -> (count: usize)
        ensures
            count == self@.particles.len(),
    {
        self.particles.len()
    }

    /// Particle `index`, if there is such a particle.
    pub fn particle(&self, index: usize) -> (p: Option<Particle>)
        ensures
            p == if index < self@.particles.len() {
                Some(self@.particles[index as int])
            } else {
                None
            },
    {
        if index < self.particles.len() {
            Some(self.particles[index])
        } else {
            None
        }
    }

    /// Replaces particle `index` by `p`. Returns whether it did: there must be
    /// such a particle, and the type of `p` must be a type of the table.
    /// Nothing changes if it did not.
    pub fn set_particle(&mut self, index: usize, p: Particle) -> (done: bool)
        ensures
            done == (index < old(self)@.particles.len() && p.p_type < old(self)@.rules.len()),
            done ==> final(self)@ == (World {
                particles: old(self)@.particles.update(index as int, p),
                ..old(self)@
            }),
            !done ==> final(self)@ == old(self)@,
            old(self).wf() ==> final(self).wf(),
    {
        if index < self.particles.len() && (p.p_type as usize) < self.types.len() {
            self.particles.set(index, p);
            true
        } else {
            false
        }
    }

    /// Replaces the rule that type `from` follows towards type `to`. Returns
    /// whether it did: both must be types of the table. Nothing changes if it
    /// did not; no other rule changes if it did.
    pub fn set_rule(&mut self, from: usize, to: usize, rule: PairRule) -> (done: bool)
        requires
            old(self).wf(),
        ensures
            final(self).wf(),
            done == (from < old(self)@.rules.len() && to < old(self)@.rules.len()),
            done ==> final(self)@ == (World {
                rules: Rules {
                    colors: old(self)@.rules.colors,
                    attract: with_entry(old(self)@.rules.attract, from as int, to as int, rule.attract),
                    min_r: with_entry(old(self)@.rules.min_r, from as int, to as int, rule.min_r),
                    max_r: with_entry(old(self)@.rules.max_r, from as int, to as int, rule.max_r),
                },
                ..old(self)@
            }),
            !done ==> final(self)@ == old(self)@,
    {
        let n: usize = self.types.len();
        if from < n && to < n {
            match self.types.attract_mut(from, to) {
                Some(cell) => {
                    *cell = rule.attract;
                },
                None => {},
            }
            match self.types.min_r_mut(from, to) {
                Some(cell) => {
                    *cell = rule.min_r;
                },
                None => {},
            }
            match self.types.max_r_mut(from, to) {
                Some(cell) => {
                    *cell = rule.max_r;
                },
                None => {},
            }
            true
        } else {
            false
        }
    }

    /// The rule that particle `i` follows towards particle `j`, if there are
    /// such particles. In a sound world the types of both are types of the
    /// table, so the rule is always there.
    pub fn pair_rule(&self, i: usize, j: usize) -> (rule: Option<PairRule>)
        requires
            self.wf(),
        ensures
            rule == if i < self@.particles.len() && j < self@.particles.len() {
                Some(self@.pair_rule(i as int, j as int))
            } else {
                None
            },
    {
        if i < self.particles.len() && j < self.particles.len() {
            let from: usize = self.particles[i].p_type as usize;
            let to: usize = self.particles[j].p_type as usize;
            assert(self@.particles[i as int].p_type < self@.rules.len());
            assert(self@.particles[j as int].p_type < self@.rules.len());
            match (self.types.attract(from, to), self.types.min_r(from, to), self.types.max_r(from, to)) {
                (Some(attract), Some(min_r), Some(max_r)) => Some(
                    PairRule { attract: *attract, min_r: *min_r, max_r: *max_r },
                ),
                _ => {
                    assert(false);
                    None
                },
            }
        } else {
            None
        }
    }

    /// The first particle that a point lies on, given the squared distance
    /// from the point to every particle, in their order: the lowest index
    /// whose squared distance is under the radius squared. A distance without
    /// a particle counts for nothing.
    pub fn get_index(&self, distances2: &Vec<Scalar>) -> (found: Option<usize>)
        ensures
            found matches Some(k) ==> k < self@.particles.len() && is_first_within(
                distances2@,
                Scalar::spec_radius_squared(),
                k as int,
            ),
            found.is_none() ==> forall|m: int|
                0 <= m < distances2@.len() && m < self@.particles.len() ==> !(
                #[trigger] distances2@[m]).spec_lt(Scalar::spec_radius_squared()),
    {
        match first_within(distances2, Scalar::radius_squared()) {
            Some(k) => {
                if k < self.particles.len() {
                    Some(k)
                } else {
                    None
                }
            },
            None => None,
        }
    }

    /// The rule table.
    pub fn types(&self) -> (table: &ParticleTypes)
        ensures
            table@ == self@.rules,
            self.wf() ==> table.wf(),
    {
        &self.types
    }

    /// The extent of the world along the width.
    pub fn width(&self) -> (w: Scalar)
        ensures
            w == self@.width,
    {
        self.width
    }

    /// The extent of the world along the height.
    pub fn height(&self) -> (h: Scalar)
        ensures
            h == self@.height,
    {
        self.height
    }

    /// Whether the world wraps around; it has walls if not.
    pub fn wrap(&self) -> (w: bool)
        ensures
            w == self@.wrap,
    {
        self.wrap
    }

    /// The share of its speed that a particle loses in a tick.
    pub fn friction(&self) -> (f: Scalar)
        ensures
            f == self@.friction,
    {
        self.friction
    }

    /// Whether forces are flat beyond the least radius.
    pub fn flat_force(&self) -> (flat: bool)
        ensures
            flat == self@.flat_force,
    {
        self.flat_force
    }

    /// The settings that the rules were last drawn with.
    pub fn rand_settings(&self) -> (settings: RandomSettings)
        ensures
            settings == self@.settings,
    {
        self.rand_settings
    }
}

} // verus!
