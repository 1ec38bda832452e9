//! The topology generator: a square grid of point masses centred on the
//! origin, joined by three classes of springs — adjacent neighbours
//! (structural), diagonal neighbours (shear) and neighbours two cells apart
//! (bend). Generation is a pure function of its parameters; the same
//! parameters always give the same particles and the same springs.

use crate::limits::{
    MAX_DISPLACEMENT, MAX_GRID_SIZE, MAX_HALF_SPACING, REST_LENGTH_LIMIT, STIFFNESS_LIMIT,
};
use crate::math::{isqrt_u128, sqrt_floor};
use crate::vec3::{norm_sq, v3, v3_sub, v3_zero, Vec3, Vec3g};
use vstd::arithmetic::div_mod::{
    lemma_fundamental_div_mod, lemma_fundamental_div_mod_converse,
    lemma_mod_division_less_than_divisor,
};
use vstd::arithmetic::mul::lemma_mul_inequality;
use vstd::prelude::*;

verus! {

/// One point mass of the sheet: a position and a velocity, in exact integer
/// units.
#[derive(Clone, Copy, Debug, PartialEq, Eq, Structural)]
pub struct Particle {
    pub position: Vec3,
    pub velocity: Vec3,
}

/// The mathematical value of a particle.
pub struct ParticleG {
    pub position: Vec3g,
    pub velocity: Vec3g,
}

impl View for Particle {
    type V = ParticleG;

    open spec fn view(&self) -> ParticleG {
        ParticleG { position: self.position@, velocity: self.velocity@ }
    }
}

/// The topological class of a spring: `Adjacent` joins horizontal or
/// vertical neighbours (the structural class), `Diagonal` joins diagonal
/// neighbours (the shear class), `TwoApart` joins cells two apart in a row
/// or column (the bend class).
#[derive(Clone, Copy, Debug, PartialEq, Eq, Structural)]
pub enum SpringClass {
    Adjacent,
    Diagonal,
    TwoApart,
}

/// An undirected spring between two particles, identified by their indices
/// in the flat grid array (`index = row * grid_size + col`).
#[derive(Clone, Copy, Debug, PartialEq, Eq, Structural)]
pub struct Spring {
    pub stiffness: i64,
    pub rest_length: i64,
    pub particle_a: u32,
    pub particle_b: u32,
    pub class: SpringClass,
}

/// The mathematical value of a spring.
pub struct SpringG {
    pub stiffness: int,
    pub rest_length: int,
    pub particle_a: int,
    pub particle_b: int,
    pub class: SpringClass,
}

impl View for Spring {
    type V = SpringG;

    open spec fn view(&self) -> SpringG {
        SpringG {
            stiffness: self.stiffness as int,
            rest_length: self.rest_length as int,
            particle_a: self.particle_a as int,
            particle_b: self.particle_b as int,
            class: self.class,
        }
    }
}

/// The grid parameters the spring network is a function of.
pub struct GridModel {
    pub n: int,
    pub h: int,
    pub k_structural: int,
    pub k_shear: int,
    pub k_bend: int,
}

impl GridModel {
    /// The admissible parameter ranges (grid side, half-spacing, per-class
    /// stiffness).
    pub open spec fn wf(self) -> bool {
        &&& 2 <= self.n <= MAX_GRID_SIZE
        &&& 0 < self.h <= MAX_HALF_SPACING
        &&& 0 <= self.k_structural <= STIFFNESS_LIMIT
        &&& 0 <= self.k_shear <= STIFFNESS_LIMIT
        &&& 0 <= self.k_bend <= STIFFNESS_LIMIT
    }
}

/// Initial state of the particle at `(row, col)`: on a planar lattice with
/// step `2 * h` centred at the origin, displaced vertically, at rest.
pub open spec fn initial_particle(n: int, h: int, disp: int, row: int, col: int) -> ParticleG {
    ParticleG {
        position: v3((2 * col - n) * h, disp, (2 * row - n) * h),
        velocity: v3_zero(),
    }
}

/// Rest length of a structural spring: the lattice step.
pub open spec fn structural_rest(h: int) -> int {
    2 * h
}

/// Rest length of a shear spring: the measured diagonal of a lattice cell
/// (the floor of `2 * h * sqrt(2)`), so that a freshly generated grid is
/// exactly at rest.
pub open spec fn shear_rest(h: int) -> int {
    sqrt_floor((8 * h * h) as nat) as int
}

/// Rest length of a bend spring: two lattice steps.
pub open spec fn bend_rest(h: int) -> int {
    4 * h
}

pub open spec fn spring_g(stiffness: int, rest_length: int, a: int, b: int, class: SpringClass) -> SpringG {
    SpringG { stiffness, rest_length, particle_a: a, particle_b: b, class }
}

/// The spring that emission slot `j` of cell `(r, c)` contributes, if any.
/// Each cell owns six slots: structural right and down, shear down-right
/// and down-left, bend right and down. A slot is empty when the partner
/// cell would fall outside the grid.
pub open spec fn slot_spring(g: GridModel, r: int, c: int, j: int) -> Option<SpringG> {
    let a = r * g.n + c;
    if j == 0 {
        if c + 1 < g.n {
            Option::Some(spring_g(g.k_structural, structural_rest(g.h), a, a + 1, SpringClass::Adjacent))
        } else {
            Option::None
        }
    } else if j == 1 {
        if r + 1 < g.n {
            Option::Some(spring_g(g.k_structural, structural_rest(g.h), a, a + g.n, SpringClass::Adjacent))
        } else {
            Option::None
        }
    } else if j == 2 {
        if r + 1 < g.n && c + 1 < g.n {
            Option::Some(spring_g(g.k_shear, shear_rest(g.h), a, a + g.n + 1, SpringClass::Diagonal))
        } else {
            Option::None
        }
    } else if j == 3 {
        if r + 1 < g.n && c >= 1 {
            Option::Some(spring_g(g.k_shear, shear_rest(g.h), a, a + g.n - 1, SpringClass::Diagonal))
        } else {
            Option::None
        }
    } else if j == 4 {
        if c + 2 < g.n {
            Option::Some(spring_g(g.k_bend, bend_rest(g.h), a, a + 2, SpringClass::TwoApart))
        } else {
            Option::None
        }
    } else if j == 5 {
        if r + 2 < g.n {
            Option::Some(spring_g(g.k_bend, bend_rest(g.h), a, a + 2 * g.n, SpringClass::TwoApart))
        } else {
            Option::None
        }
    } else {
        Option::None
    }
}

/// The springs the first `m` emission slots contribute, cells in row-major
/// order, slots in order within each cell.
pub open spec fn springs_upto(g: GridModel, m: nat) -> Seq<SpringG>
    decreases m,
{
    if m == 0 {
        Seq::empty()
    } else {
        let prev = springs_upto(g, (m - 1) as nat);
        let k = ((m - 1) as int) / 6;
        let j = ((m - 1) as int) % 6;
        match slot_spring(g, k / g.n, k % g.n, j) {
            Option::Some(s) => prev.push(s),
            Option::None => prev,
        }
    }
}

/// The whole spring network of the grid.
pub open spec fn grid_springs(g: GridModel) -> Seq<SpringG> {
    springs_upto(g, (6 * g.n * g.n) as nat)
}

/// The mathematical values of a list of springs.
pub open spec fn spring_views(s: Seq<Spring>) -> Seq<SpringG> {
    s.map_values(|sp: Spring| sp@)
}

/// The mathematical values of a list of particles.
pub open spec fn particle_views(s: Seq<Particle>) -> Seq<ParticleG> {
    s.map_values(|p: Particle| p@)
}

/// One unfolding of `springs_upto` at slot `j` of cell `k`.
pub proof fn lemma_springs_upto_step(g: GridModel, k: int, j: int)
    requires
        0 <= k,
        0 <= j < 6,
    ensures
        ({
            let prev = springs_upto(g, (6 * k + j) as nat);
            let r = k / g.n;
            let c = k % g.n;
            springs_upto(g, (6 * k + j + 1) as nat) == match slot_spring(g, r, c, j) {
                Option::Some(s) => prev.push(s),
                Option::None => prev,
            }
        }),
{
    lemma_fundamental_div_mod_converse(6 * k + j, 6, k, j);
    assert(((6 * k + j + 1) as nat - 1) as int == 6 * k + j);
}

/// Builds the initial particle grid: `grid_size * grid_size` particles in
/// row-major order, each at its lattice position with zero velocity.
#[verifier::loop_isolation(false)]
pub fn generate_particles(grid_size: u32, half_spacing: i64, displacement: i64) -> (r: Vec<Particle>)
    requires
        2 <= grid_size <= MAX_GRID_SIZE,
        0 < half_spacing <= MAX_HALF_SPACING,
        -MAX_DISPLACEMENT <= displacement <= MAX_DISPLACEMENT,
    ensures
        r@.len() == grid_size * grid_size,
        forall|k: int|
            0 <= k < r@.len() ==> #[trigger] r@[k]@ == initial_particle(
                grid_size as int,
                half_spacing as int,
                displacement as int,
                k / (grid_size as int),
                k % (grid_size as int),
            ),
{
    let n = grid_size;
    assert(n * n <= MAX_GRID_SIZE * MAX_GRID_SIZE) by (nonlinear_arith)
        requires 2 <= n <= MAX_GRID_SIZE;
    let count: u32 = n * n;
    let mut out: Vec<Particle> = Vec::new();
    let mut k: u32 = 0;
    while k < count
        invariant
            k <= count,
            out@.len() == k,
            forall|i: int|
                0 <= i < k ==> #[trigger] out@[i]@ == initial_particle(
                    n as int,
                    half_spacing as int,
                    displacement as int,
                    i / (n as int),
                    i % (n as int),
                ),
        decreases count - k,
    {
        let row = k / n;
        let col = k % n;
        proof {
            vstd::arithmetic::div_mod::lemma_multiply_divide_lt(k as int, n as int, n as int);
            lemma_mod_division_less_than_divisor(k as int, n as int);
        }
        assert(row < n);
        assert(col < n);
        let cx: i64 = 2 * (col as i64) - (n as i64);
        let cz: i64 = 2 * (row as i64) - (n as i64);
        assert(-(n as i64) <= cx < n as i64);
        assert(-(n as i64) <= cz < n as i64);
        assert(-(MAX_GRID_SIZE as int) * MAX_HALF_SPACING <= cx * half_spacing
            <= (MAX_GRID_SIZE as int) * MAX_HALF_SPACING) by (nonlinear_arith)
            requires
                -(MAX_GRID_SIZE as int) <= cx <= MAX_GRID_SIZE as int,
                0 < half_spacing <= MAX_HALF_SPACING,
        ;
        assert(-(MAX_GRID_SIZE as int) * MAX_HALF_SPACING <= cz * half_spacing
            <= (MAX_GRID_SIZE as int) * MAX_HALF_SPACING) by (nonlinear_arith)
            requires
                -(MAX_GRID_SIZE as int) <= cz <= MAX_GRID_SIZE as int,
                0 < half_spacing <= MAX_HALF_SPACING,
        ;
        let px: i64 = cx * half_spacing;
        let pz: i64 = cz * half_spacing;
        out.push(Particle {
            position: Vec3 { x: px, y: displacement, z: pz },
            velocity: Vec3 { x: 0, y: 0, z: 0 },
        });
        k = k + 1;
    }
    out
}

/// Builds the spring network: for each cell in row-major order, its
/// structural, shear and bend springs toward later cells, wherever both
/// endpoints fall inside the grid.
#[verifier::loop_isolation(false)]
pub fn generate_springs(
    grid_size: u32,
    half_spacing: i64,
    k_structural: i64,
    k_shear: i64,
    k_bend: i64,
) -> (r: Vec<Spring>)
    requires
        2 <= grid_size <= MAX_GRID_SIZE,
        0 < half_spacing <= MAX_HALF_SPACING,
        0 <= k_structural <= STIFFNESS_LIMIT,
        0 <= k_shear <= STIFFNESS_LIMIT,
        0 <= k_bend <= STIFFNESS_LIMIT,
    ensures
        spring_views(r@) == grid_springs(
            GridModel {
                n: grid_size as int,
                h: half_spacing as int,
                k_structural: k_structural as int,
                k_shear: k_shear as int,
                k_bend: k_bend as int,
            },
        ),
{
    let ghost g = GridModel {
        n: grid_size as int,
        h: half_spacing as int,
        k_structural: k_structural as int,
        k_shear: k_shear as int,
        k_bend: k_bend as int,
    };
    let n = grid_size;
    assert(n * n <= MAX_GRID_SIZE * MAX_GRID_SIZE) by (nonlinear_arith)
        requires 2 <= n <= MAX_GRID_SIZE;
    let count: u32 = n * n;

    assert(8 * (half_spacing as int) * (half_spacing as int)
        <= 8 * (MAX_HALF_SPACING as int) * (MAX_HALF_SPACING as int)) by (nonlinear_arith)
        requires 0 < half_spacing <= MAX_HALF_SPACING;
    let sq8: u128 = 8 * (half_spacing as u128) * (half_spacing as u128);
    let shear_rest_len: u128 = isqrt_u128(sq8);
    proof {
        lemma_mul_inequality(half_spacing as int, MAX_HALF_SPACING as int, half_spacing as int);
        assert(shear_rest_len * shear_rest_len <= 8 * (half_spacing as int) * (half_spacing as int));
        assert(shear_rest_len < 3 * half_spacing) by (nonlinear_arith)
            requires
                shear_rest_len * shear_rest_len <= 8 * (half_spacing as int) * (half_spacing as int),
                half_spacing > 0,
                shear_rest_len >= 0,
        ;
    }
    let rest_shear: i64 = shear_rest_len as i64;
    assert(rest_shear == shear_rest(g.h));

    let rest_structural: i64 = 2 * half_spacing;
    let rest_bend: i64 = 4 * half_spacing;

    let mut out: Vec<Spring> = Vec::new();
    let mut k: u32 = 0;
    while k < count
        invariant
            k <= count,
            spring_views(out@) == springs_upto(g, (6 * k) as nat),
        decreases count - k,
    {
        let row = k / n;
        let col = k % n;
        proof {
            vstd::arithmetic::div_mod::lemma_multiply_divide_lt(k as int, n as int, n as int);
            lemma_mod_division_less_than_divisor(k as int, n as int);
            lemma_fundamental_div_mod(k as int, n as int);
        }
        assert(row < n);
        assert(col < n);
        assert(k == row * (n as int) + col);

        // slot 0: structural toward the right neighbour
        proof { lemma_springs_upto_step(g, k as int, 0); }
        if col + 1 < n {
            out.push(Spring {
                stiffness: k_structural,
                rest_length: rest_structural,
                particle_a: k,
                particle_b: k + 1,
                class: SpringClass::Adjacent,
            });
            assert(spring_views(out@) =~= springs_upto(g, (6 * k + 1) as nat));
        }
        assert(spring_views(out@) == springs_upto(g, (6 * k + 1) as nat));

        // slot 1: structural toward the lower neighbour
        proof { lemma_springs_upto_step(g, k as int, 1); }
        if row + 1 < n {
            out.push(Spring {
                stiffness: k_structural,
                rest_length: rest_structural,
                particle_a: k,
                particle_b: k + n,
                class: SpringClass::Adjacent,
            });
            assert(spring_views(out@) =~= springs_upto(g, (6 * k + 2) as nat));
        }
        assert(spring_views(out@) == springs_upto(g, (6 * k + 2) as nat));

        // slot 2: shear toward the lower-right neighbour
        proof { lemma_springs_upto_step(g, k as int, 2); }
        if row + 1 < n && col + 1 < n {
            out.push(Spring {
                stiffness: k_shear,
                rest_length: rest_shear,
                particle_a: k,
                particle_b: k + n + 1,
                class: SpringClass::Diagonal,
            });
            assert(spring_views(out@) =~= springs_upto(g, (6 * k + 3) as nat));
        }
        assert(spring_views(out@) == springs_upto(g, (6 * k + 3) as nat));

        // slot 3: shear toward the lower-left neighbour
        proof { lemma_springs_upto_step(g, k as int, 3); }
        if row + 1 < n && col >= 1 {
            out.push(Spring {
                stiffness: k_shear,
                rest_length: rest_shear,
                particle_a: k,
                particle_b: k + n - 1,
                class: SpringClass::Diagonal,
            });
            assert(spring_views(out@) =~= springs_upto(g, (6 * k + 4) as nat));
        }
        assert(spring_views(out@) == springs_upto(g, (6 * k + 4) as nat));

        // slot 4: bend toward the cell two to the right
        proof { lemma_springs_upto_step(g, k as int, 4); }
        if col + 2 < n {
            out.push(Spring {
                stiffness: k_bend,
                rest_length: rest_bend,
                particle_a: k,
                particle_b: k + 2,
                class: SpringClass::TwoApart,
            });
            assert(spring_views(out@) =~= springs_upto(g, (6 * k + 5) as nat));
        }
        assert(spring_views(out@) == springs_upto(g, (6 * k + 5) as nat));

        // slot 5: bend toward the cell two below
        proof { lemma_springs_upto_step(g, k as int, 5); }
        if row + 2 < n {
            out.push(Spring {
                stiffness: k_bend,
                rest_length: rest_bend,
                particle_a: k,
                particle_b: k + 2 * n,
                class: SpringClass::TwoApart,
            });
            assert(spring_views(out@) =~= springs_upto(g, (6 * k + 6) as nat));
        }
        assert(spring_views(out@) == springs_upto(g, (6 * k + 6) as nat));

        k = k + 1;
    }
    assert(6 * (count as int) == 6 * g.n * g.n) by (nonlinear_arith)
        requires count == g.n * g.n;
    out
}

/// Structural validity of a spring for a grid of `count` particles: both
/// endpoints are distinct in-range indices, the stiffness and the rest
/// length are within the admissible bounds.
pub open spec fn spring_wf(s: SpringG, count: int) -> bool {
    &&& 0 <= s.particle_a < count
    &&& 0 <= s.particle_b < count
    &&& s.particle_a != s.particle_b
    &&& 0 <= s.stiffness <= STIFFNESS_LIMIT
    &&& 0 < s.rest_length <= REST_LENGTH_LIMIT
}

/// The spring's endpoints, as placed in `ps`, are at measured distance
/// exactly its rest length.
pub open spec fn spring_at_rest(s: SpringG, ps: Seq<ParticleG>) -> bool {
    sqrt_floor(norm_sq(v3_sub(ps[s.particle_b].position, ps[s.particle_a].position)) as nat)
        == s.rest_length
}

/// The particle list is the initial lattice of the grid.
pub open spec fn is_initial_lattice(ps: Seq<ParticleG>, n: int, h: int, disp: int) -> bool {
    &&& ps.len() == n * n
    &&& forall|k: int|
        0 <= k < ps.len() ==> #[trigger] ps[k] == initial_particle(n, h, disp, k / n, k % n)
}

/// Flat-index arithmetic of a grid cell.
proof fn lemma_cell_index(n: int, rr: int, cc: int)
    requires
        0 <= rr < n,
        0 <= cc < n,
    ensures
        0 <= rr * n + cc < n * n,
        (rr * n + cc) / n == rr,
        (rr * n + cc) % n == cc,
{
    assert(0 <= rr * n + cc < n * n) by (nonlinear_arith)
        requires 0 <= rr < n, 0 <= cc < n;
    lemma_fundamental_div_mod_converse(rr * n + cc, n, rr, cc);
}

/// Difference of two lattice positions.
proof fn lemma_lattice_delta(n: int, h: int, disp: int, r1: int, c1: int, r2: int, c2: int)
    ensures
        v3_sub(
            initial_particle(n, h, disp, r2, c2).position,
            initial_particle(n, h, disp, r1, c1).position,
        ) == v3(2 * (c2 - c1) * h, 0, 2 * (r2 - r1) * h),
{
    assert((2 * c2 - n) * h - (2 * c1 - n) * h == 2 * (c2 - c1) * h) by (nonlinear_arith);
    assert((2 * r2 - n) * h - (2 * r1 - n) * h == 2 * (r2 - r1) * h) by (nonlinear_arith);
}

/// The measured distance between lattice cells `(r1, c1)` and `(r2, c2)`
/// one lattice step apart along an axis is exactly `2 * h`; two steps,
/// `4 * h`; one diagonal step, `sqrt_floor(8 * h * h)`.
proof fn lemma_slot_spring_props(
    g: GridModel,
    ps: Seq<ParticleG>,
    disp: int,
    r: int,
    c: int,
    j: int,
)
    requires
        g.wf(),
        is_initial_lattice(ps, g.n, g.h, disp),
        0 <= r < g.n,
        0 <= c < g.n,
        0 <= j < 6,
        slot_spring(g, r, c, j) is Some,
    ensures
        spring_wf(slot_spring(g, r, c, j)->Some_0, g.n * g.n),
        spring_at_rest(slot_spring(g, r, c, j)->Some_0, ps),
{
    let n = g.n;
    let h = g.h;
    let s = slot_spring(g, r, c, j)->Some_0;
    lemma_cell_index(n, r, c);
    let a = r * n + c;

    let r2 = if j == 1 || j == 2 || j == 3 { r + 1 } else if j == 5 { r + 2 } else { r };
    let c2 = if j == 0 || j == 2 { c + 1 } else if j == 3 { c - 1 } else if j == 4 { c + 2 } else { c };
    assert(0 <= r2 < n);
    assert(0 <= c2 < n);
    lemma_cell_index(n, r2, c2);
    assert((r + 1) * n == r * n + n) by (nonlinear_arith);
    assert((r + 2) * n == r * n + 2 * n) by (nonlinear_arith);
    assert(s.particle_b == r2 * n + c2);
    assert(s.particle_a == a);
    assert(s.particle_b != a);

    assert(ps[s.particle_a] == initial_particle(n, h, disp, r, c));
    assert(ps[s.particle_b] == initial_particle(n, h, disp, r2, c2));
    lemma_lattice_delta(n, h, disp, r, c, r2, c2);
    let d = v3_sub(ps[s.particle_b].position, ps[s.particle_a].position);
    assert(d == v3(2 * (c2 - c) * h, 0, 2 * (r2 - r) * h));

    if j == 0 || j == 1 {
        // one lattice step along an axis
        assert(norm_sq(d) == (2 * h) * (2 * h)) by (nonlinear_arith)
            requires
                d == v3(2 * (c2 - c) * h, 0, 2 * (r2 - r) * h),
                (c2 - c) * (r2 - r) == 0,
                c2 - c == 1 || r2 - r == 1,
        ;
        assert(norm_sq(d) as nat == ((2 * h) as nat) * ((2 * h) as nat));
        crate::math::lemma_sqrt_floor_of_square((2 * h) as nat);
        assert(s.rest_length == 2 * h);
    } else if j == 2 || j == 3 {
        // one diagonal step
        assert(norm_sq(d) == 8 * h * h) by (nonlinear_arith)
            requires
                d == v3(2 * (c2 - c) * h, 0, 2 * (r2 - r) * h),
                (c2 - c == 1 || c2 - c == -1),
                r2 - r == 1,
        ;
        assert(s.rest_length == sqrt_floor((8 * h * h) as nat));
        assert(1 <= 8 * h * h) by (nonlinear_arith)
            requires h >= 1;
        crate::math::lemma_sqrt_floor_ge(1, (8 * h * h) as nat);
        crate::math::lemma_sqrt_floor_bounds((8 * h * h) as nat);
        let q = sqrt_floor((8 * h * h) as nat);
        assert(q <= 3 * h) by (nonlinear_arith)
            requires
                q * q <= 8 * h * h,
                h >= 1,
                q >= 0,
        ;
        assert(3 * h <= REST_LENGTH_LIMIT);
    } else {
        // two lattice steps along an axis
        assert(norm_sq(d) == (4 * h) * (4 * h)) by (nonlinear_arith)
            requires
                d == v3(2 * (c2 - c) * h, 0, 2 * (r2 - r) * h),
                (c2 - c) * (r2 - r) == 0,
                c2 - c == 2 || r2 - r == 2,
        ;
        assert(norm_sq(d) as nat == ((4 * h) as nat) * ((4 * h) as nat));
        crate::math::lemma_sqrt_floor_of_square((4 * h) as nat);
        assert(s.rest_length == 4 * h);
    }
}

/// Every spring of the first `m` emission slots is well formed and, on the
/// initial lattice, exactly at rest.
proof fn lemma_springs_upto_props(g: GridModel, ps: Seq<ParticleG>, disp: int, m: nat)
    requires
        g.wf(),
        is_initial_lattice(ps, g.n, g.h, disp),
        m <= 6 * g.n * g.n,
    ensures
        forall|i: int|
            0 <= i < springs_upto(g, m).len() ==> {
                &&& spring_wf(#[trigger] springs_upto(g, m)[i], g.n * g.n)
                &&& spring_at_rest(springs_upto(g, m)[i], ps)
            },
    decreases m,
{
    if m > 0 {
        lemma_springs_upto_props(g, ps, disp, (m - 1) as nat);
        let k = ((m - 1) as int) / 6;
        let j = ((m - 1) as int) % 6;
        vstd::arithmetic::div_mod::lemma_mod_division_less_than_divisor((m - 1) as int, 6);
        assert(0 <= j < 6);
        assert(m - 1 < 6 * (g.n * g.n)) by (nonlinear_arith)
            requires m <= 6 * g.n * g.n;
        vstd::arithmetic::div_mod::lemma_multiply_divide_lt((m - 1) as int, 6, g.n * g.n);
        vstd::arithmetic::div_mod::lemma_div_pos_is_pos((m - 1) as int, 6);
        assert(0 <= k < g.n * g.n);
        let r = k / g.n;
        let c = k % g.n;
        vstd::arithmetic::div_mod::lemma_multiply_divide_lt(k, g.n, g.n);
        vstd::arithmetic::div_mod::lemma_mod_division_less_than_divisor(k, g.n);
        vstd::arithmetic::div_mod::lemma_div_pos_is_pos(k, g.n);
        let cur = springs_upto(g, m);
        let prev = springs_upto(g, (m - 1) as nat);
        match slot_spring(g, r, c, j) {
            Option::Some(s) => {
                lemma_slot_spring_props(g, ps, disp, r, c, j);
                assert(cur == prev.push(s));
                assert forall|i: int|
                    0 <= i < cur.len() implies {
                    &&& spring_wf(#[trigger] cur[i], g.n * g.n)
                    &&& spring_at_rest(cur[i], ps)
                } by {
                    if i < prev.len() {
                        assert(cur[i] == prev[i]);
                    } else {
                        assert(cur[i] == s);
                    }
                }
            },
            Option::None => {
                assert(cur == prev);
            },
        }
    }
}

/// Every generated spring is well formed and, on the initial lattice,
/// exactly at rest: a freshly generated grid is in equilibrium.
pub proof fn lemma_grid_springs_at_rest(g: GridModel, ps: Seq<ParticleG>, disp: int)
    requires
        g.wf(),
        is_initial_lattice(ps, g.n, g.h, disp),
    ensures
        forall|i: int|
            0 <= i < grid_springs(g).len() ==> {
                &&& spring_wf(#[trigger] grid_springs(g)[i], g.n * g.n)
                &&& spring_at_rest(grid_springs(g)[i], ps)
            },
{
    lemma_springs_upto_props(g, ps, disp, (6 * g.n * g.n) as nat);
}

/// Every generated spring is well formed.
pub proof fn lemma_grid_springs_wf(g: GridModel)
    requires
        g.wf(),
    ensures
        forall|i: int|
            0 <= i < grid_springs(g).len() ==> spring_wf(#[trigger] grid_springs(g)[i], g.n * g.n),
{
    let ps = Seq::new((g.n * g.n) as nat, |k: int| initial_particle(g.n, g.h, 0, k / g.n, k % g.n));
    assert(g.n * g.n >= 0) by (nonlinear_arith)
        requires g.n >= 2;
    lemma_grid_springs_at_rest(g, ps, 0);
}

/// Spring generation is deterministic: two spring lists that both realize
/// the grid's spring network are identical, element for element.
pub proof fn lemma_spring_generation_deterministic(s1: Seq<Spring>, s2: Seq<Spring>, g: GridModel)
    requires
        spring_views(s1) == grid_springs(g),
        spring_views(s2) == grid_springs(g),
    ensures
        s1 == s2,
{
    assert(s1.len() == s2.len()) by {
        assert(spring_views(s1).len() == s1.len());
        assert(spring_views(s2).len() == s2.len());
    }
    assert forall|i: int| 0 <= i < s1.len() implies s1[i] == s2[i] by {
        assert(spring_views(s1)[i] == s1[i]@);
        assert(spring_views(s2)[i] == s2[i]@);
    }
    assert(s1 =~= s2);
}

/// Particle generation is deterministic: two particle lists that both
/// realize the initial lattice are identical, element for element.
pub proof fn lemma_particle_generation_deterministic(
    p1: Seq<Particle>,
    p2: Seq<Particle>,
    n: int,
    h: int,
    disp: int,
)
    requires
        is_initial_lattice(p1.map_values(|p: Particle| p@), n, h, disp),
        is_initial_lattice(p2.map_values(|p: Particle| p@), n, h, disp),
    ensures
        p1 == p2,
{
    let v1 = p1.map_values(|p: Particle| p@);
    let v2 = p2.map_values(|p: Particle| p@);
    assert forall|i: int| 0 <= i < p1.len() implies p1[i] == p2[i] by {
        assert(v1[i] == initial_particle(n, h, disp, i / n, i % n));
        assert(v2[i] == initial_particle(n, h, disp, i / n, i % n));
        assert(v1[i] == p1[i]@);
        assert(v2[i] == p2[i]@);
    }
    assert(p1 =~= p2);
}

} // verus!
