//! The kinematic integrator: figures tagged `Moving` advance along their
//! facing direction, scaled by their speed and the frame's elapsed time.

use vstd::prelude::*;

verus! {

use vstd::math::abs;

use crate::components::{EntityRecord, Figure};
use crate::math::{is_isqrt, isqrt, lemma_sq_bound, sqrt_floor, Vec3};
use crate::world::World;
use crate::{DT_LIMIT, POS_LIMIT, SPEED_LIMIT};

/// Positions saturate at the world extent: integration never carries a
/// figure outside it.
pub open spec fn clamp_pos(p: int) -> int {
    if p > POS_LIMIT {
        POS_LIMIT as int
    } else if p < -POS_LIMIT {
        -POS_LIMIT as int
    } else {
        p
    }
}

/// Displacement along one axis: the axis component of the facing
/// direction, normalized by the direction's length `norm`, scaled by
/// `speed` (coordinate steps per second) and `dt` (milliseconds), with the
/// thousand milliseconds of one second divided back out. Integer division
/// truncates the magnitude.
pub open spec fn axis_delta(c: int, speed: int, dt: int, norm: int) -> int
    recommends
        norm >= 1,
{
    let m = (abs(c) * speed * dt) / (norm * 1000);
    if c < 0 {
        -m
    } else {
        m
    }
}

/// What a figure becomes under integration: it advances from its position
/// along its facing direction by `speed * dt`, each axis displaced in
/// proportion to its share of the direction and saturated at the world
/// extent. A zero facing direction leaves the figure unchanged.
pub open spec fn integrated_spec(f: Figure, speed: int, dt: int) -> Figure {
    let norm = sqrt_floor(f.rotation.norm_sq());
    if norm <= 0 {
        f
    } else {
        Figure {
            position: Vec3 {
                x: clamp_pos(f.position.x + axis_delta(f.rotation.x as int, speed, dt, norm)) as i64,
                y: clamp_pos(f.position.y + axis_delta(f.rotation.y as int, speed, dt, norm)) as i64,
                z: clamp_pos(f.position.z + axis_delta(f.rotation.z as int, speed, dt, norm)) as i64,
            },
            ..f
        }
    }
}

/// Integration over zero elapsed time changes nothing.
pub proof fn lemma_integrate_zero_dt(f: Figure, speed: int)
    requires
        f.position.bounded(),
    ensures
        integrated_spec(f, speed, 0) == f,
{
    let norm = sqrt_floor(f.rotation.norm_sq());
    if norm >= 1 {
        assert(abs(f.rotation.x as int) * speed * 0 == 0) by (nonlinear_arith);
        assert(abs(f.rotation.y as int) * speed * 0 == 0) by (nonlinear_arith);
        assert(abs(f.rotation.z as int) * speed * 0 == 0) by (nonlinear_arith);
        assert(norm * 1000 >= 1000);
        assert(0int / (norm * 1000) == 0) by (nonlinear_arith)
            requires
                norm * 1000 >= 1000,
        ;
    }
}

/// `0 <= a <= x` and `0 <= b <= y` bound the product: `a * b <= x * y`.
proof fn lemma_mul_le(a: int, x: int, b: int, y: int)
    requires
        0 <= a <= x,
        0 <= b <= y,
    ensures
        0 <= a * b <= x * y,
{
    assert(0 <= a * b <= x * y) by (nonlinear_arith)
        requires
            0 <= a <= x,
            0 <= b <= y,
    ;
}

/// A component of a vector is no longer than the integer square root of
/// the vector's squared length.
proof fn lemma_component_le_norm(c: int, nsq: int, norm: int)
    requires
        c * c <= nsq,
        is_isqrt(nsq, norm),
    ensures
        abs(c) <= norm,
{
    assert(abs(c) <= norm) by (nonlinear_arith)
        requires
            c * c <= nsq,
            0 <= norm,
            nsq < (norm + 1) * (norm + 1),
    ;
}

/// The normalized displacement magnitude is at most `speed * dt / 1000`:
/// a figure never outruns its speed.
proof fn lemma_delta_bound(c: int, speed: int, dt: int, norm: int, m: int)
    requires
        0 <= c <= norm,
        1 <= norm,
        0 <= speed <= SPEED_LIMIT,
        0 <= dt <= DT_LIMIT,
        m == (c * speed * dt) / (norm * 1000),
    ensures
        0 <= m <= 1_000_000_000_000_000,
{
    let num = c * speed * dt;
    let den = norm * 1000;
    assert(den >= 1000);
    assert(0 <= num <= norm * speed * dt) by (nonlinear_arith)
        requires
            num == c * speed * dt,
            0 <= c <= norm,
            0 <= speed,
            0 <= dt,
    ;
    assert(0 <= m && m * den <= num) by (nonlinear_arith)
        requires
            num >= 0,
            den >= 1000,
            m == num / den,
    ;
    assert(m * 1000 <= speed * dt) by (nonlinear_arith)
        requires
            m * (norm * 1000) <= norm * speed * dt,
            norm >= 1,
            m >= 0,
    ;
    assert(speed * dt <= 1_000_000_000_000_000_000) by (nonlinear_arith)
        requires
            0 <= speed <= SPEED_LIMIT,
            0 <= dt <= DT_LIMIT,
    ;
}

/// Advance one position axis by the normalized displacement, saturating at
/// the world extent.
fn axis_advance(p: i64, c: i64, speed: u64, dt: u64, norm: u64) -> (q: i64)
    requires
        -POS_LIMIT <= p <= POS_LIMIT,
        -2 * POS_LIMIT <= c <= 2 * POS_LIMIT,
        abs(c as int) <= norm,
        1 <= norm,
        speed <= SPEED_LIMIT,
        dt <= DT_LIMIT,
    ensures
        q == clamp_pos(p + axis_delta(c as int, speed as int, dt as int, norm as int)),
        -POS_LIMIT <= q <= POS_LIMIT,
{
    let mag_c: u128 = if c < 0 {
        (-c) as u128
    } else {
        c as u128
    };
    proof {
        lemma_mul_le(mag_c as int, 2 * POS_LIMIT as int, speed as int, SPEED_LIMIT as int);
        lemma_mul_le(
            (mag_c as int) * (speed as int),
            2 * POS_LIMIT as int * SPEED_LIMIT as int,
            dt as int,
            DT_LIMIT as int,
        );
    }
    let num: u128 = mag_c * (speed as u128) * (dt as u128);
    let den: u128 = (norm as u128) * 1000;
    let m: u128 = num / den;
    proof {
        lemma_delta_bound(mag_c as int, speed as int, dt as int, norm as int, m as int);
    }
    let mi: i64 = m as i64;
    let q0: i64 = if c < 0 {
        p - mi
    } else {
        p + mi
    };
    if q0 > POS_LIMIT {
        POS_LIMIT
    } else if q0 < -POS_LIMIT {
        -POS_LIMIT
    } else {
        q0
    }
}

/// Integrate one figure over `dt` milliseconds at `speed` coordinate steps
/// per second. Over zero elapsed time this is the identity.
pub fn integrate(figure: &Figure, speed: u64, dt: u64) -> (moved: Figure)
    requires
        figure.wf(),
        speed <= SPEED_LIMIT,
        dt <= DT_LIMIT,
    ensures
        moved == integrated_spec(*figure, speed as int, dt as int),
        moved.wf(),
        dt == 0 ==> moved == *figure,
{
    let rot = figure.rotation;
    let cx: i128 = rot.x as i128;
    let cy: i128 = rot.y as i128;
    let cz: i128 = rot.z as i128;
    proof {
        lemma_sq_bound(cx as int, 2 * POS_LIMIT as int);
        lemma_sq_bound(cy as int, 2 * POS_LIMIT as int);
        lemma_sq_bound(cz as int, 2 * POS_LIMIT as int);
        assert((2 * POS_LIMIT as int) * (2 * POS_LIMIT as int)
            == 4_000_000_000_000_000_000_000_000int) by (nonlinear_arith)
            requires
                POS_LIMIT == 1_000_000_000_000i64,
        ;
    }
    let nsq: u128 = (cx * cx) as u128 + (cy * cy) as u128 + (cz * cz) as u128;
    let norm: u64 = isqrt(nsq);
    proof {
        if dt == 0 {
            lemma_integrate_zero_dt(*figure, speed as int);
        }
    }
    if norm == 0 {
        return *figure;
    }
    proof {
        lemma_component_le_norm(rot.x as int, nsq as int, norm as int);
        lemma_component_le_norm(rot.y as int, nsq as int, norm as int);
        lemma_component_le_norm(rot.z as int, nsq as int, norm as int);
    }
    let pos = figure.position;
    let px = axis_advance(pos.x, rot.x, speed, dt, norm);
    let py = axis_advance(pos.y, rot.y, speed, dt, norm);
    let pz = axis_advance(pos.z, rot.z, speed, dt, norm);
    Figure { position: Vec3 { x: px, y: py, z: pz }, rotation: rot, scale: figure.scale }
}

/// What one record becomes under the integrator: an entity tagged `Moving`
/// that carries a figure and a movable speed advances its figure; every
/// other entity is untouched.
pub open spec fn moved_record(s: Seq<EntityRecord>, i: int, dt: int) -> EntityRecord {
    let e = s[i];
    match (e.figure, e.movable, e.moving) {
        (Some(f), Some(m), Some(_)) => EntityRecord {
            figure: Some(integrated_spec(f, m.0 as int, dt)),
            ..e
        },
        _ => e,
    }
}

/// The kinematic integrator. Every entity tagged `Moving` with a figure
/// and a movable speed advances along its facing direction by its speed
/// and the frame's elapsed time; everything else about every entity is
/// left as it was. Over zero elapsed time the store is unchanged.
pub fn move_movables(w: &mut World, dt: u64)
    requires
        old(w).wf(),
        dt <= DT_LIMIT,
    ensures
        final(w).wf(),
        final(w).next_id == old(w).next_id,
        final(w).entities@.len() == old(w).entities@.len(),
        forall|i: int|
            0 <= i < old(w).entities@.len()
                ==> final(w).entities@[i] == moved_record(old(w).entities@, i, dt as int),
        dt == 0 ==> final(w).entities@ == old(w).entities@,
{
    let ghost s = w.entities@;
    let n: usize = w.entities.len();
    let mut out: Vec<EntityRecord> = Vec::new();
    let mut h: usize = 0;
    while h < n
        invariant
            0 <= h <= n,
            n == s.len(),
            *w == *old(w),
            w.wf(),
            w.entities@ == s,
            dt <= DT_LIMIT,
            out@.len() == h,
            forall|k: int| 0 <= k < h ==> out@[k] == moved_record(s, k, dt as int),
        decreases n - h,
    {
        let e = w.entities[h];
        let mut new_e: EntityRecord = e;
        if e.figure.is_some() && e.movable.is_some() && e.moving.is_some() {
            let f = e.figure.unwrap();
            let speed = e.movable.unwrap().0;
            new_e = EntityRecord { figure: Some(integrate(&f, speed, dt)), ..e };
        }
        proof {
            assert(new_e == moved_record(s, h as int, dt as int));
        }
        out.push(new_e);
        h = h + 1;
    }
    w.entities = out;
    proof {
        assert forall|i: int|
            0 <= i < w.entities@.len() implies {
                &&& (#[trigger] w.entities@[i]).id == s[i].id
                &&& w.entities@[i].is_preview() == s[i].is_preview()
                &&& w.entities@[i].wf()
            } by {
            assert(w.entities@[i] == moved_record(s, i, dt as int));
            assert(s[i].wf());
        }
        assert(crate::world::at_most_one_preview(w.entities@));
        if dt == 0 {
            assert forall|i: int|
                0 <= i < w.entities@.len() implies w.entities@[i] == s[i] by {
                assert(w.entities@[i] == moved_record(s, i, 0));
                assert(s[i].wf());
                match (s[i].figure, s[i].movable, s[i].moving) {
                    (Some(f), Some(m), Some(_)) => {
                        lemma_integrate_zero_dt(f, m.0 as int);
                    },
                    _ => {},
                }
            }
            assert(w.entities@ =~= s);
        }
    }
}

} // verus!
