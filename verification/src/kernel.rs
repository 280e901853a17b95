//! The simulation kernel's state discipline.
//!
//! Verus does not reason about IEEE-754 arithmetic, so the kernel is split
//! in two: the caller supplies the arithmetic as plain functions over
//! binary64 bit patterns, and this module holds — and verifies — everything
//! else about the three operations. That is: which body each arithmetic
//! result is read from and written to; the sweep order over the pairwise
//! schedule, with the sweeping body's velocity accumulated in a local
//! working value and committed exactly once while each partner's velocity
//! is updated in place, pair by pair; the semi-implicit discipline that a
//! body's position advances from its freshly committed velocity, not the
//! pre-step one; and the frame: masses are never written, no body is added
//! or removed, normalization writes nothing but the central body's
//! velocity, and the energy evaluation writes nothing at all.

use vstd::prelude::*;

use crate::system::Body;

verus! {

/// What one pairwise interaction yields: the sweeping body's new working
/// velocity and the partner's new velocity, as binary64 bit patterns.
#[derive(Clone, Copy, Debug, PartialEq, Eq, Structural)]
pub struct Kick {
    pub avx: u64,
    pub avy: u64,
    pub avz: u64,
    pub pvx: u64,
    pub pvy: u64,
    pub pvz: u64,
}

/// The stored velocity component of `b` along `axis`: x, y, then z.
pub open spec fn axis_velocity(b: Body, axis: int) -> u64 {
    if axis == 0 {
        b.vx
    } else if axis == 1 {
        b.vy
    } else {
        b.vz
    }
}

/// Holds when folding `f` over the bodies of `s` from index `i` on — each
/// step handing `f` the accumulator so far, the body's velocity component
/// along `axis`, and the body's mass — can carry `acc` to `out`: there is a
/// chain of intermediate accumulators linked by `f`'s postcondition.
pub open spec fn momentum_fold<F: Fn(u64, u64, u64) -> u64>(
    f: F,
    s: Seq<Body>,
    axis: int,
    i: int,
    acc: u64,
    out: u64,
) -> bool
    decreases s.len() - i,
{
    if 0 <= i < s.len() {
        exists|mid: u64|
            #[trigger] call_ensures(f, (acc, axis_velocity(s[i], axis), s[i].mass), mid)
                && momentum_fold(f, s, axis, i + 1, mid, out)
    } else {
        out == acc
    }
}

/// Momentum normalization. For each axis in turn, `accumulate` is folded
/// over every body's velocity component and mass, in index order, starting
/// from the stored zero; `central` then maps each axis total to the central
/// body's new velocity component along that axis. Nothing else changes:
/// every other body, and the central body's position and mass, keep their
/// bits. The arithmetic itself — the running momentum sum and the division
/// by the solar mass — is whatever the two supplied functions compute.
pub fn offset_momentum<FA: Fn(u64, u64, u64) -> u64, FC: Fn(u64) -> u64>(
    bodies: &mut Vec<Body>,
    nbody: usize,
    accumulate: FA,
    central: FC,
)
    requires
        nbody == old(bodies)@.len(),
        nbody >= 1,
        forall|acc: u64, v: u64, m: u64| call_requires(accumulate, (acc, v, m)),
        forall|p: u64| call_requires(central, (p,)),
    ensures
        final(bodies)@.len() == old(bodies)@.len(),
        forall|k: int| 1 <= k < final(bodies)@.len() ==> final(bodies)@[k] == old(bodies)@[k],
        final(bodies)@[0].x == old(bodies)@[0].x,
        final(bodies)@[0].y == old(bodies)@[0].y,
        final(bodies)@[0].z == old(bodies)@[0].z,
        final(bodies)@[0].mass == old(bodies)@[0].mass,
        exists|total: u64|
            #[trigger] momentum_fold(accumulate, old(bodies)@, 0, 0, 0, total)
                && call_ensures(central, (total,), final(bodies)@[0].vx),
        exists|total: u64|
            #[trigger] momentum_fold(accumulate, old(bodies)@, 1, 0, 0, total)
                && call_ensures(central, (total,), final(bodies)@[0].vy),
        exists|total: u64|
            #[trigger] momentum_fold(accumulate, old(bodies)@, 2, 0, 0, total)
                && call_ensures(central, (total,), final(bodies)@[0].vz),
{
    let ghost orig = bodies@;
    let mut px: u64 = 0;
    let mut py: u64 = 0;
    let mut pz: u64 = 0;
    let mut i: usize = 0;
    while i < nbody
        invariant
            nbody == bodies@.len(),
            bodies@ == orig,
            i <= nbody,
            forall|acc: u64, v: u64, m: u64| call_requires(accumulate, (acc, v, m)),
            forall|out: u64|
                momentum_fold(accumulate, orig, 0, i as int, px, out)
                    ==> momentum_fold(accumulate, orig, 0, 0, 0, out),
            forall|out: u64|
                momentum_fold(accumulate, orig, 1, i as int, py, out)
                    ==> momentum_fold(accumulate, orig, 1, 0, 0, out),
            forall|out: u64|
                momentum_fold(accumulate, orig, 2, i as int, pz, out)
                    ==> momentum_fold(accumulate, orig, 2, 0, 0, out),
        decreases nbody - i,
    {
        let b = bodies[i];
        let ghost px0 = px;
        let ghost py0 = py;
        let ghost pz0 = pz;
        px = accumulate(px, b.vx, b.mass);
        py = accumulate(py, b.vy, b.mass);
        pz = accumulate(pz, b.vz, b.mass);
        proof {
            assert forall|out: u64|
                momentum_fold(accumulate, orig, 0, i as int + 1, px, out)
                    implies momentum_fold(accumulate, orig, 0, 0, 0, out) by {
                assert(call_ensures(accumulate, (px0, axis_velocity(orig[i as int], 0), orig[i as int].mass), px));
                assert(momentum_fold(accumulate, orig, 0, i as int, px0, out));
            }
            assert forall|out: u64|
                momentum_fold(accumulate, orig, 1, i as int + 1, py, out)
                    implies momentum_fold(accumulate, orig, 1, 0, 0, out) by {
                assert(call_ensures(accumulate, (py0, axis_velocity(orig[i as int], 1), orig[i as int].mass), py));
                assert(momentum_fold(accumulate, orig, 1, i as int, py0, out));
            }
            assert forall|out: u64|
                momentum_fold(accumulate, orig, 2, i as int + 1, pz, out)
                    implies momentum_fold(accumulate, orig, 2, 0, 0, out) by {
                assert(call_ensures(accumulate, (pz0, axis_velocity(orig[i as int], 2), orig[i as int].mass), pz));
                assert(momentum_fold(accumulate, orig, 2, i as int, pz0, out));
            }
        }
        i = i + 1;
    }
    proof {
        assert(momentum_fold(accumulate, orig, 0, nbody as int, px, px));
        assert(momentum_fold(accumulate, orig, 1, nbody as int, py, py));
        assert(momentum_fold(accumulate, orig, 2, nbody as int, pz, pz));
        assert(momentum_fold(accumulate, orig, 0, 0, 0, px));
        assert(momentum_fold(accumulate, orig, 1, 0, 0, py));
        assert(momentum_fold(accumulate, orig, 2, 0, 0, pz));
    }
    let v0x = central(px);
    let v0y = central(py);
    let v0z = central(pz);
    let b0 = bodies[0];
    bodies.set(
        0,
        Body { x: b0.x, y: b0.y, z: b0.z, vx: v0x, vy: v0y, vz: v0z, mass: b0.mass },
    );
}

/// `b` with its velocity replaced; position and mass keep their bits.
pub open spec fn with_velocity(b: Body, vx: u64, vy: u64, vz: u64) -> Body {
    Body { x: b.x, y: b.y, z: b.z, vx: vx, vy: vy, vz: vz, mass: b.mass }
}

/// The committed form of the sweeping body `c`: its accumulated velocity
/// kept, its position replaced by the drifted components.
pub open spec fn committed(c: Body, nx: u64, ny: u64, nz: u64) -> Body {
    Body { x: nx, y: ny, z: nz, vx: c.vx, vy: c.vy, vz: c.vz, mass: c.mass }
}

/// Holds when sweeping body `i`'s remaining pairs, from partner `j` on, can
/// carry the working body `cur` and the stored bodies `s` to `out_cur` and
/// `out_s`: one `f` call per partner, in index order, its working
/// components folded into `cur` and its partner components written to that
/// partner's stored velocity — and nowhere else.
pub open spec fn kick_chain<FK: Fn(Body, Body, u64) -> Kick>(
    f: FK,
    dt: u64,
    cur: Body,
    s: Seq<Body>,
    j: int,
    out_cur: Body,
    out_s: Seq<Body>,
) -> bool
    decreases s.len() - j,
{
    if 0 <= j < s.len() {
        exists|k: Kick|
            #[trigger] call_ensures(f, (cur, s[j], dt), k)
                && kick_chain(
                f,
                dt,
                with_velocity(cur, k.avx, k.avy, k.avz),
                s.update(j, with_velocity(s[j], k.pvx, k.pvy, k.pvz)),
                j + 1,
                out_cur,
                out_s,
            )
    } else {
        out_cur == cur && out_s == s
    }
}

/// Holds when the sweep over `n` bodies, from body `i` on, can carry the
/// stored bodies `s` to `out`: for each body in turn, a `kick_chain` over
/// its scheduled partners starting from the body as stored, then `fd`
/// applied to each position component with the committed velocity — x, y,
/// then z — and the body written back exactly once.
pub open spec fn sweep_chain<FK: Fn(Body, Body, u64) -> Kick, FD: Fn(u64, u64, u64) -> u64>(
    fk: FK,
    fd: FD,
    dt: u64,
    n: int,
    s: Seq<Body>,
    i: int,
    out: Seq<Body>,
) -> bool
    decreases n - i,
{
    if 0 <= i < n {
        exists|c: Body, mid: Seq<Body>, nx: u64, ny: u64, nz: u64|
            #![trigger kick_chain(fk, dt, s[i], s, i + 1, c, mid), call_ensures(fd, (c.x, dt, c.vx), nx), call_ensures(fd, (c.y, dt, c.vy), ny), call_ensures(fd, (c.z, dt, c.vz), nz)]
            kick_chain(fk, dt, s[i], s, i + 1, c, mid)
                && call_ensures(fd, (c.x, dt, c.vx), nx)
                && call_ensures(fd, (c.y, dt, c.vy), ny)
                && call_ensures(fd, (c.z, dt, c.vz), nz)
                && sweep_chain(fk, fd, dt, n, mid.update(i, committed(c, nx, ny, nz)), i + 1, out)
    } else {
        out == s
    }
}

/// One integration step over the first `nbody` bodies. The sweep walks the
/// bodies in index order; for body `i` it calls `kick` once per scheduled
/// partner, in the schedule's order, handing it the sweeping body with its
/// working velocity so far, the partner as currently stored, and `dt`. The
/// kick's working components replace the local accumulator, and its partner
/// components the partner's stored velocity, immediately. When body `i`'s
/// partners are exhausted, its working velocity is committed once, and its
/// position is advanced by `drift` — fed the committed, post-kick velocity,
/// component by component, x then y then z: the `sweep_chain` postcondition
/// pins this whole discipline. Masses are never written and no body is
/// added or removed; what value each position and velocity then holds is
/// whatever the two supplied functions compute.
pub fn advance<FK: Fn(Body, Body, u64) -> Kick, FD: Fn(u64, u64, u64) -> u64>(
    bodies: &mut Vec<Body>,
    nbody: usize,
    dt: u64,
    kick: FK,
    drift: FD,
)
    requires
        nbody == old(bodies)@.len(),
        forall|a: Body, b: Body, d: u64| call_requires(kick, (a, b, d)),
        forall|x: u64, d: u64, v: u64| call_requires(drift, (x, d, v)),
    ensures
        final(bodies)@.len() == old(bodies)@.len(),
        forall|k: int|
            0 <= k < final(bodies)@.len() ==> final(bodies)@[k].mass == old(bodies)@[k].mass,
        sweep_chain(kick, drift, dt, nbody as int, old(bodies)@, 0, final(bodies)@),
{
    let ghost orig = bodies@;
    let ghost n = nbody as int;
    let mut i: usize = 0;
    while i < nbody
        invariant
            nbody == bodies@.len(),
            n == nbody as int,
            orig == old(bodies)@,
            i <= nbody,
            forall|k: int| 0 <= k < bodies@.len() ==> bodies@[k].mass == old(bodies)@[k].mass,
            forall|a: Body, b: Body, d: u64| call_requires(kick, (a, b, d)),
            forall|x: u64, d: u64, v: u64| call_requires(drift, (x, d, v)),
            forall|out: Seq<Body>|
                #[trigger] sweep_chain(kick, drift, dt, n, bodies@, i as int, out)
                    ==> sweep_chain(kick, drift, dt, n, orig, 0, out),
        decreases nbody - i,
    {
        let ghost s_start = bodies@;
        let mut cur: Body = bodies[i];
        let mut j: usize = i + 1;
        while j < nbody
            invariant
                nbody == bodies@.len(),
                i < nbody,
                i + 1 <= j <= nbody,
                cur.mass == bodies@[i as int].mass,
                forall|k: int| 0 <= k < bodies@.len() ==> bodies@[k].mass == old(bodies)@[k].mass,
                forall|a: Body, b: Body, d: u64| call_requires(kick, (a, b, d)),
                forall|oc: Body, os: Seq<Body>|
                    #[trigger] kick_chain(kick, dt, cur, bodies@, j as int, oc, os)
                        ==> kick_chain(kick, dt, s_start[i as int], s_start, i as int + 1, oc, os),
            decreases nbody - j,
        {
            let ghost cur0 = cur;
            let ghost s0 = bodies@;
            let kk = kick(cur, bodies[j], dt);
            cur = Body {
                x: cur.x,
                y: cur.y,
                z: cur.z,
                vx: kk.avx,
                vy: kk.avy,
                vz: kk.avz,
                mass: cur.mass,
            };
            let p = bodies[j];
            bodies.set(
                j,
                Body { x: p.x, y: p.y, z: p.z, vx: kk.pvx, vy: kk.pvy, vz: kk.pvz, mass: p.mass },
            );
            proof {
                assert(cur == with_velocity(cur0, kk.avx, kk.avy, kk.avz));
                assert(bodies@ == s0.update(
                    j as int,
                    with_velocity(s0[j as int], kk.pvx, kk.pvy, kk.pvz),
                ));
                assert forall|oc: Body, os: Seq<Body>|
                    #[trigger] kick_chain(kick, dt, cur, bodies@, j as int + 1, oc, os)
                        implies kick_chain(
                        kick,
                        dt,
                        s_start[i as int],
                        s_start,
                        i as int + 1,
                        oc,
                        os,
                    ) by {
                    assert(call_ensures(kick, (cur0, s0[j as int], dt), kk));
                    assert(kick_chain(kick, dt, cur0, s0, j as int, oc, os));
                }
            }
            j = j + 1;
        }
        let ghost s_swept = bodies@;
        proof {
            assert(kick_chain(kick, dt, cur, bodies@, nbody as int, cur, bodies@));
            assert(kick_chain(kick, dt, s_start[i as int], s_start, i as int + 1, cur, s_swept));
        }
        let nx = drift(cur.x, dt, cur.vx);
        let ny = drift(cur.y, dt, cur.vy);
        let nz = drift(cur.z, dt, cur.vz);
        bodies.set(
            i,
            Body { x: nx, y: ny, z: nz, vx: cur.vx, vy: cur.vy, vz: cur.vz, mass: cur.mass },
        );
        proof {
            assert(bodies@ == s_swept.update(i as int, committed(cur, nx, ny, nz)));
            assert forall|out: Seq<Body>|
                #[trigger] sweep_chain(kick, drift, dt, n, bodies@, i as int + 1, out)
                    implies sweep_chain(kick, drift, dt, n, orig, 0, out) by {
                assert(call_ensures(drift, (cur.x, dt, cur.vx), nx));
                assert(call_ensures(drift, (cur.y, dt, cur.vy), ny));
                assert(call_ensures(drift, (cur.z, dt, cur.vz), nz));
                assert(sweep_chain(kick, drift, dt, n, s_start, i as int, out));
            }
        }
        i = i + 1;
    }
    proof {
        assert(sweep_chain(kick, drift, dt, n, bodies@, nbody as int, bodies@));
    }
}

/// Holds when folding `f` over the pairs of body `i` with each body of `s`
/// from index `j` on can carry `acc` to `out`: a chain of intermediate
/// accumulators linked by `f`'s postcondition.
pub open spec fn pair_fold<FP: Fn(u64, Body, Body) -> u64>(
    f: FP,
    s: Seq<Body>,
    i: int,
    j: int,
    acc: u64,
    out: u64,
) -> bool
    decreases s.len() - j,
{
    if 0 <= i && 0 <= j < s.len() {
        exists|mid: u64|
            #[trigger] call_ensures(f, (acc, s[i], s[j]), mid) && pair_fold(f, s, i, j + 1, mid, out)
    } else {
        out == acc
    }
}

/// Holds when the energy traversal from body `i` on can carry `acc` to
/// `out`: each step folds `fk` once over the body, then `fp` over the
/// body's scheduled pairs, and continues with the next body.
pub open spec fn energy_fold<FK: Fn(u64, Body) -> u64, FP: Fn(u64, Body, Body) -> u64>(
    fk: FK,
    fp: FP,
    s: Seq<Body>,
    i: int,
    acc: u64,
    out: u64,
) -> bool
    decreases s.len() - i,
{
    if 0 <= i < s.len() {
        exists|mid1: u64, mid2: u64|
            call_ensures(fk, (acc, s[i]), mid1)
                && #[trigger] pair_fold(fp, s, i, i + 1, mid1, mid2)
                && energy_fold(fk, fp, s, i + 1, mid2, out)
    } else {
        out == acc
    }
}

/// Total-energy evaluation's traversal. Starting from the stored zero, the
/// result is `kinetic` folded once over each body, in index order, and
/// `potential` folded once over each scheduled pair, in the schedule's
/// order, interleaved exactly as the sweep interleaves them. A pure read:
/// the bodies are not touched. The arithmetic — the squared speeds, the
/// inverse distances — is whatever the two supplied functions compute.
pub fn energy<FK: Fn(u64, Body) -> u64, FP: Fn(u64, Body, Body) -> u64>(
    bodies: &Vec<Body>,
    nbody: usize,
    kinetic: FK,
    potential: FP,
) -> (e: u64)
    requires
        nbody == bodies@.len(),
        forall|acc: u64, b: Body| call_requires(kinetic, (acc, b)),
        forall|acc: u64, a: Body, b: Body| call_requires(potential, (acc, a, b)),
    ensures
        energy_fold(kinetic, potential, bodies@, 0, 0, e),
{
    let ghost s = bodies@;
    let mut e: u64 = 0;
    let mut i: usize = 0;
    while i < nbody
        invariant
            nbody == bodies@.len(),
            s == bodies@,
            i <= nbody,
            forall|acc: u64, b: Body| call_requires(kinetic, (acc, b)),
            forall|acc: u64, a: Body, b: Body| call_requires(potential, (acc, a, b)),
            forall|out: u64|
                #[trigger] energy_fold(kinetic, potential, s, i as int, e, out)
                    ==> energy_fold(kinetic, potential, s, 0, 0, out),
        decreases nbody - i,
    {
        let ghost e_in = e;
        e = kinetic(e, bodies[i]);
        let ghost e_kin = e;
        let mut j: usize = i + 1;
        while j < nbody
            invariant
                nbody == bodies@.len(),
                s == bodies@,
                i < nbody,
                i + 1 <= j <= nbody,
                forall|acc: u64, a: Body, b: Body| call_requires(potential, (acc, a, b)),
                forall|out: u64|
                    #[trigger] pair_fold(potential, s, i as int, j as int, e, out)
                        ==> pair_fold(potential, s, i as int, i as int + 1, e_kin, out),
            decreases nbody - j,
        {
            let ghost e0 = e;
            e = potential(e, bodies[i], bodies[j]);
            proof {
                assert forall|out: u64|
                    #[trigger] pair_fold(potential, s, i as int, j as int + 1, e, out)
                        implies pair_fold(potential, s, i as int, i as int + 1, e_kin, out) by {
                    assert(call_ensures(potential, (e0, s[i as int], s[j as int]), e));
                    assert(pair_fold(potential, s, i as int, j as int, e0, out));
                }
            }
            j = j + 1;
        }
        proof {
            assert(pair_fold(potential, s, i as int, nbody as int, e, e));
            assert(pair_fold(potential, s, i as int, i as int + 1, e_kin, e));
            assert forall|out: u64|
                #[trigger] energy_fold(kinetic, potential, s, i as int + 1, e, out)
                    implies energy_fold(kinetic, potential, s, 0, 0, out) by {
                assert(call_ensures(kinetic, (e_in, s[i as int]), e_kin));
                assert(energy_fold(kinetic, potential, s, i as int, e_in, out));
            }
        }
        i = i + 1;
    }
    proof {
        assert(energy_fold(kinetic, potential, s, nbody as int, e, e));
    }
    e
}

} // verus!
