//! The body store: the published Sun-plus-outer-planets initial conditions.
//!
//! Verus does not reason about IEEE-754 arithmetic, so every scalar of the
//! simulation is held here as the exact bit pattern of a binary64 value.
//! Positions are in astronomical units, masses in units of the solar mass
//! (with the solar-mass constant itself equal to four pi squared), and
//! velocities are pre-scaled from per-day figures by the days-per-year
//! constant, so that an integrator can step in days without any further
//! per-body conversion. A caller that performs the floating-point work
//! reinterprets each field with a bits-to-double conversion; the contracts
//! below pin every field exactly, bit for bit.

use vstd::prelude::*;

verus! {

/// Bit pattern of the solar mass constant, four pi squared. The central
/// body carries exactly this mass, and momentum normalization divides the
/// accumulated momentum by this same value.
pub const SOLAR_MASS_BITS: u64 = 0x4043BD3CC9BE45DE;

/// Bit pattern of the days-per-year scale. The stored velocities are
/// already multiplied by it; the constant is kept for callers that need to
/// express further per-day quantities in the same unit system.
pub const DAYS_PER_YEAR_BITS: u64 = 0x4076D3D70A3D70A4;

/// How many bodies the published configuration holds: the central body and
/// four planets.
pub const BODY_COUNT: usize = 5;

/// One point mass: position, velocity and mass, each scalar as the bit
/// pattern of a binary64 value. Position and velocity are meant to be
/// mutated in place by an integrator; the mass never changes after
/// construction.
#[derive(Clone, Copy, Debug, PartialEq, Eq, Structural)]
pub struct Body {
    pub x: u64,
    pub y: u64,
    pub z: u64,
    pub vx: u64,
    pub vy: u64,
    pub vz: u64,
    pub mass: u64,
}

/// The central body: at rest at the origin, carrying one solar mass. Its
/// velocity is the one later overwritten by momentum normalization.
pub open spec fn sun() -> Body {
    Body {
        x: 0,
        y: 0,
        z: 0,
        vx: 0,
        vy: 0,
        vz: 0,
        mass: SOLAR_MASS_BITS,
    }
}

/// The first planet of the published configuration.
pub open spec fn jupiter() -> Body {
    Body {
        x: 0x40135DA0343CD92C,
        y: 0xBFF290ABC01FDB7C,
        z: 0xBFBA86F96C25EBF0,
        vx: 0x3FE367069B93CCBC,
        vy: 0x40067EF2F57D949B,
        vz: 0xBF99D2D79A5A0715,
        mass: 0x3FA34C95D9AB33D8,
    }
}

/// The second planet of the published configuration.
pub open spec fn saturn() -> Body {
    Body {
        x: 0x4020AFCDC332CA67,
        y: 0x40107FCB31DE01B0,
        z: 0xBFD9D353E1EB467C,
        vx: 0xBFF02C21B8879442,
        vy: 0x3FFD35E9BF1F8F13,
        vz: 0x3F813C485F1123B4,
        mass: 0x3F871D490D07C637,
    }
}

/// The third planet of the published configuration.
pub open spec fn uranus() -> Body {
    Body {
        x: 0x4029C9EACEA7D9CF,
        y: 0xC02E38E8D626667E,
        z: 0xBFCC9557BE257DA0,
        vx: 0x3FF1531CA9911BEF,
        vy: 0x3FEBCC7F3E54BBC5,
        vz: 0xBF862F6BFAF23E7C,
        mass: 0x3F5C3DD29CF41EB3,
    }
}

/// The fourth planet of the published configuration.
pub open spec fn neptune() -> Body {
    Body {
        x: 0x402EC267A905572A,
        y: 0xC039EB5833C8A220,
        z: 0x3FC6F1F393ABE540,
        vx: 0x3FEF54B61659BC4A,
        vy: 0x3FE307C631C4FBA3,
        vz: 0xBFA1CB88587665F6,
        mass: 0x3F60A8F3531799AC,
    }
}

/// The five-body system in its published order, the central body first.
pub open spec fn initial_system() -> Seq<Body> {
    seq![sun(), jupiter(), saturn(), uranus(), neptune()]
}

/// Builds a fresh, not yet momentum-normalized system. The result is pinned
/// to `initial_system`, so any two calls return the same bits.
pub fn initialize() -> (s: Vec<Body>)
    ensures
        s@ == initial_system(),
        s@.len() == BODY_COUNT,
{
    let mut s: Vec<Body> = Vec::new();
    s.push(Body {
        x: 0,
        y: 0,
        z: 0,
        vx: 0,
        vy: 0,
        vz: 0,
        mass: SOLAR_MASS_BITS,
    });
    s.push(Body {
        x: 0x40135DA0343CD92C,
        y: 0xBFF290ABC01FDB7C,
        z: 0xBFBA86F96C25EBF0,
        vx: 0x3FE367069B93CCBC,
        vy: 0x40067EF2F57D949B,
        vz: 0xBF99D2D79A5A0715,
        mass: 0x3FA34C95D9AB33D8,
    });
    s.push(Body {
        x: 0x4020AFCDC332CA67,
        y: 0x40107FCB31DE01B0,
        z: 0xBFD9D353E1EB467C,
        vx: 0xBFF02C21B8879442,
        vy: 0x3FFD35E9BF1F8F13,
        vz: 0x3F813C485F1123B4,
        mass: 0x3F871D490D07C637,
    });
    s.push(Body {
        x: 0x4029C9EACEA7D9CF,
        y: 0xC02E38E8D626667E,
        z: 0xBFCC9557BE257DA0,
        vx: 0x3FF1531CA9911BEF,
        vy: 0x3FEBCC7F3E54BBC5,
        vz: 0xBF862F6BFAF23E7C,
        mass: 0x3F5C3DD29CF41EB3,
    });
    s.push(Body {
        x: 0x402EC267A905572A,
        y: 0xC039EB5833C8A220,
        z: 0x3FC6F1F393ABE540,
        vx: 0x3FEF54B61659BC4A,
        vy: 0x3FE307C631C4FBA3,
        vz: 0xBFA1CB88587665F6,
        mass: 0x3F60A8F3531799AC,
    });
    proof {
        assert(s@ =~= initial_system());
    }
    s
}

/// Law: constructing the system is deterministic. Any two values that meet
/// the contract of `initialize` are identical, bit for bit, so repeated
/// construction yields indistinguishable systems.
pub proof fn lemma_initialize_deterministic(a: Seq<Body>, b: Seq<Body>)
    requires
        a == initial_system(),
        b == initial_system(),
    ensures
        a == b,
{
}

} // verus!
