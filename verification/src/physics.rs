use rapier3d_f64::dynamics::{LockedAxes, RigidBodyType};
use vstd::prelude::*;

verus! {

#[verifier::external_type_specification]
#[verifier::external_body]
pub struct ExLockedAxes(LockedAxes);

#[verifier::external_type_specification]
#[verifier::external_body]
pub struct ExRigidBodyType(RigidBodyType);

/// The set of flags a `rapier3d_f64::dynamics::LockedAxes` holds, each flag
/// by the position of its bit.
pub uninterp spec fn rapier_locked_flags(axes: LockedAxes) -> Set<u8>;

/// The positions of the bits set in `bits`.
pub open spec fn flag_positions(bits: u8) -> Set<u8> {
    Set::new(|i: u8| i < 8 && (bits >> i) & 1u8 == 1u8)
}

/// Calls `rapier3d_f64::dynamics::LockedAxes::from_bits`, which accepts
/// exactly the bit patterns made of its six flags (bits 0 to 5), refuses any
/// other, and holds exactly the flags whose bits are set.
#[verifier::external_body]
fn rapier_locked_axes_from_bits(bits: u8) -> (r: Option<LockedAxes>)
    ensures
        r is Some <==> (bits & 0xc0u8) == 0,
        r matches Some(a) ==> rapier_locked_flags(a) == flag_positions(bits),
{
    LockedAxes::from_bits(bits)
}

/// The discriminant of a `rapier3d_f64::dynamics::RigidBodyType` (declared
/// in rapier: `Dynamic = 0`, `Fixed = 1`, `KinematicPositionBased = 2`,
/// `KinematicVelocityBased = 3`).
pub uninterp spec fn rapier_body_code(t: RigidBodyType) -> u8;

/// `rapier3d_f64::dynamics::RigidBodyType::Dynamic`, whose discriminant is 0.
#[verifier::external_body]
fn rapier_dynamic_body() -> (r: RigidBodyType)
    ensures
        rapier_body_code(r) == 0,
{
    RigidBodyType::Dynamic
}

/// `rapier3d_f64::dynamics::RigidBodyType::Fixed`, whose discriminant is 1.
#[verifier::external_body]
fn rapier_fixed_body() -> (r: RigidBodyType)
    ensures
        rapier_body_code(r) == 1,
{
    RigidBodyType::Fixed
}

/// How a rigid body moves.
#[derive(Clone, Copy, Debug, PartialEq, Eq, Structural)]
pub enum SpaceRigidBodyType {
    Dynamic,
    Fixed,
}

impl SpaceRigidBodyType {
    /// The physics engine's body type of the same name.
    pub fn to_rapier(&self) -> (r: RigidBodyType)
        ensures
            rapier_body_code(r) == (match *self {
                SpaceRigidBodyType::Dynamic => 0u8,
                SpaceRigidBodyType::Fixed => 1u8,
            }),
    {
        match self {
            SpaceRigidBodyType::Dynamic => rapier_dynamic_body(),
            SpaceRigidBodyType::Fixed => rapier_fixed_body(),
        }
    }
}

/// Flag: no translation along X.
pub const TRANSLATION_LOCKED_X: u8 = 1;
/// Flag: no translation along Y.
pub const TRANSLATION_LOCKED_Y: u8 = 2;
/// Flag: no translation along Z.
pub const TRANSLATION_LOCKED_Z: u8 = 4;
/// Flags: no translation at all.
pub const TRANSLATION_LOCKED: u8 = 7;
/// Flag: no rotation about X.
pub const ROTATION_LOCKED_X: u8 = 8;
/// Flag: no rotation about Y.
pub const ROTATION_LOCKED_Y: u8 = 16;
/// Flag: no rotation about Z.
pub const ROTATION_LOCKED_Z: u8 = 32;
/// Flags: no rotation at all.
pub const ROTATION_LOCKED: u8 = 56;
/// Every flag.
pub const ALL_LOCKED: u8 = 63;

/// The axes along and about which a rigid body may not move: a set of the
/// six flags above.
#[derive(Clone, Copy, Debug, PartialEq, Eq)]
pub struct SpaceLockedAxes {
    bits: u8,
}

impl SpaceLockedAxes {
    #[verifier::type_invariant]
    spec fn only_known_flags(self) -> bool {
        self.bits < 64
    }

    pub closed spec fn spec_bits(&self) -> u8 {
        self.bits
    }

    /// No axis locked.
    pub fn empty() -> (r: Self)
        ensures
            r.spec_bits() == 0,
    {
        SpaceLockedAxes { bits: 0 }
    }

    /// Every axis locked.
    pub fn all() -> (r: Self)
        ensures
            r.spec_bits() == ALL_LOCKED,
    {
        SpaceLockedAxes { bits: ALL_LOCKED }
    }

    pub fn bits(&self) -> (r: u8)
        ensures
            r == self.spec_bits(),
            r < 64,
    {
        proof {
            use_type_invariant(self);
        }
        self.bits
    }

    /// The flags `bits`, or `None` when `bits` holds anything else.
    pub fn from_bits(bits: u8) -> (r: Option<Self>)
        ensures
            r is Some <==> bits < 64,
            r matches Some(a) ==> a.spec_bits() == bits,
    {
        if bits < 64 {
            Some(SpaceLockedAxes { bits })
        } else {
            None
        }
    }

    /// The flags among `bits`, the rest dropped.
    pub fn from_bits_truncate(bits: u8) -> (r: Self)
        ensures
            r.spec_bits() == bits & ALL_LOCKED,
    {
        let b = bits & ALL_LOCKED;
        assert(b < 64) by (bit_vector)
            requires b == bits & 63u8;
        SpaceLockedAxes { bits: b }
    }

    /// Whether every flag of `other` is set here.
    pub fn contains(&self, other: Self) -> (r: bool)
        ensures
            r == (self.spec_bits() & other.spec_bits() == other.spec_bits()),
    {
        (self.bits & other.bits) == other.bits
    }

    /// The flags set in either.
    pub fn union(self, other: Self) -> (r: Self)
        ensures
            r.spec_bits() == self.spec_bits() | other.spec_bits(),
    {
        proof {
            use_type_invariant(&self);
            use_type_invariant(&other);
        }
        let a = self.bits;
        let b = other.bits;
        let c = a | b;
        assert(c < 64) by (bit_vector)
            requires a < 64u8, b < 64u8, c == a | b;
        SpaceLockedAxes { bits: c }
    }

    /// Set the flags of `other`.
    pub fn insert(&mut self, other: Self)
        ensures
            final(self).spec_bits() == old(self).spec_bits() | other.spec_bits(),
    {
        *self = self.union(other);
    }

    /// Clear the flags of `other`.
    pub fn remove(&mut self, other: Self)
        ensures
            final(self).spec_bits() == old(self).spec_bits() & !other.spec_bits(),
    {
        proof {
            use_type_invariant(&*self);
        }
        let a = self.bits;
        let b = other.bits;
        let c = a & !b;
        assert(c < 64) by (bit_vector)
            requires a < 64u8, c == a & !b;
        *self = SpaceLockedAxes { bits: c };
    }

    /// The physics engine's locked-axes value with the same flags; the
    /// conversion cannot fail, as only the six known flags are ever set.
    pub fn to_rapier(&self) -> (r: LockedAxes)
        ensures
            rapier_locked_flags(r) == flag_positions(self.spec_bits()),
    {
        proof {
            use_type_invariant(self);
        }
        let b = self.bits;
        assert((b & 0xc0u8) == 0) by (bit_vector)
            requires b < 64u8;
        rapier_locked_axes_from_bits(b).expect("Internal conversion error.")
    }
}

} // verus!
