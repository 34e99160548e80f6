use vstd::prelude::*;

verus! {

/// One channel, one sample per frame.
pub type Mono = [i32; 1];

/// Two channels, left then right.
pub type Stereo = [i32; 2];

/// The midpoint of two samples, rounded towards negative infinity.
pub open spec fn midpoint(a: i32, b: i32) -> i32 {
    ((a + b) / 2) as i32
}

/// Computes `midpoint` without leaving the range of the sample type.
pub fn mid_sample(a: i32, b: i32) -> (m: i32)
    ensures
        m == midpoint(a, b),
{
    let sum: i64 = a as i64 + b as i64;
    if sum >= 0 {
        (sum / 2) as i32
    } else {
        let up: i64 = (1 - sum) / 2;
        (0 - up) as i32
    }
}

/// One instant of audio across all channels.
///
/// The samples are fixed-point amplitudes. Addition and subtraction act on
/// each channel and wrap around, so the frames of one width form an abelian
/// group with `equilibrium` as its zero; the five laws below say so, and every
/// statement the engine makes about mixing rests on them alone.
pub trait Frame: Copy + Sized {
    /// Silence.
    spec fn spec_equilibrium() -> Self;

    /// The channel-wise sum.
    spec fn spec_add_amp(self, other: Self) -> Self;

    /// The channel-wise difference.
    spec fn spec_sub_amp(self, other: Self) -> Self;

    /// The channel-wise product.
    spec fn spec_mul_amp(self, other: Self) -> Self;

    /// The channel-wise midpoint.
    spec fn spec_mid_amp(self, other: Self) -> Self;

    fn equilibrium() -> (r: Self)
        ensures
            r == Self::spec_equilibrium(),
    ;

    fn add_amp(self, other: Self) -> (r: Self)
        ensures
            r == self.spec_add_amp(other),
    ;

    fn sub_amp(self, other: Self) -> (r: Self)
        ensures
            r == self.spec_sub_amp(other),
    ;

    fn mul_amp(self, other: Self) -> (r: Self)
        ensures
            r == self.spec_mul_amp(other),
    ;

    fn mid_amp(self, other: Self) -> (r: Self)
        ensures
            r == self.spec_mid_amp(other),
    ;

    /// Addition does not depend on the order of its operands.
    proof fn add_commutes(a: Self, b: Self)
        ensures
            a.spec_add_amp(b) == b.spec_add_amp(a),
    ;

    /// Addition does not depend on how a sum of three is grouped.
    proof fn add_associates(a: Self, b: Self, c: Self)
        ensures
            a.spec_add_amp(b).spec_add_amp(c) == a.spec_add_amp(b.spec_add_amp(c)),
    ;

    /// Adding silence changes nothing.
    proof fn add_equilibrium(a: Self)
        ensures
            a.spec_add_amp(Self::spec_equilibrium()) == a,
    ;

    /// Subtracting what was added gives back the start.
    proof fn sub_undoes_add(a: Self, b: Self)
        ensures
            a.spec_add_amp(b).spec_sub_amp(b) == a,
    ;

    /// Adding what was subtracted gives back the start.
    proof fn add_undoes_sub(a: Self, b: Self)
        ensures
            a.spec_sub_amp(b).spec_add_amp(b) == a,
    ;
}

impl Frame for [i32; 1] {
    open spec fn spec_equilibrium() -> Self {
        [0i32]
    }

    open spec fn spec_add_amp(self, other: Self) -> Self {
        [self[0].wrapping_add(other[0])]
    }

    open spec fn spec_sub_amp(self, other: Self) -> Self {
        [self[0].wrapping_sub(other[0])]
    }

    open spec fn spec_mul_amp(self, other: Self) -> Self {
        [self[0].wrapping_mul(other[0])]
    }

    open spec fn spec_mid_amp(self, other: Self) -> Self {
        [midpoint(self[0], other[0])]
    }

    fn equilibrium() -> (r: Self) {
        [0i32]
    }

    fn add_amp(self, other: Self) -> (r: Self) {
        [self[0].wrapping_add(other[0])]
    }

    fn sub_amp(self, other: Self) -> (r: Self) {
        [self[0].wrapping_sub(other[0])]
    }

    fn mul_amp(self, other: Self) -> (r: Self) {
        [self[0].wrapping_mul(other[0])]
    }

    fn mid_amp(self, other: Self) -> (r: Self) {
        [mid_sample(self[0], other[0])]
    }

    proof fn add_commutes(a: Self, b: Self) {
    }

    proof fn add_associates(a: Self, b: Self, c: Self) {
    }

    proof fn add_equilibrium(a: Self) {
        assert(a.spec_add_amp(Self::spec_equilibrium())@ =~= a@);
    }

    proof fn sub_undoes_add(a: Self, b: Self) {
        assert(a.spec_add_amp(b).spec_sub_amp(b)@ =~= a@);
    }

    proof fn add_undoes_sub(a: Self, b: Self) {
        assert(a.spec_sub_amp(b).spec_add_amp(b)@ =~= a@);
    }
}

impl Frame for [i32; 2] {
    open spec fn spec_equilibrium() -> Self {
        [0i32, 0i32]
    }

    open spec fn spec_add_amp(self, other: Self) -> Self {
        [self[0].wrapping_add(other[0]), self[1].wrapping_add(other[1])]
    }

    open spec fn spec_sub_amp(self, other: Self) -> Self {
        [self[0].wrapping_sub(other[0]), self[1].wrapping_sub(other[1])]
    }

    open spec fn spec_mul_amp(self, other: Self) -> Self {
        [self[0].wrapping_mul(other[0]), self[1].wrapping_mul(other[1])]
    }

    open spec fn spec_mid_amp(self, other: Self) -> Self {
        [midpoint(self[0], other[0]), midpoint(self[1], other[1])]
    }

    fn equilibrium() -> (r: Self) {
        [0i32, 0i32]
    }

    fn add_amp(self, other: Self) -> (r: Self) {
        [self[0].wrapping_add(other[0]), self[1].wrapping_add(other[1])]
    }

    fn sub_amp(self, other: Self) -> (r: Self) {
        [self[0].wrapping_sub(other[0]), self[1].wrapping_sub(other[1])]
    }

    fn mul_amp(self, other: Self) -> (r: Self) {
        [self[0].wrapping_mul(other[0]), self[1].wrapping_mul(other[1])]
    }

    fn mid_amp(self, other: Self) -> (r: Self) {
        [mid_sample(self[0], other[0]), mid_sample(self[1], other[1])]
    }

    proof fn add_commutes(a: Self, b: Self) {
    }

    proof fn add_associates(a: Self, b: Self, c: Self) {
    }

    proof fn add_equilibrium(a: Self) {
        assert(a.spec_add_amp(Self::spec_equilibrium())@ =~= a@);
    }

    proof fn sub_undoes_add(a: Self, b: Self) {
        assert(a.spec_add_amp(b).spec_sub_amp(b)@ =~= a@);
    }

    proof fn add_undoes_sub(a: Self, b: Self) {
        assert(a.spec_sub_amp(b).spec_add_amp(b)@ =~= a@);
    }
}

} // verus!
