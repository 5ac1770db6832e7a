//! The five cryptographic dimensions that give a bootstrapping key its shape.

use vstd::prelude::*;
use concrete_commons::parameters::{
    DecompositionBaseLog, DecompositionLevelCount, GlweDimension, LweDimension, PolynomialSize,
};

verus! {

/// concrete_commons's `LweDimension`, a public newtype over `usize` holding
/// the input LWE dimension; its field is read as is.
#[verifier::external_type_specification]
pub struct ExLweDimension(LweDimension);

/// concrete_commons's `GlweDimension`, a public newtype over `usize` holding
/// the GLWE dimension; its field is read as is.
#[verifier::external_type_specification]
pub struct ExGlweDimension(GlweDimension);

/// concrete_commons's `PolynomialSize`, a public newtype over `usize` holding
/// the polynomial size; its field is read as is.
#[verifier::external_type_specification]
pub struct ExPolynomialSize(PolynomialSize);

/// concrete_commons's `DecompositionLevelCount`, a public newtype over `usize` holding
/// the decomposition level count; its field is read as is.
#[verifier::external_type_specification]
pub struct ExDecompositionLevelCount(DecompositionLevelCount);

/// concrete_commons's `DecompositionBaseLog`, a public newtype over `usize` holding
/// the decomposition base log; its field is read as is.
#[verifier::external_type_specification]
pub struct ExDecompositionBaseLog(DecompositionBaseLog);

/// Whether `n` is a power of two (1, 2, 4, ...).
pub open spec fn is_power_of_two(n: nat) -> bool
    decreases n,
{
    if n == 1 {
        true
    } else if n == 0 || n % 2 == 1 {
        false
    } else {
        is_power_of_two(n / 2)
    }
}

/// The five dimensions of a bootstrapping key, fixed once constructed.
#[derive(Clone, Copy, Debug)]
pub struct BootstrapKeyParameters {
    input_lwe_dimension: LweDimension,
    glwe_dimension: GlweDimension,
    polynomial_size: PolynomialSize,
    decomposition_level_count: DecompositionLevelCount,
    decomposition_base_log: DecompositionBaseLog,
}

/// Plain-integer view of a parameter bundle.
pub struct ParamsView {
    pub input_lwe_dimension: nat,
    pub glwe_dimension: nat,
    pub polynomial_size: nat,
    pub decomposition_level_count: nat,
    pub decomposition_base_log: nat,
}

impl ParamsView {
    /// All five dimensions are positive and the polynomial size is a power of two.
    pub open spec fn valid(self) -> bool {
        &&& self.input_lwe_dimension > 0
        &&& self.glwe_dimension > 0
        &&& self.polynomial_size > 0
        &&& is_power_of_two(self.polynomial_size)
        &&& self.decomposition_level_count > 0
        &&& self.decomposition_base_log > 0
    }

    /// Number of coefficients held for one entry along the input-LWE axis:
    /// `(glwe_dimension + 1) * decomposition_level_count * polynomial_size * (glwe_dimension + 1)`.
    pub open spec fn unit_elements(self) -> nat {
        (self.glwe_dimension + 1) * self.decomposition_level_count * self.polynomial_size * (
        self.glwe_dimension + 1)
    }

    /// Total number of coefficients of the key tensor.
    pub open spec fn total_elements(self) -> nat {
        self.input_lwe_dimension * self.unit_elements()
    }
}

impl View for BootstrapKeyParameters {
    type V = ParamsView;

    closed spec fn view(&self) -> ParamsView {
        ParamsView {
            input_lwe_dimension: self.input_lwe_dimension.0 as nat,
            glwe_dimension: self.glwe_dimension.0 as nat,
            polynomial_size: self.polynomial_size.0 as nat,
            decomposition_level_count: self.decomposition_level_count.0 as nat,
            decomposition_base_log: self.decomposition_base_log.0 as nat,
        }
    }
}

fn power_of_two(n: usize) -> (r: bool)
    ensures
        r == is_power_of_two(n as nat),
{
    let mut m: usize = n;
    while m > 1 && m % 2 == 0
        invariant
            is_power_of_two(m as nat) == is_power_of_two(n as nat),
        decreases m,
    {
        m = m / 2;
    }
    m == 1
}

impl BootstrapKeyParameters {
    /// Bundles the five dimensions; `None` unless all are positive and the
    /// polynomial size is a power of two.
    pub fn new(
        input_lwe_dimension: LweDimension,
        glwe_dimension: GlweDimension,
        polynomial_size: PolynomialSize,
        decomposition_level_count: DecompositionLevelCount,
        decomposition_base_log: DecompositionBaseLog,
    ) -> (r: Option<BootstrapKeyParameters>)
        ensures
            r is Some <==> (ParamsView {
                input_lwe_dimension: input_lwe_dimension.0 as nat,
                glwe_dimension: glwe_dimension.0 as nat,
                polynomial_size: polynomial_size.0 as nat,
                decomposition_level_count: decomposition_level_count.0 as nat,
                decomposition_base_log: decomposition_base_log.0 as nat,
            }).valid(),
            r matches Some(p) ==> p@ == (ParamsView {
                input_lwe_dimension: input_lwe_dimension.0 as nat,
                glwe_dimension: glwe_dimension.0 as nat,
                polynomial_size: polynomial_size.0 as nat,
                decomposition_level_count: decomposition_level_count.0 as nat,
                decomposition_base_log: decomposition_base_log.0 as nat,
            }),
            r matches Some(p) ==> p@.valid(),
    {
        if input_lwe_dimension.0 == 0 || glwe_dimension.0 == 0 || decomposition_level_count.0 == 0
            || decomposition_base_log.0 == 0 || !power_of_two(polynomial_size.0) {
            return None;
        }
        Some(
            BootstrapKeyParameters {
                input_lwe_dimension,
                glwe_dimension,
                polynomial_size,
                decomposition_level_count,
                decomposition_base_log,
            },
        )
    }

    pub fn input_lwe_dimension(&self) -> (r: LweDimension)
        ensures
            r.0 as nat == self@.input_lwe_dimension,
    {
        self.input_lwe_dimension
    }

    pub fn glwe_dimension(&self) -> (r: GlweDimension)
        ensures
            r.0 as nat == self@.glwe_dimension,
    {
        self.glwe_dimension
    }

    pub fn polynomial_size(&self) -> (r: PolynomialSize)
        ensures
            r.0 as nat == self@.polynomial_size,
    {
        self.polynomial_size
    }

    pub fn decomposition_level_count(&self) -> (r: DecompositionLevelCount)
        ensures
            r.0 as nat == self@.decomposition_level_count,
    {
        self.decomposition_level_count
    }

    pub fn decomposition_base_log(&self) -> (r: DecompositionBaseLog)
        ensures
            r.0 as nat == self@.decomposition_base_log,
    {
        self.decomposition_base_log
    }
}

} // verus!
