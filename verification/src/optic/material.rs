//! What a surface does with light.

use crate::error::RayTracingError;
use crate::optic::color::is_coefficient;
use crate::optic::color::Color;
use crate::optic::color::DiffusionCoefficient;
use crate::scalar::Scalar;
use vstd::prelude::*;

verus! {

/// The material of a surface: the light it emits, and what it sends back of
/// the light that falls on it. No value of this type holds a coefficient
/// outside `[0, 1]`.
#[derive(Clone, Copy, Debug)]
pub struct Material {
    /// The colour of the emitted light.
    emission_color: Color,
    /// How much of the emission colour is emitted: a number in `[0, 1]`.
    emission_strength: Scalar,
    /// The fraction of the incoming light that is diffused, by channel.
    diffusion_coefficients: DiffusionCoefficient,
    /// The fraction of the incoming light that is mirrored: a number in
    /// `[0, 1]`. No light path reads it yet.
    reflection_coeff: Scalar,
}

impl Material {
    #[verifier::type_invariant]
    spec fn every_coefficient_is_one(self) -> bool {
        &&& is_coefficient(self.emission_strength)
        &&& is_coefficient(self.reflection_coeff)
        &&& self.diffusion_coefficients.wf()
    }

    /// The colour of the emitted light.
    pub closed spec fn spec_emission_color(&self) -> Color {
        self.emission_color
    }

    /// How much of the emission colour is emitted.
    pub closed spec fn spec_emission_strength(&self) -> Scalar {
        self.emission_strength
    }

    /// The fraction of the incoming light that is diffused, by channel.
    pub closed spec fn spec_diffusion_coefficients(&self) -> DiffusionCoefficient {
        self.diffusion_coefficients
    }

    /// The fraction of the incoming light that is mirrored.
    pub closed spec fn spec_reflection_coeff(&self) -> Scalar {
        self.reflection_coeff
    }

    /// Every coefficient is a number in `[0, 1]`.
    pub open spec fn wf(self) -> bool {
        &&& is_coefficient(self.emission_strength())
        &&& is_coefficient(self.reflection_coeff())
        &&& self.diffusion_coefficients().wf()
    }

    /// Makes a material, or refuses the first coefficient that lies outside
    /// `[0, 1]`: the reflection coefficient is looked at before the emission
    /// strength.
    pub fn new(
        emission_color: Color,
        emission_strength: Scalar,
        diffusion_coefficients: DiffusionCoefficient,
        reflection_coeff: Scalar,
    ) -> (r: Result<Material, RayTracingError>)
        ensures
            !is_coefficient(reflection_coeff) ==> r == Err::<Material, RayTracingError>(
                RayTracingError::CoefficientOOB(reflection_coeff, Scalar::zero(), Scalar::one()),
            ),
            is_coefficient(reflection_coeff) && !is_coefficient(emission_strength) ==> r == Err::<
                Material,
                RayTracingError,
            >(RayTracingError::CoefficientOOB(emission_strength, Scalar::zero(), Scalar::one())),
            is_coefficient(reflection_coeff) && is_coefficient(emission_strength) <==> r is Ok,
            r matches Ok(material) ==> {
                &&& material.emission_color() == emission_color
                &&& material.emission_strength() == emission_strength
                &&& material.diffusion_coefficients() == diffusion_coefficients
                &&& material.reflection_coeff() == reflection_coeff
                &&& material.wf()
            },
    {
        proof {
            use_type_invariant(&diffusion_coefficients);
        }
        if !reflection_coeff.within(Scalar::zero(), Scalar::one()) {
            Err(RayTracingError::CoefficientOOB(reflection_coeff, Scalar::zero(), Scalar::one()))
        } else if !emission_strength.within(Scalar::zero(), Scalar::one()) {
            Err(RayTracingError::CoefficientOOB(emission_strength, Scalar::zero(), Scalar::one()))
        } else {
            Ok(Material { emission_color, emission_strength, diffusion_coefficients, reflection_coeff })
        }
    }

    /// The colour of the emitted light.
    #[verifier::when_used_as_spec(spec_emission_color)]
    pub fn emission_color(&self) -> (color: Color)
        ensures
            color == self.spec_emission_color(),
    {
        self.emission_color
    }

    /// How much of the emission colour is emitted, a number in `[0, 1]`.
    #[verifier::when_used_as_spec(spec_emission_strength)]
    pub fn emission_strength(&self) -> (strength: Scalar)
        ensures
            strength == self.spec_emission_strength(),
            is_coefficient(strength),
    {
        proof {
            use_type_invariant(self);
        }
        self.emission_strength
    }

    /// The fraction of the incoming light that is diffused, by channel.
    #[verifier::when_used_as_spec(spec_diffusion_coefficients)]
    pub fn diffusion_coefficients(&self) -> (coefficients: DiffusionCoefficient)
        ensures
            coefficients == self.spec_diffusion_coefficients(),
            coefficients.wf(),
    {
        proof {
            use_type_invariant(self);
        }
        self.diffusion_coefficients
    }

    /// The fraction of the incoming light that is mirrored, a number in
    /// `[0, 1]`.
    #[verifier::when_used_as_spec(spec_reflection_coeff)]
    pub fn reflection_coeff(&self) -> (coefficient: Scalar)
        ensures
            coefficient == self.spec_reflection_coeff(),
            is_coefficient(coefficient),
    {
        proof {
            use_type_invariant(self);
        }
        self.reflection_coeff
    }
}

impl Default for Material {
    /// A surface that emits nothing, diffuses all light and mirrors none.
    fn default() -> (material: Material)
        ensures
            material.emission_color() == Color::black(),
            material.emission_strength() == Scalar::zero(),
            material.diffusion_coefficients().dr() == Scalar::one(),
            material.diffusion_coefficients().dg() == Scalar::one(),
            material.diffusion_coefficients().db() == Scalar::one(),
            material.reflection_coeff() == Scalar::zero(),
            material.wf(),
    {
        Material {
            emission_color: Color::black(),
            emission_strength: Scalar::zero(),
            diffusion_coefficients: DiffusionCoefficient::full(),
            reflection_coeff: Scalar::zero(),
        }
    }
}

} // verus!
