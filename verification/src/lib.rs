//! Colorimetry for rendering and imaging pipelines: spectral power
//! distributions, Sprague and linear interpolation, ASTM E308
//! tristimulus integration, and conversion between XYZ, RGB and L*a*b*
//! representations.
//!
//! The whole library is generic over the [`Scalar`] and [`Real`]
//! capability traits, whose operations are pinned to
//! specification-level shadows. Everything proved of the spectral
//! engine therefore holds for any scalar whose algebraic laws hold;
//! [`Fixed`] is the library's own verified carrier, and callers plug in
//! their floating-point carriers from outside.
//!
//! The standard data tables of colorimetry — illuminant spectra,
//! observer curves, reference swatches — are not part of this crate:
//! callers supply them as ordinary [`VSPD`] and [`CMF`] values. The
//! test suite accordingly exercises the engine with synthetic smooth
//! curves and with the published formula reference cases, rather than
//! with tabulated reference tristimulus values.

pub mod chromatic_adaptation;
pub mod chromaticity;
pub mod cmf;
pub mod color_space_rgb;
pub mod fixed;
pub mod interpolation;
pub mod lab;
pub mod math;
pub mod photometry;
pub mod rgb;
pub mod spd_conversion;
pub mod spectral_power_distribution;
pub mod traits;
pub mod transform;
pub mod vspd;
pub mod xyz;

pub use chromatic_adaptation::bradford;
pub use chromatic_adaptation::cat02;
pub use chromatic_adaptation::von_kries;
pub use chromaticity::xy;
pub use chromaticity::XYY;
pub use cmf::CMF;
pub use color_space_rgb::decode;
pub use color_space_rgb::encode;
pub use color_space_rgb::ColorSpaceRGB;
pub use color_space_rgb::TransferFunction;
pub use fixed::Fixed;
pub use interpolation::ExtrapolatorConstant;
pub use interpolation::InterpolatorLinear;
pub use interpolation::InterpolatorSprague;
pub use interpolation::SpragueCoefficients;
pub use lab::delta_E_1976;
pub use lab::delta_E_2000;
pub use lab::lab;
pub use lab::lab_to_xyz;
pub use lab::xyz_to_lab;
pub use lab::Lab;
pub use math::Matrix33;
pub use photometry::spd_to_nit;
pub use rgb::rgbf;
pub use rgb::rgbu16;
pub use rgb::rgbu8;
pub use rgb::RGBf;
pub use rgb::RGBu16;
pub use rgb::RGBu8;
pub use spd_conversion::spd_to_xyz;
pub use spd_conversion::spd_to_xyz_with_illuminant;
pub use spectral_power_distribution::Distribution;
pub use spectral_power_distribution::SPD;
pub use traits::Real;
pub use traits::Scalar;
pub use transform::rgb_to_rgb_matrix;
pub use transform::rgb_to_xyz;
pub use transform::rgb_to_xyz_matrix;
pub use transform::xyz_slice_to_rgb;
pub use transform::xyz_to_rgb;
pub use transform::xyz_to_rgb_matrix;
pub use transform::xyz_to_rgb_matrix_with_cat;
pub use vspd::lagrange_coefficients;
pub use vspd::lagrange_coefficients_astm_e2022;
pub use vspd::linspace;
pub use vspd::spd_to_xyz_integration;
pub use vspd::spd_to_xyz_tristimulus_weighting_factors_astme308;
pub use vspd::Interval;
pub use vspd::Sample;
pub use vspd::SpdElement;
pub use vspd::SpdError;
pub use vspd::SpdShape;
pub use vspd::SpdShapeIterator;
pub use vspd::VSPD;
