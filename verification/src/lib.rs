//! A small genetic algorithm that evolves a population of random images
//! toward a target image. Individuals are scored with a fixed-point
//! structural-similarity metric, the two fittest are selected, and the next
//! generation is produced by per-pixel crossover of those two parents.
//!
//! - [`raster`] holds the image data model;
//! - [`ssim`] the similarity (fitness) metric;
//! - [`diff_sum`] a coarse absolute-difference distance;
//! - [`individual`] the candidate type;
//! - [`evolution`] initialization, selection and crossover;
//! - [`driver`] the generation loop;
//! - [`rng`] the trusted wrappers around the random sources.
//!
//! All scores are integers on a fixed scale, so fitness comparisons are a
//! total order: no comparison is ever undefined, and an unscored individual
//! sits at the bottom of the scale.

pub mod diff_sum;
pub mod driver;
pub mod evolution;
pub mod individual;
pub mod raster;
pub mod rng;
pub mod ssim;
