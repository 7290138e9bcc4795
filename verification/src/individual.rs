//! One candidate solution: an image together with its cached fitness score.

use vstd::prelude::*;

use crate::raster::Image;
use crate::raster::ImageView;
use crate::ssim::spec_ssim;
use crate::ssim::calculate_ssim;
use crate::ssim::SSIM_SCALE;

verus! {

/// Fitness value of an individual that has not been scored yet. It lies at
/// the bottom of the scale, below or at every real score.
pub const UNSCORED_FITNESS: u64 = 0;

/// Mathematical model of an individual: the image model plus the fitness.
pub struct IndividualView {
    pub image: ImageView,
    pub fitness: u64,
}

/// One member of a generation: a candidate image and its fitness, which is
/// `UNSCORED_FITNESS` until the individual is evaluated against a target.
pub struct Individual {
    pub image: Image,
    pub fitness: u64,
}

impl View for Individual {
    type V = IndividualView;

    open spec fn view(&self) -> IndividualView {
        IndividualView { image: self.image@, fitness: self.fitness }
    }
}

impl Individual {
    /// Wraps an image as a fresh, unscored individual.
    pub fn new(genom_image: Image) -> (r: Individual)
        ensures
            r@.image == genom_image@,
            r@.fitness == UNSCORED_FITNESS,
    {
        Individual { image: genom_image, fitness: UNSCORED_FITNESS }
    }

    /// Scores this individual: its fitness becomes the structural similarity
    /// of its image to the target image. The image itself is unchanged.
    pub fn calc_fitness(&mut self, target_image: &Image)
        requires
            old(self)@.image.wf(),
            target_image@.wf(),
            target_image@.same_dims(old(self)@.image),
            target_image@.width > 0,
            target_image@.height > 0,
        ensures
            final(self)@.image == old(self)@.image,
            final(self)@.fitness == spec_ssim(target_image@, old(self)@.image),
            final(self)@.fitness <= SSIM_SCALE,
    {
        self.fitness = calculate_ssim(target_image, &self.image);
    }
}

impl Clone for Individual {
    fn clone(&self) -> (r: Self)
        ensures
            r@ == self@,
    {
        Individual { image: self.image.clone(), fitness: self.fitness }
    }
}

} // verus!
