//! The evolutionary loop: building generation zero from a seed, scoring a
//! generation, selecting the two fittest parents, and refilling the
//! population by per-pixel crossover.

use vstd::prelude::*;

use crate::individual::Individual;
use crate::individual::IndividualView;
use crate::individual::UNSCORED_FITNESS;
use crate::raster::Image;
use crate::raster::ImageView;
use crate::rng::isaac_stream;
use crate::rng::isaac_uniform_bytes;
use crate::rng::random_below_cross_scale;
use crate::rng::CROSS_RATE_SCALE;

verus! {

/// A malformed configuration, reported before any evolutionary work starts.
#[derive(Clone, Copy, Debug, PartialEq, Eq, Structural)]
pub enum ConfigError {
    /// Fewer than two individuals: selection of two parents is impossible.
    PopulationTooSmall,
    /// A zero image dimension: there are no pixels to compare.
    EmptyImage,
    /// A crossover rate above `CROSS_RATE_SCALE`: not a probability.
    CrossRateOutOfRange,
    /// A zero generation count: the loop would select no parent at all.
    InvalidGenerationCount,
    /// A zero checkpoint interval.
    InvalidCheckpointInterval,
}

/// The derived sub-seed of the individual with index `i`: the run seed plus
/// the index, with wraparound.
pub open spec fn sub_seed(seed: u64, i: int) -> u64 {
    vstd::wrapping::u64_specs::wrapping_add(seed, i as u64)
}

/// What generation zero holds at index `i`: an unscored individual of the
/// requested dimensions whose pixel bytes are exactly the seeded stream of
/// its sub-seed, a function of the run seed and the index alone.
pub open spec fn initial_individual(
    ind: IndividualView,
    width: u32,
    height: u32,
    seed: u64,
    i: int,
) -> bool {
    &&& ind.image.wf()
    &&& ind.image.width == width
    &&& ind.image.height == height
    &&& ind.fitness == UNSCORED_FITNESS
    &&& ind.image.pixels == isaac_stream(sub_seed(seed, i), 3 * (width * height))
}

/// Builds generation zero: `populations` independent individuals, each
/// filled from a deterministic stream seeded with `seed` plus the
/// individual's index. Repeated calls with the same arguments build
/// pixel-identical generations.
pub fn initialize_generation(populations: usize, image_size: (u32, u32), seed: u64) -> (g: Vec<
    Individual,
>)
    requires
        3 * (image_size.0 * image_size.1) <= u32::MAX,
    ensures
        g@.len() == populations,
        forall|i: int|
            0 <= i < populations ==> initial_individual(
                #[trigger] g@[i]@,
                image_size.0,
                image_size.1,
                seed,
                i,
            ),
{
    let (width, height) = image_size;
    proof {
        assert(width * height <= u32::MAX);
    }
    let area: u64 = (width as u64) * (height as u64);
    let nbytes: usize = (3 * area) as usize;
    let mut g: Vec<Individual> = Vec::new();
    let mut i: usize = 0;
    while i < populations
        invariant
            i <= populations,
            width == image_size.0,
            height == image_size.1,
            3 * (width * height) <= u32::MAX,
            nbytes == 3 * (width * height),
            g@.len() == i,
            forall|j: int|
                0 <= j < i ==> initial_individual(#[trigger] g@[j]@, width, height, seed, j),
        decreases populations - i,
    {
        let s: u64 = seed.wrapping_add(i as u64);
        let bytes = isaac_uniform_bytes(s, nbytes);
        let img = Image::from_pixels(width, height, bytes);
        g.push(Individual::new(img));
        i = i + 1;
    }
    g
}

/// Indices `i` and `j` point at a fittest individual and at a fittest
/// individual of the rest: nothing beats `i`, and nothing but `i` beats `j`.
pub open spec fn top_two_at(g: Seq<Individual>, i: int, j: int) -> bool {
    &&& 0 <= i < g.len()
    &&& 0 <= j < g.len()
    &&& i != j
    &&& forall|k: int| 0 <= k < g.len() ==> (#[trigger] g[k]@).fitness <= g[i]@.fitness
    &&& forall|k: int| 0 <= k < g.len() && k != i ==> (#[trigger] g[k]@).fitness <= g[j]@.fitness
}

/// `best` and `second` are copies of two distinct members of the generation
/// holding the largest and the second-largest fitness.
pub open spec fn selected_top_two(
    g: Seq<Individual>,
    best: IndividualView,
    second: IndividualView,
) -> bool {
    exists|i: int, j: int| #[trigger] top_two_at(g, i, j) && best == g[i]@ && second == g[j]@
}

/// Selects the two fittest individuals of a generation, fittest first. Ties
/// fall to the earliest index. A generation with fewer than two members is a
/// usage error and is rejected.
pub fn get_largest_two_fitness(generation: &Vec<Individual>) -> (r: Result<
    (Individual, Individual),
    ConfigError,
>)
    ensures
        generation@.len() < 2 <==> r is Err,
        r is Err ==> r->Err_0 == ConfigError::PopulationTooSmall,
        r is Ok ==> selected_top_two(generation@, r->Ok_0.0@, r->Ok_0.1@),
{
    let len = generation.len();
    if len < 2 {
        return Err(ConfigError::PopulationTooSmall);
    }
    let mut bi: usize = 0;
    let mut k: usize = 1;
    while k < len
        invariant
            bi < k <= len,
            len == generation@.len(),
            forall|m: int|
                0 <= m < k ==> (#[trigger] generation@[m]@).fitness <= generation@[bi as int]@.fitness,
        decreases len - k,
    {
        if generation[k].fitness > generation[bi].fitness {
            bi = k;
        }
        k = k + 1;
    }
    let mut bj: usize = if bi == 0 {
        1
    } else {
        0
    };
    let mut k2: usize = 0;
    while k2 < len
        invariant
            bj < len,
            bj != bi,
            bi < len,
            k2 <= len,
            len == generation@.len(),
            forall|m: int|
                0 <= m < k2 && m != bi ==> (#[trigger] generation@[m]@).fitness
                    <= generation@[bj as int]@.fitness,
        decreases len - k2,
    {
        if k2 != bi && generation[k2].fitness > generation[bj].fitness {
            bj = k2;
        }
        k2 = k2 + 1;
    }
    let best = generation[bi].clone();
    let second = generation[bj].clone();
    proof {
        assert(top_two_at(generation@, bi as int, bj as int));
    }
    Ok((best, second))
}

/// The pixel at flat index `p` of `child` is the pixel of `parent` there.
pub open spec fn pixel_from(child: ImageView, parent: ImageView, p: int) -> bool {
    &&& child.chan(p, 0) == parent.chan(p, 0)
    &&& child.chan(p, 1) == parent.chan(p, 1)
    &&& child.chan(p, 2) == parent.chan(p, 2)
}

/// The three channel bytes of pixel `q` in `s` equal those in `t`.
spec fn pixel_copied(s: Seq<u8>, t: Seq<u8>, q: int) -> bool {
    &&& s[3 * q] == t[3 * q]
    &&& s[3 * q + 1] == t[3 * q + 1]
    &&& s[3 * q + 2] == t[3 * q + 2]
}

/// Produces one child image: for every pixel position an independent random
/// draw picks the first parent's pixel with probability `cross_rate` out of
/// `CROSS_RATE_SCALE`, and the second parent's pixel otherwise. A rate of
/// `CROSS_RATE_SCALE` copies the first parent exactly, a rate of 0 the
/// second. The parents are unchanged and the child is unscored.
pub fn crossover_individuals(
    individual1: &Individual,
    individual2: &Individual,
    image_size: (u32, u32),
    cross_rate: u32,
) -> (child: Individual)
    requires
        individual1@.image.wf(),
        individual2@.image.wf(),
        individual1@.image.width == image_size.0,
        individual1@.image.height == image_size.1,
        individual2@.image.width == image_size.0,
        individual2@.image.height == image_size.1,
        cross_rate <= CROSS_RATE_SCALE,
    ensures
        child@.image.wf(),
        child@.image.width == image_size.0,
        child@.image.height == image_size.1,
        child@.fitness == UNSCORED_FITNESS,
        forall|p: int|
            0 <= p < child@.image.pixel_count() ==> #[trigger] pixel_from(
                child@.image,
                individual1@.image,
                p,
            ) || pixel_from(child@.image, individual2@.image, p),
        cross_rate == CROSS_RATE_SCALE ==> child@.image.pixels == individual1@.image.pixels,
        cross_rate == 0 ==> child@.image.pixels == individual2@.image.pixels,
{
    let (width, height) = image_size;
    let len = individual1.image.byte_len();
    let count: usize = len / 3;
    proof {
        vstd::arithmetic::div_mod::lemma_div_multiples_vanish(
            individual1@.image.pixel_count() as int,
            3,
        );
    }
    let a = &individual1.image;
    let b = &individual2.image;
    let mut pixels: Vec<u8> = Vec::new();
    let mut p: usize = 0;
    while p < count
        invariant
            p <= count,
            count == a@.pixel_count(),
            a@.wf(),
            b@.wf(),
            a@.same_dims(b@),
            a@ == individual1@.image,
            b@ == individual2@.image,
            cross_rate <= CROSS_RATE_SCALE,
            pixels@.len() == 3 * p,
            forall|q: int|
                0 <= q < p ==> #[trigger] pixel_copied(pixels@, a@.pixels, q) || pixel_copied(
                    pixels@,
                    b@.pixels,
                    q,
                ),
            cross_rate == CROSS_RATE_SCALE ==> pixels@ == a@.pixels.take(3 * p),
            cross_rate == 0 ==> pixels@ == b@.pixels.take(3 * p),
        decreases count - p,
    {
        let ghost pre = pixels@;
        let draw = random_below_cross_scale();
        if draw < cross_rate {
            pixels.push(a.byte_at(3 * p));
            pixels.push(a.byte_at(3 * p + 1));
            pixels.push(a.byte_at(3 * p + 2));
            proof {
                assert(pixel_copied(pixels@, a@.pixels, p as int));
            }
        } else {
            pixels.push(b.byte_at(3 * p));
            pixels.push(b.byte_at(3 * p + 1));
            pixels.push(b.byte_at(3 * p + 2));
            proof {
                assert(pixel_copied(pixels@, b@.pixels, p as int));
            }
        }
        proof {
            assert forall|q: int|
                0 <= q < p + 1 implies #[trigger] pixel_copied(pixels@, a@.pixels, q)
                || pixel_copied(pixels@, b@.pixels, q) by {
                if q < p {
                    assert(pixel_copied(pre, a@.pixels, q) || pixel_copied(pre, b@.pixels, q));
                    assert(3 * q + 2 < pre.len());
                }
            }
            if cross_rate == CROSS_RATE_SCALE {
                assert(pixels@ =~= a@.pixels.take(3 * (p + 1)));
            }
            if cross_rate == 0 {
                assert(pixels@ =~= b@.pixels.take(3 * (p + 1)));
            }
        }
        p = p + 1;
    }
    proof {
        if cross_rate == CROSS_RATE_SCALE {
            assert(pixels@ =~= a@.pixels);
        }
        if cross_rate == 0 {
            assert(pixels@ =~= b@.pixels);
        }
    }
    let img = Image::from_pixels(width, height, pixels);
    let child = Individual::new(img);
    proof {
        assert forall|p: int|
            0 <= p < child@.image.pixel_count() implies #[trigger] pixel_from(
            child@.image,
            individual1@.image,
            p,
        ) || pixel_from(child@.image, individual2@.image, p) by {
            assert(pixel_copied(child@.image.pixels, a@.pixels, p) || pixel_copied(
                child@.image.pixels,
                b@.pixels,
                p,
            ));
        }
    }
    child
}

/// What every member of a freshly bred generation satisfies: unscored, of
/// the parents' dimensions, and pixel by pixel drawn from one parent or the
/// other.
pub open spec fn child_of(
    ind: IndividualView,
    a: ImageView,
    b: ImageView,
    width: u32,
    height: u32,
) -> bool {
    &&& ind.image.wf()
    &&& ind.image.width == width
    &&& ind.image.height == height
    &&& ind.fitness == UNSCORED_FITNESS
    &&& forall|p: int|
        0 <= p < ind.image.pixel_count() ==> #[trigger] pixel_from(ind.image, a, p) || pixel_from(
            ind.image,
            b,
            p,
        )
}

/// Breeds a whole new generation: `populations` independent crossover
/// children of the two parents, all unscored. The parents themselves do not
/// survive except by chance recombination.
pub fn generate_next_generation(
    individual1: &Individual,
    individual2: &Individual,
    image_size: (u32, u32),
    cross_rate: u32,
    populations: usize,
) -> (g: Vec<Individual>)
    requires
        individual1@.image.wf(),
        individual2@.image.wf(),
        individual1@.image.width == image_size.0,
        individual1@.image.height == image_size.1,
        individual2@.image.width == image_size.0,
        individual2@.image.height == image_size.1,
        cross_rate <= CROSS_RATE_SCALE,
    ensures
        g@.len() == populations,
        forall|i: int|
            0 <= i < populations ==> child_of(
                #[trigger] g@[i]@,
                individual1@.image,
                individual2@.image,
                image_size.0,
                image_size.1,
            ),
{
    let mut g: Vec<Individual> = Vec::new();
    let mut i: usize = 0;
    while i < populations
        invariant
            i <= populations,
            individual1@.image.wf(),
            individual2@.image.wf(),
            individual1@.image.width == image_size.0,
            individual1@.image.height == image_size.1,
            individual2@.image.width == image_size.0,
            individual2@.image.height == image_size.1,
            cross_rate <= CROSS_RATE_SCALE,
            g@.len() == i,
            forall|j: int|
                0 <= j < i ==> child_of(
                    #[trigger] g@[j]@,
                    individual1@.image,
                    individual2@.image,
                    image_size.0,
                    image_size.1,
                ),
        decreases populations - i,
    {
        let child = crossover_individuals(individual1, individual2, image_size, cross_rate);
        g.push(child);
        i = i + 1;
    }
    g
}

} // verus!
