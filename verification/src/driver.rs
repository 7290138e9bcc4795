//! The evolution driver: validates the configuration once, builds
//! generation zero, and then for each generation scores every individual
//! against the fixed target, selects the two fittest, records a checkpoint
//! at the configured interval, and replaces the population by crossover.

use vstd::prelude::*;

use crate::evolution::generate_next_generation;
use crate::evolution::get_largest_two_fitness;
use crate::evolution::initialize_generation;
use crate::evolution::ConfigError;
use crate::individual::Individual;
use crate::individual::UNSCORED_FITNESS;
use crate::raster::Image;
use crate::raster::ImageView;
use crate::rng::CROSS_RATE_SCALE;
use crate::ssim::spec_ssim;
use crate::ssim::SSIM_SCALE;

verus! {

/// The plain scalar configuration of one evolution run.
#[derive(Clone, Copy)]
pub struct EvolutionConfig {
    /// Individuals per generation; at least 2.
    pub population_size: usize,
    /// Number of generations to run; at least 1.
    pub max_generations: usize,
    /// Per-pixel probability of inheriting from the fitter parent, out of
    /// `CROSS_RATE_SCALE`.
    pub cross_rate: u32,
    /// Run seed: generation zero is a deterministic function of it.
    pub seed: u64,
    /// A checkpoint is recorded at generation 1 and then every this many
    /// generations; at least 1.
    pub checkpoint_interval: usize,
}

/// The best individual surfaced at one checkpoint generation.
pub struct Checkpoint {
    /// 1-based index of the generation this checkpoint was taken at.
    pub generation_index: usize,
    /// Fitness of the fittest individual of that generation.
    pub fitness: u64,
    /// A copy of that individual's image.
    pub image: Image,
}

/// Everything an evolution run hands back to its caller.
pub struct EvolutionOutcome {
    /// The checkpoints, in generation order.
    pub checkpoints: Vec<Checkpoint>,
    /// The fittest individual of the last scored generation.
    pub best: Individual,
    /// The generation bred from the last selected parents, still unscored.
    pub final_generation: Vec<Individual>,
}

/// The first configuration fault, in the order the checks run, or nothing.
pub open spec fn config_fault(c: EvolutionConfig, target: ImageView) -> Option<ConfigError> {
    if c.population_size < 2 {
        Some(ConfigError::PopulationTooSmall)
    } else if target.width == 0 || target.height == 0 {
        Some(ConfigError::EmptyImage)
    } else if c.max_generations < 1 {
        Some(ConfigError::InvalidGenerationCount)
    } else if c.cross_rate > CROSS_RATE_SCALE {
        Some(ConfigError::CrossRateOutOfRange)
    } else if c.checkpoint_interval < 1 {
        Some(ConfigError::InvalidCheckpointInterval)
    } else {
        None
    }
}

/// What the checkpoint at position `c` of the list satisfies: it was taken
/// at generation `1 + c * interval`, its image has the target's dimensions,
/// and its fitness is exactly that image's similarity to the target.
pub open spec fn checkpoint_ok(cp: Checkpoint, target: ImageView, interval: int, c: int) -> bool {
    &&& cp.generation_index == 1 + c * interval
    &&& cp.image@.wf()
    &&& cp.image@.width == target.width
    &&& cp.image@.height == target.height
    &&& cp.fitness == spec_ssim(target, cp.image@)
    &&& cp.fitness <= SSIM_SCALE
}

/// Scores every individual of a generation against the target image,
/// leaving the images themselves unchanged.
pub fn evaluate_generation(generation: &Vec<Individual>, target_image: &Image) -> (e: Vec<
    Individual,
>)
    requires
        target_image@.wf(),
        target_image@.width > 0,
        target_image@.height > 0,
        forall|i: int|
            0 <= i < generation@.len() ==> (#[trigger] generation@[i]@).image.wf()
                && generation@[i]@.image.width == target_image@.width
                && generation@[i]@.image.height == target_image@.height,
    ensures
        e@.len() == generation@.len(),
        forall|i: int|
            0 <= i < e@.len() ==> (#[trigger] e@[i]@).image == generation@[i]@.image && e@[i]@.fitness
                == spec_ssim(target_image@, generation@[i]@.image) && e@[i]@.fitness <= SSIM_SCALE,
{
    let mut e: Vec<Individual> = Vec::new();
    let mut i: usize = 0;
    while i < generation.len()
        invariant
            i <= generation@.len(),
            target_image@.wf(),
            target_image@.width > 0,
            target_image@.height > 0,
            forall|j: int|
                0 <= j < generation@.len() ==> (#[trigger] generation@[j]@).image.wf()
                    && generation@[j]@.image.width == target_image@.width
                    && generation@[j]@.image.height == target_image@.height,
            e@.len() == i,
            forall|j: int|
                0 <= j < i ==> (#[trigger] e@[j]@).image == generation@[j]@.image && e@[j]@.fitness
                    == spec_ssim(target_image@, generation@[j]@.image) && e@[j]@.fitness
                    <= SSIM_SCALE,
        decreases generation@.len() - i,
    {
        let mut ind = generation[i].clone();
        ind.calc_fitness(target_image);
        e.push(ind);
        i = i + 1;
    }
    e
}

/// Runs the whole evolutionary loop: validates the configuration, builds a
/// seeded generation zero, and for each of the `max_generations` generations
/// scores the population, selects the two fittest, records a checkpoint at
/// the configured interval, and breeds the replacement generation. Returns
/// the checkpoints, the fittest individual of the last scored generation,
/// and the final (unscored) generation.
pub fn run_evolution(target_image: &Image, config: EvolutionConfig) -> (r: Result<
    EvolutionOutcome,
    ConfigError,
>)
    requires
        target_image@.wf(),
        config.max_generations + config.checkpoint_interval <= usize::MAX,
    ensures
        r is Err <==> config_fault(config, target_image@) is Some,
        r is Err ==> Some(r->Err_0) == config_fault(config, target_image@),
        r is Ok ==> ({
            let out = r->Ok_0;
            &&& out.final_generation@.len() == config.population_size
            &&& forall|i: int|
                0 <= i < out.final_generation@.len() ==> (#[trigger] out.final_generation@[i]@).image.wf()
                    && out.final_generation@[i]@.image.width == target_image@.width
                    && out.final_generation@[i]@.image.height == target_image@.height
                    && out.final_generation@[i]@.fitness == UNSCORED_FITNESS
            &&& out.best@.image.wf()
            &&& out.best@.image.width == target_image@.width
            &&& out.best@.image.height == target_image@.height
            &&& out.best@.fitness == spec_ssim(target_image@, out.best@.image)
            &&& out.best@.fitness <= SSIM_SCALE
            &&& out.checkpoints@.len() >= 1
            &&& (out.checkpoints@.len() - 1) * config.checkpoint_interval < config.max_generations
            &&& config.max_generations <= out.checkpoints@.len() * config.checkpoint_interval
            &&& forall|c: int|
                0 <= c < out.checkpoints@.len() ==> checkpoint_ok(
                    #[trigger] out.checkpoints@[c],
                    target_image@,
                    config.checkpoint_interval as int,
                    c,
                )
        }),
{
    if config.population_size < 2 {
        return Err(ConfigError::PopulationTooSmall);
    }
    let width = target_image.width();
    let height = target_image.height();
    if width == 0 || height == 0 {
        return Err(ConfigError::EmptyImage);
    }
    if config.max_generations < 1 {
        return Err(ConfigError::InvalidGenerationCount);
    }
    if config.cross_rate > CROSS_RATE_SCALE {
        return Err(ConfigError::CrossRateOutOfRange);
    }
    if config.checkpoint_interval < 1 {
        return Err(ConfigError::InvalidCheckpointInterval);
    }
    let image_size = (width, height);
    let interval = config.checkpoint_interval;
    let max_generations = config.max_generations;
    let mut current = initialize_generation(config.population_size, image_size, config.seed);
    let mut checkpoints: Vec<Checkpoint> = Vec::new();
    let mut best_so_far: Option<Individual> = None;
    let mut next_checkpoint: usize = 1;
    let mut k: usize = 1;
    proof {
        assert(checkpoints@.len() * interval == 0) by (nonlinear_arith)
            requires
                checkpoints@.len() == 0,
        ;
    }
    while k <= max_generations
        invariant
            1 <= k <= max_generations + 1,
            interval == config.checkpoint_interval,
            max_generations == config.max_generations,
            1 <= interval,
            1 <= max_generations,
            max_generations + interval <= usize::MAX,
            2 <= config.population_size,
            config.cross_rate <= CROSS_RATE_SCALE,
            target_image@.wf(),
            width == target_image@.width,
            height == target_image@.height,
            width > 0,
            height > 0,
            image_size == (width, height),
            current@.len() == config.population_size,
            forall|i: int|
                0 <= i < current@.len() ==> (#[trigger] current@[i]@).image.wf()
                    && current@[i]@.image.width == target_image@.width
                    && current@[i]@.image.height == target_image@.height
                    && current@[i]@.fitness == UNSCORED_FITNESS,
            next_checkpoint == 1 + checkpoints@.len() * interval,
            next_checkpoint - interval < k <= next_checkpoint,
            next_checkpoint <= max_generations + interval,
            forall|c: int|
                0 <= c < checkpoints@.len() ==> checkpoint_ok(
                    #[trigger] checkpoints@[c],
                    target_image@,
                    interval as int,
                    c,
                ),
            k > 1 ==> best_so_far is Some,
            best_so_far is Some ==> ({
                let b = best_so_far->0@;
                &&& b.image.wf()
                &&& b.image.width == target_image@.width
                &&& b.image.height == target_image@.height
                &&& b.fitness == spec_ssim(target_image@, b.image)
                &&& b.fitness <= SSIM_SCALE
            }),
        decreases max_generations + 1 - k,
    {
        let evaluated = evaluate_generation(&current, target_image);
        let (best, second) = match get_largest_two_fitness(&evaluated) {
            Ok(pair) => pair,
            Err(_) => {
                proof {
                    assert(false);
                }
                unreached()
            },
        };
        if k == next_checkpoint {
            let snapshot = Checkpoint {
                generation_index: k,
                fitness: best.fitness,
                image: best.image.clone(),
            };
            checkpoints.push(snapshot);
            next_checkpoint = next_checkpoint + interval;
            proof {
                assert(checkpoints@.len() * interval == (checkpoints@.len() - 1) * interval
                    + interval) by (nonlinear_arith);
            }
        }
        current = generate_next_generation(
            &best,
            &second,
            image_size,
            config.cross_rate,
            config.population_size,
        );
        best_so_far = Some(best);
        k = k + 1;
    }
    let best = match best_so_far {
        Some(b) => b,
        None => {
            proof {
                assert(false);
            }
            unreached()
        },
    };
    proof {
        if checkpoints@.len() == 0 {
            assert(checkpoints@.len() * interval == 0) by (nonlinear_arith)
                requires
                    checkpoints@.len() == 0,
            ;
            assert(next_checkpoint == 1);
            assert(false);
        }
        assert((checkpoints@.len() - 1) * (interval as int) == checkpoints@.len() * (interval as int)
            - interval) by (nonlinear_arith);
    }
    Ok(EvolutionOutcome { checkpoints, best, final_generation: current })
}

} // verus!
