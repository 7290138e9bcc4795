use genetic_image::driver::evaluate_generation;
use genetic_image::driver::run_evolution;
use genetic_image::driver::EvolutionConfig;
use genetic_image::evolution::initialize_generation;
use genetic_image::evolution::ConfigError;
use genetic_image::individual::UNSCORED_FITNESS;
use genetic_image::raster::Image;
use genetic_image::ssim::calculate_ssim;
use genetic_image::ssim::SSIM_SCALE;

fn base_config() -> EvolutionConfig {
    EvolutionConfig {
        population_size: 10,
        max_generations: 50,
        cross_rate: 200_000,
        seed: 20240101,
        checkpoint_interval: 10,
    }
}

#[test]
fn evolution_end_to_end_on_solid_target() {
    let target = Image::new_filled(3, 3, 200, 50, 100);
    let outcome = run_evolution(&target, base_config()).unwrap();

    // Checkpoints at generations 1, 11, 21, 31, 41.
    assert_eq!(outcome.checkpoints.len(), 5);
    for (c, cp) in outcome.checkpoints.iter().enumerate() {
        assert_eq!(cp.generation_index, 1 + c * 10);
        assert!(cp.fitness <= SSIM_SCALE);
        assert_eq!(cp.image.width(), 3);
        assert_eq!(cp.image.height(), 3);
        assert_eq!(cp.fitness, calculate_ssim(&target, &cp.image));
    }

    assert!(outcome.best.fitness <= SSIM_SCALE);
    assert_eq!(outcome.best.image.width(), 3);
    assert_eq!(outcome.best.image.height(), 3);

    assert_eq!(outcome.final_generation.len(), 10);
    for ind in &outcome.final_generation {
        assert_eq!(ind.fitness, UNSCORED_FITNESS);
        assert_eq!(ind.image.width(), 3);
        assert_eq!(ind.image.height(), 3);
    }
}

#[test]
fn evolution_rejects_small_population() {
    let target = Image::new_filled(3, 3, 1, 2, 3);
    let mut config = base_config();
    config.population_size = 1;
    assert!(matches!(
        run_evolution(&target, config),
        Err(ConfigError::PopulationTooSmall)
    ));
}

#[test]
fn evolution_rejects_empty_image() {
    let target = Image::new_filled(0, 5, 0, 0, 0);
    assert!(matches!(
        run_evolution(&target, base_config()),
        Err(ConfigError::EmptyImage)
    ));
}

#[test]
fn evolution_rejects_zero_generations() {
    let target = Image::new_filled(3, 3, 1, 2, 3);
    let mut config = base_config();
    config.max_generations = 0;
    assert!(matches!(
        run_evolution(&target, config),
        Err(ConfigError::InvalidGenerationCount)
    ));
}

#[test]
fn evolution_rejects_cross_rate_above_scale() {
    let target = Image::new_filled(3, 3, 1, 2, 3);
    let mut config = base_config();
    config.cross_rate = 1_000_001;
    assert!(matches!(
        run_evolution(&target, config),
        Err(ConfigError::CrossRateOutOfRange)
    ));
}

#[test]
fn evolution_rejects_zero_checkpoint_interval() {
    let target = Image::new_filled(3, 3, 1, 2, 3);
    let mut config = base_config();
    config.checkpoint_interval = 0;
    assert!(matches!(
        run_evolution(&target, config),
        Err(ConfigError::InvalidCheckpointInterval)
    ));
}

#[test]
fn evaluation_scores_against_target_and_keeps_images() {
    let target = Image::new_filled(4, 4, 9, 9, 9);
    let generation = initialize_generation(3, (4, 4), 77);
    let evaluated = evaluate_generation(&generation, &target);
    assert_eq!(evaluated.len(), 3);
    for (orig, eva) in generation.iter().zip(evaluated.iter()) {
        assert_eq!(eva.fitness, calculate_ssim(&target, &orig.image));
        for y in 0..4 {
            for x in 0..4 {
                assert_eq!(orig.image.get_pixel(x, y), eva.image.get_pixel(x, y));
            }
        }
    }
}

#[test]
fn identical_target_individual_scores_full_scale_through_evaluation() {
    let target = Image::new_filled(2, 2, 33, 66, 99);
    let same = Image::new_filled(2, 2, 33, 66, 99);
    let generation = vec![
        genetic_image::individual::Individual::new(same),
        genetic_image::individual::Individual::new(Image::new_filled(2, 2, 0, 0, 0)),
    ];
    let evaluated = evaluate_generation(&generation, &target);
    assert_eq!(evaluated[0].fitness, SSIM_SCALE);
}
