use genetic_image::evolution::crossover_individuals;
use genetic_image::evolution::generate_next_generation;
use genetic_image::evolution::get_largest_two_fitness;
use genetic_image::evolution::initialize_generation;
use genetic_image::evolution::ConfigError;
use genetic_image::individual::Individual;
use genetic_image::individual::UNSCORED_FITNESS;
use genetic_image::raster::Image;
use genetic_image::rng::CROSS_RATE_SCALE;

const POPULATIONS: usize = 10;
const SEED: u64 = 0;
const IMAGE_SIZE: (u32, u32) = (400, 400);

fn images_equal(a: &Image, b: &Image) -> bool {
    if a.width() != b.width() || a.height() != b.height() {
        return false;
    }
    for y in 0..a.height() {
        for x in 0..a.width() {
            if a.get_pixel(x, y) != b.get_pixel(x, y) {
                return false;
            }
        }
    }
    true
}

#[test]
fn create_the_first_generation() {
    let generation: Vec<Individual> = initialize_generation(POPULATIONS, IMAGE_SIZE, SEED);
    assert_eq!(generation.len(), POPULATIONS);
    assert_eq!(
        (generation[0].image.width(), generation[0].image.height()),
        IMAGE_SIZE
    );
    assert_eq!(generation[0].fitness, 0);
}

#[test]
fn first_generation_all_unscored_and_sized() {
    let generation = initialize_generation(4, (7, 5), 99);
    assert_eq!(generation.len(), 4);
    for ind in &generation {
        assert_eq!(ind.image.width(), 7);
        assert_eq!(ind.image.height(), 5);
        assert_eq!(ind.fitness, UNSCORED_FITNESS);
    }
}

#[test]
fn initialize_is_deterministic() {
    let g1 = initialize_generation(3, (16, 16), 12345);
    let g2 = initialize_generation(3, (16, 16), 12345);
    assert_eq!(g1.len(), g2.len());
    for i in 0..g1.len() {
        assert!(images_equal(&g1[i].image, &g2[i].image));
    }
}

#[test]
fn initialize_depends_on_seed() {
    let g1 = initialize_generation(1, (16, 16), 1);
    let g2 = initialize_generation(1, (16, 16), 2);
    assert!(!images_equal(&g1[0].image, &g2[0].image));
}

#[test]
fn choice_large_two_fitness() {
    let mut generation: Vec<Individual> = initialize_generation(POPULATIONS, IMAGE_SIZE, SEED);

    generation[2].fitness = 880_000;
    generation[5].fitness = 1_000_000;
    generation[7].fitness = 910_000;
    generation[9].fitness = 820_000;

    let (largest_individual, second_largest_individual) =
        get_largest_two_fitness(&generation).unwrap();
    assert_eq!(largest_individual.fitness, generation[5].fitness);
    assert_eq!(second_largest_individual.fitness, generation[7].fitness);
}

#[test]
fn selection_fails_on_empty_generation() {
    let generation: Vec<Individual> = Vec::new();
    let r = get_largest_two_fitness(&generation);
    assert!(matches!(r, Err(ConfigError::PopulationTooSmall)));
}

#[test]
fn selection_fails_on_single_individual() {
    let generation = initialize_generation(1, (4, 4), 3);
    let r = get_largest_two_fitness(&generation);
    assert!(matches!(r, Err(ConfigError::PopulationTooSmall)));
}

#[test]
fn crossover_rate_full_copies_first_parent() {
    let a = Individual::new(Image::new_filled(3, 3, 10, 20, 30));
    let b = Individual::new(Image::new_filled(3, 3, 200, 100, 50));
    let child = crossover_individuals(&a, &b, (3, 3), CROSS_RATE_SCALE);
    assert!(images_equal(&child.image, &a.image));
    assert_eq!(child.fitness, UNSCORED_FITNESS);
}

#[test]
fn crossover_rate_zero_copies_second_parent() {
    let a = Individual::new(Image::new_filled(3, 3, 10, 20, 30));
    let b = Individual::new(Image::new_filled(3, 3, 200, 100, 50));
    let child = crossover_individuals(&a, &b, (3, 3), 0);
    assert!(images_equal(&child.image, &b.image));
}

#[test]
fn crossover_mixes_only_parent_pixels() {
    let a = Individual::new(Image::new_filled(8, 8, 10, 20, 30));
    let b = Individual::new(Image::new_filled(8, 8, 200, 100, 50));
    let child = crossover_individuals(&a, &b, (8, 8), CROSS_RATE_SCALE / 2);
    for y in 0..8 {
        for x in 0..8 {
            let p = child.image.get_pixel(x, y);
            assert!(p == (10, 20, 30) || p == (200, 100, 50));
        }
    }
}

#[test]
fn next_generation_has_population_size_unscored_children() {
    let a = Individual::new(Image::new_filled(5, 4, 1, 2, 3));
    let b = Individual::new(Image::new_filled(5, 4, 9, 8, 7));
    let g = generate_next_generation(&a, &b, (5, 4), 300_000, 12);
    assert_eq!(g.len(), 12);
    for child in &g {
        assert_eq!(child.image.width(), 5);
        assert_eq!(child.image.height(), 4);
        assert_eq!(child.fitness, UNSCORED_FITNESS);
        for y in 0..4 {
            for x in 0..5 {
                let p = child.image.get_pixel(x, y);
                assert!(p == (1, 2, 3) || p == (9, 8, 7));
            }
        }
    }
}
