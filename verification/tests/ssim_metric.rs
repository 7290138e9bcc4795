use genetic_image::diff_sum::calculate_diff_sum;
use genetic_image::evolution::initialize_generation;
use genetic_image::raster::Image;
use genetic_image::ssim::calculate_ssim;
use genetic_image::ssim::isqrt_u128;
use genetic_image::ssim::SSIM_SCALE;

fn varied_image(width: u32, height: u32, salt: u8) -> Image {
    let mut bytes = Vec::new();
    for y in 0..height {
        for x in 0..width {
            bytes.push(((x * 37 + y * 11) % 256) as u8 ^ salt);
            bytes.push(((x * 5 + y * 73) % 256) as u8);
            bytes.push(((x * 97 + y * 3) % 256) as u8);
        }
    }
    Image::from_pixels(width, height, bytes)
}

#[test]
fn eva_calculate_ssim() {
    let target_image = varied_image(16, 16, 0);
    let ssim = calculate_ssim(&target_image, &target_image);
    assert_eq!(ssim, SSIM_SCALE);
}

#[test]
fn identical_solid_images_score_full_scale() {
    let img = Image::new_filled(3, 3, 120, 0, 255);
    assert_eq!(calculate_ssim(&img, &img), SSIM_SCALE);
}

#[test]
fn ssim_is_symmetric() {
    let a = varied_image(9, 7, 0);
    let b = varied_image(9, 7, 170);
    assert_eq!(calculate_ssim(&a, &b), calculate_ssim(&b, &a));
}

#[test]
fn ssim_exact_value_for_gray_pair() {
    // 1x1 images with lumas 10 and 20: the contrast figures are both zero
    // (full component), the structure figures agree exactly, and the luma
    // component is 2*10*20/(10^2 + 20^2) = 0.8 of the scale.
    let a = Image::new_filled(1, 1, 10, 10, 10);
    let b = Image::new_filled(1, 1, 20, 20, 20);
    assert_eq!(calculate_ssim(&a, &b), 800_000);
}

#[test]
fn ssim_never_exceeds_scale() {
    let a = varied_image(6, 6, 0);
    let b = Image::new_filled(6, 6, 0, 0, 0);
    let s = calculate_ssim(&a, &b);
    assert!(s <= SSIM_SCALE);
}

#[test]
fn eva_calc_fitness() {
    let target_image = varied_image(8, 8, 0);
    let mut generation = initialize_generation(10, (8, 8), 0);
    for individual in generation.iter_mut() {
        individual.calc_fitness(&target_image);
        assert!(individual.fitness <= SSIM_SCALE);
    }
}

#[test]
fn eva_calculate_diff_sum() {
    let target_image = varied_image(16, 16, 0);
    let fitness = calculate_diff_sum(&target_image, &target_image);
    assert_eq!(fitness, 0);
}

#[test]
fn integer_square_root_brackets_squares() {
    assert_eq!(isqrt_u128(0), 0);
    assert_eq!(isqrt_u128(1), 1);
    assert_eq!(isqrt_u128(15), 3);
    assert_eq!(isqrt_u128(16), 4);
    assert_eq!(isqrt_u128(1 << 40), 1 << 20);
    assert_eq!(isqrt_u128((1 << 40) - 1), (1 << 20) - 1);
}

#[test]
fn diff_sum_exact_value() {
    let a = Image::new_filled(2, 2, 10, 20, 30);
    let b = Image::new_filled(2, 2, 13, 25, 31);
    // Each of the 4 pixels differs by 3 + 5 + 1 = 9.
    assert_eq!(calculate_diff_sum(&a, &b), 36);
}
