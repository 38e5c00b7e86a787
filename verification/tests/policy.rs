use pathtracer::config::RenderConfig;
use pathtracer::estimator::{
    decays_roulette, forces_continuation, roulette_decay_exponent, splits_refraction,
};
use pathtracer::material::RefrectionType;

#[test]
fn shallow_paths_always_continue() {
    assert!(forces_continuation(0));
    assert!(forces_continuation(5));
    assert!(!forces_continuation(6));
    assert!(!forces_continuation(1000));
}

#[test]
fn roulette_decays_past_the_depth_limit() {
    assert!(!decays_roulette(64));
    assert!(decays_roulette(65));
    assert_eq!(roulette_decay_exponent(65), 1);
    assert_eq!(roulette_decay_exponent(100), 36);
}

#[test]
fn refraction_splits_only_near_the_camera() {
    assert!(splits_refraction(0));
    assert!(splits_refraction(2));
    assert!(!splits_refraction(3));
}

#[test]
fn config_counts_pixels_and_channels() {
    let config = RenderConfig { width: 640, height: 480, tasks: 16, samples: 10, super_samples: 5 };
    assert_eq!(config.pixel_count(), 307200);
    assert_eq!(config.channel_count(), 921600);
}

#[test]
fn material_modes_are_distinct() {
    assert_eq!(RefrectionType::Diffuse, RefrectionType::Diffuse);
    assert_ne!(RefrectionType::Diffuse, RefrectionType::Specular);
    assert_ne!(RefrectionType::Specular, RefrectionType::Refraction);
}
