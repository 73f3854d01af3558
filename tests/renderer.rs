use pathtrace::renderer::{average_rays, Radiance, RadianceSum, Renderer, RADIANCE_ONE};

const ONE: u32 = RADIANCE_ONE;

fn flat(n: usize, c: Radiance) -> Vec<Radiance> {
    vec![c; n]
}

fn rgba(r: u32, g: u32, b: u32, a: u32) -> Radiance {
    Radiance { r, g, b, a }
}

#[test]
fn new_renderer_is_black_and_fresh() {
    let r = Renderer::new(3, 2);
    assert_eq!(r.width, 3);
    assert_eq!(r.height, 2);
    assert_eq!(r.image_data, vec![[0u8, 0, 0, 0]; 6]);
    assert_eq!(r.accumulation_data, vec![RadianceSum { r: 0, g: 0, b: 0, a: 0 }; 6]);
    assert_eq!(r.samples, 1);
    assert!(r.accumulate);
    assert_eq!(r.bounces, 5);
    assert_eq!(r.rays_per_pixel, 5);
}

#[test]
fn empty_scene_under_flat_sky_fills_every_pixel() {
    // sky of (0.6, 0.7, 0.9), alpha 1, in fixed point
    let sky = rgba(39321, 45875, 58982, ONE);
    let mut r = Renderer::new(4, 3);
    r.render(&flat(12, sky));
    for pixel in &r.image_data {
        assert_eq!(*pixel, [152, 178, 229, 255]);
    }
    assert_eq!(r.samples, 2);
}

#[test]
fn radiance_above_one_is_clamped() {
    let mut r = Renderer::new(1, 1);
    r.render(&vec![rgba(3 * ONE, ONE, ONE / 2, 0)]);
    assert_eq!(r.image_data[0], [255, 255, 127, 0]);
    assert_eq!(r.accumulation_data[0], RadianceSum { r: 3 * ONE as u64, g: ONE as u64, b: ONE as u64 / 2, a: 0 });
}

#[test]
fn accumulation_averages_frames() {
    let mut r = Renderer::new(2, 1);
    r.render(&flat(2, rgba(ONE, 0, ONE / 2, ONE)));
    assert_eq!(r.image_data[0], [255, 0, 127, 255]);
    assert_eq!(r.samples, 2);
    r.render(&flat(2, rgba(0, ONE, ONE / 2, ONE)));
    assert_eq!(r.samples, 3);
    assert_eq!(r.image_data, vec![[127, 127, 127, 255]; 2]);
    assert_eq!(
        r.accumulation_data[1],
        RadianceSum { r: ONE as u64, g: ONE as u64, b: ONE as u64, a: 2 * ONE as u64 }
    );
}

#[test]
fn repeated_frame_matches_single_frame() {
    let c = rgba(12345, 54321, 70000, ONE);
    let mut single = Renderer::new(2, 2);
    single.render(&flat(4, c));
    let mut many = Renderer::new(2, 2);
    for _ in 0..10 {
        many.render(&flat(4, c));
    }
    assert_eq!(many.samples, 11);
    assert_eq!(many.image_data, single.image_data);
    assert_eq!(many.accumulation_data[3].g, 10 * 54321);
}

#[test]
fn noisy_frames_average_to_their_mean() {
    // frames alternate between 0.25 and 0.75: the mean over 8 frames is 0.5.
    let mut r = Renderer::new(1, 1);
    for k in 0..8 {
        let v = if k % 2 == 0 { ONE / 4 } else { 3 * ONE / 4 };
        r.render(&vec![rgba(v, v, v, ONE)]);
    }
    assert_eq!(r.image_data[0], [127, 127, 127, 255]);
    assert_eq!(r.accumulation_data[0].r, 4 * ONE as u64);
}

#[test]
fn accumulate_off_restarts_each_frame_without_leaking() {
    let mut r = Renderer::new(2, 1);
    r.render(&flat(2, rgba(ONE, ONE, ONE, ONE)));
    r.render(&flat(2, rgba(ONE, ONE, ONE, ONE)));
    assert_eq!(r.samples, 3);
    r.accumulate = false;
    r.render(&flat(2, rgba(ONE, 0, 0, ONE)));
    assert_eq!(r.samples, 1);
    r.render(&flat(2, rgba(0, ONE, 0, ONE)));
    assert_eq!(r.samples, 1);
    assert_eq!(r.image_data, vec![[0, 255, 0, 255]; 2]);
    assert_eq!(r.accumulation_data[0], RadianceSum { r: 0, g: ONE as u64, b: 0, a: ONE as u64 });
}

#[test]
fn reset_frame_index_restarts_accumulation() {
    let mut r = Renderer::new(1, 1);
    r.render(&vec![rgba(ONE, ONE, ONE, ONE)]);
    r.render(&vec![rgba(ONE, ONE, ONE, ONE)]);
    r.reset_frame_index();
    assert_eq!(r.samples, 1);
    assert_eq!(r.accumulation_data[0].r, 2 * ONE as u64);
    r.render(&vec![rgba(0, 0, 0, ONE)]);
    assert_eq!(r.image_data[0], [0, 0, 0, 255]);
    assert_eq!(r.accumulation_data[0].r, 0);
}

#[test]
fn resize_clears_buffers_and_restarts() {
    let mut r = Renderer::new(2, 2);
    r.accumulate = false;
    r.bounces = 3;
    r.render(&flat(4, rgba(ONE, ONE, ONE, ONE)));
    r.resize(3, 3);
    assert_eq!(r.width, 3);
    assert_eq!(r.height, 3);
    assert_eq!(r.image_data, vec![[0u8, 0, 0, 0]; 9]);
    assert_eq!(r.accumulation_data, vec![RadianceSum { r: 0, g: 0, b: 0, a: 0 }; 9]);
    assert_eq!(r.samples, 1);
    assert!(!r.accumulate);
    assert_eq!(r.bounces, 3);
    r.resize(0, 0);
    assert!(r.image_data.is_empty());
    assert!(r.accumulation_data.is_empty());
}

#[test]
fn average_of_rays_rounds_down() {
    let rays = vec![rgba(ONE, 0, 10, 1), rgba(0, ONE, 11, 1), rgba(ONE, ONE, 12, 1)];
    assert_eq!(average_rays(&rays), rgba(43690, 43690, 11, 1));
    assert_eq!(average_rays(&vec![rgba(5, 6, 7, 8)]), rgba(5, 6, 7, 8));
    let big = vec![rgba(u32::MAX, u32::MAX, 0, ONE); 4];
    assert_eq!(average_rays(&big), rgba(u32::MAX, u32::MAX, 0, ONE));
}

#[test]
fn image_bytes_are_rgba_row_major() {
    let mut r = Renderer::new(2, 1);
    r.render(&vec![rgba(ONE, 0, 0, ONE), rgba(0, 0, ONE, ONE / 2)]);
    assert_eq!(r.image_bytes(), vec![255, 0, 0, 255, 0, 0, 255, 127]);
    assert_eq!(Renderer::new(0, 5).image_bytes(), Vec::<u8>::new());
}

#[test]
fn frames_of_one_ray_match_one_frame_of_many_rays() {
    let rays = vec![
        rgba(1000, 65000, 200000, ONE),
        rgba(30001, 7, 0, ONE),
        rgba(65535, 12345, 99, ONE),
        rgba(0, 0, 1, ONE),
        rgba(42, 4242, 424242, ONE),
    ];
    let mut progressive = Renderer::new(1, 1);
    for ray in &rays {
        progressive.render(&vec![*ray]);
    }
    let mut single = Renderer::new(1, 1);
    single.render(&vec![average_rays(&rays)]);
    assert_eq!(progressive.image_data, single.image_data);
    assert_eq!(single.image_data[0], [75, 63, 255, 255]);
}
