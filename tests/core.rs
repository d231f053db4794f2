use raytracer::color::Rgba;
use raytracer::controls::{next_ball_slot, next_method};
use raytracer::mesh::{validate_faces, FacesIterator, MeshError};
use raytracer::partition::{chunk_plan, PixelChunk};
use raytracer::renderer::{MultithreadingMethod, Renderer};
use raytracer::resolution::{PixelPosition, Resolution, ResolutionError};
use raytracer::shading::{shade, ColorTerm, LightSample};

fn term(r: u64, g: u64, b: u64) -> ColorTerm {
    ColorTerm { r, g, b }
}

#[test]
fn resolution_rejects_zero_dimensions() {
    assert_eq!(Resolution::new(0, 5), Err(ResolutionError::ZeroWidth));
    assert_eq!(Resolution::new(0, 0), Err(ResolutionError::ZeroWidth));
    assert_eq!(Resolution::new(5, 0), Err(ResolutionError::ZeroHeight));
    assert_eq!(Resolution::new(800, 600), Ok(Resolution { w: 800, h: 600 }));
}

#[test]
fn pixel_count_is_width_times_height() {
    assert_eq!(Resolution { w: 800, h: 600 }.pixel_count(), 480_000);
    let big = Resolution { w: u32::MAX, h: u32::MAX };
    assert_eq!(big.pixel_count(), (u32::MAX as u64) * (u32::MAX as u64));
}

#[test]
fn pixel_positions_are_row_major() {
    let res = Resolution { w: 4, h: 3 };
    assert_eq!(res.pixel_position(0), PixelPosition { column: 0, row: 0 });
    assert_eq!(res.pixel_position(6), PixelPosition { column: 2, row: 1 });
    assert_eq!(res.pixel_position(11), PixelPosition { column: 3, row: 2 });
}

#[test]
fn corner_pixels_map_to_corners() {
    let res = Resolution { w: 800, h: 600 };
    assert_eq!(res.pixel_position(0), PixelPosition { column: 0, row: 0 });
    let last = (res.pixel_count() - 1) as usize;
    assert_eq!(res.pixel_position(last), PixelPosition { column: 799, row: 599 });
}

#[test]
fn grayscale_averages_the_three_channels() {
    let c = Rgba::new(10, 20, 31, 255).grayscale();
    assert_eq!(c, Rgba::new(20, 20, 20, 255));
    let white = Rgba::new(255, 255, 255, 7).grayscale();
    assert_eq!(white, Rgba::new(255, 255, 255, 7));
}

#[test]
fn grayscale_twice_equals_once() {
    let once = Rgba::new(3, 0, 0, 9).grayscale();
    assert_eq!(once, Rgba::new(1, 1, 1, 9));
    assert_eq!(once.grayscale(), once);
    let c = Rgba::new(200, 13, 77, 128);
    assert_eq!(c.grayscale().grayscale(), c.grayscale());
}

#[test]
fn rgba_bytes_are_in_frame_order() {
    assert_eq!(Rgba::new(1, 2, 3, 4).to_bytes(), [1, 2, 3, 4]);
}

#[test]
fn shade_without_lights_is_a_third_of_ambient() {
    let c = shade(Rgba::new(9, 10, 255, 0), &vec![]);
    assert_eq!(c, Rgba::new(3, 3, 85, 255));
}

#[test]
fn shade_adds_visible_lights_only() {
    let samples = vec![
        LightSample { occluded: false, diffuse: term(3, 3, 3), specular: term(0, 0, 3) },
        LightSample { occluded: true, diffuse: term(300, 300, 300), specular: term(9, 9, 9) },
    ];
    let c = shade(Rgba::new(30, 60, 90, 0), &samples);
    assert_eq!(c, Rgba::new(11, 21, 32, 255));
}

#[test]
fn occluded_light_contributes_nothing_and_unblocking_restores_it() {
    let ambient = Rgba::new(30, 30, 30, 255);
    let mut sample = LightSample { occluded: true, diffuse: term(60, 60, 60), specular: term(0, 0, 0) };
    let dark = shade(ambient, &vec![sample]);
    assert_eq!(dark, shade(ambient, &vec![]));
    assert_eq!(dark, Rgba::new(10, 10, 10, 255));
    sample.occluded = false;
    let lit = shade(ambient, &vec![sample]);
    assert_eq!(lit, Rgba::new(30, 30, 30, 255));
}

#[test]
fn shade_clamps_at_255_without_overflow() {
    let samples = vec![
        LightSample { occluded: false, diffuse: term(u64::MAX, 0, 700), specular: term(u64::MAX, 0, 0) },
        LightSample { occluded: false, diffuse: term(u64::MAX, 0, 0), specular: term(0, 0, 0) },
    ];
    let c = shade(Rgba::new(255, 255, 255, 255), &samples);
    assert_eq!(c, Rgba::new(255, 85, 255, 255));
}

#[test]
fn chunk_plan_balances_sizes() {
    let plan = chunk_plan(10, 4);
    assert_eq!(
        plan,
        vec![
            PixelChunk { start: 0, len: 3 },
            PixelChunk { start: 3, len: 3 },
            PixelChunk { start: 6, len: 2 },
            PixelChunk { start: 8, len: 2 },
        ]
    );
}

#[test]
fn chunk_plan_with_fewer_pixels_than_workers() {
    let plan = chunk_plan(2, 4);
    assert_eq!(
        plan,
        vec![
            PixelChunk { start: 0, len: 1 },
            PixelChunk { start: 1, len: 1 },
            PixelChunk { start: 2, len: 0 },
            PixelChunk { start: 2, len: 0 },
        ]
    );
    assert_eq!(chunk_plan(0, 3), vec![PixelChunk { start: 0, len: 0 }; 3]);
}

#[test]
fn worker_plan_covers_the_frame() {
    let renderer = Renderer { grayscale: false, multithreading_method: MultithreadingMethod::Crossbeam };
    let plan = renderer.worker_plan(1001);
    assert!(!plan.is_empty());
    let mut next = 0;
    for chunk in &plan {
        assert_eq!(chunk.start, next);
        next += chunk.len;
    }
    assert_eq!(next, 1001);
}

#[test]
fn methods_cycle_in_order() {
    assert_eq!(next_method(MultithreadingMethod::Sequential), MultithreadingMethod::Crossbeam);
    assert_eq!(next_method(MultithreadingMethod::Crossbeam), MultithreadingMethod::Rayon);
    assert_eq!(next_method(MultithreadingMethod::Rayon), MultithreadingMethod::Sequential);
}

#[test]
fn ball_slots_wrap_around() {
    assert_eq!(next_ball_slot(0), 1);
    assert_eq!(next_ball_slot(1), 2);
    assert_eq!(next_ball_slot(2), 0);
}

#[test]
fn validate_faces_reports_first_bad_face() {
    let faces = vec![(0, 1, 2), (0, 3, 1), (5, 5, 5)];
    assert_eq!(validate_faces(3, &faces), Err(MeshError::FaceIndexOutOfRange { face: 1 }));
    assert_eq!(validate_faces(6, &faces), Ok(()));
    assert_eq!(validate_faces(0, &vec![]), Ok(()));
}

#[test]
fn faces_iterator_resolves_vertices_in_order() {
    let vertices = vec![10, 20, 30, 40];
    let faces = vec![(0, 1, 2), (3, 2, 1)];
    let mut it = FacesIterator::new(&vertices, &faces);
    assert_eq!(it.next(), Some((10, 20, 30)));
    assert_eq!(it.next(), Some((40, 30, 20)));
    assert_eq!(it.next(), None);
    assert_eq!(it.next(), None);
}
