use raytrs::chunk::{pixel_index, ChunkBuffer, CHUNK_SIZE};
use raytrs::color::Color;
use raytrs::depth::{depth_key, nearest_hit, HORIZON};

#[test]
fn nearest_hit_of_no_objects_is_none() {
    assert_eq!(nearest_hit(&vec![]), None);
}

#[test]
fn nearest_hit_of_misses_is_none() {
    assert_eq!(nearest_hit(&vec![None, None, None]), None);
}

#[test]
fn nearest_hit_takes_the_least_depth() {
    assert_eq!(nearest_hit(&vec![Some(50), None, Some(7), Some(30)]), Some(2));
    assert_eq!(nearest_hit(&vec![Some(1), Some(2), Some(3)]), Some(0));
    assert_eq!(nearest_hit(&vec![Some(3), Some(2), Some(1)]), Some(2));
}

#[test]
fn nearest_hit_is_no_farther_than_any_other_hit() {
    let depths = vec![Some(900), Some(12), None, Some(12_000), Some(13), Some(12)];
    let winner = nearest_hit(&depths).unwrap();
    for d in depths.iter() {
        if let Some(d) = d {
            assert!(depths[winner].unwrap() <= *d);
        }
    }
}

#[test]
fn nearest_hit_keeps_the_first_of_equal_depths() {
    assert_eq!(nearest_hit(&vec![None, Some(5), Some(5), Some(9)]), Some(1));
}

#[test]
fn nearest_hit_ignores_the_horizon() {
    assert_eq!(nearest_hit(&vec![Some(HORIZON)]), None);
    assert_eq!(nearest_hit(&vec![Some(HORIZON), Some(HORIZON - 1)]), Some(1));
    assert_eq!(nearest_hit(&vec![Some(0)]), Some(0));
}

#[test]
fn nearest_hit_does_not_depend_on_the_order() {
    let one = vec![Some(40u64), Some(10), Some(30), None];
    let other = vec![None, Some(30u64), Some(40), Some(10)];
    assert_eq!(one[nearest_hit(&one).unwrap()], other[nearest_hit(&other).unwrap()]);
}

#[test]
fn fresh_buffer_shows_the_background() {
    let sky = Color::new(0, 0, 255, 255);
    let buffer = ChunkBuffer::new(sky);
    assert_eq!(buffer.pixel(0), sky);
    assert_eq!(buffer.pixel(CHUNK_SIZE - 1), sky);
    let pixels = buffer.into_pixels();
    assert_eq!(pixels.len(), CHUNK_SIZE);
    assert!(pixels.iter().all(|p| *p == sky));
}

#[test]
fn buffer_takes_only_what_is_strictly_nearer() {
    let sky = Color::new(0, 0, 255, 255);
    let red = Color::new(255, 0, 0, 255);
    let green = Color::new(0, 255, 0, 255);
    let mut buffer = ChunkBuffer::new(sky);
    assert!(buffer.is_closer(3, 100));
    assert!(buffer.record(3, 100, red));
    assert_eq!(buffer.pixel(3), red);
    assert!(!buffer.is_closer(3, 100));
    assert!(!buffer.record(3, 100, green));
    assert_eq!(buffer.pixel(3), red);
    assert!(!buffer.record(3, 101, green));
    assert_eq!(buffer.pixel(3), red);
    assert!(buffer.record(3, 99, green));
    assert_eq!(buffer.pixel(3), green);
    assert_eq!(buffer.pixel(2), sky);
    assert_eq!(buffer.pixel(4), sky);
}

#[test]
fn buffer_never_takes_a_hit_at_the_horizon() {
    let sky = Color::new(0, 0, 255, 255);
    let mut buffer = ChunkBuffer::new(sky);
    assert!(!buffer.is_closer(0, HORIZON));
    assert!(!buffer.record(0, HORIZON, Color::new(1, 1, 1, 255)));
    assert_eq!(buffer.pixel(0), sky);
}

#[test]
fn buffer_shows_what_nearest_hit_picks() {
    let sky = Color::new(0, 0, 255, 255);
    let depths = vec![Some(70u64), None, Some(20), Some(20), Some(90)];
    let colors = vec![
        Color::new(1, 0, 0, 255),
        Color::new(2, 0, 0, 255),
        Color::new(3, 0, 0, 255),
        Color::new(4, 0, 0, 255),
        Color::new(5, 0, 0, 255),
    ];
    let mut buffer = ChunkBuffer::new(sky);
    for k in 0..depths.len() {
        if let Some(d) = depths[k] {
            buffer.record(9, d, colors[k]);
        }
    }
    let winner = nearest_hit(&depths).unwrap();
    assert_eq!(winner, 2);
    assert_eq!(buffer.pixel(9), colors[winner]);
}

#[test]
fn places_of_a_chunk_stand_for_pixels_in_order() {
    assert_eq!(pixel_index(0, 0, 1000), Some(0));
    assert_eq!(pixel_index(0, 255, 1000), Some(255));
    assert_eq!(pixel_index(1, 0, 1000), Some(256));
    assert_eq!(pixel_index(3, 231, 1000), Some(999));
    assert_eq!(pixel_index(3, 232, 1000), None);
    assert_eq!(pixel_index(4, 0, 1000), None);
    assert_eq!(pixel_index(0, 256, 1000), None);
    assert_eq!(pixel_index(usize::MAX, 1, usize::MAX), None);
    assert_eq!(pixel_index(0, 0, 0), None);
}

fn key(depth: f64) -> u64 {
    depth_key(depth.to_bits())
}

#[test]
fn depth_keys_of_chosen_distances() {
    assert_eq!(key(0.0), 0x8000_0000_0000_0000);
    assert_eq!(key(-0.0), 0x8000_0000_0000_0000);
    assert_eq!(key(1.0), 0x8000_0000_0000_0000 + 0x3ff0_0000_0000_0000);
    assert_eq!(key(-1.0), 0x8000_0000_0000_0000 - 0x3ff0_0000_0000_0000);
    assert_eq!(key(f64::NEG_INFINITY), 0x8000_0000_0000_0000 - 0x7ff0_0000_0000_0000);
    assert_eq!(key(f64::from_bits(1)), 0x8000_0000_0000_0001);
    assert_eq!(key(f64::from_bits(0x7fef_ffff_ffff_fffe)), 0xffef_ffff_ffff_fffe);
}

#[test]
fn distances_that_are_never_seen_lie_at_the_horizon() {
    assert_eq!(key(f64::MAX), HORIZON);
    assert_eq!(key(f64::INFINITY), HORIZON);
    assert_eq!(key(f64::NAN), HORIZON);
    assert_eq!(key(-f64::NAN), HORIZON);
    assert_eq!(key(f64::from_bits(0x7ff0_0000_0000_0001)), HORIZON);
    assert_eq!(key(f64::from_bits(0xfff0_0000_0000_0001)), HORIZON);
    assert_eq!(key(f64::from_bits(u64::MAX)), HORIZON);
    assert!(key(f64::MIN) < HORIZON);
    assert!(key(f64::NEG_INFINITY) < HORIZON);
}

#[test]
fn depth_keys_keep_the_order_of_the_distances() {
    let distances = [
        f64::NEG_INFINITY,
        f64::MIN,
        -1.0e9,
        -2.5,
        -1.0,
        -f64::MIN_POSITIVE,
        -f64::from_bits(1),
        -0.0,
        0.0,
        f64::from_bits(1),
        f64::MIN_POSITIVE,
        0.01,
        0.5,
        1.0,
        1.0 + f64::EPSILON,
        3.999,
        4.0,
        1.0e300,
        f64::from_bits(0x7fef_ffff_ffff_fffe),
    ];
    for a in distances.iter() {
        for b in distances.iter() {
            assert_eq!(key(*a) < key(*b), a < b);
            assert_eq!(key(*a) == key(*b), a == b);
            assert_eq!(key(*a) < HORIZON, *a < f64::MAX);
        }
    }
}

#[test]
fn a_buffer_fed_with_keys_keeps_the_nearest_distance() {
    let sky = Color::new(0, 0, 255, 255);
    let mut buffer = ChunkBuffer::new(sky);
    let hits = [(7.5, 1u8), (f64::NAN, 2), (3.25, 3), (f64::INFINITY, 4), (3.25, 5), (12.0, 6)];
    for (distance, shade) in hits.iter() {
        buffer.record(0, key(*distance), Color::new(*shade, 0, 0, 255));
    }
    assert_eq!(buffer.pixel(0), Color::new(3, 0, 0, 255));
}
