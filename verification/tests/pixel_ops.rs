use framewatch::pixel::{detect_edges, detect_motion, invert};

fn gradient_frame() -> Vec<u8> {
    // 3 x 3 pixels, red channel 10, 20, ... 90, alpha 200 + index.
    let reds: [u8; 9] = [10, 20, 30, 40, 50, 60, 70, 80, 90];
    let mut data: Vec<u8> = Vec::new();
    let mut k: u8 = 0;
    for r in reds.iter() {
        data.push(*r);
        data.push(7);
        data.push(9);
        data.push(200 + k);
        k += 1;
    }
    data
}

#[test]
fn invert_mirrors_colour_and_keeps_alpha() {
    let data: Vec<u8> = vec![0, 128, 255, 42, 10, 20, 30, 0];
    assert_eq!(invert(&data), vec![255, 127, 0, 42, 245, 235, 225, 0]);
}

#[test]
fn invert_of_empty_is_empty() {
    let data: Vec<u8> = Vec::new();
    assert_eq!(invert(&data), Vec::<u8>::new());
}

#[test]
fn invert_drops_trailing_bytes() {
    let data: Vec<u8> = vec![1, 2, 3, 4, 5, 6, 7];
    assert_eq!(invert(&data), vec![254, 253, 252, 4]);
    let short: Vec<u8> = vec![1, 2, 3];
    assert_eq!(invert(&short), Vec::<u8>::new());
}

#[test]
fn invert_twice_gives_the_buffer_back() {
    let mut data: Vec<u8> = Vec::new();
    let mut v: u32 = 0;
    while v < 1024 {
        data.push(((v * 37 + 11) % 256) as u8);
        v += 1;
    }
    let once: Vec<u8> = invert(&data);
    assert_eq!(once.len(), data.len());
    let mut i: usize = 3;
    while i < data.len() {
        assert_eq!(once[i], data[i]);
        i += 4;
    }
    assert_eq!(invert(&once), data);
}

#[test]
fn invert_twice_gives_the_whole_pixels_back() {
    let data: Vec<u8> = vec![9, 8, 7, 6, 5, 4, 3, 2, 1];
    assert_eq!(invert(&invert(&data)), vec![9, 8, 7, 6, 5, 4, 3, 2]);
}

#[test]
fn motion_identical_frames_show_none() {
    let frame: Vec<u8> = gradient_frame();
    assert!(!detect_motion(&frame, &frame, 3, 3, 1));
    assert!(!detect_motion(&frame, &frame, 3, 3, 0));
    assert!(!detect_motion(&frame, &frame, 0, 0, 0));
    assert!(!detect_motion(&frame, &frame, 3, 3, 100));
}

#[test]
fn motion_mismatched_lengths_show_none() {
    let prev: Vec<u8> = vec![0, 0, 0, 255];
    let curr: Vec<u8> = vec![255, 255, 255, 255, 255, 255, 255, 255];
    assert!(!detect_motion(&prev, &curr, 1, 1, 0));
    assert!(!detect_motion(&curr, &prev, 2, 1, 0));
}

#[test]
fn motion_pixel_sensitivity_is_twenty() {
    // The gaps sum to 62: 62 / 3 = 20, which is not more than 20.
    let prev: Vec<u8> = vec![0, 0, 0, 255];
    let below: Vec<u8> = vec![20, 21, 21, 255];
    assert!(!detect_motion(&prev, &below, 1, 1, 0));
    // The gaps sum to 63: 63 / 3 = 21.
    let above: Vec<u8> = vec![21, 21, 21, 255];
    assert!(detect_motion(&prev, &above, 1, 1, 0));
    assert!(detect_motion(&above, &prev, 1, 1, 0));
}

#[test]
fn motion_ignores_alpha() {
    let prev: Vec<u8> = vec![5, 5, 5, 0];
    let curr: Vec<u8> = vec![5, 5, 5, 255];
    assert!(!detect_motion(&prev, &curr, 1, 1, 0));
}

#[test]
fn motion_threshold_is_a_percentage() {
    // Four pixels, one of them changed: 25 percent.
    let prev: Vec<u8> = vec![0; 16];
    let mut curr: Vec<u8> = vec![0; 16];
    curr[4] = 255;
    assert!(detect_motion(&prev, &curr, 2, 2, 24));
    assert!(!detect_motion(&prev, &curr, 2, 2, 25));
    assert!(!detect_motion(&prev, &curr, 2, 2, 26));
}

#[test]
fn motion_percentage_is_not_rounded() {
    // Three pixels, one of them changed: a third, which is more than 33
    // percent and less than 34.
    let prev: Vec<u8> = vec![0; 12];
    let mut curr: Vec<u8> = vec![0; 12];
    curr[0] = 255;
    assert!(detect_motion(&prev, &curr, 3, 1, 33));
    assert!(!detect_motion(&prev, &curr, 3, 1, 34));
}

#[test]
fn motion_with_no_area() {
    let prev: Vec<u8> = vec![0; 8];
    let mut curr: Vec<u8> = vec![0; 8];
    assert!(!detect_motion(&prev, &curr, 0, 0, 50));
    curr[1] = 200;
    assert!(detect_motion(&prev, &curr, 0, 5, 50));
}

#[test]
fn motion_with_the_largest_dimensions() {
    let prev: Vec<u8> = vec![0; 8];
    let curr: Vec<u8> = vec![255; 8];
    assert!(!detect_motion(&prev, &curr, u32::MAX, u32::MAX, u32::MAX));
    assert!(detect_motion(&prev, &curr, u32::MAX, u32::MAX, 0));
}

#[test]
fn edges_of_uniform_frame_are_zero() {
    let data: Vec<u8> = vec![0; 16];
    assert_eq!(detect_edges(&data, 4, 4), vec![0u8; 16]);
    assert_eq!(detect_edges(&data, 2, 2), vec![0u8; 16]);
}

#[test]
fn edges_of_uniform_bright_frame() {
    let data: Vec<u8> = vec![200; 36];
    let out: Vec<u8> = detect_edges(&data, 3, 3);
    let mut expected: Vec<u8> = vec![0; 36];
    expected[19] = 200;
    assert_eq!(out, expected);
}

#[test]
fn edges_gradient_magnitude() {
    let data: Vec<u8> = gradient_frame();
    let out: Vec<u8> = detect_edges(&data, 3, 3);
    // gx = 80, gy = 240: the root of 64000 is 252.98...
    let mut expected: Vec<u8> = vec![0; 36];
    expected[16] = 252;
    expected[17] = 252;
    expected[18] = 252;
    expected[19] = 204;
    assert_eq!(out, expected);
}

#[test]
fn edges_small_gradient() {
    let reds: [u8; 9] = [1, 2, 3, 4, 5, 6, 7, 8, 9];
    let mut data: Vec<u8> = Vec::new();
    for r in reds.iter() {
        data.push(*r);
        data.push(0);
        data.push(0);
        data.push(77);
    }
    let out: Vec<u8> = detect_edges(&data, 3, 3);
    // gx = 8, gy = 24: the root of 640 is 25.29...
    assert_eq!(&out[16..20], &[25u8, 25, 25, 77][..]);
}

#[test]
fn edges_magnitude_of_a_perfect_square() {
    // gx = 6, gy = 8 gives exactly 10.
    let reds: [u8; 9] = [0, 0, 0, 0, 0, 3, 0, 4, 0];
    let mut data: Vec<u8> = Vec::new();
    for r in reds.iter() {
        data.push(*r);
        data.push(0);
        data.push(0);
        data.push(1);
    }
    let out: Vec<u8> = detect_edges(&data, 3, 3);
    assert_eq!(&out[16..20], &[10u8, 10, 10, 1][..]);
}

#[test]
fn edges_magnitude_is_clamped() {
    let reds: [u8; 9] = [0, 0, 255, 0, 0, 255, 0, 0, 255];
    let mut data: Vec<u8> = Vec::new();
    for r in reds.iter() {
        data.push(*r);
        data.push(1);
        data.push(2);
        data.push(3);
    }
    let out: Vec<u8> = detect_edges(&data, 3, 3);
    assert_eq!(&out[16..20], &[255u8, 255, 255, 3][..]);
}

#[test]
fn edges_wider_frame() {
    let data: Vec<u8> = vec![
        10, 0, 0, 100, 20, 7, 13, 101, 30, 14, 26, 102, 40, 21, 39, 103, 40, 28, 52, 104, 50, 35,
        65, 105, 65, 42, 78, 106, 60, 49, 91, 107, 70, 56, 104, 108, 80, 63, 117, 109, 90, 70, 130,
        110, 200, 77, 143, 111,
    ];
    let expected: Vec<u8> = vec![
        0, 0, 0, 0, 0, 0, 0, 0, 0, 0, 0, 0, 0, 0, 0, 0, 0, 0, 0, 0, 255, 255, 255, 105, 255, 255,
        255, 106, 0, 0, 0, 0, 0, 0, 0, 0, 0, 0, 0, 0, 0, 0, 0, 0, 0, 0, 0, 0,
    ];
    assert_eq!(detect_edges(&data, 4, 3), expected);
}

#[test]
fn edges_keep_the_length_and_blank_the_border() {
    let mut data: Vec<u8> = Vec::new();
    let mut v: u32 = 0;
    while v < 5 * 4 * 4 {
        data.push(((v * 53 + 5) % 256) as u8);
        v += 1;
    }
    let out: Vec<u8> = detect_edges(&data, 5, 4);
    assert_eq!(out.len(), data.len());
    let mut y: usize = 0;
    while y < 4 {
        let mut x: usize = 0;
        while x < 5 {
            let at: usize = 4 * (y * 5 + x);
            if x == 0 || y == 0 || x == 4 || y == 3 {
                assert_eq!(&out[at..at + 4], &[0u8, 0, 0, 0][..]);
            } else {
                assert_eq!(out[at + 3], data[at + 3]);
                assert_eq!(out[at], out[at + 1]);
                assert_eq!(out[at], out[at + 2]);
            }
            x += 1;
        }
        y += 1;
    }
}

#[test]
fn edges_of_short_buffer_are_zero() {
    let data: Vec<u8> = vec![255; 35];
    assert_eq!(detect_edges(&data, 3, 3), vec![0u8; 35]);
    assert_eq!(detect_edges(&data, u32::MAX, u32::MAX), vec![0u8; 35]);
}

#[test]
fn edges_without_interior_are_zero() {
    let data: Vec<u8> = vec![255; 48];
    assert_eq!(detect_edges(&data, 0, 0), vec![0u8; 48]);
    assert_eq!(detect_edges(&data, 2, 6), vec![0u8; 48]);
    assert_eq!(detect_edges(&data, 6, 2), vec![0u8; 48]);
    assert_eq!(detect_edges(&data, 12, 1), vec![0u8; 48]);
}

#[test]
fn edges_leave_bytes_behind_the_frame_zero() {
    let mut data: Vec<u8> = gradient_frame();
    data.extend_from_slice(&[9, 9, 9, 9, 9]);
    let out: Vec<u8> = detect_edges(&data, 3, 3);
    assert_eq!(out.len(), 41);
    assert_eq!(&out[16..20], &[252u8, 252, 252, 204][..]);
    assert_eq!(&out[36..], &[0u8, 0, 0, 0, 0][..]);
}
