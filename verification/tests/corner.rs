use scrap_wayland::corner::compare_left_up_corner;

fn frame(w: usize, h: usize) -> Vec<u8> {
    vec![7; w * h * 4]
}

fn change(data: &mut [u8], w: usize, x: usize, y: usize) {
    data[(y * w + x) * 4 + 3] ^= 1;
}

#[test]
fn equal_frames_do_not_differ() {
    let a = frame(50, 40);
    assert!(!compare_left_up_corner(50, &a, &a));
}

#[test]
fn an_eighth_of_the_corner_has_to_differ() {
    // 36 * 36 / 8 pixels.
    let a = frame(50, 40);
    let mut b = a.clone();
    let mut changed = 0;
    for y in 0..36 {
        for x in 0..36 {
            if changed < 161 {
                change(&mut b, 50, x, y);
                changed += 1;
            }
        }
    }
    assert!(!compare_left_up_corner(50, &a, &b));
    change(&mut b, 50, 35, 35);
    assert!(compare_left_up_corner(50, &a, &b));
    assert!(compare_left_up_corner(50, &b, &a));
}

#[test]
fn pixels_outside_the_corner_do_not_count() {
    let a = frame(50, 40);
    let mut b = a.clone();
    for y in 0..40 {
        for x in 0..50 {
            if x >= 36 || y >= 36 {
                change(&mut b, 50, x, y);
            }
        }
    }
    assert!(!compare_left_up_corner(50, &a, &b));
}

#[test]
fn small_frames_need_eight_pixels() {
    let a = frame(3, 3);
    let mut b = a.clone();
    for i in 0..7 {
        change(&mut b, 3, i % 3, i / 3);
    }
    assert!(!compare_left_up_corner(3, &a, &b));
    change(&mut b, 3, 1, 2);
    assert!(compare_left_up_corner(3, &a, &b));
    // Seven pixels are too few however different they are.
    assert!(!compare_left_up_corner(7, &frame(7, 1), &vec![0; 28]));
}

#[test]
fn unusable_frames_do_not_differ() {
    assert!(!compare_left_up_corner(0, &frame(3, 3), &vec![0; 36]));
    assert!(!compare_left_up_corner(3, &frame(3, 3), &vec![0; 35]));
    assert!(!compare_left_up_corner(10, &frame(3, 3), &vec![0; 36]));
    assert!(!compare_left_up_corner(usize::MAX, &frame(3, 3), &vec![0; 36]));
    assert!(!compare_left_up_corner(1, &[], &[]));
    // A last row that is cut short is left out.
    let mut b = frame(3, 3);
    b.truncate(35);
    let mut a = b.clone();
    for byte in a[24..].iter_mut() {
        *byte = 0;
    }
    assert!(!compare_left_up_corner(3, &a, &b));
}
