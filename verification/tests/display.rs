use scrap_wayland::display::{extent, find_at, DisplayInfo};

fn display(name: &str, x: i32, y: i32, width: i32, height: i32, transform: i32) -> DisplayInfo {
    DisplayInfo {
        name: name.to_owned(),
        x,
        y,
        width,
        height,
        logical_size: None,
        transform,
    }
}

#[test]
fn lengths_wrap_like_casts() {
    for v in [0, 1, 1920, -1, i32::MAX, i32::MIN] {
        assert_eq!(extent(v), v as usize);
    }
}

#[test]
fn quarter_turns_swap_the_size() {
    for (transform, size) in [
        (0, (3840, 2160)),
        (90, (2160, 3840)),
        (180, (3840, 2160)),
        (270, (2160, 3840)),
        (-90, (3840, 2160)),
    ] {
        let d = display("a", 0, 0, 3840, 2160, transform);
        assert_eq!(d.get_rotated_size(), size);
        assert!(d.has_native_size((3840, 2160)));
        assert!(!d.has_native_size((2160, 3840)));
    }
}

#[test]
fn first_display_at_a_place_is_found() {
    let all = vec![
        display("a", 0, 0, 1, 1, 0),
        display("b", 5, -5, 1, 1, 0),
        display("c", 5, -5, 2, 2, 0),
    ];
    assert_eq!(find_at(&all, (5, -5)).map(|d| d.name.as_str()), Some("b"));
    assert!(find_at(&all, (5, 5)).is_none());
    assert!(find_at(&vec![], (0, 0)).is_none());
}
