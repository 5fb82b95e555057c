use scrap_wayland::capturable::{Display, PipeWireCapturable, PwStreamInfo};
use scrap_wayland::display::{DisplayInfo, Displays};
use scrap_wayland::sort::sort_streams;

fn displays(primary: usize, corners: &[(i32, i32)]) -> Displays {
    Displays {
        primary,
        displays: corners
            .iter()
            .map(|&(x, y)| DisplayInfo {
                name: String::new(),
                x,
                y,
                width: 1,
                height: 1,
                logical_size: None,
                transform: 0,
            })
            .collect(),
    }
}

fn stream(path: u64, position: (i32, i32)) -> PwStreamInfo {
    PwStreamInfo {
        path,
        source_type: 1,
        position,
        size: (0, 0),
    }
}

fn shared(s: &PwStreamInfo) -> Display {
    Display::WAYLAND(PipeWireCapturable::for_size_probe(String::new(), None, s))
}

fn sorted(d: &Displays, list: &[(u64, (i32, i32))], missing: usize) -> (Vec<u64>, Vec<u64>) {
    let mut streams: Vec<_> = list.iter().map(|&(p, at)| stream(p, at)).collect();
    let mut v: Vec<_> = streams.iter().map(shared).collect();
    v.truncate(list.len() - missing);
    sort_streams(d, &mut v, &mut streams);
    (
        streams.iter().map(|s| s.path).collect(),
        v.iter()
            .map(|d| match d {
                Display::WAYLAND(c) => c.path,
                Display::X11(n) => *n as u64,
            })
            .collect(),
    )
}

#[test]
fn main_display_comes_first() {
    let d = displays(2, &[(0, 0), (1, 0), (2, 0)]);
    let list = [(10, (0, 0)), (11, (1, 0)), (12, (2, 0))];
    assert_eq!(sorted(&d, &list, 0), (vec![12, 10, 11], vec![12, 10, 11]));
}

#[test]
fn order_of_the_displays_is_kept_without_a_main_one() {
    let d = displays(9, &[(2, 0), (0, 0), (1, 0)]);
    let list = [(10, (0, 0)), (11, (1, 0)), (12, (2, 0))];
    assert_eq!(sorted(&d, &list, 0), (vec![12, 10, 11], vec![12, 10, 11]));
}

#[test]
fn streams_elsewhere_are_dropped() {
    let d = displays(0, &[(0, 0), (1, 0)]);
    let list = [(10, (1, 0)), (11, (7, 7)), (12, (0, 0)), (13, (0, 0))];
    assert_eq!(sorted(&d, &list, 0), (vec![12, 10], vec![12, 10]));
}

#[test]
fn missing_displays_are_passed_over() {
    let d = displays(0, &[(0, 0), (1, 0)]);
    let list = [(10, (1, 0)), (11, (0, 0))];
    assert_eq!(sorted(&d, &list, 1), (vec![11, 10], vec![10]));
}

#[test]
fn without_streams_nothing_is_sorted() {
    let d = displays(0, &[(0, 0)]);
    let mut v = vec![Display::X11(4)];
    let mut streams = vec![];
    sort_streams(&d, &mut v, &mut streams);
    assert!(matches!(v[..], [Display::X11(4)]));
    assert!(streams.is_empty());
}

#[test]
fn twice_the_same_corner_takes_two_streams() {
    let d = displays(0, &[(0, 0), (0, 0)]);
    let list = [(10, (0, 0)), (11, (0, 0))];
    assert_eq!(sorted(&d, &list, 0), (vec![10, 11], vec![10, 11]));
}
