use scrap_wayland::capturable::{Display, PipeWireCapturable, PwStreamInfo};
use scrap_wayland::display::{DisplayInfo, Displays};
use scrap_wayland::errors::GStreamerError;
use scrap_wayland::probe::{
    has_arrived, keeps_moving, probe_point, CursorProbe, ProbeAction, ProbeFrame, NEUTRAL_POINT,
};
use scrap_wayland::recorder::PixelProvider;

fn displays(list: &[(i32, i32, i32)]) -> Displays {
    Displays {
        primary: 0,
        displays: list
            .iter()
            .map(|&(x, width, height)| DisplayInfo {
                name: String::new(),
                x,
                y: 0,
                width,
                height,
                logical_size: None,
                transform: 0,
            })
            .collect(),
    }
}

fn stream() -> PwStreamInfo {
    PwStreamInfo {
        path: 1,
        source_type: 1,
        position: (-1, -1),
        size: (0, 0),
    }
}

fn shared(physical: (usize, usize)) -> Display {
    let mut c = PipeWireCapturable::for_size_probe(String::new(), None, &stream());
    c.physical_size = physical;
    Display::WAYLAND(c)
}

fn frame(is_bgr: bool, with_cursor: bool) -> Option<ProbeFrame> {
    Some(ProbeFrame {
        is_bgr,
        width: 40,
        bytes: vec![if with_cursor { 1 } else { 0 }; 40 * 40 * 4],
    })
}

fn positions(v: &[Display]) -> Vec<Option<(i32, i32)>> {
    v.iter().map(|d| d.get_stream_position()).collect()
}

#[test]
fn cursor_tells_displays_apart() {
    let d = displays(&[(0, 8, 6), (8, 8, 6), (16, 8, 6)]);
    let mut v = vec![shared((8, 6)), shared((8, 6)), shared((8, 6))];
    let mut s = vec![stream(); 3];
    let mut p = CursorProbe::new(vec![0, 1, 2]);
    assert_eq!(p.advance(&d, 3, &mut v, &mut s), ProbeAction::Open { index: 0 });
    assert_eq!(
        p.first_frame(frame(true, false), &d, 3, &mut v, &mut s),
        ProbeAction::MoveTo { display: 0 }
    );
    assert_eq!(
        p.next_frame(frame(true, false), &d, 3, &mut v, &mut s),
        ProbeAction::MoveTo { display: 1 }
    );
    assert_eq!(
        p.next_frame(frame(true, true), &d, 3, &mut v, &mut s),
        ProbeAction::Open { index: 1 }
    );
    // The found display is not tried again.
    assert_eq!(
        p.first_frame(frame(false, false), &d, 3, &mut v, &mut s),
        ProbeAction::MoveTo { display: 0 }
    );
    assert_eq!(
        p.next_frame(frame(false, false), &d, 3, &mut v, &mut s),
        ProbeAction::MoveTo { display: 2 }
    );
    // The last capturable has a single display left.
    assert_eq!(
        p.next_frame(frame(false, true), &d, 3, &mut v, &mut s),
        ProbeAction::Finished
    );
    assert_eq!(p.matched, vec![1, 2, 0]);
    assert_eq!(positions(&v), vec![Some((8, 0)), Some((16, 0)), Some((0, 0))]);
    let at: Vec<_> = s.iter().map(|s| s.position).collect();
    assert_eq!(at, vec![(8, 0), (16, 0), (0, 0)]);
}

#[test]
fn capturables_without_frames_stay() {
    let d = displays(&[(0, 8, 6), (8, 8, 6)]);
    let mut v = vec![shared((8, 6)), shared((8, 6))];
    let mut s = vec![stream(); 2];
    let mut p = CursorProbe::new(vec![0, 1]);
    assert_eq!(p.advance(&d, 2, &mut v, &mut s), ProbeAction::Open { index: 0 });
    assert_eq!(
        p.first_frame(None, &d, 2, &mut v, &mut s),
        ProbeAction::Open { index: 1 }
    );
    assert_eq!(
        p.first_frame(frame(true, false), &d, 2, &mut v, &mut s),
        ProbeAction::MoveTo { display: 0 }
    );
    // No frame, and another order of colours.
    assert_eq!(
        p.next_frame(None, &d, 2, &mut v, &mut s),
        ProbeAction::MoveTo { display: 1 }
    );
    assert_eq!(
        p.next_frame(frame(false, true), &d, 2, &mut v, &mut s),
        ProbeAction::Finished
    );
    assert_eq!(positions(&v), vec![Some((-1, -1)), Some((-1, -1))]);
    assert!(p.matched.is_empty());
}

#[test]
fn sizes_are_settled_without_frames() {
    let d = displays(&[(0, 8, 6), (8, 4, 3)]);
    let mut v = vec![shared((4, 3)), Display::X11(0), shared((1, 1)), shared((8, 6))];
    let mut s = vec![stream(); 3];
    // Index 3 has no stream, index 9 nothing at all.
    let mut p = CursorProbe::new(vec![1, 0, 2, 3, 9]);
    assert_eq!(p.advance(&d, 4, &mut v, &mut s), ProbeAction::Finished);
    assert_eq!(
        positions(&v),
        vec![Some((8, 0)), None, Some((-1, -1)), Some((-1, -1))]
    );
    assert_eq!(s[0].position, (8, 0));
    assert_eq!(p.matched, vec![1]);
}

#[test]
fn streams_have_to_show_the_cursor() {
    let d = displays(&[(0, 8, 6), (8, 8, 6)]);
    let mut v = vec![shared((8, 6)), shared((8, 6))];
    let mut s = vec![stream(); 2];
    let mut p = CursorProbe::new(vec![0, 1]);
    assert_eq!(p.advance(&d, 0, &mut v, &mut s), ProbeAction::Finished);
    let mut p = CursorProbe::new(vec![1, 0]);
    assert_eq!(p.advance(&d, 1, &mut v, &mut s), ProbeAction::Open { index: 0 });
}

#[test]
fn captures_become_frames() {
    let data = [1u8, 2, 3, 4];
    for (r, is_bgr) in [
        (Ok(PixelProvider::BGR0(1, 1, &data)), true),
        (Ok(PixelProvider::RGB0(1, 1, &data)), false),
    ] {
        let f = ProbeFrame::from_capture(&r).unwrap();
        assert_eq!((f.is_bgr, f.width), (is_bgr, 1));
        assert_eq!(f.bytes, data);
    }
    assert!(ProbeFrame::from_capture(&Ok(PixelProvider::NONE)).is_none());
    let failed = Err(GStreamerError("x".to_owned()));
    assert!(ProbeFrame::from_capture(&failed).is_none());
}

#[test]
fn cursor_is_put_a_little_inside() {
    assert_eq!(probe_point(&displays(&[(100, 1, 1)]).displays[0]), (108, 8));
    assert_eq!(NEUTRAL_POINT, (300, 300));
}

#[test]
fn cursor_is_moved_until_it_arrives() {
    assert!(keeps_moving(0));
    assert!(keeps_moving(149_999_999));
    assert!(!keeps_moving(150_000_000));
    assert!(has_arrived(Some((1, 2)), (1, 2)));
    assert!(!has_arrived(Some((2, 1)), (1, 2)));
    assert!(!has_arrived(None, (1, 2)));
}
