use scrap_wayland::display::{DisplayInfo, Displays};
use scrap_wayland::mutter::{mutter_streams, MutterCast, MutterStep};

fn displays(list: &[(&str, i32, i32, i32)]) -> Displays {
    Displays {
        primary: 0,
        displays: list
            .iter()
            .map(|&(name, width, height, transform)| DisplayInfo {
                name: name.to_owned(),
                x: 0,
                y: 0,
                width,
                height,
                logical_size: None,
                transform,
            })
            .collect(),
    }
}

/// Lets every step succeed and names them.
fn steps(cast: &mut MutterCast, node_at: u32) -> Vec<String> {
    let mut seen = vec![];
    loop {
        let node = match &cast.step {
            MutterStep::Poll { done } if *done == node_at => Some(77),
            MutterStep::Granted { .. } | MutterStep::Failed { .. } => return seen,
            _ => None,
        };
        seen.push(format!("{:?}", cast.step));
        cast.advance(Ok(node));
    }
}

#[test]
fn cast_is_set_up_step_by_step() {
    let mut cast = MutterCast::new(&displays(&[("DP-1", 1, 1, 0), ("", 1, 1, 0), ("DP-2", 1, 1, 0)]));
    assert_eq!(cast.connectors, vec!["DP-1", "DP-2"]);
    assert_eq!(
        steps(&mut cast, 1),
        vec![
            "Connect",
            "CreateSession",
            "Watch",
            "Record { monitor: 0 }",
            "Record { monitor: 1 }",
            "Start",
            "Poll { done: 0 }",
            "Poll { done: 1 }",
        ]
    );
    assert!(matches!(cast.step, MutterStep::Granted { node: 77 }));
    cast.advance(Err("late".to_owned()));
    assert!(matches!(cast.step, MutterStep::Granted { node: 77 }));
}

#[test]
fn unnamed_displays_give_the_default_connector() {
    assert_eq!(MutterCast::new(&displays(&[])).connectors, vec!["eDP-1"]);
    assert_eq!(MutterCast::new(&displays(&[("", 1, 1, 0)])).connectors, vec!["eDP-1"]);
}

#[test]
fn stream_is_polled_for_thirty_times() {
    let mut cast = MutterCast::new(&displays(&[]));
    let seen = steps(&mut cast, 99);
    assert_eq!(seen.iter().filter(|s| s.starts_with("Poll")).count(), 30);
    match cast.step {
        MutterStep::Failed { text } => {
            assert_eq!(text, "Timed out waiting for PipeWireStreamAdded from Mutter")
        }
        other => panic!("{other:?}"),
    }
    let mut cast = MutterCast::new(&displays(&[]));
    steps(&mut cast, 29);
    assert!(matches!(cast.step, MutterStep::Granted { node: 77 }));
}

#[test]
fn failed_steps_are_named() {
    for (good, text) in [
        (0, "Failed to connect to session bus: E"),
        (1, "CreateSession on Mutter failed: E"),
        (2, "Failed to add match for PipeWireStreamAdded: E"),
        (3, "RecordMonitor for DP-1 failed: E"),
        (4, "RecordMonitor for DP-2 failed: E"),
        (5, "Start session failed: E"),
        (6, "D-Bus process error: E"),
        (7, "D-Bus process error: E"),
    ] {
        let mut cast = MutterCast::new(&displays(&[("DP-1", 1, 1, 0), ("DP-2", 1, 1, 0)]));
        for _ in 0..good {
            cast.advance(Ok(None));
        }
        cast.advance(Err("E".to_owned()));
        match cast.step {
            MutterStep::Failed { text: t } => assert_eq!(t, text),
            other => panic!("{other:?}"),
        }
    }
}

#[test]
fn stream_has_the_size_of_the_first_display() {
    let plain = |d: &Displays| {
        let v = mutter_streams(7, d);
        assert_eq!(v.len(), 1);
        (v[0].path, v[0].source_type, v[0].position, v[0].size)
    };
    assert_eq!(plain(&displays(&[])), (7, 1, (0, 0), (3840, 2160)));
    assert_eq!(
        plain(&displays(&[("a", 800, 600, 270), ("b", 1, 1, 0)])),
        (7, 1, (0, 0), (600, 800))
    );
    assert_eq!(plain(&displays(&[("a", 800, 600, 180)])), (7, 1, (0, 0), (800, 600)));
}
