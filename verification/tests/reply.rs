use scrap_wayland::capturable::PwStreamInfo;
use scrap_wayland::reply::{streams_from_response, Arg, Reply};

fn nothing() -> Arg {
    Arg {
        as_u64: None,
        as_i64: None,
        as_str: None,
        items: None,
    }
}

fn number(n: i64) -> Arg {
    Arg {
        as_u64: u64::try_from(n).ok(),
        as_i64: Some(n),
        ..nothing()
    }
}

fn text(s: &str) -> Arg {
    Arg {
        as_str: Some(s.to_owned()),
        ..nothing()
    }
}

fn list(items: Vec<Arg>) -> Arg {
    Arg {
        items: Some(items),
        ..nothing()
    }
}

/// A variant around a pair.
fn pair(a: i64, b: i64) -> Arg {
    list(vec![list(vec![number(a), number(b)])])
}

fn dict(entries: Vec<(&str, Arg)>) -> Arg {
    list(
        entries
            .into_iter()
            .flat_map(|(k, v)| vec![text(k), v])
            .collect(),
    )
}

fn stream(path: i64, attributes: Arg) -> Arg {
    list(vec![number(path), attributes])
}

fn reply(streams: Vec<Arg>) -> Reply {
    Reply {
        results: vec![
            ("other".to_owned(), number(1)),
            ("streams".to_owned(), list(vec![list(streams)])),
        ],
    }
}

fn plain(s: &PwStreamInfo) -> (u64, u64, (i32, i32), (usize, usize)) {
    (s.path, s.source_type, s.position, s.size)
}

fn read(streams: Vec<Arg>) -> (Vec<(u64, u64, (i32, i32), (usize, usize))>, bool) {
    let mut placed = false;
    let r = streams_from_response(&reply(streams), &mut placed);
    (r.iter().map(plain).collect(), placed)
}

#[test]
fn streams_are_read_in_order() {
    let full = dict(vec![
        ("position", pair(-10, 20)),
        ("size", pair(1920, 1080)),
        ("source_type", number(1)),
    ]);
    let bare = dict(vec![("size", pair(5, 6))]);
    assert_eq!(
        read(vec![stream(41, full), stream(42, bare)]),
        (
            vec![(41, 1, (-10, 20), (1920, 1080)), (42, 0, (0, 0), (5, 6))],
            true
        )
    );
}

#[test]
fn streams_without_positions_leave_the_flag() {
    let bare = || vec![stream(42, dict(vec![("size", pair(5, 6))]))];
    assert!(!read(bare()).1);
    let mut placed = true;
    let _ = streams_from_response(&reply(bare()), &mut placed);
    assert!(placed);
}

#[test]
fn incomplete_streams_are_left_out() {
    let good = || dict(vec![("size", pair(5, 6))]);
    let expected = (vec![(9, 0, (0, 0), (5, 6))], false);
    for bad in [
        nothing(),
        list(vec![]),
        list(vec![number(1)]),
        list(vec![text("1"), good()]),
        list(vec![number(1), nothing()]),
        stream(1, dict(vec![])),
        stream(1, dict(vec![("size", nothing())])),
        stream(1, dict(vec![("size", pair(5, 6)), ("source_type", text("1"))])),
        stream(1, dict(vec![("size", pair(5, 6)), ("position", number(3))])),
    ] {
        assert_eq!(read(vec![bad, stream(9, good())]), expected);
    }
}

#[test]
fn pairs_are_looked_for_in_the_first_container() {
    let odd = |v: Arg| stream(1, dict(vec![("size", v)]));
    // Not a container, then a pair.
    let second = list(vec![number(7), list(vec![number(3), number(4)])]);
    assert_eq!(read(vec![odd(second)]).0, vec![(1, 0, (0, 0), (3, 4))]);
    // The first container decides, even if it is no pair.
    let first = list(vec![
        list(vec![number(7)]),
        list(vec![number(3), number(4)]),
    ]);
    assert_eq!(read(vec![odd(first)]).0, vec![(1, 0, (0, 0), (0, 0))]);
    // What is no number counts as zero.
    let unread = list(vec![list(vec![text("x"), number(4)])]);
    assert_eq!(read(vec![odd(unread)]).0, vec![(1, 0, (0, 0), (0, 4))]);
    assert_eq!(read(vec![odd(list(vec![]))]).0, vec![(1, 0, (0, 0), (0, 0))]);
}

#[test]
fn position_without_a_pair_is_no_position() {
    let s = stream(
        1,
        dict(vec![("size", pair(5, 6)), ("position", list(vec![]))]),
    );
    assert_eq!(read(vec![s]), (vec![(1, 0, (0, 0), (5, 6))], false));
}

#[test]
fn numbers_wrap_like_casts() {
    let s = stream(
        1,
        dict(vec![
            ("size", pair(-1, 0x1_0000_0005)),
            ("position", pair(0x8000_0000, -0x1_0000_0001)),
        ]),
    );
    assert_eq!(
        read(vec![s]).0,
        vec![(
            1,
            0,
            (0x8000_0000i64 as i32, -0x1_0000_0001i64 as i32),
            (-1i64 as usize, 0x1_0000_0005i64 as usize)
        )]
    );
}

#[test]
fn later_attributes_win_and_keys_close_up() {
    let twice = dict(vec![("size", pair(1, 1)), ("size", pair(2, 2))]);
    assert_eq!(read(vec![stream(1, twice)]).0, vec![(1, 0, (0, 0), (2, 2))]);
    // A key that is no text is left out, so that later keys meet earlier values.
    let shifted = list(vec![number(0), pair(3, 3), text("size"), pair(4, 4)]);
    assert_eq!(read(vec![stream(1, shifted)]).0, vec![(1, 0, (0, 0), (3, 3))]);
    // A key without a value does not count.
    let dangling = list(vec![text("size"), pair(3, 3), text("size")]);
    assert_eq!(read(vec![stream(1, dangling)]).0, vec![(1, 0, (0, 0), (3, 3))]);
}

#[test]
fn replies_without_streams_give_none() {
    for results in [
        vec![],
        vec![("streams".to_owned(), nothing())],
        vec![("streams".to_owned(), list(vec![]))],
        vec![("streams".to_owned(), list(vec![nothing()]))],
        vec![("streams".to_owned(), list(vec![list(vec![])]))],
    ] {
        let mut placed = false;
        assert!(streams_from_response(&Reply { results }, &mut placed).is_empty());
        assert!(!placed);
    }
}

#[test]
fn results_are_found_by_name() {
    let r = reply(vec![]);
    assert_eq!(r.get("other").and_then(|a| a.as_i64), Some(1));
    assert!(r.get("streams").is_some());
    assert!(r.get("").is_none());
}
