//! Where the captured streams stand among the displays.

use vstd::prelude::*;

use crate::capturable::{Display, PipeWireCapturable, PwStreamInfo};
use crate::display::{
    extent, extent_of, find_at, first_at, law_first_display_at_a_place_is_found,
    law_lengths_wrap_like_casts, law_sizes_turn_with_the_panel, DisplayInfo, Displays,
};

verus! {

impl Display {
    /// The display with its position replaced, where it is a captured stream.
    pub open spec fn moved_to(self, pos: (i32, i32)) -> Display {
        match self {
            Display::WAYLAND(c) => Display::WAYLAND(PipeWireCapturable { position: pos, ..c }),
            Display::X11(n) => self,
        }
    }

    /// The physical size of a captured stream.
    pub open spec fn stream_size(self) -> Option<(usize, usize)> {
        match self {
            Display::WAYLAND(c) => Some(c.physical_size),
            Display::X11(n) => None,
        }
    }

    /// The position of a captured stream.
    pub open spec fn stream_position(self) -> Option<(i32, i32)> {
        match self {
            Display::WAYLAND(c) => Some(c.position),
            Display::X11(n) => None,
        }
    }

    /// Replaces the position of a captured stream.
    pub fn set_position(&mut self, pos: (i32, i32))
        ensures
            *final(self) == old(self).moved_to(pos),
    {
        match self {
            Display::WAYLAND(c) => {
                c.position = pos;
            },
            Display::X11(_) => {},
        }
    }

    /// The physical size of a captured stream.
    pub fn get_stream_size(&self) -> (r: Option<(usize, usize)>)
        ensures
            r == self.stream_size(),
    {
        match self {
            Display::WAYLAND(c) => Some(c.physical_size),
            Display::X11(_) => None,
        }
    }

    /// The position of a captured stream.
    pub fn get_stream_position(&self) -> (r: Option<(i32, i32)>)
        ensures
            r == self.stream_position(),
    {
        match self {
            Display::WAYLAND(c) => Some(c.position),
            Display::X11(_) => None,
        }
    }
}

impl PwStreamInfo {
    /// The stream with its position replaced.
    pub open spec fn moved_to(self, pos: (i32, i32)) -> PwStreamInfo {
        PwStreamInfo { position: pos, ..self }
    }
}

/// The logical size of a capturable, corrected after the display at its position. Where the
/// physical sizes differ, the capturable shows more than that display and keeps its size.
pub open spec fn fixed_logical_size(displays: Seq<DisplayInfo>, c: PipeWireCapturable) -> (
    usize,
    usize,
) {
    match first_at(displays, c.position) {
        Some(d) => match d.logical_size {
            Some(s) => if c.physical_size == d.native_size() {
                (extent_of(s.0) as usize, extent_of(s.1) as usize)
            } else {
                c.logical_size
            },
            None => c.logical_size,
        },
        None => c.logical_size,
    }
}

/// A shared display with its logical size corrected.
pub open spec fn with_fixed_size(displays: Seq<DisplayInfo>, d: Display) -> Display {
    match d {
        Display::WAYLAND(c) => Display::WAYLAND(
            PipeWireCapturable { logical_size: fixed_logical_size(displays, c), ..c },
        ),
        Display::X11(n) => d,
    }
}

/// Corrects the logical size of one shared display.
fn fix_size(displays: &Displays, d: &mut Display)
    ensures
        *final(d) == with_fixed_size(displays.displays@, *old(d)),
{
    match d {
        Display::WAYLAND(c) => {
            match find_at(&displays.displays, c.position) {
                Some(wd) => {
                    match wd.logical_size {
                        Some(s) => {
                            if wd.has_native_size(c.physical_size) {
                                c.logical_size = (extent(s.0), extent(s.1));
                            }
                        },
                        None => {},
                    }
                },
                None => {},
            }
        },
        Display::X11(_) => {},
    }
}

/// Corrects the logical sizes that the portal reported after those that the compositor reports.
/// Without the server process nothing is corrected.
pub fn try_fix_logical_size(
    server_running: bool,
    displays: &Displays,
    shared_displays: &mut Vec<Display>,
)
    ensures
        final(shared_displays)@ == (if server_running {
            old(shared_displays)@.map_values(|d: Display| with_fixed_size(displays.displays@, d))
        } else {
            old(shared_displays)@
        }),
{
    if !server_running {
        return;
    }
    let ghost fix = |d: Display| with_fixed_size(displays.displays@, d);
    let ghost before = shared_displays@;
    let mut i: usize = 0;
    while i < shared_displays.len()
        invariant
            fix == (|d: Display| with_fixed_size(displays.displays@, d)),
            shared_displays@.len() == before.len(),
            i <= before.len(),
            forall|k: int| 0 <= k < i ==> #[trigger] shared_displays@[k] == fix(before[k]),
            forall|k: int| i <= k < before.len() ==> #[trigger] shared_displays@[k] == before[k],
        decreases shared_displays.len() - i,
    {
        fix_size(displays, &mut shared_displays[i]);
        i += 1;
    }
    assert(shared_displays@ =~= before.map_values(fix));
}

/// Correcting the logical sizes a second time changes nothing.
pub proof fn law_fixing_sizes_is_stable(displays: Seq<DisplayInfo>, d: Display)
    ensures
        with_fixed_size(displays, with_fixed_size(displays, d)) == with_fixed_size(displays, d),
{
}

/// Correcting the logical size leaves everything else of a display as it was.
pub proof fn law_fixing_sizes_keeps_the_rest(displays: Seq<DisplayInfo>, d: Display)
    ensures
        with_fixed_size(displays, d).stream_position() == d.stream_position(),
        with_fixed_size(displays, d).stream_size() == d.stream_size(),
{
}

/// How many displays have this size.
pub open spec fn count_fitting(displays: Seq<DisplayInfo>, size: (usize, usize)) -> nat
    decreases displays.len(),
{
    if displays.len() == 0 {
        0
    } else {
        count_fitting(displays.drop_last(), size) + if displays.last().native_size() == size {
            1nat
        } else {
            0nat
        }
    }
}

/// The corner of the last display with this size.
pub open spec fn last_fitting(displays: Seq<DisplayInfo>, size: (usize, usize)) -> Option<
    (i32, i32),
>
    decreases displays.len(),
{
    if displays.len() == 0 {
        None
    } else if displays.last().native_size() == size {
        Some(displays.last().corner())
    } else {
        last_fitting(displays.drop_last(), size)
    }
}

/// Where a shared display is put by its size alone.
pub open spec fn place_for(displays: Seq<DisplayInfo>, d: Display) -> Option<(i32, i32)> {
    match d.stream_size() {
        Some(s) => last_fitting(displays, s),
        None => None,
    }
}

/// Whether the size of a shared display leaves its place open.
pub open spec fn is_ambiguous(displays: Seq<DisplayInfo>, d: Display) -> bool {
    match d.stream_size() {
        Some(s) => count_fitting(displays, s) > 1,
        None => false,
    }
}

/// A shared display at its new place, if it has one.
pub open spec fn put(d: Display, place: Option<(i32, i32)>) -> Display {
    match place {
        Some(p) => d.moved_to(p),
        None => d,
    }
}

/// A stream at its new place, if it has one.
pub open spec fn put_stream(s: PwStreamInfo, place: Option<(i32, i32)>) -> PwStreamInfo {
    match place {
        Some(p) => s.moved_to(p),
        None => s,
    }
}

/// Shared displays, each at its new place.
pub open spec fn all_put(shared: Seq<Display>, places: Seq<Option<(i32, i32)>>) -> Seq<Display> {
    Seq::new(shared.len(), |i: int| put(shared[i], places[i]))
}

/// Streams, each at the new place of the shared display with the same index.
pub open spec fn all_streams_put(
    streams: Seq<PwStreamInfo>,
    places: Seq<Option<(i32, i32)>>,
) -> Seq<PwStreamInfo> {
    Seq::new(
        streams.len(),
        |i: int|
            put_stream(
                streams[i],
                if i < places.len() {
                    places[i]
                } else {
                    None
                },
            ),
    )
}

/// The places of shared displays by their sizes alone.
pub open spec fn places_by_size(displays: Seq<DisplayInfo>, shared: Seq<Display>) -> Seq<
    Option<(i32, i32)>,
> {
    shared.map_values(|d: Display| place_for(displays, d))
}

/// The indices below `n` of the shared displays whose size leaves their place open.
pub open spec fn ambiguous_below(
    displays: Seq<DisplayInfo>,
    shared: Seq<Display>,
    n: nat,
) -> Seq<usize>
    decreases n,
{
    if n == 0 {
        Seq::empty()
    } else {
        let rest = ambiguous_below(displays, shared, (n - 1) as nat);
        if is_ambiguous(displays, shared[n - 1]) {
            rest.push((n - 1) as usize)
        } else {
            rest
        }
    }
}

/// Counts the displays of a size and finds the last of them.
fn fit(displays: &Vec<DisplayInfo>, size: (usize, usize)) -> (r: (usize, Option<(i32, i32)>))
    ensures
        r.0 == count_fitting(displays@, size),
        r.1 == last_fitting(displays@, size),
{
    let mut count: usize = 0;
    let mut last: Option<(i32, i32)> = None;
    let mut i: usize = 0;
    while i < displays.len()
        invariant
            i <= displays@.len(),
            count <= i,
            count == count_fitting(displays@.take(i as int), size),
            last == last_fitting(displays@.take(i as int), size),
        decreases displays.len() - i,
    {
        let d = &displays[i];
        assert(displays@.take(i + 1).drop_last() =~= displays@.take(i as int));
        if d.has_native_size(size) {
            last = Some((d.x, d.y));
            count += 1;
        }
        i += 1;
    }
    assert(displays@.take(displays@.len() as int) == displays@);
    (count, last)
}

/// Puts a shared display and the stream with the same index at a place.
pub fn place_at(
    shared_displays: &mut Vec<Display>,
    streams: &mut Vec<PwStreamInfo>,
    i: usize,
    pos: (i32, i32),
)
    requires
        i < old(shared_displays)@.len(),
    ensures
        final(shared_displays)@ == old(shared_displays)@.update(
            i as int,
            old(shared_displays)@[i as int].moved_to(pos),
        ),
        final(streams)@ == (if i < old(streams)@.len() {
            old(streams)@.update(i as int, old(streams)@[i as int].moved_to(pos))
        } else {
            old(streams)@
        }),
{
    shared_displays[i].set_position(pos);
    if i < streams.len() {
        streams[i].position = pos;
    }
}

/// Puts each shared display where the display of its size is, and its stream with it. Of several
/// displays of the size the last one counts. The result lists the shared displays for which
/// several displays fit.
pub fn match_positions(
    displays: &Displays,
    shared_displays: &mut Vec<Display>,
    streams: &mut Vec<PwStreamInfo>,
) -> (r: Vec<usize>)
    ensures
        final(shared_displays)@ == all_put(
            old(shared_displays)@,
            places_by_size(displays.displays@, old(shared_displays)@),
        ),
        final(streams)@ == all_streams_put(
            old(streams)@,
            places_by_size(displays.displays@, old(shared_displays)@),
        ),
        r@ == ambiguous_below(
            displays.displays@,
            old(shared_displays)@,
            old(shared_displays)@.len(),
        ),
{
    let ghost shared = shared_displays@;
    let ghost before = streams@;
    let ghost places = places_by_size(displays.displays@, shared);
    let mut r: Vec<usize> = Vec::new();
    let mut i: usize = 0;
    while i < shared_displays.len()
        invariant
            places == places_by_size(displays.displays@, shared),
            shared_displays@.len() == shared.len(),
            streams@.len() == before.len(),
            i <= shared.len(),
            forall|k: int|
                0 <= k < shared.len() ==> #[trigger] shared_displays@[k] == if k < i {
                    put(shared[k], places[k])
                } else {
                    shared[k]
                },
            forall|k: int|
                0 <= k < before.len() ==> #[trigger] streams@[k] == if k < i {
                    put_stream(before[k], places[k])
                } else {
                    before[k]
                },
            r@ == ambiguous_below(displays.displays@, shared, i as nat),
        decreases shared_displays.len() - i,
    {
        match shared_displays[i].get_stream_size() {
            Some(size) => {
                let (count, last) = fit(&displays.displays, size);
                match last {
                    Some(pos) => {
                        place_at(shared_displays, streams, i, pos);
                    },
                    None => {},
                }
                if count > 1 {
                    r.push(i);
                }
            },
            None => {},
        }
        i += 1;
    }
    assert(shared_displays@ =~= all_put(shared, places));
    assert(streams@ =~= all_streams_put(before, places));
    r
}

/// Whether each captured stream among the shared displays stands where the stream with the same
/// index does.
pub open spec fn in_step(shared: Seq<Display>, streams: Seq<PwStreamInfo>) -> bool {
    &&& shared.len() == streams.len()
    &&& forall|i: int|
        0 <= i < shared.len() && (#[trigger] shared[i]) is WAYLAND ==> shared[i].stream_position()
            == Some(streams[i].position)
}

/// Shared displays and their streams stay in step, whatever places they are given.
pub proof fn law_placing_keeps_in_step(
    shared: Seq<Display>,
    streams: Seq<PwStreamInfo>,
    places: Seq<Option<(i32, i32)>>,
)
    requires
        in_step(shared, streams),
        places.len() == shared.len(),
    ensures
        in_step(all_put(shared, places), all_streams_put(streams, places)),
{
    let (d, s) = (all_put(shared, places), all_streams_put(streams, places));
    assert forall|i: int| 0 <= i < d.len() && (#[trigger] d[i]) is WAYLAND implies
        d[i].stream_position() == Some(s[i].position) by {
        assert(shared[i] is WAYLAND);
    }
}

/// A shared display that is placed by its size gets the place of a display of that size; if it is
/// not placed, no display has its size.
pub proof fn law_placed_on_a_fitting_display(displays: Seq<DisplayInfo>, size: (usize, usize))
    ensures
        match last_fitting(displays, size) {
            Some(pos) => exists|i: int|
                0 <= i < displays.len() && (#[trigger] displays[i]).native_size() == size
                    && displays[i].corner() == pos,
            None => forall|i: int|
                0 <= i < displays.len() ==> (#[trigger] displays[i]).native_size() != size,
        },
        last_fitting(displays, size) is None <==> count_fitting(displays, size) == 0,
    decreases displays.len(),
{
    if displays.len() > 0 {
        let short = displays.drop_last();
        law_placed_on_a_fitting_display(short, size);
        let n = displays.len() - 1;
        if displays.last().native_size() == size {
            assert(displays[n].native_size() == size);
        } else {
            match last_fitting(short, size) {
                Some(pos) => {
                    let i = choose|i: int|
                        0 <= i < short.len() && (#[trigger] short[i]).native_size() == size
                            && short[i].corner() == pos;
                    assert(displays[i] == short[i]);
                },
                None => {
                    assert forall|i: int| 0 <= i < displays.len() implies (
                    #[trigger] displays[i]).native_size() != size by {
                        if i < n {
                            assert(short[i] == displays[i]);
                        }
                    }
                },
            }
        }
    }
}

/// If just one display has the size of a captured stream, the stream is put there, and its place
/// is not open.
pub proof fn law_only_fitting_display_is_taken(
    displays: Seq<DisplayInfo>,
    d: Display,
    size: (usize, usize),
    i: int,
)
    requires
        d.stream_size() == Some(size),
        0 <= i < displays.len(),
        displays[i].native_size() == size,
        forall|k: int|
            0 <= k < displays.len() && k != i ==> (#[trigger] displays[k]).native_size() != size,
    ensures
        put(d, place_for(displays, d)).stream_position() == Some(displays[i].corner()),
        !is_ambiguous(displays, d),
    decreases displays.len(),
{
    law_placed_on_a_fitting_display(displays, size);
    let short = displays.drop_last();
    law_placed_on_a_fitting_display(short, size);
    if i < short.len() {
        assert(short[i] == displays[i]);
        assert(displays[displays.len() - 1].native_size() != size);
        assert forall|k: int| 0 <= k < short.len() && k != i implies (
        #[trigger] short[k]).native_size() != size by {
            assert(short[k] == displays[k]);
        }
        law_only_fitting_display_is_taken(short, d, size, i);
    } else {
        assert forall|k: int| 0 <= k < short.len() implies (#[trigger] short[k]).native_size()
            != size by {
            assert(short[k] == displays[k]);
        }
    }
}

/// The list of open places holds exactly the indices of the shared displays that several displays
/// fit.
pub proof fn law_open_places_are_listed(
    displays: Seq<DisplayInfo>,
    shared: Seq<Display>,
    n: nat,
    i: usize,
)
    requires
        n <= shared.len() <= usize::MAX,
    ensures
        ambiguous_below(displays, shared, n).contains(i) <==> i < n && is_ambiguous(
            displays,
            shared[i as int],
        ),
    decreases n,
{
    if n > 0 {
        law_open_places_are_listed(displays, shared, (n - 1) as nat, i);
        let rest = ambiguous_below(displays, shared, (n - 1) as nat);
        if is_ambiguous(displays, shared[n - 1]) {
            let all = rest.push((n - 1) as usize);
            assert(all.last() == (n - 1) as usize);
            assert forall|c: usize| all.contains(c) <==> rest.contains(c) || c == (n
                - 1) as usize by {
                if rest.contains(c) {
                    let k = choose|k: int| 0 <= k < rest.len() && rest[k] == c;
                    assert(all[k] == c);
                }
                if all.contains(c) && c != (n - 1) as usize {
                    let k = choose|k: int| 0 <= k < all.len() && all[k] == c;
                    assert(rest[k] == c);
                }
            }
        }
    }
}

/// The logical size is corrected to that of the first display at the place of a capturable, if that
/// display tells one and its panel has the physical size of the capturable. In all other cases it
/// stays, and nothing else changes in any case. `k` is the index of that display, or the number of
/// displays where none is at the place.
pub proof fn law_logical_size_follows_the_display(
    displays: Seq<DisplayInfo>,
    c: PipeWireCapturable,
    k: int,
    n: usize,
)
    requires
        0 <= k <= displays.len(),
        k < displays.len() ==> displays[k].x == c.position.0 && displays[k].y == c.position.1,
        forall|i: int|
            0 <= i < k ==> (#[trigger] displays[i]).x != c.position.0 || displays[i].y
                != c.position.1,
    ensures
        ({
            let after = with_fixed_size(displays, Display::WAYLAND(c));
            &&& k < displays.len() && c.physical_size == (
                displays[k].width as usize,
                displays[k].height as usize,
            ) ==> (displays[k].logical_size matches Some(size) ==> after == Display::WAYLAND(
                PipeWireCapturable { logical_size: (size.0 as usize, size.1 as usize), ..c },
            ))
            &&& !(k < displays.len() && displays[k].logical_size is Some && c.physical_size == (
                displays[k].width as usize,
                displays[k].height as usize,
            )) ==> after == Display::WAYLAND(c)
        }),
        with_fixed_size(displays, Display::X11(n)) == Display::X11(n),
{
    law_first_display_at_a_place_is_found(displays, c.position, k);
    if k < displays.len() {
        law_sizes_turn_with_the_panel(displays[k]);
        if let Some(l) = displays[k].logical_size {
            law_lengths_wrap_like_casts(l.0);
            law_lengths_wrap_like_casts(l.1);
        }
    }
}

/// A captured stream is put at the corner of the last display whose width and height are its
/// physical size, and changes in nothing else; where there is none it stays. `k` is the index of that
/// display, or -1. What is no captured stream stays.
pub proof fn law_streams_go_to_the_last_fitting_display(
    displays: Seq<DisplayInfo>,
    c: PipeWireCapturable,
    k: int,
    n: usize,
)
    requires
        -1 <= k < displays.len(),
        k >= 0 ==> displays[k].width as usize == c.physical_size.0 && displays[k].height as usize
            == c.physical_size.1,
        forall|i: int|
            k < i < displays.len() ==> (#[trigger] displays[i]).width as usize != c.physical_size.0
                || displays[i].height as usize != c.physical_size.1,
    ensures
        k >= 0 ==> put(
            Display::WAYLAND(c),
            place_for(displays, Display::WAYLAND(c)),
        ) == Display::WAYLAND(
            PipeWireCapturable { position: (displays[k].x, displays[k].y), ..c },
        ),
        k >= 0 ==> place_for(displays, Display::WAYLAND(c)) == Some(
            (displays[k].x, displays[k].y),
        ),
        k == -1 ==> place_for(displays, Display::WAYLAND(c)) is None,
        k == -1 ==> put(
            Display::WAYLAND(c),
            place_for(displays, Display::WAYLAND(c)),
        ) == Display::WAYLAND(c),
        place_for(displays, Display::X11(n)) is None,
        !is_ambiguous(displays, Display::X11(n)),
    decreases displays.len(),
{
    if displays.len() > 0 {
        let last = displays.len() - 1;
        law_sizes_turn_with_the_panel(displays[last]);
        if k < last {
            let short = displays.drop_last();
            assert(displays[last].width as usize != c.physical_size.0
                || displays[last].height as usize != c.physical_size.1);
            assert forall|i: int| k < i < short.len() implies (#[trigger] short[i]).width as usize
                != c.physical_size.0 || short[i].height as usize != c.physical_size.1 by {
                assert(short[i] == displays[i]);
            }
            law_streams_go_to_the_last_fitting_display(short, c, k, n);
        }
    }
}

/// How many displays fit does not shrink with more displays.
proof fn lemma_fitting_counted(displays: Seq<DisplayInfo>, size: (usize, usize), i: int)
    requires
        0 <= i < displays.len(),
        displays[i].native_size() == size,
    ensures
        count_fitting(displays, size) >= 1,
        count_fitting(displays, size) >= count_fitting(displays.take(i), size) + 1,
    decreases displays.len(),
{
    let short = displays.drop_last();
    if i < short.len() {
        assert(short[i] == displays[i]);
        lemma_fitting_counted(short, size, i);
        assert(short.take(i) =~= displays.take(i));
    } else {
        assert(displays.take(i) =~= short);
    }
}

/// The place of a captured stream is open if and only if two displays have its physical size.
pub proof fn law_places_are_open_between_two_displays(
    displays: Seq<DisplayInfo>,
    c: PipeWireCapturable,
)
    ensures
        is_ambiguous(displays, Display::WAYLAND(c)) <==> exists|i: int, j: int|
            0 <= i < j < displays.len() && (#[trigger] displays[i]).width as usize
                == c.physical_size.0 && displays[i].height as usize == c.physical_size.1 && (
            #[trigger] displays[j]).width as usize == c.physical_size.0
                && displays[j].height as usize == c.physical_size.1,
    decreases displays.len(),
{
    let size = c.physical_size;
    assert forall|i: int| 0 <= i < displays.len() implies (#[trigger] displays[i]).native_size() == (
        displays[i].width as usize,
        displays[i].height as usize,
    ) by {
        law_sizes_turn_with_the_panel(displays[i]);
    }
    if is_ambiguous(displays, Display::WAYLAND(c)) {
        let short = displays.drop_last();
        let n = displays.len() - 1;
        law_places_are_open_between_two_displays(short, c);
        if count_fitting(short, size) > 1 {
            let (i, j) = choose|i: int, j: int|
                0 <= i < j < short.len() && (#[trigger] short[i]).width as usize
                    == c.physical_size.0 && short[i].height as usize == c.physical_size.1 && (
                #[trigger] short[j]).width as usize == c.physical_size.0 && short[j].height as usize
                    == c.physical_size.1;
            assert(displays[i] == short[i] && displays[j] == short[j]);
        } else {
            law_placed_on_a_fitting_display(short, size);
            let pos = last_fitting(short, size)->0;
            let i = choose|i: int|
                0 <= i < short.len() && (#[trigger] short[i]).native_size() == size
                    && short[i].corner() == pos;
            assert(displays[i] == short[i]);
            assert(displays[n].native_size() == size);
        }
    }
    if exists|i: int, j: int|
        0 <= i < j < displays.len() && (#[trigger] displays[i]).width as usize == c.physical_size.0
            && displays[i].height as usize == c.physical_size.1 && (
        #[trigger] displays[j]).width as usize == c.physical_size.0 && displays[j].height as usize
            == c.physical_size.1 {
        let (i, j) = choose|i: int, j: int|
            0 <= i < j < displays.len() && (#[trigger] displays[i]).width as usize
                == c.physical_size.0 && displays[i].height as usize == c.physical_size.1 && (
            #[trigger] displays[j]).width as usize == c.physical_size.0
                && displays[j].height as usize == c.physical_size.1;
        lemma_fitting_counted(displays, size, j);
        assert(displays.take(j)[i] == displays[i]);
        lemma_fitting_counted(displays.take(j), size, i);
    }
}

/// Places are taken one by one: each shared display and the stream with its index go to the place
/// with that index, and where there is none they stay. Nothing but positions changes.
pub proof fn law_places_are_taken_by_index(
    shared: Seq<Display>,
    streams: Seq<PwStreamInfo>,
    places: Seq<Option<(i32, i32)>>,
    i: int,
)
    requires
        places.len() == shared.len(),
        0 <= i,
    ensures
        all_put(shared, places).len() == shared.len(),
        all_streams_put(streams, places).len() == streams.len(),
        i < shared.len() ==> (places[i] matches Some(p) ==> (shared[i] matches Display::WAYLAND(c)
            ==> all_put(shared, places)[i] == Display::WAYLAND(
            PipeWireCapturable { position: p, ..c },
        ))),
        i < shared.len() && (places[i] is None || shared[i] is X11) ==> all_put(shared, places)[i]
            == shared[i],
        i < streams.len() && i < places.len() ==> (places[i] matches Some(p) ==> all_streams_put(
            streams,
            places,
        )[i] == (PwStreamInfo { position: p, ..streams[i] })),
        i < streams.len() && (i >= places.len() || places[i] is None) ==> all_streams_put(
            streams,
            places,
        )[i] == streams[i],
{
}

/// The places by size are those of the shared displays, each by itself.
pub proof fn law_places_by_size_go_by_index(
    displays: Seq<DisplayInfo>,
    shared: Seq<Display>,
    i: int,
)
    requires
        0 <= i < shared.len(),
    ensures
        places_by_size(displays, shared).len() == shared.len(),
        places_by_size(displays, shared)[i] == place_for(displays, shared[i]),
{
}

} // verus!
