//! Telling displays of the same size apart by moving the cursor onto them.
//!
//! A capturable whose size fits several displays is watched while the cursor is moved into the
//! corner of one display after the other. Where the picture changes, the display is found.

use vstd::prelude::*;

use crate::capturable::{Display, PipeWireCapturable, PwStreamInfo};
use crate::corner::{compare_left_up_corner, corners_differ};
use crate::display::{law_sizes_turn_with_the_panel, DisplayInfo, Displays};
use crate::errors::GStreamerError;
use crate::positions::{in_step, place_at};
use crate::recorder::PixelProvider;

verus! {

/// How far inside a display the cursor is put.
pub const CURSOR_INSET: i32 = 8;

/// Where the cursor is put before the first frame, so that its last place does not interfere.
pub const NEUTRAL_POINT: (i32, i32) = (300, 300);

/// A captured frame.
#[derive(Debug)]
pub struct ProbeFrame {
    pub is_bgr: bool,
    pub width: usize,
    pub bytes: Vec<u8>,
}

/// What to do next.
#[derive(Clone, Copy, Debug, PartialEq, Eq, Structural)]
pub enum ProbeAction {
    /// Move the cursor to the neutral point, open a recorder for the stream with this index and
    /// capture a frame.
    Open { index: usize },
    /// Move the cursor into the corner of this display, forget the last frame and capture another.
    MoveTo { display: usize },
    /// Nothing is left to do.
    Finished,
}

/// What is awaited.
#[derive(Debug)]
pub enum ProbePhase {
    /// Nothing.
    Idle,
    /// The first frame, without the cursor.
    First,
    /// The frame with the cursor on this display, to be compared with the first one.
    Comparing { first: ProbeFrame, display: usize },
}

/// The search for the displays of some capturables.
#[derive(Debug)]
pub struct CursorProbe {
    /// The shared displays whose place is open.
    pub indices: Vec<usize>,
    /// Which of them comes next.
    pub next: usize,
    /// The displays that were found already.
    pub matched: Vec<usize>,
    pub phase: ProbePhase,
}

/// How far the search has come.
#[verifier::ext_equal]
pub struct ProbeState {
    pub next: int,
    pub matched: Seq<usize>,
    pub shared: Seq<Display>,
    pub streams: Seq<PwStreamInfo>,
}

/// What does not change during the search: the displays, the shared displays whose place is open,
/// and how many streams show the cursor.
pub struct ProbeTask {
    pub displays: Seq<DisplayInfo>,
    pub indices: Seq<usize>,
    pub cursor_streams: int,
}

impl ProbeTask {
    /// Whether a display has the size and was not found before.
    pub open spec fn is_free(self, matched: Seq<usize>, size: (usize, usize), i: int) -> bool {
        !matched.contains(i as usize) && self.displays[i].native_size() == size
    }

    /// How many of the first `n` displays have the size and were not found before.
    pub open spec fn free_count(self, matched: Seq<usize>, size: (usize, usize), n: nat) -> nat
        decreases n,
    {
        if n == 0 {
            0
        } else {
            self.free_count(matched, size, (n - 1) as nat) + if self.is_free(matched, size, n - 1) {
                1nat
            } else {
                0nat
            }
        }
    }

    /// The first display from `from` on that has the size and was not found before; the number of
    /// displays where there is none.
    pub open spec fn next_free(self, matched: Seq<usize>, size: (usize, usize), from: int) -> int
        decreases self.displays.len() - from,
    {
        if from >= self.displays.len() {
            self.displays.len() as int
        } else if self.is_free(matched, size, from) {
            from
        } else {
            self.next_free(matched, size, from + 1)
        }
    }

    /// The size of the capturable that comes next. An index without a captured stream that is
    /// also among the streams and among those with the cursor has none.
    pub open spec fn current_size(self, s: ProbeState) -> Option<(usize, usize)> {
        if 0 <= s.next < self.indices.len() {
            let idx = self.indices[s.next] as int;
            if idx < s.shared.len() && idx < s.streams.len() && idx < self.cursor_streams {
                s.shared[idx].stream_size()
            } else {
                None
            }
        } else {
            None
        }
    }

    /// The search after the capturable that comes next was left where it is.
    pub open spec fn skipped(self, s: ProbeState) -> ProbeState {
        if s.next < self.indices.len() {
            ProbeState { next: s.next + 1, ..s }
        } else {
            s
        }
    }

    /// The search after display `i` was found to be the one that the next capturable shows.
    pub open spec fn claimed(self, s: ProbeState, i: int) -> ProbeState {
        let idx = self.indices[s.next] as int;
        let pos = self.displays[i].corner();
        ProbeState {
            next: s.next + 1,
            matched: s.matched.push(i as usize),
            shared: s.shared.update(idx, s.shared[idx].moved_to(pos)),
            streams: s.streams.update(idx, s.streams[idx].moved_to(pos)),
        }
    }

    /// The search after everything that needs no frame: a capturable without a fitting display is
    /// left where it is, one with a single fitting display is put there.
    pub open spec fn settled(self, s: ProbeState) -> ProbeState
        decreases self.indices.len() - s.next,
    {
        if s.next >= self.indices.len() || s.next < 0 {
            s
        } else {
            match self.current_size(s) {
                None => self.settled(self.skipped(s)),
                Some(size) => {
                    let count = self.free_count(s.matched, size, self.displays.len());
                    if count == 0 {
                        self.settled(self.skipped(s))
                    } else if count == 1 {
                        self.settled(self.claimed(s, self.next_free(s.matched, size, 0)))
                    } else {
                        s
                    }
                },
            }
        }
    }

    /// What is to be done once the search has come to `s`.
    pub open spec fn action_at(self, s: ProbeState) -> ProbeAction {
        if s.next < self.indices.len() {
            ProbeAction::Open { index: self.indices[s.next] }
        } else {
            ProbeAction::Finished
        }
    }
}

impl ProbeTask {
    /// Each display was found at most once, and the display that is being tried is free and has
    /// the size of the capturable that comes next.
    pub open spec fn is_sound(self, phase: ProbePhase, s: ProbeState) -> bool {
        &&& s.matched.no_duplicates()
        &&& forall|k: int|
            0 <= k < s.matched.len() ==> #[trigger] s.matched[k] < self.displays.len()
        &&& phase matches ProbePhase::Comparing { first, display } ==> {
            &&& display < self.displays.len()
            &&& self.current_size(s) matches Some(size) && self.is_free(
                s.matched,
                size,
                display as int,
            )
        }
    }

    /// The search went on from `from` without a frame and came to `s`, where `phase` and `action`
    /// fit.
    pub open spec fn went_on(
        self,
        from: ProbeState,
        s: ProbeState,
        phase: ProbePhase,
        action: ProbeAction,
    ) -> bool {
        &&& s == self.settled(from)
        &&& action == self.action_at(s)
        &&& action is Finished ==> phase is Idle
        &&& action is Open ==> phase is First
    }

    /// The search stayed at `from` to try the display `display` against `first`.
    pub open spec fn tries(
        self,
        from: ProbeState,
        first: ProbeFrame,
        display: int,
        s: ProbeState,
        phase: ProbePhase,
        action: ProbeAction,
    ) -> bool {
        &&& s == from
        &&& phase == (ProbePhase::Comparing { first, display: display as usize })
        &&& action == (ProbeAction::MoveTo { display: display as usize })
    }
}

/// Whether a frame shows the cursor in the corner where the first one did not. Frames with
/// different orders of colours cannot be compared.
pub open spec fn shows_cursor(first: ProbeFrame, frame: Option<ProbeFrame>) -> bool {
    frame matches Some(f) && f.is_bgr == first.is_bgr && corners_differ(
        first.width as int,
        first.bytes@,
        f.bytes@,
    )
}

impl CursorProbe {
    /// How far this search has come.
    pub open spec fn state(self, shared: Seq<Display>, streams: Seq<PwStreamInfo>) -> ProbeState {
        ProbeState { next: self.next as int, matched: self.matched@, shared, streams }
    }

    /// What does not change during this search.
    pub open spec fn task(self, displays: Displays, cursor_streams: usize) -> ProbeTask {
        ProbeTask {
            displays: displays.displays@,
            indices: self.indices@,
            cursor_streams: cursor_streams as int,
        }
    }
}

/// There is a free display if and only if some are counted, and then the first one is found.
proof fn lemma_next_free(task: ProbeTask, matched: Seq<usize>, size: (usize, usize), from: int)
    requires
        0 <= from <= task.displays.len(),
    ensures
        from <= task.next_free(matched, size, from) <= task.displays.len(),
        task.next_free(matched, size, from) < task.displays.len() ==> task.is_free(
            matched,
            size,
            task.next_free(matched, size, from),
        ),
        forall|i: int|
            from <= i < task.next_free(matched, size, from) ==> !#[trigger] task.is_free(
                matched,
                size,
                i,
            ),
    decreases task.displays.len() - from,
{
    if from < task.displays.len() && !task.is_free(matched, size, from) {
        lemma_next_free(task, matched, size, from + 1);
    }
}

/// Where displays are counted there is a free one.
proof fn lemma_counted_is_free(task: ProbeTask, matched: Seq<usize>, size: (usize, usize), n: nat)
    requires
        n <= task.displays.len(),
        task.free_count(matched, size, n) > 0,
    ensures
        task.next_free(matched, size, 0) < n,
    decreases n,
{
    lemma_next_free(task, matched, size, 0);
    if task.is_free(matched, size, n - 1) {
    } else {
        lemma_counted_is_free(task, matched, size, (n - 1) as nat);
    }
}

/// Whether a display was found before.
fn is_matched(matched: &Vec<usize>, i: usize) -> (r: bool)
    ensures
        r == matched@.contains(i),
{
    let mut k: usize = 0;
    while k < matched.len()
        invariant
            k <= matched@.len(),
            forall|j: int| 0 <= j < k ==> matched@[j] != i,
        decreases matched.len() - k,
    {
        if matched[k] == i {
            return true;
        }
        k += 1;
    }
    false
}

impl CursorProbe {
    /// A search that has not begun.
    pub fn new(multi_matched_indices: Vec<usize>) -> (r: CursorProbe)
        ensures
            r.indices == multi_matched_indices,
            r.next == 0,
            r.matched@ == Seq::<usize>::empty(),
            r.phase is Idle,
    {
        CursorProbe {
            indices: multi_matched_indices,
            next: 0,
            matched: Vec::new(),
            phase: ProbePhase::Idle,
        }
    }

    /// The size of the capturable that comes next.
    fn get_current_size(
        &self,
        displays: &Displays,
        cursor_streams: usize,
        shared_displays: &Vec<Display>,
        streams: &Vec<PwStreamInfo>,
    ) -> (r: Option<(usize, usize)>)
        ensures
            r == self.task(*displays, cursor_streams).current_size(
                self.state(shared_displays@, streams@),
            ),
    {
        if self.next >= self.indices.len() {
            return None;
        }
        let idx: usize = self.indices[self.next];
        if idx < shared_displays.len() && idx < streams.len() && idx < cursor_streams {
            shared_displays[idx].get_stream_size()
        } else {
            None
        }
    }

    /// Whether a display has the size and was not found before.
    fn check_free(
        &self,
        displays: &Displays,
        cursor_streams: usize,
        size: (usize, usize),
        i: usize,
    ) -> (r: bool)
        requires
            i < displays.displays@.len(),
        ensures
            r == self.task(*displays, cursor_streams).is_free(self.matched@, size, i as int),
    {
        !is_matched(&self.matched, i) && displays.displays[i].has_native_size(size)
    }

    /// Finds the first free display from `from` on.
    fn find_free(
        &self,
        displays: &Displays,
        cursor_streams: usize,
        size: (usize, usize),
        from: usize,
    ) -> (r: usize)
        requires
            from <= displays.displays@.len(),
        ensures
            r == self.task(*displays, cursor_streams).next_free(
                self.matched@,
                size,
                from as int,
            ),
            r <= displays.displays@.len(),
    {
        let mut i: usize = from;
        while i < displays.displays.len()
            invariant
                i <= displays.displays@.len(),
                self.task(*displays, cursor_streams).next_free(self.matched@, size, from as int)
                    == self.task(*displays, cursor_streams).next_free(
                    self.matched@,
                    size,
                    i as int,
                ),
            decreases displays.displays.len() - i,
        {
            if self.check_free(displays, cursor_streams, size, i) {
                return i;
            }
            i += 1;
        }
        i
    }

    /// Counts the free displays.
    fn count_free(&self, displays: &Displays, cursor_streams: usize, size: (usize, usize)) -> (r:
        usize)
        ensures
            r == self.task(*displays, cursor_streams).free_count(
                self.matched@,
                size,
                displays.displays@.len(),
            ),
    {
        let mut count: usize = 0;
        let mut i: usize = 0;
        while i < displays.displays.len()
            invariant
                i <= displays.displays@.len(),
                count <= i,
                count == self.task(*displays, cursor_streams).free_count(
                    self.matched@,
                    size,
                    i as nat,
                ),
            decreases displays.displays.len() - i,
        {
            if self.check_free(displays, cursor_streams, size, i) {
                count += 1;
            }
            i += 1;
        }
        count
    }

    /// Puts the capturable that comes next onto a display.
    fn claim(
        &mut self,
        displays: &Displays,
        cursor_streams: usize,
        shared_displays: &mut Vec<Display>,
        streams: &mut Vec<PwStreamInfo>,
        i: usize,
    )
        requires
            i < displays.displays@.len(),
            old(self).task(*displays, cursor_streams).current_size(
                old(self).state(old(shared_displays)@, old(streams)@),
            ) is Some,
        ensures
            final(self).indices == old(self).indices,
            final(self).phase == old(self).phase,
            final(self).state(final(shared_displays)@, final(streams)@) == old(self).task(
                *displays,
                cursor_streams,
            ).claimed(old(self).state(old(shared_displays)@, old(streams)@), i as int),
    {
        assert(self.next < self.indices.len());
        let idx: usize = self.indices[self.next];
        let d = &displays.displays[i];
        place_at(shared_displays, streams, idx, (d.x, d.y));
        self.matched.push(i);
        self.next += 1;
    }

    /// Does everything that needs no frame, and tells what to do next.
    pub fn advance(
        &mut self,
        displays: &Displays,
        cursor_streams: usize,
        shared_displays: &mut Vec<Display>,
        streams: &mut Vec<PwStreamInfo>,
    ) -> (r: ProbeAction)
        ensures
            final(self).indices == old(self).indices,
            old(self).task(*displays, cursor_streams).went_on(
                old(self).state(old(shared_displays)@, old(streams)@),
                final(self).state(final(shared_displays)@, final(streams)@),
                final(self).phase,
                r,
            ),
    {
        let ghost task = self.task(*displays, cursor_streams);
        let ghost end = task.settled(self.state(shared_displays@, streams@));
        while self.next < self.indices.len()
            invariant
                self.indices == old(self).indices,
                task == self.task(*displays, cursor_streams),
                task == old(self).task(*displays, cursor_streams),
                end == task.settled(old(self).state(old(shared_displays)@, old(streams)@)),
                end == task.settled(self.state(shared_displays@, streams@)),
            decreases self.indices.len() - self.next,
        {
            let ghost here = self.state(shared_displays@, streams@);
            match self.get_current_size(displays, cursor_streams, shared_displays, streams) {
                Some(size) => {
                    let count: usize = self.count_free(displays, cursor_streams, size);
                    if count == 0 {
                        self.next += 1;
                        assert(self.state(shared_displays@, streams@) =~= task.skipped(here));
                    } else if count == 1 {
                        let i: usize = self.find_free(displays, cursor_streams, size, 0);
                        proof {
                            lemma_counted_is_free(
                                task,
                                self.matched@,
                                size,
                                displays.displays@.len(),
                            );
                        }
                        self.claim(displays, cursor_streams, shared_displays, streams, i);
                    } else {
                        self.phase = ProbePhase::First;
                        return ProbeAction::Open { index: self.indices[self.next] };
                    }
                },
                None => {
                    self.next += 1;
                    assert(self.state(shared_displays@, streams@) =~= task.skipped(here));
                },
            }
        }
        self.phase = ProbePhase::Idle;
        ProbeAction::Finished
    }

    /// Leaves the capturable that comes next where it is, and goes on.
    fn skip(
        &mut self,
        displays: &Displays,
        cursor_streams: usize,
        shared_displays: &mut Vec<Display>,
        streams: &mut Vec<PwStreamInfo>,
    ) -> (r: ProbeAction)
        ensures
            final(self).indices == old(self).indices,
            ({
                let task = old(self).task(*displays, cursor_streams);
                task.went_on(
                    task.skipped(old(self).state(old(shared_displays)@, old(streams)@)),
                    final(self).state(final(shared_displays)@, final(streams)@),
                    final(self).phase,
                    r,
                )
            }),
    {
        let ghost here = self.state(shared_displays@, streams@);
        if self.next < self.indices.len() {
            self.next += 1;
        }
        assert(self.state(shared_displays@, streams@) =~= self.task(
            *displays,
            cursor_streams,
        ).skipped(here));
        self.advance(displays, cursor_streams, shared_displays, streams)
    }

    /// Takes in the first frame of the capturable that comes next, and tells what to do next.
    /// Without a frame it is left where it is.
    pub fn first_frame(
        &mut self,
        frame: Option<ProbeFrame>,
        displays: &Displays,
        cursor_streams: usize,
        shared_displays: &mut Vec<Display>,
        streams: &mut Vec<PwStreamInfo>,
    ) -> (r: ProbeAction)
        ensures
            final(self).indices == old(self).indices,
            ({
                let task = old(self).task(*displays, cursor_streams);
                let from = old(self).state(old(shared_displays)@, old(streams)@);
                let s = final(self).state(final(shared_displays)@, final(streams)@);
                match (frame, task.current_size(from)) {
                    (Some(f), Some(size)) => {
                        let i = task.next_free(from.matched, size, 0);
                        if i < task.displays.len() {
                            task.tries(from, f, i, s, final(self).phase, r)
                        } else {
                            task.went_on(task.skipped(from), s, final(self).phase, r)
                        }
                    },
                    _ => task.went_on(task.skipped(from), s, final(self).phase, r),
                }
            }),
    {
        let size = self.get_current_size(displays, cursor_streams, shared_displays, streams);
        match (frame, size) {
            (Some(first), Some(size)) => {
                let i: usize = self.find_free(displays, cursor_streams, size, 0);
                if i < displays.displays.len() {
                    self.phase = ProbePhase::Comparing { first, display: i };
                    return ProbeAction::MoveTo { display: i };
                }
            },
            _ => {},
        }
        self.skip(displays, cursor_streams, shared_displays, streams)
    }

    /// Takes in the frame with the cursor on a display, and tells what to do next. If the corner
    /// changed, the display is found; if not, the next free display is tried, and after the last
    /// one the capturable is left where it is.
    pub fn next_frame(
        &mut self,
        frame: Option<ProbeFrame>,
        displays: &Displays,
        cursor_streams: usize,
        shared_displays: &mut Vec<Display>,
        streams: &mut Vec<PwStreamInfo>,
    ) -> (r: ProbeAction)
        ensures
            final(self).indices == old(self).indices,
            ({
                let task = old(self).task(*displays, cursor_streams);
                let from = old(self).state(old(shared_displays)@, old(streams)@);
                let s = final(self).state(final(shared_displays)@, final(streams)@);
                match (old(self).phase, task.current_size(from)) {
                    (ProbePhase::Comparing { first, display }, Some(size)) => {
                        let i = task.next_free(from.matched, size, display + 1);
                        if shows_cursor(first, frame) && display < task.displays.len() {
                            task.went_on(
                                task.claimed(from, display as int),
                                s,
                                final(self).phase,
                                r,
                            )
                        } else if i < task.displays.len() {
                            task.tries(from, first, i, s, final(self).phase, r)
                        } else {
                            task.went_on(task.skipped(from), s, final(self).phase, r)
                        }
                    },
                    _ => task.went_on(task.skipped(from), s, final(self).phase, r),
                }
            }),
    {
        let size = self.get_current_size(displays, cursor_streams, shared_displays, streams);
        let mut found: Option<usize> = None;
        let mut following: usize = displays.displays.len();
        match (&self.phase, size) {
            (ProbePhase::Comparing { first, display }, Some(size)) => {
                if *display < displays.displays.len() {
                    let hit = match &frame {
                        Some(f) => f.is_bgr == first.is_bgr && compare_left_up_corner(
                            first.width,
                            first.bytes.as_slice(),
                            f.bytes.as_slice(),
                        ),
                        None => false,
                    };
                    if hit {
                        found = Some(*display);
                    } else {
                        following = self.find_free(displays, cursor_streams, size, *display + 1);
                    }
                }
            },
            _ => {},
        }
        match found {
            Some(i) => {
                self.claim(displays, cursor_streams, shared_displays, streams, i);
                self.advance(displays, cursor_streams, shared_displays, streams)
            },
            None => {
                if following < displays.displays.len() {
                    match &mut self.phase {
                        ProbePhase::Comparing { first: _, display } => {
                            *display = following;
                        },
                        _ => {},
                    }
                    ProbeAction::MoveTo { display: following }
                } else {
                    self.skip(displays, cursor_streams, shared_displays, streams)
                }
            },
        }
    }
}

impl ProbeFrame {
    /// The frame of a capture, where it brought one.
    pub fn from_capture(r: &Result<PixelProvider<'_>, GStreamerError>) -> (f: Option<ProbeFrame>)
        ensures
            match *r {
                Ok(PixelProvider::BGR0(w, _, b)) => f matches Some(p) && p.is_bgr && p.width == w
                    && p.bytes@ == b@,
                Ok(PixelProvider::RGB0(w, _, b)) => f matches Some(p) && !p.is_bgr && p.width == w
                    && p.bytes@ == b@,
                _ => f is None,
            },
    {
        match r {
            Ok(PixelProvider::BGR0(w, _, b)) => {
                let mut bytes: Vec<u8> = Vec::new();
                bytes.extend_from_slice(b);
                assert(bytes@ =~= b@);
                Some(ProbeFrame { is_bgr: true, width: *w, bytes })
            },
            Ok(PixelProvider::RGB0(w, _, b)) => {
                let mut bytes: Vec<u8> = Vec::new();
                bytes.extend_from_slice(b);
                assert(bytes@ =~= b@);
                Some(ProbeFrame { is_bgr: false, width: *w, bytes })
            },
            _ => None,
        }
    }
}

/// Where the cursor is put to try a display: a little inside its corner.
pub fn probe_point(d: &DisplayInfo) -> (r: (i32, i32))
    requires
        d.x + CURSOR_INSET <= i32::MAX,
        d.y + CURSOR_INSET <= i32::MAX,
    ensures
        r.0 == d.x + CURSOR_INSET,
        r.1 == d.y + CURSOR_INSET,
        r == ((d.x + 8) as i32, (d.y + 8) as i32),
{
    (d.x + CURSOR_INSET, d.y + CURSOR_INSET)
}

/// How long, in nanoseconds, moving the cursor is tried.
pub const MOVE_TIMEOUT_NANOS: u128 = 150_000_000;

/// Whether moving the cursor is tried once more after this many nanoseconds.
pub fn keeps_moving(elapsed_nanos: u128) -> (r: bool)
    ensures
        r == (elapsed_nanos < MOVE_TIMEOUT_NANOS),
        r == (elapsed_nanos < 150_000_000),
{
    elapsed_nanos < MOVE_TIMEOUT_NANOS
}

/// Whether the cursor has arrived.
pub fn has_arrived(cursor: Option<(i32, i32)>, target: (i32, i32)) -> (r: bool)
    ensures
        r == (cursor == Some(target)),
{
    match cursor {
        Some(at) => at.0 == target.0 && at.1 == target.1,
        None => false,
    }
}

/// A found display was free and has the size of the capturable, and the capturable and its stream
/// stand there afterwards.
pub proof fn law_found_display_fits(task: ProbeTask, s: ProbeState, size: (usize, usize), i: int)
    requires
        task.current_size(s) == Some(size),
        0 <= i < task.displays.len(),
        task.is_free(s.matched, size, i),
    ensures
        ({
            let idx = task.indices[s.next] as int;
            let after = task.claimed(s, i);
            &&& task.displays[i].native_size() == size
            &&& after.shared[idx].stream_size() == Some(size)
            &&& after.shared[idx].stream_position() == Some(task.displays[i].corner())
            &&& after.streams[idx].position == task.displays[i].corner()
        }),
{
}

/// Claiming a free display keeps the search sound.
proof fn lemma_claim_is_sound(task: ProbeTask, s: ProbeState, size: (usize, usize), i: int)
    requires
        task.is_sound(ProbePhase::Idle, s),
        task.displays.len() <= usize::MAX,
        0 <= i < task.displays.len(),
        task.is_free(s.matched, size, i),
    ensures
        task.is_sound(ProbePhase::Idle, task.claimed(s, i)),
{
    let m = s.matched.push(i as usize);
    assert forall|a: int, b: int| 0 <= a < m.len() && 0 <= b < m.len() && a != b implies m[a]
        != m[b] by {
        if a == s.matched.len() {
            assert(s.matched.contains(s.matched[b]));
        } else if b == s.matched.len() {
            assert(s.matched.contains(s.matched[a]));
        }
    }
}

/// Going on without a frame keeps the search sound, never goes back, and finds displays only in
/// addition.
pub proof fn law_going_on_is_sound(task: ProbeTask, s: ProbeState)
    requires
        task.is_sound(ProbePhase::Idle, s),
        task.displays.len() <= usize::MAX,
        0 <= s.next,
    ensures
        task.is_sound(ProbePhase::Idle, task.settled(s)),
        task.settled(s).next >= s.next,
        s.matched.is_prefix_of(task.settled(s).matched),
    decreases task.indices.len() - s.next,
{
    if s.next < task.indices.len() {
        match task.current_size(s) {
            None => {
                law_going_on_is_sound(task, task.skipped(s));
            },
            Some(size) => {
                let count = task.free_count(s.matched, size, task.displays.len());
                if count == 0 {
                    law_going_on_is_sound(task, task.skipped(s));
                } else if count == 1 {
                    let i = task.next_free(s.matched, size, 0);
                    lemma_counted_is_free(task, s.matched, size, task.displays.len());
                    lemma_next_free(task, s.matched, size, 0);
                    lemma_claim_is_sound(task, s, size, i);
                    law_going_on_is_sound(task, task.claimed(s, i));
                    assert(s.matched.is_prefix_of(s.matched.push(i as usize)));
                }
            },
        }
    }
}

/// The search starts sound, and every step keeps it so: no display is found twice, whatever the
/// frames show. The steps are trying the next free display, leaving the capturable where it is, and finding
/// the display that is tried.
pub proof fn law_displays_are_found_once(
    task: ProbeTask,
    phase: ProbePhase,
    s: ProbeState,
    first: ProbeFrame,
    from: int,
)
    requires
        task.is_sound(phase, s),
        task.displays.len() <= usize::MAX,
        0 <= s.next,
        0 <= from <= task.displays.len(),
    ensures
        task.is_sound(ProbePhase::Idle, ProbeState { next: 0, matched: Seq::empty(), ..s }),
        task.is_sound(ProbePhase::Idle, task.settled(task.skipped(s))),
        task.is_sound(ProbePhase::First, task.settled(task.skipped(s))),
        phase matches ProbePhase::Comparing { first: _, display } ==> {
            let after = task.settled(task.claimed(s, display as int));
            task.is_sound(ProbePhase::Idle, after) && task.is_sound(ProbePhase::First, after)
        },
        task.current_size(s) matches Some(size) ==> {
            let i = task.next_free(s.matched, size, from);
            i < task.displays.len() ==> task.is_sound(
                ProbePhase::Comparing { first, display: i as usize },
                s,
            )
        },
{
    assert(task.is_sound(ProbePhase::Idle, s));
    assert(task.is_sound(ProbePhase::Idle, task.skipped(s)));
    law_going_on_is_sound(task, task.skipped(s));
    if let ProbePhase::Comparing { first: _, display } = phase {
        let size = task.current_size(s)->0;
        lemma_claim_is_sound(task, s, size, display as int);
        law_going_on_is_sound(task, task.claimed(s, display as int));
    }
    if let Some(size) = task.current_size(s) {
        lemma_next_free(task, s.matched, size, from);
    }
}

/// Two lists of shared displays that differ in positions only.
pub open spec fn same_but_positions(a: Seq<Display>, b: Seq<Display>) -> bool {
    &&& a.len() == b.len()
    &&& forall|i: int|
        0 <= i < a.len() ==> (#[trigger] a[i]).moved_to((0, 0)) == (#[trigger] b[i]).moved_to(
            (0, 0),
        )
}

/// Being put onto a display changes nothing of the shared displays but a position.
proof fn lemma_claim_changes_a_position(task: ProbeTask, s: ProbeState, i: int)
    requires
        task.current_size(s) is Some,
    ensures
        same_but_positions(s.shared, task.claimed(s, i).shared),
        s.streams.len() == task.claimed(s, i).streams.len(),
        in_step(s.shared, s.streams) ==> in_step(
            task.claimed(s, i).shared,
            task.claimed(s, i).streams,
        ),
{
    let after = task.claimed(s, i);
    let idx = task.indices[s.next] as int;
    if in_step(s.shared, s.streams) {
        assert forall|k: int| 0 <= k < after.shared.len() && (#[trigger] after.shared[k]) is WAYLAND
            implies after.shared[k].stream_position() == Some(after.streams[k].position) by {
            if k != idx {
                assert(s.shared[k] is WAYLAND);
            }
        }
    }
}

/// Going on without a frame changes nothing of the shared displays but positions, and keeps them in
/// step with their streams.
proof fn lemma_settling_changes_positions(task: ProbeTask, s: ProbeState)
    ensures
        same_but_positions(s.shared, task.settled(s).shared),
        s.streams.len() == task.settled(s).streams.len(),
        in_step(s.shared, s.streams) ==> in_step(task.settled(s).shared, task.settled(s).streams),
    decreases task.indices.len() - s.next,
{
    if 0 <= s.next < task.indices.len() {
        match task.current_size(s) {
            None => {
                lemma_settling_changes_positions(task, task.skipped(s));
            },
            Some(size) => {
                let count = task.free_count(s.matched, size, task.displays.len());
                if count == 0 {
                    lemma_settling_changes_positions(task, task.skipped(s));
                } else if count == 1 {
                    let i = task.next_free(s.matched, size, 0);
                    let after = task.claimed(s, i);
                    lemma_claim_changes_a_position(task, s, i);
                    lemma_settling_changes_positions(task, after);
                    lemma_same_but_positions(s.shared, after.shared, task.settled(s).shared);
                }
            },
        }
    }
}

/// Changes of positions add up to changes of positions.
proof fn lemma_same_but_positions(a: Seq<Display>, b: Seq<Display>, c: Seq<Display>)
    requires
        same_but_positions(a, b),
        same_but_positions(b, c),
    ensures
        same_but_positions(a, c),
{
    assert forall|i: int| 0 <= i < a.len() implies (#[trigger] a[i]).moved_to((0, 0)) == (
    #[trigger] c[i]).moved_to((0, 0)) by {
        assert(b[i].moved_to((0, 0)) == c[i].moved_to((0, 0)));
    }
}

/// Whatever the frames show, the search changes nothing of the shared displays but positions, and
/// keeps them in step with their streams. The steps are going on from the start, leaving the
/// capturable that comes next where it is, and putting it onto a display.
pub proof fn law_search_changes_positions_only(task: ProbeTask, s: ProbeState, i: int)
    ensures
        ({
            let after = task.settled(s);
            &&& same_but_positions(s.shared, after.shared)
            &&& s.streams.len() == after.streams.len()
            &&& in_step(s.shared, s.streams) ==> in_step(after.shared, after.streams)
        }),
        ({
            let after = task.settled(task.skipped(s));
            &&& same_but_positions(s.shared, after.shared)
            &&& s.streams.len() == after.streams.len()
            &&& in_step(s.shared, s.streams) ==> in_step(after.shared, after.streams)
        }),
        task.current_size(s) is Some ==> {
            let after = task.settled(task.claimed(s, i));
            &&& same_but_positions(s.shared, after.shared)
            &&& s.streams.len() == after.streams.len()
            &&& in_step(s.shared, s.streams) ==> in_step(after.shared, after.streams)
        },
{
    lemma_settling_changes_positions(task, s);
    lemma_settling_changes_positions(task, task.skipped(s));
    if task.current_size(s) is Some {
        let claimed = task.claimed(s, i);
        lemma_claim_changes_a_position(task, s, i);
        lemma_settling_changes_positions(task, claimed);
        lemma_same_but_positions(s.shared, claimed.shared, task.settled(claimed).shared);
    }
}

/// The search ends: trying the next display comes nearer to the last display, and leaving a
/// capturable where it is or putting it onto a display comes nearer to the last capturable.
pub proof fn law_search_ends(
    task: ProbeTask,
    s: ProbeState,
    size: (usize, usize),
    display: int,
)
    requires
        task.is_sound(ProbePhase::Idle, s),
        task.displays.len() <= usize::MAX,
        task.current_size(s) == Some(size),
        0 <= display < task.displays.len(),
        task.is_free(s.matched, size, display),
    ensures
        display < task.next_free(s.matched, size, display + 1) <= task.displays.len(),
        s.next < task.settled(task.skipped(s)).next,
        s.next < task.settled(task.claimed(s, display)).next,
{
    lemma_next_free(task, s.matched, size, display + 1);
    law_going_on_is_sound(task, task.skipped(s));
    lemma_claim_is_sound(task, s, size, display);
    law_going_on_is_sound(task, task.claimed(s, display));
}

/// The capturable that comes next: the shared display and the stream with the index that is next
/// among the open ones, where the cursor can be shown.
pub open spec fn comes_next(
    task: ProbeTask,
    s: ProbeState,
    idx: int,
    c: PipeWireCapturable,
) -> bool {
    &&& 0 <= s.next < task.indices.len()
    &&& idx == task.indices[s.next]
    &&& idx < s.shared.len()
    &&& idx < s.streams.len()
    &&& idx < task.cursor_streams
    &&& s.shared[idx] == Display::WAYLAND(c)
}

/// Whether a display has the physical size of the capturable and was not found before.
pub open spec fn may_show(
    displays: Seq<DisplayInfo>,
    matched: Seq<usize>,
    c: PipeWireCapturable,
    k: int,
) -> bool {
    &&& !matched.contains(k as usize)
    &&& displays[k].width as usize == c.physical_size.0
    &&& displays[k].height as usize == c.physical_size.1
}

/// The search looks for displays with the size of the capturable.
proof fn lemma_free_displays(
    task: ProbeTask,
    s: ProbeState,
    idx: int,
    c: PipeWireCapturable,
)
    requires
        comes_next(task, s, idx, c),
    ensures
        task.current_size(s) == Some(c.physical_size),
        forall|k: int|
            0 <= k < task.displays.len() ==> #[trigger] task.is_free(s.matched, c.physical_size, k)
                == may_show(task.displays, s.matched, c, k),
{
    assert forall|k: int| 0 <= k < task.displays.len() implies #[trigger] task.is_free(
        s.matched,
        c.physical_size,
        k,
    ) == may_show(task.displays, s.matched, c, k) by {
        law_sizes_turn_with_the_panel(task.displays[k]);
    }
}

/// A free display counts, in addition to those before it.
proof fn lemma_free_display_counts(
    task: ProbeTask,
    matched: Seq<usize>,
    size: (usize, usize),
    n: nat,
    i: int,
)
    requires
        0 <= i < n,
        task.is_free(matched, size, i),
    ensures
        task.free_count(matched, size, n) >= task.free_count(matched, size, i as nat) + 1,
    decreases n,
{
    if i < n - 1 {
        lemma_free_display_counts(task, matched, size, (n - 1) as nat, i);
    }
}

/// Only free displays count.
proof fn lemma_others_do_not_count(
    task: ProbeTask,
    matched: Seq<usize>,
    size: (usize, usize),
    n: nat,
    i: int,
)
    requires
        forall|k: int| 0 <= k < n && k != i ==> !#[trigger] task.is_free(matched, size, k),
    ensures
        task.free_count(matched, size, n) == if 0 <= i < n && task.is_free(matched, size, i) {
            1nat
        } else {
            0nat
        },
    decreases n,
{
    if n > 0 {
        lemma_others_do_not_count(task, matched, size, (n - 1) as nat, i);
    }
}

/// A capturable is left where it is, and the next one taken up, if no display that was not found
/// before has its size.
pub proof fn law_stream_without_display_is_left(
    task: ProbeTask,
    s: ProbeState,
    idx: int,
    c: PipeWireCapturable,
)
    requires
        comes_next(task, s, idx, c),
        forall|k: int|
            0 <= k < task.displays.len() ==> !#[trigger] may_show(
                task.displays,
                s.matched,
                c,
                k,
            ),
    ensures
        task.settled(s) == task.settled(ProbeState { next: s.next + 1, ..s }),
{
    lemma_free_displays(task, s, idx, c);
    let size = c.physical_size;
    assert forall|k: int| 0 <= k < task.displays.len() && k != -1 implies !#[trigger] task.is_free(
        s.matched,
        size,
        k,
    ) by {
        assert(!may_show(task.displays, s.matched, c, k));
    }
    lemma_others_do_not_count(task, s.matched, size, task.displays.len(), -1);
}

/// If just one display that was not found before has the size of the capturable, the capturable and
/// its stream are put at the corner of that display, nothing else of them changes, the display is
/// found, and the next capturable is taken up.
pub proof fn law_only_free_display_is_taken(
    task: ProbeTask,
    s: ProbeState,
    idx: int,
    c: PipeWireCapturable,
    i: int,
)
    requires
        comes_next(task, s, idx, c),
        0 <= i < task.displays.len(),
        may_show(task.displays, s.matched, c, i),
        forall|k: int|
            0 <= k < task.displays.len() && k != i ==> !#[trigger] may_show(
                task.displays,
                s.matched,
                c,
                k,
            ),
    ensures
        task.settled(s) == task.settled(
            ProbeState {
                next: s.next + 1,
                matched: s.matched.push(i as usize),
                shared: s.shared.update(
                    idx,
                    Display::WAYLAND(
                        PipeWireCapturable {
                            position: (task.displays[i].x, task.displays[i].y),
                            ..c
                        },
                    ),
                ),
                streams: s.streams.update(
                    idx,
                    PwStreamInfo {
                        position: (task.displays[i].x, task.displays[i].y),
                        ..s.streams[idx]
                    },
                ),
            },
        ),
{
    lemma_free_displays(task, s, idx, c);
    let size = c.physical_size;
    assert(task.is_free(s.matched, size, i));
    assert forall|k: int| 0 <= k < task.displays.len() && k != i implies !#[trigger] task.is_free(
        s.matched,
        size,
        k,
    ) by {
        assert(!may_show(task.displays, s.matched, c, k));
    }
    lemma_others_do_not_count(task, s.matched, size, task.displays.len(), i);
    lemma_counted_is_free(task, s.matched, size, task.displays.len());
    lemma_next_free(task, s.matched, size, 0);
}

/// If two displays that were not found before have the size of the capturable, nothing is decided
/// without frames.
pub proof fn law_two_free_displays_need_frames(
    task: ProbeTask,
    s: ProbeState,
    idx: int,
    c: PipeWireCapturable,
    i: int,
    j: int,
)
    requires
        comes_next(task, s, idx, c),
        0 <= i < j < task.displays.len(),
        may_show(task.displays, s.matched, c, i),
        may_show(task.displays, s.matched, c, j),
    ensures
        task.settled(s) == s,
{
    lemma_free_displays(task, s, idx, c);
    let size = c.physical_size;
    assert(task.is_free(s.matched, size, i));
    assert(task.is_free(s.matched, size, j));
    lemma_free_display_counts(task, s.matched, size, task.displays.len(), j);
    lemma_free_display_counts(task, s.matched, size, j as nat, i);
}

/// What is no captured stream, or is not among the streams or those with the cursor, is left where it
/// is. Behind the last capturable nothing is left to do.
pub proof fn law_other_displays_are_left(task: ProbeTask, s: ProbeState)
    requires
        0 <= s.next,
    ensures
        s.next < task.indices.len() && (task.indices[s.next] >= s.shared.len()
            || task.indices[s.next] >= s.streams.len() || task.indices[s.next]
            >= task.cursor_streams || s.shared[task.indices[s.next] as int] is X11)
            ==> task.settled(s) == task.settled(ProbeState { next: s.next + 1, ..s }),
        s.next >= task.indices.len() ==> task.settled(s) == s,
{
}

/// The displays are tried in order: from `from` on, the first one comes that has the size of the
/// capturable and was not found before. `k` is its index, or the number of displays.
pub proof fn law_displays_are_tried_in_order(
    task: ProbeTask,
    s: ProbeState,
    idx: int,
    c: PipeWireCapturable,
    from: int,
    k: int,
)
    requires
        comes_next(task, s, idx, c),
        0 <= from <= k <= task.displays.len(),
        k < task.displays.len() ==> may_show(task.displays, s.matched, c, k),
        forall|i: int| from <= i < k ==> !#[trigger] may_show(task.displays, s.matched, c, i),
    ensures
        task.current_size(s) == Some(c.physical_size),
        task.next_free(s.matched, c.physical_size, from) == k,
{
    lemma_free_displays(task, s, idx, c);
    let size = c.physical_size;
    lemma_next_free(task, s.matched, size, from);
    let found = task.next_free(s.matched, size, from);
    if found < k {
        assert(!may_show(task.displays, s.matched, c, found));
    }
    if k < found {
        assert(!task.is_free(s.matched, size, k));
    }
}

/// A capturable whose display was found by the cursor is put at the corner of that display, its
/// stream too, and nothing else changes. One that was given up is passed over.
pub proof fn law_found_display_takes_the_stream(
    task: ProbeTask,
    s: ProbeState,
    idx: int,
    c: PipeWireCapturable,
    i: int,
)
    requires
        comes_next(task, s, idx, c),
        0 <= i < task.displays.len(),
    ensures
        task.claimed(s, i) == (ProbeState {
            next: s.next + 1,
            matched: s.matched.push(i as usize),
            shared: s.shared.update(
                idx,
                Display::WAYLAND(
                    PipeWireCapturable {
                        position: (task.displays[i].x, task.displays[i].y),
                        ..c
                    },
                ),
            ),
            streams: s.streams.update(
                idx,
                PwStreamInfo {
                    position: (task.displays[i].x, task.displays[i].y),
                    ..s.streams[idx]
                },
            ),
        }),
        task.skipped(s) == (ProbeState { next: s.next + 1, ..s }),
{
    law_sizes_turn_with_the_panel(task.displays[i]);
}

/// The cursor shows where the corner of a frame with the same order of colours differs from that of
/// the first frame, and never without a frame.
pub proof fn law_cursor_shows_in_the_corner(first: ProbeFrame, second: ProbeFrame)
    ensures
        !shows_cursor(first, None),
        second.is_bgr != first.is_bgr ==> !shows_cursor(first, Some(second)),
        second.is_bgr == first.is_bgr ==> shows_cursor(first, Some(second)) == corners_differ(
            first.width as int,
            first.bytes@,
            second.bytes@,
        ),
{
}

/// The search goes on with the capturable that comes next, whose first frame is then awaited, and is
/// finished behind the last one.
pub proof fn law_search_opens_what_comes_next(
    task: ProbeTask,
    from: ProbeState,
    s: ProbeState,
    phase: ProbePhase,
    action: ProbeAction,
)
    requires
        task.went_on(from, s, phase, action),
    ensures
        s == task.settled(from),
        s.next < task.indices.len() ==> action == (ProbeAction::Open {
            index: task.indices[s.next],
        }) && phase is First,
        s.next >= task.indices.len() ==> action is Finished && phase is Idle,
{
}

/// Trying a display decides nothing yet: the search stays where it is, the cursor is moved onto the
/// display, and the first frame is kept to be compared. Behind the last capturable nothing is left to
/// pass over.
pub proof fn law_trying_decides_nothing(
    task: ProbeTask,
    from: ProbeState,
    first: ProbeFrame,
    display: usize,
    s: ProbeState,
    phase: ProbePhase,
    action: ProbeAction,
)
    ensures
        task.tries(from, first, display as int, s, phase, action) <==> s == from && phase == (
        ProbePhase::Comparing { first, display }) && action == (ProbeAction::MoveTo { display }),
        s.next >= task.indices.len() ==> task.skipped(s) == s,
{
}

} // verus!
