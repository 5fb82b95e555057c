//! Giving the shared displays their positions and their order.

use vstd::prelude::*;

use crate::capturable::{Display, PipeWireCapturable, PwStreamInfo};
use crate::display::{DisplayInfo, Displays};
use crate::handshake::HandshakeView;
use crate::offsets::{
    displays_key, save_positions_to_cache, stored_offsets, try_fill_positions_from_cache, OffsetsView,
    PipewireDisplayOffsetCache,
};
use crate::positions::{
    all_put, all_streams_put, ambiguous_below, in_step, match_positions, places_by_size,
};
use crate::session::{CaptureState, OpenEvent, RdpSessionInfo};
use crate::sort::{
    display_order, law_main_display_comes_first, law_sorting_keeps_in_step,
    law_sorting_keeps_streams, sort_streams, sorted_displays, sorted_streams,
};

verus! {

/// What is stored of the positions.
#[derive(Debug)]
pub enum StoredOffsets {
    /// Nothing.
    Absent,
    /// Something that cannot be read.
    Unreadable,
    Stored(PipewireDisplayOffsetCache),
}

/// How the positions were found.
#[derive(Debug)]
pub enum Filled {
    /// They were stored.
    FromCache,
    /// By size. Several displays fit the shared displays with these indices. What is stored, if
    /// anything, does not count and is to be discarded.
    BySize { ambiguous: Vec<usize>, discard_stored: bool },
}

impl StoredOffsets {
    /// The stored positions, if they count.
    pub open spec fn usable(
        self,
        displays: Seq<DisplayInfo>,
        restore_token: Seq<char>,
        shared: nat,
    ) -> Option<OffsetsView> {
        match self {
            StoredOffsets::Stored(c) => if c@.applies(displays, restore_token, shared) {
                Some(c@)
            } else {
                None
            },
            _ => None,
        }
    }
}

/// Gives the shared displays and their streams their positions: the stored ones if they count, or
/// else those of the displays of the same size.
pub fn try_fill_positions(
    stored: &StoredOffsets,
    displays: &Displays,
    restore_token: &str,
    shared_displays: &mut Vec<Display>,
    streams: &mut Vec<PwStreamInfo>,
) -> (r: Filled)
    ensures
        match stored.usable(displays.displays@, restore_token@, old(shared_displays)@.len()) {
            Some(c) => {
                let places = c.places(old(shared_displays)@);
                &&& r is FromCache
                &&& final(shared_displays)@ == all_put(old(shared_displays)@, places)
                &&& final(streams)@ == all_streams_put(old(streams)@, places)
            },
            None => {
                let places = places_by_size(displays.displays@, old(shared_displays)@);
                &&& r matches Filled::BySize { ambiguous, discard_stored } && ambiguous@
                    == ambiguous_below(
                    displays.displays@,
                    old(shared_displays)@,
                    old(shared_displays)@.len(),
                ) && discard_stored == !(stored is Absent)
                &&& final(shared_displays)@ == all_put(old(shared_displays)@, places)
                &&& final(streams)@ == all_streams_put(old(streams)@, places)
            },
        },
{
    let cache: Option<&PipewireDisplayOffsetCache> = match stored {
        StoredOffsets::Stored(c) => Some(c),
        _ => None,
    };
    if try_fill_positions_from_cache(cache, displays, restore_token, shared_displays, streams) {
        return Filled::FromCache;
    }
    let ambiguous = match_positions(displays, shared_displays, streams);
    let discard_stored = match stored {
        StoredOffsets::Absent => false,
        _ => true,
    };
    Filled::BySize { ambiguous, discard_stored }
}

/// The cursor mode in which the cursor is part of the picture.
pub const EMBEDDED_CURSOR: u32 = 2;

/// Whether a set of cursor modes has the one in which the cursor is part of the picture.
pub open spec fn has_embedded_cursor(modes: u32) -> bool {
    (modes / 2) % 2 == 1
}

/// Whether the portal can make the cursor part of the picture. `modes` is `None` where it could
/// not be asked.
pub fn supports_embedded_cursor(modes: Option<u32>) -> (r: bool)
    ensures
        r == (modes matches Some(m) && has_embedded_cursor(m)),
{
    match modes {
        Some(m) => {
            assert((m & 2u32 != 0) == ((m / 2u32) % 2u32 == 1u32)) by (bit_vector);
            m & EMBEDDED_CURSOR != 0
        },
        None => false,
    }
}

/// Whether the open places of shared displays are looked for with the cursor: if there are any,
/// and if the portal can make the cursor part of the picture.
pub fn fill_multi_matched_positions(multi_matched_indices: &Vec<usize>, modes: Option<u32>) -> (r:
    bool)
    ensures
        r == (multi_matched_indices@.len() > 0 && (modes matches Some(m) && has_embedded_cursor(m))),
{
    !multi_matched_indices.is_empty() && supports_embedded_cursor(modes)
}

/// The search with the cursor.
#[derive(Debug)]
pub enum Search {
    /// It was not made.
    Pending,
    /// It came to its end.
    Finished,
    /// It failed, for this reason.
    Failed(String),
}

/// What follows once the shared displays have their positions.
#[derive(Debug)]
pub enum FillAction {
    /// Nothing.
    Done,
    /// Look for the places of the shared displays with these indices with the cursor.
    Search(Vec<usize>),
    /// Give up, for this reason.
    Fail(String),
    /// Store the positions, where there is something to store.
    Save(Option<PipewireDisplayOffsetCache>),
}

/// What follows, as plain values.
pub enum FillView {
    Done,
    Search(Seq<usize>),
    Fail(Seq<char>),
    Save(Option<OffsetsView>),
}

impl View for FillAction {
    type V = FillView;

    open spec fn view(&self) -> FillView {
        match *self {
            FillAction::Done => FillView::Done,
            FillAction::Search(v) => FillView::Search(v@),
            FillAction::Fail(text) => FillView::Fail(text@),
            FillAction::Save(Some(c)) => FillView::Save(Some(c@)),
            FillAction::Save(None) => FillView::Save(None),
        }
    }
}

impl Filled {
    /// The shared displays that several displays fit.
    pub open spec fn open_places(self) -> Seq<usize> {
        match self {
            Filled::FromCache => Seq::empty(),
            Filled::BySize { ambiguous, discard_stored } => ambiguous@,
        }
    }

    /// Whether the cursor modes of the portal are asked for: where a place is open.
    pub fn asks_cursor_modes(&self) -> (r: bool)
        ensures
            r == (self.open_places().len() > 0),
    {
        match self {
            Filled::FromCache => false,
            Filled::BySize { ambiguous, discard_stored: _ } => !ambiguous.is_empty(),
        }
    }
}

/// What follows the filling of positions. Nothing follows stored positions. Open places are looked
/// for if the cursor can be part of the picture, and a search that fails fails the whole. In all
/// other cases the positions are stored.
pub open spec fn next_after_fill(
    filled: Filled,
    modes: Option<u32>,
    search: Search,
    stored: Option<OffsetsView>,
) -> FillView {
    if filled is FromCache {
        FillView::Done
    } else if filled.open_places().len() > 0 && (modes matches Some(m) && has_embedded_cursor(m)) {
        match search {
            Search::Pending => FillView::Search(filled.open_places()),
            Search::Failed(text) => FillView::Fail(text@),
            Search::Finished => FillView::Save(stored),
        }
    } else {
        FillView::Save(stored)
    }
}

/// What follows the filling of positions. `modes` is `None` where the cursor modes could not or
/// need not be asked for. `restore_token` is the token as it is stored now.
pub fn after_fill(
    filled: &Filled,
    modes: Option<u32>,
    search: Search,
    displays: &Displays,
    shared_displays: &Vec<Display>,
    restore_token: &str,
) -> (r: FillAction)
    ensures
        r@ == next_after_fill(
            *filled,
            modes,
            search,
            stored_offsets(displays.displays@, shared_displays@, restore_token@),
        ),
{
    match filled {
        Filled::FromCache => {
            return FillAction::Done;
        },
        Filled::BySize { ambiguous, discard_stored: _ } => {
            if fill_multi_matched_positions(ambiguous, modes) {
                match search {
                    Search::Pending => {
                        let mut indices: Vec<usize> = Vec::new();
                        indices.extend_from_slice(ambiguous.as_slice());
                        assert(indices@ =~= ambiguous@);
                        return FillAction::Search(indices);
                    },
                    Search::Failed(text) => {
                        return FillAction::Fail(text);
                    },
                    Search::Finished => {},
                }
            }
        },
    }
    FillAction::Save(save_positions_to_cache(displays, shared_displays, restore_token))
}

/// The search is made at most once, only for open places, and only with the cursor in the picture;
/// if it fails, nothing is stored.
pub proof fn law_search_is_made_once(
    filled: Filled,
    modes: Option<u32>,
    search: Search,
    stored: Option<OffsetsView>,
)
    ensures
        next_after_fill(filled, modes, search, stored) is Search ==> search is Pending
            && filled.open_places().len() > 0 && (modes matches Some(m) && has_embedded_cursor(m)),
        next_after_fill(filled, modes, Search::Pending, stored) is Search && search is Failed
            ==> next_after_fill(filled, modes, search, stored) is Fail,
{
}

/// Whether the positions have to be found: with the server running, while a session is held
/// whose streams came without positions, and if there is more than one display.
pub open spec fn lacks_positions(
    state: CaptureState,
    server_running: bool,
    displays: Seq<DisplayInfo>,
) -> bool {
    server_running && state.session is Some && !state.has_position_attr && displays.len() > 1
}

/// Whether the positions have to be found before the shared displays can be sorted.
pub fn asks_positions(state: &CaptureState, server_running: bool, displays: &Displays) -> (r: bool)
    ensures
        r == lacks_positions(*state, server_running, displays.displays@),
{
    server_running && state.session.is_some() && !state.has_position_attr
        && displays.displays.len() > 1
}

/// Shared displays of which the first one is marked as the main one, if it is a captured stream.
pub open spec fn with_main_marked(shared: Seq<Display>) -> Seq<Display> {
    if shared.len() > 0 {
        match shared[0] {
            Display::WAYLAND(c) => shared.update(
                0,
                Display::WAYLAND(PipeWireCapturable { primary: true, ..c }),
            ),
            Display::X11(_) => shared,
        }
    } else {
        shared
    }
}

/// Marks the first shared display as the main one.
fn mark_main(shared_displays: &mut Vec<Display>)
    ensures
        final(shared_displays)@ == with_main_marked(old(shared_displays)@),
{
    if shared_displays.len() > 0 {
        let ghost before = shared_displays@;
        match &mut shared_displays[0] {
            Display::WAYLAND(c) => {
                c.primary = true;
            },
            Display::X11(_) => {},
        }
        assert(shared_displays@ =~= with_main_marked(before));
    }
}

/// The streams after sorting, where there is more than one display.
pub open spec fn ordered_streams(
    displays: Seq<DisplayInfo>,
    primary: int,
    streams: Seq<PwStreamInfo>,
) -> Seq<PwStreamInfo> {
    if displays.len() > 1 && streams.len() > 0 {
        sorted_streams(display_order(displays, primary), streams)
    } else {
        streams
    }
}

/// The shared displays after sorting, where there is more than one display.
pub open spec fn ordered_displays(
    displays: Seq<DisplayInfo>,
    primary: int,
    streams: Seq<PwStreamInfo>,
    shared: Seq<Display>,
) -> Seq<Display> {
    if displays.len() > 1 && streams.len() > 0 {
        sorted_displays(display_order(displays, primary), streams, shared)
    } else {
        shared
    }
}

/// Finding the positions.
#[derive(Debug)]
pub enum Finding {
    /// It was not done.
    Pending,
    /// The positions were found as far as they can be.
    Found,
    /// It failed, for this reason.
    Failed(String),
}

/// What is to be done with the shared displays.
#[derive(Debug)]
pub enum FillStep {
    /// Nothing.
    Leave,
    /// Find the positions.
    FindPositions,
    /// Sort the shared displays and mark the main one.
    Sort,
    /// Give up, for this reason.
    Fail(String),
}

/// What is to be done, as plain values.
pub enum FillStepView {
    Leave,
    FindPositions,
    Sort,
    Fail(Seq<char>),
}

impl View for FillStep {
    type V = FillStepView;

    open spec fn view(&self) -> FillStepView {
        match *self {
            FillStep::Leave => FillStepView::Leave,
            FillStep::FindPositions => FillStepView::FindPositions,
            FillStep::Sort => FillStepView::Sort,
            FillStep::Fail(text) => FillStepView::Fail(text@),
        }
    }
}

/// What is to be done with the shared displays. Without the server process nothing is done, and
/// without a session it fails. Where positions are lacking they are found first, and if that fails
/// the whole fails.
pub open spec fn filling_step(
    state: CaptureState,
    server_running: bool,
    displays: Seq<DisplayInfo>,
    finding: Finding,
) -> FillStepView {
    if !server_running {
        FillStepView::Leave
    } else if state.session is None {
        FillStepView::Fail("RDP session info is None when filling display positions."@)
    } else {
        match finding {
            Finding::Failed(text) => FillStepView::Fail(text@),
            Finding::Found => FillStepView::Sort,
            Finding::Pending => if lacks_positions(state, server_running, displays) {
                FillStepView::FindPositions
            } else {
                FillStepView::Sort
            },
        }
    }
}

/// Tells what is to be done with the shared displays.
pub fn next_filling_step(
    state: &CaptureState,
    server_running: bool,
    displays: &Displays,
    finding: Finding,
) -> (r: FillStep)
    ensures
        r@ == filling_step(*state, server_running, displays.displays@, finding),
{
    if !server_running {
        return FillStep::Leave;
    }
    if state.session.is_none() {
        return FillStep::Fail(
            "RDP session info is None when filling display positions.".to_owned(),
        );
    }
    match finding {
        Finding::Failed(text) => FillStep::Fail(text),
        Finding::Found => FillStep::Sort,
        Finding::Pending => if asks_positions(state, server_running, displays) {
            FillStep::FindPositions
        } else {
            FillStep::Sort
        },
    }
}

/// How far filling has come.
#[derive(Clone, Copy, Debug, PartialEq, Eq, Structural)]
pub enum Progress {
    /// It is at its end.
    Finished,
    /// The positions have to be found.
    FindPositions,
}

/// `after` is the state that a step leaves of `before`: sorting puts the streams in order and notes
/// that positions are known, anything else changes nothing.
pub open spec fn leaves_state(
    before: CaptureState,
    displays: Displays,
    step: FillStepView,
    after: CaptureState,
) -> bool {
    if step is Sort {
        &&& before.session matches Some(info) && after.session matches Some(sorted)
            && sorted.streams@ == ordered_streams(
            displays.displays@,
            displays.primary as int,
            info.streams@,
        ) && sorted == (RdpSessionInfo { streams: sorted.streams, ..info })
        &&& after == (CaptureState { session: after.session, has_position_attr: true, ..before })
    } else {
        after == before
    }
}

/// The shared displays that a step leaves.
pub open spec fn left_displays(
    before: CaptureState,
    displays: Displays,
    step: FillStepView,
    shared: Seq<Display>,
) -> Seq<Display> {
    match (step, before.session) {
        (FillStepView::Sort, Some(info)) => with_main_marked(
            ordered_displays(
                displays.displays@,
                displays.primary as int,
                info.streams@,
                shared,
            ),
        ),
        _ => shared,
    }
}

/// Sorts the shared displays and the streams of the held session after the displays, and marks
/// the first shared display as the main one. Where positions are lacking it asks for them first and
/// changes nothing; `finding` is what came of that. Without the server process nothing is done.
pub fn fill_displays(
    state: &mut CaptureState,
    server_running: bool,
    displays: &Displays,
    shared_displays: &mut Vec<Display>,
    finding: Finding,
) -> (r: Result<Progress, String>)
    ensures
        ({
            let step = filling_step(*old(state), server_running, displays.displays@, finding);
            &&& match step {
                FillStepView::Leave => r == Ok::<Progress, String>(Progress::Finished),
                FillStepView::FindPositions => r == Ok::<Progress, String>(
                    Progress::FindPositions,
                ),
                FillStepView::Sort => r == Ok::<Progress, String>(Progress::Finished),
                FillStepView::Fail(text) => r matches Err(t) && t@ == text,
            }
            &&& leaves_state(*old(state), *displays, step, *final(state))
            &&& final(shared_displays)@ == left_displays(
                *old(state),
                *displays,
                step,
                old(shared_displays)@,
            )
        }),
{
    match next_filling_step(state, server_running, displays, finding) {
        FillStep::Leave => Ok(Progress::Finished),
        FillStep::FindPositions => Ok(Progress::FindPositions),
        FillStep::Fail(text) => Err(text),
        FillStep::Sort => {
            match &mut state.session {
                Some(info) => {
                    if displays.displays.len() > 1 {
                        sort_streams(displays, shared_displays, &mut info.streams);
                    }
                },
                None => {},
            }
            state.has_position_attr = true;
            mark_main(shared_displays);
            Ok(Progress::Finished)
        },
    }
}

/// Positions count as known only where they were not lacking or were found: as long as they are
/// lacking, filling asks for them and leaves the state and the shared displays as they are.
pub proof fn law_positions_are_found_before_sorting(
    before: CaptureState,
    server_running: bool,
    displays: Displays,
    finding: Finding,
    after: CaptureState,
    shared: Seq<Display>,
)
    requires
        leaves_state(
            before,
            displays,
            filling_step(before, server_running, displays.displays@, finding),
            after,
        ),
    ensures
        after.has_position_attr && !before.has_position_attr ==> {
            &&& server_running && before.session is Some
            &&& !lacks_positions(before, server_running, displays.displays@) || finding is Found
        },
        lacks_positions(before, server_running, displays.displays@) && finding is Pending ==> {
            let step = filling_step(before, server_running, displays.displays@, finding);
            step is FindPositions && after == before && left_displays(
                before,
                displays,
                step,
                shared,
            ) == shared
        },
{
}

/// Positions that could not be found leave the state and the shared displays as they are, and with
/// the server running the filling fails.
pub proof fn law_failed_finding_changes_nothing(
    before: CaptureState,
    server_running: bool,
    displays: Displays,
    text: String,
    after: CaptureState,
    shared: Seq<Display>,
)
    requires
        leaves_state(
            before,
            displays,
            filling_step(before, server_running, displays.displays@, Finding::Failed(text)),
            after,
        ),
    ensures
        ({
            let step = filling_step(
                before,
                server_running,
                displays.displays@,
                Finding::Failed(text),
            );
            &&& after == before
            &&& left_displays(before, displays, step, shared) == shared
            &&& server_running ==> step is Fail
            &&& server_running && before.session is Some ==> step == FillStepView::Fail(text@)
        }),
{
}

/// Streams that came with positions are never searched for: once a handshake brought a position,
/// the held session does not lack positions, whatever was opened since.
pub proof fn law_positions_that_came_are_not_searched(
    state: CaptureState,
    handshake: HandshakeView,
    event: OpenEvent,
    server_running: bool,
    displays: Seq<DisplayInfo>,
)
    requires
        handshake.has_position,
    ensures
        ({
            let after = state.with_positions(handshake.has_position);
            &&& !lacks_positions(after, server_running, displays)
            &&& !lacks_positions(after.opened(event).0, server_running, displays)
            &&& !(filling_step(
                after.opened(event).0,
                server_running,
                displays,
                Finding::Pending,
            ) is FindPositions)
        }),
{
}

/// If a captured stream shows the main display, it comes first after sorting and is marked as the
/// main one.
pub proof fn law_main_display_is_marked(
    displays: Seq<DisplayInfo>,
    primary: int,
    streams: Seq<PwStreamInfo>,
    shared: Seq<Display>,
    k: int,
)
    requires
        displays.len() > 1,
        0 <= primary < displays.len(),
        in_step(shared, streams),
        forall|i: int| 0 <= i < shared.len() ==> #[trigger] shared[i] is WAYLAND,
        0 <= k < streams.len(),
        streams[k].position == displays[primary].corner(),
    ensures
        ({
            let marked = with_main_marked(ordered_displays(displays, primary, streams, shared));
            &&& marked.len() > 0
            &&& marked[0] matches Display::WAYLAND(c) && c.primary && c.position
                == displays[primary].corner()
        }),
{
    let order = display_order(displays, primary);
    let sorted = sorted_displays(order, streams, shared);
    law_main_display_comes_first(displays, primary, streams, k);
    law_sorting_keeps_in_step(order, streams, shared);
    law_sorting_keeps_streams(order, streams, shared);
    assert(sorted[0] is WAYLAND);
}

/// The cursor can be part of the picture if and only if the second bit of the modes is set.
pub proof fn law_embedded_cursor_is_a_bit(modes: u32)
    ensures
        has_embedded_cursor(modes) == (modes & 2u32 != 0),
{
    assert((modes & 2u32 != 0) == ((modes / 2u32) % 2u32 == 1u32)) by (bit_vector);
}

/// Streams and shared displays are sorted if and only if there is more than one display and there
/// are streams.
pub proof fn law_single_displays_are_not_sorted(
    displays: Seq<DisplayInfo>,
    primary: int,
    streams: Seq<PwStreamInfo>,
    shared: Seq<Display>,
)
    ensures
        displays.len() <= 1 || streams.len() == 0 ==> {
            &&& ordered_streams(displays, primary, streams) == streams
            &&& ordered_displays(displays, primary, streams, shared) == shared
        },
        displays.len() > 1 && streams.len() > 0 ==> {
            let order = display_order(displays, primary);
            &&& ordered_streams(displays, primary, streams) == sorted_streams(order, streams)
            &&& ordered_displays(displays, primary, streams, shared) == sorted_displays(
                order,
                streams,
                shared,
            )
        },
{
}

/// Marking changes nothing but the mark of the first shared display, and only if that is a captured
/// stream.
pub proof fn law_only_the_first_is_marked(shared: Seq<Display>, i: int)
    requires
        0 <= i < shared.len(),
    ensures
        with_main_marked(shared).len() == shared.len(),
        i > 0 ==> with_main_marked(shared)[i] == shared[i],
        shared[0] is X11 ==> with_main_marked(shared)[0] == shared[0],
        shared[0] matches Display::WAYLAND(c) ==> with_main_marked(shared)[0] == Display::WAYLAND(
            PipeWireCapturable { primary: true, ..c },
        ),
{
}

/// Positions are lacking if and only if the server runs, a session is held whose positions did not
/// come, and there is more than one display to tell apart.
pub proof fn law_when_positions_are_lacking(
    state: CaptureState,
    server_running: bool,
    displays: Seq<DisplayInfo>,
)
    ensures
        lacks_positions(state, server_running, displays) <==> server_running && state.session is Some
            && !state.has_position_attr && displays.len() >= 2,
        server_running && state.session is Some ==> {
            &&& lacks_positions(state, server_running, displays) <==> filling_step(
                state,
                server_running,
                displays,
                Finding::Pending,
            ) is FindPositions
            &&& filling_step(state, server_running, displays, Finding::Found) is Sort
        },
        !server_running ==> filling_step(state, server_running, displays, Finding::Found) is Leave,
{
}

/// After stored positions nothing follows. Positions by size are stored at once where no place is
/// open or the cursor cannot be part of the picture; otherwise they are searched for, with just the
/// open places, and stored after the search.
pub proof fn law_what_follows_a_fill(
    ambiguous: Vec<usize>,
    discard_stored: bool,
    modes: u32,
    search: Search,
    stored: Option<OffsetsView>,
)
    ensures
        next_after_fill(Filled::FromCache, Some(modes), search, stored) is Done,
        ({
            let filled = Filled::BySize { ambiguous, discard_stored };
            let searched = ambiguous@.len() > 0 && modes & 2u32 != 0;
            &&& next_after_fill(filled, None, search, stored) == FillView::Save(stored)
            &&& !searched ==> next_after_fill(filled, Some(modes), search, stored)
                == FillView::Save(stored)
            &&& searched ==> next_after_fill(filled, Some(modes), Search::Pending, stored)
                == FillView::Search(ambiguous@)
            &&& searched ==> next_after_fill(filled, Some(modes), Search::Finished, stored)
                == FillView::Save(stored)
        }),
        ({
            let filled = Filled::BySize { ambiguous, discard_stored };
            ambiguous@.len() > 0 && modes & 2u32 != 0 ==> (search matches Search::Failed(text)
                ==> next_after_fill(filled, Some(modes), search, stored) == FillView::Fail(text@))
        }),
{
    law_embedded_cursor_is_a_bit(modes);
}

/// Stored positions are used if and only if there are as many as shared displays, and neither the
/// displays nor the token have changed since.
pub proof fn law_which_stored_positions_count(
    cache: PipewireDisplayOffsetCache,
    displays: Seq<DisplayInfo>,
    restore_token: Seq<char>,
    shared: nat,
)
    ensures
        StoredOffsets::Absent.usable(displays, restore_token, shared) is None,
        StoredOffsets::Unreadable.usable(displays, restore_token, shared) is None,
        StoredOffsets::Stored(cache).usable(displays, restore_token, shared) is Some <==> {
            &&& cache.offsets@.len() == shared
            &&& cache.display_key@ == displays_key(displays)
            &&& cache.restore_token@ == restore_token
        },
        StoredOffsets::Stored(cache).usable(displays, restore_token, shared) matches Some(v)
            ==> v.offsets == cache.offsets@,
{
}

/// Filling positions without a session fails with a message that says so. A failed search is the
/// failure, with its own message.
pub proof fn law_filling_tells_why_it_failed(
    state: CaptureState,
    displays: Seq<DisplayInfo>,
    finding: Finding,
    text: String,
)
    ensures
        filling_step(state, false, displays, finding) == FillStepView::Leave,
        state.session is None ==> filling_step(state, true, displays, finding)
            == FillStepView::Fail(
            "RDP session info is None when filling display positions."@,
        ),
        state.session is Some ==> filling_step(state, true, displays, Finding::Failed(text))
            == FillStepView::Fail(text@),
        state.session is Some ==> filling_step(state, true, displays, Finding::Found)
            == FillStepView::Sort,
{
}

/// What is to be done is told as it is.
pub proof fn law_fill_actions_are_what_they_say(
    indices: Vec<usize>,
    text: String,
    cache: PipewireDisplayOffsetCache,
)
    ensures
        FillAction::Done@ is Done,
        FillAction::Search(indices)@ == FillView::Search(indices@),
        FillAction::Fail(text)@ == FillView::Fail(text@),
        FillAction::Save(Some(cache))@ == FillView::Save(Some(cache@)),
        FillAction::Save(None)@ == FillView::Save(None),
        FillStep::Leave@ is Leave,
        FillStep::FindPositions@ is FindPositions,
        FillStep::Sort@ is Sort,
        FillStep::Fail(text)@ == FillStepView::Fail(text@),
{
}

/// Sorting puts the streams of the held session in the order of the displays and notes that positions
/// are known. Of the state nothing else changes, and of the session nothing but the order. The shared
/// displays are put in the same order, and the first one is marked. What is not sorted stays.
pub proof fn law_sorting_changes_the_order_only(
    before: CaptureState,
    displays: Displays,
    step: FillStepView,
    after: CaptureState,
    info: RdpSessionInfo,
    shared: Seq<Display>,
    i: int,
)
    requires
        leaves_state(before, displays, step, after),
        before.session == Some(info),
    ensures
        !(step is Sort) ==> after == before && left_displays(before, displays, step, shared)
            == shared,
        step is Sort ==> {
            &&& after.has_position_attr
            &&& after.displays == before.displays
            &&& after.choice == before.choice
            &&& after.session matches Some(sorted) && sorted.bus_name == info.bus_name && sorted.fd
                == info.fd && sorted.session == info.session && sorted.is_support_restore_token
                == info.is_support_restore_token && sorted.resolution == info.resolution
                && sorted.streams@ == ordered_streams(
                displays.displays@,
                displays.primary as int,
                info.streams@,
            )
        },
        step is Sort ==> {
            let order = ordered_displays(
                displays.displays@,
                displays.primary as int,
                info.streams@,
                shared,
            );
            let left = left_displays(before, displays, step, shared);
            &&& left.len() == order.len()
            &&& 0 < i < order.len() ==> left[i] == order[i]
            &&& order.len() > 0 ==> (order[0] matches Display::WAYLAND(c) ==> left[0]
                == Display::WAYLAND(PipeWireCapturable { primary: true, ..c }))
            &&& order.len() > 0 && order[0] is X11 ==> left[0] == order[0]
        },
{
}

} // verus!
