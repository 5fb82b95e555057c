//! The session that is held between captures.

use vstd::prelude::*;

use crate::capturable::{
    known_size, law_size_is_that_of_the_shown_display, resolved_size, shows, PipeWireCapturable,
    PwStreamInfo,
};
use crate::choice::PortalChoice;
use crate::display::{DisplayInfo, Displays};
use crate::errors::DBusError;
use crate::handshake::{GrantedSession, PortalHandshake};
use crate::mutter::cast_streams;

verus! {

/// A granted session.
#[derive(Debug)]
pub struct RdpSessionInfo {
    /// The name of the bus connection that keeps the session alive.
    pub bus_name: String,
    pub streams: Vec<PwStreamInfo>,
    /// The descriptor of the PipeWire remote, where the portal handed one over.
    pub fd: Option<i32>,
    /// The object path of the session.
    pub session: String,
    pub is_support_restore_token: bool,
    pub resolution: Option<(usize, usize)>,
}

impl RdpSessionInfo {
    /// A session as it was granted; no size is known yet.
    pub fn new(
        bus_name: String,
        streams: Vec<PwStreamInfo>,
        fd: Option<i32>,
        session: String,
        is_support_restore_token: bool,
    ) -> (r: RdpSessionInfo)
        ensures
            r == (RdpSessionInfo {
                bus_name,
                streams,
                fd,
                session,
                is_support_restore_token,
                resolution: None,
            }),
    {
        RdpSessionInfo {
            bus_name,
            streams,
            fd,
            session,
            is_support_restore_token,
            resolution: None,
        }
    }
}

/// What is kept between captures.
#[derive(Debug)]
pub struct CaptureState {
    pub session: Option<RdpSessionInfo>,
    /// Whether the streams have their positions.
    pub has_position_attr: bool,
    /// The displays, as they were last asked for.
    pub displays: Option<Displays>,
    pub choice: PortalChoice,
}

impl CaptureState {
    /// Nothing is held.
    pub fn new() -> (r: CaptureState)
        ensures
            r == (CaptureState {
                session: None,
                has_position_attr: false,
                displays: None,
                choice: PortalChoice { server_running: None, use_remote_desktop: None },
            }),
    {
        CaptureState {
            session: None,
            has_position_attr: false,
            displays: None,
            choice: PortalChoice::new(),
        }
    }

    /// The state after the session was closed.
    pub open spec fn closed(self) -> CaptureState {
        CaptureState { session: None, has_position_attr: false, displays: None, choice: self.choice }
    }

    /// Whether the session can be given up, because it can be restored without asking the user:
    /// only with the screen cast portal, and only if that supports restore tokens.
    pub open spec fn is_dispensable(self, remote_desktop: bool) -> bool {
        self.session matches Some(s) && !remote_desktop && s.is_support_restore_token
    }
}

/// Closes the session: its streams, their positions and the displays are forgotten.
pub fn close_session(state: &mut CaptureState)
    ensures
        *final(state) == old(state).closed(),
{
    state.session = None;
    state.displays = None;
    state.has_position_attr = false;
}

/// Whether a session is held.
pub fn is_rdp_session_hold(state: &CaptureState) -> (r: bool)
    ensures
        r == (state.session is Some),
{
    state.session.is_some()
}

/// Closes the session if it can be restored without asking the user. `remote_desktop` tells
/// whether the remote desktop portal is used.
pub fn try_close_session(state: &mut CaptureState, remote_desktop: bool)
    ensures
        *final(state) == (if old(state).is_dispensable(remote_desktop) {
            old(state).closed()
        } else {
            *old(state)
        }),
{
    let close = match &state.session {
        Some(s) => !remote_desktop && s.is_support_restore_token,
        None => false,
    };
    if close {
        close_session(state);
    }
}

/// After closing no session is held, and closing again changes nothing.
pub proof fn law_closed_stays_closed(state: CaptureState, remote_desktop: bool)
    ensures
        state.closed().session is None,
        state.closed().closed() == state.closed(),
        !state.closed().is_dispensable(remote_desktop),
{
}

/// What came of asking for a session.
#[derive(Debug)]
pub enum OpenEvent {
    /// The compositor set up a screen cast.
    Cast { bus_name: String, streams: Vec<PwStreamInfo>, session: String },
    /// The compositor did not set up a screen cast.
    CastFailed,
    /// The portal granted a session.
    Granted { bus_name: String, granted: GrantedSession },
    /// The portal granted none, for this reason.
    Refused(String),
}

/// What to do for a session.
#[derive(Debug)]
pub enum OpenAction {
    /// Ask the compositor for a screen cast, which asks the user nothing.
    TryCast,
    /// Ask the portal, which asks the user.
    AskPortal,
    /// Nothing: a session is held.
    Held,
    /// Give up, for this reason.
    Fail(String),
}

impl CaptureState {
    /// What to do for a session first.
    pub open spec fn opening(self) -> OpenAction {
        if self.session is Some {
            OpenAction::Held
        } else {
            OpenAction::TryCast
        }
    }

    /// The state after asking for a session, and what to do next. A session of the compositor has
    /// neither a descriptor nor a restore token. Without a session nothing changes.
    pub open spec fn opened(self, event: OpenEvent) -> (CaptureState, OpenAction) {
        match event {
            OpenEvent::Cast { bus_name, streams, session } => (
                CaptureState {
                    session: Some(
                        RdpSessionInfo {
                            bus_name,
                            streams,
                            fd: None,
                            session,
                            is_support_restore_token: false,
                            resolution: None,
                        },
                    ),
                    ..self
                },
                OpenAction::Held,
            ),
            OpenEvent::CastFailed => (self, OpenAction::AskPortal),
            OpenEvent::Granted { bus_name, granted } => (
                CaptureState {
                    session: Some(
                        RdpSessionInfo {
                            bus_name,
                            streams: granted.streams,
                            fd: Some(granted.fd),
                            session: granted.session,
                            is_support_restore_token: granted.is_support_restore_token,
                            resolution: None,
                        },
                    ),
                    ..self
                },
                OpenAction::Held,
            ),
            OpenEvent::Refused(text) => (self, OpenAction::Fail(text)),
        }
    }
}

/// Begins to open a session: where none is held, the compositor is asked first.
pub fn begin_open(state: &CaptureState) -> (r: OpenAction)
    ensures
        r == state.opening(),
{
    if state.session.is_some() {
        OpenAction::Held
    } else {
        OpenAction::TryCast
    }
}

/// Takes in what came of asking for a session, and tells what to do next. The portal is asked where
/// the compositor fails; where the portal refuses, nothing is held.
pub fn after_opening(state: &mut CaptureState, event: OpenEvent) -> (r: OpenAction)
    ensures
        (*final(state), r) == old(state).opened(event),
{
    match event {
        OpenEvent::Cast { bus_name, streams, session } => {
            state.session = Some(RdpSessionInfo::new(bus_name, streams, None, session, false));
            OpenAction::Held
        },
        OpenEvent::CastFailed => OpenAction::AskPortal,
        OpenEvent::Granted { bus_name, granted } => {
            state.session = Some(
                RdpSessionInfo::new(
                    bus_name,
                    granted.streams,
                    Some(granted.fd),
                    granted.session,
                    granted.is_support_restore_token,
                ),
            );
            OpenAction::Held
        },
        OpenEvent::Refused(text) => OpenAction::Fail(text),
    }
}

impl CaptureState {
    /// The state after a handshake, in which a stream came with a position or not. What came once
    /// stays.
    pub open spec fn with_positions(self, came: bool) -> CaptureState {
        CaptureState { has_position_attr: self.has_position_attr || came, ..self }
    }
}

/// Takes over from a handshake whether a stream came with a position.
pub fn take_over_positions(state: &mut CaptureState, handshake: &PortalHandshake)
    ensures
        *final(state) == old(state).with_positions(handshake@.has_position),
{
    if handshake.has_position {
        state.has_position_attr = true;
    }
}

/// The user is asked only after the compositor failed: opening a session never starts with the
/// portal, and nothing but that failure leads to it.
pub proof fn law_portal_is_asked_last(state: CaptureState, event: OpenEvent)
    ensures
        !(state.opening() is AskPortal),
        state.opened(event).1 is AskPortal <==> event is CastFailed,
{
}

/// Where none was held, a session is held afterwards if and only if opening says so; a failure
/// changes nothing, and what is held is not asked for again.
pub proof fn law_opening_holds_what_was_granted(state: CaptureState, event: OpenEvent)
    requires
        state.session is None,
    ensures
        state.opened(event).1 is Held <==> state.opened(event).0.session is Some,
        state.opened(event).1 is Fail ==> state.opened(event).0 == state,
        state.opened(event).1 is Held ==> state.opened(event).0.opening() is Held,
{
}

/// A screen cast of the compositor is held with its one stream, without a descriptor and without a
/// restore token, so that it is not given up for being restorable.
pub proof fn law_casts_are_held_without_descriptor(
    state: CaptureState,
    bus_name: String,
    streams: Vec<PwStreamInfo>,
    session: String,
    node: u32,
    displays: Seq<DisplayInfo>,
    remote_desktop: bool,
)
    requires
        streams@ == cast_streams(node, displays),
    ensures
        ({
            let after = state.opened(OpenEvent::Cast { bus_name, streams, session }).0;
            &&& after.session matches Some(info) && info.fd is None
                && !info.is_support_restore_token && info.streams@ == cast_streams(node, displays)
            &&& !after.is_dispensable(remote_desktop)
        }),
{
}

/// The capturables of a session: one for each stream, in order.
pub open spec fn is_capturable_of(
    c: PipeWireCapturable,
    info: RdpSessionInfo,
    displays: Seq<DisplayInfo>,
    stream: PwStreamInfo,
    probed: Option<(usize, usize)>,
) -> bool {
    &&& c.bus_name@ == info.bus_name@
    &&& c.fd == info.fd
    &&& c.path == stream.path
    &&& c.source_type == stream.source_type
    &&& !c.primary
    &&& c.position == stream.position
    &&& c.logical_size == stream.size
    &&& c.physical_size == resolved_size(displays, stream, probed)
}

/// The streams whose size can only be learned from a frame.
pub fn streams_to_probe(info: &RdpSessionInfo, displays: &Displays) -> (r: Vec<bool>)
    ensures
        r@.len() == info.streams@.len(),
        forall|i: int|
            0 <= i < r@.len() ==> #[trigger] r@[i] == (known_size(
                displays.displays@,
                info.streams@[i],
            ) is None),
{
    let mut r: Vec<bool> = Vec::new();
    let mut i: usize = 0;
    while i < info.streams.len()
        invariant
            i <= info.streams@.len(),
            r@.len() == i,
            forall|k: int|
                0 <= k < i ==> #[trigger] r@[k] == (known_size(
                    displays.displays@,
                    info.streams@[k],
                ) is None),
        decreases info.streams.len() - i,
    {
        r.push(PipeWireCapturable::size_without_frame(displays, &info.streams[i]).is_none());
        i += 1;
    }
    r
}

/// The capturables of the held session, one for each stream in order. `probed` gives for each
/// stream the size of a frame, where one was looked at. The size of the last capturable is left
/// in the session.
pub fn get_capturables(
    state: &mut CaptureState,
    displays: &Displays,
    probed: &Vec<Option<(usize, usize)>>,
) -> (r: Result<Vec<PipeWireCapturable>, DBusError>)
    requires
        old(state).session matches Some(s) ==> s.streams@.len() == probed@.len(),
    ensures
        match old(state).session {
            None => {
                &&& r matches Err(e) && e.0@ == "RDP response is None."@
                &&& *final(state) == *old(state)
            },
            Some(info) => {
                &&& r matches Ok(v) && v@.len() == info.streams@.len() && (forall|i: int|
                    0 <= i < v@.len() ==> is_capturable_of(
                        #[trigger] v@[i],
                        info,
                        displays.displays@,
                        info.streams@[i],
                        probed@[i],
                    ))
                &&& *final(state) == (CaptureState {
                    session: Some(
                        RdpSessionInfo {
                            resolution: if info.streams@.len() == 0 {
                                info.resolution
                            } else {
                                Some(
                                    resolved_size(
                                        displays.displays@,
                                        info.streams@.last(),
                                        probed@.last(),
                                    ),
                                )
                            },
                            ..info
                        },
                    ),
                    ..*old(state)
                })
            },
        },
{
    match &mut state.session {
        None => Err(DBusError("RDP response is None.".to_owned())),
        Some(info) => {
            let ghost before = *info;
            let mut v: Vec<PipeWireCapturable> = Vec::new();
            let mut resolution: Option<(usize, usize)> = info.resolution;
            let mut i: usize = 0;
            while i < info.streams.len()
                invariant
                    *info == before,
                    i <= info.streams@.len() == probed@.len(),
                    v@.len() == i,
                    forall|k: int|
                        0 <= k < i ==> is_capturable_of(
                            #[trigger] v@[k],
                            before,
                            displays.displays@,
                            before.streams@[k],
                            probed@[k],
                        ),
                    resolution == (if i == 0 {
                        before.resolution
                    } else {
                        Some(
                            resolved_size(
                                displays.displays@,
                                before.streams@[i - 1],
                                probed@[i - 1],
                            ),
                        )
                    }),
                decreases info.streams.len() - i,
            {
                let c = PipeWireCapturable::new(
                    info.bus_name.clone(),
                    info.fd,
                    &mut resolution,
                    displays,
                    &info.streams[i],
                    probed[i],
                );
                v.push(c);
                i += 1;
            }
            info.resolution = resolution;
            Ok(v)
        },
    }
}

/// A capturable of a session carries the connection and the descriptor of the session, and the
/// number, kind, position and announced size of its stream; it is not the main one, and its physical
/// size is that of the display that the stream shows.
pub proof fn law_capturables_stand_for_their_streams(
    c: PipeWireCapturable,
    info: RdpSessionInfo,
    displays: Seq<DisplayInfo>,
    stream: PwStreamInfo,
    probed: Option<(usize, usize)>,
    k: int,
)
    requires
        is_capturable_of(c, info, displays, stream, probed),
        shows(displays, stream, k),
        displays[k].width > 0,
        displays[k].height > 0,
    ensures
        c.bus_name@ == info.bus_name@,
        c.fd == info.fd,
        c.path == stream.path,
        c.source_type == stream.source_type,
        c.position == stream.position,
        c.logical_size == stream.size,
        !c.primary,
        displays[k].transform == 90 || displays[k].transform == 270 ==> c.physical_size == (
            displays[k].height as usize,
            displays[k].width as usize,
        ),
        displays[k].transform != 90 && displays[k].transform != 270 ==> c.physical_size == (
            displays[k].width as usize,
            displays[k].height as usize,
        ),
{
    law_size_is_that_of_the_shown_display(displays, stream, probed, k);
}

/// A session is given up without being asked for if and only if it came through the screen cast
/// portal and can be restored by a token; giving it up forgets the displays and the positions, and
/// keeps what was chosen.
pub proof fn law_restorable_sessions_are_given_up(state: CaptureState, info: RdpSessionInfo)
    requires
        state.session == Some(info),
    ensures
        !state.is_dispensable(true),
        state.is_dispensable(false) == info.is_support_restore_token,
        state.closed().session is None,
        state.closed().displays is None,
        !state.closed().has_position_attr,
        state.closed().choice == state.choice,
{
}

/// Opening asks the compositor where no session is held and nothing where one is. A session of the
/// portal is held with its descriptor, its streams, its path and its support for tokens. Opening
/// leaves displays, positions and choices alone.
pub proof fn law_granted_session_is_held(
    state: CaptureState,
    bus_name: String,
    granted: GrantedSession,
    event: OpenEvent,
)
    ensures
        state.session is None ==> state.opening() is TryCast,
        state.session is Some ==> state.opening() is Held,
        ({
            let after = state.opened(OpenEvent::Granted { bus_name, granted });
            &&& after.1 is Held
            &&& after.0.session matches Some(info) && info.fd == Some(granted.fd)
                && info.streams@ == granted.streams@ && info.session@ == granted.session@
                && info.bus_name@ == bus_name@ && info.is_support_restore_token
                == granted.is_support_restore_token && info.resolution is None
        }),
        state.opened(event).0.displays == state.displays,
        state.opened(event).0.choice == state.choice,
        state.opened(event).0.has_position_attr == state.has_position_attr,
        event matches OpenEvent::Refused(text) ==> state.opened(event).1 == OpenAction::Fail(text),
{
}

/// A position that came is noted, and nothing else of the state changes; without one nothing
/// changes.
pub proof fn law_positions_are_noted(state: CaptureState)
    ensures
        state.with_positions(true).has_position_attr,
        state.with_positions(false) == state,
        state.with_positions(true).session == state.session,
        state.with_positions(true).displays == state.displays,
        state.with_positions(true).choice == state.choice,
{
}

} // verus!
