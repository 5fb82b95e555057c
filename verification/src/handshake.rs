//! The handshake with the desktop portal.
//!
//! A session is granted in sequential requests, whose outcomes arrive as signals. The handshake
//! is told what happened and answers with what to do next. Each signal is subscribed to before the
//! request is made that it answers.

use vstd::prelude::*;

use crate::capturable::PwStreamInfo;
use crate::errors::{text_of, DBusFault};
use crate::fill::{
    has_embedded_cursor, law_embedded_cursor_is_a_bit, supports_embedded_cursor,
};
use crate::portal::{
    create_session_request, law_devices_request_asks_for_all_kinds,
    law_remote_desktop_has_one_source, law_session_request_has_its_tokens,
    law_sources_request_carries_what_is_known, law_start_request_has_its_token,
    select_devices_request, select_sources_after_devices, select_sources_request, start_request,
    ArgView, PortalRequest, RequestView,
};
use crate::reply::{reply_has_position, reply_streams, streams_from_response, Reply};
use crate::stage::{
    dbus_stage_err, fault_tag, handle_response, handle_step_error, refusal_tag, stage_err,
    stage_name, stage_tag, PortalStage, PortalTrace, TraceView,
};
use crate::text::occurs_at;

verus! {

/// The least version of the screen cast portal that supports restore tokens.
pub const RESTORE_TOKEN_VERSION: u32 = 4;

/// How often the bus is polled for answers: three minutes, for the user to decide.
pub const POLL_LIMIT: u32 = 1800;

/// What happened.
#[derive(Debug)]
pub enum PortalEvent {
    /// A request was answered. `reply_text` is the whole answer as text.
    Response { stage: PortalStage, code: u32, reply: Reply, reply_text: String },
    /// The signal was subscribed to.
    Subscribed,
    /// The signal could not be subscribed to.
    SubscribeFailed(DBusFault),
    /// The portal was chosen.
    Portal { remote_desktop: bool },
    /// The stored restore token, empty where there is none.
    RestoreToken(String),
    /// The cursor modes of the portal, `None` where it could not be asked.
    CursorModes(Option<u32>),
    /// The request was made.
    Called,
    /// The request could not be made.
    CallFailed(DBusFault),
    /// The restore token was stored.
    TokenSaved,
    /// The PipeWire remote was opened.
    RemoteOpened(i32),
    /// The PipeWire remote could not be opened.
    RemoteFailed(DBusFault),
}

/// What to do next.
#[derive(Debug)]
pub enum PortalAction {
    /// Wait for the next signal.
    Wait,
    /// Subscribe to the signal that answers the request with this token.
    Subscribe { stage: PortalStage, handle_token: String },
    /// Choose between the remote desktop portal and the screen cast portal.
    ChoosePortal,
    /// Tell the choice as far as it was made.
    TellPortal,
    /// Read the stored restore token.
    ReadRestoreToken,
    /// Ask the portal for its cursor modes.
    AskCursorModes,
    /// Make a request.
    Call(PortalRequest),
    /// Store a restore token.
    SaveRestoreToken(String),
    /// Open the PipeWire remote of the session.
    OpenRemote,
}

/// An action as plain values.
pub enum ActionView {
    Wait,
    Subscribe { stage: PortalStage, handle_token: Seq<char> },
    ChoosePortal,
    TellPortal,
    ReadRestoreToken,
    AskCursorModes,
    Call(RequestView),
    SaveRestoreToken(Seq<char>),
    OpenRemote,
}

impl View for PortalAction {
    type V = ActionView;

    open spec fn view(&self) -> ActionView {
        match *self {
            PortalAction::Wait => ActionView::Wait,
            PortalAction::Subscribe { stage, handle_token } => ActionView::Subscribe {
                stage,
                handle_token: handle_token@,
            },
            PortalAction::ChoosePortal => ActionView::ChoosePortal,
            PortalAction::TellPortal => ActionView::TellPortal,
            PortalAction::ReadRestoreToken => ActionView::ReadRestoreToken,
            PortalAction::AskCursorModes => ActionView::AskCursorModes,
            PortalAction::Call(r) => ActionView::Call(r@),
            PortalAction::SaveRestoreToken(t) => ActionView::SaveRestoreToken(t@),
            PortalAction::OpenRemote => ActionView::OpenRemote,
        }
    }
}

/// What is under way.
#[derive(Debug)]
pub enum PortalTask {
    /// Nothing but waiting.
    Idle,
    /// Subscribing to the answer of the request for a session.
    SubscribeCreate,
    /// Choosing the portal for the request for a session.
    ChooseForCreate,
    /// Choosing the portal once there is a session.
    ChooseForSelect,
    /// Reading the restore token for the request for sources.
    TokenForSources,
    /// Asking for the cursor modes for the request for sources, with the restore token, where
    /// tokens are supported.
    CursorForSources { restore: Option<String> },
    /// Telling the portal for the request for sources after devices were selected.
    TellForSources,
    /// Subscribing to the answer of a request that is ready.
    SubscribeFor { request: PortalRequest },
    /// Subscribing to the answer of the request to start.
    SubscribeStart,
    /// Choosing the portal for the request to start.
    ChooseForStart,
    /// Making a request.
    CallFor { stage: PortalStage },
    /// Choosing the portal once the session has started, with the answer.
    ChooseForStreams { reply: Reply },
    /// Storing the restore token, with the answer.
    SaveToken { reply: Reply },
    /// Opening the PipeWire remote.
    OpenFor,
}

/// A task as plain values.
pub enum TaskView {
    Idle,
    SubscribeCreate,
    ChooseForCreate,
    ChooseForSelect,
    TokenForSources,
    CursorForSources { restore: Option<Seq<char>> },
    TellForSources,
    SubscribeFor { request: RequestView },
    SubscribeStart,
    ChooseForStart,
    CallFor { stage: PortalStage },
    ChooseForStreams { reply: Reply },
    SaveToken { reply: Reply },
    OpenFor,
}

impl View for PortalTask {
    type V = TaskView;

    open spec fn view(&self) -> TaskView {
        match *self {
            PortalTask::Idle => TaskView::Idle,
            PortalTask::SubscribeCreate => TaskView::SubscribeCreate,
            PortalTask::ChooseForCreate => TaskView::ChooseForCreate,
            PortalTask::ChooseForSelect => TaskView::ChooseForSelect,
            PortalTask::TokenForSources => TaskView::TokenForSources,
            PortalTask::CursorForSources { restore } => TaskView::CursorForSources {
                restore: text_of(restore),
            },
            PortalTask::TellForSources => TaskView::TellForSources,
            PortalTask::SubscribeFor { request } => TaskView::SubscribeFor { request: request@ },
            PortalTask::SubscribeStart => TaskView::SubscribeStart,
            PortalTask::ChooseForStart => TaskView::ChooseForStart,
            PortalTask::CallFor { stage } => TaskView::CallFor { stage },
            PortalTask::ChooseForStreams { reply } => TaskView::ChooseForStreams { reply },
            PortalTask::SaveToken { reply } => TaskView::SaveToken { reply },
            PortalTask::OpenFor => TaskView::OpenFor,
        }
    }
}

/// The state of a handshake.
#[derive(Debug)]
pub struct PortalHandshake {
    pub trace: PortalTrace,
    /// The object path of the session.
    pub session: Option<String>,
    /// The descriptor of the PipeWire remote.
    pub fd: Option<i32>,
    pub streams: Vec<PwStreamInfo>,
    /// Whether a stream came with a position.
    pub has_position: bool,
    pub is_support_restore_token: bool,
    pub capture_cursor: bool,
    /// How often the bus was polled.
    pub polls: u32,
    pub task: PortalTask,
}

/// A handshake as plain values.
#[verifier::ext_equal]
pub struct HandshakeView {
    pub trace: TraceView,
    pub session: Option<Seq<char>>,
    pub fd: Option<i32>,
    pub streams: Seq<PwStreamInfo>,
    pub has_position: bool,
    pub restore: bool,
    pub cursor: bool,
    pub polls: u32,
    pub task: TaskView,
}

impl View for PortalHandshake {
    type V = HandshakeView;

    open spec fn view(&self) -> HandshakeView {
        HandshakeView {
            trace: self.trace@,
            session: text_of(self.session),
            fd: self.fd,
            streams: self.streams@,
            has_position: self.has_position,
            restore: self.is_support_restore_token,
            cursor: self.capture_cursor,
            polls: self.polls,
            task: self.task@,
        }
    }
}

/// Whether the screen cast portal supports restore tokens; `None` where its version could not be
/// read.
pub open spec fn supports_restore(version: Option<u32>) -> bool {
    version matches Some(v) && v >= RESTORE_TOKEN_VERSION
}

impl HandshakeView {
    /// A handshake that has not begun.
    pub open spec fn fresh(version: Option<u32>, capture_cursor: bool) -> HandshakeView {
        HandshakeView {
            trace: TraceView::fresh(),
            session: None,
            fd: None,
            streams: Seq::empty(),
            has_position: false,
            restore: supports_restore(version),
            cursor: capture_cursor,
            polls: 0,
            task: TaskView::Idle,
        }
    }

    /// The same handshake with another task and an action.
    pub open spec fn then_do(self, task: TaskView, action: ActionView) -> (
        HandshakeView,
        ActionView,
    ) {
        (HandshakeView { task, ..self }, action)
    }

    /// The handshake back at waiting, with this trace.
    pub open spec fn rests(self, trace: TraceView) -> (HandshakeView, ActionView) {
        (HandshakeView { trace, task: TaskView::Idle, ..self }, ActionView::Wait)
    }

    /// A request that is ready: its stage is awaited from now on, and its answer is subscribed to.
    pub open spec fn prepares(self, request: RequestView) -> (HandshakeView, ActionView) {
        (
            HandshakeView {
                trace: self.trace.awaiting(request.stage),
                task: TaskView::SubscribeFor { request },
                ..self
            },
            ActionView::Subscribe { stage: request.stage, handle_token: request.handle_token },
        )
    }

    /// The request for sources, once the restore token is known, where tokens are supported. The
    /// cursor modes are asked for only if the cursor is to be captured.
    pub open spec fn selects_sources(self, restore: Option<Seq<char>>) -> (
        HandshakeView,
        ActionView,
    ) {
        if self.cursor {
            self.then_do(TaskView::CursorForSources { restore }, ActionView::AskCursorModes)
        } else {
            self.prepares(select_sources_request(restore, false))
        }
    }

    /// The session has started: its streams are taken over, and the PipeWire remote is opened.
    pub open spec fn opens(self, reply: Reply) -> (HandshakeView, ActionView) {
        (
            HandshakeView {
                streams: self.streams + reply_streams(reply),
                has_position: self.has_position || reply_has_position(reply),
                trace: self.trace.awaiting(PortalStage::OpenPipeWireRemote),
                task: TaskView::OpenFor,
                ..self
            },
            ActionView::OpenRemote,
        )
    }

    /// A session was granted: its path is in the answer.
    pub open spec fn after_create(self, reply: Reply, reply_text: Seq<char>) -> (
        HandshakeView,
        ActionView,
    ) {
        match reply.named("session_handle"@) {
            None => self.rests(
                self.trace.broken(
                    "Failed to obtain session_handle from response: "@ + reply_text,
                ),
            ),
            Some(a) => match a.as_str {
                None => self.rests(
                    self.trace.broken("Failed to convert session_handle to string."@),
                ),
                Some(s) => (
                    HandshakeView {
                        session: Some(s@),
                        task: TaskView::ChooseForSelect,
                        ..self
                    },
                    ActionView::ChoosePortal,
                ),
            },
        }
    }

    /// A request was granted.
    pub open spec fn after_grant(self, stage: PortalStage, reply: Reply, reply_text: Seq<char>) -> (
        HandshakeView,
        ActionView,
    ) {
        match stage {
            PortalStage::CreateSession => self.after_create(reply, reply_text),
            PortalStage::SelectDevices => self.then_do(
                TaskView::TellForSources,
                ActionView::TellPortal,
            ),
            PortalStage::SelectSources => (
                HandshakeView {
                    trace: self.trace.awaiting(PortalStage::Start),
                    task: TaskView::SubscribeStart,
                    ..self
                },
                ActionView::Subscribe { stage: PortalStage::Start, handle_token: "u4"@ },
            ),
            PortalStage::Start => self.then_do(
                TaskView::ChooseForStreams { reply },
                ActionView::ChoosePortal,
            ),
            PortalStage::OpenPipeWireRemote => self.rests(self.trace),
        }
    }

    /// The portal was chosen.
    pub open spec fn after_choice(self, remote_desktop: bool) -> (HandshakeView, ActionView) {
        match self.task {
            TaskView::ChooseForCreate => self.then_do(
                TaskView::CallFor { stage: PortalStage::CreateSession },
                ActionView::Call(create_session_request(remote_desktop)),
            ),
            TaskView::ChooseForSelect => if remote_desktop {
                self.prepares(select_devices_request())
            } else if self.restore {
                self.then_do(TaskView::TokenForSources, ActionView::ReadRestoreToken)
            } else {
                self.selects_sources(None)
            },
            TaskView::TellForSources => self.prepares(select_sources_after_devices(remote_desktop)),
            TaskView::ChooseForStart => self.then_do(
                TaskView::CallFor { stage: PortalStage::Start },
                ActionView::Call(start_request(remote_desktop)),
            ),
            TaskView::ChooseForStreams { reply } => match reply.text_named("restore_token"@) {
                Some(t) => if !remote_desktop && self.restore {
                    self.then_do(TaskView::SaveToken { reply }, ActionView::SaveRestoreToken(t))
                } else {
                    self.opens(reply)
                },
                None => self.opens(reply),
            },
            _ => (self, ActionView::Wait),
        }
    }

    /// The handshake after an event, and what to do next. An event that does not belong to what
    /// is under way changes nothing.
    pub open spec fn step(self, event: PortalEvent) -> (HandshakeView, ActionView) {
        match event {
            PortalEvent::Response { stage, code, reply, reply_text } => if code == 0 {
                self.after_grant(stage, reply, reply_text@)
            } else {
                self.rests(self.trace.answered(stage, code))
            },
            PortalEvent::Subscribed => match self.task {
                TaskView::SubscribeCreate => self.then_do(
                    TaskView::ChooseForCreate,
                    ActionView::ChoosePortal,
                ),
                TaskView::SubscribeFor { request } => self.then_do(
                    TaskView::CallFor { stage: request.stage },
                    ActionView::Call(request),
                ),
                TaskView::SubscribeStart => self.then_do(
                    TaskView::ChooseForStart,
                    ActionView::ChoosePortal,
                ),
                _ => (self, ActionView::Wait),
            },
            PortalEvent::SubscribeFailed(fault) => match self.task {
                TaskView::SubscribeCreate => self.rests(
                    self.trace.failed_with(fault_tag("create-session"@, fault@)),
                ),
                TaskView::SubscribeFor { request } => self.rests(self.trace.broken(fault@.text())),
                TaskView::SubscribeStart => self.rests(self.trace.broken(fault@.text())),
                _ => (self, ActionView::Wait),
            },
            PortalEvent::Portal { remote_desktop } => self.after_choice(remote_desktop),
            PortalEvent::RestoreToken(t) => match self.task {
                TaskView::TokenForSources => self.selects_sources(Some(t@)),
                _ => (self, ActionView::Wait),
            },
            PortalEvent::CursorModes(modes) => match self.task {
                TaskView::CursorForSources { restore } => self.prepares(
                    select_sources_request(
                        restore,
                        modes matches Some(m) && has_embedded_cursor(m),
                    ),
                ),
                _ => (self, ActionView::Wait),
            },
            PortalEvent::Called => match self.task {
                TaskView::CallFor { stage } => self.rests(self.trace),
                _ => (self, ActionView::Wait),
            },
            PortalEvent::CallFailed(fault) => match self.task {
                TaskView::CallFor { stage } => self.rests(
                    self.trace.failed_with(fault_tag(stage_name(stage), fault@)),
                ),
                _ => (self, ActionView::Wait),
            },
            PortalEvent::TokenSaved => match self.task {
                TaskView::SaveToken { reply } => self.opens(reply),
                _ => (self, ActionView::Wait),
            },
            PortalEvent::RemoteOpened(fd) => match self.task {
                TaskView::OpenFor => (
                    HandshakeView { fd: Some(fd), task: TaskView::Idle, ..self },
                    ActionView::Wait,
                ),
                _ => (self, ActionView::Wait),
            },
            PortalEvent::RemoteFailed(fault) => match self.task {
                TaskView::OpenFor => self.rests(
                    self.trace.failed_with(fault_tag("open-pipewire-remote"@, fault@)),
                ),
                _ => (self, ActionView::Wait),
            },
        }
    }

    /// The object path of the session; before there is one, the root.
    pub open spec fn session_path(self) -> Seq<char> {
        match self.session {
            Some(s) => s,
            None => "/"@,
        }
    }

    /// Whether the session is complete.
    pub open spec fn is_granted(self) -> bool {
        self.fd is Some && self.session is Some && self.streams.len() > 0
    }

    /// Why there is no session: what failed first, or else what never came.
    pub open spec fn failure(self) -> Seq<char> {
        match self.trace.reason {
            Some(r) => r,
            None => if self.fd is Some {
                stage_tag("streams"@, "empty"@, Seq::empty())
            } else {
                stage_tag(stage_name(self.trace.waiting), "no-response"@, Seq::empty())
            },
        }
    }
}

impl PortalHandshake {
    /// A handshake that has not begun. `version` is that of the screen cast portal.
    pub fn new(version: Option<u32>, capture_cursor: bool) -> (r: PortalHandshake)
        ensures
            r@ == HandshakeView::fresh(version, capture_cursor),
    {
        let is_support_restore_token = match version {
            Some(v) => v >= RESTORE_TOKEN_VERSION,
            None => false,
        };
        PortalHandshake {
            trace: PortalTrace::new(),
            session: None,
            fd: None,
            streams: Vec::new(),
            has_position: false,
            is_support_restore_token,
            capture_cursor,
            polls: 0,
            task: PortalTask::Idle,
        }
    }

    /// Begins: the answer of the request for a session is subscribed to.
    pub fn begin(&mut self) -> (r: PortalAction)
        ensures
            (final(self)@, r@) == old(self)@.then_do(
                TaskView::SubscribeCreate,
                ActionView::Subscribe {
                    stage: PortalStage::CreateSession,
                    handle_token: "u1"@,
                },
            ),
    {
        self.task = PortalTask::SubscribeCreate;
        PortalAction::Subscribe {
            stage: PortalStage::CreateSession,
            handle_token: "u1".to_owned(),
        }
    }

    /// Goes on to subscribe to the answer of a request.
    fn prepare(&mut self, request: PortalRequest) -> (r: PortalAction)
        ensures
            (final(self)@, r@) == old(self)@.prepares(request@),
    {
        let stage = request.stage;
        let handle_token = request.handle_token.clone();
        self.trace.waiting(stage);
        self.task = PortalTask::SubscribeFor { request };
        PortalAction::Subscribe { stage, handle_token }
    }

    /// Goes on to the request for sources.
    fn select_sources(&mut self, restore: Option<String>) -> (r: PortalAction)
        ensures
            (final(self)@, r@) == old(self)@.selects_sources(text_of(restore)),
    {
        if self.capture_cursor {
            self.task = PortalTask::CursorForSources { restore };
            return PortalAction::AskCursorModes;
        }
        let request = match &restore {
            Some(t) => PortalRequest::select_sources(Some(t.as_str()), false),
            None => PortalRequest::select_sources(None, false),
        };
        self.prepare(request)
    }

    /// Takes over the streams and goes on to open the PipeWire remote.
    fn open(&mut self, reply: Reply) -> (r: PortalAction)
        ensures
            (final(self)@, r@) == old(self)@.opens(reply),
    {
        let mut streams = streams_from_response(&reply, &mut self.has_position);
        self.streams.append(&mut streams);
        self.trace.waiting(PortalStage::OpenPipeWireRemote);
        self.task = PortalTask::OpenFor;
        PortalAction::OpenRemote
    }

    /// Goes on after a session was granted.
    fn on_create_session_response(&mut self, reply: &Reply, reply_text: &str) -> (r: PortalAction)
        ensures
            (final(self)@, r@) == old(self)@.after_create(*reply, reply_text@),
    {
        match reply.get("session_handle") {
            None => {
                let mut text = "Failed to obtain session_handle from response: ".to_owned();
                text.append(reply_text);
                handle_step_error(&mut self.trace, text);
                self.task = PortalTask::Idle;
                PortalAction::Wait
            },
            Some(a) => match &a.as_str {
                None => {
                    handle_step_error(
                        &mut self.trace,
                        "Failed to convert session_handle to string.".to_owned(),
                    );
                    self.task = PortalTask::Idle;
                    PortalAction::Wait
                },
                Some(s) => {
                    self.session = Some(s.clone());
                    self.task = PortalTask::ChooseForSelect;
                    PortalAction::ChoosePortal
                },
            },
        }
    }

    /// Goes on after a request was granted.
    fn on_grant(&mut self, stage: PortalStage, reply: Reply, reply_text: &str) -> (r: PortalAction)
        ensures
            (final(self)@, r@) == old(self)@.after_grant(stage, reply, reply_text@),
    {
        match stage {
            PortalStage::CreateSession => self.on_create_session_response(&reply, reply_text),
            PortalStage::SelectDevices => {
                self.task = PortalTask::TellForSources;
                PortalAction::TellPortal
            },
            PortalStage::SelectSources => {
                self.trace.waiting(PortalStage::Start);
                self.task = PortalTask::SubscribeStart;
                PortalAction::Subscribe { stage: PortalStage::Start, handle_token: "u4".to_owned() }
            },
            PortalStage::Start => {
                self.task = PortalTask::ChooseForStreams { reply };
                PortalAction::ChoosePortal
            },
            PortalStage::OpenPipeWireRemote => {
                self.task = PortalTask::Idle;
                PortalAction::Wait
            },
        }
    }

    /// Goes on after the portal was chosen, with the task that was under way.
    fn on_choice(&mut self, task: PortalTask, remote_desktop: bool) -> (r: PortalAction)
        ensures
            (final(self)@, r@) == (HandshakeView { task: task@, ..old(self)@ }).after_choice(
                remote_desktop,
            ),
    {
        match task {
            PortalTask::ChooseForCreate => {
                self.task = PortalTask::CallFor { stage: PortalStage::CreateSession };
                PortalAction::Call(PortalRequest::create_session(remote_desktop))
            },
            PortalTask::ChooseForSelect => {
                if remote_desktop {
                    self.prepare(PortalRequest::select_devices())
                } else if self.is_support_restore_token {
                    self.task = PortalTask::TokenForSources;
                    PortalAction::ReadRestoreToken
                } else {
                    self.select_sources(None)
                }
            },
            PortalTask::TellForSources => self.prepare(
                PortalRequest::select_more_sources(remote_desktop),
            ),
            PortalTask::ChooseForStart => {
                self.task = PortalTask::CallFor { stage: PortalStage::Start };
                PortalAction::Call(PortalRequest::start(remote_desktop))
            },
            PortalTask::ChooseForStreams { reply } => {
                let token: Option<String> = match reply.get("restore_token") {
                    Some(a) => a.as_str.clone(),
                    None => None,
                };
                match token {
                    Some(t) => {
                        if !remote_desktop && self.is_support_restore_token {
                            self.task = PortalTask::SaveToken { reply };
                            PortalAction::SaveRestoreToken(t)
                        } else {
                            self.open(reply)
                        }
                    },
                    None => self.open(reply),
                }
            },
            other => {
                self.task = other;
                PortalAction::Wait
            },
        }
    }

    /// Takes in what happened and tells what to do next.
    #[verifier::rlimit(40)]
    pub fn step(&mut self, event: PortalEvent) -> (r: PortalAction)
        ensures
            (final(self)@, r@) == old(self)@.step(event),
    {
        let mut task = PortalTask::Idle;
        std::mem::swap(&mut task, &mut self.task);
        match (event, task) {
            (PortalEvent::Response { stage, code, reply, reply_text }, _) => {
                if handle_response(&mut self.trace, stage, code) {
                    self.on_grant(stage, reply, reply_text.as_str())
                } else {
                    PortalAction::Wait
                }
            },
            (PortalEvent::Subscribed, PortalTask::SubscribeCreate) => {
                self.task = PortalTask::ChooseForCreate;
                PortalAction::ChoosePortal
            },
            (PortalEvent::Subscribed, PortalTask::SubscribeFor { request }) => {
                self.task = PortalTask::CallFor { stage: request.stage };
                PortalAction::Call(request)
            },
            (PortalEvent::Subscribed, PortalTask::SubscribeStart) => {
                self.task = PortalTask::ChooseForStart;
                PortalAction::ChoosePortal
            },
            (PortalEvent::SubscribeFailed(fault), PortalTask::SubscribeCreate) => {
                self.trace.record(dbus_stage_err("create-session", &fault));
                self.trace.failed = true;
                PortalAction::Wait
            },
            (PortalEvent::SubscribeFailed(fault), PortalTask::SubscribeFor { request: _ }) => {
                handle_step_error(&mut self.trace, fault.to_text());
                PortalAction::Wait
            },
            (PortalEvent::SubscribeFailed(fault), PortalTask::SubscribeStart) => {
                handle_step_error(&mut self.trace, fault.to_text());
                PortalAction::Wait
            },
            (PortalEvent::Portal { remote_desktop }, task) => self.on_choice(task, remote_desktop),
            (PortalEvent::RestoreToken(t), PortalTask::TokenForSources) => self.select_sources(
                Some(t),
            ),
            (PortalEvent::CursorModes(modes), PortalTask::CursorForSources { restore }) => {
                let embedded = supports_embedded_cursor(modes);
                let request = match &restore {
                    Some(t) => PortalRequest::select_sources(Some(t.as_str()), embedded),
                    None => PortalRequest::select_sources(None, embedded),
                };
                self.prepare(request)
            },
            (PortalEvent::Called, PortalTask::CallFor { stage: _ }) => PortalAction::Wait,
            (PortalEvent::CallFailed(fault), PortalTask::CallFor { stage }) => {
                self.trace.record(dbus_stage_err(stage.as_str(), &fault));
                self.trace.failed = true;
                PortalAction::Wait
            },
            (PortalEvent::TokenSaved, PortalTask::SaveToken { reply }) => self.open(reply),
            (PortalEvent::RemoteOpened(fd), PortalTask::OpenFor) => {
                self.fd = Some(fd);
                PortalAction::Wait
            },
            (PortalEvent::RemoteFailed(fault), PortalTask::OpenFor) => {
                self.trace.record(dbus_stage_err("open-pipewire-remote", &fault));
                self.trace.failed = true;
                PortalAction::Wait
            },
            (_, task) => {
                self.task = task;
                PortalAction::Wait
            },
        }
    }

    /// Whether the bus is polled once more, and counts that. It is polled until the PipeWire remote
    /// is open or something has failed, and not for longer than the user has to decide.
    pub fn poll_again(&mut self) -> (r: bool)
        ensures
            r == (old(self)@.wants_poll()),
            final(self)@ == (HandshakeView {
                polls: if r {
                    (old(self)@.polls + 1) as u32
                } else {
                    old(self)@.polls
                },
                ..old(self)@
            }),
    {
        if self.polls < POLL_LIMIT && self.fd.is_none() && !self.trace.failed {
            self.polls += 1;
            true
        } else {
            false
        }
    }

    /// The object path of the session that a request is made for and whose PipeWire remote is
    /// opened; before there is a session, the root.
    pub fn call_path(&self) -> (r: String)
        ensures
            r@ == self@.session_path(),
    {
        match &self.session {
            Some(s) => s.clone(),
            None => "/".to_owned(),
        }
    }

    /// The tag for a fault while polling, which belongs to the stage that is awaited.
    pub fn poll_err(&self, fault: &DBusFault) -> (r: String)
        ensures
            r@ == fault_tag(stage_name(self@.trace.waiting), fault@),
    {
        dbus_stage_err(self.trace.waiting_stage().as_str(), fault)
    }

    /// Ends the handshake: with the session, if it is complete, or else with the reason.
    pub fn finish(self) -> (r: Result<GrantedSession, String>)
        ensures
            match r {
                Ok(g) => {
                    &&& self@.is_granted()
                    &&& Some(g.fd) == self@.fd
                    &&& Some(g.session@) == self@.session
                    &&& g.streams@ == self@.streams
                    &&& g.is_support_restore_token == self@.restore
                },
                Err(text) => !self@.is_granted() && text@ == self@.failure(),
            },
    {
        let mut trace = self.trace;
        let have_fd = self.fd.is_some();
        match (self.fd, self.session) {
            (Some(fd), Some(session)) => {
                if !self.streams.is_empty() {
                    return Ok(
                        GrantedSession {
                            fd,
                            session,
                            streams: self.streams,
                            is_support_restore_token: self.is_support_restore_token,
                        },
                    );
                }
            },
            _ => {},
        }
        match trace.take_reason() {
            Some(r) => Err(r),
            None => {
                proof {
                    reveal_strlit("");
                    assert(""@ =~= Seq::<char>::empty());
                }
                if have_fd {
                    Err(stage_err("streams", "empty", ""))
                } else {
                    Err(stage_err(trace.waiting_stage().as_str(), "no-response", ""))
                }
            },
        }
    }
}

/// A session that the portal granted.
#[derive(Debug)]
pub struct GrantedSession {
    pub fd: i32,
    pub session: String,
    pub streams: Vec<PwStreamInfo>,
    pub is_support_restore_token: bool,
}

impl HandshakeView {
    /// Whether the bus is polled once more.
    pub open spec fn wants_poll(self) -> bool {
        self.polls < POLL_LIMIT && self.fd is None && !self.trace.failed
    }

    /// A failure is always on record.
    pub open spec fn is_sound(self) -> bool {
        self.trace.failed ==> self.trace.reason is Some
    }
}

/// A handshake starts sound, and every step keeps it so.
#[verifier::rlimit(40)]
pub proof fn law_failures_are_on_record(
    version: Option<u32>,
    capture_cursor: bool,
    s: HandshakeView,
    event: PortalEvent,
)
    requires
        s.is_sound(),
    ensures
        HandshakeView::fresh(version, capture_cursor).is_sound(),
        s.step(event).0.is_sound(),
{
}

/// Whatever follows the first failure, its tag stays on record and the handshake stays failed.
pub proof fn law_later_steps_keep_the_cause(s: HandshakeView, event: PortalEvent)
    ensures
        s.trace.reason is Some ==> s.step(event).0.trace.reason == s.trace.reason,
        s.trace.failed ==> s.step(event).0.trace.failed,
{
    match event {
        PortalEvent::Response { stage, code, reply, reply_text } => {
            if code == 0 {
                lemma_grant_keeps_the_cause(s, stage, reply, reply_text@);
            }
        },
        PortalEvent::Portal { remote_desktop } => {
            lemma_choice_keeps_the_cause(s, remote_desktop);
        },
        _ => {},
    }
}

/// A granted request keeps the first failure.
proof fn lemma_grant_keeps_the_cause(
    s: HandshakeView,
    stage: PortalStage,
    reply: Reply,
    reply_text: Seq<char>,
)
    ensures
        s.trace.reason is Some ==> s.after_grant(stage, reply, reply_text).0.trace.reason
            == s.trace.reason,
        s.trace.failed ==> s.after_grant(stage, reply, reply_text).0.trace.failed,
{
}

/// Choosing the portal keeps the first failure.
proof fn lemma_choice_keeps_the_cause(s: HandshakeView, remote_desktop: bool)
    ensures
        s.trace.reason is Some ==> s.after_choice(remote_desktop).0.trace.reason == s.trace.reason,
        s.trace.failed ==> s.after_choice(remote_desktop).0.trace.failed,
{
}

/// A refused request ends the handshake: polling stops, and if nothing failed before and the
/// session was not complete, the outcome is the tag of the refusal.
pub proof fn law_refusal_is_the_outcome(
    s: HandshakeView,
    stage: PortalStage,
    code: u32,
    reply: Reply,
    reply_text: String,
)
    requires
        code != 0,
        s.trace.reason is None,
        !s.is_granted(),
    ensures
        ({
            let end = s.step(PortalEvent::Response { stage, code, reply, reply_text }).0;
            &&& !end.wants_poll()
            &&& !end.is_granted()
            &&& end.failure() == refusal_tag(stage, code)
        }),
{
}

/// A request that the user declined is reported as declined at its stage, and nothing else.
pub proof fn law_decline_is_reported(
    s: HandshakeView,
    stage: PortalStage,
    reply: Reply,
    reply_text: String,
)
    requires
        s.trace.reason is None,
        !s.is_granted(),
    ensures
        s.step(PortalEvent::Response { stage, code: 1, reply, reply_text }).0.failure()
            == stage_tag(stage_name(stage), "declined"@, Seq::empty()),
{
    law_refusal_is_the_outcome(s, stage, 1, reply, reply_text);
}

/// A request is made only after its answer was subscribed to: either the subscription has just
/// succeeded, or only the choice of the portal lay between.
#[verifier::rlimit(40)]
pub proof fn law_answers_are_subscribed_to_first(s: HandshakeView, event: PortalEvent)
    ensures
        s.step(event).1 matches ActionView::Call(request) ==> {
            ||| event is Subscribed && s.task == (TaskView::SubscribeFor { request })
            ||| s.task is ChooseForCreate && request.stage == PortalStage::CreateSession
            ||| s.task is ChooseForStart && request.stage == PortalStage::Start
        },
        s.step(event).0.task is ChooseForCreate && !(s.task is ChooseForCreate)
            ==> event is Subscribed && s.task is SubscribeCreate,
        s.step(event).0.task is ChooseForStart && !(s.task is ChooseForStart)
            ==> event is Subscribed && s.task is SubscribeStart,
{
}

/// The answer that is subscribed to is that of the stage that is awaited.
#[verifier::rlimit(40)]
pub proof fn law_subscribed_stage_is_awaited(s: HandshakeView, event: PortalEvent)
    ensures
        s.step(event).1 matches ActionView::Subscribe { stage, handle_token }
            ==> s.step(event).0.trace.waiting == stage,
{
}

/// Restore tokens are read and stored only with the screen cast portal, and only if it supports
/// them.
#[verifier::rlimit(40)]
pub proof fn law_tokens_need_screen_cast(s: HandshakeView, event: PortalEvent)
    ensures
        s.step(event).1 is ReadRestoreToken || s.step(event).1 is SaveRestoreToken ==> s.restore
            && (event matches PortalEvent::Portal { remote_desktop } && !remote_desktop),
{
}

/// The descriptor of the remote is set only once the session was started, by opening the remote.
#[verifier::rlimit(40)]
pub proof fn law_remote_opens_last(s: HandshakeView, event: PortalEvent)
    ensures
        s.step(event).0.fd != s.fd ==> s.task is OpenFor && event is RemoteOpened,
        s.step(event).0.task is OpenFor && !(s.task is OpenFor) ==> {
            ||| s.task is ChooseForStreams
            ||| s.task is SaveToken
        },
{
}

/// The session that requests are made for comes from the answer to the request for a session, and
/// no other event changes it.
#[verifier::rlimit(40)]
pub proof fn law_session_comes_with_its_grant(s: HandshakeView, event: PortalEvent)
    ensures
        s.step(event).0.session != s.session ==> {
            event matches PortalEvent::Response { stage, code, reply, reply_text } && stage
                == PortalStage::CreateSession && code == 0 && s.step(event).0.session
                == reply.text_named("session_handle"@)
        },
        s.session is Some ==> s.step(event).0.session is Some,
{
}

/// Once the session has started, a failure to hand over the PipeWire remote is reported as such.
pub proof fn law_failed_handover_is_named(s: HandshakeView, fault: DBusFault)
    requires
        s.task is OpenFor,
        s.trace.reason is None,
        s.fd is None,
    ensures
        ({
            let end = s.step(PortalEvent::RemoteFailed(fault)).0;
            &&& !end.wants_poll()
            &&& !end.is_granted()
            &&& end.failure() == fault_tag("open-pipewire-remote"@, fault@)
        }),
{
}

impl HandshakeView {
    /// The handshake after some events.
    pub open spec fn run(self, events: Seq<PortalEvent>) -> HandshakeView
        decreases events.len(),
    {
        if events.len() == 0 {
            self
        } else {
            self.step(events[0]).0.run(events.drop_first())
        }
    }
}

/// The tag that is on record first is the outcome of the handshake, whatever happens afterwards,
/// unless the session is complete after all.
pub proof fn law_first_tag_is_the_outcome(
    s: HandshakeView,
    tag: Seq<char>,
    events: Seq<PortalEvent>,
)
    requires
        s.trace.reason == Some(tag),
    ensures
        s.run(events).failure() == tag,
    decreases events.len(),
{
    if events.len() > 0 {
        law_later_steps_keep_the_cause(s, events[0]);
        law_first_tag_is_the_outcome(s.step(events[0]).0, tag, events.drop_first());
    }
}

/// One run after another.
proof fn lemma_run_in_parts(s: HandshakeView, first: Seq<PortalEvent>, second: Seq<PortalEvent>)
    ensures
        s.run(first + second) == s.run(first).run(second),
    decreases first.len(),
{
    if first.len() > 0 {
        lemma_run_in_parts(s.step(first[0]).0, first.drop_first(), second);
        assert((first + second).drop_first() =~= first.drop_first() + second);
    } else {
        assert(first + second =~= second);
    }
}

/// A run that ends with one more event.
proof fn lemma_run_once_more(s: HandshakeView, events: Seq<PortalEvent>, event: PortalEvent)
    ensures
        s.run(events.push(event)) == s.run(events).step(event).0,
{
    reveal_with_fuel(HandshakeView::run, 2);
    lemma_run_in_parts(s, events, seq![event]);
    assert(events + seq![event] =~= events.push(event));
    assert(seq![event].drop_first() =~= Seq::empty());
}

/// What comes in a handshake in which every request is granted: the answers, and what is asked for
/// between them.
pub struct Grants {
    pub remote_desktop: bool,
    pub created: Reply,
    pub devices: Reply,
    pub sources: Reply,
    pub started: Reply,
    pub reply_text: String,
    pub restore_token: String,
    pub cursor_modes: Option<u32>,
    pub fd: i32,
}

impl Grants {
    /// The grant of a request.
    pub open spec fn grant(self, stage: PortalStage, reply: Reply) -> PortalEvent {
        PortalEvent::Response { stage, code: 0, reply, reply_text: self.reply_text }
    }

    /// The events until there is a session.
    pub open spec fn opening(self) -> Seq<PortalEvent> {
        seq![
            PortalEvent::Subscribed,
            PortalEvent::Portal { remote_desktop: self.remote_desktop },
            PortalEvent::Called,
            self.grant(PortalStage::CreateSession, self.created),
            PortalEvent::Portal { remote_desktop: self.remote_desktop },
        ]
    }

    /// The events between that and the request for sources.
    pub open spec fn preparing(self, restore: bool, cursor: bool) -> Seq<PortalEvent> {
        if self.remote_desktop {
            seq![
                PortalEvent::Subscribed,
                PortalEvent::Called,
                self.grant(PortalStage::SelectDevices, self.devices),
                PortalEvent::Portal { remote_desktop: self.remote_desktop },
            ]
        } else if restore && cursor {
            seq![
                PortalEvent::RestoreToken(self.restore_token),
                PortalEvent::CursorModes(self.cursor_modes),
            ]
        } else if restore {
            seq![PortalEvent::RestoreToken(self.restore_token)]
        } else if cursor {
            seq![PortalEvent::CursorModes(self.cursor_modes)]
        } else {
            Seq::empty()
        }
    }

    /// The events from the request for sources until the session has started.
    pub open spec fn starting(self) -> Seq<PortalEvent> {
        seq![
            PortalEvent::Subscribed,
            PortalEvent::Called,
            self.grant(PortalStage::SelectSources, self.sources),
            PortalEvent::Subscribed,
            PortalEvent::Portal { remote_desktop: self.remote_desktop },
            PortalEvent::Called,
            self.grant(PortalStage::Start, self.started),
            PortalEvent::Portal { remote_desktop: self.remote_desktop },
        ]
    }

    /// The events until the PipeWire remote is open.
    pub open spec fn ending(self, restore: bool) -> Seq<PortalEvent> {
        if !self.remote_desktop && restore && self.started.text_named("restore_token"@) is Some {
            seq![PortalEvent::TokenSaved, PortalEvent::RemoteOpened(self.fd)]
        } else {
            seq![PortalEvent::RemoteOpened(self.fd)]
        }
    }

    /// All events.
    pub open spec fn events(self, restore: bool, cursor: bool) -> Seq<PortalEvent> {
        self.opening() + self.preparing(restore, cursor) + self.starting() + self.ending(restore)
    }
}

impl HandshakeView {
    /// The handshake once it has begun.
    pub open spec fn begun(self) -> HandshakeView {
        HandshakeView { task: TaskView::SubscribeCreate, ..self }
    }

    /// The handshake with a session, about to ask for sources, with nothing failed.
    spec fn asks_sources(self, before: HandshakeView, session: Seq<char>) -> bool {
        &&& self.task is SubscribeFor
        &&& self.task->SubscribeFor_request.stage == PortalStage::SelectSources
        &&& self.session == Some(session)
        &&& self.fd is None
        &&& self.streams == before.streams
        &&& self.has_position == before.has_position
        &&& self.trace.reason is None
        &&& !self.trace.failed
        &&& self.restore == before.restore
        &&& self.polls == before.polls
    }
}

/// A run of no events.
proof fn lemma_run_nothing(s: HandshakeView)
    ensures
        s.run(Seq::empty()) == s,
{
}

/// Every request up to the one for sources is granted.
#[verifier::rlimit(40)]
proof fn lemma_granted_until_sources(s: HandshakeView, g: Grants, session: Seq<char>)
    requires
        s.fd is None,
        s.trace.reason is None,
        !s.trace.failed,
        g.created.text_named("session_handle"@) == Some(session),
    ensures
        s.begun().run(g.opening() + g.preparing(s.restore, s.cursor)).asks_sources(s, session),
{
    let none = Seq::<PortalEvent>::empty();
    let choice = PortalEvent::Portal { remote_desktop: g.remote_desktop };
    let created = g.grant(PortalStage::CreateSession, g.created);
    let b = s.begun();
    lemma_run_nothing(b);
    lemma_run_once_more(b, none, PortalEvent::Subscribed);
    let e1 = none.push(PortalEvent::Subscribed);
    lemma_run_once_more(b, e1, choice);
    let e2 = e1.push(choice);
    lemma_run_once_more(b, e2, PortalEvent::Called);
    let e3 = e2.push(PortalEvent::Called);
    lemma_run_once_more(b, e3, created);
    let e4 = e3.push(created);
    let s4 = b.run(e4);
    assert(s4 == (HandshakeView { session: Some(session), task: TaskView::ChooseForSelect, ..s }));
    lemma_run_once_more(b, e4, choice);
    let e5 = e4.push(choice);
    assert(e5 =~= g.opening());
    let s5 = b.run(e5);
    lemma_run_in_parts(b, e5, g.preparing(s.restore, s.cursor));
    lemma_run_nothing(s5);
    if g.remote_desktop {
        let devices = g.grant(PortalStage::SelectDevices, g.devices);
        lemma_run_once_more(s5, none, PortalEvent::Subscribed);
        let p1 = none.push(PortalEvent::Subscribed);
        lemma_run_once_more(s5, p1, PortalEvent::Called);
        let p2 = p1.push(PortalEvent::Called);
        lemma_run_once_more(s5, p2, devices);
        let p3 = p2.push(devices);
        lemma_run_once_more(s5, p3, choice);
        assert(p3.push(choice) =~= g.preparing(s.restore, s.cursor));
    } else {
        let token = PortalEvent::RestoreToken(g.restore_token);
        let modes = PortalEvent::CursorModes(g.cursor_modes);
        lemma_run_once_more(s5, none, token);
        lemma_run_once_more(s5, none, modes);
        lemma_run_once_more(s5, none.push(token), modes);
        if s.restore && s.cursor {
            assert(none.push(token).push(modes) =~= g.preparing(s.restore, s.cursor));
        } else if s.restore {
            assert(none.push(token) =~= g.preparing(s.restore, s.cursor));
        } else if s.cursor {
            assert(none.push(modes) =~= g.preparing(s.restore, s.cursor));
        } else {
            assert(none =~= g.preparing(s.restore, s.cursor));
        }
    }
}

/// Every request from the one for sources on is granted.
#[verifier::rlimit(40)]
proof fn lemma_granted_from_sources(
    before: HandshakeView,
    s: HandshakeView,
    g: Grants,
    session: Seq<char>,
)
    requires
        s.asks_sources(before, session),
    ensures
        ({
            let end = s.run(g.starting() + g.ending(before.restore));
            &&& end.session == Some(session)
            &&& end.fd == Some(g.fd)
            &&& end.streams == before.streams + reply_streams(g.started)
            &&& end.has_position == (before.has_position || reply_has_position(g.started))
            &&& !end.trace.failed
            &&& end.restore == before.restore
        }),
{
    let none = Seq::<PortalEvent>::empty();
    let choice = PortalEvent::Portal { remote_desktop: g.remote_desktop };
    let sources = g.grant(PortalStage::SelectSources, g.sources);
    let started = g.grant(PortalStage::Start, g.started);
    lemma_run_nothing(s);
    lemma_run_once_more(s, none, PortalEvent::Subscribed);
    let e1 = none.push(PortalEvent::Subscribed);
    lemma_run_once_more(s, e1, PortalEvent::Called);
    let e2 = e1.push(PortalEvent::Called);
    lemma_run_once_more(s, e2, sources);
    let e3 = e2.push(sources);
    lemma_run_once_more(s, e3, PortalEvent::Subscribed);
    let e4 = e3.push(PortalEvent::Subscribed);
    lemma_run_once_more(s, e4, choice);
    let e5 = e4.push(choice);
    lemma_run_once_more(s, e5, PortalEvent::Called);
    let e6 = e5.push(PortalEvent::Called);
    lemma_run_once_more(s, e6, started);
    let e7 = e6.push(started);
    let s7 = s.run(e7);
    assert(s7.task == (TaskView::ChooseForStreams { reply: g.started }));
    assert(s7.streams == before.streams && s7.session == Some(session) && !s7.trace.failed);
    lemma_run_once_more(s, e7, choice);
    let e8 = e7.push(choice);
    assert(e8 =~= g.starting());
    let s8 = s.run(e8);
    lemma_run_in_parts(s, e8, g.ending(before.restore));
    let opened = PortalEvent::RemoteOpened(g.fd);
    lemma_run_nothing(s8);
    if !g.remote_desktop && before.restore && g.started.text_named("restore_token"@) is Some {
        lemma_run_once_more(s8, none, PortalEvent::TokenSaved);
        lemma_run_once_more(s8, none.push(PortalEvent::TokenSaved), opened);
        assert(none.push(PortalEvent::TokenSaved).push(opened) =~= g.ending(before.restore));
    } else {
        lemma_run_once_more(s8, none, opened);
        assert(none.push(opened) =~= g.ending(before.restore));
    }
}

/// If every request is granted, through either portal, the handshake ends with the session that was
/// granted, its streams, whether one of them came with a position, and the descriptor of the
/// PipeWire remote.
pub proof fn law_granted_requests_give_the_session(
    version: Option<u32>,
    capture_cursor: bool,
    g: Grants,
    session: Seq<char>,
)
    requires
        g.created.text_named("session_handle"@) == Some(session),
        reply_streams(g.started).len() > 0,
    ensures
        ({
            let fresh = HandshakeView::fresh(version, capture_cursor);
            let end = fresh.begun().run(g.events(supports_restore(version), capture_cursor));
            &&& end.is_granted()
            &&& end.session == Some(session)
            &&& end.streams == reply_streams(g.started)
            &&& end.has_position == reply_has_position(g.started)
            &&& end.fd == Some(g.fd)
            &&& end.restore == supports_restore(version)
            &&& !end.wants_poll()
        }),
{
    let fresh = HandshakeView::fresh(version, capture_cursor);
    let (restore, cursor) = (supports_restore(version), capture_cursor);
    lemma_granted_until_sources(fresh, g, session);
    let first = g.opening() + g.preparing(restore, cursor);
    let second = g.starting() + g.ending(restore);
    let s = fresh.begun().run(first);
    lemma_granted_from_sources(fresh, s, g, session);
    lemma_run_in_parts(fresh.begun(), first, second);
    assert(first + second =~= g.events(restore, cursor));
    assert(fresh.streams + reply_streams(g.started) =~= reply_streams(g.started));
}

/// Events do not make the time to decide longer, which ends after a bounded number of polls.
pub proof fn law_polling_is_bounded(s: HandshakeView, events: Seq<PortalEvent>)
    ensures
        s.run(events).polls == s.polls,
        s.polls >= POLL_LIMIT ==> !s.run(events).wants_poll(),
    decreases events.len(),
{
    if events.len() > 0 {
        law_polling_is_bounded(s.step(events[0]).0, events.drop_first());
    }
}

/// However a handshake goes, a failure is on record, and polling has stopped then.
pub proof fn law_failed_handshakes_have_a_tag(s: HandshakeView, events: Seq<PortalEvent>)
    requires
        s.is_sound(),
    ensures
        s.run(events).is_sound(),
        s.run(events).trace.failed ==> !s.run(events).wants_poll(),
    decreases events.len(),
{
    if events.len() > 0 {
        law_failures_are_on_record(None, false, s, events[0]);
        law_failed_handshakes_have_a_tag(s.step(events[0]).0, events.drop_first());
    }
}

/// A handshake begins by subscribing to the answer of the request for a session, and makes that
/// request, through the portal that is chosen, only afterwards. The granted session is the one that
/// the answer names, and the portal is chosen anew.
#[verifier::rlimit(40)]
pub proof fn law_session_is_asked_for_first(
    version: Option<u32>,
    capture_cursor: bool,
    remote_desktop: bool,
    reply: Reply,
    reply_text: String,
    handle: Seq<char>,
)
    requires
        reply.text_named("session_handle"@) == Some(handle),
    ensures
        ({
            let fresh = HandshakeView::fresh(version, capture_cursor);
            let (s1, a1) = fresh.begun().step(PortalEvent::Subscribed);
            let (s2, a2) = s1.step(PortalEvent::Portal { remote_desktop });
            let (s3, a3) = s2.step(PortalEvent::Called);
            let (s4, a4) = s3.step(
                PortalEvent::Response {
                    stage: PortalStage::CreateSession,
                    code: 0,
                    reply,
                    reply_text,
                },
            );
            &&& fresh.restore == (version matches Some(v) && v >= 4)
            &&& fresh.cursor == capture_cursor
            &&& fresh.wants_poll()
            &&& fresh.trace.waiting == PortalStage::CreateSession
            &&& a1 is ChoosePortal
            &&& a2 matches ActionView::Call(r) && r.stage == PortalStage::CreateSession
                && r.remote_desktop == remote_desktop && r.handle_token == "u1"@
                && r.args.contains(("session_handle_token"@, ArgView::Text("u1"@)))
                && r.args.contains(("handle_token"@, ArgView::Text("u1"@))) && r.args.len() == 2
            &&& a3 is Wait
            &&& a4 is ChoosePortal
            &&& s4.task is ChooseForSelect
            &&& s4 == (HandshakeView {
                session: Some(handle),
                task: TaskView::ChooseForSelect,
                ..fresh
            })
        }),
{
    law_session_request_has_its_tokens(remote_desktop);
}

/// With the screen cast portal a session goes on to its sources. Where tokens are supported, the
/// stored one is read and, unless it is empty, sent, with or without the cursor; where they are not,
/// none is. The cursor is asked for in the picture if and only if it is captured and the portal can
/// do that. Then the session is started.
#[verifier::rlimit(60)]
pub proof fn law_screen_cast_goes_on_to_sources(
    s: HandshakeView,
    token: String,
    modes: Option<u32>,
    reply: Reply,
    reply_text: String,
)
    requires
        s.task is ChooseForSelect,
    ensures
        ({
            let (p1, a1) = s.step(PortalEvent::Portal { remote_desktop: false });
            let (p2, a2) = if s.restore {
                p1.step(PortalEvent::RestoreToken(token))
            } else {
                (p1, a1)
            };
            let (p3, a3) = if s.cursor {
                p2.step(PortalEvent::CursorModes(modes))
            } else {
                (p2, a2)
            };
            let (p4, a4) = p3.step(PortalEvent::Subscribed);
            let (p5, a5) = p4.step(PortalEvent::Called);
            let (p6, a6) = p5.step(
                PortalEvent::Response {
                    stage: PortalStage::SelectSources,
                    code: 0,
                    reply,
                    reply_text,
                },
            );
            let embedded = s.cursor && (modes matches Some(m) && m & 2u32 != 0);
            &&& s.restore <==> a1 is ReadRestoreToken
            &&& s.cursor <==> a2 is AskCursorModes
            &&& a3 == (ActionView::Subscribe {
                stage: PortalStage::SelectSources,
                handle_token: "u3"@,
            })
            &&& p3.trace.waiting == PortalStage::SelectSources
            &&& a4 matches ActionView::Call(r) && r.stage == PortalStage::SelectSources
                && !r.remote_desktop && r.handle_token == "u3"@ && r.args.contains(
                ("handle_token"@, ArgView::Text("u3"@)),
            ) && r.args.contains(("multiple"@, ArgView::Flag(true))) && r.args.contains(
                ("types"@, ArgView::Number(1)),
            ) && (s.restore && token@.len() > 0 ==> r.args.contains(
                ("restore_token"@, ArgView::Text(token@)),
            )) && (s.restore ==> r.args.contains(("persist_mode"@, ArgView::Number(2)))) && (embedded
                ==> r.args.contains(("cursor_mode"@, ArgView::Number(2)))) && r.args.len() == 3 + (
            if s.restore {
                1int
            } else {
                0
            }) + (if s.restore && token@.len() > 0 {
                1int
            } else {
                0
            }) + (if embedded {
                1int
            } else {
                0
            })
            &&& a5 is Wait
            &&& a6 == (ActionView::Subscribe { stage: PortalStage::Start, handle_token: "u4"@ })
            &&& p6 == (HandshakeView {
                trace: s.trace.awaiting(PortalStage::Start),
                task: TaskView::SubscribeStart,
                ..s
            })
        }),
{
    let restore = if s.restore {
        Some(token@)
    } else {
        None
    };
    law_sources_request_carries_what_is_known(restore, false, token@);
    law_sources_request_carries_what_is_known(restore, true, token@);
    if let Some(m) = modes {
        law_embedded_cursor_is_a_bit(m);
    }
}

/// With the remote desktop portal a session goes on to all kinds of devices and then to its sources,
/// which are several only if the remote desktop portal is no longer used by then. Then the session
/// is started.
#[verifier::rlimit(60)]
pub proof fn law_remote_desktop_goes_on_to_devices(
    s: HandshakeView,
    still_remote: bool,
    devices: Reply,
    sources: Reply,
    reply_text: String,
)
    requires
        s.task is ChooseForSelect,
    ensures
        ({
            let (p1, a1) = s.step(PortalEvent::Portal { remote_desktop: true });
            let (p2, a2) = p1.step(PortalEvent::Subscribed);
            let (p3, a3) = p2.step(PortalEvent::Called);
            let (p4, a4) = p3.step(
                PortalEvent::Response {
                    stage: PortalStage::SelectDevices,
                    code: 0,
                    reply: devices,
                    reply_text,
                },
            );
            let (p5, a5) = p4.step(PortalEvent::Portal { remote_desktop: still_remote });
            let (p6, a6) = p5.step(PortalEvent::Subscribed);
            let (p7, a7) = p6.step(PortalEvent::Called);
            let (p8, a8) = p7.step(
                PortalEvent::Response {
                    stage: PortalStage::SelectSources,
                    code: 0,
                    reply: sources,
                    reply_text,
                },
            );
            &&& a1 == (ActionView::Subscribe {
                stage: PortalStage::SelectDevices,
                handle_token: "u2"@,
            })
            &&& p1.trace.waiting == PortalStage::SelectDevices
            &&& a2 matches ActionView::Call(r) && r.stage == PortalStage::SelectDevices
                && r.remote_desktop && r.handle_token == "u2"@ && r.args.contains(
                ("handle_token"@, ArgView::Text("u2"@)),
            ) && r.args.contains(("types"@, ArgView::Number(7))) && r.args.len() == 2
            &&& a3 is Wait
            &&& a4 is TellPortal
            &&& a5 == (ActionView::Subscribe {
                stage: PortalStage::SelectSources,
                handle_token: "u3"@,
            })
            &&& p5.trace.waiting == PortalStage::SelectSources
            &&& a6 matches ActionView::Call(r) && r.stage == PortalStage::SelectSources
                && r.handle_token == "u3"@ && r.args.contains(
                ("handle_token"@, ArgView::Text("u3"@)),
            ) && r.args.contains(("types"@, ArgView::Number(1))) && (r.args.contains(
                ("multiple"@, ArgView::Flag(true)),
            ) <==> !still_remote) && r.args.len() == (if still_remote {
                2int
            } else {
                3
            })
            &&& a7 is Wait
            &&& a8 == (ActionView::Subscribe { stage: PortalStage::Start, handle_token: "u4"@ })
            &&& p8 == (HandshakeView {
                trace: s.trace.awaiting(PortalStage::Start),
                task: TaskView::SubscribeStart,
                ..s
            })
        }),
{
    law_devices_request_asks_for_all_kinds();
    law_remote_desktop_has_one_source(still_remote);
}

/// The session is started through the portal that is chosen then. From the answer the streams are
/// taken over, and a restore token is stored if and only if the screen cast portal is used, tokens
/// are supported and the answer has one. Only then is the PipeWire remote opened, whose descriptor
/// ends the handshake.
#[verifier::rlimit(60)]
pub proof fn law_started_session_hands_over(
    s: HandshakeView,
    remote_desktop: bool,
    later_remote: bool,
    reply: Reply,
    reply_text: String,
    fd: i32,
)
    requires
        s.task is SubscribeStart,
    ensures
        ({
            let (p1, a1) = s.step(PortalEvent::Subscribed);
            let (p2, a2) = p1.step(PortalEvent::Portal { remote_desktop });
            let (p3, a3) = p2.step(PortalEvent::Called);
            let (p4, a4) = p3.step(
                PortalEvent::Response { stage: PortalStage::Start, code: 0, reply, reply_text },
            );
            let (p5, a5) = p4.step(PortalEvent::Portal { remote_desktop: later_remote });
            let stores = !later_remote && s.restore && reply.text_named("restore_token"@) is Some;
            let (p6, a6) = if stores {
                p5.step(PortalEvent::TokenSaved)
            } else {
                (p5, a5)
            };
            let (p7, a7) = p6.step(PortalEvent::RemoteOpened(fd));
            &&& a1 is ChoosePortal
            &&& a2 matches ActionView::Call(r) && r.stage == PortalStage::Start && r.remote_desktop
                == remote_desktop && r.handle_token == "u4"@ && r.args.contains(
                ("handle_token"@, ArgView::Text("u4"@)),
            ) && r.args.len() == 1
            &&& a3 is Wait
            &&& a4 is ChoosePortal
            &&& stores ==> a5 == ActionView::SaveRestoreToken(
                reply.text_named("restore_token"@)->0,
            )
            &&& a6 is OpenRemote
            &&& p6.trace.waiting == PortalStage::OpenPipeWireRemote
            &&& a7 is Wait
            &&& p7.fd == Some(fd)
            &&& p7.session == s.session
            &&& p7.streams == s.streams + reply_streams(reply)
            &&& p7.has_position == (s.has_position || reply_has_position(reply))
            &&& p7.trace.failed == s.trace.failed
            &&& p7.trace.reason == s.trace.reason
            &&& p7.restore == s.restore
        }),
{
    law_start_request_has_its_token(remote_desktop);
}

/// A request that cannot be made is the outcome, named after its stage; a subscription that cannot
/// be made is one too: that of the first request is named as such, those of later ones keep a tag
/// or are internal to the stage that they belong to.
#[verifier::rlimit(60)]
pub proof fn law_failed_steps_name_their_stage(
    s: HandshakeView,
    event: PortalEvent,
    fault: DBusFault,
    version: Option<u32>,
    capture_cursor: bool,
)
    requires
        s.trace.reason is None,
        s.fd is None,
    ensures
        s.step(event).1 matches ActionView::Call(r) ==> (s.step(event).0.trace.reason is None ==> {
            let end = s.step(event).0.step(PortalEvent::CallFailed(fault)).0;
            &&& end.failure() == fault_tag(stage_name(r.stage), fault@)
            &&& end.trace.failed && !end.wants_poll()
        }),
        s.step(event).1 matches ActionView::Subscribe { stage, handle_token } ==> {
            let end = s.step(event).0.step(PortalEvent::SubscribeFailed(fault)).0;
            let text = fault@.text();
            &&& end.failure() == (if occurs_at("wl-stage:"@, text, 0) {
                text
            } else {
                stage_tag(stage_name(stage), "internal"@, text)
            })
            &&& end.trace.failed && !end.wants_poll()
        },
        ({
            let begun = HandshakeView::fresh(version, capture_cursor).begun();
            let end = begun.step(PortalEvent::SubscribeFailed(fault)).0;
            &&& end.failure() == fault_tag("create-session"@, fault@)
            &&& end.trace.failed && !end.wants_poll()
        }),
{
}

/// A session without a path is an internal failure of the stage that is awaited.
pub proof fn law_sessions_need_a_path(s: HandshakeView, reply: Reply, reply_text: String)
    requires
        s.trace.reason is None,
        s.fd is None,
        reply.text_named("session_handle"@) is None,
    ensures
        ({
            let end = s.step(
                PortalEvent::Response {
                    stage: PortalStage::CreateSession,
                    code: 0,
                    reply,
                    reply_text,
                },
            ).0;
            &&& end.trace.failed && !end.wants_poll() && !end.is_granted()
            &&& end.session == s.session
            &&& reply.named("session_handle"@) is Some ==> end.failure() == stage_tag(
                stage_name(s.trace.waiting),
                "internal"@,
                "Failed to convert session_handle to string."@,
            )
            &&& reply.named("session_handle"@) is None ==> end.failure() == stage_tag(
                stage_name(s.trace.waiting),
                "internal"@,
                "Failed to obtain session_handle from response: "@ + reply_text@,
            )
        }),
{
    reveal_strlit("wl-stage:");
    reveal_strlit("Failed to convert session_handle to string.");
    reveal_strlit("Failed to obtain session_handle from response: ");
    let text = "Failed to obtain session_handle from response: "@ + reply_text@;
    let other = "Failed to convert session_handle to string."@;
    assert(text.subrange(0, 9)[0] == 'F');
    assert(other.subrange(0, 9)[0] == 'F');
    assert("wl-stage:"@[0] == 'w');
    assert(!occurs_at("wl-stage:"@, text, 0));
    assert(!occurs_at("wl-stage:"@, other, 0));
}

/// The outcome is the session if and only if there is a descriptor, a session and a stream. Without
/// any failure on record, a handshake that has a descriptor failed for want of streams, and one that
/// has none for want of an answer at the stage that is awaited.
pub proof fn law_how_a_handshake_ends(s: HandshakeView)
    ensures
        s.is_granted() <==> s.fd is Some && s.session is Some && s.streams.len() > 0,
        s.trace.reason is None && s.fd is Some ==> s.failure() == stage_tag(
            "streams"@,
            "empty"@,
            Seq::empty(),
        ),
        s.trace.reason is None && s.fd is None ==> s.failure() == stage_tag(
            stage_name(s.trace.waiting),
            "no-response"@,
            Seq::empty(),
        ),
        s.trace.reason matches Some(r) ==> s.failure() == r,
        s.wants_poll() <==> s.polls < 1800 && s.fd is None && !s.trace.failed,
        s.session matches Some(p) ==> s.session_path() == p,
        s.session is None ==> s.session_path() == "/"@,
{
}

/// An action is what it says.
pub proof fn law_actions_are_what_they_say(
    stage: PortalStage,
    text: String,
    request: PortalRequest,
)
    ensures
        PortalAction::Wait@ is Wait,
        (PortalAction::Subscribe { stage, handle_token: text })@ == (ActionView::Subscribe {
            stage,
            handle_token: text@,
        }),
        PortalAction::ChoosePortal@ is ChoosePortal,
        PortalAction::TellPortal@ is TellPortal,
        PortalAction::ReadRestoreToken@ is ReadRestoreToken,
        PortalAction::AskCursorModes@ is AskCursorModes,
        PortalAction::Call(request)@ == ActionView::Call(request@),
        PortalAction::SaveRestoreToken(text)@ == ActionView::SaveRestoreToken(text@),
        PortalAction::OpenRemote@ is OpenRemote,
{
}

/// A handshake is what it holds.
pub proof fn law_handshakes_are_what_they_hold(h: PortalHandshake)
    ensures
        h@.trace == h.trace@,
        h.session matches Some(p) ==> h@.session == Some(p@),
        h.session is None ==> h@.session is None,
        h@.fd == h.fd,
        h@.streams == h.streams@,
        h@.has_position == h.has_position,
        h@.restore == h.is_support_restore_token,
        h@.cursor == h.capture_cursor,
        h@.polls == h.polls,
{
}

/// What was told does not change in a handshake: whether tokens are supported, whether the cursor is
/// captured, and how often the bus was polled. Streams come with the end of the start only, after the
/// portal was chosen or the token was stored.
#[verifier::rlimit(60)]
pub proof fn law_events_change_their_part_only(s: HandshakeView, event: PortalEvent)
    ensures
        s.step(event).0.restore == s.restore,
        s.step(event).0.cursor == s.cursor,
        s.step(event).0.polls == s.polls,
        s.step(event).0.streams != s.streams || s.step(event).0.has_position != s.has_position ==> {
            ||| event is Portal && s.task is ChooseForStreams
            ||| event is TokenSaved && s.task is SaveToken
        },
        s.trace.failed || !(event is Response || event is SubscribeFailed || event is CallFailed
            || event is RemoteFailed) ==> s.step(event).0.trace.failed == s.trace.failed,
{
}

/// An event that does not belong to what is under way changes nothing, and is waited on.
pub proof fn law_stray_events_change_nothing(
    s: HandshakeView,
    fault: DBusFault,
    token: String,
    modes: Option<u32>,
    remote_desktop: bool,
    fd: i32,
)
    ensures
        !(s.task is SubscribeCreate || s.task is SubscribeFor || s.task is SubscribeStart) ==> s.step(
            PortalEvent::Subscribed,
        ) == (s, ActionView::Wait) && s.step(PortalEvent::SubscribeFailed(fault)) == (
            s,
            ActionView::Wait,
        ),
        !(s.task is ChooseForCreate || s.task is ChooseForSelect || s.task is TellForSources
            || s.task is ChooseForStart || s.task is ChooseForStreams) ==> s.step(
            PortalEvent::Portal { remote_desktop },
        ) == (s, ActionView::Wait),
        !(s.task is TokenForSources) ==> s.step(PortalEvent::RestoreToken(token)) == (
            s,
            ActionView::Wait,
        ),
        !(s.task is CursorForSources) ==> s.step(PortalEvent::CursorModes(modes)) == (
            s,
            ActionView::Wait,
        ),
        !(s.task is CallFor) ==> s.step(PortalEvent::Called) == (s, ActionView::Wait) && s.step(
            PortalEvent::CallFailed(fault),
        ) == (s, ActionView::Wait),
        !(s.task is SaveToken) ==> s.step(PortalEvent::TokenSaved) == (s, ActionView::Wait),
        !(s.task is OpenFor) ==> s.step(PortalEvent::RemoteOpened(fd)) == (s, ActionView::Wait)
            && s.step(PortalEvent::RemoteFailed(fault)) == (s, ActionView::Wait),
{
}

/// An answer counts whatever is under way. One that refuses ends what was under way, and leaves the
/// session and its streams as they are.
#[verifier::rlimit(60)]
pub proof fn law_answers_count_at_any_time(
    s: HandshakeView,
    other: TaskView,
    stage: PortalStage,
    code: u32,
    reply: Reply,
    reply_text: String,
)
    ensures
        ({
            let event = PortalEvent::Response { stage, code, reply, reply_text };
            let (p, a) = s.step(event);
            &&& s.step(event) == (HandshakeView { task: other, ..s }).step(event)
            &&& code != 0 || stage == PortalStage::OpenPipeWireRemote ==> {
                &&& a is Wait
                &&& p == (HandshakeView { trace: p.trace, task: TaskView::Idle, ..s })
            }
            &&& code != 0 ==> p.trace.failed && p.trace.waiting == s.trace.waiting
            &&& code == 0 && stage == PortalStage::OpenPipeWireRemote ==> p.trace == s.trace
        }),
{
}

/// Once a request was made nothing is under way but waiting, and an opened remote adds its descriptor;
/// nothing else changes.
pub proof fn law_made_requests_are_waited_for(s: HandshakeView, fd: i32)
    ensures
        s.task is CallFor ==> s.step(PortalEvent::Called) == (
            HandshakeView { task: TaskView::Idle, ..s },
            ActionView::Wait,
        ),
        s.task is OpenFor ==> s.step(PortalEvent::RemoteOpened(fd)) == (
            HandshakeView { fd: Some(fd), task: TaskView::Idle, ..s },
            ActionView::Wait,
        ),
{
}

} // verus!
