//! The requests to the desktop portal.

use vstd::prelude::*;

use crate::stage::PortalStage;

verus! {

/// An argument of a request.
#[derive(Debug)]
pub enum ArgValue {
    Text(String),
    Flag(bool),
    Number(u32),
}

/// An argument as plain values.
pub enum ArgView {
    Text(Seq<char>),
    Flag(bool),
    Number(u32),
}

impl View for ArgValue {
    type V = ArgView;

    open spec fn view(&self) -> ArgView {
        match *self {
            ArgValue::Text(s) => ArgView::Text(s@),
            ArgValue::Flag(b) => ArgView::Flag(b),
            ArgValue::Number(n) => ArgView::Number(n),
        }
    }
}

/// Named arguments as plain values.
pub open spec fn args_view(args: Seq<(String, ArgValue)>) -> Seq<(Seq<char>, ArgView)> {
    args.map_values(|a: (String, ArgValue)| (a.0@, a.1@))
}

/// A request to the portal.
#[derive(Debug)]
pub struct PortalRequest {
    /// The stage that the request belongs to.
    pub stage: PortalStage,
    /// Whether it goes to the remote desktop portal, where both portals have the request.
    pub remote_desktop: bool,
    /// The token that makes up the path of its answer.
    pub handle_token: String,
    pub args: Vec<(String, ArgValue)>,
}

/// A request as plain values.
#[verifier::ext_equal]
pub struct RequestView {
    pub stage: PortalStage,
    pub remote_desktop: bool,
    pub handle_token: Seq<char>,
    pub args: Seq<(Seq<char>, ArgView)>,
}

impl View for PortalRequest {
    type V = RequestView;

    open spec fn view(&self) -> RequestView {
        RequestView {
            stage: self.stage,
            remote_desktop: self.remote_desktop,
            handle_token: self.handle_token@,
            args: args_view(self.args@),
        }
    }
}

/// The argument that holds a token.
pub open spec fn token_arg(token: Seq<char>) -> (Seq<char>, ArgView) {
    ("handle_token"@, ArgView::Text(token))
}

/// The request for a session.
pub open spec fn create_session_request(remote_desktop: bool) -> RequestView {
    RequestView {
        stage: PortalStage::CreateSession,
        remote_desktop,
        handle_token: "u1"@,
        args: seq![("session_handle_token"@, ArgView::Text("u1"@)), token_arg("u1"@)],
    }
}

/// The request for input devices, of all three kinds.
pub open spec fn select_devices_request() -> RequestView {
    RequestView {
        stage: PortalStage::SelectDevices,
        remote_desktop: true,
        handle_token: "u2"@,
        args: seq![token_arg("u2"@), ("types"@, ArgView::Number(7))],
    }
}

/// The arguments that restore an earlier choice of the user and keep the one to come. An empty
/// token restores nothing.
pub open spec fn restore_args(restore: Option<Seq<char>>) -> Seq<(Seq<char>, ArgView)> {
    match restore {
        Some(t) => (if t.len() > 0 {
            seq![("restore_token"@, ArgView::Text(t))]
        } else {
            Seq::empty()
        }) + seq![("persist_mode"@, ArgView::Number(2))],
        None => Seq::empty(),
    }
}

/// The argument that makes the cursor part of the picture.
pub open spec fn cursor_args(embedded: bool) -> Seq<(Seq<char>, ArgView)> {
    if embedded {
        seq![("cursor_mode"@, ArgView::Number(2))]
    } else {
        Seq::empty()
    }
}

/// The request for monitors as sources, through the screen cast portal. `restore` is the stored
/// token, where tokens are supported.
pub open spec fn select_sources_request(restore: Option<Seq<char>>, embedded: bool) -> RequestView {
    RequestView {
        stage: PortalStage::SelectSources,
        remote_desktop: false,
        handle_token: "u3"@,
        args: restore_args(restore) + seq![
            token_arg("u3"@),
            ("multiple"@, ArgView::Flag(true)),
            ("types"@, ArgView::Number(1)),
        ] + cursor_args(embedded),
    }
}

/// The request for monitors as sources after input devices were selected. Several sources can be
/// selected only without the remote desktop portal.
pub open spec fn select_sources_after_devices(remote_desktop: bool) -> RequestView {
    RequestView {
        stage: PortalStage::SelectSources,
        remote_desktop,
        handle_token: "u3"@,
        args: seq![token_arg("u3"@)] + (if remote_desktop {
            Seq::empty()
        } else {
            seq![("multiple"@, ArgView::Flag(true))]
        }) + seq![("types"@, ArgView::Number(1))],
    }
}

/// The request to start the session.
pub open spec fn start_request(remote_desktop: bool) -> RequestView {
    RequestView {
        stage: PortalStage::Start,
        remote_desktop,
        handle_token: "u4"@,
        args: seq![token_arg("u4"@)],
    }
}

/// Adds an argument.
fn push_arg(args: &mut Vec<(String, ArgValue)>, key: &str, value: ArgValue)
    ensures
        args_view(final(args)@) == args_view(old(args)@).push((key@, value@)),
{
    let ghost before = args@;
    args.push((key.to_owned(), value));
    assert(args_view(args@) =~= args_view(before).push((key@, value@)));
}

impl PortalRequest {
    /// A request with just its token.
    fn with_token(stage: PortalStage, remote_desktop: bool, token: &str) -> (r: PortalRequest)
        ensures
            r@ == (RequestView {
                stage,
                remote_desktop,
                handle_token: token@,
                args: seq![token_arg(token@)],
            }),
    {
        let mut args: Vec<(String, ArgValue)> = Vec::new();
        push_arg(&mut args, "handle_token", ArgValue::Text(token.to_owned()));
        assert(args_view(args@) =~= seq![token_arg(token@)]);
        PortalRequest { stage, remote_desktop, handle_token: token.to_owned(), args }
    }

    /// The request for a session.
    pub fn create_session(remote_desktop: bool) -> (r: PortalRequest)
        ensures
            r@ == create_session_request(remote_desktop),
    {
        let mut args: Vec<(String, ArgValue)> = Vec::new();
        push_arg(&mut args, "session_handle_token", ArgValue::Text("u1".to_owned()));
        push_arg(&mut args, "handle_token", ArgValue::Text("u1".to_owned()));
        let r = PortalRequest {
            stage: PortalStage::CreateSession,
            remote_desktop,
            handle_token: "u1".to_owned(),
            args,
        };
        assert(r@ =~= create_session_request(remote_desktop));
        r
    }

    /// The request for input devices.
    pub fn select_devices() -> (r: PortalRequest)
        ensures
            r@ == select_devices_request(),
    {
        let mut r = PortalRequest::with_token(PortalStage::SelectDevices, true, "u2");
        push_arg(&mut r.args, "types", ArgValue::Number(7));
        assert(r@ =~= select_devices_request());
        r
    }

    /// The request for sources through the screen cast portal.
    pub fn select_sources(restore: Option<&str>, embedded: bool) -> (r: PortalRequest)
        ensures
            r@ == select_sources_request(
                match restore {
                    Some(t) => Some(t@),
                    None => None,
                },
                embedded,
            ),
    {
        let mut args: Vec<(String, ArgValue)> = Vec::new();
        match restore {
            Some(t) => {
                if !t.is_empty() {
                    push_arg(&mut args, "restore_token", ArgValue::Text(t.to_owned()));
                }
                push_arg(&mut args, "persist_mode", ArgValue::Number(2));
            },
            None => {},
        }
        push_arg(&mut args, "handle_token", ArgValue::Text("u3".to_owned()));
        push_arg(&mut args, "multiple", ArgValue::Flag(true));
        push_arg(&mut args, "types", ArgValue::Number(1));
        if embedded {
            push_arg(&mut args, "cursor_mode", ArgValue::Number(2));
        }
        let r = PortalRequest {
            stage: PortalStage::SelectSources,
            remote_desktop: false,
            handle_token: "u3".to_owned(),
            args,
        };
        assert(r@ =~= select_sources_request(
            match restore {
                Some(t) => Some(t@),
                None => None,
            },
            embedded,
        ));
        r
    }

    /// The request for sources after input devices were selected.
    pub fn select_more_sources(remote_desktop: bool) -> (r: PortalRequest)
        ensures
            r@ == select_sources_after_devices(remote_desktop),
    {
        let mut r = PortalRequest::with_token(PortalStage::SelectSources, remote_desktop, "u3");
        if !remote_desktop {
            push_arg(&mut r.args, "multiple", ArgValue::Flag(true));
        }
        push_arg(&mut r.args, "types", ArgValue::Number(1));
        assert(r@ =~= select_sources_after_devices(remote_desktop));
        r
    }

    /// The request to start the session.
    pub fn start(remote_desktop: bool) -> (r: PortalRequest)
        ensures
            r@ == start_request(remote_desktop),
    {
        PortalRequest::with_token(PortalStage::Start, remote_desktop, "u4")
    }
}

/// The two arguments that hold a token have different names.
proof fn lemma_argument_names()
    ensures
        "handle_token"@ != "restore_token"@,
{
    reveal_strlit("handle_token");
    reveal_strlit("restore_token");
    assert("handle_token"@.len() != "restore_token"@.len());
}

/// The request for a session gives its token both to the session and to the answer.
pub proof fn law_session_request_has_its_tokens(remote_desktop: bool)
    ensures
        ({
            let r = create_session_request(remote_desktop);
            &&& r.stage == PortalStage::CreateSession
            &&& r.remote_desktop == remote_desktop
            &&& r.args.contains(("session_handle_token"@, ArgView::Text(r.handle_token)))
            &&& r.args.contains(("handle_token"@, ArgView::Text(r.handle_token)))
            &&& r.args.len() == 2
        }),
{
    let args = create_session_request(remote_desktop).args;
    assert(args[0] == ("session_handle_token"@, ArgView::Text("u1"@)));
    assert(args[1] == ("handle_token"@, ArgView::Text("u1"@)));
}

/// The request for devices asks the remote desktop portal for keyboards, pointers and touch screens.
pub proof fn law_devices_request_asks_for_all_kinds()
    ensures
        ({
            let r = select_devices_request();
            &&& r.stage == PortalStage::SelectDevices
            &&& r.remote_desktop
            &&& r.args.contains(("handle_token"@, ArgView::Text(r.handle_token)))
            &&& r.args.contains(("types"@, ArgView::Number(7)))
            &&& r.args.len() == 2
        }),
{
    let args = select_devices_request().args;
    assert(args[0] == ("handle_token"@, ArgView::Text("u2"@)));
    assert(args[1] == ("types"@, ArgView::Number(7)));
}

/// The request for sources through the screen cast portal asks for several monitors. It carries the
/// stored token if and only if tokens are supported and one is stored, asks for the choice to be kept
/// if and only if tokens are supported, and asks for the cursor in the picture if and only if that
/// is wanted.
pub proof fn law_sources_request_carries_what_is_known(
    restore: Option<Seq<char>>,
    embedded: bool,
    t: Seq<char>,
)
    ensures
        ({
            let r = select_sources_request(restore, embedded);
            &&& r.stage == PortalStage::SelectSources
            &&& !r.remote_desktop
            &&& r.args.contains(("handle_token"@, ArgView::Text(r.handle_token)))
            &&& r.args.contains(("multiple"@, ArgView::Flag(true)))
            &&& r.args.contains(("types"@, ArgView::Number(1)))
            &&& r.args.contains(("restore_token"@, ArgView::Text(t))) <==> restore == Some(t)
                && t.len() > 0
            &&& restore is Some ==> r.args.contains(("persist_mode"@, ArgView::Number(2)))
            &&& embedded ==> r.args.contains(("cursor_mode"@, ArgView::Number(2)))
            &&& r.args.len() == 3 + (if restore is Some {
                1int
            } else {
                0
            }) + (if restore matches Some(x) && x.len() > 0 {
                1int
            } else {
                0
            }) + (if embedded {
                1int
            } else {
                0
            })
        }),
{
    lemma_argument_names();
    let head = restore_args(restore);
    let tail = cursor_args(embedded);
    let args = select_sources_request(restore, embedded).args;
    let n = head.len() as int;
    assert(args[n] == ("handle_token"@, ArgView::Text("u3"@)));
    assert(args[n + 1] == ("multiple"@, ArgView::Flag(true)));
    assert(args[n + 2] == ("types"@, ArgView::Number(1)));
    if embedded {
        assert(args[n + 3] == ("cursor_mode"@, ArgView::Number(2)));
    }
    if let Some(x) = restore {
        if x.len() > 0 {
            assert(args[0] == ("restore_token"@, ArgView::Text(x)));
            assert(args[1] == ("persist_mode"@, ArgView::Number(2)));
        } else {
            assert(args[0] == ("persist_mode"@, ArgView::Number(2)));
        }
    }
}

/// The request for sources after devices asks for monitors, and for several of them if and only if
/// the remote desktop portal is not used.
pub proof fn law_remote_desktop_has_one_source(remote_desktop: bool)
    ensures
        ({
            let r = select_sources_after_devices(remote_desktop);
            &&& r.stage == PortalStage::SelectSources
            &&& r.remote_desktop == remote_desktop
            &&& r.args.contains(("handle_token"@, ArgView::Text(r.handle_token)))
            &&& r.args.contains(("types"@, ArgView::Number(1)))
            &&& r.args.contains(("multiple"@, ArgView::Flag(true))) <==> !remote_desktop
            &&& r.args.len() == (if remote_desktop {
                2int
            } else {
                3
            })
        }),
{
    let args = select_sources_after_devices(remote_desktop).args;
    assert(args[0] == ("handle_token"@, ArgView::Text("u3"@)));
    if remote_desktop {
        assert(args[1] == ("types"@, ArgView::Number(1)));
    } else {
        assert(args[1] == ("multiple"@, ArgView::Flag(true)));
        assert(args[2] == ("types"@, ArgView::Number(1)));
    }
}

/// The request to start carries nothing but its token.
pub proof fn law_start_request_has_its_token(remote_desktop: bool)
    ensures
        ({
            let r = start_request(remote_desktop);
            &&& r.stage == PortalStage::Start
            &&& r.remote_desktop == remote_desktop
            &&& r.args.contains(("handle_token"@, ArgView::Text(r.handle_token)))
            &&& r.args.len() == 1
        }),
{
    let args = start_request(remote_desktop).args;
    assert(args[0] == ("handle_token"@, ArgView::Text("u4"@)));
}

/// The answers to different requests have different tokens, so that none is taken for another.
pub proof fn law_requests_have_tokens_of_their_own(
    a: bool,
    b: bool,
    c: bool,
    restore: Option<Seq<char>>,
    embedded: bool,
)
    ensures
        ({
            let create = create_session_request(a).handle_token;
            let devices = select_devices_request().handle_token;
            let sources = select_sources_request(restore, embedded).handle_token;
            let start = start_request(b).handle_token;
            &&& create != devices && create != sources && create != start
            &&& devices != sources && devices != start && sources != start
            &&& select_sources_after_devices(c).handle_token == sources
        }),
{
    reveal_strlit("u1");
    reveal_strlit("u2");
    reveal_strlit("u3");
    reveal_strlit("u4");
    assert("u1"@[1] != "u2"@[1] && "u1"@[1] != "u3"@[1] && "u1"@[1] != "u4"@[1]);
    assert("u2"@[1] != "u3"@[1] && "u2"@[1] != "u4"@[1] && "u3"@[1] != "u4"@[1]);
}

/// A request is what it holds, argument by argument.
pub proof fn law_requests_are_what_they_hold(request: PortalRequest, i: int)
    requires
        0 <= i < request.args@.len(),
    ensures
        request@.stage == request.stage,
        request@.remote_desktop == request.remote_desktop,
        request@.handle_token == request.handle_token@,
        request@.args.len() == request.args@.len(),
        request@.args[i].0 == request.args@[i].0@,
        request.args@[i].1 matches ArgValue::Text(t) ==> request@.args[i].1 == ArgView::Text(t@),
        request.args@[i].1 matches ArgValue::Flag(b) ==> request@.args[i].1 == ArgView::Flag(b),
        request.args@[i].1 matches ArgValue::Number(n) ==> request@.args[i].1 == ArgView::Number(n),
{
}

} // verus!
