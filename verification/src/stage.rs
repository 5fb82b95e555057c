//! Where and why the portal handshake failed, in a form that reaches the user.

use vstd::prelude::*;

use crate::errors::{text_of, DBusFault, FaultView};
use crate::text::{
    char_is_control, chars_of, decimal, is_control, is_white_space, lemma_trimmed, occurs_at,
    push_decimal, same_text, starts_with, trim, trimmed, trimmed_end, trimmed_start,
};

verus! {

/// The steps of the portal handshake, in the order in which they come.
#[derive(Clone, Copy, Debug, PartialEq, Eq, Structural)]
pub enum PortalStage {
    CreateSession,
    SelectDevices,
    SelectSources,
    Start,
    OpenPipeWireRemote,
}

/// The name of a stage.
pub open spec fn stage_name(stage: PortalStage) -> Seq<char> {
    match stage {
        PortalStage::CreateSession => "create-session"@,
        PortalStage::SelectDevices => "select-devices"@,
        PortalStage::SelectSources => "select-sources"@,
        PortalStage::Start => "start"@,
        PortalStage::OpenPipeWireRemote => "open-pipewire-remote"@,
    }
}

/// The number of a stage, counted from one.
pub open spec fn stage_number(stage: PortalStage) -> u8 {
    match stage {
        PortalStage::CreateSession => 1,
        PortalStage::SelectDevices => 2,
        PortalStage::SelectSources => 3,
        PortalStage::Start => 4,
        PortalStage::OpenPipeWireRemote => 5,
    }
}

/// The stage with a number; any other number stands for the first stage.
pub open spec fn numbered_stage(v: u8) -> PortalStage {
    match v {
        2 => PortalStage::SelectDevices,
        3 => PortalStage::SelectSources,
        4 => PortalStage::Start,
        5 => PortalStage::OpenPipeWireRemote,
        _ => PortalStage::CreateSession,
    }
}

impl PortalStage {
    /// The name of the stage.
    pub fn as_str(&self) -> (r: &'static str)
        ensures
            r@ == stage_name(*self),
    {
        match self {
            PortalStage::CreateSession => "create-session",
            PortalStage::SelectDevices => "select-devices",
            PortalStage::SelectSources => "select-sources",
            PortalStage::Start => "start",
            PortalStage::OpenPipeWireRemote => "open-pipewire-remote",
        }
    }

    /// The number of the stage.
    pub fn to_u8(&self) -> (r: u8)
        ensures
            r == stage_number(*self),
    {
        match self {
            PortalStage::CreateSession => 1,
            PortalStage::SelectDevices => 2,
            PortalStage::SelectSources => 3,
            PortalStage::Start => 4,
            PortalStage::OpenPipeWireRemote => 5,
        }
    }

    /// The stage with the number `v`.
    pub fn from_u8(v: u8) -> (r: PortalStage)
        ensures
            r == numbered_stage(v),
    {
        match v {
            2 => PortalStage::SelectDevices,
            3 => PortalStage::SelectSources,
            4 => PortalStage::Start,
            5 => PortalStage::OpenPipeWireRemote,
            _ => PortalStage::CreateSession,
        }
    }
}

/// A stage is found again by its number.
pub proof fn law_stage_numbers_invert(stage: PortalStage)
    ensures
        numbered_stage(stage_number(stage)) == stage,
{
}

/// What every stage tag starts with.
pub const STAGE_TAG: &'static str = "wl-stage:";

/// The most characters that a tag takes over from a detail.
pub const DETAIL_LIMIT: usize = 200;

/// `s` with a space for each control character and without braces.
pub open spec fn without_controls_and_braces(s: Seq<char>) -> Seq<char> {
    s.map_values(
        |c: char|
            if is_control(c) {
                ' '
            } else {
                c
            },
    ).filter(|c: char| c != '{' && c != '}')
}

/// The first `n` characters of `s`, or all of them if there are fewer.
pub open spec fn at_most(s: Seq<char>, n: nat) -> Seq<char> {
    if s.len() <= n {
        s
    } else {
        s.take(n as int)
    }
}

/// The part of a detail that a tag takes over: no braces, no control characters, bounded, and
/// without white space around it.
pub open spec fn safe_detail(detail: Seq<char>) -> Seq<char> {
    trimmed(at_most(without_controls_and_braces(detail), DETAIL_LIMIT as nat))
}

/// The tag `wl-stage:<stage>:<kind>:<detail>`.
pub open spec fn stage_tag(stage: Seq<char>, kind: Seq<char>, detail: Seq<char>) -> Seq<char> {
    STAGE_TAG@ + stage + seq![':'] + kind + seq![':'] + safe_detail(detail)
}

/// The text of a detail as `safe_detail` defines it.
fn clean_detail(detail: &str) -> (r: String)
    ensures
        r@ == safe_detail(detail@),
{
    let v = chars_of(detail);
    let mut out: Vec<char> = Vec::new();
    let ghost blank = |c: char|
        if is_control(c) {
            ' '
        } else {
            c
        };
    let ghost keep = |c: char| c != '{' && c != '}';
    let mut i: usize = 0;
    assert(v@.take(0).map_values(blank) =~= Seq::<char>::empty());
    reveal(Seq::filter);
    while i < v.len()
        invariant
            v@ == detail@,
            i <= v@.len(),
            blank == (|c: char|
                if is_control(c) {
                    ' '
                } else {
                    c
                }),
            keep == (|c: char| c != '{' && c != '}'),
            out@ == at_most(v@.take(i as int).map_values(blank).filter(keep), 200),
        decreases v.len() - i,
    {
        let c: char = if char_is_control(v[i]) {
            ' '
        } else {
            v[i]
        };
        proof {
            reveal(Seq::filter);
            let next = v@.take(i + 1).map_values(blank);
            assert(next.drop_last() =~= v@.take(i as int).map_values(blank));
            assert(next.last() == c);
        }
        if c != '{' && c != '}' && out.len() < DETAIL_LIMIT {
            out.push(c);
        }
        i += 1;
    }
    assert(v@.take(v@.len() as int) == v@);
    trim(&out)
}

/// Builds the tag for a failure of the given kind at the given stage.
///
/// The detail reaches the user through a placeholder in a translated string, so braces, control
/// characters and whatever exceeds the limit are left out.
pub fn stage_err(stage: &str, kind: &str, detail: &str) -> (r: String)
    ensures
        r@ == stage_tag(stage@, kind@, detail@),
{
    let d = clean_detail(detail);
    let mut r = String::new();
    r.append(STAGE_TAG);
    r.append(stage);
    r.push(':');
    r.append(kind);
    r.push(':');
    r.append(d.as_str());
    assert(r@ =~= stage_tag(stage@, kind@, detail@));
    r
}

/// A text that a tag can take over as it stands.
pub open spec fn is_safe(s: Seq<char>) -> bool {
    forall|i: int|
        0 <= i < s.len() ==> {
            let c = #[trigger] s[i];
            !is_control(c) && c != '{' && c != '}'
        }
}

/// No detail brings braces, control characters or unbounded length into a tag, nor white space at
/// its ends.
pub proof fn law_detail_is_safe(detail: Seq<char>)
    ensures
        safe_detail(detail).len() <= DETAIL_LIMIT,
        is_safe(safe_detail(detail)),
        safe_detail(detail).len() > 0 ==> !is_white_space(safe_detail(detail)[0])
            && !is_white_space(safe_detail(detail).last()),
{
    broadcast use {Seq::lemma_filter_pred, Seq::lemma_filter_contains_rev};

    let mapped = detail.map_values(
        |c: char|
            if is_control(c) {
                ' '
            } else {
                c
            },
    );
    let kept = without_controls_and_braces(detail);
    assert forall|i: int| 0 <= i < kept.len() implies {
        let c = #[trigger] kept[i];
        !is_control(c) && c != '{' && c != '}'
    } by {
        assert(kept.contains(kept[i]));
        assert(mapped.contains(kept[i]));
    }
    let bounded = at_most(kept, DETAIL_LIMIT as nat);
    let part = lemma_trimmed(bounded);
}

/// A safe text is left as it is by the first cleaning step.
proof fn lemma_safe_is_kept(s: Seq<char>)
    requires
        is_safe(s),
    ensures
        without_controls_and_braces(s) == s,
    decreases s.len(),
{
    reveal(Seq::filter);
    let blank = |c: char|
        if is_control(c) {
            ' '
        } else {
            c
        };
    if s.len() > 0 {
        let short = s.drop_last();
        assert(is_safe(short)) by {
            assert forall|i: int| 0 <= i < short.len() implies {
                let c = #[trigger] short[i];
                !is_control(c) && c != '{' && c != '}'
            } by {
                assert(short[i] == s[i]);
            }
        }
        lemma_safe_is_kept(short);
        assert(s.map_values(blank).drop_last() =~= short.map_values(blank));
        assert(s.map_values(blank).last() == s.last());
        assert(short.push(s.last()) =~= s);
    } else {
        assert(s.map_values(blank) =~= s);
    }
}

/// Cleaning a detail once is enough: a detail that came out of a tag is taken over unchanged.
pub proof fn law_detail_is_stable(detail: Seq<char>)
    ensures
        safe_detail(safe_detail(detail)) == safe_detail(detail),
{
    law_detail_is_safe(detail);
    let s = safe_detail(detail);
    lemma_safe_is_kept(s);
    assert(trimmed_start(s) == s);
    assert(trimmed_end(s) == s);
}

/// The detail of a tag for a fault: its name and its message, as far as there are any.
pub open spec fn fault_detail(fault: FaultView) -> Seq<char> {
    let name = fault.name_text();
    let message = fault.text();
    if name.len() > 0 && message.len() > 0 {
        name + ": "@ + message
    } else if name.len() > 0 {
        name
    } else {
        message
    }
}

/// The kind of a fault: a method or an interface that the peer does not know is unsupported.
pub open spec fn fault_kind(fault: FaultView) -> Seq<char> {
    let name = fault.name_text();
    if name == "org.freedesktop.DBus.Error.UnknownMethod"@ || name
        == "org.freedesktop.DBus.Error.UnknownInterface"@ {
        "unsupported"@
    } else {
        "dbus"@
    }
}

/// The tag for a fault at a stage.
pub open spec fn fault_tag(stage: Seq<char>, fault: FaultView) -> Seq<char> {
    stage_tag(stage, fault_kind(fault), fault_detail(fault))
}

/// Builds the tag for a fault that the message bus reported at the given stage.
pub fn dbus_stage_err(stage: &str, err: &DBusFault) -> (r: String)
    ensures
        r@ == fault_tag(stage@, err@),
{
    let name = err.name_text();
    let message = err.to_text();
    let mut detail = String::new();
    detail.append(name.as_str());
    if !name.as_str().is_empty() && !message.as_str().is_empty() {
        detail.append(": ");
    }
    if name.as_str().is_empty() || !message.as_str().is_empty() {
        detail.append(message.as_str());
    }
    assert(detail@ =~= fault_detail(err@));
    let kind: &str = if same_text(name.as_str(), "org.freedesktop.DBus.Error.UnknownMethod")
        || same_text(name.as_str(), "org.freedesktop.DBus.Error.UnknownInterface") {
        "unsupported"
    } else {
        "dbus"
    };
    stage_err(stage, kind, detail.as_str())
}

/// How far a handshake has come and what went wrong first.
#[derive(Debug)]
pub struct PortalTrace {
    /// Set once any step has failed.
    pub failed: bool,
    /// The tag of the first failure.
    pub reason: Option<String>,
    /// The number of the stage whose response is awaited.
    pub waiting_for: u8,
}

/// A trace as plain values.
#[verifier::ext_equal]
pub struct TraceView {
    pub failed: bool,
    pub reason: Option<Seq<char>>,
    pub waiting: PortalStage,
}

impl View for PortalTrace {
    type V = TraceView;

    open spec fn view(&self) -> TraceView {
        TraceView {
            failed: self.failed,
            reason: text_of(self.reason),
            waiting: numbered_stage(self.waiting_for),
        }
    }
}

impl TraceView {
    /// A trace that has seen nothing yet.
    pub open spec fn fresh() -> TraceView {
        TraceView { failed: false, reason: None, waiting: PortalStage::CreateSession }
    }

    /// The trace after a tag was recorded: the first one stays.
    pub open spec fn recorded(self, tag: Seq<char>) -> TraceView {
        TraceView {
            reason: if self.reason is Some {
                self.reason
            } else {
                Some(tag)
            },
            ..self
        }
    }

    /// The trace after a failure with this tag.
    pub open spec fn failed_with(self, tag: Seq<char>) -> TraceView {
        TraceView { failed: true, ..self.recorded(tag) }
    }

    /// The trace while the response of `stage` is awaited.
    pub open spec fn awaiting(self, stage: PortalStage) -> TraceView {
        TraceView { waiting: stage, ..self }
    }

    /// The trace after a request was answered with `code`: zero grants it.
    pub open spec fn answered(self, stage: PortalStage, code: u32) -> TraceView {
        if code == 0 {
            self
        } else {
            self.failed_with(refusal_tag(stage, code))
        }
    }

    /// The trace after a step failed with the error text `text`: a tag is kept as it is, anything
    /// else is an internal failure of the stage that is awaited.
    pub open spec fn broken(self, text: Seq<char>) -> TraceView {
        if occurs_at(STAGE_TAG@, text, 0) {
            self.failed_with(text)
        } else {
            self.failed_with(stage_tag(stage_name(self.waiting), "internal"@, text))
        }
    }
}

/// The tag of a request that was not granted.
pub open spec fn refusal_tag(stage: PortalStage, code: u32) -> Seq<char> {
    if code == 1 {
        stage_tag(stage_name(stage), "declined"@, Seq::empty())
    } else if code == 2 {
        stage_tag(stage_name(stage), "ended"@, Seq::empty())
    } else {
        stage_tag(stage_name(stage), "portal-error"@, decimal(code as nat))
    }
}

impl PortalTrace {
    /// A trace that waits for the first response.
    pub fn new() -> (r: PortalTrace)
        ensures
            r@ == TraceView::fresh(),
            r.waiting_for == stage_number(PortalStage::CreateSession),
    {
        PortalTrace {
            failed: false,
            reason: None,
            waiting_for: PortalStage::CreateSession.to_u8(),
        }
    }

    /// Notes that `stage` failed.
    pub fn fail(&mut self, stage: PortalStage, kind: &str, detail: &str)
        ensures
            final(self)@ == old(self)@.failed_with(
                stage_tag(stage_name(stage), kind@, detail@),
            ),
    {
        let tag = stage_err(stage.as_str(), kind, detail);
        self.record(tag);
        self.failed = true;
    }

    /// Keeps `tag` unless an earlier failure is on record: the first failure is the cause,
    /// whatever follows it is a consequence.
    pub fn record(&mut self, tag: String)
        ensures
            final(self)@ == old(self)@.recorded(tag@),
    {
        if self.reason.is_none() {
            self.reason = Some(tag);
        }
    }

    /// Notes that the response of `stage` is awaited from now on.
    pub fn waiting(&mut self, stage: PortalStage)
        ensures
            final(self)@ == old(self)@.awaiting(stage),
    {
        self.waiting_for = stage.to_u8();
    }

    /// The stage whose response is awaited.
    pub fn waiting_stage(&self) -> (r: PortalStage)
        ensures
            r == self@.waiting,
    {
        PortalStage::from_u8(self.waiting_for)
    }

    /// Takes the recorded reason out.
    pub fn take_reason(&mut self) -> (r: Option<String>)
        ensures
            text_of(r) == old(self)@.reason,
            final(self)@ == (TraceView { reason: None, ..old(self)@ }),
    {
        self.reason.take()
    }
}

/// Handles the response code of a request: zero lets the handshake go on, anything else fails
/// its stage.
pub fn handle_response(trace: &mut PortalTrace, stage: PortalStage, code: u32) -> (granted: bool)
    ensures
        granted == (code == 0),
        final(trace)@ == old(trace)@.answered(stage, code),
{
    match code {
        0 => true,
        1 => {
            trace.fail(stage, "declined", "");
            proof {
                reveal_strlit("");
            }
            assert(""@ =~= Seq::<char>::empty());
            false
        },
        2 => {
            trace.fail(stage, "ended", "");
            proof {
                reveal_strlit("");
            }
            assert(""@ =~= Seq::<char>::empty());
            false
        },
        c => {
            let mut number = String::new();
            push_decimal(&mut number, c as u64);
            assert(number@ =~= decimal(code as nat));
            trace.fail(stage, "portal-error", number.as_str());
            false
        },
    }
}

/// Handles an error of the step that followed a granted request.
pub fn handle_step_error(trace: &mut PortalTrace, text: String)
    ensures
        final(trace)@ == old(trace)@.broken(text@),
{
    if starts_with(text.as_str(), STAGE_TAG) {
        trace.record(text);
        trace.failed = true;
    } else {
        let stage = trace.waiting_stage();
        trace.fail(stage, "internal", text.as_str());
    }
}

/// The first failure is the one that stays on record.
pub proof fn law_first_failure_stays(trace: TraceView, first: Seq<char>, later: Seq<char>)
    requires
        trace.reason is None,
    ensures
        trace.failed_with(first).failed_with(later).reason == Some(first),
        trace.failed_with(first).recorded(later).reason == Some(first),
{
}

/// A failure always leaves a reason on record.
pub proof fn law_failure_has_a_reason(trace: TraceView, tag: Seq<char>)
    ensures
        trace.failed_with(tag).failed,
        trace.failed_with(tag).reason is Some,
{
}

/// Every tag starts with the mark by which tags are recognised, so that a step which failed with
/// a tag keeps that tag word for word.
pub proof fn law_tags_are_recognised(
    trace: TraceView,
    stage: Seq<char>,
    kind: Seq<char>,
    detail: Seq<char>,
)
    ensures
        occurs_at(STAGE_TAG@, stage_tag(stage, kind, detail), 0),
        trace.broken(stage_tag(stage, kind, detail)) == trace.failed_with(
            stage_tag(stage, kind, detail),
        ),
{
    let tag = stage_tag(stage, kind, detail);
    assert(tag.subrange(0, STAGE_TAG@.len() as int) =~= STAGE_TAG@);
}

/// A detail is cleaned character by character: braces go, control characters become spaces, and
/// everything else stays.
pub proof fn law_details_are_cleaned_by_characters(a: Seq<char>, c: char)
    ensures
        without_controls_and_braces(Seq::<char>::empty()) == Seq::<char>::empty(),
        c == '{' || c == '}' ==> without_controls_and_braces(a.push(c))
            == without_controls_and_braces(a),
        is_control(c) ==> without_controls_and_braces(a.push(c)) == without_controls_and_braces(
            a,
        ).push(' '),
        !is_control(c) && c != '{' && c != '}' ==> without_controls_and_braces(a.push(c))
            == without_controls_and_braces(a).push(c),
{
    reveal(Seq::filter);
    let blank = |c: char|
        if is_control(c) {
            ' '
        } else {
            c
        };
    assert(Seq::<char>::empty().map_values(blank) =~= Seq::<char>::empty());
    assert(a.push(c).map_values(blank).drop_last() =~= a.map_values(blank));
    assert(a.push(c).map_values(blank).last() == blank(c));
}

/// Of the cleaned detail the first 200 characters count, and of these nothing but the white space
/// around them is left out: what is kept stands between the indices of the result.
pub proof fn law_details_are_cut_and_trimmed(detail: Seq<char>) -> (part: (int, int))
    ensures
        ({
            let clean = without_controls_and_braces(detail);
            let cut = if clean.len() <= 200 {
                clean
            } else {
                clean.take(200)
            };
            &&& 0 <= part.0 <= part.1 <= cut.len()
            &&& safe_detail(detail) == cut.subrange(part.0, part.1)
            &&& forall|i: int|
                0 <= i < part.0 || part.1 <= i < cut.len() ==> is_white_space(#[trigger] cut[i])
        }),
        safe_detail(detail).len() > 0 ==> !is_white_space(safe_detail(detail)[0])
            && !is_white_space(safe_detail(detail).last()),
{
    let clean = without_controls_and_braces(detail);
    let cut = if clean.len() <= 200 {
        clean
    } else {
        clean.take(200)
    };
    lemma_trimmed(cut)
}

/// A tag names the stage, the kind and the detail, in this order, each after a colon.
pub proof fn law_tags_name_their_parts(stage: Seq<char>, kind: Seq<char>, detail: Seq<char>)
    ensures
        stage_tag(stage, kind, detail) == "wl-stage:"@ + stage + ":"@ + kind + ":"@ + safe_detail(
            detail,
        ),
{
    reveal_strlit(":");
    assert(":"@ =~= seq![':']);
}

/// A fault is told by its name and its message, as far as it has them, and its kind tells whether
/// the peer lacks the method or the interface.
pub proof fn law_faults_tell_name_and_message(
    stage: Seq<char>,
    name: Seq<char>,
    message: Seq<char>,
)
    ensures
        ({
            let kind = if name == "org.freedesktop.DBus.Error.UnknownMethod"@ || name
                == "org.freedesktop.DBus.Error.UnknownInterface"@ {
                "unsupported"@
            } else {
                "dbus"@
            };
            let both = FaultView { name: Some(name), message: Some(message) };
            let named = FaultView { name: Some(name), message: None };
            let unnamed = FaultView { name: None, message: Some(message) };
            let bare = FaultView { name: None, message: None };
            &&& name.len() > 0 && message.len() > 0 ==> fault_tag(stage, both) == stage_tag(
                stage,
                kind,
                name + ": "@ + message,
            )
            &&& name.len() > 0 && message.len() == 0 ==> fault_tag(stage, both) == stage_tag(
                stage,
                kind,
                name,
            )
            &&& name.len() > 0 ==> fault_tag(stage, named) == stage_tag(stage, kind, name)
            &&& name.len() == 0 ==> fault_tag(stage, both) == stage_tag(stage, "dbus"@, message)
            &&& fault_tag(stage, unnamed) == stage_tag(stage, "dbus"@, message)
            &&& fault_tag(stage, bare) == stage_tag(stage, "dbus"@, Seq::empty())
        }),
{
    reveal_strlit("org.freedesktop.DBus.Error.UnknownMethod");
    reveal_strlit("org.freedesktop.DBus.Error.UnknownInterface");
    assert("org.freedesktop.DBus.Error.UnknownMethod"@.len() > 0);
    assert("org.freedesktop.DBus.Error.UnknownInterface"@.len() > 0);
}

/// An answer of zero changes nothing. One means that the user declined, two that the request ended
/// in some other way, and any other code is told as it is, each at the stage of the request.
pub proof fn law_answers_are_told_by_their_code(trace: TraceView, stage: PortalStage, code: u32)
    requires
        trace.reason is None,
    ensures
        trace.answered(stage, 0) == trace,
        trace.answered(stage, 1).reason == Some(
            stage_tag(stage_name(stage), "declined"@, Seq::empty()),
        ),
        trace.answered(stage, 2).reason == Some(
            stage_tag(stage_name(stage), "ended"@, Seq::empty()),
        ),
        code > 2 ==> trace.answered(stage, code).reason == Some(
            stage_tag(stage_name(stage), "portal-error"@, decimal(code as nat)),
        ),
        code != 0 ==> trace.answered(stage, code).failed,
        trace.answered(stage, code).waiting == trace.waiting,
{
}

/// An error of a step that is no tag is internal to the stage that is awaited.
pub proof fn law_other_errors_are_internal(trace: TraceView, text: Seq<char>)
    requires
        trace.reason is None,
        !occurs_at("wl-stage:"@, text, 0),
    ensures
        trace.broken(text).failed,
        trace.broken(text).reason == Some(
            stage_tag(stage_name(trace.waiting), "internal"@, text),
        ),
{
}

/// Noting what is awaited leaves failures alone, and noting a failure leaves alone what is awaited.
/// A recorded tag alone does not make a handshake failed.
pub proof fn law_notes_do_not_interfere(trace: TraceView, stage: PortalStage, tag: Seq<char>)
    ensures
        trace.awaiting(stage).waiting == stage,
        trace.awaiting(stage).failed == trace.failed,
        trace.awaiting(stage).reason == trace.reason,
        trace.failed_with(tag).waiting == trace.waiting,
        trace.recorded(tag).failed == trace.failed,
        trace.reason is None ==> trace.failed_with(tag).reason == Some(tag),
        !TraceView::fresh().failed && TraceView::fresh().reason is None,
{
}

/// No two stages share a name.
pub proof fn law_stages_have_names_of_their_own(a: PortalStage, b: PortalStage)
    ensures
        stage_name(a) == stage_name(b) ==> a == b,
{
    reveal_strlit("create-session");
    reveal_strlit("select-devices");
    reveal_strlit("select-sources");
    reveal_strlit("start");
    reveal_strlit("open-pipewire-remote");
    assert("create-session"@[0] == 'c' && "select-devices"@[0] == 's' && "select-sources"@[0] == 's'
        && "start"@[0] == 's' && "open-pipewire-remote"@[0] == 'o');
    assert("select-devices"@[7] == 'd' && "select-sources"@[7] == 's');
    assert("start"@.len() == 5 && "select-devices"@.len() == 14 && "select-sources"@.len() == 14);
}

/// A trace is what it holds; what it awaits is the stage with the number that it holds.
pub proof fn law_traces_are_what_they_hold(trace: PortalTrace, stage: PortalStage)
    ensures
        trace@.failed == trace.failed,
        trace.reason matches Some(r) ==> trace@.reason == Some(r@),
        trace.reason is None ==> trace@.reason is None,
        trace.waiting_for == stage_number(stage) ==> trace@.waiting == stage,
{
}

} // verus!
