//! The screen cast of the compositor itself, which asks the user nothing.

use vstd::prelude::*;

use crate::capturable::PwStreamInfo;
use crate::display::{law_sizes_turn_with_the_panel, DisplayInfo, Displays};
use crate::text::names_of;

verus! {

/// How often the bus is polled for the stream: three seconds.
pub const NODE_POLL_LIMIT: u32 = 30;

/// The connector that is recorded where no display has a name.
pub const DEFAULT_CONNECTOR: &'static str = "eDP-1";

/// What is under way.
#[derive(Debug)]
pub enum MutterStep {
    /// Connecting to the session bus.
    Connect,
    /// Making a session.
    CreateSession,
    /// Subscribing to the signal that announces a stream.
    Watch,
    /// Recording the monitor with this index among the connectors.
    Record { monitor: usize },
    /// Starting the session.
    Start,
    /// Polling the bus, after it was polled this often.
    Poll { done: u32 },
    /// The stream was announced under this number.
    Granted { node: u32 },
    /// Something failed.
    Failed { text: String },
}

/// What is under way, as plain values.
pub enum StepView {
    Connect,
    CreateSession,
    Watch,
    Record { monitor: int },
    Start,
    Poll { done: int },
    Granted { node: u32 },
    Failed { text: Seq<char> },
}

impl View for MutterStep {
    type V = StepView;

    open spec fn view(&self) -> StepView {
        match *self {
            MutterStep::Connect => StepView::Connect,
            MutterStep::CreateSession => StepView::CreateSession,
            MutterStep::Watch => StepView::Watch,
            MutterStep::Record { monitor } => StepView::Record { monitor: monitor as int },
            MutterStep::Start => StepView::Start,
            MutterStep::Poll { done } => StepView::Poll { done: done as int },
            MutterStep::Granted { node } => StepView::Granted { node },
            MutterStep::Failed { text } => StepView::Failed { text: text@ },
        }
    }
}

/// A screen cast that is being set up.
#[derive(Debug)]
pub struct MutterCast {
    /// The connectors of the monitors to record.
    pub connectors: Vec<String>,
    pub step: MutterStep,
}

/// The names of the displays that have one.
pub open spec fn display_names(displays: Seq<DisplayInfo>) -> Seq<Seq<char>> {
    displays.map_values(|d: DisplayInfo| d.name@).filter(|n: Seq<char>| n.len() > 0)
}

/// The connectors to record: the names of the displays, or the default where there are none.
pub open spec fn connectors_for(displays: Seq<DisplayInfo>) -> Seq<Seq<char>> {
    if display_names(displays).len() == 0 {
        seq![DEFAULT_CONNECTOR@]
    } else {
        display_names(displays)
    }
}

/// Lists the connectors to record.
fn list_connectors(displays: &Displays) -> (r: Vec<String>)
    ensures
        names_of(r@) == connectors_for(displays.displays@),
{
    let mut r: Vec<String> = Vec::new();
    let ghost names = displays.displays@.map_values(|d: DisplayInfo| d.name@);
    let ghost named = |n: Seq<char>| n.len() > 0;
    let mut i: usize = 0;
    proof {
        reveal(Seq::filter);
        assert(names.take(0).filter(named) =~= Seq::<Seq<char>>::empty());
        assert(names_of(r@) =~= Seq::<Seq<char>>::empty());
    }
    while i < displays.displays.len()
        invariant
            i <= displays.displays@.len(),
            names == displays.displays@.map_values(|d: DisplayInfo| d.name@),
            named == (|n: Seq<char>| n.len() > 0),
            names_of(r@) == names.take(i as int).filter(named),
        decreases displays.displays.len() - i,
    {
        let ghost before = r@;
        let name = &displays.displays[i].name;
        proof {
            reveal(Seq::filter);
            assert(names.take(i + 1).drop_last() =~= names.take(i as int));
            assert(names.take(i + 1).last() == name@);
        }
        if !name.as_str().is_empty() {
            r.push(name.clone());
            assert(names_of(r@) =~= names_of(before).push(name@));
        }
        i += 1;
    }
    assert(names.take(names.len() as int) == names);
    if r.is_empty() {
        r.push(DEFAULT_CONNECTOR.to_owned());
        assert(names_of(r@) =~= seq![DEFAULT_CONNECTOR@]);
    }
    r
}

/// What follows a step that succeeded.
pub open spec fn following_step(monitors: nat, step: StepView, node: Option<u32>) -> StepView {
    match step {
        StepView::Connect => StepView::CreateSession,
        StepView::CreateSession => StepView::Watch,
        StepView::Watch => if monitors > 0 {
            StepView::Record { monitor: 0 }
        } else {
            StepView::Start
        },
        StepView::Record { monitor } => if monitor + 1 < monitors {
            StepView::Record { monitor: monitor + 1 }
        } else {
            StepView::Start
        },
        StepView::Start => StepView::Poll { done: 0 },
        StepView::Poll { done } => match node {
            Some(n) => StepView::Granted { node: n },
            None => if done + 1 < NODE_POLL_LIMIT {
                StepView::Poll { done: done + 1 }
            } else {
                StepView::Failed {
                    text: "Timed out waiting for PipeWireStreamAdded from Mutter"@,
                }
            },
        },
        _ => step,
    }
}

/// The message for a step that failed with an error.
pub open spec fn step_error(connectors: Seq<Seq<char>>, step: StepView, error: Seq<char>) -> Seq<
    char,
> {
    match step {
        StepView::Connect => "Failed to connect to session bus: "@ + error,
        StepView::CreateSession => "CreateSession on Mutter failed: "@ + error,
        StepView::Watch => "Failed to add match for PipeWireStreamAdded: "@ + error,
        StepView::Record { monitor } => "RecordMonitor for "@ + connectors[monitor] + " failed: "@
            + error,
        StepView::Start => "Start session failed: "@ + error,
        _ => "D-Bus process error: "@ + error,
    }
}

impl StepView {
    /// Whether nothing is left to do.
    pub open spec fn is_over(self) -> bool {
        self is Granted || self is Failed
    }
}

/// What follows a step.
pub open spec fn after_step(
    connectors: Seq<Seq<char>>,
    step: StepView,
    outcome: Result<Option<u32>, String>,
) -> StepView {
    if step.is_over() {
        step
    } else {
        match outcome {
            Ok(node) => following_step(connectors.len(), step, node),
            Err(e) => StepView::Failed { text: step_error(connectors, step, e@) },
        }
    }
}

impl MutterCast {
    /// Whether the monitor that is being recorded is one of the connectors.
    pub open spec fn is_sound(self) -> bool {
        self.step matches MutterStep::Record { monitor } ==> monitor < self.connectors@.len()
    }

    /// A screen cast of all displays, before anything was done.
    pub fn new(displays: &Displays) -> (r: MutterCast)
        ensures
            names_of(r.connectors@) == connectors_for(displays.displays@),
            r.step@ == StepView::Connect,
            r.is_sound(),
    {
        MutterCast { connectors: list_connectors(displays), step: MutterStep::Connect }
    }

    /// The message for the present step, should it have failed.
    fn error_text(&self, error: &str) -> (r: String)
        requires
            self.is_sound(),
        ensures
            r@ == step_error(names_of(self.connectors@), self.step@, error@),
    {
        let mut r = match &self.step {
            MutterStep::Connect => "Failed to connect to session bus: ".to_owned(),
            MutterStep::CreateSession => "CreateSession on Mutter failed: ".to_owned(),
            MutterStep::Watch => "Failed to add match for PipeWireStreamAdded: ".to_owned(),
            MutterStep::Record { monitor } => {
                let mut t = "RecordMonitor for ".to_owned();
                t.append(self.connectors[*monitor].as_str());
                t.append(" failed: ");
                t
            },
            MutterStep::Start => "Start session failed: ".to_owned(),
            _ => "D-Bus process error: ".to_owned(),
        };
        r.append(error);
        r
    }

    /// Takes in how the present step came out and goes on to the next. For a poll the outcome is
    /// the number of the stream, if it was announced.
    pub fn advance(&mut self, outcome: Result<Option<u32>, String>)
        requires
            old(self).is_sound(),
        ensures
            final(self).is_sound(),
            final(self).connectors == old(self).connectors,
            final(self).step@ == after_step(
                names_of(old(self).connectors@),
                old(self).step@,
                outcome,
            ),
    {
        let over = match &self.step {
            MutterStep::Granted { node: _ } => true,
            MutterStep::Failed { text: _ } => true,
            _ => false,
        };
        if over {
            return;
        }
        match outcome {
            Err(e) => {
                let text = self.error_text(e.as_str());
                self.step = MutterStep::Failed { text };
            },
            Ok(node) => {
                let monitors: usize = self.connectors.len();
                let next = match &self.step {
                    MutterStep::Connect => MutterStep::CreateSession,
                    MutterStep::CreateSession => MutterStep::Watch,
                    MutterStep::Watch => if monitors > 0 {
                        MutterStep::Record { monitor: 0 }
                    } else {
                        MutterStep::Start
                    },
                    MutterStep::Record { monitor } => if *monitor + 1 < monitors {
                        MutterStep::Record { monitor: *monitor + 1 }
                    } else {
                        MutterStep::Start
                    },
                    MutterStep::Start => MutterStep::Poll { done: 0 },
                    MutterStep::Poll { done } => match node {
                        Some(n) => MutterStep::Granted { node: n },
                        None => if *done < NODE_POLL_LIMIT - 1 {
                            MutterStep::Poll { done: *done + 1 }
                        } else {
                            MutterStep::Failed {
                                text:
                                    "Timed out waiting for PipeWireStreamAdded from Mutter".to_owned(),
                            }
                        },
                    },
                    _ => {
                        return;
                    },
                };
                self.step = next;
            },
        }
    }
}

/// How many steps are left at most.
pub open spec fn steps_left(monitors: nat, step: StepView) -> int {
    match step {
        StepView::Connect => monitors as int + 36,
        StepView::CreateSession => monitors as int + 35,
        StepView::Watch => monitors as int + 34,
        StepView::Record { monitor } => monitors - monitor + 33,
        StepView::Start => 32,
        StepView::Poll { done } => if done < 30 {
            30 - done + 1
        } else {
            1
        },
        _ => 0,
    }
}

/// Every step brings the end nearer, so that setting up the screen cast ends whatever happens.
pub proof fn law_screen_cast_ends(
    connectors: Seq<Seq<char>>,
    step: StepView,
    outcome: Result<Option<u32>, String>,
)
    requires
        !step.is_over(),
        step matches StepView::Record { monitor } ==> monitor < connectors.len(),
    ensures
        0 <= steps_left(connectors.len(), after_step(connectors, step, outcome)) < steps_left(
            connectors.len(),
            step,
        ),
{
}

/// What follows after some steps that succeeded, without a stream announced.
pub open spec fn after_successes(connectors: Seq<Seq<char>>, n: nat) -> StepView
    decreases n,
{
    if n == 0 {
        StepView::Connect
    } else {
        after_step(
            connectors,
            after_successes(connectors, (n - 1) as nat),
            Ok::<Option<u32>, String>(None),
        )
    }
}

/// The steps until the last monitor is recorded.
proof fn lemma_monitors_come_in_turn(connectors: Seq<Seq<char>>, n: nat)
    requires
        n < connectors.len(),
    ensures
        after_successes(connectors, n + 3) == (StepView::Record { monitor: n as int }),
    decreases n,
{
    if n == 0 {
        reveal_with_fuel(after_successes, 4);
    } else {
        lemma_monitors_come_in_turn(connectors, (n - 1) as nat);
    }
}

/// The steps until the stream is waited for.
proof fn lemma_polling_comes_last(connectors: Seq<Seq<char>>, done: nat)
    requires
        connectors.len() > 0,
        done < NODE_POLL_LIMIT,
    ensures
        after_successes(connectors, connectors.len() + 4 + done) == (StepView::Poll {
            done: done as int,
        }),
    decreases done,
{
    if done == 0 {
        lemma_monitors_come_in_turn(connectors, (connectors.len() - 1) as nat);
        reveal_with_fuel(after_successes, 3);
    } else {
        lemma_polling_comes_last(connectors, (done - 1) as nat);
    }
}

/// If every step succeeds and the stream is announced in time, it is granted; if it is not
/// announced in time, that is the failure.
pub proof fn law_announced_stream_is_granted(connectors: Seq<Seq<char>>, done: nat, node: u32)
    requires
        connectors.len() > 0,
        done < NODE_POLL_LIMIT,
    ensures
        after_step(
            connectors,
            after_successes(connectors, connectors.len() + 4 + done),
            Ok::<Option<u32>, String>(Some(node)),
        ) == (StepView::Granted { node }),
        after_successes(connectors, connectors.len() + 4 + NODE_POLL_LIMIT as nat)
            == (StepView::Failed {
            text: "Timed out waiting for PipeWireStreamAdded from Mutter"@,
        }),
{
    lemma_polling_comes_last(connectors, done);
    lemma_polling_comes_last(connectors, (NODE_POLL_LIMIT - 1) as nat);
}

/// There is always a connector to record, and each is recorded before the session starts: the
/// session starts only after the last one.
pub proof fn law_all_monitors_are_recorded(
    displays: Seq<DisplayInfo>,
    step: StepView,
    outcome: Result<Option<u32>, String>,
)
    ensures
        connectors_for(displays).len() > 0,
        ({
            let connectors = connectors_for(displays);
            after_step(connectors, step, outcome) is Start && !(step is Start) ==> {
                step matches StepView::Record { monitor } && monitor + 1 >= connectors.len()
            }
        }),
{
}

/// The size of the stream: that of the first display, or a common one where there is none.
pub open spec fn cast_size(displays: Seq<DisplayInfo>) -> (usize, usize) {
    if displays.len() > 0 {
        displays[0].rotated_size()
    } else {
        (3840, 2160)
    }
}

/// The streams of the screen cast: the announced one.
pub open spec fn cast_streams(node: u32, displays: Seq<DisplayInfo>) -> Seq<PwStreamInfo> {
    seq![
        PwStreamInfo {
            path: node as u64,
            source_type: 1,
            position: (0, 0),
            size: cast_size(displays),
        },
    ]
}

/// The streams of the screen cast.
pub fn mutter_streams(node: u32, displays: &Displays) -> (r: Vec<PwStreamInfo>)
    ensures
        r@ == cast_streams(node, displays.displays@),
{
    let size: (usize, usize) = if displays.displays.len() > 0 {
        displays.displays[0].get_rotated_size()
    } else {
        (3840, 2160)
    };
    let mut r: Vec<PwStreamInfo> = Vec::new();
    r.push(PwStreamInfo { path: node as u64, source_type: 1, position: (0, 0), size });
    r
}

/// What a filter keeps stands at the listed places.
proof fn lemma_kept_in_order(s: Seq<Seq<char>>, keep: spec_fn(Seq<char>) -> bool, at: Seq<int>)
    requires
        forall|m: int| 0 <= m < at.len() ==> 0 <= #[trigger] at[m] < s.len(),
        forall|m: int| 0 <= m < at.len() ==> keep(s[#[trigger] at[m]]),
        forall|m: int, n: int| 0 <= m < n < at.len() ==> #[trigger] at[m] < #[trigger] at[n],
        forall|i: int| 0 <= i < s.len() && keep(#[trigger] s[i]) ==> at.contains(i),
    ensures
        s.filter(keep).len() == at.len(),
        forall|m: int| 0 <= m < at.len() ==> #[trigger] s.filter(keep)[m] == s[at[m]],
    decreases s.len(),
{
    reveal(Seq::filter);
    if s.len() == 0 {
        if at.len() > 0 {
            assert(at[0] < s.len());
        }
    } else {
        let short = s.drop_last();
        let last = s.len() - 1;
        let before = if keep(s[last]) {
            at.drop_last()
        } else {
            at
        };
        if keep(s[last]) {
            assert(at.contains(last));
            let m = choose|m: int| 0 <= m < at.len() && at[m] == last;
            if m < at.len() - 1 {
                assert(at[m] < at[at.len() - 1]);
            }
            assert(at.last() == last);
        }
        assert forall|m: int| 0 <= m < before.len() implies 0 <= #[trigger] before[m]
            < short.len() by {
            assert(before[m] == at[m]);
            if keep(s[last]) {
                assert(at[m] < at[at.len() - 1]);
            } else {
                assert(keep(s[at[m]]));
            }
        }
        assert forall|m: int| 0 <= m < before.len() implies keep(short[#[trigger] before[m]]) by {
            assert(0 <= before[m] < short.len());
            assert(before[m] == at[m]);
        }
        assert forall|m: int, n: int| 0 <= m < n < before.len() implies #[trigger] before[m]
            < #[trigger] before[n] by {
            assert(at[m] < at[n]);
        }
        assert forall|i: int| 0 <= i < short.len() && keep(#[trigger] short[i])
            implies before.contains(i) by {
            assert(s[i] == short[i]);
            assert(at.contains(i));
            let m = choose|m: int| 0 <= m < at.len() && at[m] == i;
            assert(before[m] == i);
        }
        lemma_kept_in_order(short, keep, before);
        assert forall|m: int| 0 <= m < at.len() implies #[trigger] s.filter(keep)[m]
            == s[at[m]] by {
            if m < before.len() {
                assert(0 <= before[m] < short.len());
                assert(s.filter(keep)[m] == short.filter(keep)[m]);
                assert(short.filter(keep)[m] == short[before[m]]);
                assert(before[m] == at[m]);
            }
        }
    }
}

/// The connectors are the names of all displays that have one, in order; `at` lists the places of
/// those displays. Where none has a name there is the default connector alone.
pub proof fn law_named_displays_are_recorded(displays: Seq<DisplayInfo>, at: Seq<int>)
    requires
        forall|m: int| 0 <= m < at.len() ==> 0 <= #[trigger] at[m] < displays.len(),
        forall|m: int| 0 <= m < at.len() ==> displays[#[trigger] at[m]].name@.len() > 0,
        forall|m: int, n: int| 0 <= m < n < at.len() ==> #[trigger] at[m] < #[trigger] at[n],
        forall|i: int|
            0 <= i < displays.len() && (#[trigger] displays[i]).name@.len() > 0 ==> at.contains(i),
    ensures
        at.len() > 0 ==> connectors_for(displays).len() == at.len(),
        forall|m: int|
            0 <= m < at.len() ==> #[trigger] connectors_for(displays)[m] == displays[at[m]].name@,
        at.len() == 0 ==> connectors_for(displays) == seq!["eDP-1"@],
{
    let names = displays.map_values(|d: DisplayInfo| d.name@);
    let keep = |n: Seq<char>| n.len() > 0;
    assert forall|m: int| 0 <= m < at.len() implies keep(names[#[trigger] at[m]]) by {
        assert(0 <= at[m] < displays.len());
        assert(displays[at[m]].name@.len() > 0);
    }
    assert forall|i: int| 0 <= i < names.len() && keep(#[trigger] names[i])
        implies at.contains(i) by {
        assert(displays[i].name@.len() > 0);
    }
    lemma_kept_in_order(names, keep, at);
    assert(display_names(displays) == names.filter(keep));
    assert forall|m: int| 0 <= m < at.len() implies #[trigger] connectors_for(displays)[m]
        == displays[at[m]].name@ by {
        assert(names.filter(keep)[m] == names[at[m]]);
        assert(0 <= at[m] < displays.len());
    }
}

/// The steps that succeed follow each other: connecting, making a session, watching for the stream,
/// recording every monitor in turn, starting, and polling until the stream is announced, thirty times
/// at most.
pub proof fn law_steps_follow_each_other(
    connectors: Seq<Seq<char>>,
    node: Option<u32>,
    n: u32,
    monitor: int,
    done: int,
)
    requires
        0 <= monitor,
        0 <= done,
    ensures
        after_step(connectors, StepView::Connect, Ok::<Option<u32>, String>(node))
            == StepView::CreateSession,
        after_step(connectors, StepView::CreateSession, Ok::<Option<u32>, String>(node))
            == StepView::Watch,
        connectors.len() > 0 ==> after_step(
            connectors,
            StepView::Watch,
            Ok::<Option<u32>, String>(node),
        ) == (StepView::Record { monitor: 0 }),
        connectors.len() == 0 ==> after_step(
            connectors,
            StepView::Watch,
            Ok::<Option<u32>, String>(node),
        ) == StepView::Start,
        monitor + 1 < connectors.len() ==> after_step(
            connectors,
            StepView::Record { monitor },
            Ok::<Option<u32>, String>(node),
        ) == (StepView::Record { monitor: monitor + 1 }),
        monitor + 1 == connectors.len() ==> after_step(
            connectors,
            StepView::Record { monitor },
            Ok::<Option<u32>, String>(node),
        ) == StepView::Start,
        after_step(connectors, StepView::Start, Ok::<Option<u32>, String>(node))
            == (StepView::Poll { done: 0 }),
        after_step(connectors, StepView::Poll { done }, Ok::<Option<u32>, String>(Some(n)))
            == (StepView::Granted { node: n }),
        done < 29 ==> after_step(
            connectors,
            StepView::Poll { done },
            Ok::<Option<u32>, String>(None),
        ) == (StepView::Poll { done: done + 1 }),
        done >= 29 ==> after_step(
            connectors,
            StepView::Poll { done },
            Ok::<Option<u32>, String>(None),
        ) == (StepView::Failed {
            text: "Timed out waiting for PipeWireStreamAdded from Mutter"@,
        }),
{
}

/// A step that fails ends the set-up with a message that tells the step, the monitor where one was to
/// be recorded, and the error. What is over stays as it is.
pub proof fn law_failed_steps_tell_what_failed(
    connectors: Seq<Seq<char>>,
    error: String,
    monitor: int,
    done: int,
    n: u32,
    text: Seq<char>,
    outcome: Result<Option<u32>, String>,
)
    requires
        0 <= monitor < connectors.len(),
    ensures
        after_step(connectors, StepView::Connect, Err::<Option<u32>, String>(error))
            == (StepView::Failed { text: "Failed to connect to session bus: "@ + error@ }),
        after_step(connectors, StepView::CreateSession, Err::<Option<u32>, String>(error))
            == (StepView::Failed { text: "CreateSession on Mutter failed: "@ + error@ }),
        after_step(connectors, StepView::Watch, Err::<Option<u32>, String>(error))
            == (StepView::Failed {
            text: "Failed to add match for PipeWireStreamAdded: "@ + error@,
        }),
        after_step(connectors, StepView::Record { monitor }, Err::<Option<u32>, String>(error))
            == (StepView::Failed {
            text: "RecordMonitor for "@ + connectors[monitor] + " failed: "@ + error@,
        }),
        after_step(connectors, StepView::Start, Err::<Option<u32>, String>(error))
            == (StepView::Failed { text: "Start session failed: "@ + error@ }),
        after_step(connectors, StepView::Poll { done }, Err::<Option<u32>, String>(error))
            == (StepView::Failed { text: "D-Bus process error: "@ + error@ }),
        after_step(connectors, StepView::Granted { node: n }, outcome) == (StepView::Granted {
            node: n,
        }),
        after_step(connectors, StepView::Failed { text }, outcome) == (StepView::Failed { text }),
{
}

/// The screen cast is one stream under the announced number, at the origin, with the size of the first
/// display as it is turned.
pub proof fn law_screen_cast_is_one_stream(node: u32, displays: Seq<DisplayInfo>)
    ensures
        cast_streams(node, displays).len() == 1,
        ({
            let s = cast_streams(node, displays)[0];
            &&& s.path == node
            &&& s.source_type == 1
            &&& s.position == (0i32, 0i32)
            &&& displays.len() == 0 ==> s.size == (3840usize, 2160usize)
            &&& displays.len() > 0 && (displays[0].transform == 90 || displays[0].transform == 270)
                ==> s.size == (displays[0].height as usize, displays[0].width as usize)
            &&& displays.len() > 0 && displays[0].transform != 90 && displays[0].transform != 270
                ==> s.size == (displays[0].width as usize, displays[0].height as usize)
        }),
{
    if displays.len() > 0 {
        law_sizes_turn_with_the_panel(displays[0]);
    }
}

/// A step is what it says.
pub proof fn law_steps_are_what_they_say(monitor: usize, done: u32, node: u32, text: String)
    ensures
        MutterStep::Connect@ is Connect,
        MutterStep::CreateSession@ is CreateSession,
        MutterStep::Watch@ is Watch,
        (MutterStep::Record { monitor })@ == (StepView::Record { monitor: monitor as int }),
        MutterStep::Start@ is Start,
        (MutterStep::Poll { done })@ == (StepView::Poll { done: done as int }),
        (MutterStep::Granted { node })@ == (StepView::Granted { node }),
        (MutterStep::Failed { text })@ == (StepView::Failed { text: text@ }),
{
}

} // verus!
