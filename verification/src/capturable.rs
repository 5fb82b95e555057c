//! What can be captured: the streams of a session and the displays they show.

use vstd::prelude::*;

use crate::display::{
    find_at, first_at, law_first_display_at_a_place_is_found, law_sizes_turn_with_the_panel,
    DisplayInfo, Displays,
};
use crate::text::{push_decimal, push_signed_decimal, decimal, signed_decimal};

verus! {

/// A stream of the session as the portal announced it.
#[derive(Clone, Copy, Debug)]
pub struct PwStreamInfo {
    pub path: u64,
    pub source_type: u64,
    pub position: (i32, i32),
    pub size: (usize, usize),
}

impl PwStreamInfo {
    /// The size of the stream.
    pub fn get_size(&self) -> (r: (usize, usize))
        ensures
            r == self.size,
    {
        self.size
    }

    /// The position of the stream.
    pub fn get_position(&self) -> (r: (i32, i32))
        ensures
            r == self.position,
    {
        self.position
    }

    /// Whether the announced size is usable.
    pub open spec fn has_size(self) -> bool {
        self.size.0 > 0 && self.size.1 > 0
    }
}

/// A stream that can be captured.
#[derive(Debug)]
pub struct PipeWireCapturable {
    /// The name of the bus connection that keeps the stream alive.
    pub bus_name: String,
    /// The descriptor of the PipeWire remote, where the portal handed one over.
    pub fd: Option<i32>,
    pub path: u64,
    pub source_type: u64,
    pub primary: bool,
    pub position: (i32, i32),
    pub logical_size: (usize, usize),
    pub physical_size: (usize, usize),
}

/// A shared display: a captured stream, or one of the X server under the number it has there.
#[derive(Debug)]
pub enum Display {
    X11(usize),
    WAYLAND(PipeWireCapturable),
}

/// The display that a stream shows: the one at its position, or else the first one.
pub open spec fn shown_display(displays: Seq<DisplayInfo>, pos: (i32, i32)) -> Option<DisplayInfo> {
    match first_at(displays, pos) {
        Some(d) => Some(d),
        None => if displays.len() > 0 {
            Some(displays[0])
        } else {
            None
        },
    }
}

/// The physical size of a stream, as far as it is known without looking at a frame.
pub open spec fn known_size(displays: Seq<DisplayInfo>, stream: PwStreamInfo) -> Option<
    (usize, usize),
> {
    match shown_display(displays, stream.position) {
        Some(d) => {
            let s = d.rotated_size();
            if s.0 > 0 && s.1 > 0 {
                Some(s)
            } else if stream.has_size() {
                Some(stream.size)
            } else {
                Some((1920, 1080))
            }
        },
        None => if stream.has_size() {
            Some(stream.size)
        } else {
            None
        },
    }
}

/// The physical size of a stream, given what a look at a frame brought.
pub open spec fn resolved_size(
    displays: Seq<DisplayInfo>,
    stream: PwStreamInfo,
    probed: Option<(usize, usize)>,
) -> (usize, usize) {
    match known_size(displays, stream) {
        Some(s) => s,
        None => match probed {
            Some(s) => s,
            None => stream.size,
        },
    }
}

impl PipeWireCapturable {
    /// The physical size of a stream as far as the displays and the stream itself tell it; `None`
    /// asks for a look at a frame.
    pub fn size_without_frame(displays: &Displays, stream: &PwStreamInfo) -> (r: Option<
        (usize, usize),
    >)
        ensures
            r == known_size(displays.displays@, *stream),
    {
        let found = find_at(&displays.displays, stream.position);
        let matched: Option<&DisplayInfo> = match found {
            Some(d) => Some(d),
            None => if displays.displays.len() > 0 {
                Some(&displays.displays[0])
            } else {
                None
            },
        };
        match matched {
            Some(d) => {
                let (w, h) = d.get_rotated_size();
                if w > 0 && h > 0 {
                    Some((w, h))
                } else if stream.size.0 > 0 && stream.size.1 > 0 {
                    Some(stream.size)
                } else {
                    Some((1920, 1080))
                }
            },
            None => if stream.size.0 > 0 && stream.size.1 > 0 {
                Some(stream.size)
            } else {
                None
            },
        }
    }

    /// A capturable for a stream. `probed` is the size of a frame, where one was looked at; it
    /// counts only where `size_without_frame` gives none. The size is left in `resolution`.
    pub fn new(
        bus_name: String,
        fd: Option<i32>,
        resolution: &mut Option<(usize, usize)>,
        displays: &Displays,
        stream: &PwStreamInfo,
        probed: Option<(usize, usize)>,
    ) -> (r: PipeWireCapturable)
        ensures
            r == (PipeWireCapturable {
                bus_name,
                fd,
                path: stream.path,
                source_type: stream.source_type,
                primary: false,
                position: stream.position,
                logical_size: stream.size,
                physical_size: resolved_size(displays.displays@, *stream, probed),
            }),
            *final(resolution) == Some(r.physical_size),
    {
        let physical_size = match PipeWireCapturable::size_without_frame(displays, stream) {
            Some(s) => s,
            None => match probed {
                Some(s) => s,
                None => stream.size,
            },
        };
        *resolution = Some(physical_size);
        PipeWireCapturable {
            bus_name,
            fd,
            path: stream.path,
            source_type: stream.source_type,
            primary: false,
            position: stream.position,
            logical_size: stream.size,
            physical_size,
        }
    }

    /// The capturable through which a frame of the stream is looked at, to learn its size.
    pub fn for_size_probe(bus_name: String, fd: Option<i32>, stream: &PwStreamInfo) -> (r:
        PipeWireCapturable)
        ensures
            r == (PipeWireCapturable {
                bus_name,
                fd,
                path: stream.path,
                source_type: stream.source_type,
                primary: false,
                position: stream.position,
                logical_size: stream.size,
                physical_size: (0, 0),
            }),
    {
        PipeWireCapturable {
            bus_name,
            fd,
            path: stream.path,
            source_type: stream.source_type,
            primary: false,
            position: stream.position,
            logical_size: stream.size,
            physical_size: (0, 0),
        }
    }

    /// The name shown for this capturable.
    pub open spec fn name_text(self) -> Seq<char> {
        "Pipewire "@ + source_type_name(self.source_type) + ", path: "@ + decimal(self.path as nat)
    }

    /// The name shown for this capturable.
    pub fn name(&self) -> (r: String)
        ensures
            r@ == self.name_text(),
    {
        let type_str: &str = match self.source_type {
            1 => "Desktop",
            2 => "Window",
            _ => "Unknow",
        };
        let mut r = String::new();
        r.append("Pipewire ");
        r.append(type_str);
        r.append(", path: ");
        push_decimal(&mut r, self.path);
        assert(r@ =~= self.name_text());
        r
    }

    /// The description of this capturable for logs.
    pub open spec fn debug_text(self) -> Seq<char> {
        "PipeWireCapturable {dbus: "@ + self.bus_name@ + ", fd: "@ + signed_decimal(
            match self.fd {
                Some(f) => f as int,
                None => -1int,
            },
        ) + ", path: "@ + decimal(self.path as nat) + ", source_type: "@ + decimal(
            self.source_type as nat,
        ) + "}"@
    }

    /// The description of this capturable for logs.
    pub fn to_debug_text(&self) -> (r: String)
        ensures
            r@ == self.debug_text(),
    {
        let fd: i32 = match self.fd {
            Some(f) => f,
            None => -1,
        };
        let mut r = String::new();
        r.append("PipeWireCapturable {dbus: ");
        r.append(self.bus_name.as_str());
        r.append(", fd: ");
        push_signed_decimal(&mut r, fd);
        r.append(", path: ");
        push_decimal(&mut r, self.path);
        r.append(", source_type: ");
        push_decimal(&mut r, self.source_type);
        r.append("}");
        assert(r@ =~= self.debug_text());
        r
    }
}

/// The name of a source type.
pub open spec fn source_type_name(source_type: u64) -> Seq<char> {
    if source_type == 1 {
        "Desktop"@
    } else if source_type == 2 {
        "Window"@
    } else {
        "Unknow"@
    }
}

/// Whether a stream shows the display with index `k`: the first one with its corner at the position
/// of the stream, or the very first one where none has.
pub open spec fn shows(displays: Seq<DisplayInfo>, stream: PwStreamInfo, k: int) -> bool {
    &&& 0 <= k < displays.len()
    &&& ({
        ||| displays[k].x == stream.position.0 && displays[k].y == stream.position.1 && (forall|
            i: int,
        |
            0 <= i < k ==> (#[trigger] displays[i]).x != stream.position.0 || displays[i].y
                != stream.position.1)
        ||| k == 0 && (forall|i: int|
            0 <= i < displays.len() ==> (#[trigger] displays[i]).x != stream.position.0
                || displays[i].y != stream.position.1)
    })
}

/// A stream has the physical size of the display that it shows: its width and height, swapped by a
/// quarter turn, whatever its logical size, the announced size and a frame tell. Only where the
/// display has no area does the announced size count, or else a common one.
pub proof fn law_size_is_that_of_the_shown_display(
    displays: Seq<DisplayInfo>,
    stream: PwStreamInfo,
    probed: Option<(usize, usize)>,
    k: int,
)
    requires
        shows(displays, stream, k),
    ensures
        ({
            let d = displays[k];
            let (w, h) = (d.width as usize, d.height as usize);
            let size = resolved_size(displays, stream, probed);
            &&& known_size(displays, stream) == Some(size)
            &&& w > 0 && h > 0 && (d.transform == 90 || d.transform == 270) ==> size == (h, w)
            &&& w > 0 && h > 0 && d.transform != 90 && d.transform != 270 ==> size == (w, h)
            &&& !(w > 0 && h > 0) && stream.size.0 > 0 && stream.size.1 > 0 ==> size == stream.size
            &&& !(w > 0 && h > 0) && !(stream.size.0 > 0 && stream.size.1 > 0) ==> size == (
                1920usize,
                1080usize,
            )
        }),
{
    let d = displays[k];
    law_sizes_turn_with_the_panel(d);
    if d.x == stream.position.0 && d.y == stream.position.1 {
        law_first_display_at_a_place_is_found(displays, stream.position, k);
    } else {
        law_first_display_at_a_place_is_found(
            displays,
            stream.position,
            displays.len() as int,
        );
    }
}

/// Without displays a stream has the size that was announced; only where that is none does a frame
/// count, and where there is no frame either, what was announced stays.
pub proof fn law_size_without_displays(
    stream: PwStreamInfo,
    probed: Option<(usize, usize)>,
)
    ensures
        ({
            let none = Seq::<DisplayInfo>::empty();
            let size = resolved_size(none, stream, probed);
            let announced = stream.size.0 > 0 && stream.size.1 > 0;
            &&& known_size(none, stream) is None <==> !announced
            &&& announced ==> size == stream.size
            &&& !announced && probed is Some ==> Some(size) == probed
            &&& !announced && probed is None ==> size == stream.size
        }),
{
}

/// The name tells the kind of the source: desktops, windows and others are told apart.
pub proof fn law_names_tell_streams_apart(a: PipeWireCapturable, b: PipeWireCapturable)
    ensures
        a.path == b.path && a.source_type == b.source_type ==> a.name_text() == b.name_text(),
        a.name_text() == b.name_text() ==> (a.source_type == 1 <==> b.source_type == 1) && (
        a.source_type == 2 <==> b.source_type == 2),
{
    reveal_strlit("Pipewire ");
    reveal_strlit("Desktop");
    reveal_strlit("Window");
    reveal_strlit("Unknow");
    let (x, y) = (a.name_text(), b.name_text());
    assert(x[9] == source_type_name(a.source_type)[0]);
    assert(y[9] == source_type_name(b.source_type)[0]);
}

/// The name of a capturable tells its type and, in digits, its node.
pub proof fn law_names_tell_type_and_node(c: PipeWireCapturable)
    ensures
        c.source_type == 1 ==> c.name_text() == "Pipewire "@ + "Desktop"@ + ", path: "@ + decimal(
            c.path as nat,
        ),
        c.source_type == 2 ==> c.name_text() == "Pipewire "@ + "Window"@ + ", path: "@ + decimal(
            c.path as nat,
        ),
        c.source_type != 1 && c.source_type != 2 ==> c.name_text() == "Pipewire "@ + "Unknow"@
            + ", path: "@ + decimal(c.path as nat),
{
}

/// The description for logs tells connection, descriptor, node and type, with -1 for a descriptor
/// that is not there.
pub proof fn law_descriptions_tell_the_origin(c: PipeWireCapturable)
    ensures
        ({
            let end = ", path: "@ + decimal(c.path as nat) + ", source_type: "@ + decimal(
                c.source_type as nat,
            ) + "}"@;
            &&& c.fd matches Some(f) ==> c.debug_text() == "PipeWireCapturable {dbus: "@
                + c.bus_name@ + ", fd: "@ + signed_decimal(f as int) + end
            &&& c.fd is None ==> c.debug_text() == "PipeWireCapturable {dbus: "@ + c.bus_name@
                + ", fd: "@ + signed_decimal(-1) + end
        }),
{
    let fd: int = match c.fd {
        Some(f) => f as int,
        None => -1,
    };
    let end = ", path: "@ + decimal(c.path as nat) + ", source_type: "@ + decimal(
        c.source_type as nat,
    ) + "}"@;
    assert(c.debug_text() =~= "PipeWireCapturable {dbus: "@ + c.bus_name@ + ", fd: "@
        + signed_decimal(fd) + end);
}

} // verus!
