//! The capture pipeline: what it is made of, what its elements are told, and how a DMA buffer is found.

use vstd::prelude::*;

use crate::capturable::PipeWireCapturable;
use crate::display::{extent, extent_of, law_lengths_wrap_like_casts};
use crate::stage::{stage_err, stage_tag};
use crate::text::{decimal, names_of, push_decimal, push_signed_decimal, signed_decimal};

verus! {

/// How often, in milliseconds, the source repeats the last frame.
pub const KEEPALIVE_MS: i32 = 1000;

/// How many frames the sink holds; older ones are dropped.
pub const MAX_BUFFERS: u32 = 1;

/// How long, in milliseconds, the pipeline is given to play.
pub const STATE_TIMEOUT_MS: u64 = 2000;

/// How long, in milliseconds, is waited once the pipeline plays.
pub const SETTLE_MS: u64 = 150;

/// How long to wait for the pipeline.
#[derive(Clone, Copy, Debug, PartialEq, Eq, Structural)]
pub struct StateWait {
    pub state_ms: u64,
    pub settle_ms: u64,
}

/// What the pipeline is made of and what its elements are told.
#[derive(Debug)]
pub struct PipelinePlan {
    /// The elements, each linked to the next.
    pub elements: Vec<String>,
    /// The duplicated descriptor that the source reads from, where there is one.
    pub fd: Option<i32>,
    /// The node that the source reads.
    pub path: String,
    pub keepalive_ms: i32,
    /// Whether the sink drops old frames.
    pub drop_old: bool,
    pub max_buffers: u32,
    /// The formats that the sink accepts.
    pub caps: String,
    /// How long to wait until the pipeline plays, where it is waited for.
    pub wait: Option<StateWait>,
}

/// The elements of the pipeline: the source, a converter that negotiates the format, and the sink.
pub open spec fn element_names() -> Seq<Seq<char>> {
    seq!["pipewiresrc"@, "videoconvert"@, "appsink"@]
}

/// Lists the elements of the pipeline.
fn list_elements() -> (r: Vec<String>)
    ensures
        names_of(r@) == element_names(),
{
    let mut r: Vec<String> = Vec::new();
    r.push("pipewiresrc".to_owned());
    r.push("videoconvert".to_owned());
    r.push("appsink".to_owned());
    assert(names_of(r@) =~= element_names());
    r
}

/// The lower 32 bits of a size, read with sign.
pub open spec fn low_bits(v: usize) -> int {
    let m = v as int % 0x1_0000_0000;
    if m < 0x8000_0000 {
        m
    } else {
        m - 0x1_0000_0000
    }
}

/// Cuts a size down to 32 bits.
fn to_i32(v: usize) -> (r: i32)
    ensures
        r == low_bits(v),
{
    proof {
        law_sizes_are_cut_like_casts(v);
    }
    v as i32
}

/// Sizes are cut as a cast cuts them.
pub proof fn law_sizes_are_cut_like_casts(v: usize)
    ensures
        low_bits(v) == v as i32,
{
    let wide: u64 = v as u64;
    assert(wide as i32 == v as i32) by (bit_vector)
        requires
            wide == v as u64,
    ;
    assert(wide % 0x1_0000_0000u64 < 0x8000_0000u64 ==> wide as i32 == wide % 0x1_0000_0000u64)
        by (bit_vector);
    assert(wide % 0x1_0000_0000u64 >= 0x8000_0000u64 ==> wide as i32 == wide % 0x1_0000_0000u64
        - 0x1_0000_0000) by (bit_vector);
}

/// The restriction to a size, where the size is known.
pub open spec fn size_caps(size: (usize, usize)) -> Seq<char> {
    if size.0 > 0 && size.1 > 0 {
        ",width="@ + signed_decimal(low_bits(size.0)) + ",height="@ + signed_decimal(
            low_bits(size.1),
        )
    } else {
        Seq::empty()
    }
}

/// The formats that the sink accepts: DMA buffers and then plain ones, both in either order of
/// colours. Every alternative is fixed to the variable rate `0/1`, and to the size where that is
/// known.
pub open spec fn caps_text(size: (usize, usize)) -> Seq<char> {
    "video/x-raw(memory:DMABuf),format=BGRx"@ + size_caps(size) + ",framerate=0/1; "@
        + "video/x-raw(memory:DMABuf),format=RGBx"@ + size_caps(size) + ",framerate=0/1; "@
        + "video/x-raw,format=BGRx"@ + size_caps(size) + ",framerate=0/1; "@
        + "video/x-raw,format=RGBx"@ + size_caps(size) + ",framerate=0/1"@
}

/// Builds the formats that the sink accepts.
pub fn caps_string(size: (usize, usize)) -> (r: String)
    ensures
        r@ == caps_text(size),
{
    let mut limit = String::new();
    if size.0 > 0 && size.1 > 0 {
        limit.append(",width=");
        push_signed_decimal(&mut limit, to_i32(size.0));
        limit.append(",height=");
        push_signed_decimal(&mut limit, to_i32(size.1));
    }
    assert(limit@ =~= size_caps(size));
    let mut r = String::new();
    r.append("video/x-raw(memory:DMABuf),format=BGRx");
    r.append(limit.as_str());
    r.append(",framerate=0/1; ");
    r.append("video/x-raw(memory:DMABuf),format=RGBx");
    r.append(limit.as_str());
    r.append(",framerate=0/1; ");
    r.append("video/x-raw,format=BGRx");
    r.append(limit.as_str());
    r.append(",framerate=0/1; ");
    r.append("video/x-raw,format=RGBx");
    r.append(limit.as_str());
    r.append(",framerate=0/1");
    assert(r@ =~= caps_text(size));
    r
}

/// The descriptor that the source reads from: the duplicate, if the capturable has a descriptor
/// and duplicating it succeeded.
pub open spec fn source_fd(fd: Option<i32>, duplicated: Option<i32>) -> Option<i32> {
    match duplicated {
        Some(d) => if fd is Some && d >= 0 {
            Some(d)
        } else {
            None
        },
        None => None,
    }
}

impl PipelinePlan {
    /// This is the plan for a capturable, given what duplicating its descriptor brought and
    /// whether the remote desktop portal is used.
    pub open spec fn plans(
        self,
        capturable: PipeWireCapturable,
        duplicated: Option<i32>,
        remote_desktop: bool,
    ) -> bool {
        &&& names_of(self.elements@) == element_names()
        &&& self.fd == source_fd(capturable.fd, duplicated)
        &&& self.path@ == decimal(capturable.path as nat)
        &&& self.keepalive_ms == KEEPALIVE_MS
        &&& self.drop_old
        &&& self.max_buffers == MAX_BUFFERS
        &&& self.caps@ == caps_text(capturable.physical_size)
        &&& self.wait == (if remote_desktop {
            None
        } else {
            Some(StateWait { state_ms: STATE_TIMEOUT_MS, settle_ms: SETTLE_MS })
        })
    }

    /// Plans the pipeline for a capturable. `duplicated` is what duplicating its descriptor
    /// brought. With the remote desktop portal there is a single stream, so that the pipeline
    /// need not be waited for.
    pub fn new(
        capturable: &PipeWireCapturable,
        duplicated: Option<i32>,
        remote_desktop: bool,
    ) -> (r: PipelinePlan)
        ensures
            r.plans(*capturable, duplicated, remote_desktop),
    {
        let fd: Option<i32> = match duplicated {
            Some(d) => if capturable.fd.is_some() && d >= 0 {
                Some(d)
            } else {
                None
            },
            None => None,
        };
        let mut path = String::new();
        push_decimal(&mut path, capturable.path);
        assert(path@ =~= decimal(capturable.path as nat));
        let wait: Option<StateWait> = if remote_desktop {
            None
        } else {
            Some(StateWait { state_ms: STATE_TIMEOUT_MS, settle_ms: SETTLE_MS })
        };
        PipelinePlan {
            elements: list_elements(),
            fd,
            path,
            keepalive_ms: KEEPALIVE_MS,
            drop_old: true,
            max_buffers: MAX_BUFFERS,
            caps: caps_string(capturable.physical_size),
            wait,
        }
    }
}

/// The tag for a pipeline element that could not be made. It names the element, which tells what
/// to install.
pub fn gst_element_err(name: &str) -> (r: String)
    ensures
        r@ == stage_tag("gst-plugin"@, "unavailable"@, name@),
{
    stage_err("gst-plugin", "unavailable", name)
}

/// A usable descriptor.
pub open spec fn usable(fd: Option<i32>) -> bool {
    fd matches Some(f) && f >= 0
}

/// Whether the memory is to be asked for a plain descriptor, because it gave none for a DMA
/// buffer.
pub fn asks_plain_fd(dmabuf: Option<i32>) -> (r: bool)
    ensures
        r == !usable(dmabuf),
{
    match dmabuf {
        Some(f) => f < 0,
        None => true,
    }
}

/// The descriptor to map: that of the DMA buffer, or else a plain one. `None` stands for memory
/// that is not of the asked kind.
pub fn select_fd(dmabuf: Option<i32>, plain: Option<i32>) -> (r: Option<i32>)
    ensures
        r == (if usable(dmabuf) {
            dmabuf
        } else if usable(plain) {
            plain
        } else {
            None
        }),
{
    if !asks_plain_fd(dmabuf) {
        return dmabuf;
    }
    match plain {
        Some(f) => if f >= 0 {
            plain
        } else {
            None
        },
        None => None,
    }
}

/// How many bytes of a DMA buffer a frame takes.
pub fn mapped_len(width: i32, height: i32) -> (r: usize)
    requires
        extent_of(width) * extent_of(height) * 4 <= usize::MAX,
    ensures
        r == extent_of(width) * extent_of(height) * 4,
        r == (width as usize) * (height as usize) * 4,
{
    let w: usize = extent(width);
    let h: usize = extent(height);
    proof {
        law_lengths_wrap_like_casts(width);
        law_lengths_wrap_like_casts(height);
        assert(w * h <= w * h * 4) by (nonlinear_arith)
            requires
                w >= 0,
                h >= 0,
        ;
    }
    w * h * 4
}

/// The sink accepts four formats, each restricted in the same way: to the size, if neither its width
/// nor its height is zero, and to the variable rate always.
pub proof fn law_formats_are_restricted_alike(size: (usize, usize), limit: Seq<char>)
    requires
        size.0 > 0 && size.1 > 0 ==> limit == ",width="@ + signed_decimal(size.0 as i32 as int)
            + ",height="@ + signed_decimal(size.1 as i32 as int) + ",framerate=0/1"@,
        size.0 == 0 || size.1 == 0 ==> limit == ",framerate=0/1"@,
    ensures
        caps_text(size) == ("video/x-raw(memory:DMABuf),format=BGRx"@ + limit) + "; "@ + (
        "video/x-raw(memory:DMABuf),format=RGBx"@ + limit) + "; "@ + ("video/x-raw,format=BGRx"@
            + limit) + "; "@ + ("video/x-raw,format=RGBx"@ + limit),
{
    law_sizes_are_cut_like_casts(size.0);
    law_sizes_are_cut_like_casts(size.1);
    reveal_strlit(",framerate=0/1; ");
    reveal_strlit(",framerate=0/1");
    reveal_strlit("; ");
    assert(",framerate=0/1; "@ =~= ",framerate=0/1"@ + "; "@);
    assert(size_caps(size) + ",framerate=0/1"@ =~= limit);
    let whole = ("video/x-raw(memory:DMABuf),format=BGRx"@ + limit) + "; "@ + (
    "video/x-raw(memory:DMABuf),format=RGBx"@ + limit) + "; "@ + ("video/x-raw,format=BGRx"@
        + limit) + "; "@ + ("video/x-raw,format=RGBx"@ + limit);
    assert(caps_text(size) =~= whole);
}

/// The pipeline reads the node of the capturable, from the duplicate of its descriptor where there is
/// a usable one, for frames of its physical size. It repeats frames every second, keeps one and drops
/// older ones, and is waited for if and only if the remote desktop portal is not used.
pub proof fn law_plans_follow_the_capturable(
    plan: PipelinePlan,
    capturable: PipeWireCapturable,
    duplicated: Option<i32>,
    remote_desktop: bool,
)
    requires
        plan.plans(capturable, duplicated, remote_desktop),
    ensures
        plan.elements@.len() == 3,
        plan.elements@[0]@ == "pipewiresrc"@,
        plan.elements@[1]@ == "videoconvert"@,
        plan.elements@[2]@ == "appsink"@,
        plan.fd matches Some(f) ==> capturable.fd is Some && duplicated == Some(f) && f >= 0,
        capturable.fd is Some ==> (duplicated matches Some(f) ==> (f >= 0 ==> plan.fd == Some(f))),
        plan.path@ == decimal(capturable.path as nat),
        plan.keepalive_ms == 1000,
        plan.drop_old,
        plan.max_buffers == 1,
        plan.caps@ == caps_text(capturable.physical_size),
        remote_desktop ==> plan.wait is None,
        !remote_desktop ==> plan.wait == Some(StateWait { state_ms: 2000, settle_ms: 150 }),
{
    let names = names_of(plan.elements@);
    assert(names.len() == 3);
    assert(names[0] == plan.elements@[0]@);
    assert(names[1] == plan.elements@[1]@);
    assert(names[2] == plan.elements@[2]@);
}

/// Descriptors are usable from zero on.
pub proof fn law_descriptors_are_usable_from_zero(fd: i32)
    ensures
        usable(Some(fd)) <==> fd >= 0,
        !usable(None),
{
}

} // verus!
