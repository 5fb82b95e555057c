//! Turning pulled samples into frames.

use vstd::prelude::*;

use crate::capturable::PipeWireCapturable;
use crate::display::{extent, extent_of, law_lengths_wrap_like_casts};
use crate::errors::GStreamerError;
use crate::pipeline::PipelinePlan;
use crate::text::same_text;

verus! {

/// The region of a sample that is to be shown: the upper left corner, the width and the height.
pub type Crop = (u32, u32, u32, u32);

/// The bytes of a sample.
#[derive(Debug)]
pub enum SampleData {
    /// Copied out of a DMA buffer.
    Dma(Vec<u8>),
    /// Read from a mapped buffer.
    Mapped(Vec<u8>),
}

/// A complete sample.
#[derive(Debug)]
pub struct Sample {
    pub width: i32,
    pub height: i32,
    pub format: String,
    pub crop: Option<Crop>,
    pub data: SampleData,
}

/// What pulling a sample brought.
#[derive(Debug)]
pub enum Pulled {
    /// No sample came in time.
    Timeout,
    /// The sample has no caps.
    MissingCaps,
    /// The caps have no structure.
    MissingStructure,
    /// A field of the caps could not be read, with the text of the error.
    BadField(String),
    /// The caps have no pixel format.
    MissingFormat,
    /// The sample has no buffer.
    MissingBuffer { format: String },
    /// The buffer of the sample could not be mapped.
    Unmappable { format: String },
    /// A complete sample.
    Complete(Sample),
}

/// A frame, borrowed from the recorder.
#[derive(Debug)]
pub enum PixelProvider<'a> {
    /// Blue, green, red and an unused byte: width, height and bytes.
    BGR0(usize, usize, &'a [u8]),
    /// Red, green, blue and an unused byte: width, height and bytes.
    RGB0(usize, usize, &'a [u8]),
    /// No new frame.
    NONE,
}

/// The state of a recorder between two samples.
#[derive(Debug)]
pub struct PipeWireRecorder {
    pub buffer: Option<Vec<u8>>,
    pub buffer_cropped: Vec<u8>,
    pub pix_fmt: String,
    pub is_cropped: bool,
    pub width: usize,
    pub height: usize,
    pub saved_raw_data: Vec<u8>,
    pub dma_buffer: Vec<u8>,
}

/// A frame as plain values, or why there is none.
pub enum Shown {
    Nothing,
    Bgr { width: usize, height: usize, bytes: Seq<u8> },
    Rgb { width: usize, height: usize, bytes: Seq<u8> },
    Failed { text: Seq<char> },
}

impl<'a> View for PixelProvider<'a> {
    type V = Shown;

    open spec fn view(&self) -> Shown {
        match *self {
            PixelProvider::BGR0(width, height, b) => Shown::Bgr { width, height, bytes: b@ },
            PixelProvider::RGB0(width, height, b) => Shown::Rgb { width, height, bytes: b@ },
            PixelProvider::NONE => Shown::Nothing,
        }
    }
}

/// The outcome of a capture as plain values.
pub open spec fn outcome(r: Result<PixelProvider<'_>, GStreamerError>) -> Shown {
    match r {
        Ok(p) => p@,
        Err(e) => Shown::Failed { text: e.0@ },
    }
}

/// A recorder as plain values.
#[verifier::ext_equal]
pub struct RecorderView {
    pub buffer: Option<Seq<u8>>,
    pub cropped: Seq<u8>,
    pub pix_fmt: Seq<char>,
    pub is_cropped: bool,
    pub width: usize,
    pub height: usize,
    pub saved: Seq<u8>,
    pub dma: Seq<u8>,
}

impl View for PipeWireRecorder {
    type V = RecorderView;

    open spec fn view(&self) -> RecorderView {
        RecorderView {
            buffer: match self.buffer {
                Some(b) => Some(b@),
                None => None,
            },
            cropped: self.buffer_cropped@,
            pix_fmt: self.pix_fmt@,
            is_cropped: self.is_cropped,
            width: self.width,
            height: self.height,
            saved: self.saved_raw_data@,
            dma: self.dma_buffer@,
        }
    }
}

/// A signed length cut to 32 bits without sign.
pub open spec fn unsigned_of(v: i32) -> int {
    if v >= 0 {
        v as int
    } else {
        v + 0x1_0000_0000
    }
}

/// Converts a signed length.
fn unsigned(v: i32) -> (r: u32)
    ensures
        r == unsigned_of(v),
{
    assert(v < 0 ==> v as u32 == v + 0x1_0000_0000) by (bit_vector);
    v as u32
}

/// The rows of a crop, taken out of a frame whose rows are `w` pixels wide.
pub open spec fn crop_rows(data: Seq<u8>, w: int, x: int, y: int, cw: int, rows: nat) -> Seq<u8>
    decreases rows,
{
    if rows == 0 {
        Seq::empty()
    } else {
        let from = 4 * (w * (y + rows - 1) + x);
        crop_rows(data, w, x, y, cw, (rows - 1) as nat) + data.subrange(from, from + 4 * cw)
    }
}

/// Whether every row of a crop lies inside the data and the crop can be counted.
pub open spec fn crop_fits(len: int, w: int, crop: Crop) -> bool {
    &&& crop.2 * crop.3 * 4 <= usize::MAX
    &&& crop.1 + crop.3 <= usize::MAX
    &&& crop.3 > 0 ==> 4 * (w * (crop.1 + crop.3 - 1) + crop.0) + 4 * crop.2 <= len
}

impl Sample {
    /// The width as the recorder counts it.
    pub open spec fn w(self) -> int {
        extent_of(self.width)
    }

    /// The height as the recorder counts it.
    pub open spec fn h(self) -> int {
        extent_of(self.height)
    }

    /// The bytes of the sample.
    pub open spec fn bytes(self) -> Seq<u8> {
        match self.data {
            SampleData::Dma(b) => b@,
            SampleData::Mapped(b) => b@,
        }
    }

    /// The crop, unless it covers the whole sample.
    pub open spec fn real_crop(self) -> Option<Crop> {
        match self.crop {
            Some(c) => if c.0 == 0 && c.1 == 0 && c.2 == unsigned_of(self.width) && c.3
                == unsigned_of(self.height) {
                None
            } else {
                Some(c)
            },
            None => None,
        }
    }

    /// The crop, unless it covers the whole sample.
    fn get_real_crop(&self) -> (r: Option<Crop>)
        ensures
            r == self.real_crop(),
    {
        match self.crop {
            Some(c) => if c.0 == 0 && c.1 == 0 && c.2 == unsigned(self.width) && c.3 == unsigned(
                self.height,
            ) {
                None
            } else {
                Some(c)
            },
            None => None,
        }
    }

    /// Whether the size of the sample agrees with its bytes.
    pub open spec fn is_whole(self) -> bool {
        self.bytes().len() == self.w() * self.h() * 4
    }

    /// Whether the sample can be shown after `saved`: its size can be counted, a DMA copy is
    /// whole, and a crop lies inside.
    pub open spec fn fits(self, saved: Seq<u8>) -> bool {
        &&& self.data is Dma ==> self.is_whole()
        &&& self.bytes() != saved ==> {
            &&& self.w() * self.h() * 4 <= usize::MAX
            &&& self.is_whole() ==> match self.real_crop() {
                Some(c) => crop_fits(self.bytes().len() as int, self.w(), c),
                None => true,
            }
        }
    }
}

impl RecorderView {
    /// A recorder before the first sample.
    pub open spec fn fresh() -> RecorderView {
        RecorderView {
            buffer: None,
            cropped: Seq::empty(),
            pix_fmt: Seq::empty(),
            is_cropped: false,
            width: 0,
            height: 0,
            saved: Seq::empty(),
            dma: Seq::empty(),
        }
    }

    /// The recorder after the size and the crop of a sample were taken over.
    pub open spec fn sized(self, s: Sample) -> RecorderView {
        match s.real_crop() {
            Some(c) => RecorderView {
                cropped: crop_rows(
                    s.bytes(),
                    s.w(),
                    c.0 as int,
                    c.1 as int,
                    c.2 as int,
                    c.3 as nat,
                ),
                width: c.2 as usize,
                height: c.3 as usize,
                is_cropped: true,
                ..self
            },
            None => RecorderView {
                width: s.w() as usize,
                height: s.h() as usize,
                is_cropped: false,
                ..self
            },
        }
    }

    /// The recorder after a sample: bytes that repeat the last ones change nothing that is shown,
    /// and mapped bytes of the wrong length are dropped.
    pub open spec fn after(self, s: Sample) -> RecorderView {
        let formatted = RecorderView { pix_fmt: s.format@, ..self };
        match s.data {
            SampleData::Dma(b) => {
                let copied = RecorderView { dma: b@, buffer: None, ..formatted };
                if b@ == self.saved {
                    copied
                } else {
                    (RecorderView { saved: b@, ..copied }).sized(s)
                }
            },
            SampleData::Mapped(b) => if b@ == self.saved {
                formatted
            } else {
                let noted = RecorderView { saved: b@, ..formatted };
                if s.is_whole() {
                    RecorderView { buffer: Some(b@), ..noted.sized(s) }
                } else {
                    noted
                }
            },
        }
    }

    /// The bytes that are shown.
    pub open spec fn visible(self) -> Seq<u8> {
        if self.is_cropped {
            self.cropped
        } else {
            match self.buffer {
                Some(b) => b,
                None => self.dma,
            }
        }
    }

    /// The frame that a recorder shows.
    pub open spec fn shown(self) -> Shown {
        if self.buffer is None && self.dma.len() == 0 {
            Shown::Failed { text: "No buffer available!"@ }
        } else if self.pix_fmt == "BGRx"@ {
            Shown::Bgr { width: self.width, height: self.height, bytes: self.visible() }
        } else if self.pix_fmt == "RGBx"@ {
            Shown::Rgb { width: self.width, height: self.height, bytes: self.visible() }
        } else {
            Shown::Failed { text: "Unreachable! Unknown pix_fmt, "@ + self.pix_fmt }
        }
    }

    /// The recorder after a pull.
    pub open spec fn after_pull(self, p: Pulled) -> RecorderView {
        match p {
            Pulled::MissingBuffer { format } => RecorderView { pix_fmt: format@, ..self },
            Pulled::Unmappable { format } => RecorderView { pix_fmt: format@, ..self },
            Pulled::Complete(s) => self.after(s),
            _ => self,
        }
    }

    /// What a pull shows.
    pub open spec fn pull_outcome(self, p: Pulled) -> Shown {
        match p {
            Pulled::Timeout => Shown::Nothing,
            Pulled::MissingCaps => Shown::Failed { text: "Failed get caps"@ },
            Pulled::MissingStructure => Shown::Failed { text: "Failed to get structure"@ },
            Pulled::BadField(text) => Shown::Failed { text: text@ },
            Pulled::MissingFormat => Shown::Failed { text: "Failed to get pixel format"@ },
            Pulled::MissingBuffer { format } => Shown::Failed {
                text: "Failed to get owned buffer."@,
            },
            Pulled::Unmappable { format } => Shown::Failed { text: "Failed to map buffer."@ },
            Pulled::Complete(s) => if s.bytes() == self.saved {
                Shown::Nothing
            } else {
                self.after(s).shown()
            },
        }
    }
}

/// Whether two byte strings are equal.
fn same_bytes(a: &[u8], b: &[u8]) -> (r: bool)
    ensures
        r == (a@ == b@),
{
    if a.len() != b.len() {
        return false;
    }
    let mut i: usize = 0;
    while i < a.len()
        invariant
            a@.len() == b@.len(),
            i <= a@.len(),
            forall|k: int| 0 <= k < i ==> a@[k] == b@[k],
        decreases a.len() - i,
    {
        if a[i] != b[i] {
            return false;
        }
        i += 1;
    }
    assert(a@ =~= b@);
    true
}

/// Compares new bytes with the last ones and keeps them for the next comparison. The result tells
/// whether they are the same, so that there is nothing new to show.
pub fn would_block_if_equal(last: &mut Vec<u8>, bytes: &[u8]) -> (same: bool)
    ensures
        same == (old(last)@ == bytes@),
        final(last)@ == bytes@,
{
    if same_bytes(last.as_slice(), bytes) {
        return true;
    }
    last.clear();
    last.extend_from_slice(bytes);
    assert(last@ =~= bytes@);
    false
}

/// The bytes of a frame of this size, where they can be counted.
fn count_bytes(w: usize, h: usize) -> (r: Option<usize>)
    ensures
        match r {
            Some(n) => n == w * h * 4,
            None => w * h * 4 > usize::MAX,
        },
{
    assert(w * h <= w * h * 4) by (nonlinear_arith)
        requires
            w >= 0,
            h >= 0,
    ;
    match w.checked_mul(h) {
        Some(pixels) => pixels.checked_mul(4),
        None => None,
    }
}

/// Whether every row of a crop lies inside the data and the crop can be counted.
fn check_crop(len: usize, w: usize, crop: Crop) -> (r: bool)
    ensures
        r == crop_fits(len as int, w as int, crop),
{
    let (x, y, cw, ch) = (crop.0 as u128, crop.1 as u128, crop.2 as u128, crop.3 as u128);
    proof {
        let c = crop.2 as int;
        assert(c * crop.3 * 4 <= 0x1_0000_0000 * 0x1_0000_0000 * 4) by (nonlinear_arith)
            requires
                0 <= c <= 0x1_0000_0000,
                0 <= crop.3 <= 0x1_0000_0000,
        ;
        assert(c * crop.3 <= c * crop.3 * 4) by (nonlinear_arith)
            requires
                0 <= c,
                0 <= crop.3,
        ;
        assert(0x1_0000_0000 * 0x1_0000_0000 * 4 <= u128::MAX);
    }
    if cw * ch * 4 > usize::MAX as u128 || y + ch > usize::MAX as u128 {
        return false;
    }
    if ch == 0 {
        return true;
    }
    proof {
        let last = crop.1 + crop.3 - 1;
        assert(0 <= w * last <= 0x1_0000_0000_0000_0000 * 0x2_0000_0000) by (nonlinear_arith)
            requires
                0 <= w <= 0x1_0000_0000_0000_0000,
                0 <= last <= 0x2_0000_0000,
        ;
        assert(4 * (0x1_0000_0000_0000_0000 * 0x2_0000_0000 + 0x1_0000_0000) + 4 * 0x1_0000_0000
            <= u128::MAX);
    }
    4 * (w as u128 * (y + ch - 1) + x) + 4 * cw <= len as u128
}

/// Copies the rows of a crop out of a frame whose rows are `w` pixels wide.
fn copy_crop(data: &[u8], w: usize, crop: Crop, out: &mut Vec<u8>)
    requires
        crop_fits(data@.len() as int, w as int, crop),
    ensures
        final(out)@ == crop_rows(
            data@,
            w as int,
            crop.0 as int,
            crop.1 as int,
            crop.2 as int,
            crop.3 as nat,
        ),
{
    out.clear();
    let x: usize = crop.0 as usize;
    let y: usize = crop.1 as usize;
    let cw: usize = crop.2 as usize;
    let ch: usize = crop.3 as usize;
    let mut row: usize = 0;
    while row < ch
        invariant
            row <= ch,
            crop_fits(data@.len() as int, w as int, crop),
            x == crop.0,
            y == crop.1,
            cw == crop.2,
            ch == crop.3,
            out@ == crop_rows(data@, w as int, x as int, y as int, cw as int, row as nat),
        decreases ch - row,
    {
        proof {
            assert(w * (y + row) <= w * (y + ch - 1)) by (nonlinear_arith)
                requires
                    row <= ch - 1,
                    w >= 0,
            ;
            assert(data@.len() == data.len());
        }
        let start: usize = 4 * (w * (y + row) + x);
        let part = &data[start..start + 4 * cw];
        out.extend_from_slice(part);
        assert(out@ =~= crop_rows(
            data@,
            w as int,
            x as int,
            y as int,
            cw as int,
            (row + 1) as nat,
        ));
        row += 1;
    }
}

impl PipeWireRecorder {
    /// A recorder for a capturable before its first sample, and what its pipeline is told.
    pub fn new(
        capturable: &PipeWireCapturable,
        duplicated: Option<i32>,
        remote_desktop: bool,
    ) -> (r: (PipeWireRecorder, PipelinePlan))
        ensures
            r.0@ == RecorderView::fresh(),
            r.1.plans(*capturable, duplicated, remote_desktop),
    {
        let plan = PipelinePlan::new(capturable, duplicated, remote_desktop);
        let r = PipeWireRecorder {
            buffer: None,
            buffer_cropped: Vec::new(),
            pix_fmt: String::new(),
            is_cropped: false,
            width: 0,
            height: 0,
            saved_raw_data: Vec::new(),
            dma_buffer: Vec::new(),
        };
        assert(r@ =~= RecorderView::fresh());
        (r, plan)
    }

    /// Takes over the size and the crop of a sample.
    fn take_size(&mut self, width: usize, height: usize, crop: Option<Crop>, data: &[u8])
        requires
            match crop {
                Some(c) => crop_fits(data@.len() as int, width as int, c),
                None => true,
            },
        ensures
            final(self)@ == (match crop {
                Some(c) => RecorderView {
                    cropped: crop_rows(
                        data@,
                        width as int,
                        c.0 as int,
                        c.1 as int,
                        c.2 as int,
                        c.3 as nat,
                    ),
                    width: c.2 as usize,
                    height: c.3 as usize,
                    is_cropped: true,
                    ..old(self)@
                },
                None => RecorderView { width, height, is_cropped: false, ..old(self)@ },
            }),
    {
        match crop {
            Some(c) => {
                copy_crop(data, width, c, &mut self.buffer_cropped);
                self.width = c.2 as usize;
                self.height = c.3 as usize;
                self.is_cropped = true;
            },
            None => {
                self.width = width;
                self.height = height;
                self.is_cropped = false;
            },
        }
    }

    /// Takes in a sample; the result tells whether there is something new to show.
    pub fn take_sample(&mut self, s: Sample) -> (fresh: bool)
        requires
            s.fits(old(self)@.saved),
        ensures
            final(self)@ == old(self)@.after(s),
            fresh == (s.bytes() != old(self)@.saved),
    {
        let ghost before = self@;
        let ghost sample = s;
        let w: usize = extent(s.width);
        let h: usize = extent(s.height);
        let crop: Option<Crop> = s.get_real_crop();
        self.pix_fmt = s.format;
        match s.data {
            SampleData::Dma(bytes) => {
                self.buffer = None;
                let same = would_block_if_equal(&mut self.saved_raw_data, bytes.as_slice());
                if !same {
                    self.take_size(w, h, crop, bytes.as_slice());
                }
                self.dma_buffer = bytes;
                assert(self@ =~= before.after(sample));
                !same
            },
            SampleData::Mapped(bytes) => {
                if would_block_if_equal(&mut self.saved_raw_data, bytes.as_slice()) {
                    assert(self@ =~= before.after(sample));
                    return false;
                }
                proof {
                    assert(w * h <= w * h * 4) by (nonlinear_arith)
                        requires
                            w >= 0,
                            h >= 0,
                    ;
                }
                if bytes.len() == w * h * 4 {
                    self.take_size(w, h, crop, bytes.as_slice());
                    self.buffer = Some(bytes);
                }
                assert(self@ =~= before.after(sample));
                true
            },
        }
    }

    /// The frame that the recorder shows.
    pub fn frame(&self) -> (r: Result<PixelProvider<'_>, GStreamerError>)
        ensures
            outcome(r) == self@.shown(),
    {
        if self.buffer.is_none() && self.dma_buffer.is_empty() {
            return Err(GStreamerError("No buffer available!".to_owned()));
        }
        let bytes: &[u8] = if self.is_cropped {
            self.buffer_cropped.as_slice()
        } else {
            match &self.buffer {
                Some(b) => b.as_slice(),
                None => self.dma_buffer.as_slice(),
            }
        };
        if same_text(self.pix_fmt.as_str(), "BGRx") {
            Ok(PixelProvider::BGR0(self.width, self.height, bytes))
        } else if same_text(self.pix_fmt.as_str(), "RGBx") {
            Ok(PixelProvider::RGB0(self.width, self.height, bytes))
        } else {
            let mut text = "Unreachable! Unknown pix_fmt, ".to_owned();
            text.append(self.pix_fmt.as_str());
            Err(GStreamerError(text))
        }
    }

    /// Forgets the last bytes, so that a frame counts as new even if it repeats them.
    pub fn forget_last(&mut self)
        ensures
            final(self)@ == (RecorderView { saved: Seq::empty(), ..old(self)@ }),
    {
        self.saved_raw_data.clear();
    }

    /// Whether what a pull brought can be taken in.
    pub fn can_capture(&self, pulled: &Pulled) -> (r: bool)
        ensures
            r == (*pulled matches Pulled::Complete(s) ==> s.fits(self@.saved)),
    {
        match pulled {
            Pulled::Complete(s) => {
                let w: usize = extent(s.width);
                let h: usize = extent(s.height);
                let size = count_bytes(w, h);
                let (bytes, is_dma): (&Vec<u8>, bool) = match &s.data {
                    SampleData::Dma(b) => (b, true),
                    SampleData::Mapped(b) => (b, false),
                };
                let whole = match size {
                    Some(n) => bytes.len() == n,
                    None => false,
                };
                assert(whole == s.is_whole()) by {
                    assert(s.bytes().len() == bytes.len());
                }
                if is_dma && !whole {
                    return false;
                }
                if same_bytes(bytes.as_slice(), self.saved_raw_data.as_slice()) {
                    return true;
                }
                if size.is_none() {
                    return false;
                }
                match (whole, s.get_real_crop()) {
                    (true, Some(c)) => check_crop(bytes.len(), w, c),
                    _ => true,
                }
            },
            _ => true,
        }
    }

    /// Takes in what a pull brought and shows the frame.
    pub fn capture(&mut self, pulled: Pulled) -> (r: Result<PixelProvider<'_>, GStreamerError>)
        requires
            pulled matches Pulled::Complete(s) ==> s.fits(old(self)@.saved),
        ensures
            final(self)@ == old(self)@.after_pull(pulled),
            outcome(r) == old(self)@.pull_outcome(pulled),
    {
        match pulled {
            Pulled::Timeout => Ok(PixelProvider::NONE),
            Pulled::MissingCaps => Err(GStreamerError("Failed get caps".to_owned())),
            Pulled::MissingStructure => Err(GStreamerError("Failed to get structure".to_owned())),
            Pulled::BadField(text) => Err(GStreamerError(text)),
            Pulled::MissingFormat => Err(GStreamerError("Failed to get pixel format".to_owned())),
            Pulled::MissingBuffer { format } => {
                self.pix_fmt = format;
                Err(GStreamerError("Failed to get owned buffer.".to_owned()))
            },
            Pulled::Unmappable { format } => {
                self.pix_fmt = format;
                Err(GStreamerError("Failed to map buffer.".to_owned()))
            },
            Pulled::Complete(s) => {
                if self.take_sample(s) {
                    self.frame()
                } else {
                    Ok(PixelProvider::NONE)
                }
            },
        }
    }
}

/// What pulling a sample told of its size.
#[derive(Debug)]
pub enum PulledSize {
    /// No sample came in time.
    Timeout,
    /// The sample has no caps.
    MissingCaps,
    /// The caps have no structure.
    MissingStructure,
    /// A field of the caps could not be read, with the text of the error.
    BadField(String),
    /// The size of the sample.
    Known { width: i32, height: i32 },
}

/// The message where no size was told.
pub open spec fn size_error(pulled: PulledSize) -> Option<Seq<char>> {
    match pulled {
        PulledSize::Timeout => Some("Error getting screen resolution"@),
        PulledSize::MissingCaps => Some("Failed get caps"@),
        PulledSize::MissingStructure => Some("Failed to get structure"@),
        PulledSize::BadField(text) => Some(text@),
        PulledSize::Known { width, height } => None,
    }
}

/// The size of the screen, which is that of a pulled sample.
pub fn get_res(pulled: PulledSize) -> (r: Result<(usize, usize), GStreamerError>)
    ensures
        match pulled {
            PulledSize::Known { width, height } => r == Ok::<(usize, usize), GStreamerError>(
                (extent_of(width) as usize, extent_of(height) as usize),
            ),
            _ => r matches Err(e) && Some(e.0@) == size_error(pulled),
        },
        pulled matches PulledSize::Known { width, height } ==> r == Ok::<
            (usize, usize),
            GStreamerError,
        >((width as usize, height as usize)),
{
    proof {
        if let PulledSize::Known { width, height } = pulled {
            law_lengths_wrap_like_casts(width);
            law_lengths_wrap_like_casts(height);
        }
    }
    match pulled {
        PulledSize::Timeout => Err(GStreamerError("Error getting screen resolution".to_owned())),
        PulledSize::MissingCaps => Err(GStreamerError("Failed get caps".to_owned())),
        PulledSize::MissingStructure => Err(GStreamerError("Failed to get structure".to_owned())),
        PulledSize::BadField(text) => Err(GStreamerError(text)),
        PulledSize::Known { width, height } => Ok((extent(width), extent(height))),
    }
}

/// The rows of a crop have the size of the crop.
proof fn lemma_crop_len(data: Seq<u8>, w: int, x: int, y: int, cw: int, rows: nat)
    requires
        w >= 0,
        x >= 0,
        y >= 0,
        cw >= 0,
        rows > 0 ==> 4 * (w * (y + rows - 1) + x) + 4 * cw <= data.len(),
    ensures
        crop_rows(data, w, x, y, cw, rows).len() == 4 * cw * rows,
    decreases rows,
{
    if rows > 0 {
        if rows > 1 {
            assert(w * (y + (rows - 1) - 1) <= w * (y + rows - 1)) by (nonlinear_arith)
                requires
                    w >= 0,
            ;
        }
        lemma_crop_len(data, w, x, y, cw, (rows - 1) as nat);
        assert(w * (y + rows - 1) >= 0) by (nonlinear_arith)
            requires
                w >= 0,
                y >= 0,
                rows > 0,
        ;
        assert(4 * cw * (rows - 1) + 4 * cw == 4 * cw * rows) by (nonlinear_arith);
    } else {
        assert(4 * cw * 0 == 0) by (nonlinear_arith);
    }
}

/// A crop that fits has its size in bytes, and pixel `(i, j)` of it is the pixel of the frame that
/// stands `i` to the right of and `j` below the corner of the crop.
pub proof fn law_crop_moves_pixels(data: Seq<u8>, w: int, crop: Crop, i: int, j: int)
    requires
        w >= 0,
        crop_fits(data.len() as int, w, crop),
        0 <= i < crop.2,
        0 <= j < crop.3,
    ensures
        ({
            let c = crop_rows(
                data,
                w,
                crop.0 as int,
                crop.1 as int,
                crop.2 as int,
                crop.3 as nat,
            );
            let to = 4 * (crop.2 * j + i);
            let from = 4 * (w * (crop.1 + j) + crop.0 + i);
            &&& c.len() == crop.2 * crop.3 * 4
            &&& to + 4 <= c.len()
            &&& c.subrange(to, to + 4) == data.subrange(from, from + 4)
        }),
{
    lemma_crop_pixel(
        data,
        w,
        crop.0 as int,
        crop.1 as int,
        crop.2 as int,
        crop.3 as nat,
        i,
        j,
    );
    let cw = crop.2 as int;
    let ch = crop.3 as int;
    assert(4 * cw * ch == cw * ch * 4) by (nonlinear_arith);
}

/// Where a pixel of a crop comes from.
proof fn lemma_crop_pixel(
    data: Seq<u8>,
    w: int,
    x: int,
    y: int,
    cw: int,
    rows: nat,
    i: int,
    j: int,
)
    requires
        w >= 0,
        x >= 0,
        y >= 0,
        0 <= i < cw,
        0 <= j < rows,
        4 * (w * (y + rows - 1) + x) + 4 * cw <= data.len(),
    ensures
        crop_rows(data, w, x, y, cw, rows).len() == 4 * cw * rows,
        4 * (cw * j + i) + 4 <= 4 * cw * rows,
        crop_rows(data, w, x, y, cw, rows).subrange(4 * (cw * j + i), 4 * (cw * j + i) + 4)
            == data.subrange(4 * (w * (y + j) + x + i), 4 * (w * (y + j) + x + i) + 4),
    decreases rows,
{
    lemma_crop_len(data, w, x, y, cw, rows);
    let to = 4 * (cw * j + i);
    let all = crop_rows(data, w, x, y, cw, rows);
    let head = crop_rows(data, w, x, y, cw, (rows - 1) as nat);
    if rows > 1 {
        assert(w * (y + (rows - 1) - 1) <= w * (y + rows - 1)) by (nonlinear_arith)
            requires
                w >= 0,
        ;
    }
    lemma_crop_len(data, w, x, y, cw, (rows - 1) as nat);
    assert(w * (y + rows - 1) >= 0) by (nonlinear_arith)
        requires
            w >= 0,
            y >= 0,
            rows > 0,
    ;
    assert(4 * cw * (rows - 1) + 4 * cw == 4 * cw * rows) by (nonlinear_arith);
    assert(cw * j + cw <= cw * rows && cw * j >= 0) by (nonlinear_arith)
        requires
            j + 1 <= rows,
            j >= 0,
            cw >= 0,
    ;
    assert(4 * cw * rows == 4 * (cw * rows)) by (nonlinear_arith);
    if j == rows - 1 {
        assert(4 * cw * (rows - 1) == 4 * (cw * j)) by (nonlinear_arith)
            requires
                j == rows - 1,
        ;
        let from = 4 * (w * (y + j) + x);
        let row = data.subrange(from, from + 4 * cw);
        assert(all =~= head + row);
        assert(all.subrange(to, to + 4) =~= row.subrange(4 * i, 4 * i + 4));
        assert(row.subrange(4 * i, 4 * i + 4) =~= data.subrange(from + 4 * i, from + 4 * i + 4));
    } else {
        lemma_crop_pixel(data, w, x, y, cw, (rows - 1) as nat, i, j);
        assert(all.subrange(to, to + 4) =~= head.subrange(to, to + 4));
    }
}

/// A new sample that is not dropped is shown with exactly the bytes that its size asks for.
pub proof fn law_frames_are_whole(rec: RecorderView, s: Sample)
    requires
        s.fits(rec.saved),
        s.bytes() != rec.saved,
        s.is_whole(),
    ensures
        rec.after(s).visible().len() == rec.after(s).width * rec.after(s).height * 4,
{
    match s.real_crop() {
        Some(c) => {
            lemma_crop_len(
                s.bytes(),
                s.w(),
                c.0 as int,
                c.1 as int,
                c.2 as int,
                c.3 as nat,
            );
            let cw = c.2 as int;
            let ch = c.3 as int;
            assert(4 * cw * ch == cw * ch * 4) by (nonlinear_arith);
        },
        None => {},
    }
}

/// Bytes that were just taken in are not shown a second time.
pub proof fn law_repeated_frames_show_nothing(rec: RecorderView, first: Sample, again: Sample)
    requires
        first.bytes() == again.bytes(),
    ensures
        rec.after(first).pull_outcome(Pulled::Complete(again)) == Shown::Nothing,
{
}

/// After the last bytes were forgotten, a sample counts as new even if it repeats them.
pub proof fn law_forgotten_frames_are_shown_again(rec: RecorderView, s: Sample)
    requires
        s.bytes().len() > 0,
    ensures
        ({
            let forgetful = RecorderView { saved: Seq::empty(), ..rec };
            forgetful.pull_outcome(Pulled::Complete(s)) == forgetful.after(s).shown()
        }),
{
}

/// Mapped bytes whose length does not agree with the size of the sample leave the shown frame as
/// it was.
pub proof fn law_mismatched_frames_are_dropped(rec: RecorderView, s: Sample)
    requires
        s.data is Mapped,
        !s.is_whole(),
    ensures
        rec.after(s).visible() == rec.visible(),
        rec.after(s).width == rec.width,
        rec.after(s).height == rec.height,
{
}

/// A signed length is cut to 32 bits as a cast does.
proof fn lemma_unsigned_like_casts(v: i32)
    ensures
        unsigned_of(v) == v as u32,
{
    assert(v < 0 ==> v as u32 == v + 0x1_0000_0000) by (bit_vector);
}

/// Whether the bytes of a sample are these, wherever they come from.
pub open spec fn carries(s: Sample, bytes: Seq<u8>) -> bool {
    match s.data {
        SampleData::Dma(b) => b@ == bytes,
        SampleData::Mapped(b) => b@ == bytes,
    }
}

/// A new, whole sample with a crop inside it that is not all of it is shown with the size of the
/// crop, in the order of colours that its format tells. The pixel in column `i` and row `j` is, byte
/// by byte, the pixel of the sample that many columns and rows from the corner of the crop.
pub proof fn law_crops_show_their_region(
    rec: RecorderView,
    s: Sample,
    bytes: Seq<u8>,
    crop: Crop,
    i: int,
    j: int,
    k: int,
)
    requires
        carries(s, bytes),
        bytes != rec.saved,
        bytes.len() <= usize::MAX,
        bytes.len() == (s.width as usize) * (s.height as usize) * 4,
        s.crop == Some(crop),
        crop != (0u32, 0u32, s.width as u32, s.height as u32),
        crop.2 * crop.3 * 4 <= usize::MAX,
        crop.1 + crop.3 <= usize::MAX,
        0 <= i < crop.2,
        0 <= j < crop.3,
        0 <= k < 4,
        4 * ((s.width as usize) * (crop.1 + crop.3 - 1) + crop.0) + 4 * crop.2 <= bytes.len(),
    ensures
        s.fits(rec.saved),
        s.format@ == "BGRx"@ ==> (rec.pull_outcome(Pulled::Complete(s)) matches Shown::Bgr {
            width,
            height,
            bytes: shown,
        } && width == crop.2 && height == crop.3 && shown.len() == crop.2 * crop.3 * 4 && shown[4 * (
        crop.2 * j + i) + k] == bytes[4 * ((s.width as usize) * (crop.1 + j) + crop.0 + i) + k]),
        s.format@ == "RGBx"@ ==> (rec.pull_outcome(Pulled::Complete(s)) matches Shown::Rgb {
            width,
            height,
            bytes: shown,
        } && width == crop.2 && height == crop.3 && shown.len() == crop.2 * crop.3 * 4 && shown[4 * (
        crop.2 * j + i) + k] == bytes[4 * ((s.width as usize) * (crop.1 + j) + crop.0 + i) + k]),
{
    lemma_formats_differ();
    law_lengths_wrap_like_casts(s.width);
    law_lengths_wrap_like_casts(s.height);
    lemma_unsigned_like_casts(s.width);
    lemma_unsigned_like_casts(s.height);
    let w = s.width as usize as int;
    law_crop_moves_pixels(bytes, w, crop, i, j);
    let cropped = crop_rows(
        bytes,
        w,
        crop.0 as int,
        crop.1 as int,
        crop.2 as int,
        crop.3 as nat,
    );
    let to = 4 * (crop.2 * j + i);
    let from = 4 * (w * (crop.1 + j) + crop.0 + i);
    assert(cropped.subrange(to, to + 4)[k] == cropped[to + k]) by {
        assert(crop.2 * j >= 0) by (nonlinear_arith)
            requires
                crop.2 >= 0,
                j >= 0,
        ;
    }
    assert(data_index_fits(w, crop, j, bytes.len() as int)) by {
        assert(w * (crop.1 + j) <= w * (crop.1 + crop.3 - 1) && w * (crop.1 + j) >= 0)
            by (nonlinear_arith)
            requires
                w >= 0,
                0 <= crop.1 + j,
                j <= crop.3 - 1,
        ;
    }
    assert(bytes.subrange(from, from + 4)[k] == bytes[from + k]);
    let after = rec.after(s);
    assert(after.visible() == cropped);
    assert(after.buffer is Some || after.dma == bytes);
}

/// A row of a crop lies inside the data.
spec fn data_index_fits(w: int, crop: Crop, j: int, len: int) -> bool {
    0 <= 4 * (w * (crop.1 + j) + crop.0) && 4 * (w * (crop.1 + j) + crop.0) + 4 * crop.2 <= len
}

/// The two formats have different names.
proof fn lemma_formats_differ()
    ensures
        "BGRx"@ != "RGBx"@,
{
    reveal_strlit("BGRx");
    reveal_strlit("RGBx");
    assert("BGRx"@[0] != "RGBx"@[0]);
}

/// A new, whole sample without a crop, or with one that is all of it, is shown as it is.
pub proof fn law_whole_samples_are_shown_as_they_are(rec: RecorderView, s: Sample, bytes: Seq<u8>)
    requires
        carries(s, bytes),
        bytes != rec.saved,
        0 < bytes.len() <= usize::MAX,
        bytes.len() == (s.width as usize) * (s.height as usize) * 4,
        s.crop is None || s.crop == Some((0u32, 0u32, s.width as u32, s.height as u32)),
    ensures
        s.fits(rec.saved),
        s.format@ == "BGRx"@ ==> rec.pull_outcome(Pulled::Complete(s)) == (Shown::Bgr {
            width: s.width as usize,
            height: s.height as usize,
            bytes,
        }),
        s.format@ == "RGBx"@ ==> rec.pull_outcome(Pulled::Complete(s)) == (Shown::Rgb {
            width: s.width as usize,
            height: s.height as usize,
            bytes,
        }),
        s.format@ != "BGRx"@ && s.format@ != "RGBx"@ ==> rec.pull_outcome(Pulled::Complete(s))
            == (Shown::Failed { text: "Unreachable! Unknown pix_fmt, "@ + s.format@ }),
{
    lemma_formats_differ();
    law_lengths_wrap_like_casts(s.width);
    law_lengths_wrap_like_casts(s.height);
    lemma_unsigned_like_casts(s.width);
    lemma_unsigned_like_casts(s.height);
}

/// A sample is taken in if and only if, for a DMA copy, its bytes have its size, and, unless it
/// repeats the last bytes, its size can be counted and a crop of a whole sample that is not all of it
/// lies inside.
pub proof fn law_which_samples_fit(s: Sample, bytes: Seq<u8>, saved: Seq<u8>)
    requires
        carries(s, bytes),
    ensures
        ({
            let (w, h) = (s.width as usize as int, s.height as usize as int);
            s.fits(saved) <==> {
                &&& s.data is Dma ==> bytes.len() == w * h * 4
                &&& bytes == saved || {
                    &&& w * h * 4 <= usize::MAX
                    &&& bytes.len() == w * h * 4 && s.crop is Some && s.crop != Some(
                        (0u32, 0u32, s.width as u32, s.height as u32),
                    ) ==> {
                        let c = s.crop->0;
                        &&& c.2 * c.3 * 4 <= usize::MAX
                        &&& c.1 + c.3 <= usize::MAX
                        &&& c.3 > 0 ==> 4 * (w * (c.1 + c.3 - 1) + c.0) + 4 * c.2 <= bytes.len()
                    }
                }
            }
        }),
{
    law_lengths_wrap_like_casts(s.width);
    law_lengths_wrap_like_casts(s.height);
    lemma_unsigned_like_casts(s.width);
    lemma_unsigned_like_casts(s.height);
}

/// A sample whose bytes repeat the last ones shows nothing. Every sample leaves its format and its
/// bytes for the next comparison. A DMA copy takes the place of a mapped buffer; mapped bytes are
/// kept only if they are new and whole, and never touch a DMA copy.
pub proof fn law_samples_leave_their_bytes(rec: RecorderView, s: Sample, bytes: Seq<u8>)
    requires
        carries(s, bytes),
    ensures
        bytes == rec.saved ==> rec.pull_outcome(Pulled::Complete(s)) == Shown::Nothing,
        rec.after_pull(Pulled::Complete(s)) == rec.after(s),
        rec.after(s).saved == bytes,
        rec.after(s).pix_fmt == s.format@,
        s.data is Dma ==> rec.after(s).dma == bytes && rec.after(s).buffer is None,
        s.data is Mapped ==> rec.after(s).dma == rec.dma,
        s.data is Mapped && bytes != rec.saved && bytes.len() == (s.width as usize) * (
        s.height as usize) * 4 ==> rec.after(s).buffer == Some(bytes),
        s.data is Mapped && (bytes == rec.saved || bytes.len() != (s.width as usize) * (
        s.height as usize) * 4) ==> rec.after(s) == (RecorderView {
            pix_fmt: s.format@,
            saved: bytes,
            ..rec
        }),
        s.data is Dma && bytes == rec.saved ==> rec.after(s) == (RecorderView {
            pix_fmt: s.format@,
            dma: bytes,
            buffer: None,
            ..rec
        }),
        s.data is Mapped && bytes != rec.saved && bytes.len() != (s.width as usize) * (
        s.height as usize) * 4 ==> rec.pull_outcome(Pulled::Complete(s)) == (RecorderView {
            pix_fmt: s.format@,
            ..rec
        }).shown(),
{
    law_lengths_wrap_like_casts(s.width);
    law_lengths_wrap_like_casts(s.height);
}

/// A recorder shows what it holds: the region of a crop, or else the mapped buffer, or else the DMA
/// copy. While it holds no buffer there is nothing to show, and that is an error.
pub proof fn law_recorders_show_what_they_hold(rec: RecorderView)
    ensures
        rec.buffer is None && rec.dma.len() == 0 ==> rec.shown() == (Shown::Failed {
            text: "No buffer available!"@,
        }),
        (rec.buffer is Some || rec.dma.len() > 0) && rec.pix_fmt == "BGRx"@ ==> (
        rec.shown() matches Shown::Bgr { width, height, bytes } && width == rec.width && height
            == rec.height && (rec.is_cropped ==> bytes == rec.cropped) && (!rec.is_cropped
            && rec.buffer is Some ==> Some(bytes) == rec.buffer) && (!rec.is_cropped
            && rec.buffer is None ==> bytes == rec.dma)),
        (rec.buffer is Some || rec.dma.len() > 0) && rec.pix_fmt == "RGBx"@ ==> (
        rec.shown() matches Shown::Rgb { width, height, bytes } && width == rec.width && height
            == rec.height && (rec.is_cropped ==> bytes == rec.cropped) && (!rec.is_cropped
            && rec.buffer is Some ==> Some(bytes) == rec.buffer) && (!rec.is_cropped
            && rec.buffer is None ==> bytes == rec.dma)),
        rec.shown() != Shown::Nothing,
{
    lemma_formats_differ();
}

/// A pull without a complete sample shows no frame and changes at most the format; without any
/// sample it is no error, otherwise it is one.
pub proof fn law_incomplete_pulls_keep_the_frame(rec: RecorderView, p: Pulled)
    requires
        !(p is Complete),
    ensures
        rec.after_pull(p) == (RecorderView { pix_fmt: rec.after_pull(p).pix_fmt, ..rec }),
        p matches Pulled::MissingBuffer { format } ==> rec.after_pull(p).pix_fmt == format@,
        p matches Pulled::Unmappable { format } ==> rec.after_pull(p).pix_fmt == format@,
        !(p is MissingBuffer) && !(p is Unmappable) ==> rec.after_pull(p) == rec,
        p is Timeout ==> rec.pull_outcome(p) == Shown::Nothing,
        !(p is Timeout) ==> rec.pull_outcome(p) is Failed,
        p matches Pulled::BadField(text) ==> rec.pull_outcome(p) == (Shown::Failed {
            text: text@,
        }),
{
}

/// A frame is what it shows: its order of colours, its width, its height and its bytes.
pub proof fn law_frames_are_what_they_show(width: usize, height: usize, bytes: &[u8])
    ensures
        PixelProvider::BGR0(width, height, bytes)@ == (Shown::Bgr { width, height, bytes: bytes@ }),
        PixelProvider::RGB0(width, height, bytes)@ == (Shown::Rgb { width, height, bytes: bytes@ }),
        PixelProvider::NONE@ is Nothing,
{
}

/// A recorder is what it holds.
pub proof fn law_recorders_are_what_they_hold(rec: PipeWireRecorder)
    ensures
        rec@.width == rec.width,
        rec@.height == rec.height,
        rec@.is_cropped == rec.is_cropped,
        rec@.cropped == rec.buffer_cropped@,
        rec@.pix_fmt == rec.pix_fmt@,
        rec@.saved == rec.saved_raw_data@,
        rec@.dma == rec.dma_buffer@,
        rec.buffer is None <==> rec@.buffer is None,
        rec.buffer matches Some(b) ==> rec@.buffer == Some(b@),
{
}

/// Before the first sample there is no size and no frame.
pub proof fn law_new_recorders_hold_nothing()
    ensures
        RecorderView::fresh().width == 0,
        RecorderView::fresh().height == 0,
        RecorderView::fresh().buffer is None,
        RecorderView::fresh().dma.len() == 0,
        RecorderView::fresh().saved.len() == 0,
        RecorderView::fresh().cropped.len() == 0,
        RecorderView::fresh().pix_fmt.len() == 0,
        !RecorderView::fresh().is_cropped,
        RecorderView::fresh().shown() == (Shown::Failed { text: "No buffer available!"@ }),
{
}

/// A pull without a sample shows nothing. One that brought an incomplete sample fails with a message
/// that tells what was missing.
pub proof fn law_incomplete_pulls_tell_what_is_missing(
    rec: RecorderView,
    text: String,
    format: String,
)
    ensures
        rec.pull_outcome(Pulled::Timeout) is Nothing,
        rec.pull_outcome(Pulled::MissingCaps) == (Shown::Failed { text: "Failed get caps"@ }),
        rec.pull_outcome(Pulled::MissingStructure) == (Shown::Failed {
            text: "Failed to get structure"@,
        }),
        rec.pull_outcome(Pulled::BadField(text)) == (Shown::Failed { text: text@ }),
        rec.pull_outcome(Pulled::MissingFormat) == (Shown::Failed {
            text: "Failed to get pixel format"@,
        }),
        rec.pull_outcome(Pulled::MissingBuffer { format }) == (Shown::Failed {
            text: "Failed to get owned buffer."@,
        }),
        rec.pull_outcome(Pulled::Unmappable { format }) == (Shown::Failed {
            text: "Failed to map buffer."@,
        }),
{
}

/// Where no size was told the message says why.
pub proof fn law_missing_sizes_tell_why(text: String, width: i32, height: i32)
    ensures
        size_error(PulledSize::Timeout) == Some("Error getting screen resolution"@),
        size_error(PulledSize::MissingCaps) == Some("Failed get caps"@),
        size_error(PulledSize::MissingStructure) == Some("Failed to get structure"@),
        size_error(PulledSize::BadField(text)) == Some(text@),
        size_error(PulledSize::Known { width, height }) is None,
{
}

} // verus!
