use vstd::prelude::*;
use crate::image::{encodable, gray_png, png_encoding, rgb_png};
use crate::model::{Frame, LayoutError, Rect, SCAN_INTERVAL, elapsed};

verus! {

/// Largest capture accepted, in pixels.
pub const MAX_CAPTURE_PIXELS: u64 = 34_000_000;

/// Why a captured sample was refused.
#[derive(Clone, Copy, Debug, PartialEq, Eq, Structural)]
pub enum CaptureError {
    UnsupportedResolution,
    SizeChanged,
    UnsupportedStride,
    IncompleteBuffer,
    Region(LayoutError),
}

impl CaptureError {
    /// The user-facing message of the error.
    pub open spec fn spec_message(&self) -> Seq<char> {
        match self {
            CaptureError::UnsupportedResolution => "Resolução de captura não suportada."@,
            CaptureError::SizeChanged => "O tamanho da captura mudou. Selecione a área novamente."@,
            CaptureError::UnsupportedStride => "Stride de captura não suportado."@,
            CaptureError::IncompleteBuffer => "Buffer de captura incompleto."@,
            CaptureError::Region(e) => e.spec_message(),
        }
    }

    /// The user-facing message of the error.
    pub fn message(&self) -> (m: &'static str)
        ensures
            m@ == self.spec_message(),
    {
        match self {
            CaptureError::UnsupportedResolution => "Resolução de captura não suportada.",
            CaptureError::SizeChanged => "O tamanho da captura mudou. Selecione a área novamente.",
            CaptureError::UnsupportedStride => "Stride de captura não suportado.",
            CaptureError::IncompleteBuffer => "Buffer de captura incompleto.",
            CaptureError::Region(e) => e.message(),
        }
    }
}

/// The byte offset of pixel (`column`, `row`) in a 4-byte-per-pixel buffer.
pub open spec fn pixel_offset(stride: int, column: int, row: int) -> int {
    row * stride + column * 4
}

/// The red, green and blue bytes of a pixel of a BGRx/BGRA (`bgr`) or RGBx/RGBA buffer.
pub open spec fn pixel_rgb(data: Seq<u8>, offset: int, bgr: bool) -> (u8, u8, u8) {
    if bgr {
        (data[offset + 2], data[offset + 1], data[offset])
    } else {
        (data[offset], data[offset + 1], data[offset + 2])
    }
}

/// Luminance of an RGB pixel: `(77 r + 150 g + 29 b) / 256`.
pub open spec fn luma(rgb: (u8, u8, u8)) -> int {
    (rgb.0 * 77 + rgb.1 * 150 + rgb.2 * 29) / 256
}

/// Every row of `region` lies inside a buffer of `len` bytes with the given stride.
pub open spec fn crop_fits(len: int, stride: int, region: Rect) -> bool {
    region.height == 0 || pixel_offset(stride, region.x + region.width, region.y + region.height - 1) <= len
}

/// The value of channel `c` of cell (`j`, `i`) of a crop: the luminance when `gray`,
/// else the red, green or blue byte.
pub open spec fn crop_value(data: Seq<u8>, stride: int, region: Rect, bgr: bool, gray: bool, i: int, j: int, c: int) -> int {
    let rgb = pixel_rgb(data, pixel_offset(stride, region.x + j, region.y + i), bgr);
    if gray {
        luma(rgb)
    } else if c == 0 {
        rgb.0 as int
    } else if c == 1 {
        rgb.1 as int
    } else {
        rgb.2 as int
    }
}

proof fn lemma_cell(i: int, j: int, c: int, w: int, ch: int)
    requires
        0 <= j < w,
        0 <= c < ch,
        0 <= i,
    ensures
        0 <= (i * w + j) * ch + c < (i * w + w) * ch,
        (i * w + w) * ch == ((i + 1) * w) * ch,
        (i * w + j) * ch + c == i * w * ch + j * ch + c,
{
    assert((i * w + j) * ch + c < (i * w + j + 1) * ch) by (nonlinear_arith) requires c < ch;
    assert((i * w + j + 1) * ch <= (i * w + w) * ch) by (nonlinear_arith) requires j + 1 <= w, 0 <= ch;
    assert(0 <= (i * w + j) * ch) by (nonlinear_arith) requires 0 <= i, 0 <= j, 0 <= w, 0 <= ch;
    assert((i * w + w) * ch == ((i + 1) * w) * ch) by (nonlinear_arith);
    assert((i * w + j) * ch + c == i * w * ch + j * ch + c) by (nonlinear_arith);
}

/// Copies `region` out of a 4-byte-per-pixel buffer with the given row stride, as
/// one luminance byte per pixel (`gray`) or three RGB bytes. Returns `None` when a
/// row of the region is missing from the buffer.
pub fn crop(data: &[u8], stride: i32, region: Rect, bgr: bool, gray: bool) -> (r: Option<Vec<u8>>)
    requires
        stride > 0,
        region.width * region.height * 3 <= usize::MAX,
    ensures
        r is Some <==> crop_fits(data@.len() as int, stride as int, region),
        r matches Some(out) ==> {
            &&& out@.len() == region.width * region.height * (if gray { 1int } else { 3int })
            &&& gray ==> forall|i: int, j: int|
                0 <= i < region.height && 0 <= j < region.width
                    ==> #[trigger] out@[i * region.width + j] == crop_value(data@, stride as int, region, bgr, true, i, j, 0)
            &&& !gray ==> forall|i: int, j: int, c: int|
                0 <= i < region.height && 0 <= j < region.width && 0 <= c < 3
                    ==> #[trigger] out@[(i * region.width + j) * 3 + c] == crop_value(data@, stride as int, region, bgr, false, i, j, c)
        },
{
    let ch: u64 = if gray { 1 } else { 3 };
    let w = region.width as u64;
    let h = region.height as u64;
    let len = data.len() as u64;
    let mut out: Vec<u8> = Vec::new();
    let mut i: u64 = 0;
    while i < h
        invariant
            ch == (if gray { 1int } else { 3int }),
            w == region.width,
            h == region.height,
            len == data@.len(),
            data@.len() <= usize::MAX,
            stride > 0,
            i <= h,
            region.width * region.height * 3 <= usize::MAX,
            i > 0 ==> pixel_offset(stride as int, region.x + region.width, region.y + i - 1) <= len,
            out@.len() == i * w * ch,
            forall|ii: int, j: int, c: int|
                0 <= ii < i && 0 <= j < w && 0 <= c < ch
                    ==> #[trigger] out@[(ii * w + j) * ch + c] == crop_value(data@, stride as int, region, bgr, gray, ii, j, c),
        decreases h - i,
    {
        let row = region.y as u128 + i as u128;
        let st = stride as u128;
        assert(row * st <= 0x1_ffff_ffff * 0x7fff_ffff) by (nonlinear_arith)
            requires row <= 0x1_ffff_ffff, st <= 0x7fff_ffff;
        let start: u128 = row * st + (region.x as u128) * 4;
        let end: u128 = start + (w as u128) * 4;
        if end > len as u128 {
            proof {
                assert(pixel_offset(stride as int, region.x + region.width, region.y + i) > len);
                if h > 0 {
                    assert(pixel_offset(stride as int, region.x + region.width, region.y + h - 1)
                        >= pixel_offset(stride as int, region.x + region.width, region.y + i)) by (nonlinear_arith)
                        requires i <= h - 1, stride > 0;
                }
            }
            return None;
        }
        let mut j: u64 = 0;
        while j < w
            invariant
                ch == (if gray { 1int } else { 3int }),
                w == region.width,
                h == region.height,
                len == data@.len(),
                data@.len() <= usize::MAX,
                stride > 0,
                i < h,
                j <= w,
                row == region.y + i,
                start == pixel_offset(stride as int, region.x as int, row as int),
                end == start + w * 4,
                end <= len,
                region.width * region.height * 3 <= usize::MAX,
                out@.len() == i * w * ch + j * ch,
                forall|ii: int, jj: int, c: int|
                    0 <= ii < i && 0 <= jj < w && 0 <= c < ch
                        ==> #[trigger] out@[(ii * w + jj) * ch + c] == crop_value(data@, stride as int, region, bgr, gray, ii, jj, c),
                forall|jj: int, c: int|
                    0 <= jj < j && 0 <= c < ch
                        ==> #[trigger] out@[(i * w + jj) * ch + c] == crop_value(data@, stride as int, region, bgr, gray, i as int, jj, c),
            decreases w - j,
        {
            let p = (start + (j as u128) * 4) as usize;
            assert(pixel_offset(stride as int, region.x + j, row as int) == p);
            let (red, green, blue) = if bgr { (data[p + 2], data[p + 1], data[p]) } else { (data[p], data[p + 1], data[p + 2]) };
            let ghost before = out@;
            if gray {
                let sum: u32 = (red as u32) * 77 + (green as u32) * 150 + (blue as u32) * 29;
                let value = sum >> 8;
                assert(value == sum / 256 && value < 256) by (bit_vector)
                    requires value == sum >> 8, sum <= 65280;
                out.push(value as u8);
            } else {
                out.push(red);
                out.push(green);
                out.push(blue);
            }
            proof {
                assert forall|ii: int, jj: int, c: int|
                    0 <= ii < i && 0 <= jj < w && 0 <= c < ch implies #[trigger] out@[(ii * w + jj) * ch + c]
                        == crop_value(data@, stride as int, region, bgr, gray, ii, jj, c) by {
                    lemma_cell(ii, jj, c, w as int, ch as int);
                    assert((ii * w + w) * ch <= i * w * ch) by (nonlinear_arith) requires ii + 1 <= i, 0 <= w, 0 <= ch;
                    assert(out@[(ii * w + jj) * ch + c] == before[(ii * w + jj) * ch + c]);
                }
                assert forall|jj: int, c: int|
                    0 <= jj < j + 1 && 0 <= c < ch implies #[trigger] out@[(i * w + jj) * ch + c]
                        == crop_value(data@, stride as int, region, bgr, gray, i as int, jj, c) by {
                    lemma_cell(i as int, jj, c, w as int, ch as int);
                    assert((i * w + jj) * ch == i * w * ch + jj * ch) by (nonlinear_arith);
                    if jj < j {
                        assert(jj * ch + c < j * ch) by (nonlinear_arith) requires jj + 1 <= j, c < ch;
                        assert(out@[(i * w + jj) * ch + c] == before[(i * w + jj) * ch + c]);
                    } else {
                        assert((i * w + jj) * ch + c == before.len() + c);
                    }
                }
                assert(i * w * ch + (j + 1) * ch == i * w * ch + j * ch + ch) by (nonlinear_arith);
            }
            j = j + 1;
        }
        proof {
            assert(i * w * ch + w * ch == (i + 1) * w * ch) by (nonlinear_arith);
            assert forall|ii: int, jj: int, c: int|
                0 <= ii < i + 1 && 0 <= jj < w && 0 <= c < ch implies #[trigger] out@[(ii * w + jj) * ch + c]
                    == crop_value(data@, stride as int, region, bgr, gray, ii, jj, c) by {
                if ii == i {
                }
            }
        }
        i = i + 1;
    }
    proof {
        assert(h * w * ch == region.width * region.height * ch) by (nonlinear_arith) requires h == region.height, w == region.width;
        if h > 0 {
            assert(pixel_offset(stride as int, region.x + region.width, region.y + (h - 1)) <= len);
        }
        if gray {
            assert forall|ii: int, jj: int|
                0 <= ii < region.height && 0 <= jj < region.width
                    implies #[trigger] out@[ii * region.width + jj] == crop_value(data@, stride as int, region, bgr, true, ii, jj, 0) by {
                assert(out@[(ii * w + jj) * ch + 0] == crop_value(data@, stride as int, region, bgr, gray, ii, jj, 0));
                assert((ii * w + jj) * 1 + 0 == ii * region.width + jj);
            }
        } else {
            assert forall|ii: int, jj: int, c: int|
                0 <= ii < region.height && 0 <= jj < region.width && 0 <= c < 3
                    implies #[trigger] out@[(ii * region.width + jj) * 3 + c] == crop_value(data@, stride as int, region, bgr, false, ii, jj, c) by {
                assert(out@[(ii * w + jj) * ch + c] == crop_value(data@, stride as int, region, bgr, gray, ii, jj, c));
            }
        }
    }
    Some(out)
}

/// What the capture callback shares with the engine: the selected region, the latest
/// crop, the frozen selection preview (width, height, RGB bytes), the capture size,
/// the last error, whether capture is paused, and when the last sample was processed
/// (milliseconds of the service's monotonic clock).
pub struct SharedFrames {
    pub region: Option<Rect>,
    pub frame: Option<Frame>,
    pub preview: Option<(u32, u32, Vec<u8>)>,
    pub dimensions: Option<(u32, u32)>,
    pub error: Option<String>,
    pub paused: bool,
    pub last_sample: Option<u64>,
}

impl Default for SharedFrames {
    fn default() -> (s: SharedFrames)
        ensures
            s.region is None,
            s.frame is None,
            s.preview is None,
            s.dimensions is None,
            s.error is None,
            !s.paused,
            s.last_sample is None,
    {
        SharedFrames {
            region: None,
            frame: None,
            preview: None,
            dimensions: None,
            error: None,
            paused: false,
            last_sample: None,
        }
    }
}

/// The whole capture as a region.
pub open spec fn full_region(width: u32, height: u32) -> Rect {
    Rect { x: 0, y: 0, width, height }
}

impl SharedFrames {
    /// Samples are dropped while paused and until the scan interval has passed since
    /// the last processed one; an accepted sample records `now`. No pixel is mapped or
    /// converted for a dropped sample.
    pub fn accept_sample(&mut self, now: u64) -> (accepted: bool)
        ensures
            accepted == (!old(self).paused && !(old(self).last_sample matches Some(t) && elapsed(now, t) < SCAN_INTERVAL)),
            accepted ==> final(self).last_sample == Some(now),
            !accepted ==> final(self).last_sample == old(self).last_sample,
            final(self).region == old(self).region,
            final(self).frame == old(self).frame,
            final(self).preview == old(self).preview,
            final(self).dimensions == old(self).dimensions,
            final(self).error == old(self).error,
            final(self).paused == old(self).paused,
    {
        if self.paused {
            return false;
        }
        if let Some(t) = self.last_sample {
            if now.saturating_sub(t) < SCAN_INTERVAL {
                return false;
            }
        }
        self.last_sample = Some(now);
        true
    }

    /// Pausing or resuming drops the retained crop and restarts the sample throttle.
    pub fn set_paused(&mut self, paused: bool)
        ensures
            final(self).paused == paused,
            final(self).frame is None,
            final(self).last_sample is None,
            final(self).region == old(self).region,
            final(self).preview == old(self).preview,
            final(self).dimensions == old(self).dimensions,
            final(self).error == old(self).error,
    {
        self.paused = paused;
        self.frame = None;
        self.last_sample = None;
    }

    /// Checks the size of a new sample. A size outside 1..=34 megapixels is refused,
    /// as is a change of size, which requires a new selection. Returns whether the
    /// sample's pixels are needed: during selection a single frozen preview is kept.
    pub fn begin_sample(&mut self, width: u32, height: u32) -> (r: Result<bool, CaptureError>)
        ensures
            !(width > 0 && height > 0 && width * height <= MAX_CAPTURE_PIXELS) ==> r == Err::<bool, CaptureError>(CaptureError::UnsupportedResolution)
                && *final(self) == *old(self),
            (width > 0 && height > 0 && width * height <= MAX_CAPTURE_PIXELS
                && old(self).dimensions is Some && old(self).dimensions->0 != (width, height))
                ==> r == Err::<bool, CaptureError>(CaptureError::SizeChanged) && *final(self) == *old(self),
            (width > 0 && height > 0 && width * height <= MAX_CAPTURE_PIXELS
                && (old(self).dimensions matches Some(d) ==> d == (width, height))) ==> r is Ok,
            r is Ok ==> {
                &&& width > 0 && height > 0 && width * height <= MAX_CAPTURE_PIXELS
                &&& (old(self).dimensions matches Some(d) ==> d == (width, height))
                &&& final(self).dimensions == Some((width, height))
                &&& r == Ok::<bool, CaptureError>(!(old(self).region is None && old(self).preview is Some))
                &&& final(self).region == old(self).region
                &&& final(self).frame == old(self).frame
                &&& final(self).preview == old(self).preview
                &&& final(self).error == old(self).error
                &&& final(self).paused == old(self).paused
                &&& final(self).last_sample == old(self).last_sample
            },
            r is Err ==> *final(self) == *old(self),
    {
        assert(width * height <= u32::MAX * u32::MAX) by (nonlinear_arith)
            requires width <= u32::MAX, height <= u32::MAX;
        if !(width > 0 && height > 0 && (width as u64) * (height as u64) <= MAX_CAPTURE_PIXELS) {
            return Err(CaptureError::UnsupportedResolution);
        }
        if let Some(d) = self.dimensions {
            if d.0 != width || d.1 != height {
                return Err(CaptureError::SizeChanged);
            }
        }
        self.dimensions = Some((width, height));
        Ok(!(self.region.is_none() && self.preview.is_some()))
    }

    /// Converts the pixels of an accepted sample: with a selected region, a grayscale
    /// crop becomes the retained frame; without one, the whole capture becomes the RGB
    /// selection preview. Rows are read with the buffer's own stride and channel order.
    pub fn store_sample(&mut self, width: u32, height: u32, stride: i32, bgr: bool, data: &[u8], now: u64) -> (r: Result<(), CaptureError>)
        requires
            width * height <= MAX_CAPTURE_PIXELS,
        ensures
            stride <= 0 ==> r == Err::<(), CaptureError>(CaptureError::UnsupportedStride),
            stride > 0 && old(self).region is Some && old(self).region->0.validation_error(width, height) is Some
                ==> r == Err::<(), CaptureError>(CaptureError::Region(old(self).region->0.validation_error(width, height)->0)),
            ({
                let region = match old(self).region { Some(g) => g, None => full_region(width, height) };
                stride > 0 && (old(self).region matches Some(g) ==> g.validation_error(width, height) is None)
                    ==> (r is Ok <==> crop_fits(data@.len() as int, stride as int, region))
            }),
            r is Err ==> *final(self) == *old(self),
            r is Ok ==> {
                let region = match old(self).region { Some(g) => g, None => full_region(width, height) };
                &&& final(self).region == old(self).region
                &&& final(self).dimensions == old(self).dimensions
                &&& final(self).error == old(self).error
                &&& final(self).paused == old(self).paused
                &&& final(self).last_sample == old(self).last_sample
                &&& match old(self).region {
                    None => {
                        &&& final(self).frame == old(self).frame
                        &&& final(self).preview matches Some(p) && p.0 == width && p.1 == height
                            && p.2@.len() == width * height * 3
                            && forall|i: int, j: int, c: int| 0 <= i < height && 0 <= j < width && 0 <= c < 3
                                ==> #[trigger] p.2@[(i * width + j) * 3 + c] == crop_value(data@, stride as int, region, bgr, false, i, j, c)
                    },
                    Some(g) => {
                        &&& final(self).preview == old(self).preview
                        &&& final(self).frame matches Some(f) && f.width == g.width && f.height == g.height
                            && f.captured == now && f.wf()
                            && forall|i: int, j: int| 0 <= i < g.height && 0 <= j < g.width
                                ==> #[trigger] f.gray@[i * g.width + j] == crop_value(data@, stride as int, g, bgr, true, i, j, 0)
                    },
                }
            },
    {
        if stride <= 0 {
            return Err(CaptureError::UnsupportedStride);
        }
        let region = match self.region {
            Some(g) => {
                match g.validate(width, height) {
                    Ok(_) => g,
                    Err(e) => return Err(CaptureError::Region(e)),
                }
            },
            None => Rect { x: 0, y: 0, width, height },
        };
        proof {
            assert(region.width * region.height <= MAX_CAPTURE_PIXELS);
        }
        let gray = self.region.is_some();
        match crop(data, stride, region, bgr, gray) {
            None => Err(CaptureError::IncompleteBuffer),
            Some(pixels) => {
                if gray {
                    self.frame = Some(Frame { width: region.width, height: region.height, gray: pixels, captured: now });
                } else {
                    self.preview = Some((region.width, region.height, pixels));
                }
                Ok(())
            },
        }
    }
}

/// Why a preview could not be produced.
#[derive(Clone, Copy, Debug, PartialEq, Eq, Structural)]
pub enum PreviewError {
    /// No frame has arrived yet.
    NotReady,
    /// Capture is paused or no region is selected.
    Inactive,
    /// The PNG encoder refused the image.
    Encoding,
    /// Capture was paused or stopped while a crop preview waited for a frame.
    Interrupted,
    /// No frame arrived in time for a crop preview.
    NoFreshFrame,
}

impl PreviewError {
    /// The user-facing message of the error.
    pub open spec fn spec_message(&self) -> Seq<char> {
        match self {
            PreviewError::NotReady => "Aguardando primeiro quadro…"@,
            PreviewError::Inactive => "Inicie ou retome a tradução para conferir o recorte."@,
            PreviewError::Encoding => "Erro ao preparar prévia."@,
            PreviewError::Interrupted => "A captura foi interrompida."@,
            PreviewError::NoFreshFrame => "Não chegou um novo quadro. Deixe a janela capturada visível e tente novamente."@,
        }
    }

    /// The user-facing message of the error.
    pub fn message(&self) -> (m: &'static str)
        ensures
            m@ == self.spec_message(),
    {
        match self {
            PreviewError::NotReady => "Aguardando primeiro quadro…",
            PreviewError::Inactive => "Inicie ou retome a tradução para conferir o recorte.",
            PreviewError::Encoding => "Erro ao preparar prévia.",
            PreviewError::Interrupted => "A captura foi interrompida.",
            PreviewError::NoFreshFrame => "Não chegou um novo quadro. Deixe a janela capturada visível e tente novamente.",
        }
    }
}

/// The frozen selection preview as an RGB PNG, encoded in memory.
pub fn preview_png(frames: &SharedFrames) -> (r: Result<Vec<u8>, PreviewError>)
    ensures
        frames.preview is None ==> r == Err::<Vec<u8>, PreviewError>(PreviewError::NotReady),
        frames.preview matches Some(p) ==> (r is Ok <==> encodable(p.0, p.1, true, p.2@.len() as int)),
        r matches Ok(bytes) ==> frames.preview matches Some(p) && bytes@ == png_encoding(p.0, p.1, true, p.2@),
        frames.preview is Some && r is Err ==> r == Err::<Vec<u8>, PreviewError>(PreviewError::Encoding),
{
    match &frames.preview {
        None => Err(PreviewError::NotReady),
        Some(p) => match rgb_png(p.0, p.1, p.2.as_slice()) {
            Ok(bytes) => Ok(bytes),
            Err(_) => Err(PreviewError::Encoding),
        },
    }
}

/// A crop preview needs a running capture with a selected region.
pub fn crop_preview_allowed(frames: &SharedFrames) -> (r: Result<(), PreviewError>)
    ensures
        r is Ok <==> (!frames.paused && frames.region is Some),
        r matches Err(e) ==> e == PreviewError::Inactive,
{
    if frames.paused || frames.region.is_none() {
        Err(PreviewError::Inactive)
    } else {
        Ok(())
    }
}

/// Longest wait, in milliseconds, for a frame taken after a crop preview was requested.
pub const CROP_PREVIEW_WAIT: u64 = 3000;

/// Where a crop preview requested at `requested` stands at `now`.
#[derive(Clone, Copy, Debug, PartialEq, Eq, Structural)]
pub enum CropWait {
    /// The retained frame was taken after the request: encode it.
    Ready,
    /// No such frame yet: wait and look again.
    Wait,
}

/// The next decision of a crop preview requested at `requested`: it fails once capture
/// is paused or has no region, is ready once the retained frame was taken at or after
/// the request, and gives up when no such frame came within `CROP_PREVIEW_WAIT`.
pub fn crop_preview_wait(frames: &SharedFrames, requested: u64, now: u64) -> (r: Result<CropWait, PreviewError>)
    ensures
        (frames.paused || frames.region is None) ==> r == Err::<CropWait, PreviewError>(PreviewError::Interrupted),
        !(frames.paused || frames.region is None) ==> r == if frames.frame matches Some(f) && f.captured >= requested {
            Ok::<CropWait, PreviewError>(CropWait::Ready)
        } else if elapsed(now, requested) >= CROP_PREVIEW_WAIT {
            Err::<CropWait, PreviewError>(PreviewError::NoFreshFrame)
        } else {
            Ok::<CropWait, PreviewError>(CropWait::Wait)
        },
{
    if frames.paused || frames.region.is_none() {
        return Err(PreviewError::Interrupted);
    }
    let fresh = match &frames.frame {
        Some(f) => f.captured >= requested,
        None => false,
    };
    if fresh {
        Ok(CropWait::Ready)
    } else if now.saturating_sub(requested) >= CROP_PREVIEW_WAIT {
        Err(PreviewError::NoFreshFrame)
    } else {
        Ok(CropWait::Wait)
    }
}

/// A requested crop as a grayscale PNG, encoded in memory; no OCR, no network.
pub fn crop_png(frame: &Frame) -> (r: Result<Vec<u8>, PreviewError>)
    ensures
        r is Ok <==> encodable(frame.width, frame.height, false, frame.gray@.len() as int),
        r matches Ok(bytes) ==> bytes@ == png_encoding(frame.width, frame.height, false, frame.gray@),
        r matches Err(e) ==> e == PreviewError::Encoding,
{
    match gray_png(frame.width, frame.height, frame.gray.as_slice()) {
        Ok(bytes) => Ok(bytes),
        Err(_) => Err(PreviewError::Encoding),
    }
}

} // verus!
