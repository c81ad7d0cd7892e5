use vstd::prelude::*;
pub use crate::text::normalize;
use crate::text::normalized;

verus! {

/// Interval between processed capture samples, in milliseconds.
pub const SCAN_INTERVAL: u64 = 200;
/// Minimum interval between two OCR readings, in milliseconds.
pub const OCR_INTERVAL: u64 = 500;
/// A phrase must have been read for this long before it is confirmed, in milliseconds.
pub const STABLE_INTERVAL: u64 = 1000;
/// Number of consecutive equal readings that confirm a phrase.
pub const TEXT_CONFIRMATIONS: u32 = 3;
/// An empty reading must have lasted this long before it is confirmed, in milliseconds.
pub const EMPTY_INTERVAL: u64 = 1500;

/// Maximum number of pixels of a selected region (4 megapixels).
pub const MAX_REGION_PIXELS: u64 = 4_000_000;

/// Why a region or a layout was refused.
#[derive(Clone, Copy, Debug, PartialEq, Eq, Structural)]
pub enum LayoutError {
    TooSmall,
    OutsideCapture,
    TooLarge,
    InvalidMonitor,
    NoSubtitleRoom,
}

impl LayoutError {
    /// The user-facing message of the error.
    pub fn message(&self) -> (m: &'static str)
        ensures
            m@ == self.spec_message(),
    {
        match self {
            LayoutError::TooSmall => "Selecione uma área de pelo menos 16 × 16 pixels.",
            LayoutError::OutsideCapture => "Área fora da captura.",
            LayoutError::TooLarge => "Área muito grande: selecione somente a caixa de texto (máximo 4 megapixels).",
            LayoutError::InvalidMonitor => "Monitor inválido.",
            LayoutError::NoSubtitleRoom => "Deixe pelo menos 110 pixels livres acima ou abaixo da área para a legenda.",
        }
    }

    pub open spec fn spec_message(&self) -> Seq<char> {
        match self {
            LayoutError::TooSmall => "Selecione uma área de pelo menos 16 × 16 pixels."@,
            LayoutError::OutsideCapture => "Área fora da captura."@,
            LayoutError::TooLarge => "Área muito grande: selecione somente a caixa de texto (máximo 4 megapixels)."@,
            LayoutError::InvalidMonitor => "Monitor inválido."@,
            LayoutError::NoSubtitleRoom => "Deixe pelo menos 110 pixels livres acima ou abaixo da área para a legenda."@,
        }
    }
}

/// A rectangle in capture pixels.
#[derive(Clone, Copy, Debug, PartialEq, Eq, Structural)]
pub struct Rect {
    pub x: u32,
    pub y: u32,
    pub width: u32,
    pub height: u32,
}

impl Rect {
    /// The error that `validate` gives for this region in a capture of the given size, if any.
    pub open spec fn validation_error(self, width: u32, height: u32) -> Option<LayoutError> {
        if self.width < 16 || self.height < 16 {
            Some(LayoutError::TooSmall)
        } else if self.x + self.width > width || self.y + self.height > height {
            Some(LayoutError::OutsideCapture)
        } else if self.width * self.height > MAX_REGION_PIXELS {
            Some(LayoutError::TooLarge)
        } else {
            None
        }
    }

    /// Accepts a region of at least 16 × 16 pixels that lies inside a capture of
    /// `width` × `height` pixels and covers at most 4 megapixels.
    pub fn validate(self, width: u32, height: u32) -> (r: Result<Rect, LayoutError>)
        ensures
            match self.validation_error(width, height) {
                None => r == Ok::<Rect, LayoutError>(self),
                Some(e) => r == Err::<Rect, LayoutError>(e),
            },
    {
        if self.width < 16 || self.height < 16 {
            return Err(LayoutError::TooSmall);
        }
        let right = self.x.checked_add(self.width);
        let bottom = self.y.checked_add(self.height);
        let inside_x = match right { Some(r) => r <= width, None => false };
        let inside_y = match bottom { Some(b) => b <= height, None => false };
        if !(inside_x && inside_y) {
            return Err(LayoutError::OutsideCapture);
        }
        assert(self.width * self.height <= u32::MAX * u32::MAX) by (nonlinear_arith);
        if (self.width as u64) * (self.height as u64) > MAX_REGION_PIXELS {
            return Err(LayoutError::TooLarge);
        }
        Ok(self)
    }
}

impl Rect {
    /// The exclusive right edge, as a mathematical integer.
    pub open spec fn right(self) -> int {
        self.x + self.width
    }

    /// The exclusive bottom edge, as a mathematical integer.
    pub open spec fn bottom(self) -> int {
        self.y + self.height
    }
}

impl Default for Rect {
    fn default() -> (r: Rect)
        ensures
            r == (Rect { x: 0, y: 0, width: 0, height: 0 }),
    {
        Rect { x: 0, y: 0, width: 0, height: 0 }
    }
}

/// A monitor rectangle in logical GNOME coordinates.
#[derive(Clone, Copy, Debug, PartialEq, Eq, Structural)]
pub struct Monitor {
    pub x: i32,
    pub y: i32,
    pub width: u32,
    pub height: u32,
}

impl Default for Monitor {
    fn default() -> (m: Monitor)
        ensures
            m == (Monitor { x: 0, y: 0, width: 0, height: 0 }),
    {
        Monitor { x: 0, y: 0, width: 0, height: 0 }
    }
}

impl Monitor {
    /// Both sides of the monitor lie between 100 and 16384 logical pixels.
    pub open spec fn plausible(self) -> bool {
        100 <= self.width <= 16384 && 100 <= self.height <= 16384
    }

    /// Executable form of `plausible`.
    pub fn is_plausible(&self) -> (b: bool)
        ensures
            b == self.plausible(),
    {
        100 <= self.width && self.width <= 16384 && 100 <= self.height && self.height <= 16384
    }
}

/// Minimum free space, in monitor pixels, kept above or below a monitor region for the subtitle.
pub const SUBTITLE_ROOM: u64 = 110;

/// The kind of screen-cast source the portal was asked for.
#[derive(Clone, Copy, Debug, PartialEq, Eq, Structural)]
pub enum CaptureSource {
    Monitor,
    Window,
}

/// The region projected onto the monitor leaves at least 110 pixels free above it
/// or below it: `y / rows * monitor_height >= 110`, or
/// `monitor_height - (y + height) / rows * monitor_height >= 110`, computed exactly.
pub open spec fn leaves_subtitle_room(region: Rect, rows: u32, monitor_height: u32) -> bool {
    region.y * monitor_height >= SUBTITLE_ROOM * rows
        || (rows - region.bottom()) * monitor_height >= SUBTITLE_ROOM * rows
}

impl CaptureSource {
    /// The error that `validate_layout` gives, if any.
    pub open spec fn layout_error(self, region: Rect, dimensions: (u32, u32), monitor: Monitor) -> Option<LayoutError> {
        if !monitor.plausible() {
            Some(LayoutError::InvalidMonitor)
        } else if region.validation_error(dimensions.0, dimensions.1) is Some {
            region.validation_error(dimensions.0, dimensions.1)
        } else if self == CaptureSource::Monitor && !leaves_subtitle_room(region, dimensions.1, monitor.height) {
            Some(LayoutError::NoSubtitleRoom)
        } else {
            None
        }
    }

    /// Checks a region of a capture of `dimensions` against the monitor that shows
    /// the subtitle. A monitor capture must leave room for the subtitle outside the
    /// region; a window stream cannot be projected onto the monitor and needs none.
    pub fn validate_layout(self, region: Rect, dimensions: (u32, u32), monitor: Monitor) -> (r: Result<(), LayoutError>)
        ensures
            match self.layout_error(region, dimensions, monitor) {
                None => r is Ok,
                Some(e) => r == Err::<(), LayoutError>(e),
            },
    {
        if !monitor.is_plausible() {
            return Err(LayoutError::InvalidMonitor);
        }
        match region.validate(dimensions.0, dimensions.1) {
            Err(e) => return Err(e),
            Ok(_) => {},
        }
        if let CaptureSource::Monitor = self {
            let rows = dimensions.1 as u64;
            let h = monitor.height as u64;
            let y = region.y as u64;
            let bottom = y + region.height as u64;
            assert(y * h <= 0xffff_ffff * 16384) by (nonlinear_arith)
                requires y <= 0xffff_ffff, h <= 16384;
            assert((rows - bottom) * h <= 0xffff_ffff * 16384) by (nonlinear_arith)
                requires rows - bottom <= 0xffff_ffff, h <= 16384;
            let above = y * h >= SUBTITLE_ROOM * rows;
            let below = (rows - bottom) * h >= SUBTITLE_ROOM * rows;
            if !(above || below) {
                return Err(LayoutError::NoSubtitleRoom);
            }
        }
        Ok(())
    }
}

/// A grayscale crop of a captured frame, row-major, one byte per pixel.
/// `captured` is the capture time in milliseconds of the service's monotonic clock.
#[derive(Clone, Debug)]
pub struct Frame {
    pub width: u32,
    pub height: u32,
    pub gray: Vec<u8>,
    pub captured: u64,
}

/// Width of a fingerprint of an image `width` pixels wide.
pub open spec fn fingerprint_width(width: u32) -> int {
    if width < 128 { width as int } else { 128 }
}

/// Height of a fingerprint of an image `height` pixels high.
pub open spec fn fingerprint_height(height: u32) -> int {
    if height < 64 { height as int } else { 64 }
}

proof fn lemma_scaled_index(i: int, n: int, m: int)
    requires
        0 <= i < n,
        0 < n <= m,
    ensures
        0 <= i * m / n < m,
{
    assert(0 <= i * m) by (nonlinear_arith) requires 0 <= i, 0 <= m;
    assert(i * m < n * m) by (nonlinear_arith) requires i < n, 0 < m;
    assert(i * m / n < m) by (nonlinear_arith) requires 0 <= i * m < n * m, 0 < n;
    assert(0 <= i * m / n) by (nonlinear_arith) requires 0 <= i * m, 0 < n;
}

proof fn lemma_row_major(row: int, col: int, rows: int, cols: int)
    requires
        0 <= row < rows,
        0 <= col < cols,
    ensures
        0 <= row * cols + col < rows * cols,
        row * cols + col >= row * cols,
{
    assert(0 <= row * cols) by (nonlinear_arith) requires 0 <= row, 0 <= cols;
    assert(row * cols + col < rows * cols) by (nonlinear_arith)
        requires row < rows, 0 <= col < cols;
}

/// The fingerprint of a frame, cell (`x`, `y`) at position `y * w + x`.
pub open spec fn fingerprint_of(f: Frame) -> Seq<u8> {
    let w = fingerprint_width(f.width);
    Seq::new((w * fingerprint_height(f.height)) as nat, |k: int| f.sample(k % w, k / w))
}

impl Frame {
    /// The pixel buffer holds exactly one byte per pixel.
    pub open spec fn wf(&self) -> bool {
        self.gray@.len() == self.width * self.height
    }

    /// Whether the pixel buffer holds exactly one byte per pixel.
    pub fn is_complete(&self) -> (b: bool)
        ensures
            b == self.wf(),
    {
        let w: u64 = self.width as u64;
        let h: u64 = self.height as u64;
        assert(w * h <= u32::MAX * u32::MAX) by (nonlinear_arith)
            requires
                w <= u32::MAX,
                h <= u32::MAX,
        ;
        self.gray.len() as u64 == w * h
    }

    /// The pixel that the fingerprint samples for cell (`x`, `y`).
    pub open spec fn sample(&self, x: int, y: int) -> u8 {
        let w = fingerprint_width(self.width);
        let h = fingerprint_height(self.height);
        self.gray@[(y * self.height / h) * self.width + x * self.width / w]
    }

    /// Small luminance map; spatial changes count, not just average brightness.
    /// Cell (`x`, `y`) of a `min(width, 128)` × `min(height, 64)` grid samples the
    /// pixel at row `y * height / h` and column `x * width / w`. A buffer longer than
    /// `width * height` bytes is accepted; only its first `width * height` bytes count.
    pub fn fingerprint(&self) -> (r: Vec<u8>)
        requires
            self.gray@.len() >= self.width * self.height,
        ensures
            r@ == fingerprint_of(*self),
            r@.len() == fingerprint_width(self.width) * fingerprint_height(self.height),
            forall|x: int, y: int|
                0 <= x < fingerprint_width(self.width) && 0 <= y < fingerprint_height(self.height)
                    ==> #[trigger] r@[y * fingerprint_width(self.width) + x] == self.sample(x, y),
    {
        let w: u64 = if self.width < 128 { self.width as u64 } else { 128 };
        let h: u64 = if self.height < 64 { self.height as u64 } else { 64 };
        let width = self.width as u64;
        let height = self.height as u64;
        let mut result: Vec<u8> = Vec::new();
        let mut y: u64 = 0;
        while y < h
            invariant
                w == fingerprint_width(self.width),
                h == fingerprint_height(self.height),
                width == self.width,
                height == self.height,
                self.gray@.len() >= self.width * self.height,
                y <= h,
                result@.len() == y * w,
                forall|xx: int, yy: int|
                    0 <= xx < w && 0 <= yy < y ==> #[trigger] result@[yy * w + xx] == self.sample(xx, yy),
            decreases h - y,
        {
            let mut x: u64 = 0;
            let ghost start = result@.len();
            while x < w
                invariant
                    w == fingerprint_width(self.width),
                    h == fingerprint_height(self.height),
                    width == self.width,
                    height == self.height,
                    self.gray@.len() >= self.width * self.height,
                    y < h,
                    x <= w,
                    start == y * w,
                    result@.len() == y * w + x,
                    forall|xx: int, yy: int|
                        0 <= xx < w && 0 <= yy < y ==> #[trigger] result@[yy * w + xx] == self.sample(xx, yy),
                    forall|xx: int| 0 <= xx < x ==> #[trigger] result@[y * w + xx] == self.sample(xx, y as int),
                decreases w - x,
            {
                proof {
                    lemma_scaled_index(y as int, h as int, height as int);
                    lemma_scaled_index(x as int, w as int, width as int);
                    lemma_row_major((y as int) * (height as int) / (h as int), (x as int) * (width as int) / (w as int), height as int, width as int);
                    assert(y * height <= 64 * 0xffff_ffff) by (nonlinear_arith) requires y < 64, height <= 0xffff_ffff;
                    assert(x * width <= 128 * 0xffff_ffff) by (nonlinear_arith) requires x < 128, width <= 0xffff_ffff;
                    assert(height * width <= 0xffff_ffff * 0xffff_ffff) by (nonlinear_arith) requires height <= 0xffff_ffff, width <= 0xffff_ffff;
                    lemma_row_major(y as int, x as int, h as int, w as int);
                    assert(height * width == width * height) by (nonlinear_arith);
                }
                let row = y * height / h;
                let col = x * width / w;
                let index = row * width + col;
                assert(row == (y as int) * (height as int) / (h as int));
                assert(col == (x as int) * (width as int) / (w as int));
                assert(index < height * width);
                assert(index < self.gray@.len());
                let len = self.gray.len();
                assert(index < len);
                let i = index as usize;
                let ghost before = result@;
                result.push(self.gray[i]);
                proof {
                    assert forall|xx: int, yy: int|
                        0 <= xx < w && 0 <= yy < y implies #[trigger] result@[yy * w + xx] == self.sample(xx, yy) by {
                        lemma_row_major(yy, xx, y as int, w as int);
                        assert(result@[yy * w + xx] == before[yy * w + xx]);
                    }
                    assert forall|xx: int| 0 <= xx < x + 1 implies #[trigger] result@[y * w + xx] == self.sample(xx, y as int) by {
                        if xx < x {
                            assert(result@[y * w + xx] == before[y * w + xx]);
                        } else {
                            assert(result@[y * w + xx] == self.gray@[i as int]);
                            assert(self.gray@[i as int] == self.sample(xx, y as int));
                        }
                    }
                }
                x = x + 1;
            }
            proof {
                assert((y + 1) * w == y * w + w) by (nonlinear_arith);
                assert forall|xx: int, yy: int|
                    0 <= xx < w && 0 <= yy < y + 1 implies #[trigger] result@[yy * w + xx] == self.sample(xx, yy) by {
                    if yy == y {
                    }
                }
            }
            y = y + 1;
        }
        assert(h * w == w * h) by (nonlinear_arith);
        proof {
            assert forall|k: int| 0 <= k < result@.len() implies #[trigger] result@[k] == fingerprint_of(*self)[k] by {
                let ww = w as int;
                let yy = k / ww;
                let xx = k % ww;
                vstd::arithmetic::div_mod::lemma_fundamental_div_mod(k, ww);
                assert(0 <= xx < ww) by {
                    vstd::arithmetic::div_mod::lemma_mod_bound(k, ww);
                }
                assert(k == yy * ww + xx) by (nonlinear_arith) requires k == ww * (k / ww) + k % ww, yy == k / ww, xx == k % ww;
                assert(0 <= yy < h) by (nonlinear_arith)
                    requires k == yy * ww + xx, 0 <= xx < ww, 0 <= k < h * ww, ww > 0;
            }
            assert(result@ =~= fingerprint_of(*self));
        }
        result
    }
}

/// Number of positions below `k` where the two images differ by more than 24 levels.
pub open spec fn significant_changes(previous: Seq<u8>, next: Seq<u8>, k: int) -> nat
    decreases k,
{
    if k <= 0 {
        0
    } else {
        let i = k - 1;
        let d = if previous[i] > next[i] { previous[i] - next[i] } else { next[i] - previous[i] };
        significant_changes(previous, next, k - 1) + if d > 24 { 1nat } else { 0nat }
    }
}

/// Whether two fingerprints differ enough to be a change of the image: they differ in
/// length, the previous one is empty, or at least 0.3% of the samples moved by more
/// than 24 levels. Sparse cursor blinking and minor video noise are ignored.
pub open spec fn is_change(previous: Seq<u8>, next: Seq<u8>) -> bool {
    previous.len() != next.len() || previous.len() == 0
        || significant_changes(previous, next, next.len() as int) * 1000 >= next.len() * 3
}

/// Ignore sparse cursor blinking and minor video noise, but retain small text changes.
pub fn changed(previous: &[u8], next: &[u8]) -> (r: bool)
    ensures
        r == is_change(previous@, next@),
{
    if previous.len() != next.len() || previous.len() == 0 {
        return true;
    }
    let mut significant: u64 = 0;
    let mut i: usize = 0;
    while i < next.len()
        invariant
            previous@.len() == next@.len(),
            i <= next@.len(),
            significant == significant_changes(previous@, next@, i as int),
            significant <= i,
        decreases next@.len() - i,
    {
        let a = previous[i];
        let b = next[i];
        let d = if a > b { a - b } else { b - a };
        if d > 24 {
            significant = significant + 1;
        }
        i = i + 1;
    }
    (significant as u128) * 1000 >= (next.len() as u128) * 3
}

/// A reading that has not been confirmed yet.
pub struct PendingText {
    pub text: Seq<char>,
    pub since: u64,
    pub last_read: u64,
    pub confirmations: u32,
}

/// Milliseconds from `earlier` to `later`, zero when `later` is not after `earlier`.
pub open spec fn elapsed(later: u64, earlier: u64) -> int {
    if later >= earlier { later - earlier } else { 0 }
}

/// The candidate after reading `text` at `now`: a repeated reading of the pending
/// text counts one more confirmation, anything else starts a new candidate.
pub open spec fn next_candidate(pending: Option<PendingText>, text: Seq<char>, now: u64) -> PendingText {
    match pending {
        Some(c) if c.text == text => PendingText {
            text: c.text,
            since: c.since,
            last_read: now,
            confirmations: if c.confirmations < u32::MAX { (c.confirmations + 1) as u32 } else { u32::MAX },
        },
        _ => PendingText { text, since: now, last_read: now, confirmations: 1 },
    }
}

/// A candidate is confirmed by three readings spread over at least one second
/// (one and a half seconds for an empty reading).
pub open spec fn confirmed(c: PendingText, now: u64) -> bool {
    c.confirmations >= TEXT_CONFIRMATIONS
        && elapsed(now, c.since) >= if c.text.len() == 0 { EMPTY_INTERVAL } else { STABLE_INTERVAL }
}

/// The next gate state for one OCR reading taken at `now`, with whether it confirmed a phrase.
pub open spec fn observe_next(g: GateView, input: Seq<char>, now: u64) -> (GateView, bool) {
    let t = normalized(input);
    if t == g.text && g.revision > 0 {
        (GateView { pending: None, ..g }, false)
    } else {
        let c = next_candidate(g.pending, t, now);
        if confirmed(c, now) {
            (GateView { text: t, revision: (g.revision + 1) as u64, pending: None }, true)
        } else {
            (GateView { pending: Some(c), ..g }, false)
        }
    }
}

/// The pending candidate was last read long enough ago to be read again: half of the
/// empty interval for an empty candidate, the OCR interval otherwise.
pub open spec fn needs_reading(g: GateView, now: u64) -> bool {
    match g.pending {
        Some(c) => elapsed(now, c.last_read) >= if c.text.len() == 0 { EMPTY_INTERVAL / 2 } else { OCR_INTERVAL },
        None => false,
    }
}

/// A phrase has been confirmed and no other reading is pending.
pub open spec fn gate_ready(g: GateView) -> bool {
    g.revision > 0 && g.pending is None
}

struct TextCandidate {
    text: String,
    since: u64,
    last_read: u64,
    confirmations: u32,
}

/// Only confirmed text owns a revision. Candidates cannot cancel an in-flight
/// translation or replace its cache key until three consecutive readings agree.
pub struct TextGate {
    pub text: String,
    pub revision: u64,
    pending: Option<TextCandidate>,
}

/// The abstract state of a `TextGate`: the confirmed text, its revision and the
/// reading that waits for confirmation.
pub struct GateView {
    pub text: Seq<char>,
    pub revision: u64,
    pub pending: Option<PendingText>,
}

impl View for TextGate {
    type V = GateView;

    closed spec fn view(&self) -> GateView {
        GateView {
            text: self.text@,
            revision: self.revision,
            pending: match &self.pending {
                Some(c) => Some(PendingText {
                    text: c.text@,
                    since: c.since,
                    last_read: c.last_read,
                    confirmations: c.confirmations,
                }),
                None => None,
            },
        }
    }
}

impl Default for TextGate {
    fn default() -> (g: TextGate)
        ensures
            g@.text == Seq::<char>::empty(),
            g@.revision == 0,
            g@.pending is None,
    {
        TextGate { text: String::new(), revision: 0, pending: None }
    }
}

impl TextGate {
    /// The confirmed text.
    pub fn text(&self) -> (r: &String)
        ensures
            r@ == self@.text,
    {
        &self.text
    }

    /// The number of phrases confirmed so far.
    pub fn revision(&self) -> (r: u64)
        ensures
            r == self@.revision,
    {
        self.revision
    }

    /// Feeds one OCR reading taken at `now`. Returns whether it confirmed a new
    /// phrase, in which case the revision grows by one. Reading the confirmed text
    /// again drops any pending candidate and changes nothing else.
    pub fn observe(&mut self, text: &str, now: u64) -> (changed: bool)
        requires
            old(self)@.revision < u64::MAX,
        ensures
            final(self)@ == observe_next(old(self)@, text@, now).0,
            changed == observe_next(old(self)@, text@, now).1,
    {
        let text = normalize(text);
        if text == self.text && self.revision > 0 {
            self.pending = None;
            return false;
        }
        let candidate = match self.pending.take() {
            Some(c) => {
                if c.text == text {
                    TextCandidate {
                        text: c.text,
                        since: c.since,
                        last_read: now,
                        confirmations: c.confirmations.saturating_add(1),
                    }
                } else {
                    TextCandidate { text, since: now, last_read: now, confirmations: 1 }
                }
            },
            None => TextCandidate { text, since: now, last_read: now, confirmations: 1 },
        };
        let interval = if candidate.text.as_str().is_empty() { EMPTY_INTERVAL } else { STABLE_INTERVAL };
        let waited = now.saturating_sub(candidate.since);
        if candidate.confirmations < TEXT_CONFIRMATIONS || waited < interval {
            self.pending = Some(candidate);
            return false;
        }
        self.text = candidate.text;
        self.revision = self.revision + 1;
        true
    }

    /// Some phrase has been confirmed and no other reading is pending.
    pub fn ready(&self) -> (b: bool)
        ensures
            b == gate_ready(self@),
    {
        self.revision > 0 && self.pending.is_none()
    }

    /// How many consecutive readings agree with the pending candidate.
    pub fn pending_confirmations(&self) -> (r: Option<u32>)
        ensures
            r == (match self@.pending {
                Some(c) => Some(c.confirmations),
                None => None::<u32>,
            }),
    {
        match &self.pending {
            Some(c) => Some(c.confirmations),
            None => None,
        }
    }

    /// A pending candidate was last read long enough ago to be read again: half
    /// of the empty interval for an empty candidate, the OCR interval otherwise.
    pub fn needs_confirmation(&self, now: u64) -> (b: bool)
        ensures
            b == needs_reading(self@, now),
    {
        match &self.pending {
            Some(c) => {
                // Empty text uses a longer spacing to cover its 1.5 second grace.
                let spacing = if c.text.as_str().is_empty() { EMPTY_INTERVAL / 2 } else { OCR_INTERVAL };
                now.saturating_sub(c.last_read) >= spacing
            },
            None => false,
        }
    }
}

} // verus!
