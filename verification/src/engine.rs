use vstd::prelude::*;
use crate::cache::{TranslationCache, cache_capacity, cache_contents, cache_get, cache_order, cache_put, new_cache, touched};
use crate::capture::SharedFrames;
use crate::model::{CaptureSource, Frame, GateView, Monitor, Rect, TextGate, OCR_INTERVAL, changed, elapsed, is_change, fingerprint_of, needs_reading, gate_ready, observe_next};
use crate::text::count_chars_upto;
use crate::ocr::{OcrError, OcrOutput};
use crate::service::Snapshot;
use crate::translate::{MAX_TRANSLATION_CHARS, TranslationError};

verus! {

/// A result belongs to the current request when both its generation and its
/// text revision are the current ones.
pub fn is_current(generation: u64, revision: u64, result_generation: u64, result_revision: u64) -> (b: bool)
    ensures
        b == (generation == result_generation && revision == result_revision),
{
    generation == result_generation && revision == result_revision
}

/// A snapshot with its strings taken as character sequences.
pub struct SnapshotView {
    pub state: Seq<char>,
    pub message: Seq<char>,
    pub generation: u64,
    pub revision: u64,
    pub translation: Seq<char>,
    pub region: Option<Rect>,
    pub monitor: Option<Monitor>,
    pub frame_size: Option<(u32, u32)>,
    pub portal_position: Option<(i32, i32)>,
    pub portal_size: Option<(i32, i32)>,
    pub source_type: Option<CaptureSource>,
    pub ocr_count: u64,
    pub api_count: u64,
    pub cache_hits: u64,
    pub characters_sent: u64,
    pub ocr_ms: u64,
    pub api_ms: u64,
    pub latency_ms: u64,
    pub captured_frames: u64,
    pub last_frame_age_ms: Option<u64>,
    pub ocr_text: Seq<char>,
    pub ocr_confidence: Option<i32>,
    pub ocr_confirmations: u32,
    pub api_successes: u64,
    pub api_pending: bool,
}

impl View for Snapshot {
    type V = SnapshotView;

    open spec fn view(&self) -> SnapshotView {
        SnapshotView {
            state: self.state@,
            message: self.message@,
            generation: self.generation,
            revision: self.revision,
            translation: self.translation@,
            region: self.region,
            monitor: self.monitor,
            frame_size: self.frame_size,
            portal_position: self.portal_position,
            portal_size: self.portal_size,
            source_type: self.source_type,
            ocr_count: self.ocr_count,
            api_count: self.api_count,
            cache_hits: self.cache_hits,
            characters_sent: self.characters_sent,
            ocr_ms: self.ocr_ms,
            api_ms: self.api_ms,
            latency_ms: self.latency_ms,
            captured_frames: self.captured_frames,
            last_frame_age_ms: self.last_frame_age_ms,
            ocr_text: self.ocr_text@,
            ocr_confidence: self.ocr_confidence,
            ocr_confirmations: self.ocr_confirmations,
            api_successes: self.api_successes,
            api_pending: self.api_pending,
        }
    }
}

/// Outside work that the engine asks the service to do, in order.
pub enum Effect {
    /// Publish `StatusChanged` with this snapshot.
    StatusChanged(Snapshot),
    /// Publish `TranslationChanged` (an empty text clears the subtitle).
    TranslationChanged { generation: u64, revision: u64, text: String },
    /// Abort the translation request in flight.
    AbortTranslation,
    /// Send `source` to the translation API; the reply comes back tagged with the
    /// generation and revision.
    Translate { generation: u64, revision: u64, key: String, source: String },
    /// Pause (`true`) or resume the capture pipeline.
    PauseCapture(bool),
    /// Cancel a pending portal selection, close the capture and forget its frames.
    CloseCapture,
    /// Drop the OCR worker's client.
    ResetOcr,
    /// Open the screen-cast portal for this kind of source.
    OpenCapture(CaptureSource),
}

/// An effect with its strings taken as character sequences.
pub enum EffectView {
    StatusChanged(SnapshotView),
    TranslationChanged { generation: u64, revision: u64, text: Seq<char> },
    AbortTranslation,
    Translate { generation: u64, revision: u64, key: Seq<char>, source: Seq<char> },
    PauseCapture(bool),
    CloseCapture,
    ResetOcr,
    OpenCapture(CaptureSource),
}

impl View for Effect {
    type V = EffectView;

    open spec fn view(&self) -> EffectView {
        match self {
            Effect::StatusChanged(s) => EffectView::StatusChanged(s@),
            Effect::TranslationChanged { generation, revision, text } => EffectView::TranslationChanged {
                generation: *generation,
                revision: *revision,
                text: text@,
            },
            Effect::AbortTranslation => EffectView::AbortTranslation,
            Effect::Translate { generation, revision, key, source } => EffectView::Translate {
                generation: *generation,
                revision: *revision,
                key: key@,
                source: source@,
            },
            Effect::PauseCapture(p) => EffectView::PauseCapture(*p),
            Effect::CloseCapture => EffectView::CloseCapture,
            Effect::ResetOcr => EffectView::ResetOcr,
            Effect::OpenCapture(s) => EffectView::OpenCapture(*s),
        }
    }
}

/// The views of a sequence of effects.
pub open spec fn effect_views(effects: Seq<Effect>) -> Seq<EffectView> {
    effects.map_values(|e: Effect| e@)
}

/// The abstract state of the engine.
pub struct EngineView {
    pub key: Seq<char>,
    pub generation: u64,
    pub running: bool,
    pub gate: GateView,
    pub fingerprint: Seq<u8>,
    pub latest: Option<Frame>,
    pub confirmation_frame: Option<Frame>,
    pub sequence: u64,
    pub dirty: bool,
    pub ocr_busy: bool,
    pub last_ocr: Option<u64>,
    pub last_image_change: u64,
    pub text_captured: u64,
    pub translating: bool,
    pub cache: Map<Seq<char>, Seq<char>>,
    pub cache_order: Seq<Seq<char>>,
    pub cache_capacity: nat,
    pub shown: Option<u64>,
    pub failures: u32,
    pub retry_at: u64,
    pub selection_started: u64,
    pub has_capture: bool,
    pub opening: bool,
    pub capture_source: Option<CaptureSource>,
    pub snapshot: SnapshotView,
    pub last_frame_at: Option<u64>,
}

/// The decisions of the translation engine: what to do on each command, tick, OCR
/// reading and translation reply. Time is in milliseconds of the service's monotonic
/// clock. The service performs the returned effects and feeds back their outcomes.
pub struct EngineCore {
    pub key: String,
    pub generation: u64,
    pub running: bool,
    pub gate: TextGate,
    pub fingerprint: Vec<u8>,
    pub latest: Option<Frame>,
    pub confirmation_frame: Option<Frame>,
    pub sequence: u64,
    pub dirty: bool,
    pub ocr_busy: bool,
    pub last_ocr: Option<u64>,
    pub last_image_change: u64,
    pub text_captured: u64,
    pub translating: bool,
    pub cache: TranslationCache,
    pub shown: Option<u64>,
    pub failures: u32,
    pub retry_at: u64,
    pub selection_started: u64,
    pub has_capture: bool,
    pub opening: bool,
    pub capture_source: Option<CaptureSource>,
    pub snapshot: Snapshot,
    pub last_frame_at: Option<u64>,
}

impl View for EngineCore {
    type V = EngineView;

    open spec fn view(&self) -> EngineView {
        EngineView {
            key: self.key@,
            generation: self.generation,
            running: self.running,
            gate: self.gate@,
            fingerprint: self.fingerprint@,
            latest: self.latest,
            confirmation_frame: self.confirmation_frame,
            sequence: self.sequence,
            dirty: self.dirty,
            ocr_busy: self.ocr_busy,
            last_ocr: self.last_ocr,
            last_image_change: self.last_image_change,
            text_captured: self.text_captured,
            translating: self.translating,
            cache: cache_contents(self.cache),
            cache_order: cache_order(self.cache),
            cache_capacity: cache_capacity(self.cache),
            shown: self.shown,
            failures: self.failures,
            retry_at: self.retry_at,
            selection_started: self.selection_started,
            has_capture: self.has_capture,
            opening: self.opening,
            capture_source: self.capture_source,
            snapshot: self.snapshot@,
            last_frame_at: self.last_frame_at,
        }
    }
}

/// An empty text gate: no confirmed phrase and no candidate.
pub open spec fn empty_gate() -> GateView {
    GateView { text: Seq::empty(), revision: 0, pending: None }
}

/// Counters and the clock are far enough from their limits for one more event.
pub open spec fn has_room(v: EngineView, now: u64) -> bool {
    &&& v.generation < u64::MAX
    &&& v.gate.revision < u64::MAX
    &&& v.sequence < u64::MAX
    &&& v.snapshot.ocr_count < u64::MAX
    &&& v.snapshot.api_count < u64::MAX
    &&& v.snapshot.cache_hits < u64::MAX
    &&& v.snapshot.api_successes < u64::MAX
    &&& v.snapshot.captured_frames < u64::MAX
    &&& v.snapshot.characters_sent <= u64::MAX - MAX_TRANSLATION_CHARS
    &&& now <= u64::MAX - 64_000
}

/// Publishing a status: the snapshot takes the state, the message, the generation and
/// the revision, and is sent out.
pub open spec fn status_step(v: EngineView, state: Seq<char>, message: Seq<char>) -> (EngineView, Seq<EffectView>) {
    let snapshot = SnapshotView { state, message, generation: v.generation, revision: v.gate.revision, ..v.snapshot };
    (EngineView { snapshot, ..v }, seq![EffectView::StatusChanged(snapshot)])
}

/// Showing a subtitle (empty to clear it).
pub open spec fn show_step(v: EngineView, text: Seq<char>) -> (EngineView, Seq<EffectView>) {
    let snapshot = SnapshotView { translation: text, revision: v.gate.revision, ..v.snapshot };
    (
        EngineView { snapshot, ..v },
        seq![EffectView::TranslationChanged { generation: v.generation, revision: v.gate.revision, text }],
    )
}

/// Invalidating: a new generation, no confirmed or pending text, no retained frame,
/// and the translation in flight, if any, is aborted.
pub open spec fn invalidate_step(v: EngineView) -> (EngineView, Seq<EffectView>) {
    let snapshot = SnapshotView {
        captured_frames: 0,
        ocr_text: Seq::empty(),
        ocr_confidence: None,
        api_pending: false,
        ..v.snapshot
    };
    (
        EngineView {
            generation: (v.generation + 1) as u64,
            gate: empty_gate(),
            shown: None,
            latest: None,
            confirmation_frame: None,
            fingerprint: Seq::empty(),
            dirty: false,
            last_frame_at: None,
            translating: false,
            snapshot,
            ..v
        },
        if v.translating { seq![EffectView::AbortTranslation] } else { Seq::empty() },
    )
}

/// Stopping: nothing runs, the generation is invalidated, the capture (open or being
/// opened) is closed, the OCR worker is reset, the capture geometry is forgotten and
/// the subtitle is cleared.
pub open spec fn stop_step(v: EngineView) -> (EngineView, Seq<EffectView>) {
    let (a, e1) = invalidate_step(EngineView { running: false, ..v });
    let snapshot = SnapshotView {
        region: None,
        monitor: None,
        frame_size: None,
        source_type: None,
        portal_position: None,
        portal_size: None,
        ..a.snapshot
    };
    let b = EngineView { snapshot, has_capture: false, opening: false, capture_source: None, ..a };
    let (c, e2) = show_step(b, Seq::empty());
    (c, e1 + seq![EffectView::CloseCapture, EffectView::ResetOcr] + e2)
}


/// Capacity of the translation cache, in source → translation pairs.
pub const CACHE_CAPACITY: usize = 2000;

/// The engine of a freshly started service.
pub open spec fn initial_view(now: u64, snapshot: SnapshotView) -> EngineView {
    EngineView {
        key: Seq::empty(),
        generation: 0,
        running: false,
        gate: empty_gate(),
        fingerprint: Seq::empty(),
        latest: None,
        confirmation_frame: None,
        sequence: 0,
        dirty: false,
        ocr_busy: false,
        last_ocr: None,
        last_image_change: now,
        text_captured: now,
        translating: false,
        cache: Map::empty(),
        cache_order: Seq::empty(),
        cache_capacity: CACHE_CAPACITY as nat,
        shown: None,
        failures: 0,
        retry_at: now,
        selection_started: now,
        has_capture: false,
        opening: false,
        capture_source: None,
        snapshot,
        last_frame_at: None,
    }
}

/// The snapshot of a freshly started service.
pub open spec fn initial_snapshot() -> SnapshotView {
    SnapshotView {
        state: "idle"@,
        message: "Selecione uma área para começar."@,
        generation: 0,
        revision: 0,
        translation: Seq::empty(),
        region: None,
        monitor: None,
        frame_size: None,
        portal_position: None,
        portal_size: None,
        source_type: None,
        ocr_count: 0,
        api_count: 0,
        cache_hits: 0,
        characters_sent: 0,
        ocr_ms: 0,
        api_ms: 0,
        latency_ms: 0,
        captured_frames: 0,
        last_frame_age_ms: None,
        ocr_text: Seq::empty(),
        ocr_confidence: None,
        ocr_confirmations: 0,
        api_successes: 0,
        api_pending: false,
    }
}

/// The portal message for the kind of source being selected.
pub open spec fn opening_message(source: CaptureSource) -> Seq<char> {
    match source {
        CaptureSource::Monitor => "Escolha o monitor no diálogo de compartilhamento."@,
        CaptureSource::Window => "Escolha a janela do emulador no diálogo de compartilhamento."@,
    }
}

/// `BeginSelection`: refused without a credential; otherwise the previous session is
/// stopped and the portal is opened for the requested kind of source.
pub open spec fn begin_step(v: EngineView, source: CaptureSource, now: u64) -> (EngineView, Seq<EffectView>, Result<(), Seq<char>>) {
    if v.key.len() == 0 {
        (v, Seq::empty(), Err("Configure a chave do Google Cloud primeiro."@))
    } else {
        let (a, e1) = stop_step(v);
        let b = EngineView {
            snapshot: SnapshotView { source_type: Some(source), ..a.snapshot },
            selection_started: now,
            opening: true,
            capture_source: Some(source),
            ..a
        };
        let (c, e2) = status_step(b, "opening"@, opening_message(source));
        (c, e1 + seq![EffectView::OpenCapture(source)] + e2, Ok(()))
    }
}

/// `Pause`: nothing runs, the generation is invalidated, the capture is paused, the
/// subtitle is cleared. The reply is the outcome of pausing the capture.
pub open spec fn pause_step(v: EngineView) -> (EngineView, Seq<EffectView>) {
    let (a, e1) = invalidate_step(EngineView { running: false, ..v });
    let e2 = if a.has_capture { seq![EffectView::PauseCapture(true)] } else { Seq::empty() };
    let (b, e3) = show_step(a, Seq::empty());
    let (c, e4) = status_step(b, "paused"@, "Tradução pausada."@);
    (c, e1 + e2 + e3 + e4)
}

/// `Resume` needs a selected region and an open capture, which it resumes.
pub open spec fn resume_needs_capture(v: EngineView) -> bool {
    v.snapshot.region is Some && v.has_capture
}

/// `Resume`, given the outcome of resuming the capture (`None` when it was not
/// attempted): on success a new generation runs, with the failure count reset.
pub open spec fn resume_step(v: EngineView, outcome: Option<Result<(), Seq<char>>>, now: u64) -> (EngineView, Seq<EffectView>, Result<(), Seq<char>>) {
    let result = match outcome {
        Some(r) => r,
        None => Err("Selecione uma área."@),
    };
    if result is Ok {
        let (a, e1) = invalidate_step(v);
        let b = EngineView { running: true, failures: 0, retry_at: now, ..a };
        let (c, e2) = status_step(b, "running"@, "Observando a área selecionada."@);
        (c, e1 + e2, result)
    } else {
        (v, Seq::empty(), result)
    }
}

/// `Stop`: the session ends and the service goes idle.
pub open spec fn stop_command_step(v: EngineView) -> (EngineView, Seq<EffectView>) {
    let (a, e1) = stop_step(v);
    let (b, e2) = status_step(a, "idle"@, "Captura encerrada."@);
    (b, e1 + e2)
}

/// `SetApiKey`: the credential is replaced and the failure count reset.
pub open spec fn credential_step(v: EngineView, key: Seq<char>, now: u64) -> EngineView {
    EngineView { key, failures: 0, retry_at: now, ..v }
}

/// The error of `SetRegion` before anything changes, if any.
pub open spec fn region_error(v: EngineView, dimensions: Option<(u32, u32)>, region: Rect, monitor: Monitor) -> Option<Seq<char>> {
    if !monitor.plausible() {
        Some("Monitor inválido."@)
    } else if !v.has_capture || v.capture_source is None {
        Some("Abra a captura primeiro."@)
    } else if dimensions is None {
        Some("Aguardando primeiro quadro."@)
    } else if v.capture_source->0.layout_error(region, dimensions->0, monitor) is Some {
        Some(v.capture_source->0.layout_error(region, dimensions->0, monitor)->0.spec_message())
    } else {
        None
    }
}

/// `SetRegion` once the capture has resumed: the region, monitor and capture size are
/// published and a new generation runs.
pub open spec fn region_selected_step(v: EngineView, region: Rect, monitor: Monitor, dimensions: (u32, u32), now: u64) -> (EngineView, Seq<EffectView>) {
    let b = EngineView {
        snapshot: SnapshotView {
            region: Some(region),
            monitor: Some(monitor),
            frame_size: Some(dimensions),
            ..v.snapshot
        },
        running: true,
        failures: 0,
        retry_at: now,
        ..v
    };
    status_step(b, "running"@, "Observando a área selecionada."@)
}


/// How the portal selection ended.
pub enum OpeningOutcome {
    /// The capture runs; the portal reported the stream's position and logical size.
    Opened { position: Option<(i32, i32)>, size: Option<(i32, i32)> },
    /// Opening failed with this message.
    Failed(String),
    /// The opening task itself failed.
    Crashed,
}

/// A portal selection finished: an open capture waits for the region, a failure
/// stops everything and reports the error.
pub open spec fn opening_step(v: EngineView, outcome: OpeningOutcome, now: u64) -> (EngineView, Seq<EffectView>) {
    let a = EngineView { opening: false, ..v };
    match outcome {
        OpeningOutcome::Opened { position, size } => {
            let b = EngineView {
                snapshot: SnapshotView { portal_position: position, portal_size: size, ..a.snapshot },
                has_capture: true,
                selection_started: now,
                ..a
            };
            status_step(b, "selecting"@, "Marque a região na prévia."@)
        },
        OpeningOutcome::Failed(m) => {
            let (b, e1) = stop_step(a);
            let (c, e2) = status_step(b, "error"@, "Captura não iniciada: "@ + m@);
            (c, e1 + e2)
        },
        OpeningOutcome::Crashed => {
            let (b, e1) = stop_step(a);
            let (c, e2) = status_step(b, "error"@, "Captura não iniciada. Tente selecionar novamente."@);
            (c, e1 + e2)
        },
    }
}

/// The capture reported an error: everything stops and the error is published.
pub open spec fn capture_failed_step(v: EngineView, error: Seq<char>) -> (EngineView, Seq<EffectView>) {
    let (a, e1) = stop_step(v);
    let (b, e2) = status_step(a, "error"@, error);
    (b, e1 + e2)
}

/// How long a forgotten selection may keep a screen share open, in milliseconds.
pub const SELECTION_TIMEOUT: u64 = 300_000;

/// A selection left open for more than five minutes.
pub open spec fn selection_expired(v: EngineView, now: u64) -> bool {
    v.has_capture && !v.running && v.snapshot.state == "selecting"@ && elapsed(now, v.selection_started) > SELECTION_TIMEOUT
}

/// A forgotten selection window must not retain a screen share forever.
pub open spec fn expire_step(v: EngineView, now: u64) -> (EngineView, Seq<EffectView>) {
    if selection_expired(v, now) {
        let (a, e1) = stop_step(v);
        let (b, e2) = status_step(a, "idle"@, "Seleção expirou. Selecione a área novamente."@);
        (b, e1 + e2)
    } else {
        (v, Seq::empty())
    }
}

/// The retained crop, if it holds one byte per pixel; an incomplete crop is dropped.
pub open spec fn usable_frame(frame: Option<Frame>) -> Option<Frame> {
    match frame {
        Some(f) => if f.wf() { Some(f) } else { None },
        None => None,
    }
}

/// The first part of a scan tick, with the capture's error if it reported one and the
/// crop it retains: a capture error stops everything and ends the tick; otherwise a
/// forgotten selection expires, and the tick ends unless the engine runs, in which case
/// the crop is taken. The flag tells whether the tick goes on.
pub open spec fn scan_step(v: EngineView, error: Option<Seq<char>>, frame: Option<Frame>, now: u64) -> (EngineView, Seq<EffectView>, bool) {
    match error {
        Some(e) => {
            let (a, e1) = capture_failed_step(v, e);
            (a, e1, false)
        },
        None => {
            let (a, e1) = expire_step(v, now);
            if !a.running {
                (a, e1, false)
            } else {
                (frame_step(a, usable_frame(frame), now), e1, true)
            }
        },
    }
}

/// Taking the retained crop while running: it is counted, and it becomes the next
/// image to read when its fingerprint changed.
pub open spec fn frame_step(v: EngineView, frame: Option<Frame>, now: u64) -> EngineView {
    if !v.running {
        v
    } else {
        match frame {
            None => v,
            Some(f) => {
                let a = EngineView {
                    last_frame_at: Some(f.captured),
                    snapshot: SnapshotView { captured_frames: (v.snapshot.captured_frames + 1) as u64, ..v.snapshot },
                    ..v
                };
                if is_change(v.fingerprint, fingerprint_of(f)) {
                    EngineView {
                        fingerprint: fingerprint_of(f),
                        sequence: (v.sequence + 1) as u64,
                        last_image_change: now,
                        dirty: true,
                        latest: Some(f),
                        ..a
                    }
                } else {
                    a
                }
            },
        }
    }
}

/// An image handed to the OCR worker, tagged with the generation and the image sequence.
pub struct OcrJob {
    pub generation: u64,
    pub sequence: u64,
    pub key: String,
    pub frame: Frame,
}

/// Empty readings and readings of a changed phrase are confirmed once more from the
/// last read image, even if the compositor sends no new frame.
pub open spec fn wants_confirmation(v: EngineView, now: u64) -> bool {
    !v.dirty && !v.ocr_busy && needs_reading(v.gate, now)
        && (v.gate.text.len() > 0 || v.snapshot.translation.len() > 0) && v.confirmation_frame is Some
}

/// The state after choosing the next image to read, and that image: one is read at a
/// time, at most every half second, and only a changed or reconfirmed image is read.
pub open spec fn next_job_step(v: EngineView, now: u64) -> (EngineView, Option<Frame>) {
    let a = if wants_confirmation(v, now) {
        EngineView { latest: v.confirmation_frame, dirty: true, confirmation_frame: None, ..v }
    } else {
        v
    };
    if a.dirty && !a.ocr_busy && (a.last_ocr matches Some(t) ==> elapsed(now, t) >= OCR_INTERVAL) && a.latest is Some {
        (EngineView { latest: None, ..a }, a.latest)
    } else {
        (a, None)
    }
}

/// What became of an image handed to the OCR worker.
pub enum DispatchOutcome {
    /// The worker took it.
    Sent,
    /// The worker was busy; the image comes back.
    Full(Frame),
    /// The worker is gone.
    Closed,
}

/// The outcome of handing an image to the OCR worker.
pub open spec fn dispatched_step(v: EngineView, outcome: DispatchOutcome, now: u64) -> (EngineView, Seq<EffectView>) {
    match outcome {
        DispatchOutcome::Sent => (EngineView { ocr_busy: true, last_ocr: Some(now), dirty: false, ..v }, Seq::empty()),
        DispatchOutcome::Full(f) => (EngineView { latest: Some(f), ..v }, Seq::empty()),
        DispatchOutcome::Closed => {
            let (a, e1) = stop_step(v);
            let (b, e2) = status_step(a, "error"@, "Trabalhador de OCR indisponível."@);
            (b, e1 + e2)
        },
    }
}


/// The state and effects once the confirmed phrase is ready to be shown: an empty
/// phrase clears the subtitle, a cached one is shown at once; otherwise a stale
/// subtitle is cleared and, unless the failure back-off is still running, the phrase
/// is sent for translation — or, above 4000 characters, translation is blocked.
pub open spec fn translate_ready_step(v: EngineView, now: u64) -> (EngineView, Seq<EffectView>) {
    let revision = v.gate.revision;
    if !v.running || v.shown == Some(revision) || v.translating || v.dirty || v.ocr_busy || !gate_ready(v.gate) {
        (v, Seq::empty())
    } else {
        let source = v.gate.text;
        if source.len() == 0 {
            show_step(EngineView { shown: Some(revision), ..v }, Seq::empty())
        } else if v.cache.contains_key(source) {
            show_step(
                EngineView {
                    shown: Some(revision),
                    snapshot: SnapshotView { cache_hits: (v.snapshot.cache_hits + 1) as u64, ..v.snapshot },
                    cache_order: touched(v.cache_order, source),
                    ..v
                },
                v.cache[source],
            )
        } else {
            let (a, e1) = if v.snapshot.translation.len() > 0 { show_step(v, Seq::empty()) } else { (v, Seq::empty()) };
            if now < a.retry_at {
                (a, e1)
            } else if source.len() > MAX_TRANSLATION_CHARS {
                let b = EngineView { running: false, ..a };
                let e2 = if a.has_capture { seq![EffectView::PauseCapture(true)] } else { Seq::empty() };
                let (c, e3) = status_step(b, "blocked"@, "Texto muito longo. Selecione uma área menor."@);
                (c, e1 + e2 + e3)
            } else {
                let b = EngineView {
                    snapshot: SnapshotView {
                        api_count: (a.snapshot.api_count + 1) as u64,
                        api_pending: true,
                        characters_sent: (a.snapshot.characters_sent + source.len()) as u64,
                        ..a.snapshot
                    },
                    translating: true,
                    ..a
                };
                (b, e1 + seq![EffectView::Translate { generation: v.generation, revision, key: v.key, source }])
            }
        }
    }
}


/// Counters have room for one more translation request or cache hit.
pub open spec fn translation_room(v: EngineView) -> bool {
    &&& v.snapshot.api_count < u64::MAX
    &&& v.snapshot.cache_hits < u64::MAX
    &&& v.snapshot.characters_sent <= u64::MAX - MAX_TRANSLATION_CHARS
}

/// One OCR reading coming back from the worker.
pub struct OcrReading {
    pub generation: u64,
    pub sequence: u64,
    pub captured: u64,
    pub result: Result<OcrOutput, OcrError>,
    pub frame: Option<Frame>,
}

/// An OCR reading came back. Readings of an older generation, or while not running,
/// are dropped. A reading feeds the text gate; a newly confirmed phrase aborts the
/// translation of the previous one. An OCR failure stops everything.
pub open spec fn ocr_result_step(v: EngineView, reading: OcrReading, now: u64) -> (EngineView, Seq<EffectView>) {
    let a = EngineView { ocr_busy: false, ..v };
    if reading.generation != v.generation || !v.running {
        (a, Seq::empty())
    } else {
        let b = EngineView { confirmation_frame: reading.frame, ..a };
        match reading.result {
            Ok(out) => {
                let c = EngineView {
                    snapshot: SnapshotView {
                        ocr_count: (b.snapshot.ocr_count + 1) as u64,
                        ocr_ms: out.elapsed_ms,
                        ocr_text: out.text@,
                        ocr_confidence: None,
                        ..b.snapshot
                    },
                    ..b
                };
                let (g, confirmed_now) = observe_next(c.gate, out.text@, now);
                let d = if confirmed_now {
                    EngineView {
                        gate: g,
                        text_captured: reading.captured,
                        shown: None,
                        translating: false,
                        snapshot: SnapshotView { api_pending: if c.translating { false } else { c.snapshot.api_pending }, ..c.snapshot },
                        ..c
                    }
                } else {
                    EngineView { gate: g, ..c }
                };
                let e1 = if confirmed_now && c.translating { seq![EffectView::AbortTranslation] } else { Seq::empty() };
                let d2 = if reading.sequence == v.sequence { EngineView { dirty: false, ..d } } else { d };
                let (f, e2) = translate_ready_step(d2, now);
                (f, e1 + e2)
            },
            Err(e) => {
                let (c, e1) = stop_step(b);
                let (d, e2) = status_step(c, "error"@, e.spec_message());
                (d, e1 + e2)
            },
        }
    }
}

/// A translation reply coming back, tagged with its request.
pub struct TranslationReply {
    pub generation: u64,
    pub revision: u64,
    pub source: String,
    pub elapsed: u64,
    pub result: Result<String, TranslationError>,
}

/// The wait before the next translation after `failures` consecutive temporary
/// failures: 2^failures seconds, for 1 to 5 failures.
pub open spec fn backoff_ms(failures: u32) -> u64 {
    if failures <= 1 { 2000 } else if failures == 2 { 4000 } else if failures == 3 { 8000 } else if failures == 4 { 16000 } else { 32000 }
}

/// The pairs and the usage order (least recently used first) that `put(key, value)`
/// leaves in a cache holding `before` in the order `order`: a present key is updated
/// and becomes the most recently used; a new key is added, after evicting the least
/// recently used pair when the cache is full.
pub open spec fn put_into(
    before: Map<Seq<char>, Seq<char>>,
    order: Seq<Seq<char>>,
    capacity: nat,
    key: Seq<char>,
    value: Seq<char>,
) -> (Map<Seq<char>, Seq<char>>, Seq<Seq<char>>) {
    if before.contains_key(key) {
        (before.insert(key, value), touched(order, key))
    } else if before.len() < capacity {
        (before.insert(key, value), order.push(key))
    } else {
        (before.remove(order[0]).insert(key, value), order.drop_first().push(key))
    }
}

/// The translated pair that a reply adds to the cache, if it does.
pub open spec fn cached_pair(v: EngineView, reply: Option<TranslationReply>) -> Option<(Seq<char>, Seq<char>)> {
    match reply {
        Some(r) => if r.generation == v.generation && r.revision == v.gate.revision && r.result is Ok {
            Some((r.source@, r.result->Ok_0@))
        } else {
            None
        },
        None => None,
    }
}

/// A translation request finished (`None` when its task failed). Replies for an older
/// generation or revision are dropped. A translation is cached and shown unless a newer
/// image is waiting to be read; credential and quota failures block until a manual
/// resume; other failures back off for 2^failures seconds, up to 32.
pub open spec fn finish_step(v: EngineView, reply: Option<TranslationReply>, now: u64) -> (EngineView, Seq<EffectView>) {
    let a = EngineView { snapshot: SnapshotView { api_pending: false, ..v.snapshot }, translating: false, ..v };
    match reply {
        None => (a, Seq::empty()),
        Some(r) => if !(r.generation == v.generation && r.revision == v.gate.revision) {
            (a, Seq::empty())
        } else {
            let b = EngineView { snapshot: SnapshotView { api_ms: r.elapsed, ..a.snapshot }, ..a };
            match r.result {
                Ok(text) => finish_ok_step(b, r.source@, text@, now),
                Err(e) => finish_err_step(b, e, now),
            }
        },
    }
}

/// A current translation arrived: it is cached, the failure count is reset, and it is
/// shown unless a newer image is waiting to be read.
pub open spec fn finish_ok_step(b: EngineView, source: Seq<char>, text: Seq<char>, now: u64) -> (EngineView, Seq<EffectView>) {
    let (cache, cache_order) = put_into(b.cache, b.cache_order, b.cache_capacity, source, text);
    let c = EngineView {
        snapshot: SnapshotView {
            api_successes: (b.snapshot.api_successes + 1) as u64,
            latency_ms: elapsed(now, b.text_captured) as u64,
            ..b.snapshot
        },
        cache,
        cache_order,
        failures: 0,
        retry_at: now,
        ..b
    };
    let (d, e1) = if !c.dirty && !c.ocr_busy {
        show_step(EngineView { shown: Some(c.gate.revision), ..c }, text)
    } else {
        (c, Seq::empty())
    };
    let (f, e2) = status_step(d, "running"@, "Observando a área selecionada."@);
    (f, e1 + e2)
}

/// A current translation failed: credential and quota failures block until a manual
/// resume; other failures back off.
pub open spec fn finish_err_step(b: EngineView, e: TranslationError, now: u64) -> (EngineView, Seq<EffectView>) {
    if e.spec_suspends() {
        let c = EngineView { running: false, ..b };
        let e1 = if c.has_capture { seq![EffectView::PauseCapture(true)] } else { Seq::empty() };
        let (d, e2) = show_step(c, Seq::empty());
        let (f, e3) = status_step(d, "blocked"@, e.spec_message());
        (f, e1 + e2 + e3)
    } else {
        let failures: u32 = if b.failures < 5 { (b.failures + 1) as u32 } else { 5 };
        let c = EngineView { failures, retry_at: (now + backoff_ms(failures)) as u64, ..b };
        status_step(c, "retrying"@, e.spec_message())
    }
}


/// `Refresh`: while running, the last read image (or the newest retained one) is read
/// again on the next tick; repeated requests while a reading is pending coalesce.
/// Refused when nothing runs; pause and blocking are not lifted.
pub open spec fn refresh_step(v: EngineView) -> (EngineView, Result<(), Seq<char>>) {
    if !v.running {
        (v, Err("Selecione uma área."@))
    } else if v.latest is None && v.confirmation_frame is Some {
        (EngineView { latest: v.confirmation_frame, confirmation_frame: None, dirty: true, ..v }, Ok(()))
    } else if v.latest is Some {
        (EngineView { dirty: true, ..v }, Ok(()))
    } else {
        (v, Ok(()))
    }
}

/// A reply with its message taken as a character sequence.
pub open spec fn reply_view(r: Result<(), String>) -> Result<(), Seq<char>> {
    match r {
        Ok(()) => Ok(()),
        Err(m) => Err(m@),
    }
}

fn push_effect(effects: &mut Vec<Effect>, e: Effect)
    ensures
        effect_views(final(effects)@) == effect_views(old(effects)@).push(e@),
{
    let ghost before = effects@;
    effects.push(e);
    proof {
        assert(effect_views(effects@) =~= effect_views(before).push(e@));
    }
}

impl EngineCore {
    fn status(&mut self, state: &str, message: &str, effects: &mut Vec<Effect>)
        ensures
            final(self)@ == status_step(old(self)@, state@, message@).0,
            effect_views(final(effects)@) == effect_views(old(effects)@) + status_step(old(self)@, state@, message@).1,
    {
        self.snapshot.state = String::from_str(state);
        self.snapshot.message = String::from_str(message);
        self.snapshot.generation = self.generation;
        self.snapshot.revision = self.gate.revision();
        let snapshot = self.snapshot.copy();
        push_effect(effects, Effect::StatusChanged(snapshot));
        proof {
            assert(effect_views(old(effects)@).push(EffectView::StatusChanged(snapshot@)) =~= effect_views(old(effects)@) + seq![EffectView::StatusChanged(snapshot@)]);
        }
    }

    fn show(&mut self, text: String, effects: &mut Vec<Effect>)
        ensures
            final(self)@ == show_step(old(self)@, text@).0,
            effect_views(final(effects)@) == effect_views(old(effects)@) + show_step(old(self)@, text@).1,
    {
        let revision = self.gate.revision();
        self.snapshot.translation = text.clone();
        self.snapshot.revision = revision;
        let e = Effect::TranslationChanged { generation: self.generation, revision, text };
        push_effect(effects, e);
        proof {
            assert(effect_views(old(effects)@).push(e@) =~= effect_views(old(effects)@) + show_step(old(self)@, text@).1);
        }
    }

    fn invalidate(&mut self, effects: &mut Vec<Effect>)
        requires
            old(self).generation < u64::MAX,
        ensures
            final(self)@ == invalidate_step(old(self)@).0,
            effect_views(final(effects)@) == effect_views(old(effects)@) + invalidate_step(old(self)@).1,
    {
        self.generation = self.generation + 1;
        self.gate = TextGate::default();
        self.shown = None;
        self.latest = None;
        self.confirmation_frame = None;
        self.fingerprint = Vec::new();
        self.dirty = false;
        self.last_frame_at = None;
        self.snapshot.captured_frames = 0;
        self.snapshot.ocr_text = String::new();
        self.snapshot.ocr_confidence = None;
        self.snapshot.api_pending = false;
        if self.translating {
            push_effect(effects, Effect::AbortTranslation);
            self.translating = false;
            proof {
                assert(effect_views(old(effects)@).push(EffectView::AbortTranslation) =~= effect_views(old(effects)@) + seq![EffectView::AbortTranslation]);
            }
        } else {
            proof {
                assert(effect_views(old(effects)@) =~= effect_views(old(effects)@) + Seq::<EffectView>::empty());
            }
        }
        proof {
            assert(self.fingerprint@ =~= Seq::<u8>::empty());
        }
    }

    fn stop(&mut self, effects: &mut Vec<Effect>)
        requires
            old(self).generation < u64::MAX,
        ensures
            final(self)@ == stop_step(old(self)@).0,
            effect_views(final(effects)@) == effect_views(old(effects)@) + stop_step(old(self)@).1,
    {
        self.running = false;
        self.invalidate(effects);
        push_effect(effects, Effect::CloseCapture);
        push_effect(effects, Effect::ResetOcr);
        self.snapshot.region = None;
        self.snapshot.monitor = None;
        self.snapshot.frame_size = None;
        self.snapshot.source_type = None;
        self.snapshot.portal_position = None;
        self.snapshot.portal_size = None;
        self.has_capture = false;
        self.opening = false;
        self.capture_source = None;
        let ghost mid = effect_views(effects@);
        self.show(String::new(), effects);
        proof {
            let v0 = EngineView { running: false, ..old(self)@ };
            assert(effect_views(effects@) =~= effect_views(old(effects)@) + stop_step(old(self)@).1);
        }
    }
}


impl EngineCore {
    /// The engine of a freshly started service, with an empty cache of 2000 pairs.
    pub fn new(now: u64) -> (e: EngineCore)
        ensures
            e@ == initial_view(now, initial_snapshot()),
    {
        let snapshot = Snapshot::default();
        let e = EngineCore {
            key: String::new(),
            generation: 0,
            running: false,
            gate: TextGate::default(),
            fingerprint: Vec::new(),
            latest: None,
            confirmation_frame: None,
            sequence: 0,
            dirty: false,
            ocr_busy: false,
            last_ocr: None,
            last_image_change: now,
            text_captured: now,
            translating: false,
            cache: new_cache(CACHE_CAPACITY),
            shown: None,
            failures: 0,
            retry_at: now,
            selection_started: now,
            has_capture: false,
            opening: false,
            capture_source: None,
            snapshot,
            last_frame_at: None,
        };
        proof {
            assert(e.fingerprint@ =~= Seq::<u8>::empty());
            assert(cache_contents(e.cache) =~= Map::<Seq<char>, Seq<char>>::empty());
        }
        e
    }

    /// Whether counters and the clock leave room for one more event at `now`.
    pub fn has_room(&self, now: u64) -> (b: bool)
        ensures
            b == has_room(self@, now),
    {
        self.generation < u64::MAX && self.gate.revision() < u64::MAX && self.sequence < u64::MAX
            && self.snapshot.ocr_count < u64::MAX && self.snapshot.api_count < u64::MAX
            && self.snapshot.cache_hits < u64::MAX && self.snapshot.api_successes < u64::MAX
            && self.snapshot.captured_frames < u64::MAX
            && self.snapshot.characters_sent <= u64::MAX - MAX_TRANSLATION_CHARS as u64
            && now <= u64::MAX - 64_000
    }

    /// `BeginSelection` / `BeginWindowSelection`.
    pub fn begin(&mut self, source: CaptureSource, now: u64, effects: &mut Vec<Effect>) -> (r: Result<(), String>)
        requires
            has_room(old(self)@, now),
        ensures
            final(self)@ == begin_step(old(self)@, source, now).0,
            effect_views(final(effects)@) == effect_views(old(effects)@) + begin_step(old(self)@, source, now).1,
            reply_view(r) == begin_step(old(self)@, source, now).2,
    {
        if self.key.as_str().is_empty() {
            proof {
                assert(effect_views(old(effects)@) =~= effect_views(old(effects)@) + Seq::<EffectView>::empty());
            }
            return Err(String::from_str("Configure a chave do Google Cloud primeiro."));
        }
        self.stop(effects);
        self.snapshot.source_type = Some(source);
        self.selection_started = now;
        self.opening = true;
        self.capture_source = Some(source);
        push_effect(effects, Effect::OpenCapture(source));
        let message = match source {
            CaptureSource::Monitor => "Escolha o monitor no diálogo de compartilhamento.",
            CaptureSource::Window => "Escolha a janela do emulador no diálogo de compartilhamento.",
        };
        self.status("opening", message, effects);
        proof {
            assert(effect_views(effects@) =~= effect_views(old(effects)@) + begin_step(old(self)@, source, now).1);
        }
        Ok(())
    }

    /// `Pause`. The service replies with the outcome of the `PauseCapture` effect, if
    /// one is asked for, and success otherwise.
    pub fn pause(&mut self, now: u64, effects: &mut Vec<Effect>)
        requires
            has_room(old(self)@, now),
        ensures
            final(self)@ == pause_step(old(self)@).0,
            effect_views(final(effects)@) == effect_views(old(effects)@) + pause_step(old(self)@).1,
    {
        self.running = false;
        self.invalidate(effects);
        let ghost e1 = effect_views(effects@);
        if self.has_capture {
            push_effect(effects, Effect::PauseCapture(true));
        }
        let ghost e2 = effect_views(effects@);
        self.show(String::new(), effects);
        self.status("paused", "Tradução pausada.", effects);
        proof {
            assert(effect_views(effects@) =~= effect_views(old(effects)@) + pause_step(old(self)@).1);
        }
    }

    /// Whether `Resume` must first resume the capture.
    pub fn resume_needs_capture(&self) -> (b: bool)
        ensures
            b == resume_needs_capture(self@),
    {
        self.snapshot.region.is_some() && self.has_capture
    }

    /// `Resume`, given the outcome of resuming the capture when
    /// `resume_needs_capture` asked for it, and `None` otherwise.
    pub fn resume(&mut self, outcome: Option<Result<(), String>>, now: u64, effects: &mut Vec<Effect>) -> (r: Result<(), String>)
        requires
            has_room(old(self)@, now),
        ensures
            ({
                let o = match outcome {
                    Some(x) => Some(reply_view(x)),
                    None => None,
                };
                &&& final(self)@ == resume_step(old(self)@, o, now).0
                &&& effect_views(final(effects)@) == effect_views(old(effects)@) + resume_step(old(self)@, o, now).1
                &&& reply_view(r) == resume_step(old(self)@, o, now).2
            }),
    {
        let result = match outcome {
            Some(x) => x,
            None => Err(String::from_str("Selecione uma área.")),
        };
        match result {
            Ok(()) => {
                self.invalidate(effects);
                self.running = true;
                self.failures = 0;
                self.retry_at = now;
                self.status("running", "Observando a área selecionada.", effects);
                proof {
                    assert(effect_views(effects@) =~= effect_views(old(effects)@) + resume_step(old(self)@, Some(Ok(())), now).1);
                }
                Ok(())
            },
            Err(message) => {
                proof {
                    assert(effect_views(old(effects)@) =~= effect_views(old(effects)@) + Seq::<EffectView>::empty());
                }
                Err(message)
            },
        }
    }

    /// `Stop`: idempotent; the reply is always success.
    pub fn stop_capture(&mut self, now: u64, effects: &mut Vec<Effect>)
        requires
            has_room(old(self)@, now),
        ensures
            final(self)@ == stop_command_step(old(self)@).0,
            effect_views(final(effects)@) == effect_views(old(effects)@) + stop_command_step(old(self)@).1,
    {
        self.stop(effects);
        self.status("idle", "Captura encerrada.", effects);
        proof {
            assert(effect_views(effects@) =~= effect_views(old(effects)@) + stop_command_step(old(self)@).1);
        }
    }

    /// `SetApiKey` with a key that passed `valid_api_key`.
    pub fn set_credential(&mut self, key: String, now: u64)
        ensures
            final(self)@ == credential_step(old(self)@, key@, now),
    {
        self.key = key;
        self.failures = 0;
        self.retry_at = now;
    }

    /// First half of `SetRegion`: checks the monitor, the capture and the layout; on
    /// success the generation is invalidated and the region is given to the capture
    /// callback, which restarts unpaused. The service then sets the pipeline playing
    /// and, if that works, calls `region_selected` with the returned capture size.
    pub fn select_region(&mut self, frames: &mut SharedFrames, region: Rect, monitor: Monitor, now: u64, effects: &mut Vec<Effect>) -> (r: Result<(u32, u32), String>)
        requires
            has_room(old(self)@, now),
        ensures
            match region_error(old(self)@, old(frames).dimensions, region, monitor) {
                Some(m) => r is Err && r->Err_0@ == m && final(self)@ == old(self)@ && *final(frames) == *old(frames)
                    && final(effects)@ == old(effects)@,
                None => {
                    &&& r == Ok::<(u32, u32), String>(old(frames).dimensions->0)
                    &&& final(self)@ == invalidate_step(old(self)@).0
                    &&& effect_views(final(effects)@) == effect_views(old(effects)@) + invalidate_step(old(self)@).1
                    &&& final(frames).region == Some(region)
                    &&& final(frames).preview is None
                    &&& final(frames).frame is None
                    &&& !final(frames).paused
                    &&& final(frames).last_sample is None
                    &&& final(frames).dimensions == old(frames).dimensions
                    &&& final(frames).error == old(frames).error
                },
            },
    {
        if !monitor.is_plausible() {
            return Err(String::from_str("Monitor inválido."));
        }
        let source = match self.capture_source {
            Some(s) => s,
            None => return Err(String::from_str("Abra a captura primeiro.")),
        };
        if !self.has_capture {
            return Err(String::from_str("Abra a captura primeiro."));
        }
        let dimensions = match frames.dimensions {
            Some(d) => d,
            None => return Err(String::from_str("Aguardando primeiro quadro.")),
        };
        match source.validate_layout(region, dimensions, monitor) {
            Err(e) => return Err(String::from_str(e.message())),
            Ok(()) => {},
        }
        self.invalidate(effects);
        frames.region = Some(region);
        frames.preview = None;
        frames.frame = None;
        frames.set_paused(false);
        Ok(dimensions)
    }

    /// Second half of `SetRegion`, once the capture runs again.
    pub fn region_selected(&mut self, region: Rect, monitor: Monitor, dimensions: (u32, u32), now: u64, effects: &mut Vec<Effect>)
        ensures
            final(self)@ == region_selected_step(old(self)@, region, monitor, dimensions, now).0,
            effect_views(final(effects)@) == effect_views(old(effects)@) + region_selected_step(old(self)@, region, monitor, dimensions, now).1,
    {
        self.snapshot.region = Some(region);
        self.snapshot.monitor = Some(monitor);
        self.snapshot.frame_size = Some(dimensions);
        self.running = true;
        self.failures = 0;
        self.retry_at = now;
        self.status("running", "Observando a área selecionada.", effects);
    }
}


impl EngineCore {
    /// A portal selection finished.
    #[verifier::rlimit(40)]
    pub fn opening_finished(&mut self, outcome: OpeningOutcome, now: u64, effects: &mut Vec<Effect>)
        requires
            has_room(old(self)@, now),
        ensures
            final(self)@ == opening_step(old(self)@, outcome, now).0,
            effect_views(final(effects)@) == effect_views(old(effects)@) + opening_step(old(self)@, outcome, now).1,
    {
        self.opening = false;
        match outcome {
            OpeningOutcome::Opened { position, size } => {
                self.snapshot.portal_position = position;
                self.snapshot.portal_size = size;
                self.has_capture = true;
                self.selection_started = now;
                self.status("selecting", "Marque a região na prévia.", effects);
            },
            OpeningOutcome::Failed(m) => {
                self.stop(effects);
                let message = String::from_str("Captura não iniciada: ").concat(m.as_str());
                self.status("error", message.as_str(), effects);
                proof {
                    assert(effect_views(final(effects)@) =~= effect_views(old(effects)@) + opening_step(old(self)@, outcome, now).1);
                }
            },
            OpeningOutcome::Crashed => {
                self.stop(effects);
                self.status("error", "Captura não iniciada. Tente selecionar novamente.", effects);
                proof {
                    assert(effect_views(final(effects)@) =~= effect_views(old(effects)@) + opening_step(old(self)@, outcome, now).1);
                }
            },
        }
    }

    /// The capture pipeline or the portal reported `error`.
    pub fn capture_failed(&mut self, error: &str, now: u64, effects: &mut Vec<Effect>)
        requires
            has_room(old(self)@, now),
        ensures
            final(self)@ == capture_failed_step(old(self)@, error@).0,
            effect_views(final(effects)@) == effect_views(old(effects)@) + capture_failed_step(old(self)@, error@).1,
    {
        self.stop(effects);
        self.status("error", error, effects);
        proof {
            assert(effect_views(final(effects)@) =~= effect_views(old(effects)@) + capture_failed_step(old(self)@, error@).1);
        }
    }

    /// Ends a selection that has been left open too long; returns whether it did.
    pub fn expire_selection(&mut self, now: u64, effects: &mut Vec<Effect>) -> (expired: bool)
        requires
            has_room(old(self)@, now),
        ensures
            expired == selection_expired(old(self)@, now),
            final(self)@ == expire_step(old(self)@, now).0,
            effect_views(final(effects)@) == effect_views(old(effects)@) + expire_step(old(self)@, now).1,
    {
        let selecting = self.snapshot.state == String::from_str("selecting");
        if self.has_capture && !self.running && selecting && now.saturating_sub(self.selection_started) > SELECTION_TIMEOUT {
            self.stop(effects);
            self.status("idle", "Seleção expirou. Selecione a área novamente.", effects);
            proof {
                assert(effect_views(final(effects)@) =~= effect_views(old(effects)@) + expire_step(old(self)@, now).1);
            }
            true
        } else {
            proof {
                assert(effect_views(old(effects)@) =~= effect_views(old(effects)@) + Seq::<EffectView>::empty());
            }
            false
        }
    }

    /// While running, takes the crop retained by the capture callback.
    pub fn take_frame(&mut self, frames: &mut SharedFrames, now: u64)
        requires
            has_room(old(self)@, now),
            old(frames).frame matches Some(f) ==> f.wf(),
        ensures
            final(self)@ == frame_step(old(self)@, if old(self).running { old(frames).frame } else { None }, now),
            final(frames).frame == if old(self).running { None } else { old(frames).frame },
            final(frames).region == old(frames).region,
            final(frames).preview == old(frames).preview,
            final(frames).dimensions == old(frames).dimensions,
            final(frames).error == old(frames).error,
            final(frames).paused == old(frames).paused,
            final(frames).last_sample == old(frames).last_sample,
    {
        if !self.running {
            return;
        }
        let taken = frames.frame.take();
        if let Some(frame) = taken {
            self.last_frame_at = Some(frame.captured);
            self.snapshot.captured_frames = self.snapshot.captured_frames + 1;
            let fingerprint = frame.fingerprint();
            if changed(self.fingerprint.as_slice(), fingerprint.as_slice()) {
                self.fingerprint = fingerprint;
                self.sequence = self.sequence + 1;
                self.last_image_change = now;
                self.dirty = true;
                self.latest = Some(frame);
            }
        }
    }

    /// The first part of a scan tick: reports a capture error, expires a forgotten
    /// selection and, while running, takes the retained crop. Returns whether the tick
    /// goes on to reading and translating.
    pub fn scan(&mut self, frames: &mut SharedFrames, capture_error: Option<String>, now: u64, effects: &mut Vec<Effect>) -> (go_on: bool)
        requires
            has_room(old(self)@, now),
        ensures
            ({
                let error = match capture_error {
                    Some(e) => Some(e@),
                    None => None,
                };
                &&& final(self)@ == scan_step(old(self)@, error, old(frames).frame, now).0
                &&& effect_views(final(effects)@) == effect_views(old(effects)@) + scan_step(old(self)@, error, old(frames).frame, now).1
                &&& go_on == scan_step(old(self)@, error, old(frames).frame, now).2
            }),
            final(frames).frame == if go_on { None } else { old(frames).frame },
            final(frames).region == old(frames).region,
            final(frames).preview == old(frames).preview,
            final(frames).dimensions == old(frames).dimensions,
            final(frames).error == old(frames).error,
            final(frames).paused == old(frames).paused,
            final(frames).last_sample == old(frames).last_sample,
    {
        if let Some(error) = capture_error {
            self.capture_failed(error.as_str(), now, effects);
            return false;
        }
        self.expire_selection(now, effects);
        if !self.running {
            return false;
        }
        let complete = match &frames.frame {
            Some(f) => f.is_complete(),
            None => true,
        };
        if !complete {
            frames.frame = None;
        }
        self.take_frame(frames, now);
        true
    }

    /// Chooses the next image for the OCR worker, if one should be read now.
    pub fn next_ocr_job(&mut self, now: u64) -> (job: Option<OcrJob>)
        ensures
            final(self)@ == next_job_step(old(self)@, now).0,
            match job {
                Some(j) => next_job_step(old(self)@, now).1 == Some(j.frame) && j.generation == old(self).generation
                    && j.sequence == old(self).sequence && j.key@ == old(self).key@,
                None => next_job_step(old(self)@, now).1 is None,
            },
    {
        if !self.dirty && !self.ocr_busy && self.gate.needs_confirmation(now) {
            let has_text = !self.gate.text().as_str().is_empty() || !self.snapshot.translation.as_str().is_empty();
            if has_text && self.confirmation_frame.is_some() {
                self.latest = self.confirmation_frame.take();
                self.dirty = true;
            }
        }
        let interval_passed = match self.last_ocr {
            Some(t) => now.saturating_sub(t) >= OCR_INTERVAL,
            None => true,
        };
        if self.dirty && !self.ocr_busy && interval_passed {
            if let Some(frame) = self.latest.take() {
                return Some(OcrJob { generation: self.generation, sequence: self.sequence, key: self.key.clone(), frame });
            }
        }
        None
    }

    /// What became of the image handed to the OCR worker. After `Closed` the tick ends.
    pub fn ocr_dispatched(&mut self, outcome: DispatchOutcome, now: u64, effects: &mut Vec<Effect>)
        requires
            has_room(old(self)@, now),
        ensures
            final(self)@ == dispatched_step(old(self)@, outcome, now).0,
            effect_views(final(effects)@) == effect_views(old(effects)@) + dispatched_step(old(self)@, outcome, now).1,
    {
        match outcome {
            DispatchOutcome::Sent => {
                self.ocr_busy = true;
                self.last_ocr = Some(now);
                self.dirty = false;
                proof {
                    assert(effect_views(old(effects)@) =~= effect_views(old(effects)@) + Seq::<EffectView>::empty());
                }
            },
            DispatchOutcome::Full(frame) => {
                self.latest = Some(frame);
                proof {
                    assert(effect_views(old(effects)@) =~= effect_views(old(effects)@) + Seq::<EffectView>::empty());
                }
            },
            DispatchOutcome::Closed => {
                self.stop(effects);
                self.status("error", "Trabalhador de OCR indisponível.", effects);
                proof {
                    assert(effect_views(final(effects)@) =~= effect_views(old(effects)@) + dispatched_step(old(self)@, outcome, now).1);
                }
            },
        }
    }
}


impl EngineCore {
    /// Shows or requests the translation of the confirmed phrase when nothing else is
    /// in the way (see `translate_ready_step`).
    pub fn translate_ready(&mut self, now: u64, effects: &mut Vec<Effect>)
        requires
            translation_room(old(self)@),
        ensures
            final(self)@ == translate_ready_step(old(self)@, now).0,
            effect_views(final(effects)@) == effect_views(old(effects)@) + translate_ready_step(old(self)@, now).1,
    {
        let revision = self.gate.revision();
        let shown_now = match self.shown {
            Some(r) => r == revision,
            None => false,
        };
        if !self.running || shown_now || self.translating || self.dirty || self.ocr_busy || !self.gate.ready() {
            proof {
                assert(effect_views(old(effects)@) =~= effect_views(old(effects)@) + Seq::<EffectView>::empty());
            }
            return;
        }
        let source = self.gate.text().clone();
        if source.as_str().is_empty() {
            self.shown = Some(revision);
            self.show(String::new(), effects);
            return;
        }
        let cached = cache_get(&mut self.cache, &source);
        if let Some(text) = cached {
            self.snapshot.cache_hits = self.snapshot.cache_hits + 1;
            self.shown = Some(revision);
            self.show(text, effects);
            return;
        }
        let ghost e0 = effect_views(effects@);
        if !self.snapshot.translation.as_str().is_empty() {
            self.show(String::new(), effects);
        }
        let ghost e1 = effect_views(effects@);
        if now < self.retry_at {
            return;
        }
        let count = count_chars_upto(source.as_str(), MAX_TRANSLATION_CHARS + 1);
        if count > MAX_TRANSLATION_CHARS {
            self.running = false;
            if self.has_capture {
                push_effect(effects, Effect::PauseCapture(true));
            }
            self.status("blocked", "Texto muito longo. Selecione uma área menor.", effects);
            proof {
                assert(effect_views(final(effects)@) =~= effect_views(old(effects)@) + translate_ready_step(old(self)@, now).1);
            }
            return;
        }
        self.snapshot.api_count = self.snapshot.api_count + 1;
        self.snapshot.api_pending = true;
        self.snapshot.characters_sent = self.snapshot.characters_sent + count as u64;
        self.translating = true;
        let e = Effect::Translate { generation: self.generation, revision, key: self.key.clone(), source };
        push_effect(effects, e);
        proof {
            assert(effect_views(final(effects)@) =~= effect_views(old(effects)@) + translate_ready_step(old(self)@, now).1);
        }
    }
}


impl EngineCore {
    /// An OCR reading came back from the worker.
    pub fn ocr_result(&mut self, reading: OcrReading, now: u64, effects: &mut Vec<Effect>)
        requires
            has_room(old(self)@, now),
        ensures
            final(self)@ == ocr_result_step(old(self)@, reading, now).0,
            effect_views(final(effects)@) == effect_views(old(effects)@) + ocr_result_step(old(self)@, reading, now).1,
    {
        self.ocr_busy = false;
        if reading.generation != self.generation || !self.running {
            proof {
                assert(effect_views(old(effects)@) =~= effect_views(old(effects)@) + Seq::<EffectView>::empty());
            }
            return;
        }
        let sequence = reading.sequence;
        let captured = reading.captured;
        self.confirmation_frame = reading.frame;
        match reading.result {
            Ok(output) => {
                self.snapshot.ocr_count = self.snapshot.ocr_count + 1;
                self.snapshot.ocr_ms = output.elapsed_ms;
                self.snapshot.ocr_text = output.text.clone();
                self.snapshot.ocr_confidence = None;
                let ghost c = self@;
                let confirmed_now = self.gate.observe(output.text.as_str(), now);
                if confirmed_now {
                    self.text_captured = captured;
                    self.shown = None;
                    if self.translating {
                        push_effect(effects, Effect::AbortTranslation);
                        self.translating = false;
                        self.snapshot.api_pending = false;
                    }
                }
                let ghost e1 = effect_views(effects@);
                proof {
                    if confirmed_now && c.translating {
                        assert(e1 =~= effect_views(old(effects)@) + seq![EffectView::AbortTranslation]);
                    } else {
                        assert(e1 =~= effect_views(old(effects)@) + Seq::<EffectView>::empty());
                    }
                }
                if sequence == self.sequence {
                    self.dirty = false;
                }
                self.translate_ready(now, effects);
                proof {
                    assert(effect_views(final(effects)@) =~= effect_views(old(effects)@) + ocr_result_step(old(self)@, reading, now).1);
                }
            },
            Err(error) => {
                self.stop(effects);
                self.status("error", error.message(), effects);
                proof {
                    assert(effect_views(final(effects)@) =~= effect_views(old(effects)@) + ocr_result_step(old(self)@, reading, now).1);
                }
            },
        }
    }

    /// A translation request finished; `None` when its task failed.
    pub fn finish_translation(&mut self, reply: Option<TranslationReply>, now: u64, effects: &mut Vec<Effect>)
        requires
            has_room(old(self)@, now),
        ensures
            final(self)@ == finish_step(old(self)@, reply, now).0,
            effect_views(final(effects)@) == effect_views(old(effects)@) + finish_step(old(self)@, reply, now).1,
    {
        self.snapshot.api_pending = false;
        self.translating = false;
        let r = match reply {
            None => {
                proof {
                    assert(effect_views(old(effects)@) =~= effect_views(old(effects)@) + Seq::<EffectView>::empty());
                }
                return;
            },
            Some(r) => r,
        };
        if !is_current(self.generation, self.gate.revision(), r.generation, r.revision) {
            proof {
                assert(effect_views(old(effects)@) =~= effect_views(old(effects)@) + Seq::<EffectView>::empty());
            }
            return;
        }
        self.snapshot.api_ms = r.elapsed;
        match r.result {
            Ok(text) => self.finish_ok(r.source, text, now, effects),
            Err(error) => self.finish_err(error, now, effects),
        }
    }

    fn finish_ok(&mut self, source: String, text: String, now: u64, effects: &mut Vec<Effect>)
        requires
            old(self)@.snapshot.api_successes < u64::MAX,
        ensures
            final(self)@ == finish_ok_step(old(self)@, source@, text@, now).0,
            effect_views(final(effects)@) == effect_views(old(effects)@) + finish_ok_step(old(self)@, source@, text@, now).1,
    {
        self.snapshot.api_successes = self.snapshot.api_successes + 1;
        let ghost src = source@;
        cache_put(&mut self.cache, source, text.clone());
        self.failures = 0;
        self.retry_at = now;
        self.snapshot.latency_ms = now.saturating_sub(self.text_captured);
        let ghost e0 = effect_views(effects@);
        if !self.dirty && !self.ocr_busy {
            self.shown = Some(self.gate.revision());
            self.show(text, effects);
        }
        self.status("running", "Observando a área selecionada.", effects);
        proof {
            assert(effect_views(final(effects)@) =~= effect_views(old(effects)@) + finish_ok_step(old(self)@, src, text@, now).1);
        }
    }

    fn finish_err(&mut self, error: TranslationError, now: u64, effects: &mut Vec<Effect>)
        requires
            now <= u64::MAX - 64_000,
        ensures
            final(self)@ == finish_err_step(old(self)@, error, now).0,
            effect_views(final(effects)@) == effect_views(old(effects)@) + finish_err_step(old(self)@, error, now).1,
    {
        if error.suspends() {
            self.running = false;
            if self.has_capture {
                push_effect(effects, Effect::PauseCapture(true));
            }
            self.show(String::new(), effects);
            self.status("blocked", error.message(), effects);
        } else {
            self.failures = if self.failures < 5 { self.failures + 1 } else { 5 };
            let wait: u64 = if self.failures <= 1 {
                2000
            } else if self.failures == 2 {
                4000
            } else if self.failures == 3 {
                8000
            } else if self.failures == 4 {
                16000
            } else {
                32000
            };
            self.retry_at = now + wait;
            self.status("retrying", error.message(), effects);
        }
        proof {
            assert(effect_views(final(effects)@) =~= effect_views(old(effects)@) + finish_err_step(old(self)@, error, now).1);
        }
    }
}


impl EngineCore {
    /// `Refresh` (see `refresh_step`).
    pub fn refresh(&mut self) -> (r: Result<(), String>)
        ensures
            final(self)@ == refresh_step(old(self)@).0,
            reply_view(r) == refresh_step(old(self)@).1,
    {
        if !self.running {
            return Err(String::from_str("Selecione uma área."));
        }
        if self.latest.is_none() && self.confirmation_frame.is_some() {
            self.latest = self.confirmation_frame.take();
            self.dirty = true;
        } else if self.latest.is_some() {
            self.dirty = true;
        }
        Ok(())
    }
}

} // verus!
