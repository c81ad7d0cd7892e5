use vstd::prelude::*;
use crate::model::{CaptureSource, Monitor, Rect};

verus! {

/// The state published on D-Bus (`GetStatus`, `StatusChanged`), without any credential.
pub struct Snapshot {
    pub state: String,
    pub message: String,
    pub generation: u64,
    pub revision: u64,
    pub translation: String,
    pub region: Option<Rect>,
    pub monitor: Option<Monitor>,
    pub frame_size: Option<(u32, u32)>,
    pub portal_position: Option<(i32, i32)>,
    pub portal_size: Option<(i32, i32)>,
    pub source_type: Option<CaptureSource>,
    pub ocr_count: u64,
    pub api_count: u64,
    pub cache_hits: u64,
    pub characters_sent: u64,
    pub ocr_ms: u64,
    pub api_ms: u64,
    pub latency_ms: u64,
    pub captured_frames: u64,
    pub last_frame_age_ms: Option<u64>,
    pub ocr_text: String,
    pub ocr_confidence: Option<i32>,
    pub ocr_confirmations: u32,
    pub api_successes: u64,
    pub api_pending: bool,
}

impl Default for Snapshot {
    fn default() -> (s: Snapshot)
        ensures
            s.state@ == "idle"@,
            s.message@ == "Selecione uma área para começar."@,
            s.generation == 0,
            s.revision == 0,
            s.translation@ == Seq::<char>::empty(),
            s.region is None,
            s.monitor is None,
            s.frame_size is None,
            s.portal_position is None,
            s.portal_size is None,
            s.source_type is None,
            s.ocr_count == 0,
            s.api_count == 0,
            s.cache_hits == 0,
            s.characters_sent == 0,
            s.ocr_ms == 0,
            s.api_ms == 0,
            s.latency_ms == 0,
            s.captured_frames == 0,
            s.last_frame_age_ms is None,
            s.ocr_text@ == Seq::<char>::empty(),
            s.ocr_confidence is None,
            s.ocr_confirmations == 0,
            s.api_successes == 0,
            !s.api_pending,
    {
        Snapshot {
            state: String::from_str("idle"),
            message: String::from_str("Selecione uma área para começar."),
            generation: 0,
            revision: 0,
            translation: String::new(),
            region: None,
            monitor: None,
            frame_size: None,
            portal_position: None,
            portal_size: None,
            source_type: None,
            ocr_count: 0,
            api_count: 0,
            cache_hits: 0,
            characters_sent: 0,
            ocr_ms: 0,
            api_ms: 0,
            latency_ms: 0,
            captured_frames: 0,
            last_frame_age_ms: None,
            ocr_text: String::new(),
            ocr_confidence: None,
            ocr_confirmations: 0,
            api_successes: 0,
            api_pending: false,
        }
    }
}

impl Snapshot {
    /// A copy of the snapshot, field by field.
    pub fn copy(&self) -> (s: Snapshot)
        ensures
            s == *self,
    {
        Snapshot {
            state: self.state.clone(),
            message: self.message.clone(),
            generation: self.generation,
            revision: self.revision,
            translation: self.translation.clone(),
            region: self.region,
            monitor: self.monitor,
            frame_size: self.frame_size,
            portal_position: self.portal_position,
            portal_size: self.portal_size,
            source_type: self.source_type,
            ocr_count: self.ocr_count,
            api_count: self.api_count,
            cache_hits: self.cache_hits,
            characters_sent: self.characters_sent,
            ocr_ms: self.ocr_ms,
            api_ms: self.api_ms,
            latency_ms: self.latency_ms,
            captured_frames: self.captured_frames,
            last_frame_age_ms: self.last_frame_age_ms,
            ocr_text: self.ocr_text.clone(),
            ocr_confidence: self.ocr_confidence,
            ocr_confirmations: self.ocr_confirmations,
            api_successes: self.api_successes,
            api_pending: self.api_pending,
        }
    }
}

/// An API key is 10 to 256 bytes of ASCII letters, digits, `-` and `_`.
pub open spec fn acceptable_key(key: Seq<char>) -> bool {
    10 <= key.len() <= 256 && forall|i: int|
        0 <= i < key.len() ==> {
            let c = #[trigger] key[i];
            ('a' <= c && c <= 'z') || ('A' <= c && c <= 'Z') || ('0' <= c && c <= '9') || c == '-' || c == '_'
        }
}

/// Whether `key` has the shape of a Google API key; other input is refused before
/// it reaches the engine.
pub fn valid_api_key(key: &str) -> (b: bool)
    ensures
        b == acceptable_key(key@),
{
    let mut ok = true;
    let mut count: usize = 0;
    for c in it: key.chars()
        invariant
            it.seq() == key@,
            count == if it.index() < 257 { it.index() } else { 257 },
            ok == forall|i: int|
                0 <= i < it.index() ==> {
                    let d = #[trigger] key@[i];
                    ('a' <= d && d <= 'z') || ('A' <= d && d <= 'Z') || ('0' <= d && d <= '9') || d == '-' || d == '_'
                },
    {
        assert(c == key@[it.index()]);
        if !(('a' <= c && c <= 'z') || ('A' <= c && c <= 'Z') || ('0' <= c && c <= '9') || c == '-' || c == '_') {
            ok = false;
        }
        if count < 257 {
            count = count + 1;
        }
    }
    // All accepted characters are ASCII, so counting characters counts bytes.
    ok && 10 <= count && count <= 256
}

} // verus!
