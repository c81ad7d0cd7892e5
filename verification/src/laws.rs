use vstd::prelude::*;
use crate::engine::{EffectView, EngineView, OcrReading, SnapshotView, TranslationReply, backoff_ms, begin_step, cached_pair, finish_err_step, finish_step, invalidate_step, next_job_step, ocr_result_step, pause_step, put_into, region_selected_step, resume_step, stop_command_step, stop_step, translate_ready_step};
use crate::model::{CaptureSource, GateView, LayoutError, Monitor, Rect, SUBTITLE_ROOM, PendingText, confirmed, elapsed, needs_reading, observe_next, EMPTY_INTERVAL, OCR_INTERVAL, STABLE_INTERVAL, TEXT_CONFIRMATIONS};
use crate::cache::touched;
use crate::text::normalized;
use crate::translate::MAX_TRANSLATION_CHARS;

verus! {

/// A phrase is confirmed only by the third of three agreeing readings: the reading
/// that confirms it repeats a pending candidate with the same normalized text that
/// already had two readings, the first at least one second earlier (one and a half
/// for an empty reading).
pub proof fn law_confirmation_needs_three_agreeing_readings(g: GateView, input: Seq<char>, now: u64)
    ensures
        observe_next(g, input, now).1 ==> (g.pending matches Some(c) && c.text == normalized(input)
            && c.confirmations + 1 >= TEXT_CONFIRMATIONS
            && elapsed(now, c.since) >= if c.text.len() == 0 { EMPTY_INTERVAL } else { STABLE_INTERVAL }),
{
}

/// Where `g` ends up once it has observed every (text, time) pair of `readings`, in order.
pub open spec fn run_gate(g: GateView, readings: Seq<(Seq<char>, u64)>) -> GateView
    decreases readings.len(),
{
    if readings.len() == 0 {
        g
    } else {
        observe_next(run_gate(g, readings.drop_last()), readings.last().0, readings.last().1).0
    }
}

/// How many of the latest readings, counted back from the last one, normalize to `t`.
pub open spec fn streak(readings: Seq<(Seq<char>, u64)>, t: Seq<char>) -> nat
    decreases readings.len(),
{
    if readings.len() > 0 && normalized(readings.last().0) == t {
        streak(readings.drop_last(), t) + 1
    } else {
        0
    }
}

/// The wait that confirms a text: one and a half seconds for an empty text, one
/// second otherwise.
pub open spec fn confirmation_wait(t: Seq<char>) -> int {
    if t.len() == 0 { EMPTY_INTERVAL as int } else { STABLE_INTERVAL as int }
}

proof fn lemma_streak_bound(readings: Seq<(Seq<char>, u64)>, t: Seq<char>)
    ensures
        streak(readings, t) <= readings.len(),
    decreases readings.len(),
{
    if readings.len() > 0 {
        lemma_streak_bound(readings.drop_last(), t);
    }
}

/// `g` waits for more readings of `t` before confirming it.
pub open spec fn holds_candidate(g: GateView, t: Seq<char>) -> bool {
    g.pending matches Some(p) && p.text == t
}

/// How many earlier readings of `t` the starting gate's candidate stands for: its count
/// when it is a candidate for `t` and every later reading is of `t` too, else none.
pub open spec fn carried(g: GateView, readings: Seq<(Seq<char>, u64)>, t: Seq<char>) -> nat {
    if streak(readings, t) == readings.len() && holds_candidate(g, t) {
        g.pending->0.confirmations as nat
    } else {
        0
    }
}

/// When the current run of readings of `t` began: the start of the starting gate's
/// candidate when the run goes back to it, else the time of the first reading of the
/// run, or `now` when there is none.
pub open spec fn run_start(g: GateView, readings: Seq<(Seq<char>, u64)>, t: Seq<char>, now: u64) -> u64 {
    if streak(readings, t) == readings.len() && holds_candidate(g, t) {
        g.pending->0.since
    } else if streak(readings, t) > 0 {
        readings[readings.len() - streak(readings, t)].1
    } else {
        now
    }
}

/// What a candidate tells of the OCR results so far: its text is that of the last
/// result (or the starting candidate's, with no result), its count the number of last
/// results with that text plus those the starting candidate carried (saturated), and
/// its start the time when that run began; with no candidate after some result, the
/// last result repeated or confirmed the confirmed text.
proof fn lemma_candidate_tracks_readings(g: GateView, readings: Seq<(Seq<char>, u64)>)
    requires
        g.revision + readings.len() < u64::MAX,
    ensures
        ({
            let h = run_gate(g, readings);
            &&& h.revision <= g.revision + readings.len()
            &&& h.pending matches Some(c) ==> {
                &&& readings.len() > 0 ==> c.text == normalized(readings.last().0)
                    && !(h.revision > 0 && c.text == h.text)
                &&& readings.len() == 0 ==> h.pending == g.pending
                &&& c.confirmations as int == if carried(g, readings, c.text) + streak(readings, c.text) < u32::MAX {
                        (carried(g, readings, c.text) + streak(readings, c.text)) as int
                    } else {
                        u32::MAX as int
                    }
                &&& c.since == run_start(g, readings, c.text, 0)
            }
            &&& (h.pending is None && readings.len() > 0) ==> h.revision > 0 && h.text == normalized(readings.last().0)
            &&& (h.pending is None && readings.len() == 0) ==> g.pending is None
        }),
    decreases readings.len(),
{
    if readings.len() > 0 {
        let rest = readings.drop_last();
        let n = normalized(readings.last().0);
        lemma_candidate_tracks_readings(g, rest);
        lemma_streak_bound(rest, n);
        lemma_streak_bound(readings, n);
        let h0 = run_gate(g, rest);
        if let Some(c0) = h0.pending {
            if c0.text == n && !(h0.revision > 0 && n == h0.text) {
                if rest.len() > 0 {
                    assert(streak(rest, n) >= 1);
                }
                if streak(rest, n) > 0 {
                    assert(readings[readings.len() - streak(readings, n)] == rest[rest.len() - streak(rest, n)]);
                }
            }
        }
    }
}

/// A reading confirms a phrase exactly when it is not the confirmed text read again,
/// at least three consecutive readings of its normalized text end with it, and the
/// first of them lies at least one second (one and a half for an empty text) before
/// it. `g` may be in any state: a pending `t` in it counts as the readings of `t`
/// it has already seen, the first at its start time.
pub proof fn law_confirmation_over_readings(g: GateView, readings: Seq<(Seq<char>, u64)>, input: Seq<char>, now: u64)
    requires
        g.revision + readings.len() < u64::MAX,
    ensures
        ({
            let h = run_gate(g, readings);
            let t = normalized(input);
            let k = carried(g, readings, t) + streak(readings, t) + 1;
            observe_next(h, input, now).1 <==> (!(h.revision > 0 && t == h.text) && k >= TEXT_CONFIRMATIONS
                && elapsed(now, run_start(g, readings, t, now)) >= confirmation_wait(t))
        }),
{
    lemma_candidate_tracks_readings(g, readings);
    lemma_streak_bound(readings, normalized(input));
}

/// A pending candidate asks to be read again once it was last read long enough ago;
/// a new gate and a gate that has just confirmed a phrase ask nothing, and after a
/// reading that leaves a candidate, that candidate was last read at that reading.
pub proof fn law_reading_again_needs_a_candidate(g: GateView, input: Seq<char>, now: u64, later: u64)
    ensures
        !needs_reading(GateView { text: Seq::empty(), revision: 0, pending: None }, later),
        observe_next(g, input, now).1 ==> !needs_reading(observe_next(g, input, now).0, later),
        observe_next(g, input, now).0.pending matches Some(c) ==> c.last_read == now
            && (needs_reading(observe_next(g, input, now).0, later) <==> elapsed(later, now) >= if c.text.len() == 0 { EMPTY_INTERVAL / 2 } else { OCR_INTERVAL }),
{
}

/// Reading the confirmed phrase again, however its whitespace differs, never changes
/// the confirmed text or its revision, and drops any pending candidate.
pub proof fn law_same_text_keeps_revision(g: GateView, input: Seq<char>, now: u64)
    requires
        g.revision > 0,
        normalized(input) == g.text,
    ensures
        observe_next(g, input, now).0.text == g.text,
        observe_next(g, input, now).0.revision == g.revision,
        observe_next(g, input, now).0.pending is None,
        !observe_next(g, input, now).1,
{
}

/// A reading confirms a phrase exactly when the revision grows, and then by one; the
/// confirmed text is always in normalized form.
pub proof fn law_revision_counts_confirmations(g: GateView, input: Seq<char>, now: u64)
    requires
        g.revision < u64::MAX,
    ensures
        observe_next(g, input, now).1 ==> observe_next(g, input, now).0.revision == g.revision + 1
            && observe_next(g, input, now).0.text == normalized(input),
        !observe_next(g, input, now).1 ==> observe_next(g, input, now).0.revision == g.revision
            && observe_next(g, input, now).0.text == g.text,
{
}

/// A translation reply of another generation or revision changes nothing but the
/// "request pending" flags: no subtitle, cache entry, status or failure count.
pub proof fn law_stale_translation_is_dropped(v: EngineView, reply: TranslationReply, now: u64)
    requires
        !(reply.generation == v.generation && reply.revision == v.gate.revision),
    ensures
        finish_step(v, Some(reply), now).0 == (EngineView {
            snapshot: SnapshotView { api_pending: false, ..v.snapshot },
            translating: false,
            ..v
        }),
        finish_step(v, Some(reply), now).1.len() == 0,
        cached_pair(v, Some(reply)) is None,
{
}

/// An OCR reading of an older generation, or one that arrives while not running,
/// only frees the OCR worker.
pub proof fn law_stale_reading_is_dropped(v: EngineView, reading: OcrReading, now: u64)
    requires
        reading.generation != v.generation || !v.running,
    ensures
        ocr_result_step(v, reading, now).0 == (EngineView { ocr_busy: false, ..v }),
        ocr_result_step(v, reading, now).1.len() == 0,
{
}

/// Pause invalidates the generation, stops running, cancels the translation in
/// flight and clears the subtitle.
pub proof fn law_pause_invalidates(v: EngineView)
    requires
        v.generation < u64::MAX,
    ensures
        pause_step(v).0.generation == v.generation + 1,
        !pause_step(v).0.running,
        !pause_step(v).0.translating,
        pause_step(v).0.snapshot.translation.len() == 0,
        v.translating ==> pause_step(v).1[0] == EffectView::AbortTranslation,
{
}

/// Stop invalidates the generation, closes the capture, clears the subtitle and the
/// capture geometry, and goes idle.
pub proof fn law_stop_invalidates(v: EngineView)
    requires
        v.generation < u64::MAX,
    ensures
        stop_command_step(v).0.generation == v.generation + 1,
        !stop_command_step(v).0.running,
        !stop_command_step(v).0.translating,
        !stop_command_step(v).0.has_capture,
        stop_command_step(v).0.snapshot.translation.len() == 0,
        stop_command_step(v).0.snapshot.region is None,
        stop_command_step(v).0.snapshot.state == "idle"@,
        stop_command_step(v).1.contains(EffectView::CloseCapture),
{
    let (a, e1) = stop_step(v);
    assert(e1 + seq![] == e1);
    let i = if v.translating { 1int } else { 0int };
    assert(stop_step(v).1[i] == EffectView::CloseCapture);
    assert(stop_command_step(v).1[i] == EffectView::CloseCapture);
}

/// Stopping twice leaves the same state as stopping once, but for the generation:
/// `Stop` is idempotent.
pub proof fn law_stop_is_idempotent(v: EngineView)
    ensures
        ({
            let once = stop_command_step(v).0;
            let twice = stop_command_step(once).0;
            twice == EngineView { generation: (once.generation + 1) as u64, snapshot: SnapshotView { generation: (once.generation + 1) as u64, ..once.snapshot }, ..once }
        }),
{
}

/// Selecting a region invalidates the generation; the new generation runs only once
/// the region has been accepted.
pub proof fn law_region_change_invalidates(v: EngineView, region: crate::model::Rect, monitor: crate::model::Monitor, dimensions: (u32, u32), now: u64)
    requires
        v.generation < u64::MAX,
    ensures
        invalidate_step(v).0.generation == v.generation + 1,
        !invalidate_step(v).0.translating,
        invalidate_step(v).0.gate.revision == 0,
        region_selected_step(invalidate_step(v).0, region, monitor, dimensions, now).0.running,
        region_selected_step(invalidate_step(v).0, region, monitor, dimensions, now).0.snapshot.region == Some(region),
{
}

/// At most one translation is in flight: a request is only made when none is, and
/// the engine then records one.
pub proof fn law_one_translation_in_flight(v: EngineView, now: u64)
    ensures
        translate_ready_step(v, now).1.len() > 0 && translate_ready_step(v, now).1.last() is Translate
            ==> !v.translating && translate_ready_step(v, now).0.translating,
{
}

/// A request carries the confirmed phrase, never an empty one nor one longer than
/// 4000 characters, and never one whose translation is cached.
pub proof fn law_requests_are_bounded(v: EngineView, now: u64)
    ensures
        translate_ready_step(v, now).1.len() > 0 && translate_ready_step(v, now).1.last() is Translate ==> {
            let e = translate_ready_step(v, now).1.last();
            &&& e->Translate_source == v.gate.text
            &&& e->Translate_generation == v.generation
            &&& e->Translate_revision == v.gate.revision
            &&& 0 < v.gate.text.len() <= MAX_TRANSLATION_CHARS
            &&& !v.cache.contains_key(v.gate.text)
        },
{
}

/// A cached phrase is shown from the cache, with no request.
pub proof fn law_cached_phrase_needs_no_request(v: EngineView, now: u64)
    requires
        v.running,
        v.shown != Some(v.gate.revision),
        !v.translating,
        !v.dirty,
        !v.ocr_busy,
        v.gate.revision > 0,
        v.gate.pending is None,
        v.gate.text.len() > 0,
        v.cache.contains_key(v.gate.text),
    ensures
        translate_ready_step(v, now).1 == seq![EffectView::TranslationChanged {
            generation: v.generation,
            revision: v.gate.revision,
            text: v.cache[v.gate.text],
        }],
        translate_ready_step(v, now).0.snapshot.translation == v.cache[v.gate.text],
        !translate_ready_step(v, now).0.translating,
{
}

/// A confirmed empty reading clears the subtitle and makes no request.
pub proof fn law_empty_text_is_not_translated(v: EngineView, now: u64)
    requires
        v.gate.text.len() == 0,
    ensures
        forall|i: int| 0 <= i < translate_ready_step(v, now).1.len() ==> !(#[trigger] translate_ready_step(v, now).1[i] is Translate),
        !translate_ready_step(v, now).0.translating || v.translating,
{
}

/// A current translation is cached under its exact source text, which becomes the
/// most recently used one.
pub proof fn law_translation_is_cached_under_its_source(before: Map<Seq<char>, Seq<char>>, order: Seq<Seq<char>>, capacity: nat, source: Seq<char>, text: Seq<char>)
    ensures
        put_into(before, order, capacity, source, text).0.contains_key(source),
        put_into(before, order, capacity, source, text).0[source] == text,
        put_into(before, order, capacity, source, text).1.last() == source,
{
}

/// A full cache makes room for a new source text by evicting its least recently used
/// pair, and only that one; a cache with room, or an update of a cached text, evicts
/// nothing.
pub proof fn law_full_cache_evicts_least_recently_used(before: Map<Seq<char>, Seq<char>>, order: Seq<Seq<char>>, capacity: nat, source: Seq<char>, text: Seq<char>)
    ensures
        ({
            let after = put_into(before, order, capacity, source, text).0;
            &&& (!before.contains_key(source) && before.len() >= capacity && order[0] != source)
                ==> !after.contains_key(order[0])
                    && forall|k: Seq<char>| #[trigger] before.contains_key(k) && k != order[0] ==> after.contains_key(k) && after[k] == before[k]
            &&& (before.contains_key(source) || before.len() < capacity)
                ==> forall|k: Seq<char>| #[trigger] before.contains_key(k) && k != source ==> after.contains_key(k) && after[k] == before[k]
        }),
{
}

/// Showing a cached translation makes its source text the most recently used one.
pub proof fn law_cache_hit_refreshes_its_entry(v: EngineView, now: u64)
    requires
        v.running,
        v.shown != Some(v.gate.revision),
        !v.translating,
        !v.dirty,
        !v.ocr_busy,
        v.gate.revision > 0,
        v.gate.pending is None,
        v.gate.text.len() > 0,
        v.cache.contains_key(v.gate.text),
    ensures
        translate_ready_step(v, now).0.cache_order == touched(v.cache_order, v.gate.text),
        translate_ready_step(v, now).0.cache_order.last() == v.gate.text,
        translate_ready_step(v, now).0.cache == v.cache,
{
}

/// Credential and quota failures stop translation until a manual resume; other
/// failures wait 2^failures seconds (at most 32) before the next request.
pub proof fn law_failures_block_or_back_off(v: EngineView, e: crate::translate::TranslationError, now: u64)
    requires
        now <= u64::MAX - 64_000,
    ensures
        e.spec_suspends() ==> !finish_err_step(v, e, now).0.running && finish_err_step(v, e, now).0.snapshot.state == "blocked"@,
        !e.spec_suspends() ==> {
            let f = finish_err_step(v, e, now).0.failures;
            &&& 1 <= f <= 5
            &&& f == if v.failures < 5 { v.failures + 1 } else { 5 }
            &&& finish_err_step(v, e, now).0.retry_at == now + backoff_ms(f)
            &&& finish_err_step(v, e, now).0.running == v.running
        },
{
}

/// Without a credential nothing is opened and nothing changes.
pub proof fn law_begin_needs_credential(v: EngineView, source: crate::model::CaptureSource, now: u64)
    requires
        v.key.len() == 0,
    ensures
        begin_step(v, source, now).0 == v,
        begin_step(v, source, now).1.len() == 0,
        begin_step(v, source, now).2 is Err,
{
}

/// A still image is read again to confirm a pending reading: when nothing new waits to
/// be read, OCR is idle, the pending reading was last read long enough ago (half a
/// second, or three quarters for an empty reading), there is confirmed text or a shown
/// subtitle, an image is retained from the last reading and the OCR interval since the
/// last dispatch has passed, the next OCR job reads exactly that retained image.
pub proof fn law_still_image_is_read_again(v: EngineView, now: u64)
    requires
        !v.dirty,
        !v.ocr_busy,
        v.gate.pending matches Some(c)
            && elapsed(now, c.last_read) >= if c.text.len() == 0 { EMPTY_INTERVAL / 2 } else { OCR_INTERVAL },
        v.gate.text.len() > 0 || v.snapshot.translation.len() > 0,
        v.confirmation_frame is Some,
        v.last_ocr matches Some(t) ==> elapsed(now, t) >= OCR_INTERVAL,
    ensures
        next_job_step(v, now).1 == v.confirmation_frame,
        next_job_step(v, now).0.confirmation_frame is None,
        next_job_step(v, now).0.latest is None,
        next_job_step(v, now).0.dirty,
{
}

/// One image is read at a time, at most every half second: while OCR is busy, or
/// within half a second of the last dispatch, no job is given; a changed image waiting
/// to be read is given once both have passed.
pub proof fn law_reads_are_spaced_and_single(v: EngineView, now: u64)
    ensures
        v.ocr_busy ==> next_job_step(v, now).1 is None,
        (v.last_ocr matches Some(t) && elapsed(now, t) < OCR_INTERVAL) ==> next_job_step(v, now).1 is None,
        (v.dirty && !v.ocr_busy && v.latest is Some && (v.last_ocr matches Some(t) ==> elapsed(now, t) >= OCR_INTERVAL))
            ==> next_job_step(v, now).1 == v.latest && next_job_step(v, now).0.latest is None,
        (!v.dirty && v.gate.pending is None) ==> next_job_step(v, now).1 is None,
        (!v.dirty && v.gate.text.len() == 0 && v.snapshot.translation.len() == 0) ==> next_job_step(v, now).1 is None,
{
}

/// A newly confirmed phrase that is not cached replaces the old subtitle at once: the
/// subtitle is cleared, with the clearing published before anything else, and the
/// snapshot shows no translation while the new one is pending, backed off or blocked.
pub proof fn law_uncached_phrase_clears_old_subtitle(v: EngineView, now: u64)
    requires
        v.running,
        v.shown != Some(v.gate.revision),
        !v.translating,
        !v.dirty,
        !v.ocr_busy,
        v.gate.revision > 0,
        v.gate.pending is None,
        v.gate.text.len() > 0,
        !v.cache.contains_key(v.gate.text),
        v.snapshot.translation.len() > 0,
    ensures
        translate_ready_step(v, now).1.len() > 0,
        translate_ready_step(v, now).1[0] == (EffectView::TranslationChanged {
            generation: v.generation,
            revision: v.gate.revision,
            text: Seq::empty(),
        }),
        translate_ready_step(v, now).0.snapshot.translation.len() == 0,
{
}

/// A monitor region that is otherwise valid is accepted exactly when, projected onto
/// the monitor, it leaves at least 110 monitor pixels free above it or below it; a
/// window region needs no such room.
pub proof fn law_monitor_region_needs_subtitle_room(region: Rect, dimensions: (u32, u32), monitor: Monitor)
    requires
        monitor.plausible(),
        region.validation_error(dimensions.0, dimensions.1) is None,
    ensures
        region.y * monitor.height >= SUBTITLE_ROOM * dimensions.1
            ==> CaptureSource::Monitor.layout_error(region, dimensions, monitor) is None,
        (dimensions.1 - region.y - region.height) * monitor.height >= SUBTITLE_ROOM * dimensions.1
            ==> CaptureSource::Monitor.layout_error(region, dimensions, monitor) is None,
        (region.y * monitor.height < SUBTITLE_ROOM * dimensions.1
            && (dimensions.1 - region.y - region.height) * monitor.height < SUBTITLE_ROOM * dimensions.1)
            ==> CaptureSource::Monitor.layout_error(region, dimensions, monitor) == Some(LayoutError::NoSubtitleRoom),
        CaptureSource::Window.layout_error(region, dimensions, monitor) is None,
{
}

/// A resume whose capture resumed runs again: the reply is `Ok`, the engine runs under
/// a new generation with its failure count reset and status "running". Without a
/// region and capture, or when the capture failed to resume, nothing changes and the
/// reply is the error.
pub proof fn law_resume_runs_again(v: EngineView, now: u64, error: Seq<char>)
    requires
        v.generation < u64::MAX,
    ensures
        resume_step(v, Some(Ok(())), now).2 is Ok,
        resume_step(v, Some(Ok(())), now).0.running,
        resume_step(v, Some(Ok(())), now).0.failures == 0,
        resume_step(v, Some(Ok(())), now).0.generation == v.generation + 1,
        resume_step(v, Some(Ok(())), now).0.snapshot.state == "running"@,
        resume_step(v, Some(Err(error)), now).0 == v,
        resume_step(v, Some(Err(error)), now).2 == Err::<(), Seq<char>>(error),
        resume_step(v, None, now).0 == v,
        resume_step(v, None, now).2 is Err,
{
}

/// Pausing and then resuming successfully runs again, two generations later, with no
/// subtitle from before the pause.
pub proof fn law_pause_then_resume_runs_again(v: EngineView, now: u64)
    requires
        v.generation < u64::MAX - 1,
    ensures
        resume_step(pause_step(v).0, Some(Ok(())), now).0.running,
        resume_step(pause_step(v).0, Some(Ok(())), now).0.generation == v.generation + 2,
        resume_step(pause_step(v).0, Some(Ok(())), now).0.snapshot.translation.len() == 0,
        resume_step(pause_step(v).0, Some(Ok(())), now).0.shown is None,
{
}

/// A confirmed phrase that is ready, not empty and not cached is sent for translation
/// once the back-off has passed, unless it is longer than 4000 characters, which
/// blocks translation instead; before the back-off has passed nothing is sent.
pub proof fn law_ready_phrase_is_sent_or_blocked(v: EngineView, now: u64)
    requires
        v.running,
        v.shown != Some(v.gate.revision),
        !v.translating,
        !v.dirty,
        !v.ocr_busy,
        v.gate.revision > 0,
        v.gate.pending is None,
        v.gate.text.len() > 0,
        !v.cache.contains_key(v.gate.text),
        v.snapshot.api_count < u64::MAX,
    ensures
        now < v.retry_at ==> !translate_ready_step(v, now).0.translating && translate_ready_step(v, now).0.running,
        (now >= v.retry_at && v.gate.text.len() <= MAX_TRANSLATION_CHARS) ==> {
            &&& translate_ready_step(v, now).0.translating
            &&& translate_ready_step(v, now).1.last() == (EffectView::Translate {
                generation: v.generation,
                revision: v.gate.revision,
                key: v.key,
                source: v.gate.text,
            })
            &&& translate_ready_step(v, now).0.snapshot.api_count == v.snapshot.api_count + 1
        },
        (now >= v.retry_at && v.gate.text.len() > MAX_TRANSLATION_CHARS) ==> {
            &&& !translate_ready_step(v, now).0.running
            &&& !translate_ready_step(v, now).0.translating
            &&& translate_ready_step(v, now).0.snapshot.state == "blocked"@
        },
{
}

/// A current reading that confirms a new phrase while a translation is in flight
/// aborts that translation; a current reading that confirms nothing leaves the
/// translation in flight alone.
pub proof fn law_new_phrase_aborts_the_stale_request(v: EngineView, reading: OcrReading, now: u64)
    requires
        reading.generation == v.generation,
        v.running,
        v.translating,
        v.gate.revision < u64::MAX,
        reading.result is Ok,
    ensures
        observe_next(v.gate, reading.result->Ok_0.text@, now).1 ==> {
            &&& ocr_result_step(v, reading, now).1.len() > 0
            &&& ocr_result_step(v, reading, now).1[0] == EffectView::AbortTranslation
            &&& ocr_result_step(v, reading, now).0.gate.revision == v.gate.revision + 1
        },
        !observe_next(v.gate, reading.result->Ok_0.text@, now).1 ==> {
            &&& ocr_result_step(v, reading, now).0.translating
            &&& forall|i: int| 0 <= i < ocr_result_step(v, reading, now).1.len()
                ==> !(#[trigger] ocr_result_step(v, reading, now).1[i] is AbortTranslation)
        },
{
}

} // verus!
