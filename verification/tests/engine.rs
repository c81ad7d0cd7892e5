use area_translator::engine::is_current;
use area_translator::translate::{classify_error, TranslationError};

#[test]
fn stale_results_after_pause_region_change_and_dialogue_change_are_rejected() {
    assert!(is_current(2, 5, 2, 5));
    assert!(!is_current(2, 5, 1, 5));
    assert!(!is_current(2, 5, 2, 4));
}

#[test]
fn quota_and_auth_suspend_but_server_errors_retry() {
    assert_eq!(classify_error(403, true), TranslationError::Quota);
    assert_eq!(classify_error(403, false), TranslationError::Credential);
    assert!(!classify_error(503, false).suspends());
}

use area_translator::capture::SharedFrames;
use area_translator::engine::{
    DispatchOutcome, Effect, EngineCore, OcrReading, OpeningOutcome, TranslationReply,
};
use area_translator::model::{CaptureSource, Frame, Monitor, Rect, OCR_INTERVAL, STABLE_INTERVAL};
use area_translator::ocr::{OcrError, OcrOutput};

const T0: u64 = 10_000;

fn running_engine() -> EngineCore {
    let mut engine = EngineCore::new(T0);
    engine.set_credential("test-only-key".to_string(), T0);
    engine.running = true;
    engine
}

fn read(engine: &mut EngineCore, text: &str, at: u64, effects: &mut Vec<Effect>) {
    let reading = OcrReading {
        generation: engine.generation,
        sequence: engine.sequence,
        captured: at,
        result: Ok(OcrOutput { text: text.to_string(), elapsed_ms: 1, api_ms: 1 }),
        frame: None,
    };
    engine.ocr_result(reading, at, effects);
}

fn confirm(engine: &mut EngineCore, text: &str, at: u64, effects: &mut Vec<Effect>) {
    read(engine, text, at, effects);
    read(engine, text, at + OCR_INTERVAL, effects);
    read(engine, text, at + STABLE_INTERVAL, effects);
}

fn requests(effects: &[Effect]) -> Vec<(u64, u64, String)> {
    effects
        .iter()
        .filter_map(|e| match e {
            Effect::Translate { generation, revision, source, .. } => Some((*generation, *revision, source.clone())),
            _ => None,
        })
        .collect()
}

#[test]
fn confirmed_phrase_is_translated_once_then_served_from_cache() {
    let mut engine = running_engine();
    let mut effects = Vec::new();
    read(&mut engine, "Keep  reading.\n", T0, &mut effects);
    read(&mut engine, "Keep reading.", T0 + OCR_INTERVAL, &mut effects);
    assert!(requests(&effects).is_empty(), "two readings do not confirm");
    read(&mut engine, "Keep reading.", T0 + STABLE_INTERVAL, &mut effects);
    let sent = requests(&effects);
    assert_eq!(sent, vec![(engine.generation, 1, "Keep reading.".to_string())]);
    assert!(engine.translating);
    assert_eq!(engine.snapshot.api_count, 1);
    assert_eq!(engine.snapshot.characters_sent, 13);

    let reply = TranslationReply {
        generation: engine.generation,
        revision: 1,
        source: "Keep reading.".to_string(),
        elapsed: 350,
        result: Ok("Continue lendo.".to_string()),
    };
    engine.finish_translation(Some(reply), T0 + 2000, &mut effects);
    assert_eq!(engine.snapshot.translation, "Continue lendo.");
    assert_eq!(engine.snapshot.api_successes, 1);
    assert_eq!(engine.snapshot.state, "running");

    // Another phrase, then the first one again: the first comes from the cache.
    confirm(&mut engine, "Next phrase.", T0 + 3000, &mut effects);
    assert_eq!(requests(&effects).len(), 2);
    let generation = engine.generation;
    engine.finish_translation(
        Some(TranslationReply {
            generation,
            revision: 2,
            source: "Next phrase.".to_string(),
            elapsed: 10,
            result: Ok("Próxima frase.".to_string()),
        }),
        T0 + 5000,
        &mut effects,
    );
    assert_eq!(engine.snapshot.translation, "Próxima frase.");
    confirm(&mut engine, "Keep reading.", T0 + 6000, &mut effects);
    assert_eq!(requests(&effects).len(), 2, "cached text needs no request");
    assert_eq!(engine.snapshot.cache_hits, 1);
    assert_eq!(engine.snapshot.translation, "Continue lendo.");
}

#[test]
fn noisy_ocr_does_not_cancel_a_translation_in_flight() {
    let phrase = "There is no saved game on the memory card. Would you like to create a new file? Yes No";
    let mut engine = running_engine();
    let mut effects = Vec::new();
    confirm(&mut engine, phrase, T0, &mut effects);
    assert!(engine.translating);
    for (i, noise) in ["l", "r", "I", "v"].iter().enumerate() {
        read(&mut engine, &format!("{noise} {phrase} |"), T0 + 2000 + i as u64 * 500, &mut effects);
        assert!(engine.translating, "small OCR variations must not abort the pending translation");
        assert_eq!(engine.gate.revision, 1);
    }
    assert!(!effects.iter().any(|e| matches!(e, Effect::AbortTranslation)));
    let generation = engine.generation;
    engine.finish_translation(
        Some(TranslationReply {
            generation,
            revision: 1,
            source: phrase.to_string(),
            elapsed: 350,
            result: Ok("Não há jogo salvo. Deseja criar um novo arquivo?".to_string()),
        }),
        T0 + 5000,
        &mut effects,
    );
    assert!(!engine.snapshot.translation.is_empty());
    assert_eq!(engine.snapshot.api_successes, 1);
}

#[test]
fn stale_replies_and_readings_are_dropped() {
    let mut engine = running_engine();
    let mut effects = Vec::new();
    confirm(&mut engine, "Go east.", T0, &mut effects);
    let old_generation = engine.generation;
    engine.pause(T0 + 1500, &mut effects);
    assert_eq!(engine.generation, old_generation + 1);
    assert!(!engine.translating);
    assert!(effects.iter().any(|e| matches!(e, Effect::AbortTranslation)));
    let before = effects.len();
    engine.finish_translation(
        Some(TranslationReply {
            generation: old_generation,
            revision: 1,
            source: "Go east.".to_string(),
            elapsed: 1,
            result: Ok("Vá para o leste.".to_string()),
        }),
        T0 + 2000,
        &mut effects,
    );
    assert_eq!(effects.len(), before);
    assert_eq!(engine.snapshot.translation, "");
    assert_eq!(engine.snapshot.api_successes, 0);
    engine.ocr_busy = true;
    engine.ocr_result(
        OcrReading {
            generation: old_generation,
            sequence: 0,
            captured: 0,
            result: Ok(OcrOutput { text: "Go east.".to_string(), elapsed_ms: 1, api_ms: 1 }),
            frame: None,
        },
        T0 + 2000,
        &mut effects,
    );
    assert!(!engine.ocr_busy);
    assert_eq!(engine.snapshot.ocr_count, 3);
}

#[test]
fn pause_clears_the_subtitle_and_stop_goes_idle() {
    let mut engine = running_engine();
    let mut effects = Vec::new();
    engine.has_capture = true;
    engine.snapshot.translation = "Legenda anterior".to_string();
    engine.pause(T0, &mut effects);
    assert_eq!(engine.snapshot.translation, "");
    assert_eq!(engine.snapshot.state, "paused");
    assert!(!engine.running);
    assert!(effects.iter().any(|e| matches!(e, Effect::PauseCapture(true))));
    effects.clear();
    engine.stop_capture(T0, &mut effects);
    assert_eq!(engine.snapshot.state, "idle");
    assert_eq!(engine.snapshot.message, "Captura encerrada.");
    assert!(!engine.has_capture);
    assert!(matches!(effects[0], Effect::CloseCapture));
    assert!(matches!(effects[1], Effect::ResetOcr));
}

#[test]
fn empty_confirmation_clears_without_a_request() {
    let mut engine = running_engine();
    let mut effects = Vec::new();
    engine.cache.put("Keep reading.".to_string(), "Continue lendo.".to_string());
    confirm(&mut engine, "Keep reading.", T0, &mut effects);
    assert_eq!(engine.snapshot.translation, "Continue lendo.");
    read(&mut engine, "", T0 + 2000, &mut effects);
    read(&mut engine, "", T0 + 2500, &mut effects);
    read(&mut engine, "", T0 + 3000, &mut effects);
    assert_eq!(engine.snapshot.translation, "Continue lendo.", "one second of empty readings is not enough");
    read(&mut engine, "", T0 + 3500, &mut effects);
    assert_eq!(engine.snapshot.translation, "");
    assert!(requests(&effects).is_empty());
    assert_eq!(engine.snapshot.api_count, 0);
}

#[test]
fn begin_without_credential_is_refused() {
    let mut engine = EngineCore::new(T0);
    let mut effects = Vec::new();
    let reply = engine.begin(CaptureSource::Monitor, T0, &mut effects);
    assert_eq!(reply, Err("Configure a chave do Google Cloud primeiro.".to_string()));
    assert!(effects.is_empty());
    engine.set_credential("test-only-key".to_string(), T0);
    assert!(engine.begin(CaptureSource::Window, T0, &mut effects).is_ok());
    assert!(effects.iter().any(|e| matches!(e, Effect::OpenCapture(CaptureSource::Window))));
    assert_eq!(engine.snapshot.state, "opening");
    assert_eq!(
        engine.snapshot.message,
        "Escolha a janela do emulador no diálogo de compartilhamento."
    );
}

#[test]
fn failures_back_off_and_credential_errors_block() {
    let mut engine = running_engine();
    let mut effects = Vec::new();
    engine.has_capture = true;
    confirm(&mut engine, "Go west.", T0, &mut effects);
    let generation = engine.generation;
    let failed = |e| TranslationReply {
        generation,
        revision: 1,
        source: "Go west.".to_string(),
        elapsed: 5,
        result: Err(e),
    };
    engine.finish_translation(Some(failed(area_translator::translate::TranslationError::Temporary)), T0 + 2000, &mut effects);
    assert_eq!(engine.failures, 1);
    assert_eq!(engine.retry_at, T0 + 4000);
    assert_eq!(engine.snapshot.state, "retrying");
    // The back-off holds the next request back.
    engine.translate_ready(T0 + 3000, &mut effects);
    assert!(!engine.translating);
    engine.translate_ready(T0 + 4000, &mut effects);
    assert!(engine.translating);
    engine.finish_translation(Some(failed(area_translator::translate::TranslationError::Quota)), T0 + 5000, &mut effects);
    assert!(!engine.running);
    assert_eq!(engine.snapshot.state, "blocked");
    assert!(effects.iter().any(|e| matches!(e, Effect::PauseCapture(true))));
}

#[test]
fn overlong_text_blocks_instead_of_sending() {
    let mut engine = running_engine();
    let mut effects = Vec::new();
    let long = "a".repeat(4001);
    confirm(&mut engine, &long, T0, &mut effects);
    assert!(requests(&effects).is_empty());
    assert!(!engine.running);
    assert_eq!(engine.snapshot.state, "blocked");
}

#[test]
fn ocr_failure_stops_with_its_message() {
    let mut engine = running_engine();
    let mut effects = Vec::new();
    let generation = engine.generation;
    engine.ocr_result(
        OcrReading { generation, sequence: 0, captured: T0, result: Err(OcrError::Quota), frame: None },
        T0,
        &mut effects,
    );
    assert_eq!(engine.snapshot.state, "error");
    assert_eq!(engine.snapshot.message, OcrError::Quota.message());
    assert!(!engine.running);
}

#[test]
fn changed_frames_are_read_at_most_every_half_second() {
    let mut engine = running_engine();
    let mut effects = Vec::new();
    let mut frames = SharedFrames::default();
    frames.frame = Some(Frame { width: 16, height: 16, gray: vec![200; 256], captured: T0 });
    engine.take_frame(&mut frames, T0);
    assert!(frames.frame.is_none());
    assert_eq!(engine.snapshot.captured_frames, 1);
    assert!(engine.dirty);
    let job = engine.next_ocr_job(T0).unwrap();
    assert_eq!(job.generation, engine.generation);
    assert_eq!(job.key, "test-only-key");
    engine.ocr_dispatched(DispatchOutcome::Sent, T0, &mut effects);
    assert!(engine.ocr_busy);
    // The same image again is not a change.
    frames.frame = Some(Frame { width: 16, height: 16, gray: vec![200; 256], captured: T0 + 200 });
    engine.take_frame(&mut frames, T0 + 200);
    assert!(!engine.dirty);
    // A changed image waits for the worker and for the interval.
    frames.frame = Some(Frame { width: 16, height: 16, gray: vec![10; 256], captured: T0 + 400 });
    engine.take_frame(&mut frames, T0 + 400);
    assert!(engine.dirty);
    assert!(engine.next_ocr_job(T0 + 400).is_none());
    engine.ocr_busy = false;
    assert!(engine.next_ocr_job(T0 + 400).is_none());
    let job = engine.next_ocr_job(T0 + 500).unwrap();
    engine.ocr_dispatched(DispatchOutcome::Full(job.frame), T0 + 500, &mut effects);
    assert!(engine.latest.is_some());
    engine.ocr_dispatched(DispatchOutcome::Closed, T0 + 500, &mut effects);
    assert_eq!(engine.snapshot.state, "error");
    assert_eq!(engine.snapshot.message, "Trabalhador de OCR indisponível.");
}

#[test]
fn region_selection_validates_then_runs() {
    let mut engine = EngineCore::new(T0);
    let mut effects = Vec::new();
    engine.set_credential("test-only-key".to_string(), T0);
    engine.begin(CaptureSource::Monitor, T0, &mut effects).unwrap();
    engine.opening_finished(OpeningOutcome::Opened { position: Some((0, 0)), size: Some((1920, 1080)) }, T0 + 10, &mut effects);
    assert_eq!(engine.snapshot.state, "selecting");
    let monitor = Monitor { x: 0, y: 0, width: 1920, height: 1080 };
    let mut frames = SharedFrames::default();
    let region = Rect { x: 100, y: 100, width: 400, height: 100 };
    assert_eq!(
        engine.select_region(&mut frames, region, monitor, T0 + 20, &mut effects),
        Err("Aguardando primeiro quadro.".to_string())
    );
    frames.dimensions = Some((1920, 1080));
    frames.paused = true;
    let dims = engine.select_region(&mut frames, region, monitor, T0 + 20, &mut effects).unwrap();
    assert_eq!(dims, (1920, 1080));
    assert_eq!(frames.region, Some(region));
    assert!(!frames.paused);
    engine.region_selected(region, monitor, dims, T0 + 20, &mut effects);
    assert!(engine.running);
    assert_eq!(engine.snapshot.region, Some(region));
    assert_eq!(engine.snapshot.state, "running");
    // A region touching both edges leaves no room for the subtitle.
    let full = Rect { x: 0, y: 0, width: 1920, height: 1080 };
    assert!(engine.select_region(&mut frames, full, monitor, T0 + 30, &mut effects).is_err());
    assert!(engine.select_region(&mut frames, region, Monitor { width: 50, ..monitor }, T0 + 30, &mut effects)
        == Err("Monitor inválido.".to_string()));
}

#[test]
fn failed_portal_and_forgotten_selection_stop() {
    let mut engine = EngineCore::new(T0);
    let mut effects = Vec::new();
    engine.set_credential("test-only-key".to_string(), T0);
    engine.begin(CaptureSource::Monitor, T0, &mut effects).unwrap();
    engine.opening_finished(OpeningOutcome::Failed("cancelado".to_string()), T0, &mut effects);
    assert_eq!(engine.snapshot.state, "error");
    assert_eq!(engine.snapshot.message, "Captura não iniciada: cancelado");
    engine.begin(CaptureSource::Monitor, T0, &mut effects).unwrap();
    engine.opening_finished(OpeningOutcome::Opened { position: None, size: None }, T0, &mut effects);
    assert!(!engine.expire_selection(T0 + 300_000, &mut effects));
    assert!(engine.expire_selection(T0 + 300_001, &mut effects));
    assert_eq!(engine.snapshot.state, "idle");
    assert!(!engine.has_capture);
}

#[test]
fn subtitle_survives_same_text_and_transient_ocr_until_a_confirmed_change() {
    let mut engine = running_engine();
    engine.cache.put("Keep reading.".to_string(), "Continue lendo.".to_string());
    engine.cache.put("Next phrase.".to_string(), "Próxima frase.".to_string());
    let mut effects = Vec::new();

    confirm(&mut engine, "Keep reading.", T0, &mut effects);
    assert_eq!(engine.snapshot.translation, "Continue lendo.");
    let revision = engine.gate.revision;
    read(&mut engine, "Keep  reading.\n", T0 + 2000, &mut effects);
    engine.translate_ready(T0 + 3_600_000, &mut effects);
    assert_eq!(engine.gate.revision, revision);
    assert_eq!(engine.snapshot.translation, "Continue lendo.", "same text has no display timeout");

    read(&mut engine, "", T0 + 3_601_000, &mut effects);
    engine.translate_ready(T0 + 3_602_000, &mut effects);
    assert_eq!(engine.snapshot.translation, "Continue lendo.", "one empty reading does not erase");
    read(&mut engine, "Keep reading.", T0 + 3_602_500, &mut effects);
    assert_eq!(engine.snapshot.translation, "Continue lendo.");

    read(&mut engine, "Transient noise.", T0 + 3_603_000, &mut effects);
    assert_eq!(engine.snapshot.translation, "Continue lendo.");
    read(&mut engine, "Keep reading.", T0 + 3_603_500, &mut effects);
    assert_eq!(engine.snapshot.translation, "Continue lendo.");

    let t = T0 + 3_610_000;
    read(&mut engine, "Next phrase.", t, &mut effects);
    assert_eq!(
        engine.snapshot.translation,
        "Continue lendo.",
        "the previous subtitle stays until the next phrase is confirmed"
    );
    read(&mut engine, "Next phrase.", t + OCR_INTERVAL, &mut effects);
    read(&mut engine, "Next phrase.", t + STABLE_INTERVAL, &mut effects);
    assert_eq!(engine.snapshot.translation, "Próxima frase.");

    let t = t + 5000;
    read(&mut engine, "", t, &mut effects);
    engine.translate_ready(t + 1600, &mut effects);
    assert_eq!(engine.snapshot.translation, "Próxima frase.", "one empty read does not clear");
    read(&mut engine, "", t + OCR_INTERVAL, &mut effects);
    read(&mut engine, "", t + STABLE_INTERVAL, &mut effects);
    read(&mut engine, "", t + 1500, &mut effects);
    assert!(engine.snapshot.translation.is_empty(), "a confirmed disappearance clears the subtitle");

    confirm(&mut engine, "Keep reading.", t + 5000, &mut effects);
    assert_eq!(engine.snapshot.translation, "Continue lendo.");
    engine.pause(t + 8000, &mut effects);
    assert!(engine.snapshot.translation.is_empty(), "a manual pause hides the subtitle at once");
    assert_eq!(engine.snapshot.api_count, 0, "cached text needs no request");
}

#[test]
fn full_cache_evicts_the_least_recently_used_pair() {
    let mut engine = running_engine();
    for i in 0..2000 {
        engine.cache.put(format!("phrase {i}"), format!("frase {i}"));
    }
    let mut effects = Vec::new();
    confirm(&mut engine, "phrase 0", T0, &mut effects);
    assert_eq!(engine.snapshot.translation, "frase 0", "a hit also refreshes the pair");
    confirm(&mut engine, "New phrase.", T0 + 3000, &mut effects);
    let (generation, revision) = (engine.generation, engine.gate.revision);
    engine.finish_translation(
        Some(TranslationReply {
            generation,
            revision,
            source: "New phrase.".to_string(),
            elapsed: 1,
            result: Ok("Nova frase.".to_string()),
        }),
        T0 + 5000,
        &mut effects,
    );
    assert_eq!(engine.cache.len(), 2000);
    assert!(engine.cache.contains(&"phrase 0".to_string()));
    assert!(!engine.cache.contains(&"phrase 1".to_string()));
    assert_eq!(engine.cache.peek(&"New phrase.".to_string()), Some(&"Nova frase.".to_string()));
}

#[test]
fn a_phrase_is_confirmed_by_its_third_reading_a_second_after_the_first() {
    let mut gate = area_translator::model::TextGate::default();
    assert!(!gate.observe("Hello there.", T0));
    assert!(!gate.observe("Hello  there.", T0 + 400));
    assert!(!gate.observe("Hello there.", T0 + 800), "three readings within a second are not enough");
    assert!(gate.observe("Hello there.\n", T0 + 1000));
    assert!(!gate.needs_confirmation(T0 + 5000), "a confirmed phrase asks for no further reading");
    assert!(!gate.observe("Other.", T0 + 2000));
    assert!(!gate.needs_confirmation(T0 + 2499));
    assert!(gate.needs_confirmation(T0 + 2500));
}

#[test]
fn the_first_image_is_read_at_once_after_start() {
    let mut engine = EngineCore::new(100);
    engine.set_credential("test-only-key".to_string(), 100);
    engine.running = true;
    engine.latest = Some(Frame { width: 16, height: 16, gray: vec![0; 256], captured: 100 });
    engine.dirty = true;
    let job = engine.next_ocr_job(150);
    assert!(job.is_some(), "no OCR has run yet, so nothing holds the first one back");
}

#[test]
fn scan_stops_on_capture_error_and_drops_incomplete_crops() {
    let mut engine = running_engine();
    let mut frames = area_translator::capture::SharedFrames::default();
    let mut effects = Vec::new();
    frames.frame = Some(Frame { width: 16, height: 16, gray: vec![0; 255], captured: T0 });
    assert!(engine.scan(&mut frames, None, T0, &mut effects));
    assert!(frames.frame.is_none());
    assert_eq!(engine.snapshot.captured_frames, 0, "an incomplete crop is not counted");
    frames.frame = Some(Frame { width: 16, height: 16, gray: vec![9; 256], captured: T0 + 200 });
    assert!(engine.scan(&mut frames, None, T0 + 200, &mut effects));
    assert_eq!(engine.snapshot.captured_frames, 1);
    assert!(engine.dirty);
    let go_on = engine.scan(&mut frames, Some("Captura interrompida: x".to_string()), T0 + 400, &mut effects);
    assert!(!go_on);
    assert!(!engine.running);
    assert_eq!(engine.snapshot.state, "error");
    assert_eq!(engine.snapshot.message, "Captura interrompida: x");
}
