use area_translator::model::{
    Frame,
    changed, CaptureSource, LayoutError, Monitor, Rect, TextGate, EMPTY_INTERVAL, OCR_INTERVAL,
    STABLE_INTERVAL,
};

const START: u64 = 1_000_000;

fn confirm(gate: &mut TextGate, text: &str, at: u64) {
    assert!(!gate.observe(text, at));
    assert!(!gate.observe(text, at + OCR_INTERVAL));
    assert!(gate.observe(text, at + STABLE_INTERVAL));
}

#[test]
fn window_crop_is_independent_of_overlay_monitor_geometry() {
    let region = Rect {
        x: 0,
        y: 0,
        width: 640,
        height: 480,
    };
    let monitor = Monitor {
        x: -1920,
        y: 0,
        width: 1920,
        height: 1080,
    };
    assert!(CaptureSource::Window
        .validate_layout(region, (640, 480), monitor)
        .is_ok());
    assert!(CaptureSource::Monitor
        .validate_layout(region, (640, 480), monitor)
        .is_err());
    assert!(CaptureSource::Window
        .validate_layout(region, (320, 240), monitor)
        .is_err());
    assert!(CaptureSource::Window
        .validate_layout(
            region,
            (640, 480),
            Monitor {
                width: 0,
                ..monitor
            }
        )
        .is_err());
}

#[test]
fn rejects_overflow_and_outside_region() {
    for r in [
        Rect {
            x: u32::MAX,
            y: 0,
            width: 32,
            height: 32,
        },
        Rect {
            x: 10,
            y: 10,
            width: 100,
            height: 100,
        },
    ] {
        assert!(r.validate(100, 100).is_err());
    }
}

#[test]
fn one_read_never_becomes_ready_just_because_time_passes() {
    let now = START;
    let mut gate = TextGate::default();
    gate.observe("Are you all right?", now);
    assert!(!gate.ready());
    assert!(gate.needs_confirmation(now + 3_600_000));
    assert_eq!(gate.revision, 0);
    gate.observe("Are you all right?", now + OCR_INTERVAL);
    assert!(!gate.ready());
    assert!(gate.observe("Are you all right?", now + STABLE_INTERVAL));
    assert!(gate.ready());
}

#[test]
fn fluctuating_short_and_long_text_never_replaces_confirmed_text() {
    let now = START;
    for original in [
        "Are you all right?",
        "There is no saved game on the memory card. Would you like to create a new file?",
    ] {
        let mut gate = TextGate::default();
        confirm(&mut gate, original, now);
        for (i, text) in [
            format!("{original} 3"),
            original.replace('i', "l"),
            original.into(),
            String::new(),
            format!("{original} |"),
            original.into(),
        ]
        .iter()
        .enumerate()
        {
            let at = now + (3 + i as u64 * 2) * 1000;
            assert!(!gate.observe(text, at));
            assert_eq!(gate.text, original);
            assert_eq!(gate.revision, 1);
        }
        assert!(gate.ready());
    }
}

#[test]
fn two_alternating_variants_do_not_form_a_majority_loop() {
    let now = START;
    let mut gate = TextGate::default();
    for i in 0..20u64 {
        assert!(!gate.observe(
            if i % 2 == 0 { "Go east." } else { "Go west." },
            now + OCR_INTERVAL * i
        ));
        assert!(!gate.ready());
    }
    assert_eq!(gate.revision, 0);
}

#[test]
fn numbers_negations_and_small_real_changes_are_confirmed_not_merged() {
    let now = START;
    let mut gate = TextGate::default();
    for (i, phrase) in [
        "Go east.",
        "Go west.",
        "Spend 10 coins.",
        "Spend 11 coins.",
        "Do not enter.",
        "Do enter.",
    ]
    .iter()
    .enumerate()
    {
        confirm(&mut gate, phrase, now + i as u64 * 3000);
        assert_eq!(gate.text, *phrase);
        assert_eq!(gate.revision, i as u64 + 1);
    }
}

#[test]
fn empty_readings_require_repetition_and_longer_stable_absence() {
    let now = START;
    let mut gate = TextGate::default();
    confirm(&mut gate, "Keep reading.", now);
    let at = now + 2000;
    assert!(!gate.observe("", at));
    assert!(!gate.observe("", at + OCR_INTERVAL));
    assert!(!gate.observe("", at + STABLE_INTERVAL));
    assert_eq!(gate.text, "Keep reading.");
    assert!(gate.observe("", at + EMPTY_INTERVAL));
    assert_eq!(gate.text, "");
    assert!(gate.ready());
    assert!(!gate.needs_confirmation(at + 10_000));
}

#[test]
fn progressive_dialogue_and_whitespace_need_repeated_observations() {
    let now = START;
    let mut gate = TextGate::default();
    gate.observe("Hello", now);
    gate.observe("Hello world!", now + OCR_INTERVAL);
    gate.observe("Hello  world!\n", now + OCR_INTERVAL * 2);
    assert!(!gate.ready());
    assert!(gate.observe("Hello world!", now + OCR_INTERVAL * 3));
    assert_eq!(gate.text, "Hello world!");
    assert_eq!(gate.revision, 1);
}

#[test]
fn noise_ignored_but_changed_text_detected() {
    let original = vec![120; 8192];
    assert!(!changed(&original, &vec![125; 8192]));
    let mut next = original.clone();
    next[100..140].fill(250);
    assert!(changed(&original, &next));
}

#[test]
fn region_errors_name_their_cause() {
    let small = Rect { x: 0, y: 0, width: 15, height: 40 };
    assert_eq!(small.validate(100, 100), Err(LayoutError::TooSmall));
    let huge = Rect { x: 0, y: 0, width: 4000, height: 1001 };
    assert_eq!(huge.validate(5000, 5000), Err(LayoutError::TooLarge));
    let fits = Rect { x: 0, y: 0, width: 4000, height: 1000 };
    assert_eq!(fits.validate(4000, 1000), Ok(fits));
    assert_eq!(
        LayoutError::OutsideCapture.message(),
        "Área fora da captura."
    );
}

#[test]
fn fingerprint_samples_only_the_first_width_times_height_bytes() {
    let exact = Frame { width: 4, height: 2, gray: vec![1, 2, 3, 4, 5, 6, 7, 8], captured: 0 };
    let longer = Frame { width: 4, height: 2, gray: vec![1, 2, 3, 4, 5, 6, 7, 8, 9, 9], captured: 0 };
    assert_eq!(exact.fingerprint(), vec![1, 2, 3, 4, 5, 6, 7, 8]);
    assert_eq!(longer.fingerprint(), exact.fingerprint());
    assert!(Frame { width: 0, height: 2, gray: vec![], captured: 0 }.fingerprint().is_empty());
}
