use area_translator::ocr::{encode_crop, interpret_vision, parse_response, Annotation, OcrError};
use area_translator::model::Frame;
use area_translator::translate::{interpret_translation, quota_reason, TranslationError};
use base64::Engine as _;

fn annotation(full: Option<&str>, texts: &[&str], error: Option<u32>) -> Annotation {
    Annotation {
        full_text: full.map(str::to_string),
        text_annotations: texts.iter().map(|t| t.to_string()).collect(),
        error_code: error,
    }
}

#[test]
fn annotations_empty_results_and_embedded_errors() {
    assert_eq!(
        parse_response(vec![annotation(Some("One\nTwo"), &["duplicate"], None)]).unwrap(),
        "One\nTwo"
    );
    assert_eq!(
        parse_response(vec![annotation(None, &["Fallback", "word"], None)]).unwrap(),
        "Fallback"
    );
    assert_eq!(parse_response(vec![annotation(None, &[], None)]).unwrap(), "");
    assert_eq!(parse_response(vec![]), Err(OcrError::InvalidResponse));
    for (code, expected) in [
        (7, OcrError::Credential),
        (16, OcrError::Credential),
        (8, OcrError::Quota),
        (3, OcrError::InvalidImage),
        (14, OcrError::Temporary),
    ] {
        assert_eq!(
            parse_response(vec![annotation(Some("partial"), &[], Some(code))]),
            Err(expected)
        );
    }
    assert_eq!(parse_response(vec![annotation(Some("ok"), &[], Some(0))]).unwrap(), "ok");
}

#[test]
fn http_errors_do_not_require_json_bodies() {
    for (status, reason, expected) in [
        (401, None, OcrError::Credential),
        (403, None, OcrError::Credential),
        (429, None, OcrError::Quota),
        (503, None, OcrError::Temporary),
        (400, Some(r#"{"error":{"details":[{"reason":"API_KEY_INVALID"}]}}"#), OcrError::Credential),
        (400, Some(r#"{"error":{"status":"INVALID_ARGUMENT"}}"#), OcrError::InvalidImage),
        (403, Some(r#"{"error":{"status":"RESOURCE_EXHAUSTED"}}"#), OcrError::Quota),
    ] {
        assert_eq!(interpret_vision(status, reason.map(str::to_string), None), Err(expected));
    }
    assert_eq!(interpret_vision(200, None, None), Err(OcrError::InvalidResponse));
    assert_eq!(
        interpret_vision(200, None, Some(vec![annotation(Some("Hello!"), &[], None)])).unwrap(),
        "Hello!"
    );
}

#[test]
fn crop_is_sent_as_base64_of_a_grayscale_png() {
    let frame = Frame { width: 16, height: 20, gray: vec![97; 320], captured: 0 };
    let content = encode_crop(&frame).unwrap();
    let png = base64::engine::general_purpose::STANDARD.decode(&content).unwrap();
    assert_ne!(content.as_bytes(), &png[..]);
    let mut reader = png::Decoder::new(std::io::Cursor::new(png)).read_info().unwrap();
    let mut pixels = vec![0; reader.output_buffer_size().unwrap()];
    let info = reader.next_frame(&mut pixels).unwrap();
    assert_eq!((info.width, info.height), (16, 20));
    assert_eq!(info.color_type, png::ColorType::Grayscale);
    assert_eq!(pixels, vec![97; 320]);
}

#[test]
fn invalid_crops_are_refused_before_encoding() {
    for frame in [
        Frame { width: 0, height: 20, gray: vec![], captured: 0 },
        Frame { width: 16, height: 20, gray: vec![1; 319], captured: 0 },
        Frame { width: 4000, height: 1001, gray: vec![], captured: 0 },
    ] {
        assert_eq!(encode_crop(&frame), Err(OcrError::InvalidImage));
    }
}

#[test]
fn translation_replies_are_classified() {
    assert_eq!(
        interpret_translation(200, None, Some(vec!["Olá!".to_string(), "x".to_string()])).unwrap(),
        "Olá!"
    );
    assert_eq!(
        interpret_translation(200, None, Some(vec![" \n".to_string()])),
        Err(TranslationError::InvalidResponse)
    );
    assert_eq!(interpret_translation(200, None, Some(vec![])), Err(TranslationError::InvalidResponse));
    assert_eq!(interpret_translation(200, None, None), Err(TranslationError::InvalidResponse));
    assert_eq!(
        interpret_translation(403, Some(r#"{"error":{"errors":[{"reason":"dailyLimitExceeded"}]}}"#.to_string()), None),
        Err(TranslationError::Quota)
    );
    assert_eq!(interpret_translation(403, None, None), Err(TranslationError::Credential));
    assert_eq!(interpret_translation(500, None, None), Err(TranslationError::Temporary));
    assert!(quota_reason("Quota exceeded"));
    assert!(quota_reason("RESOURCE_EXHAUSTED"));
    assert!(!quota_reason("resource_exhausted"));
    assert!(!quota_reason("forbidden"));
}

#[test]
fn error_messages_and_suspension() {
    assert!(OcrError::Credential.suspends());
    assert!(OcrError::Quota.suspends());
    assert!(!OcrError::Temporary.suspends());
    assert_eq!(
        TranslationError::Temporary.message(),
        "Tradução indisponível. Nova tentativa em instantes."
    );
    assert_eq!(
        OcrError::InvalidResponse.message(),
        "Resposta inválida do Cloud Vision. Tente novamente pelo atalho."
    );
}
