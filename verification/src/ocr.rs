use vstd::prelude::*;
use crate::image::{base64_encoded, gray_png, png_encoding, to_base64};
use crate::model::{Frame, MAX_REGION_PIXELS};
use crate::text::{ascii_lowercase, chars_of, find_in, lowercase_chars, occurs_in};

verus! {

/// Why a Cloud Vision request failed.
#[derive(Clone, Copy, Debug, PartialEq, Eq, Structural)]
pub enum OcrError {
    Credential,
    Quota,
    Temporary,
    InvalidResponse,
    InvalidImage,
}

impl OcrError {
    /// The user-facing message of the error.
    pub open spec fn spec_message(&self) -> Seq<char> {
        match self {
            OcrError::Credential => "Verifique a chave, a ativação da Cloud Vision API e a restrição vision.googleapis.com."@,
            OcrError::Quota => "Cota do Cloud Vision atingida. Verifique o projeto e retome manualmente."@,
            OcrError::Temporary => "Cloud Vision indisponível. Aguarde e tente novamente pelo atalho."@,
            OcrError::InvalidResponse => "Resposta inválida do Cloud Vision. Tente novamente pelo atalho."@,
            OcrError::InvalidImage => "O Cloud Vision não aceitou a imagem. Selecione uma área menor e tente novamente."@,
        }
    }

    /// The user-facing message of the error.
    pub fn message(&self) -> (m: &'static str)
        ensures
            m@ == self.spec_message(),
    {
        match self {
            OcrError::Credential => "Verifique a chave, a ativação da Cloud Vision API e a restrição vision.googleapis.com.",
            OcrError::Quota => "Cota do Cloud Vision atingida. Verifique o projeto e retome manualmente.",
            OcrError::Temporary => "Cloud Vision indisponível. Aguarde e tente novamente pelo atalho.",
            OcrError::InvalidResponse => "Resposta inválida do Cloud Vision. Tente novamente pelo atalho.",
            OcrError::InvalidImage => "O Cloud Vision não aceitou a imagem. Selecione uma área menor e tente novamente.",
        }
    }

    /// Credential and quota failures suspend requests until a manual resume.
    pub open spec fn spec_suspends(&self) -> bool {
        *self == OcrError::Credential || *self == OcrError::Quota
    }

    /// Whether the failure suspends requests until a manual resume.
    pub fn suspends(&self) -> (b: bool)
        ensures
            b == self.spec_suspends(),
    {
        match self {
            OcrError::Credential | OcrError::Quota => true,
            _ => false,
        }
    }
}

/// Text read by one OCR request, with the total time and the time of the API call,
/// in milliseconds.
pub struct OcrOutput {
    pub text: String,
    pub elapsed_ms: u64,
    pub api_ms: u64,
}

/// One entry of the `responses` array of a Vision reply: `fullTextAnnotation.text`,
/// the `description` of each entry of `textAnnotations`, and `error.code` when an
/// `error` object is present (its code is 0 when absent from that object).
pub struct Annotation {
    pub full_text: Option<String>,
    pub text_annotations: Vec<String>,
    pub error_code: Option<u32>,
}

/// The error for a Vision status code embedded in a reply.
pub open spec fn embedded_error(code: u32) -> OcrError {
    if code == 7 || code == 16 {
        OcrError::Credential
    } else if code == 8 {
        OcrError::Quota
    } else if code == 3 {
        OcrError::InvalidImage
    } else {
        OcrError::Temporary
    }
}

/// The text of a reply with a single response: an embedded error with a non-zero
/// code fails the request; otherwise the full text, else the first annotation, else
/// no text at all.
pub open spec fn parsed_text(responses: Seq<Annotation>) -> Result<Seq<char>, OcrError> {
    if responses.len() != 1 {
        Err(OcrError::InvalidResponse)
    } else {
        let a = responses[0];
        if a.error_code matches Some(code) && code != 0 {
            Err(embedded_error(a.error_code->0))
        } else if a.full_text is Some {
            Ok(a.full_text->0@)
        } else if a.text_annotations@.len() > 0 {
            Ok(a.text_annotations@[0]@)
        } else {
            Ok(Seq::empty())
        }
    }
}

/// Reads the text out of the `responses` of a Vision reply, without re-joining
/// individual words.
pub fn parse_response(responses: Vec<Annotation>) -> (r: Result<String, OcrError>)
    ensures
        match (r, parsed_text(responses@)) {
            (Ok(a), Ok(b)) => a@ == b,
            (Err(a), Err(b)) => a == b,
            _ => false,
        },
{
    if responses.len() != 1 {
        return Err(OcrError::InvalidResponse);
    }
    let a = &responses[0];
    if let Some(code) = a.error_code {
        if code != 0 {
            return Err(
                if code == 7 || code == 16 {
                    OcrError::Credential
                } else if code == 8 {
                    OcrError::Quota
                } else if code == 3 {
                    OcrError::InvalidImage
                } else {
                    OcrError::Temporary
                },
            );
        }
    }
    match &a.full_text {
        Some(text) => Ok(text.clone()),
        None => {
            if a.text_annotations.len() > 0 {
                Ok(a.text_annotations[0].clone())
            } else {
                Ok(String::new())
            }
        },
    }
}

/// The error of a Vision exchange whose HTTP status is not a success. `reason` is the
/// body serialized as JSON, when it was JSON; it is compared in ASCII lower case.
pub open spec fn vision_http_error(status: u16, reason: Option<Seq<char>>) -> OcrError {
    let r = match reason {
        Some(b) => ascii_lowercase(b),
        None => Seq::empty(),
    };
    if status == 429 || occurs_in(r, "resource_exhausted"@) || occurs_in(r, "quota"@)
        || occurs_in(r, "limitexceeded"@) {
        OcrError::Quota
    } else if status == 401 || status == 403 || occurs_in(r, "api_key_invalid"@) {
        OcrError::Credential
    } else if status == 400 {
        OcrError::InvalidImage
    } else {
        OcrError::Temporary
    }
}

/// The outcome of a Vision exchange: a failing status is classified, a successful
/// one needs a body of the expected shape.
pub open spec fn vision_outcome(status: u16, reason: Option<Seq<char>>, responses: Option<Seq<Annotation>>) -> Result<Seq<char>, OcrError> {
    if !(200 <= status < 300) {
        Err(vision_http_error(status, reason))
    } else {
        match responses {
            None => Err(OcrError::InvalidResponse),
            Some(v) => parsed_text(v),
        }
    }
}

/// Interprets a Vision reply. `reason` is the body serialized as JSON when it was
/// JSON; `responses` is the decoded `responses` array when the body had that shape.
/// Provider messages are never echoed: only the error kind comes out.
pub fn interpret_vision(status: u16, reason: Option<String>, responses: Option<Vec<Annotation>>) -> (r: Result<String, OcrError>)
    ensures
        ({
            let reason_view = match reason {
                Some(s) => Some(s@),
                None => None,
            };
            let responses_view = match responses {
                Some(v) => Some(v@),
                None => None,
            };
            match (r, vision_outcome(status, reason_view, responses_view)) {
                (Ok(a), Ok(b)) => a@ == b,
                (Err(a), Err(b)) => a == b,
                _ => false,
            }
        }),
{
    if !(200 <= status && status < 300) {
        let lower = match &reason {
            Some(body) => lowercase_chars(body.as_str()),
            None => Vec::new(),
        };
        proof {
            if reason is None {
                assert(lower@ =~= Seq::<char>::empty());
            }
        }
        let quota = status == 429 || find_in(&lower, &chars_of("resource_exhausted"))
            || find_in(&lower, &chars_of("quota")) || find_in(&lower, &chars_of("limitexceeded"));
        if quota {
            return Err(OcrError::Quota);
        }
        if status == 401 || status == 403 || find_in(&lower, &chars_of("api_key_invalid")) {
            return Err(OcrError::Credential);
        }
        if status == 400 {
            return Err(OcrError::InvalidImage);
        }
        return Err(OcrError::Temporary);
    }
    match responses {
        None => Err(OcrError::InvalidResponse),
        Some(v) => parse_response(v),
    }
}

/// A crop that can be sent: non-empty, at most 4 megapixels, one byte per pixel.
pub open spec fn sendable(frame: Frame) -> bool {
    frame.width != 0 && frame.height != 0 && frame.width * frame.height <= MAX_REGION_PIXELS
        && frame.gray@.len() == frame.width * frame.height
}

/// The crop as Base64 of a grayscale PNG, as the Vision request carries it.
pub fn encode_crop(frame: &Frame) -> (r: Result<String, OcrError>)
    ensures
        !sendable(*frame) ==> r == Err::<String, OcrError>(OcrError::InvalidImage),
        sendable(*frame) ==> r is Ok,
        r matches Ok(s) ==> sendable(*frame) && s@ == base64_encoded(
            png_encoding(frame.width, frame.height, false, frame.gray@),
        ),
        r matches Err(e) ==> e == OcrError::InvalidImage,
{
    assert(frame.width * frame.height <= u32::MAX * u32::MAX) by (nonlinear_arith)
        requires frame.width <= u32::MAX, frame.height <= u32::MAX;
    let pixels = (frame.width as u64) * (frame.height as u64);
    if frame.width == 0 || frame.height == 0 || pixels > MAX_REGION_PIXELS
        || frame.gray.len() as u64 != pixels {
        return Err(OcrError::InvalidImage);
    }
    match gray_png(frame.width, frame.height, frame.gray.as_slice()) {
        Ok(bytes) => Ok(to_base64(bytes.as_slice())),
        Err(_) => Err(OcrError::InvalidImage),
    }
}

} // verus!
