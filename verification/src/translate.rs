use vstd::prelude::*;
use crate::text::{ascii_lowercase, blank, chars_of, find_in, is_blank, lowercase_chars, occurs_in};

verus! {

/// Longest text, in characters, that is sent to the translation API.
pub const MAX_TRANSLATION_CHARS: usize = 4000;

/// Why a translation request failed.
#[derive(Clone, Copy, Debug, PartialEq, Eq, Structural)]
pub enum TranslationError {
    Credential,
    Quota,
    Temporary,
    InvalidResponse,
}

impl TranslationError {
    /// The user-facing message of the error.
    pub open spec fn spec_message(&self) -> Seq<char> {
        match self {
            TranslationError::Credential => "Verifique a chave e a ativação da Cloud Translation API nas configurações."@,
            TranslationError::Quota => "Limite da API atingido. Verifique sua cota e retome manualmente."@,
            TranslationError::Temporary => "Tradução indisponível. Nova tentativa em instantes."@,
            TranslationError::InvalidResponse => "A API retornou uma resposta inválida."@,
        }
    }

    /// The user-facing message of the error.
    pub fn message(&self) -> (m: &'static str)
        ensures
            m@ == self.spec_message(),
    {
        match self {
            TranslationError::Credential => "Verifique a chave e a ativação da Cloud Translation API nas configurações.",
            TranslationError::Quota => "Limite da API atingido. Verifique sua cota e retome manualmente.",
            TranslationError::Temporary => "Tradução indisponível. Nova tentativa em instantes.",
            TranslationError::InvalidResponse => "A API retornou uma resposta inválida.",
        }
    }

    /// Credential and quota failures suspend translation until a manual resume.
    pub open spec fn spec_suspends(&self) -> bool {
        *self == TranslationError::Credential || *self == TranslationError::Quota
    }

    /// Whether the failure suspends translation until a manual resume.
    pub fn suspends(&self) -> (b: bool)
        ensures
            b == self.spec_suspends(),
    {
        match self {
            TranslationError::Credential | TranslationError::Quota => true,
            _ => false,
        }
    }
}

/// The error of a failed HTTP exchange with the translation API.
pub open spec fn classified(status: u16, quota: bool) -> TranslationError {
    if status == 429 || quota {
        TranslationError::Quota
    } else if status == 400 || status == 401 || status == 403 {
        TranslationError::Credential
    } else {
        TranslationError::Temporary
    }
}

/// Google v2 sometimes uses 403 for rate/daily limits and for auth: a quota reason
/// in the body wins over the status.
pub fn classify_error(status: u16, quota: bool) -> (e: TranslationError)
    ensures
        e == classified(status, quota),
{
    if status == 429 || quota {
        TranslationError::Quota
    } else if status == 400 || status == 401 || status == 403 {
        TranslationError::Credential
    } else {
        TranslationError::Temporary
    }
}

/// An error body names a quota: it contains `limitexceeded` or `quota` in any ASCII
/// case, or `RESOURCE_EXHAUSTED` exactly.
pub open spec fn names_quota(body: Seq<char>) -> bool {
    occurs_in(ascii_lowercase(body), "limitexceeded"@) || occurs_in(ascii_lowercase(body), "quota"@)
        || occurs_in(body, "RESOURCE_EXHAUSTED"@)
}

/// Whether the serialized error body names a quota.
pub fn quota_reason(body: &str) -> (b: bool)
    ensures
        b == names_quota(body@),
{
    let lower = lowercase_chars(body);
    let exact = chars_of(body);
    find_in(&lower, &chars_of("limitexceeded")) || find_in(&lower, &chars_of("quota"))
        || find_in(&exact, &chars_of("RESOURCE_EXHAUSTED"))
}

/// The translation of a well-formed reply: the first translated text, unless it is
/// missing or blank.
pub open spec fn first_translation_of(texts: Seq<Seq<char>>) -> Result<Seq<char>, TranslationError> {
    if texts.len() > 0 && !is_blank(texts[0]) {
        Ok(texts[0])
    } else {
        Err(TranslationError::InvalidResponse)
    }
}

/// The outcome of a translation exchange: the HTTP status, the serialized error body
/// when the body was JSON, and the translated texts when the body had the expected shape.
pub open spec fn translation_outcome(
    status: u16,
    reason: Option<Seq<char>>,
    texts: Option<Seq<Seq<char>>>,
) -> Result<Seq<char>, TranslationError> {
    if !(200 <= status < 300) {
        Err(classified(status, reason matches Some(r) && names_quota(r)))
    } else {
        match texts {
            None => Err(TranslationError::InvalidResponse),
            Some(t) => first_translation_of(t),
        }
    }
}

/// Interprets a reply of the translation API. `reason` is the error body serialized
/// as JSON, when it was JSON; `translations` holds the `translatedText` fields when
/// the body had the expected shape.
pub fn interpret_translation(status: u16, reason: Option<String>, translations: Option<Vec<String>>) -> (r: Result<String, TranslationError>)
    ensures
        ({
            let texts = match translations {
                Some(v) => Some(v@.map_values(|s: String| s@)),
                None => None,
            };
            let reason_view = match reason {
                Some(s) => Some(s@),
                None => None,
            };
            match (r, translation_outcome(status, reason_view, texts)) {
                (Ok(a), Ok(b)) => a@ == b,
                (Err(a), Err(b)) => a == b,
                _ => false,
            }
        }),
{
    if !(200 <= status && status < 300) {
        let quota = match &reason {
            Some(body) => quota_reason(body.as_str()),
            None => false,
        };
        return Err(classify_error(status, quota));
    }
    match translations {
        None => Err(TranslationError::InvalidResponse),
        Some(texts) => {
            if texts.len() > 0 && !blank(texts[0].as_str()) {
                let first = texts[0].clone();
                Ok(first)
            } else {
                Err(TranslationError::InvalidResponse)
            }
        },
    }
}

} // verus!
