use vstd::prelude::*;

verus! {

/// An embedded time `t` lies no more than `slack` after the clock reading `now`.
pub open spec fn not_ahead(t: nat, now: nat, slack: nat) -> bool {
    t <= now + slack
}

/// Milliseconds since the Unix epoch.
#[derive(Debug, Clone, Copy, PartialEq, Eq, Structural)]
pub struct Timestamp {
    pub millis: u64,
}

pub uninterp spec fn iso8601_of(millis: u64) -> Option<Seq<char>>;

/// Relies on chrono: `DateTime::from_timestamp_millis` on the value read as
/// `i64`, formatted as `%Y-%m-%dT%H:%M:%S%.3fZ`; `None` where chrono holds no
/// such instant. The text depends on the value alone.
#[verifier::external_body]
fn iso8601_utc(millis: u64) -> (r: Option<String>)
    ensures
        r is Some <==> iso8601_of(millis) is Some,
        r matches Some(s) ==> iso8601_of(millis) == Some(s@),
{
    chrono::DateTime::from_timestamp_millis(millis as i64).map(
        |dt| dt.format("%Y-%m-%dT%H:%M:%S%.3fZ").to_string(),
    )
}

/// Relies on `chrono::Utc::now`: the current time in milliseconds since the
/// Unix epoch (read as `u64`). Nothing is promised of its value.
#[verifier::external_body]
pub fn current_timestamp_ms() -> (r: u64) {
    chrono::Utc::now().timestamp_millis() as u64
}

/// Relies on `chrono::Utc::now`: the current time in whole seconds since the
/// Unix epoch (read as `u64`). Nothing is promised of its value.
#[verifier::external_body]
pub fn current_timestamp_secs() -> (r: u64) {
    chrono::Utc::now().timestamp() as u64
}

/// The ISO 8601 rendering of an instant, or `invalid`.
pub open spec fn iso_text(millis: u64) -> Seq<char> {
    match iso8601_of(millis) {
        Some(t) => t,
        None => "invalid"@,
    }
}

impl Timestamp {
    pub fn new(millis: u64) -> (r: Timestamp)
        ensures
            r.millis == millis,
    {
        Timestamp { millis }
    }

    pub fn from_secs(secs: u64) -> (r: Timestamp)
        requires
            secs <= u64::MAX / 1000,
        ensures
            r.millis == secs * 1000,
    {
        Timestamp { millis: secs * 1000 }
    }

    /// The instant in UTC as `YYYY-MM-DDTHH:MM:SS.mmmZ`, or `invalid`.
    pub fn to_iso8601(&self) -> (r: String)
        ensures
            r@ == iso_text(self.millis),
    {
        match iso8601_utc(self.millis) {
            Some(s) => s,
            None => "invalid".to_owned(),
        }
    }
}

/// The outcome of validating an identifier.
#[derive(Debug, Clone)]
pub struct ValidationResult {
    pub valid: bool,
    pub id_type: Option<String>,
    pub error: Option<String>,
    pub hint: Option<String>,
}

impl ValidationResult {
    pub fn valid(id_type: &str) -> (r: ValidationResult)
        ensures
            r.valid,
            r.id_type matches Some(t) && t@ == id_type@,
            r.error is None,
            r.hint is None,
    {
        ValidationResult { valid: true, id_type: Some(id_type.to_owned()), error: None, hint: None }
    }

    pub fn invalid(error: &str) -> (r: ValidationResult)
        ensures
            !r.valid,
            r.id_type is None,
            r.error matches Some(t) && t@ == error@,
            r.hint is None,
    {
        ValidationResult { valid: false, id_type: None, error: Some(error.to_owned()), hint: None }
    }

    pub fn with_hint(self, hint: &str) -> (r: ValidationResult)
        ensures
            r.valid == self.valid,
            r.id_type == self.id_type,
            r.error == self.error,
            r.hint matches Some(t) && t@ == hint@,
    {
        ValidationResult { hint: Some(hint.to_owned()), ..self }
    }
}

/// One value among an identifier's components.
#[derive(Debug, Clone)]
pub enum ComponentValue {
    Number(u128),
    Text(String),
    Null,
}

/// The standard re-encodings shown when an identifier is inspected.
#[derive(Debug, Clone)]
pub struct IdEncodings {
    pub hex: String,
    pub base32: String,
    pub base58: String,
    pub base64: String,
    pub int: Option<String>,
}

/// Everything that inspecting an identifier reveals.
#[derive(Debug, Clone)]
pub struct InspectionResult {
    pub id_type: String,
    pub input: String,
    pub canonical: String,
    pub valid: bool,
    pub timestamp: Option<Timestamp>,
    pub timestamp_iso: Option<String>,
    pub timestamp_local_iso: Option<String>,
    pub version: Option<String>,
    pub variant: Option<String>,
    pub random_bits: Option<u32>,
    pub components: Option<Vec<(String, ComponentValue)>>,
    pub encodings: IdEncodings,
}

} // verus!
