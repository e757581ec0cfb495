//! The REST error envelope the platform returns on failure statuses.

use vstd::prelude::*;

verus! {

/// Model of a [`DiscordError`]: the numeric code with the message text.
pub struct DiscordErrorModel {
    pub code: i64,
    pub message: Seq<char>,
    pub errors: Option<Seq<char>>,
}

/// The error envelope carried by failure responses: a platform-defined
/// numeric code, a human-readable message, and an optional detail blob kept
/// as raw text.
#[derive(Debug, Clone)]
pub struct DiscordError {
    pub code: i64,
    pub message: String,
    pub errors: Option<String>,
}

impl View for DiscordError {
    type V = DiscordErrorModel;

    open spec fn view(&self) -> DiscordErrorModel {
        DiscordErrorModel {
            code: self.code,
            message: self.message@,
            errors: match &self.errors {
                Some(e) => Some(e@),
                None => None,
            },
        }
    }
}

} // verus!
