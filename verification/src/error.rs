//! The error taxonomy of the library: transport failures reported by the
//! fetch collaborators, and the parse failures of each service's payloads.

use vstd::prelude::*;

verus! {

/// Everything that can go wrong while fetching and decoding the two
/// services' data. Transport errors carry the collaborator's message as
/// plain text.
#[derive(Debug, Clone, PartialEq, Eq)]
pub enum Error {
    /// A transport-level failure reported by the fetch collaborator.
    HttpError(String),
    /// A payload was missing an expected landmark.
    OtherParseError(&'static str),
    /// The Sanbai song catalog payload did not decode.
    SanbaiSongJsonParseError(String),
    /// The Sanbai score payload did not decode.
    SanbaiScoreJsonParseError(String),
    /// The tempo page's markup did not look as expected.
    SanbaiBpmHtmlParseError,
    /// The Skill Attack page's markup did not look as expected.
    SkillAttackHtmlParseError(&'static str),
}

impl Error {
    /// A short description of the error class, for display by callers.
    pub fn describe(&self) -> (r: &'static str)
        ensures
            r@ == match *self {
                Error::HttpError(_) => "Http Error"@,
                Error::OtherParseError(_) => "Error parsing response"@,
                Error::SanbaiSongJsonParseError(_) => "Error parsing the Sanbai song list"@,
                Error::SanbaiScoreJsonParseError(_) => "Error parsing the Sanbai score list"@,
                Error::SanbaiBpmHtmlParseError
                    => "Couldn't parse the bpm html, something may have changed"@,
                Error::SkillAttackHtmlParseError(_)
                    => "Couldn't parse skill attack html, something may have changed"@,
            },
    {
        match *self {
            Error::HttpError(_) => "Http Error",
            Error::OtherParseError(_) => "Error parsing response",
            Error::SanbaiSongJsonParseError(_) => "Error parsing the Sanbai song list",
            Error::SanbaiScoreJsonParseError(_) => "Error parsing the Sanbai score list",
            Error::SanbaiBpmHtmlParseError
                => "Couldn't parse the bpm html, something may have changed",
            Error::SkillAttackHtmlParseError(_)
                => "Couldn't parse skill attack html, something may have changed",
        }
    }
}

} // verus!
