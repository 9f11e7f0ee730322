use vstd::prelude::*;
use vstd::string::StringExecFns;

verus! {

/// Why grapheme-to-phoneme conversion failed.
#[derive(Debug, PartialEq, Eq)]
pub enum G2PError {
    /// The romanization table answered a syllable with no phoneme variant at all.
    EmptyPhonemeData,
    /// The romanization table refused a syllable; the text is its message.
    Romanization(String),
    /// The pronunciation dictionary could not be loaded; the text is its message.
    Dictionary(String),
}

impl G2PError {
    /// A human-readable description of the error.
    pub fn message(&self) -> (r: String)
        ensures
            *self is EmptyPhonemeData ==> r@ == "G2PError: EmptyData"@,
            *self is Romanization ==> r@ == "G2PError: "@ + self->Romanization_0@,
            *self is Dictionary ==> r@ == "G2PError: "@ + self->Dictionary_0@,
    {
        match self {
            G2PError::EmptyPhonemeData => String::from_str("G2PError: EmptyData"),
            G2PError::Romanization(m) => String::from_str("G2PError: ").concat(m.as_str()),
            G2PError::Dictionary(m) => String::from_str("G2PError: ").concat(m.as_str()),
        }
    }
}

} // verus!
