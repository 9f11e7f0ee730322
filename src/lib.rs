//! Grapheme-to-phoneme conversion and phoneme tokenization for a two-generation
//! speech synthesis model: mixed Chinese / English text becomes a string of IPA
//! symbols, and that string becomes the model's integer token sequence.
//!
//! The stages, in the order text goes through them: numeral normalization
//! (`numeral`), script classification (`runs`), the Chinese phonemizer (`zh`),
//! punctuation normalization (`punct`), the English phonemizer (`en`), the spacing
//! policy that joins the phonemized runs (`assemble`), and the tokenizer
//! (`tokenizer`, over the symbol tables of `vocab`).

pub mod assemble;
pub mod en;
pub mod error;
pub mod numeral;
pub mod punct;
pub mod runs;
mod text;
pub mod tokenizer;
pub mod vocab;
pub mod zh;

pub use assemble::{assemble, Chunk};
pub use en::{pronounce, word2ipa_en};
pub use error::G2PError;
pub use numeral::{num_repr, numeral_literals};
pub use punct::to_half_shape;
pub use runs::{split_runs, split_words, Piece, Run, Script};
pub use tokenizer::get_token_ids;
pub use zh::{
    char_readings, han_chunk, han_words, marks_are_attached, py2ipa, retone, word2ipa_zh, CharReading,
    Segmenter, Syllable,
};
