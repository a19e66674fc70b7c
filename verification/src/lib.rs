//! A verified parser for comic-strip transcripts: raw text in, a validated
//! `Transcript` of 3 or 7 panels out, with speaker classification, advisory
//! notices, and queries over the result.

pub mod laws;
pub mod speaker;
pub mod text;
pub mod transcript;

pub use speaker::{character_from_folded, classify, is_common, keyword_from_folded, Notice, ParseError, Speaker};
pub use text::format_transcript_text;
pub use transcript::{Line, Panel, ParseOutcome, Transcript};
