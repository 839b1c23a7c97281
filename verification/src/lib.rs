//! Romanization chunker for Japanese typing practice.
//!
//! A text of kana, and of other characters with their reading in
//! parentheses behind them, becomes a sequence of typing chunks: each pairs
//! a piece of the text with the spellings that type it.
//!
//! - `kana`: the character classes of the kana inventory.
//! - `table`: the spellings of each kana unit.
//! - `chunk`: the chunks and the sequence of them.
//! - `text`: a text laid out for reading by position.
//! - `grammar`: what the chunks of a text are.
//! - `chunker`: the scanner that computes them.
//! - `laws`: what holds of the chunks of every text.

pub mod chunk;
pub mod chunker;
pub mod grammar;
pub mod kana;
pub mod laws;
pub mod table;
pub mod text;
