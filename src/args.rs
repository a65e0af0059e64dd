use vstd::prelude::*;

verus! {

/// A program to hide messages in PNG files.
#[derive(Debug)]
pub struct App {
    pub command: Commands,
}

/// The four actions.
#[derive(Debug)]
pub enum Commands {
    /// Encodes a message into a PNG file and saves the result.
    Encode(EncodeArgs),
    /// Searches for a message hidden in a PNG file and gives it back.
    Decode(DecodeArgs),
    /// Removes a chunk from a PNG file.
    Remove(RemoveArgs),
    /// Lists all of the chunks in a PNG file.
    Print(PrintArgs),
}

/// What encoding needs.
#[derive(Debug)]
pub struct EncodeArgs {
    /// Path to the input PNG file.
    pub file_path: String,
    /// Chunk type of the message.
    pub chunk_type: String,
    /// The message.
    pub message: String,
    /// Path to the output PNG file, if not the input file.
    pub output_file_path: Option<String>,
}

/// What decoding needs.
#[derive(Debug)]
pub struct DecodeArgs {
    /// Path to the input PNG file.
    pub file_path: String,
    /// Chunk type of the message.
    pub chunk_type: String,
}

/// What removing needs.
#[derive(Debug)]
pub struct RemoveArgs {
    /// Path to the input PNG file.
    pub file_path: String,
    /// Chunk type of the message.
    pub chunk_type: String,
}

/// What printing needs.
#[derive(Debug)]
pub struct PrintArgs {
    /// Path to the input PNG file.
    pub file_path: String,
}

} // verus!
