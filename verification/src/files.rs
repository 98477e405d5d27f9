use vstd::prelude::*;

verus! {

/// The MIME type `mime_guess` assigns a file name: the first type its table
/// lists for the name's extension, or `application/octet-stream`.
pub uninterp spec fn mime_type_for(filename: Seq<char>) -> Seq<char>;

/// A byte count as `humansize` writes it in binary (1024-based) units.
pub uninterp spec fn human_size(bytes: u64) -> Seq<char>;

/// The MIME type a file is offered with, guessed from its name:
/// `mime_guess::from_path(filename).first_or_octet_stream()`, as text. A
/// function of the name alone (a lookup of its extension in a fixed table).
#[verifier::external_body]
pub fn guess_mime_type(filename: &str) -> (mime: String)
    ensures
        mime@ == mime_type_for(filename@),
{
    mime_guess::from_path(filename).first_or_octet_stream().to_string()
}

/// A byte count in human units: `humansize::format_size(bytes, BINARY)`. A
/// function of the count alone.
#[verifier::external_body]
pub fn format_size(bytes: u64) -> (text: String)
    ensures
        text@ == human_size(bytes),
{
    humansize::format_size(bytes, humansize::BINARY)
}

} // verus!
