use super::{LogReader, ReaderError, StreamableReader};
use crate::text::{lines_of, split_lines};
use vstd::prelude::*;

verus! {

#[verifier::external_type_specification]
#[verifier::external_body]
pub struct ExIoError(std::io::Error);

/// `Read::read_to_string`: reads the whole input into a string. What comes
/// back depends on the input source, so nothing is stated of it.
#[verifier::external_body]
fn read_all<R: std::io::Read>(mut reader: R) -> Result<String, std::io::Error> {
    let mut content = String::new();
    reader.read_to_string(&mut content)?;
    Ok(content)
}

/// `ToString::to_string` on an I/O error: its message.
#[verifier::external_body]
fn io_error_message(e: &std::io::Error) -> String {
    e.to_string()
}

/// In-memory reader for non-seekable streams (pipes, process substitution, etc.)
/// Reads the entire input into memory for random access
pub struct StreamReader {
    /// All lines stored in memory
    lines: Vec<String>,
    /// Whether more lines may still arrive
    loading: bool,
}

impl StreamReader {
    /// Create a new StreamReader from any readable source
    pub fn from_reader<R: std::io::Read>(reader: R) -> (r: Result<Self, ReaderError>)
        ensures
            r matches Ok(rd) ==> !rd.loading() && exists|text: Seq<char>| rd.content() == lines_of(text),
    {
        match read_all(reader) {
            Ok(content) => Ok(Self::from_text(content.as_str())),
            Err(e) => Err(ReaderError { message: io_error_message(&e) }),
        }
    }

    /// Create a StreamReader holding the lines of `text`
    pub fn from_text(text: &str) -> (r: Self)
        ensures
            r.content() == lines_of(text@),
            !r.loading(),
    {
        StreamReader { lines: split_lines(text), loading: false }
    }

    /// An empty reader whose lines arrive later, through `append_lines`.
    pub fn new_incremental() -> (r: Self)
        ensures
            r.content() == Seq::<Seq<char>>::empty(),
            r.loading(),
    {
        StreamReader { lines: Vec::new(), loading: true }
    }
}

impl LogReader for StreamReader {
    closed spec fn content(&self) -> Seq<Seq<char>> {
        self.lines@.map_values(|l: String| l@)
    }

    open spec fn serves_every_line(&self) -> bool {
        true
    }

    fn total_lines(&self) -> (r: usize) {
        self.lines.len()
    }

    fn get_line(&mut self, index: usize) -> (r: Result<Option<String>, ReaderError>)
        ensures
            r is Ok,
            r matches Ok(o) ==> (o is Some <==> index < old(self).content().len()),
    {
        if index < self.lines.len() {
            Ok(Some(self.lines[index].clone()))
        } else {
            Ok(None)
        }
    }

    fn reload(&mut self) -> (r: Result<(), ReaderError>)
        ensures
            r is Ok,
            final(self).content() == old(self).content(),
    {
        // Streams can't be reloaded - they're consumed on first read
        Ok(())
    }
}

impl StreamableReader for StreamReader {
    closed spec fn loading(&self) -> bool {
        self.loading
    }

    fn append_lines(&mut self, lines: Vec<String>) {
        let mut more = lines;
        let ghost added = more@;
        self.lines.append(&mut more);
        assert(self.lines@.map_values(|l: String| l@) =~= old(self).lines@.map_values(
            |l: String| l@,
        ) + added.map_values(|l: String| l@));
    }

    fn mark_complete(&mut self) {
        self.loading = false;
    }

    fn is_loading(&self) -> (r: bool) {
        self.loading
    }
}

} // verus!
