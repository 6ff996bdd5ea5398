//! Line storage: buffers, sparse indexes and readers.
use vstd::prelude::*;

pub mod combined_reader;
pub mod file_reader;
pub mod huge_file_reader;
pub mod sparse_index;
pub mod stream_reader;
pub mod tail_buffer;

verus! {

/// Error raised by a reader.
#[derive(Debug)]
pub struct ReaderError {
    pub message: String,
}

/// Trait for reading log lines
pub trait LogReader {
    /// The lines this reader currently serves, in order.
    spec fn content(&self) -> Seq<Seq<char>>;

    /// Whether `get_line` gives every line below the count: true of readers
    /// that hold their lines in memory; a reader that reads them from
    /// elsewhere may fail to give one.
    spec fn serves_every_line(&self) -> bool;

    /// Get total number of lines
    fn total_lines(&self) -> (r: usize)
        ensures
            r == self.content().len(),
    ;

    /// Get a specific line by index
    fn get_line(&mut self, index: usize) -> (r: Result<Option<String>, ReaderError>)
        ensures
            final(self).content() == old(self).content(),
            final(self).serves_every_line() == old(self).serves_every_line(),
            index >= old(self).content().len() ==> r matches Ok(None),
            old(self).serves_every_line() && index < old(self).content().len() ==> r matches Ok(Some(_)),
            r matches Ok(Some(s)) ==> index < old(self).content().len() && s@ == old(
                self,
            ).content()[index as int],
    ;

    /// Reload the source (e.g., for file watching)
    fn reload(&mut self) -> (r: Result<(), ReaderError>)
    ;
}

/// Extension trait for stream-based readers that support incremental loading.
///
/// Implemented by `StreamReader`, whose lines can arrive in batches while
/// the stream is still being read.
pub trait StreamableReader: LogReader {
    /// Whether more lines may still arrive.
    spec fn loading(&self) -> bool;

    /// Append lines for incremental loading
    fn append_lines(&mut self, lines: Vec<String>)
        ensures
            final(self).content() == old(self).content() + lines@.map_values(|l: String| l@),
            final(self).loading() == old(self).loading(),
    ;

    /// Mark the stream as complete (no more data will arrive)
    fn mark_complete(&mut self)
        ensures
            final(self).content() == old(self).content(),
            !final(self).loading(),
    ;

    /// Check if this stream is still loading
    fn is_loading(&self) -> (r: bool)
        ensures
            r == self.loading(),
    ;
}

} // verus!
