//! In-memory reader used by tests of reader consumers.
use crate::reader::{LogReader, ReaderError};
use vstd::prelude::*;

verus! {

/// Mock LogReader for testing — holds lines in memory.
pub struct MockLogReader {
    pub lines: Vec<String>,
}

impl MockLogReader {
    pub fn new(lines: Vec<String>) -> (r: Self)
        ensures
            r.lines == lines,
    {
        Self { lines }
    }
}

impl LogReader for MockLogReader {
    open spec fn content(&self) -> Seq<Seq<char>> {
        self.lines@.map_values(|l: String| l@)
    }

    open spec fn serves_every_line(&self) -> bool {
        true
    }

    fn total_lines(&self) -> (r: usize) {
        self.lines.len()
    }

    fn get_line(&mut self, index: usize) -> (r: Result<Option<String>, ReaderError>)
        ensures
            r is Ok,
            r matches Ok(o) ==> (o is Some <==> index < old(self).content().len()),
    {
        if index < self.lines.len() {
            Ok(Some(self.lines[index].clone()))
        } else {
            Ok(None)
        }
    }

    fn reload(&mut self) -> (r: Result<(), ReaderError>)
        ensures
            r is Ok,
            final(self).content() == old(self).content(),
    {
        Ok(())
    }
}

} // verus!
