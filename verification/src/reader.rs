//! The reading half of the line channel: a capability the engine borrows,
//! abstracted so it can run against memory instead of real standard input.

use vstd::prelude::*;

verus! {

/// A failure of the line channel, carrying the channel's own account of it.
#[derive(Debug)]
pub struct ChannelError {
    pub message: String,
}

/// A source of protocol lines. `remaining()` models the lines the source
/// still holds, oldest first; a successful read hands out exactly the next
/// one. A failed read consumes nothing.
pub trait InputReader: Sized {
    /// An implementation outside the verified world may leave this at its
    /// default, which specifies nothing usable about it.
    open spec fn remaining(&self) -> Seq<Seq<char>> {
        vstd::pervasive::arbitrary()
    }

    fn next(&mut self) -> (r: Result<String, ChannelError>)
        ensures
            (match r {
                Result::Ok(line) => old(self).remaining().len() > 0 && line@ == old(
                    self,
                ).remaining()[0] && final(self).remaining() == old(self).remaining().drop_first(),
                Result::Err(_) => final(self).remaining() == old(self).remaining(),
            }),
    ;
}

/// An in-memory line source: the queue of lines it was given.
pub struct MemoryReader {
    lines: Vec<String>,
}

/// The texts of a queue of lines.
pub open spec fn line_views(lines: Seq<String>) -> Seq<Seq<char>> {
    lines.map_values(|s: String| s@)
}

impl MemoryReader {
    /// An empty source.
    pub fn new() -> (r: MemoryReader)
        ensures
            r.remaining() == Seq::<Seq<char>>::empty(),
    {
        let r = MemoryReader { lines: Vec::new() };
        proof {
            assert(line_views(r.lines@) =~= Seq::<Seq<char>>::empty());
        }
        r
    }

    /// A source holding one line.
    pub fn with_input(input: String) -> (r: MemoryReader)
        ensures
            r.remaining() =~= seq![input@],
    {
        let mut r = MemoryReader::new();
        r.add_input(input);
        r
    }

    /// Appends one more line to be read after the ones already queued.
    pub fn add_input(&mut self, input: String)
        ensures
            final(self).remaining() == old(self).remaining().push(input@),
    {
        let ghost before = self.lines@;
        self.lines.push(input);
        proof {
            assert(line_views(self.lines@) =~= line_views(before).push(self.lines@.last()@));
        }
    }
}

impl InputReader for MemoryReader {
    closed spec fn remaining(&self) -> Seq<Seq<char>> {
        line_views(self.lines@)
    }

    fn next(&mut self) -> (r: Result<String, ChannelError>)
        ensures
            r is Ok <==> old(self).remaining().len() > 0,
            (match r {
                Result::Ok(line) => old(self).remaining().len() > 0 && line@ == old(
                    self,
                ).remaining()[0] && final(self).remaining() == old(self).remaining().drop_first(),
                Result::Err(_) => final(self).remaining() == old(self).remaining(),
            }),
    {
        if self.lines.len() == 0 {
            Err(ChannelError { message: ("no input to read").to_owned() })
        } else {
            let ghost before = self.lines@;
            let line = self.lines.remove(0);
            proof {
                assert(line_views(self.lines@) =~= line_views(before).drop_first());
            }
            Ok(line)
        }
    }
}

} // verus!
