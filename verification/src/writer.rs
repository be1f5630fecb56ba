//! The writing half of the line channel, and the status acknowledgement
//! writer.

use vstd::prelude::*;

use crate::reader::{line_views, ChannelError};
use crate::responses::StatusResponse;

verus! {

/// A sink of protocol lines. `outputs()` models everything written so far,
/// oldest first; a successful write appends exactly the given line, a failed
/// write appends nothing.
pub trait OutputWriter: Sized {
    /// An implementation outside the verified world may leave this at its
    /// default, which specifies nothing usable about it.
    open spec fn outputs(&self) -> Seq<Seq<char>> {
        vstd::pervasive::arbitrary()
    }

    fn write(&mut self, line: &str) -> (r: Result<(), ChannelError>)
        ensures
            (match r {
                Result::Ok(u) => final(self).outputs() == old(self).outputs().push(line@),
                Result::Err(_) => final(self).outputs() == old(self).outputs(),
            }),
    ;
}

/// An in-memory line sink: it keeps everything it was asked to write.
pub struct MemoryWriter {
    pub outputs: Vec<String>,
}

impl MemoryWriter {
    /// An empty sink.
    pub fn new() -> (r: MemoryWriter)
        ensures
            r.outputs() == Seq::<Seq<char>>::empty(),
            r.outputs@ == Seq::<String>::empty(),
    {
        let r = MemoryWriter { outputs: Vec::new() };
        proof {
            assert(line_views(r.outputs@) =~= Seq::<Seq<char>>::empty());
        }
        r
    }
}

impl OutputWriter for MemoryWriter {
    open spec fn outputs(&self) -> Seq<Seq<char>> {
        line_views(self.outputs@)
    }

    fn write(&mut self, line: &str) -> (r: Result<(), ChannelError>)
        ensures
            r is Ok,
            (match r {
                Result::Ok(u) => final(self).outputs() == old(self).outputs().push(line@),
                Result::Err(_) => final(self).outputs() == old(self).outputs(),
            }),
    {
        let ghost before = self.outputs@;
        self.outputs.push(line.to_owned());
        proof {
            assert(line_views(self.outputs@) =~= line_views(before).push(line@));
        }
        Ok(())
    }
}

/// Encodes a status acknowledgement and writes it as one line.
pub fn write_status<W: OutputWriter>(writer: &mut W, message: StatusResponse) -> (r: Result<
    (),
    ChannelError,
>)
    ensures
        (match r {
            Result::Ok(u) => final(writer).outputs() == old(writer).outputs().push(
                crate::responses::spec_encode_status(message@),
            ),
            Result::Err(_) => final(writer).outputs() == old(writer).outputs(),
        }),
{
    let line = message.encode();
    writer.write(line.as_str())
}

} // verus!
