//! The machine's boundary to the host: a byte source with a sticky
//! end-of-stream sentinel and a byte sink.

use vstd::prelude::*;

verus! {

/// The two capabilities the machine consumes from its host.
///
/// An implementation models its pending input as a byte sequence and the
/// bytes it has emitted so far as another.  `request_input` hands out the
/// next pending byte as a platter with zero upper bits, or `0xFFFFFFFF`
/// once the input is exhausted; `request_output` appends one byte to the
/// emitted sequence.
pub trait IOInterface: Sized {
    /// The bytes not yet consumed from the input stream.
    open spec fn in_view(&self) -> Seq<u8> {
        Seq::empty()
    }

    /// The bytes emitted so far.
    open spec fn out_view(&self) -> Seq<u8> {
        Seq::empty()
    }

    /// Hand out the next input byte, or `0xFFFFFFFF` at end of stream.
    fn request_input(&mut self) -> (r: u32)
        ensures
            old(self).in_view().len() > 0 ==> r == old(self).in_view()[0] as u32
                && final(self).in_view() == old(self).in_view().skip(1),
            old(self).in_view().len() == 0 ==> r == 0xFFFFFFFFu32
                && final(self).in_view() == old(self).in_view(),
            final(self).out_view() == old(self).out_view(),
    ;

    /// Emit one byte.
    fn request_output(&mut self, ch: u8)
        ensures
            final(self).out_view() == old(self).out_view().push(ch),
            final(self).in_view() == old(self).in_view(),
    ;
}

/// A host backed entirely by in-memory buffers: a fixed input script and
/// a growing capture of the output.
pub struct ScriptedIo {
    pub input: Vec<u8>,
    pub pos: usize,
    pub output: Vec<u8>,
}

impl ScriptedIo {
    /// A scripted host that will serve the given bytes, then report end
    /// of stream, and has emitted nothing yet.
    pub fn new(input: Vec<u8>) -> (r: ScriptedIo)
        ensures
            r.in_view() == input@,
            r.out_view() == Seq::<u8>::empty(),
    {
        let r = ScriptedIo { input, pos: 0, output: Vec::new() };
        proof {
            assert(r.in_view() =~= r.input@);
        }
        r
    }
}

impl IOInterface for ScriptedIo {
    open spec fn in_view(&self) -> Seq<u8> {
        if self.pos <= self.input.len() {
            self.input@.skip(self.pos as int)
        } else {
            Seq::empty()
        }
    }

    open spec fn out_view(&self) -> Seq<u8> {
        self.output@
    }

    fn request_input(&mut self) -> (r: u32) {
        if self.pos < self.input.len() {
            let b = self.input[self.pos];
            self.pos = self.pos + 1;
            proof {
                assert(self.in_view() =~= old(self).in_view().skip(1));
            }
            b as u32
        } else {
            0xFFFFFFFF
        }
    }

    fn request_output(&mut self, ch: u8) {
        self.output.push(ch);
    }
}

} // verus!
