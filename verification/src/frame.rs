//! Frame assembly: incoming samples are buffered until a fixed-size analysis
//! frame is complete, which is then handed out whole and the buffer reset.
//!
//! Samples are fixed-point integers; the surrounding application converts its
//! raw unit-range samples to this representation before pushing them.

use vstd::prelude::*;

verus! {

/// Buffers incoming samples into fixed-size analysis frames. It never errors
/// and always accepts input; a short final fragment at stream end simply
/// stays in the buffer and is dropped with the assembler.
pub struct FrameAssembler {
    buf: Vec<i32>,
    size: usize,
}

impl FrameAssembler {
    /// The samples buffered so far, oldest first.
    pub closed spec fn spec_buffered(self) -> Seq<i32> {
        self.buf@
    }

    /// The configured frame size.
    pub closed spec fn spec_size(self) -> int {
        self.size as int
    }

    /// The buffer never holds a complete frame: completing one hands it out.
    pub open spec fn wf(self) -> bool {
        self.spec_buffered().len() < self.spec_size()
    }

    pub fn new(size: usize) -> (r: FrameAssembler)
        requires
            size >= 1,
        ensures
            r.wf(),
            r.spec_size() == size as int,
            r.spec_buffered() == Seq::<i32>::empty(),
    {
        let r = FrameAssembler { buf: Vec::new(), size };
        proof {
            assert(r.spec_buffered() =~= Seq::<i32>::empty());
        }
        r
    }

    /// Append one sample. When the buffer reaches the configured size the
    /// completed frame is returned and the buffer is reset to empty;
    /// otherwise the sample is only buffered.
    pub fn push(&mut self, sample: i32) -> (r: Option<Vec<i32>>)
        requires
            old(self).wf(),
        ensures
            final(self).wf(),
            final(self).spec_size() == old(self).spec_size(),
            (if old(self).spec_buffered().len() + 1 == old(self).spec_size() {
                &&& r matches Some(frame) && frame@ == old(self).spec_buffered().push(sample)
                &&& final(self).spec_buffered() == Seq::<i32>::empty()
            } else {
                &&& r is None
                &&& final(self).spec_buffered() == old(self).spec_buffered().push(sample)
            }),
    {
        self.buf.push(sample);
        if self.buf.len() == self.size {
            let mut frame: Vec<i32> = Vec::new();
            core::mem::swap(&mut frame, &mut self.buf);
            proof {
                assert(self.spec_buffered() =~= Seq::<i32>::empty());
            }
            Some(frame)
        } else {
            None
        }
    }
}

} // verus!
