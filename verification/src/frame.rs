use vstd::prelude::*;

verus! {

/// The unit of work: a monotonically assigned sequence number plus an opaque
/// byte payload.
#[derive(Debug)]
pub struct Frame {
    pub order: u64,
    pub payload: Vec<u8>,
}

/// Mathematical image of a frame: the sequence number and the payload bytes.
pub struct FrameModel {
    pub order: u64,
    pub payload: Seq<u8>,
}

impl View for Frame {
    type V = FrameModel;

    open spec fn view(&self) -> FrameModel {
        FrameModel { order: self.order, payload: self.payload@ }
    }
}

/// An all-zero payload of the requested size: the placeholder buffer the
/// sender attaches to every frame.
pub fn zero_payload(len: usize) -> (p: Vec<u8>)
    ensures
        p@.len() == len,
        forall|i: int| 0 <= i < len ==> p@[i] == 0u8,
{
    let mut p: Vec<u8> = Vec::new();
    let mut i: usize = 0;
    while i < len
        invariant
            i <= len,
            p@.len() == i,
            forall|k: int| 0 <= k < i ==> p@[k] == 0u8,
        decreases len - i,
    {
        p.push(0u8);
        i = i + 1;
    }
    p
}

} // verus!
