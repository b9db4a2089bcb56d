//! Program images: the fixed-capacity, zero-padded byte buffer that a
//! host hands to the CPU's `load`.

use vstd::prelude::*;

verus! {

/// A program image read from storage: the raw bytes, zero-padded to the
/// 3584-byte program capacity, together with how many bytes were
/// actually read.
pub struct CartridgeDriver {
    /// The image buffer, always exactly 3584 bytes long.
    pub rom: Vec<u8>,
    /// How many leading bytes of `rom` came from the source.
    pub size: usize,
}

impl CartridgeDriver {
    /// Well-formedness: the buffer has full capacity and `size` counts
    /// bytes inside it.
    pub open spec fn wf(&self) -> bool {
        self.rom@.len() == 3584 && self.size <= 3584
    }

    /// Wrap the bytes read from a program source: they fill the front of
    /// the buffer, the rest is zero.
    pub fn new(data: &Vec<u8>) -> (c: CartridgeDriver)
        requires
            data@.len() <= 3584,
        ensures
            c.wf(),
            c.size == data@.len(),
            forall|i: int| 0 <= i < data@.len() ==> c.rom@[i] == data@[i],
            forall|i: int| data@.len() <= i < 3584 ==> c.rom@[i] == 0u8,
    {
        let mut rom: Vec<u8> = Vec::new();
        let mut i: usize = 0;
        let size = data.len();
        while i < size
            invariant
                i <= size,
                size == data@.len(),
                rom@.len() == i,
                forall|j: int| 0 <= j < i ==> rom@[j] == data@[j],
            decreases size - i,
        {
            rom.push(data[i]);
            i += 1;
        }
        while i < 3584
            invariant
                size <= i <= 3584,
                size == data@.len(),
                rom@.len() == i,
                forall|j: int| 0 <= j < size ==> rom@[j] == data@[j],
                forall|j: int| size <= j < i ==> rom@[j] == 0u8,
            decreases 3584 - i,
        {
            rom.push(0u8);
            i += 1;
        }
        CartridgeDriver { rom, size }
    }
}

} // verus!
