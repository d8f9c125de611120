use vstd::prelude::*;

use wokwi_chip_ll::PinId;

use crate::chip::Chip;
use crate::pin::{inverse_level, inverted_level};

verus! {

/// Every chip instance set up so far, each known by its index, which the host
/// hands back to the callbacks.
pub struct ChipRegistry {
    pub chips: Vec<Chip>,
}

impl ChipRegistry {
    /// Every chip's cursor points into its active buffer.
    pub open spec fn wf(&self) -> bool {
        forall|i: int| 0 <= i < self.chips@.len() ==> (#[trigger] self.chips@[i]).wf()
    }

    /// A registry with no chips.
    pub fn new() -> (r: ChipRegistry)
        ensures
            r.wf(),
            r.chips@.len() == 0,
    {
        ChipRegistry { chips: Vec::new() }
    }

    /// The number of chips set up so far.
    pub fn len(&self) -> (n: usize)
        ensures
            n == self.chips@.len(),
    {
        self.chips.len()
    }

    /// Sets up a new chip on the given pins and returns its index.
    pub fn chip_init(&mut self, pin_in: PinId, pin_out: PinId) -> (index: usize)
        requires
            old(self).wf(),
        ensures
            final(self).wf(),
            index == old(self).chips@.len(),
            final(self).chips@.len() == old(self).chips@.len() + 1,
            final(self).chips@.subrange(0, index as int) == old(self).chips@,
            final(self).chips@[index as int].is_fresh(pin_in, pin_out),
    {
        let index = self.chips.len();
        self.chips.push(Chip::new(pin_in, pin_out));
        assert(self.chips@.subrange(0, index as int) =~= old(self).chips@);
        index
    }

    /// A bus master addressed chip `index`: its cursor goes back to the start of
    /// its active buffer. The chip always accepts.
    pub fn i2c_connect(&mut self, index: usize) -> (accepted: bool)
        requires
            old(self).wf(),
            index < old(self).chips@.len(),
        ensures
            accepted,
            final(self).wf(),
            final(self).chips@ == old(self).chips@.update(
                index as int,
                Chip { current_byte: 0, ..old(self).chips@[index as int] },
            ),
    {
        self.chips[index].connect();
        true
    }

    /// A bus master reads a byte from chip `index`.
    pub fn i2c_read(&mut self, index: usize) -> (b: u8)
        requires
            old(self).wf(),
            index < old(self).chips@.len(),
        ensures
            b == old(self).chips@[index as int].next_byte(),
            final(self).wf(),
            final(self).chips@ == old(self).chips@.update(
                index as int,
                old(self).chips@[index as int].after_read(),
            ),
    {
        self.chips[index].read_byte()
    }

    /// The input pin of chip `index` changed to `value`: returns the output pin
    /// of that chip and the level to drive on it.
    pub fn on_pin_change(&self, index: usize, value: u32) -> (r: (PinId, u32))
        requires
            index < self.chips@.len(),
        ensures
            r == (self.chips@[index as int].pin_out, inverse_level(value)),
    {
        (self.chips[index].pin_out, inverted_level(value))
    }
}

} // verus!
