//! The 64K-word address space.  Writes are plain stores everywhere, device
//! addresses included.  Reads are plain everywhere but at the
//! keyboard-status address, where a read first polls the console: a nonzero
//! byte sets the ready bit and latches the byte into the keyboard-data
//! register; a zero byte, end of input or a failed read clears the status
//! word.  The poll blocks until the console yields a byte; this one policy
//! is applied everywhere a device read happens.

use vstd::prelude::*;
use crate::console::read_console_byte;
use crate::isa::KBDR;
use crate::isa::KBSR;
use crate::isa::mem_step;

verus! {

/// The flat 65536-word memory, addressed by the full 16-bit range.
pub struct Memory(pub Vec<u16>);

impl View for Memory {
    type V = Seq<u16>;

    open spec fn view(&self) -> Seq<u16> {
        self.0@
    }
}

impl Memory {
    /// Well-formedness: the backing vector covers the whole address space.
    pub open spec fn wf(&self) -> bool {
        self@.len() == 0x10000
    }

    /// A fresh memory holds zero in every word.
    pub fn new() -> (r: Memory)
        ensures
            r.wf(),
            forall|a: int| 0 <= a < 0x10000 ==> r@[a] == 0,
    {
        let words: Vec<u16> = vec![0u16; 0x10000];
        assert forall|a: int| 0 <= a < 0x10000 implies words@[a] == 0u16 by {
            assert(cloned(0u16, words@[a]));
        }
        Memory(words)
    }

    /// The word stored at `address`, with no device behaviour.
    pub fn get(&self, address: u16) -> (r: u16)
        requires
            self.wf(),
        ensures
            r == self@[address as int],
    {
        self.0[address as usize]
    }

    /// An unconditional store.  Writing a device address is a plain memory
    /// write, not a device command.
    pub fn write(&mut self, address: u16, value: u16)
        requires
            old(self).wf(),
        ensures
            final(self).wf(),
            final(self)@ == old(self)@.update(address as int, value),
    {
        self.0[address as usize] = value;
    }

    /// A device-aware read: plain everywhere but at the keyboard-status
    /// address, where the console is polled first.  The result is the word
    /// stored at `address` once the poll has settled.
    pub fn read(&mut self, address: u16) -> (r: u16)
        requires
            old(self).wf(),
        ensures
            final(self).wf(),
            mem_step(old(self)@, final(self)@, address),
            r == final(self)@[address as int],
    {
        if address == KBSR {
            match read_console_byte() {
                Some(b) => {
                    if b != 0 {
                        self.write(KBSR, 0x8000);
                        self.write(KBDR, b as u16);
                        proof {
                            assert(b as u16 == self@[KBDR as int]);
                        }
                    } else {
                        self.write(KBSR, 0);
                    }
                },
                None => {
                    self.write(KBSR, 0);
                },
            }
        }
        self.get(address)
    }
}

} // verus!
