//! Devices: the byte-stream device interface, cursors over memory slices,
//! and the keyboard and mouse framing logic.
//!
//! A device moves single bytes; words travel over the wire most
//! significant byte first.  On its first reads a device presents a fixed
//! ASCII identifier padded with zero bytes to a sixteen-byte frame, and
//! live state afterwards.

use vstd::prelude::*;

verus! {

/// A byte device: reads may block until data arrives, writes hand one
/// byte over.
pub trait Device {
    /// Reads one byte from the device.
    fn read8(&mut self) -> u8;

    /// Writes one byte to the device.
    fn write8(&mut self, data: u8);

    /// Finishes a burst of reads.
    fn flush_read(&mut self);

    /// Finishes a burst of writes.
    fn flush_write(&mut self);
}

/// Reads a word from a device, most significant byte first.
pub fn device_read_word<D: Device>(dev: &mut D) -> u32 {
    let b0 = dev.read8();
    let b1 = dev.read8();
    let b2 = dev.read8();
    let b3 = dev.read8();
    ((b0 as u32) << 24) | ((b1 as u32) << 16) | ((b2 as u32) << 8) | (b3 as u32)
}

/// Writes a word to a device, most significant byte first.
pub fn device_write_word<D: Device>(dev: &mut D, data: u32) {
    proof {
        crate::mem::lemma_word_bytes(data);
    }
    dev.write8(((data >> 24) & 0xFF) as u8);
    dev.write8(((data >> 16) & 0xFF) as u8);
    dev.write8(((data >> 8) & 0xFF) as u8);
    dev.write8((data & 0xFF) as u8);
}

/// A reading cursor over a memory slice.
pub struct MemRead<'a> {
    pub slice: &'a [u8],
    pub index: usize,
}

impl<'a> MemRead<'a> {
    /// A cursor at the start of a slice.
    pub fn new(slice: &'a [u8]) -> (r: MemRead<'a>)
        ensures
            r.slice@ == slice@,
            r.index == 0,
    {
        MemRead { slice, index: 0 }
    }

    /// The next byte, advancing the cursor; `None` at the end.
    pub fn next(&mut self) -> (r: Option<u8>)
        ensures
            old(self).index < old(self).slice@.len() ==> r == Some(
                old(self).slice@[old(self).index as int],
            ) && final(self).index == old(self).index + 1,
            old(self).index >= old(self).slice@.len() ==> r is None && final(self).index == old(
                self,
            ).index,
            final(self).slice@ == old(self).slice@,
    {
        if self.index < self.slice.len() {
            let b = self.slice[self.index];
            self.index = self.index + 1;
            Some(b)
        } else {
            None
        }
    }

    /// Reads up to `count` bytes into a fresh vector: exactly the bytes
    /// from the cursor up to `count` further or the end of the slice,
    /// whichever comes first.
    pub fn read(&mut self, count: usize) -> (r: Vec<u8>)
        requires
            old(self).index <= old(self).slice@.len(),
        ensures
            final(self).slice@ == old(self).slice@,
            ({
                let from = old(self).index as int;
                let upto = if from + count <= old(self).slice@.len() {
                    from + count
                } else {
                    old(self).slice@.len() as int
                };
                &&& final(self).index == upto
                &&& r@ == old(self).slice@.subrange(from, upto)
            }),
    {
        let len = self.slice.len();
        let from = self.index;
        let end = if count <= len - from {
            from + count
        } else {
            len
        };
        let mut out: Vec<u8> = Vec::new();
        let mut i: usize = from;
        while i < end
            invariant
                from <= i <= end <= self.slice@.len(),
                self.slice@ == old(self).slice@,
                self.index == from,
                out@ =~= old(self).slice@.subrange(from as int, i as int),
            decreases end - i,
        {
            out.push(self.slice[i]);
            i = i + 1;
            proof {
                assert(out@ =~= old(self).slice@.subrange(from as int, i as int));
            }
        }
        self.index = end;
        out
    }
}

/// A writing cursor that gathers bytes for a memory slice of a fixed
/// size; what is gathered is later placed into memory by the owner of
/// the memory.
pub struct MemWrite {
    pub buf: Vec<u8>,
    pub limit: usize,
}

impl MemWrite {
    /// A cursor for a slice of `limit` bytes.
    pub fn new(limit: usize) -> (r: MemWrite)
        ensures
            r.buf@.len() == 0,
            r.limit == limit,
    {
        MemWrite { buf: Vec::new(), limit }
    }

    /// Appends the bytes that fit; exactly as many are taken as there is
    /// room for under the limit.
    pub fn write(&mut self, data: &Vec<u8>) -> (taken: usize)
        ensures
            final(self).limit == old(self).limit,
            taken == (if old(self).buf@.len() >= old(self).limit {
                0int
            } else if data@.len() <= old(self).limit - old(self).buf@.len() {
                data@.len() as int
            } else {
                old(self).limit - old(self).buf@.len()
            }),
            final(self).buf@ == old(self).buf@ + data@.subrange(0, taken as int),
    {
        let ghost prev = self.buf@;
        let mut i: usize = 0;
        while i < data.len()
            invariant
                i <= data@.len(),
                prev == old(self).buf@,
                self.limit == old(self).limit,
                self.buf@.len() == prev.len() + i,
                i > 0 ==> prev.len() + i <= old(self).limit,
                self.buf@ =~= prev + data@.subrange(0, i as int),
            decreases data@.len() - i,
        {
            if self.buf.len() >= self.limit {
                proof {
                    assert(self.buf@ =~= prev + data@.subrange(0, i as int));
                }
                return i;
            }
            self.buf.push(data[i]);
            i = i + 1;
            proof {
                assert(self.buf@ =~= prev + data@.subrange(0, i as int));
            }
        }
        proof {
            assert(data@.subrange(0, data@.len() as int) =~= data@);
        }
        i
    }

    /// Hands the gathered bytes over.
    pub fn flush(self) -> (r: Vec<u8>)
        ensures
            r@ == self.buf@,
    {
        self.buf
    }
}

/// The keyboard state frame: the key code most significant byte first,
/// then the text byte and the modifier flags — six bytes.
pub open spec fn keyboard_frame(key: u32, text: u8, flags: u8) -> Seq<u8> {
    seq![
        ((key >> 24) & 0xFF) as u8,
        ((key >> 16) & 0xFF) as u8,
        ((key >> 8) & 0xFF) as u8,
        (key & 0xFF) as u8,
        text,
        flags,
    ]
}

/// The modifier byte of the keyboard frame: key-down in the top bit,
/// then alt, command, control and shift.
pub fn keyboard_flags(down: bool, alt: bool, cmd: bool, ctrl: bool, shift: bool) -> (r: u8)
    ensures
        r == (if down {
            128int
        } else {
            0int
        }) + (if alt {
            8int
        } else {
            0int
        }) + (if cmd {
            4int
        } else {
            0int
        }) + (if ctrl {
            2int
        } else {
            0int
        }) + (if shift {
            1int
        } else {
            0int
        }),
{
    let mut r: u8 = 0;
    if down {
        r = r + 128;
    }
    if alt {
        r = r + 8;
    }
    if cmd {
        r = r + 4;
    }
    if ctrl {
        r = r + 2;
    }
    if shift {
        r = r + 1;
    }
    r
}

/// The keyboard device: serves its identifier frame first, then
/// six-byte state frames composed from the latest key data.
pub struct Keyboard {
    pub sending: Vec<u8>,
    pub key: u32,
    pub text: u8,
    pub flags: u8,
}

impl Keyboard {
    /// A keyboard about to present its identifier.
    pub fn new() -> (r: Keyboard)
        ensures
            r.sending@.len() == 16,
            r.key == 0,
            r.text == 0,
            r.flags == 0,
    {
        let mut sending: Vec<u8> = Vec::new();
        // The ASCII identifier "keyboard", zero-padded to sixteen bytes.
        sending.push(107);
        sending.push(101);
        sending.push(121);
        sending.push(98);
        sending.push(111);
        sending.push(97);
        sending.push(114);
        sending.push(100);
        let mut i: usize = 0;
        while i < 8
            invariant
                sending@.len() == 8 + i,
                i <= 8,
            decreases 8 - i,
        {
            sending.push(0);
            i = i + 1;
        }
        Keyboard { sending, key: 0, text: 0, flags: 0 }
    }

    /// Stores the latest key state.
    pub fn set_key_data(&mut self, key: u32, text: u8, flags: u8)
        ensures
            final(self).sending@ == old(self).sending@,
            final(self).key == key,
            final(self).text == text,
            final(self).flags == flags,
    {
        self.key = key;
        self.text = text;
        self.flags = flags;
    }

    /// The next byte for the wire: when the queue runs dry it is refilled
    /// with a state frame from the latest key data.
    pub fn write_byte(&mut self) -> (r: Option<u8>)
        ensures
            old(self).sending@.len() == 0 ==> final(self).sending@ == keyboard_frame(
                old(self).key,
                old(self).text,
                old(self).flags,
            ).drop_first() && r == Some(keyboard_frame(old(self).key, old(self).text, old(self).flags)[0]),
            old(self).sending@.len() > 0 ==> final(self).sending@ == old(
                self,
            ).sending@.drop_first() && r == Some(old(self).sending@[0]),
    {
        if self.sending.len() == 0 {
            proof {
                crate::mem::lemma_word_bytes(self.key);
            }
            self.sending.push(((self.key >> 24) & 0xFF) as u8);
            self.sending.push(((self.key >> 16) & 0xFF) as u8);
            self.sending.push(((self.key >> 8) & 0xFF) as u8);
            self.sending.push((self.key & 0xFF) as u8);
            self.sending.push(self.text);
            self.sending.push(self.flags);
            proof {
                assert(self.sending@ =~= keyboard_frame(self.key, self.text, self.flags));
            }
        }
        let b = self.sending.remove(0);
        Some(b)
    }

    /// The keyboard takes nothing from the machine.
    pub fn receive_byte(&mut self, data: u8)
        ensures
            *final(self) == *old(self),
    {
        let _ = data;
    }
}

/// The mouse state frame: the two coordinates most significant byte
/// first, then the button mask.
pub open spec fn mouse_frame(x: u32, y: u32, mask: u8) -> Seq<u8> {
    seq![
        ((x >> 24) & 0xFF) as u8,
        ((x >> 16) & 0xFF) as u8,
        ((x >> 8) & 0xFF) as u8,
        (x & 0xFF) as u8,
        ((y >> 24) & 0xFF) as u8,
        ((y >> 16) & 0xFF) as u8,
        ((y >> 8) & 0xFF) as u8,
        (y & 0xFF) as u8,
        mask,
    ]
}

/// The mouse device: serves its identifier frame first, then nine-byte
/// state frames from the latest pointer data.
pub struct Mouse {
    pub sending: Vec<u8>,
    pub x: u32,
    pub y: u32,
    pub mask: u8,
}

impl Mouse {
    /// A mouse about to present its identifier.
    pub fn new() -> (r: Mouse)
        ensures
            r.sending@.len() == 16,
            r.x == 0,
            r.y == 0,
            r.mask == 0,
    {
        let mut sending: Vec<u8> = Vec::new();
        // The ASCII identifier "mouse", zero-padded to sixteen bytes.
        sending.push(109);
        sending.push(111);
        sending.push(117);
        sending.push(115);
        sending.push(101);
        let mut i: usize = 0;
        while i < 11
            invariant
                sending@.len() == 5 + i,
                i <= 11,
            decreases 11 - i,
        {
            sending.push(0);
            i = i + 1;
        }
        Mouse { sending, x: 0, y: 0, mask: 0 }
    }

    /// Stores the latest pointer state.
    pub fn set_mouse_data(&mut self, x: u32, y: u32, mask: u8)
        ensures
            final(self).sending@ == old(self).sending@,
            final(self).x == x,
            final(self).y == y,
            final(self).mask == mask,
    {
        self.x = x;
        self.y = y;
        self.mask = mask;
    }

    /// The next byte for the wire: when the queue runs dry it is refilled
    /// with a state frame from the latest pointer data.
    pub fn write_byte(&mut self) -> (r: Option<u8>)
        ensures
            old(self).sending@.len() == 0 ==> final(self).sending@ == mouse_frame(
                old(self).x,
                old(self).y,
                old(self).mask,
            ).drop_first() && r == Some(mouse_frame(old(self).x, old(self).y, old(self).mask)[0]),
            old(self).sending@.len() > 0 ==> final(self).sending@ == old(
                self,
            ).sending@.drop_first() && r == Some(old(self).sending@[0]),
    {
        if self.sending.len() == 0 {
            proof {
                crate::mem::lemma_word_bytes(self.x);
                crate::mem::lemma_word_bytes(self.y);
            }
            self.sending.push(((self.x >> 24) & 0xFF) as u8);
            self.sending.push(((self.x >> 16) & 0xFF) as u8);
            self.sending.push(((self.x >> 8) & 0xFF) as u8);
            self.sending.push((self.x & 0xFF) as u8);
            self.sending.push(((self.y >> 24) & 0xFF) as u8);
            self.sending.push(((self.y >> 16) & 0xFF) as u8);
            self.sending.push(((self.y >> 8) & 0xFF) as u8);
            self.sending.push((self.y & 0xFF) as u8);
            self.sending.push(self.mask);
            proof {
                assert(self.sending@ =~= mouse_frame(self.x, self.y, self.mask));
            }
        }
        let b = self.sending.remove(0);
        Some(b)
    }

    /// The mouse takes nothing from the machine.
    pub fn receive_byte(&mut self, data: u8)
        ensures
            *final(self) == *old(self),
    {
        let _ = data;
    }
}

} // verus!
