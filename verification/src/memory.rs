//! Memory bank and display buffer.

use vstd::prelude::*;

verus! {

use crate::DISPLAY_HEIGHT;
use crate::DISPLAY_WIDTH;
use crate::RAM_SIZE;

/// Lowest address at which a program image is placed.
pub const PROGRAM_START_ADDRESS: usize = 0x200;

/// The 64x32 bit grid of pixel state, row-major. Each cell is exactly
/// 0 or 1; drawing combines sprite bits with the buffer via exclusive-or.
pub struct Display {
    pub display: Vec<u8>,
}

/// Index of the cell at column `col`, row `row` in the row-major grid.
pub open spec fn cell_index(col: int, row: int) -> int {
    row * (DISPLAY_WIDTH as int) + col
}

impl Display {
    /// Every cell exists and holds a single bit.
    pub open spec fn wf(&self) -> bool {
        &&& self.display@.len() == DISPLAY_WIDTH * DISPLAY_HEIGHT
        &&& forall|i: int|
            0 <= i < self.display@.len() ==> self.display@[i] <= 1
    }

    pub fn get_sizes(&self) -> (r: (usize, usize))
        ensures
            r.0 == DISPLAY_WIDTH,
            r.1 == DISPLAY_HEIGHT,
    {
        (DISPLAY_WIDTH, DISPLAY_HEIGHT)
    }

    pub fn new() -> (r: Display)
        ensures
            r.wf(),
            r.display@.len() == DISPLAY_WIDTH * DISPLAY_HEIGHT,
            forall|i: int| 0 <= i < r.display@.len() ==> r.display@[i] == 0,
    {
        let mut cells: Vec<u8> = Vec::new();
        let mut i: usize = 0;
        while i < DISPLAY_WIDTH * DISPLAY_HEIGHT
            invariant
                i <= DISPLAY_WIDTH * DISPLAY_HEIGHT,
                cells@.len() == i,
                forall|j: int| 0 <= j < i ==> cells@[j] == 0,
            decreases DISPLAY_WIDTH * DISPLAY_HEIGHT - i,
        {
            cells.push(0);
            i += 1;
        }
        Display { display: cells }
    }

    /// Zero every cell.
    pub fn clear(&mut self)
        ensures
            final(self).wf(),
            final(self).display@.len() == DISPLAY_WIDTH * DISPLAY_HEIGHT,
            forall|i: int|
                0 <= i < final(self).display@.len() ==> final(self).display@[i] == 0,
    {
        let fresh = Display::new();
        self.display = fresh.display;
    }

    /// Read the bit at column `x`, row `y`.
    pub fn get(&self, x: usize, y: usize) -> (bit: u8)
        requires
            self.wf(),
            x < DISPLAY_WIDTH,
            y < DISPLAY_HEIGHT,
        ensures
            bit == self.display@[cell_index(x as int, y as int)],
    {
        self.display[y * DISPLAY_WIDTH + x]
    }

    /// Combine `bit` into the cell at column `x`, row `y` via exclusive-or.
    /// Reports a collision exactly when a set sprite bit lands on a cell
    /// that was already 1 (the exclusive-or then turns it off).
    pub fn xor_plot(&mut self, x: usize, y: usize, bit: u8) -> (collision: bool)
        requires
            old(self).wf(),
            x < DISPLAY_WIDTH,
            y < DISPLAY_HEIGHT,
            bit <= 1,
        ensures
            final(self).wf(),
            final(self).display@ == old(self).display@.update(
                cell_index(x as int, y as int),
                old(self).display@[cell_index(x as int, y as int)] ^ bit,
            ),
            collision == (bit == 1
                && old(self).display@[cell_index(x as int, y as int)] == 1),
    {
        let idx = y * DISPLAY_WIDTH + x;
        let was = self.display[idx];
        let now = was ^ bit;
        proof {
            let w = self.display@[idx as int];
            assert(w <= 1 && bit <= 1 ==> (w ^ bit) <= 1) by (bit_vector);
        }
        self.display.set(idx, now);
        bit == 1 && was == 1
    }
}

/// The built-in hexadecimal sprite font: 16 glyphs of 5 bytes each,
/// one glyph per hexadecimal digit, stored at the bottom of the bank.
pub open spec fn font() -> Seq<u8> {
    seq![
        0xF0u8, 0x90, 0x90, 0x90, 0xF0, // 0
        0x20, 0x60, 0x20, 0x20, 0x70, // 1
        0xF0, 0x10, 0xF0, 0x80, 0xF0, // 2
        0xF0, 0x10, 0xF0, 0x10, 0xF0, // 3
        0x90, 0x90, 0xF0, 0x10, 0x10, // 4
        0xF0, 0x80, 0xF0, 0x10, 0xF0, // 5
        0xF0, 0x80, 0xF0, 0x90, 0xF0, // 6
        0xF0, 0x10, 0x20, 0x40, 0x40, // 7
        0xF0, 0x90, 0xF0, 0x90, 0xF0, // 8
        0xF0, 0x90, 0xF0, 0x10, 0xF0, // 9
        0xF0, 0x90, 0xF0, 0x90, 0x90, // A
        0xE0, 0x90, 0xE0, 0x90, 0xE0, // B
        0xF0, 0x80, 0x80, 0x80, 0xF0, // C
        0xE0, 0x90, 0x90, 0x90, 0xE0, // D
        0xF0, 0x80, 0xF0, 0x80, 0xF0, // E
        0xF0, 0x80, 0xF0, 0x80, 0x80, // F
    ]
}

/// Failure reported when a program image does not fit in the bank.
#[derive(Debug, PartialEq, Eq, Structural, Clone, Copy)]
pub enum LoadError {
    SizeExceeded,
}

/// The 4096-byte memory bank, with its memory-mapped display buffer.
/// Addresses 0 to 79 hold the built-in font; a program image is placed
/// at `PROGRAM_START_ADDRESS` and onward.
pub struct Memory {
    pub memory: Vec<u8>,
    pub display: Display,
}

impl Memory {
    /// Every address exists and the display buffer is well formed.
    pub open spec fn wf(&self) -> bool {
        &&& self.memory@.len() == RAM_SIZE
        &&& self.display.wf()
    }

    pub fn new() -> (r: Memory)
        ensures
            r.wf(),
            forall|i: int| 0 <= i < font().len() ==> r.memory@[i] == font()[i],
            forall|i: int| font().len() <= i < RAM_SIZE ==> r.memory@[i] == 0,
            forall|i: int|
                0 <= i < r.display.display@.len() ==> r.display.display@[i] == 0,
    {
        let sprites: Vec<u8> = vec![
            0xF0u8, 0x90, 0x90, 0x90, 0xF0, // 0
            0x20, 0x60, 0x20, 0x20, 0x70, // 1
            0xF0, 0x10, 0xF0, 0x80, 0xF0, // 2
            0xF0, 0x10, 0xF0, 0x10, 0xF0, // 3
            0x90, 0x90, 0xF0, 0x10, 0x10, // 4
            0xF0, 0x80, 0xF0, 0x10, 0xF0, // 5
            0xF0, 0x80, 0xF0, 0x90, 0xF0, // 6
            0xF0, 0x10, 0x20, 0x40, 0x40, // 7
            0xF0, 0x90, 0xF0, 0x90, 0xF0, // 8
            0xF0, 0x90, 0xF0, 0x10, 0xF0, // 9
            0xF0, 0x90, 0xF0, 0x90, 0x90, // A
            0xE0, 0x90, 0xE0, 0x90, 0xE0, // B
            0xF0, 0x80, 0x80, 0x80, 0xF0, // C
            0xE0, 0x90, 0x90, 0x90, 0xE0, // D
            0xF0, 0x80, 0xF0, 0x80, 0xF0, // E
            0xF0, 0x80, 0xF0, 0x80, 0x80, // F
        ];
        proof {
            assert(sprites@ =~= font());
        }
        let mut bytes: Vec<u8> = Vec::new();
        let mut i: usize = 0;
        while i < RAM_SIZE
            invariant
                i <= RAM_SIZE,
                bytes@.len() == i,
                forall|j: int| 0 <= j < i ==> bytes@[j] == 0,
            decreases RAM_SIZE - i,
        {
            bytes.push(0);
            i += 1;
        }
        let mut memory = Memory { memory: bytes, display: Display::new() };
        let mut k: usize = 0;
        while k < 80
            invariant
                k <= 80,
                sprites@ == font(),
                memory.memory@.len() == RAM_SIZE,
                memory.display.wf(),
                forall|j: int|
                    0 <= j < memory.display.display@.len()
                        ==> memory.display.display@[j] == 0,
                forall|j: int| 0 <= j < k ==> memory.memory@[j] == font()[j],
                forall|j: int| k <= j < RAM_SIZE ==> memory.memory@[j] == 0,
            decreases 80 - k,
        {
            let byte = sprites[k];
            memory.memory.set(k, byte);
            k += 1;
        }
        memory
    }

    /// Copy a program image into the bank starting at
    /// `PROGRAM_START_ADDRESS`. An image that does not fit in the
    /// remaining space is rejected whole: nothing is written.
    pub fn load(&mut self, buffer: &Vec<u8>) -> (r: Result<(), LoadError>)
        requires
            old(self).wf(),
        ensures
            final(self).wf(),
            r is Ok <==> buffer@.len() <= RAM_SIZE - PROGRAM_START_ADDRESS,
            r is Ok ==> {
                &&& forall|i: int|
                    0 <= i < buffer@.len()
                        ==> final(self).memory@[PROGRAM_START_ADDRESS + i]
                            == buffer@[i]
                &&& forall|i: int|
                    0 <= i < PROGRAM_START_ADDRESS
                        ==> final(self).memory@[i] == old(self).memory@[i]
                &&& forall|i: int|
                    PROGRAM_START_ADDRESS + buffer@.len() <= i < RAM_SIZE
                        ==> final(self).memory@[i] == old(self).memory@[i]
                &&& final(self).display == old(self).display
            },
            r is Err ==> *final(self) == *old(self),
    {
        if buffer.len() > RAM_SIZE - PROGRAM_START_ADDRESS {
            return Err(LoadError::SizeExceeded);
        }
        let mut i: usize = 0;
        while i < buffer.len()
            invariant
                self.memory@.len() == RAM_SIZE,
                self.display == old(self).display,
                buffer@.len() <= RAM_SIZE - PROGRAM_START_ADDRESS,
                i <= buffer@.len(),
                forall|j: int|
                    0 <= j < i
                        ==> self.memory@[PROGRAM_START_ADDRESS + j] == buffer@[j],
                forall|j: int|
                    0 <= j < PROGRAM_START_ADDRESS
                        ==> self.memory@[j] == old(self).memory@[j],
                forall|j: int|
                    PROGRAM_START_ADDRESS + buffer@.len() <= j < RAM_SIZE
                        ==> self.memory@[j] == old(self).memory@[j],
            decreases buffer@.len() - i,
        {
            let byte = buffer[i];
            self.memory.set(PROGRAM_START_ADDRESS + i, byte);
            i += 1;
        }
        Ok(())
    }
}

} // verus!
