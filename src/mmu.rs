use vstd::prelude::*;

verus! {

/// Number of addressable bytes on the bus.
pub const MEMORY_SIZE: usize = 0x10000;

/// The flat, unbanked 64KB memory bus.
pub struct MMU {
    pub memory: Vec<u8>,
}

impl MMU {
    /// The bus is well formed when it holds exactly one byte per 16-bit address.
    pub open spec fn wf(&self) -> bool {
        self.memory@.len() == MEMORY_SIZE
    }

    pub open spec fn view(&self) -> Seq<u8> {
        self.memory@
    }

    pub fn new() -> (r: Self)
        ensures
            r.wf(),
            forall|i: int| 0 <= i < MEMORY_SIZE ==> #[trigger] r@[i] == 0,
    {
        let memory = vec![0u8; MEMORY_SIZE];
        MMU { memory }
    }

    pub fn read_byte(&self, addr: u16) -> (r: u8)
        requires
            self.wf(),
        ensures
            r == self@[addr as int],
    {
        self.memory[addr as usize]
    }

    pub fn write_byte(&mut self, addr: u16, value: u8)
        requires
            old(self).wf(),
        ensures
            final(self).wf(),
            final(self)@ == old(self)@.update(addr as int, value),
    {
        self.memory.set(addr as usize, value);
    }

    /// Copies `rom` into memory from address 0. Bytes beyond the end of the
    /// bus are dropped; the result says whether that happened.
    pub fn load_rom(&mut self, rom: &[u8]) -> (truncated: bool)
        requires
            old(self).wf(),
        ensures
            final(self).wf(),
            truncated == (rom@.len() > MEMORY_SIZE),
            forall|i: int|
                0 <= i < MEMORY_SIZE ==> #[trigger] final(self)@[i] == if i < rom@.len() {
                    rom@[i]
                } else {
                    old(self)@[i]
                },
    {
        let n: usize = if rom.len() < MEMORY_SIZE {
            rom.len()
        } else {
            MEMORY_SIZE
        };
        let mut i: usize = 0;
        while i < n
            invariant
                n <= MEMORY_SIZE,
                n <= rom@.len(),
                n == rom@.len() || n == MEMORY_SIZE,
                i <= n,
                self.wf(),
                forall|j: int|
                    0 <= j < MEMORY_SIZE ==> #[trigger] self@[j] == if j < i {
                        rom@[j]
                    } else {
                        old(self)@[j]
                    },
            decreases n - i,
        {
            let ghost before = self@;
            self.memory.set(i, rom[i]);
            assert forall|j: int| 0 <= j < MEMORY_SIZE implies #[trigger] self@[j] == if j < i + 1 {
                rom@[j]
            } else {
                old(self)@[j]
            } by {
                if j != i {
                    assert(self@[j] == before[j]);
                }
            }
            i = i + 1;
        }
        rom.len() > MEMORY_SIZE
    }

    /// The tile number stored in the background tile map (at 0x9800, 32
    /// entries per row) for tile column `x` and row `y`.
    pub fn get_tile_index_from_map(&self, x: u16, y: u16) -> (r: u16)
        requires
            self.wf(),
            0x9800 + 32 * y + x < MEMORY_SIZE,
        ensures
            r == self@[0x9800 + 32 * y + x] as u16,
    {
        let map_address = 0x9800 + y * 32 + x;
        self.read_byte(map_address) as u16
    }

    /// The 16 bytes of tile `tile_index` in the tile data area at 0x8000.
    pub fn get_tile_data(&self, tile_index: u16) -> (r: [u8; 16])
        requires
            self.wf(),
            0x8000 + 16 * tile_index + 16 <= MEMORY_SIZE,
        ensures
            r@ == self@.subrange(0x8000 + 16 * tile_index, 0x8000 + 16 * tile_index + 16),
    {
        let start: usize = 0x8000 + tile_index as usize * 16;
        let mut tile_data = [0u8; 16];
        let mut i: usize = 0;
        while i < 16
            invariant
                self.wf(),
                start == 0x8000 + 16 * tile_index,
                start + 16 <= MEMORY_SIZE,
                i <= 16,
                tile_data@.len() == 16,
                forall|j: int| 0 <= j < i ==> #[trigger] tile_data@[j] == self@[start + j],
            decreases 16 - i,
        {
            tile_data[i] = self.memory[start + i];
            i = i + 1;
        }
        assert(tile_data@ =~= self@.subrange(start as int, start + 16));
        tile_data
    }
}

} // verus!
