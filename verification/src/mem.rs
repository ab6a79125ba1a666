//! The paged memory: a sparse, lazily allocated, byte-addressable store of one
//! mebibyte, read and written by byte, by aligned little-endian word, or in bulk within
//! one page.

use vstd::prelude::*;

use crate::word;

verus! {

/// Size of the address space in bytes.
pub const MEMORY_SIZE: usize = 0x10_0000;

/// Size of a page in bytes.
pub const PAGE_SIZE: usize = 0x0_8000;

/// Number of pages.
pub const PAGE_NUM: usize = MEMORY_SIZE / PAGE_SIZE;

/// The memory. Each of its pages is either absent, and then reads as zeros, or a
/// page-sized array of bytes on the heap.
pub struct Memory(pub [Option<Box<[u8; PAGE_SIZE]>>; PAGE_NUM]);

/// The contents of a memory: for each page, its bytes if it is allocated.
pub type Pages = Seq<Option<Seq<u8>>>;

impl View for Memory {
    type V = Pages;

    open spec fn view(&self) -> Pages {
        Seq::new(
            PAGE_NUM as nat,
            |i: int|
                match self.0@[i] {
                    Some(p) => Some(p@),
                    None => None,
                },
        )
    }
}

/// What every memory's contents satisfy: there are `PAGE_NUM` pages, and each page
/// that is allocated holds exactly `PAGE_SIZE` bytes.
pub open spec fn valid_pages(m: Pages) -> bool {
    &&& m.len() == PAGE_NUM
    &&& forall|i: int| 0 <= i < m.len() ==> ((#[trigger] m[i]) matches Some(p) ==> p.len() == PAGE_SIZE)
}

/// The contents of a memory without any page allocated.
pub open spec fn empty_pages() -> Pages {
    Seq::new(PAGE_NUM as nat, |i: int| None::<Seq<u8>>)
}

/// A page of zeros.
pub open spec fn zero_page() -> Seq<u8> {
    Seq::new(PAGE_SIZE as nat, |i: int| 0u8)
}

/// The bytes that page `page` reads as: its own if it is allocated, zeros if not.
pub open spec fn page_bytes(m: Pages, page: int) -> Seq<u8> {
    match m[page] {
        Some(p) => p,
        None => zero_page(),
    }
}

/// `page` with the bytes from `offset` on replaced by `data`.
pub open spec fn splice(page: Seq<u8>, offset: int, data: Seq<u8>) -> Seq<u8> {
    Seq::new(
        page.len(),
        |i: int|
            if offset <= i < offset + data.len() {
                data[i - offset]
            } else {
                page[i]
            },
    )
}

/// The word that four bytes hold in little-endian order.
pub open spec fn word_from_le(b: Seq<u8>) -> word {
    (b[0] + b[1] * 0x100 + b[2] * 0x1_0000 + b[3] * 0x100_0000) as word
}

/// The four bytes of a word in little-endian order.
pub open spec fn word_to_le(w: word) -> Seq<u8> {
    seq![
        (w % 0x100) as u8,
        ((w / 0x100) % 0x100) as u8,
        ((w / 0x1_0000) % 0x100) as u8,
        (w / 0x100_0000) as u8,
    ]
}

/// Whether `addr` is word-aligned.
pub open spec fn spec_is_aligned(addr: word) -> bool {
    addr % 4 == 0
}

/// The page that holds `addr`, and the offset of `addr` within it.
pub open spec fn spec_addr_to_indices(addr: word) -> (usize, usize) {
    ((addr as usize) / PAGE_SIZE, (addr as usize) % PAGE_SIZE)
}

/// The byte at `addr`, or `None` for an address outside the memory.
pub open spec fn spec_get_byte(m: Pages, addr: word) -> Option<u8> {
    let (page, offset) = spec_addr_to_indices(addr);
    if page < PAGE_NUM {
        Some(page_bytes(m, page as int)[offset as int])
    } else {
        None
    }
}

/// The `len` bytes from `addr` on, or `None` if they do not all lie in one page of the
/// memory.
pub open spec fn spec_get_slice(m: Pages, addr: word, len: usize) -> Option<Seq<u8>> {
    let (page, offset) = spec_addr_to_indices(addr);
    if page < PAGE_NUM && offset + len <= PAGE_SIZE {
        Some(page_bytes(m, page as int).subrange(offset as int, offset + len))
    } else {
        None
    }
}

/// The memory after `data` is written from `addr` on, or `None` if the bytes written
/// would not all lie in one page of the memory. The page written to is allocated
/// afterwards; no other page changes.
pub open spec fn spec_write_slice(m: Pages, addr: word, data: Seq<u8>) -> Option<Pages> {
    let (page, offset) = spec_addr_to_indices(addr);
    if page < PAGE_NUM && offset + data.len() <= PAGE_SIZE {
        Some(m.update(page as int, Some(splice(page_bytes(m, page as int), offset as int, data))))
    } else {
        None
    }
}

/// The memory after the byte at `addr` is set to `val`, or `None` for an address
/// outside the memory.
pub open spec fn spec_set_byte(m: Pages, addr: word, val: u8) -> Option<Pages> {
    spec_write_slice(m, addr, seq![val])
}

/// The little-endian word at `addr`, or `None` for an address that is misaligned or
/// outside the memory.
pub open spec fn spec_get_word(m: Pages, addr: word) -> Option<word> {
    if spec_is_aligned(addr) {
        match spec_get_slice(m, addr, 4) {
            Some(b) => Some(word_from_le(b)),
            None => None,
        }
    } else {
        None
    }
}

/// The memory after the little-endian word at `addr` is set to `val`, or `None` for an
/// address that is misaligned or outside the memory.
pub open spec fn spec_set_word(m: Pages, addr: word, val: word) -> Option<Pages> {
    if spec_is_aligned(addr) {
        spec_write_slice(m, addr, word_to_le(val))
    } else {
        None
    }
}

/// Copies `data` into `page` from `offset` on.
fn copy_into(page: &mut [u8; PAGE_SIZE], offset: usize, data: &[u8])
    requires
        offset + data@.len() <= PAGE_SIZE,
    ensures
        final(page)@ == splice(old(page)@, offset as int, data@),
{
    let mut i: usize = 0;
    while i < data.len()
        invariant
            i <= data@.len(),
            offset + data@.len() <= PAGE_SIZE,
            page@ == splice(old(page)@, offset as int, data@.subrange(0, i as int)),
        decreases data@.len() - i,
    {
        page[offset + i] = data[i];
        i += 1;
        assert(page@ =~= splice(old(page)@, offset as int, data@.subrange(0, i as int)));
    }
    assert(data@.subrange(0, i as int) =~= data@);
}

impl Default for Memory {
    /// A memory without any page allocated, so that every byte in it reads as zero.
    fn default() -> (m: Memory)
        ensures
            m@ == empty_pages(),
    {
        let m = Memory(
            [
                None,
                None,
                None,
                None,
                None,
                None,
                None,
                None,
                None,
                None,
                None,
                None,
                None,
                None,
                None,
                None,
                None,
                None,
                None,
                None,
                None,
                None,
                None,
                None,
                None,
                None,
                None,
                None,
                None,
                None,
                None,
                None,
            ],
        );
        assert(m@ =~= empty_pages());
        m
    }
}

impl Memory {
    /// The contents of every memory are valid.
    pub proof fn lemma_valid(&self)
        ensures
            valid_pages(self@),
    {
    }

    /// Returns true if the address is word-aligned.
    pub fn is_aligned(addr: word) -> (r: bool)
        ensures
            r == spec_is_aligned(addr),
    {
        (addr % 4) == 0
    }

    /// Splits an address into the number of its page and its offset within the page.
    pub fn addr_to_indices(addr: word) -> (r: (usize, usize))
        ensures
            r == spec_addr_to_indices(addr),
            r.1 < PAGE_SIZE,
    {
        ((addr as usize) / PAGE_SIZE, (addr as usize) % PAGE_SIZE)
    }

    /// Makes a page of zeros.
    pub fn make_page() -> (p: Box<[u8; PAGE_SIZE]>)
        ensures
            p@ == zero_page(),
    {
        let p = Box::new([0u8;PAGE_SIZE]);
        assert(p@ =~= zero_page());
        p
    }

    /// Deallocates every page.
    pub fn clear(&mut self)
        ensures
            final(self)@ == empty_pages(),
    {
        let mut i: usize = 0;
        while i < PAGE_NUM
            invariant
                i <= PAGE_NUM,
                forall|j: int| 0 <= j < i ==> self.0@[j] is None,
            decreases PAGE_NUM - i,
        {
            self.0[i] = None;
            i += 1;
        }
        assert(self@ =~= empty_pages());
    }

    /// Reads the byte at `addr`. A page that is not allocated reads as zeros, and stays
    /// unallocated.
    pub fn get_byte(&self, addr: word) -> (r: Option<u8>)
        ensures
            r == spec_get_byte(self@, addr),
    {
        let (page, offset) = Memory::addr_to_indices(addr);
        if page >= PAGE_NUM {
            return None;
        }
        match &self.0[page] {
            Some(p) => Some(p[offset]),
            None => Some(0),
        }
    }

    /// Gives access to the byte at `addr`, allocating its page if need be. What the
    /// caller leaves in the byte is what the memory then holds there.
    pub fn get_byte_mut(&mut self, addr: word) -> (r: Option<&mut u8>)
        ensures
            match spec_get_byte(old(self)@, addr) {
                Some(b) => r matches Some(cell) && *cell == b && Some(final(self)@)
                    == spec_set_byte(old(self)@, addr, *final(cell)),
                None => r is None && final(self)@ == old(self)@,
            },
    {
        let (page, offset) = Memory::addr_to_indices(addr);
        if page >= PAGE_NUM {
            return None;
        }
        if self.0[page].is_none() {
            self.0[page] = Some(Self::make_page());
        }
        match &mut self.0[page] {
            Some(p) => {
                let cell = &mut p[offset];
                proof {
                    let before = page_bytes(old(self)@, page as int);
                    assert forall|v: u8| #[trigger] before.update(offset as int, v) =~= splice(before, offset as int, seq![v]) by {}
                }
                Some(cell)
            },
            None => None,
        }
    }

    /// Sets the byte at `addr`, allocating its page if need be.
    pub fn set_byte(&mut self, addr: word, val: u8) -> (r: Option<()>)
        ensures
            match spec_set_byte(old(self)@, addr, val) {
                Some(m) => r == Some(()) && final(self)@ == m,
                None => r is None && final(self)@ == old(self)@,
            },
    {
        match self.get_byte_mut(addr) {
            Some(cell) => {
                *cell = val;
                Some(())
            },
            None => None,
        }
    }

    /// Reads `len` bytes from `addr` on. They must all lie in one page; a page that is
    /// not allocated reads as zeros, and stays unallocated.
    pub fn get_slice(&self, addr: word, len: usize) -> (r: Option<Vec<u8>>)
        ensures
            match spec_get_slice(self@, addr, len) {
                Some(bytes) => r matches Some(v) && v@ == bytes,
                None => r is None,
            },
    {
        let (page, offset) = Memory::addr_to_indices(addr);
        if page >= PAGE_NUM || len > PAGE_SIZE || offset > PAGE_SIZE - len {
            return None;
        }
        let mut out: Vec<u8> = Vec::new();
        let mut i: usize = 0;
        while i < len
            invariant
                i <= len,
                page < PAGE_NUM,
                offset + len <= PAGE_SIZE,
                out@ == page_bytes(self@, page as int).subrange(offset as int, offset + i),
            decreases len - i,
        {
            let b = match &self.0[page] {
                Some(p) => p[offset + i],
                None => 0,
            };
            out.push(b);
            i += 1;
            assert(out@ =~= page_bytes(self@, page as int).subrange(offset as int, offset + i));
        }
        Some(out)
    }

    /// Reads the little-endian word at `addr`, which must be word-aligned.
    pub fn get_word(&self, addr: word) -> (r: Option<word>)
        ensures
            r == spec_get_word(self@, addr),
    {
        if !Memory::is_aligned(addr) {
            return None;
        }
        let (page, offset) = Memory::addr_to_indices(addr);
        if page >= PAGE_NUM {
            return None;
        }
        match &self.0[page] {
            Some(p) => {
                let b0 = p[offset] as word;
                let b1 = p[offset + 1] as word;
                let b2 = p[offset + 2] as word;
                let b3 = p[offset + 3] as word;
                Some(b0 + b1 * 0x100 + b2 * 0x1_0000 + b3 * 0x100_0000)
            },
            None => Some(0),
        }
    }

    /// Writes the little-endian word `val` at `addr`, which must be word-aligned,
    /// allocating the page if need be.
    pub fn set_word(&mut self, addr: word, val: word) -> (r: Option<()>)
        ensures
            match spec_set_word(old(self)@, addr, val) {
                Some(m) => r == Some(()) && final(self)@ == m,
                None => r is None && final(self)@ == old(self)@,
            },
    {
        if !Memory::is_aligned(addr) {
            return None;
        }
        let bytes: [u8; 4] = [
            (val % 0x100) as u8,
            ((val / 0x100) % 0x100) as u8,
            ((val / 0x1_0000) % 0x100) as u8,
            (val / 0x100_0000) as u8,
        ];
        assert(bytes@ =~= word_to_le(val));
        self.write_slice(addr, &bytes)
    }

    /// Writes `data` from `addr` on, allocating the page if need be. The bytes written
    /// must all lie in one page; if they would not, nothing is written.
    pub fn write_slice(&mut self, addr: word, data: &[u8]) -> (r: Option<()>)
        ensures
            match spec_write_slice(old(self)@, addr, data@) {
                Some(m) => r == Some(()) && final(self)@ == m,
                None => r is None && final(self)@ == old(self)@,
            },
    {
        let (page, offset) = Memory::addr_to_indices(addr);
        if page >= PAGE_NUM || data.len() > PAGE_SIZE || offset > PAGE_SIZE - data.len() {
            return None;
        }
        if self.0[page].is_none() {
            self.0[page] = Some(Self::make_page());
        }
        match &mut self.0[page] {
            Some(p) => {
                copy_into(&mut **p, offset, data);
            },
            None => {},
        }
        assert(self@ =~= old(self)@.update(
            page as int,
            Some(splice(page_bytes(old(self)@, page as int), offset as int, data@)),
        ));
        Some(())
    }

    /// Writes `data` from `addr` on; another name for `write_slice`.
    pub fn set_slice(&mut self, addr: word, data: &[u8]) -> (r: Option<()>)
        ensures
            match spec_write_slice(old(self)@, addr, data@) {
                Some(m) => r == Some(()) && final(self)@ == m,
                None => r is None && final(self)@ == old(self)@,
            },
    {
        self.write_slice(addr, data)
    }
}

/// Whether `addr` lies inside the memory.
pub open spec fn in_range(addr: word) -> bool {
    addr < MEMORY_SIZE
}

/// A write allocates the page that it writes to and leaves every other page as it
/// was, allocated or not.
pub proof fn lemma_write_touches_one_page(m: Pages, addr: word, data: Seq<u8>)
    requires
        valid_pages(m),
        spec_write_slice(m, addr, data) is Some,
    ensures
        ({
            let after = spec_write_slice(m, addr, data)->0;
            let page = spec_addr_to_indices(addr).0 as int;
            &&& valid_pages(after)
            &&& after[page] is Some
            &&& forall|other: int| 0 <= other < PAGE_NUM && other != page ==> after[other] == m[other]
        }),
{
}

/// A word access at an address whose two low bits are not both zero fails, for reading
/// and for writing alike.
pub proof fn lemma_unaligned_word_access_fails(m: Pages, addr: word, val: word)
    requires
        addr & 3 != 0,
    ensures
        spec_get_word(m, addr) is None,
        spec_set_word(m, addr, val) is None,
{
    assert(addr & 3 != 0 ==> addr % 4 != 0) by (bit_vector);
}

/// In a memory without any page allocated, every byte inside the memory reads as
/// zero, and so does the aligned word that holds it.
pub proof fn lemma_fresh_memory_reads_zero(k: word)
    requires
        in_range(k),
    ensures
        spec_get_byte(empty_pages(), k) == Some(0u8),
        spec_get_word(empty_pages(), k & !3u32) == Some(0u32),
{
    let a = k & !3u32;
    assert(a % 4 == 0 && a <= k) by (bit_vector)
        requires
            a == k & !3u32,
    ;
}

/// A byte that was set is the byte that is read: setting a byte inside the memory
/// succeeds, and reading it afterwards gives the value set.
pub proof fn lemma_set_then_get_byte(m: Pages, k: word, v: u8)
    requires
        valid_pages(m),
        in_range(k),
    ensures
        spec_set_byte(m, k, v) matches Some(after) && valid_pages(after) && spec_get_byte(after, k)
            == Some(v),
{
}

/// Setting a byte leaves every other byte as it was.
pub proof fn lemma_set_byte_keeps_others(m: Pages, k: word, v: u8, other: word)
    requires
        valid_pages(m),
        in_range(k),
        other != k,
    ensures
        spec_set_byte(m, k, v) matches Some(after) && spec_get_byte(after, other) == spec_get_byte(
            m,
            other,
        ),
{
}

/// A word that was set is the word that is read: setting a word at an aligned address
/// inside the memory succeeds, and reading it afterwards gives the value set.
pub proof fn lemma_set_then_get_word(m: Pages, addr: word, val: word)
    requires
        valid_pages(m),
        in_range(addr),
        spec_is_aligned(addr),
    ensures
        spec_set_word(m, addr, val) matches Some(after) && valid_pages(after) && spec_get_word(
            after,
            addr,
        ) == Some(val),
{
    let after = spec_set_word(m, addr, val)->0;
    let (page, offset) = spec_addr_to_indices(addr);
    let bytes = spec_get_slice(after, addr, 4)->0;
    assert(bytes =~= word_to_le(val));
}

/// A word is stored with its least significant byte first: the four bytes from `addr`
/// on hold bits 7..0, 15..8, 23..16 and 31..24 of the word.
pub proof fn lemma_word_is_little_endian(m: Pages, addr: word, val: word)
    requires
        valid_pages(m),
        in_range(addr),
        spec_is_aligned(addr),
    ensures
        spec_set_word(m, addr, val) matches Some(after) && {
            &&& spec_get_byte(after, addr) == Some((val % 0x100) as u8)
            &&& spec_get_byte(after, (addr + 1) as word) == Some(((val / 0x100) % 0x100) as u8)
            &&& spec_get_byte(after, (addr + 2) as word) == Some(((val / 0x1_0000) % 0x100) as u8)
            &&& spec_get_byte(after, (addr + 3) as word) == Some((val / 0x100_0000) as u8)
        },
{
}

} // verus!
