//! Binary images: format detection and the page arithmetic of the address
//! space that an image is loaded into.

pub mod elf;
pub mod loader;

use vstd::prelude::*;

verus! {

/// The granularity, in bytes, at which the engine maps memory.
pub const PAGE_SIZE: u64 = 0x1000;

/// `size` rounded down to a multiple of `page_size`, plus one page. A size
/// that already is a multiple of the page size still gains a page.
pub open spec fn aligned_size_of(size: nat, page_size: nat) -> nat {
    (size / page_size + 1) * page_size
}

/// `addr` rounded down to a multiple of `page_size`.
pub open spec fn aligned_addr_of(addr: nat, page_size: nat) -> nat {
    (addr / page_size) * page_size
}

/// An aligned size is a multiple of the page size, lies above the size it
/// was made from, and by no more than a page.
pub proof fn lemma_aligned_size(size: nat, page_size: nat)
    requires
        page_size > 0,
    ensures
        aligned_size_of(size, page_size) % page_size == 0,
        size < aligned_size_of(size, page_size) <= size + page_size,
        aligned_size_of(size, page_size) == aligned_addr_of(size, page_size) + page_size,
{
    let q = size / page_size;
    assert((q + 1) * page_size == q * page_size + page_size) by (nonlinear_arith);
    assert(((q + 1) * page_size) % page_size == 0) by (nonlinear_arith)
        requires
            page_size > 0,
    ;
    assert(size == page_size * q + size % page_size && 0 <= size % page_size < page_size)
        by (nonlinear_arith)
        requires
            page_size > 0,
            q == size / page_size,
    ;
    assert(page_size * q == q * page_size) by (nonlinear_arith);
}

/// An aligned address is a multiple of the page size, lies at or below the
/// address it was made from, by less than a page, and aligning it again
/// changes nothing.
pub proof fn lemma_aligned_addr(addr: nat, page_size: nat)
    requires
        page_size > 0,
    ensures
        aligned_addr_of(addr, page_size) <= addr,
        addr - aligned_addr_of(addr, page_size) < page_size,
        addr - aligned_addr_of(addr, page_size) == addr % page_size,
        aligned_addr_of(addr, page_size) % page_size == 0,
        aligned_addr_of(aligned_addr_of(addr, page_size), page_size) == aligned_addr_of(
            addr,
            page_size,
        ),
{
    let q = addr / page_size;
    assert(addr == page_size * q + addr % page_size && 0 <= addr % page_size < page_size)
        by (nonlinear_arith)
        requires
            page_size > 0,
            q == addr / page_size,
    ;
    assert(page_size * q == q * page_size) by (nonlinear_arith);
    assert((q * page_size) % page_size == 0 && (q * page_size) / page_size == q)
        by (nonlinear_arith)
        requires
            page_size > 0,
    ;
}

/// Aligns a memory size: the pages that `size` fills, plus one.
pub fn aligned_size(size: usize, page_size: usize) -> (aligned: usize)
    requires
        page_size > 0,
        aligned_size_of(size as nat, page_size as nat) <= usize::MAX,
    ensures
        aligned == aligned_size_of(size as nat, page_size as nat),
        aligned % page_size == 0,
        size < aligned <= size + page_size,
{
    proof {
        lemma_aligned_size(size as nat, page_size as nat);
    }
    (size / page_size + 1) * page_size
}

/// Aligns a memory address: rounds it down to a page boundary.
pub fn aligned_addr(addr: u64, page_size: u64) -> (aligned: u64)
    requires
        page_size > 0,
    ensures
        aligned == aligned_addr_of(addr as nat, page_size as nat),
        aligned <= addr,
        addr - aligned < page_size,
        aligned % page_size == 0,
{
    proof {
        lemma_aligned_addr(addr as nat, page_size as nat);
    }
    (addr / page_size) * page_size
}

/// The formats of binary images that can be loaded.
#[derive(Clone, Copy, Debug, PartialEq, Eq, Structural)]
pub enum BinaryFormat {
    Elf,
}

impl BinaryFormat {
    /// The four bytes that open every file of this format.
    pub open spec fn signature(self) -> Seq<u8> {
        match self {
            BinaryFormat::Elf => elf::elf_magic(),
        }
    }

    /// Tells whether `leading`, the first bytes of a file, open with the
    /// signature of this format. Fewer than four bytes never do.
    pub open spec fn recognizes(self, leading: Seq<u8>) -> bool {
        leading.len() >= 4 && leading.subrange(0, 4) == self.signature()
    }

    /// Tells whether `file_magic` is the signature of this format.
    pub fn check_magic(self, file_magic: &[u8; 4]) -> (matched: bool)
        ensures
            matched == (file_magic@ == self.signature()),
            matched == self.recognizes(file_magic@),
    {
        assert(file_magic@.subrange(0, 4) =~= file_magic@);
        match self {
            BinaryFormat::Elf => elf::check_magic(file_magic),
        }
    }
}

/// The known formats, in the order in which they are tried.
pub open spec fn known_formats() -> Seq<BinaryFormat> {
    seq![BinaryFormat::Elf]
}

/// The first of `formats`, from the index `from` on, that recognizes
/// `leading`.
pub open spec fn first_recognizing(formats: Seq<BinaryFormat>, leading: Seq<u8>, from: nat)
    -> Option<BinaryFormat>
    decreases formats.len() - from,
{
    if from >= formats.len() {
        None
    } else if formats[from as int].recognizes(leading) {
        Some(formats[from as int])
    } else {
        first_recognizing(formats, leading, from + 1)
    }
}

/// The format of a file that starts with `leading`: the first known format
/// that recognizes these bytes.
pub open spec fn detected(leading: Seq<u8>) -> Option<BinaryFormat> {
    first_recognizing(known_formats(), leading, 0)
}

/// A file is taken for an ELF image exactly if it starts with the four
/// bytes of the ELF signature, and for nothing else.
pub proof fn lemma_detected(leading: Seq<u8>)
    ensures
        detected(leading) == if leading.len() >= 4 && leading.subrange(0, 4) == elf::elf_magic() {
            Some(BinaryFormat::Elf)
        } else {
            None
        },
{
    reveal_with_fuel(first_recognizing, 2);
}

/// Finds the format of a file from its leading bytes.
pub fn detect(leading: &[u8]) -> (format: Option<BinaryFormat>)
    ensures
        format == detected(leading@),
{
    let formats: [BinaryFormat; 1] = [BinaryFormat::Elf];
    assert(formats@ =~= known_formats());
    if leading.len() < 4 {
        proof {
            reveal_with_fuel(first_recognizing, 2);
        }
        return None;
    }
    let magic: [u8; 4] = [leading[0], leading[1], leading[2], leading[3]];
    assert(magic@ =~= leading@.subrange(0, 4));
    let mut index: usize = 0;
    while index < formats.len()
        invariant
            index <= formats@.len(),
            formats@ == known_formats(),
            leading@.len() >= 4,
            magic@ == leading@.subrange(0, 4),
            first_recognizing(formats@, leading@, index as nat) == detected(leading@),
        decreases formats@.len() - index,
    {
        if formats[index].check_magic(&magic) {
            return Some(formats[index]);
        }
        index += 1;
    }
    None
}

} // verus!
