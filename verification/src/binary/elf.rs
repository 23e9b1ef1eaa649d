//! The ELF format: its signature and what its header fields mean to the
//! emulator.

use crate::arch::{Arch, Isa, Mode};
use crate::binary::{aligned_addr, aligned_addr_of, aligned_size, aligned_size_of, PAGE_SIZE};
use crate::emulator::{MemMap, MemMapView, Protection};
use crate::error::{Error, ErrorView};
use crate::text::prefixed_hex;
use vstd::prelude::*;

verus! {

/// The segment flag for an executable segment.
pub const PF_X: u32 = 1;

/// The segment flag for a writable segment.
pub const PF_W: u32 = 2;

/// The segment flag for a readable segment.
pub const PF_R: u32 = 4;

/// The kind of a segment that has to be in memory before execution.
pub const PT_LOAD: u32 = 1;

/// The machine identifier of AMD x86-64.
pub const EM_X86_64: u16 = 62;

/// One entry of the program header table, as the parser gives it.
#[derive(Clone, Copy, Debug, PartialEq, Eq, Structural)]
pub struct SegmentDescriptor {
    /// The kind of the segment; only [`PT_LOAD`] segments are loaded.
    pub kind: u32,
    /// The address of the segment's first byte in memory.
    pub vaddr: u64,
    /// Where the segment's content starts in the file.
    pub offset: u64,
    /// The number of bytes of the segment that the file holds.
    pub filesz: u64,
    /// The number of bytes that the segment takes in memory.
    pub memsz: u64,
    /// The read, write and execute flags.
    pub flags: u32,
}

/// What the parser gives of a file: the machine that it targets and its
/// segments in the order of the program header table.
#[derive(Debug)]
pub struct RawHeader {
    pub machine: u16,
    pub segments: Vec<SegmentDescriptor>,
}

impl SegmentDescriptor {
    /// Tells whether the segment has to be loaded.
    pub open spec fn loadable(self) -> bool {
        self.kind == PT_LOAD
    }

    /// The page boundary at or below the segment's address.
    pub open spec fn page_addr(self) -> nat {
        aligned_addr_of(self.vaddr as nat, PAGE_SIZE as nat)
    }

    /// How far into its first page the segment starts.
    pub open spec fn in_page_offset(self) -> nat {
        (self.vaddr - self.page_addr()) as nat
    }

    /// The size of the region that holds the segment.
    pub open spec fn mapped_size(self) -> nat {
        aligned_size_of(self.memsz as nat + self.in_page_offset(), PAGE_SIZE as nat)
    }

    /// Tells whether the size of the region can be held on this machine.
    pub open spec fn mappable(self) -> bool {
        self.mapped_size() <= usize::MAX
    }

    /// The unnamed region that holds the segment.
    pub open spec fn mapping(self) -> MemMapView {
        MemMapView {
            addr: self.page_addr() as u64,
            size: self.mapped_size() as u64,
            flags: prot_of(self.flags),
            name: None,
        }
    }

    /// The region of a segment starts on a page boundary, less than a page
    /// below the segment, ends on a page boundary, and holds all of the
    /// segment's bytes in memory.
    pub proof fn lemma_region_covers(self)
        ensures
            self.page_addr() % (PAGE_SIZE as nat) == 0,
            self.mapped_size() % (PAGE_SIZE as nat) == 0,
            self.page_addr() <= self.vaddr,
            0 <= self.vaddr - self.page_addr() < PAGE_SIZE,
            self.vaddr + self.memsz < self.page_addr() + self.mapped_size(),
            self.mapped_size() <= self.memsz + self.in_page_offset() + PAGE_SIZE,
    {
        crate::binary::lemma_aligned_addr(self.vaddr as nat, PAGE_SIZE as nat);
        crate::binary::lemma_aligned_size(
            self.memsz as nat + self.in_page_offset(),
            PAGE_SIZE as nat,
        );
    }

    /// Derives the region that holds the segment: its page-aligned address,
    /// the aligned size of the segment's memory together with its offset
    /// into the first page, and the protection that its flags ask for.
    /// Gives nothing when that size cannot be held on this machine.
    pub fn to_mapping(&self) -> (derived: Option<MemMap>)
        ensures
            self.mappable() ==> derived is Some && derived->Some_0@ == self.mapping(),
            !self.mappable() ==> derived is None,
    {
        proof {
            self.lemma_region_covers();
        }
        let page_addr: u64 = aligned_addr(self.vaddr, PAGE_SIZE);
        let offset: u64 = self.vaddr - page_addr;
        if self.memsz > u64::MAX - offset {
            return None;
        }
        let span: u64 = self.memsz + offset;
        if span > usize::MAX as u64 {
            return None;
        }
        let span: usize = span as usize;
        let page: usize = PAGE_SIZE as usize;
        if span / page > usize::MAX / page - 1 {
            return None;
        }
        let size: usize = aligned_size(span, page);
        Some(MemMap { addr: page_addr, size: size as u64, flags: prot_from(self.flags), name: None })
    }
}

/// The protection that the segment flags `flag` ask for: each of read, write
/// and execute is granted exactly where its flag is set, and no other bit of
/// `flag` counts.
pub open spec fn prot_of(flag: u32) -> Protection {
    Protection {
        read: flag & PF_R != 0,
        write: flag & PF_W != 0,
        execute: flag & PF_X != 0,
    }
}

/// Translates segment flags into the protection of the mapped region.
pub fn prot_from(flag: u32) -> (prot: Protection)
    ensures
        prot == prot_of(flag),
{
    let mut prot = Protection::none();
    if flag & PF_X != 0 {
        prot = prot.union(Protection { read: false, write: false, execute: true });
    }
    if flag & PF_R != 0 {
        prot = prot.union(Protection { read: true, write: false, execute: false });
    }
    if flag & PF_W != 0 {
        prot = prot.union(Protection { read: false, write: true, execute: false });
    }
    prot
}

/// Flags without read, write and execute give no access, and the bits of a
/// protection are those of the three flags, moved to the engine's places.
pub proof fn lemma_prot_of_bits(flag: u32)
    ensures
        flag & (PF_R | PF_W | PF_X) == 0 <==> prot_of(flag).spec_bits() == 0,
        prot_of(flag).spec_bits() <= 7,
        prot_of(flag) == prot_of(flag & 7),
{
    assert(flag & (4u32 | 2u32 | 1u32) == 0 <==> (flag & 4u32 == 0 && flag & 2u32 == 0 && flag
        & 1u32 == 0)) by (bit_vector);
    assert((flag & 7u32) & 4u32 == flag & 4u32 && (flag & 7u32) & 2u32 == flag & 2u32 && (flag
        & 7u32) & 1u32 == flag & 1u32) by (bit_vector);
}

/// The architecture that the machine identifier `machine` stands for, where
/// it is a supported one.
pub open spec fn arch_of(machine: u16) -> Option<Arch> {
    if machine == EM_X86_64 {
        Some(Arch { arch: Isa::X86, mode: Mode::Mode64 })
    } else {
        None
    }
}

/// Describes a machine identifier as `elf` does. The body formats an
/// `elf::types::Machine` with `{:?}`; the `Debug` impl of that type writes
/// the identifier with `{:#x}`, and the contract says what that gives: `0x`,
/// then the identifier in lower-case hexadecimal without leading zeros.
/// Verus takes this on trust.
#[verifier::external_body]
fn machine_description(machine: u16) -> (text: String)
    ensures
        text@ == prefixed_hex(machine as nat),
{
    format!("{:?}", elf::types::Machine(machine))
}

/// Resolves the machine identifier of a header to the architecture to
/// emulate. Every identifier that is not listed is refused, with its
/// description.
pub fn arch_from(machine: u16) -> (resolved: Result<Arch, Error>)
    ensures
        match arch_of(machine) {
            Some(arch) => resolved == Ok::<Arch, Error>(arch),
            None => resolved is Err && resolved->Err_0@ == ErrorView::UnsupportedArch(
                prefixed_hex(machine as nat),
            ),
        },
{
    if machine == EM_X86_64 {
        Ok(Arch { arch: Isa::X86, mode: Mode::Mode64 })
    } else {
        Err(Error::UnsupportedArch(machine_description(machine)))
    }
}

/// The four bytes that open every ELF image.
pub open spec fn elf_magic() -> Seq<u8> {
    seq![0x7fu8, 0x45u8, 0x4cu8, 0x46u8]
}

/// Tells whether `file_magic` is the ELF signature.
pub fn check_magic(file_magic: &[u8; 4]) -> (matched: bool)
    ensures
        matched <==> file_magic@ == elf_magic(),
{
    let matched = file_magic[0] == 0x7f && file_magic[1] == 0x45 && file_magic[2] == 0x4c
        && file_magic[3] == 0x46;
    proof {
        if matched {
            assert(file_magic@ =~= elf_magic());
        }
    }
    matched
}

} // verus!
