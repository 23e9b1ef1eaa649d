//! The emulator handle: its architecture and the registry of the memory
//! regions committed in it.

use crate::arch::Arch;
use crate::error::{EngineError, Error, ErrorView};
use crate::registry::{
    distinct_keys, entries_map, has_key, lemma_entries_map, EntryView, MemMaps,
};
use crate::text::{hex_digits, push_hex};
use vstd::prelude::*;
use vstd::string::StringExecFns;

verus! {

/// The access rights of a mapped region.
#[derive(Clone, Copy, Debug, PartialEq, Eq, Structural)]
pub struct Protection {
    pub read: bool,
    pub write: bool,
    pub execute: bool,
}

impl Protection {
    /// The value of the flag set as the engine takes it: 1 for read, 2 for
    /// write, 4 for execute, added up.
    pub open spec fn spec_bits(self) -> nat {
        ((if self.read { 1nat } else { 0nat }) + (if self.write { 2nat } else { 0nat })
            + (if self.execute { 4nat } else { 0nat })) as nat
    }

    /// No access at all.
    pub fn none() -> (prot: Protection)
        ensures
            prot == (Protection { read: false, write: false, execute: false }),
    {
        Protection { read: false, write: false, execute: false }
    }

    /// The rights of `self` and those of `other` together.
    pub fn union(self, other: Protection) -> (prot: Protection)
        ensures
            prot.read == (self.read || other.read),
            prot.write == (self.write || other.write),
            prot.execute == (self.execute || other.execute),
    {
        Protection {
            read: self.read || other.read,
            write: self.write || other.write,
            execute: self.execute || other.execute,
        }
    }

    /// Tells whether no right is granted.
    pub fn is_none(&self) -> (none: bool)
        ensures
            none == (!self.read && !self.write && !self.execute),
            none == (self.spec_bits() == 0),
    {
        !self.read && !self.write && !self.execute
    }

    /// The flag set as a number for the engine.
    pub fn bits(&self) -> (bits: u32)
        ensures
            bits == self.spec_bits(),
            bits <= 7,
    {
        let r: u32 = if self.read { 1 } else { 0 };
        let w: u32 = if self.write { 2 } else { 0 };
        let x: u32 = if self.execute { 4 } else { 0 };
        r + w + x
    }
}

/// A region of emulator memory.
#[derive(Debug)]
pub struct MemMap {
    pub addr: u64,
    pub size: u64,
    pub flags: Protection,
    pub name: Option<String>,
}

/// A [`MemMap`] with its name as a sequence of characters.
pub struct MemMapView {
    pub addr: u64,
    pub size: u64,
    pub flags: Protection,
    pub name: Option<Seq<char>>,
}

impl View for MemMap {
    type V = MemMapView;

    open spec fn view(&self) -> MemMapView {
        MemMapView {
            addr: self.addr,
            size: self.size,
            flags: self.flags,
            name: match self.name {
                Some(name) => Some(name@),
                None => None,
            },
        }
    }
}

/// The key of an unnamed mapping at `addr`: `.anonymous[0x`, the address in
/// hexadecimal, `]`.
pub open spec fn anonymous_key(addr: u64) -> Seq<char> {
    seq!['.', 'a', 'n', 'o', 'n', 'y', 'm', 'o', 'u', 's', '[', '0', 'x'] + hex_digits(addr as nat)
        + seq![']']
}

/// The key under which a mapping is registered: its name where it has one,
/// else the key made from its address.
pub open spec fn map_key(mapping: MemMapView) -> Seq<char> {
    match mapping.name {
        Some(name) => name,
        None => anonymous_key(mapping.addr),
    }
}

/// Unnamed mappings have the same key only if they start at the same address.
pub proof fn lemma_anonymous_key_injective(a: u64, b: u64)
    requires
        anonymous_key(a) == anonymous_key(b),
    ensures
        a == b,
{
    let prefix = seq!['.', 'a', 'n', 'o', 'n', 'y', 'm', 'o', 'u', 's', '[', '0', 'x'];
    let ka = anonymous_key(a);
    let kb = anonymous_key(b);
    let da = hex_digits(a as nat);
    let db = hex_digits(b as nat);
    assert(ka.len() == 14 + da.len());
    assert(kb.len() == 14 + db.len());
    assert(ka.subrange(13, 13 + da.len() as int) =~= da);
    assert(kb.subrange(13, 13 + db.len() as int) =~= db);
    crate::text::lemma_hex_digits_injective(a as nat, b as nat);
}

impl MemMap {
    /// The key under which this mapping is registered.
    pub fn key(&self) -> (key: String)
        ensures
            key@ == map_key(self@),
    {
        match &self.name {
            Some(name) => name.clone(),
            None => {
                let mut key = String::from_str(".anonymous[0x");
                push_hex(&mut key, self.addr);
                key.append("]");
                proof {
                    reveal_strlit(".anonymous[0x");
                    reveal_strlit("]");
                    assert(".anonymous[0x"@ =~= seq![
                        '.',
                        'a',
                        'n',
                        'o',
                        'n',
                        'y',
                        'm',
                        'o',
                        'u',
                        's',
                        '[',
                        '0',
                        'x',
                    ]);
                    assert("]"@ =~= seq![']']);
                }
                key
            },
        }
    }
}

/// What mapping `mapping` does to a registry with the entries `entries`,
/// where `reserved` is what the engine answered to the reservation. The
/// first component holds the entries afterwards, the second the failure, if
/// any: a taken key comes before anything the engine said, and either
/// failure leaves the entries as they were.
pub open spec fn mem_map_step(
    entries: Seq<EntryView>,
    mapping: MemMapView,
    reserved: Result<(), EngineError>,
) -> (Seq<EntryView>, Option<ErrorView>) {
    if has_key(entries, map_key(mapping)) {
        (entries, Some(ErrorView::MapAlreadyExists(mapping)))
    } else {
        match reserved {
            Err(e) => (entries, Some(ErrorView::EmulatorError(e))),
            Ok(_) => (entries.push((map_key(mapping), mapping)), None),
        }
    }
}

/// Mapping twice under one key: once the first mapping is committed, the
/// second fails as a conflict whatever the engine would say, and the
/// registry still holds the first mapping, and nothing else new, under that
/// key.
pub proof fn lemma_second_mapping_conflicts(
    entries: Seq<EntryView>,
    first: MemMapView,
    second: MemMapView,
    reserved: Result<(), EngineError>,
)
    requires
        map_key(first) == map_key(second),
        mem_map_step(entries, first, Ok(())).1 is None,
    ensures
        ({
            let committed = mem_map_step(entries, first, Ok(())).0;
            let again = mem_map_step(committed, second, reserved);
            &&& again.1 == Some(ErrorView::MapAlreadyExists(second))
            &&& again.0 == committed
            &&& committed == entries.push((map_key(first), first))
            &&& entries_map(committed) == entries_map(entries).insert(map_key(first), first)
            &&& entries_map(again.0)[map_key(second)] == first
        }),
{
    let committed = entries.push((map_key(first), first));
    assert(committed[entries.len() as int].0 == map_key(second));
    assert(committed.drop_last() =~= entries);
}

/// Manages one emulation: the architecture it was created for and the
/// regions committed in it.
pub struct Emulator {
    mappings: MemMaps,
    arch: Arch,
}

impl Emulator {
    /// The architecture of this emulator.
    pub closed spec fn spec_arch(&self) -> Arch {
        self.arch
    }

    /// The committed mappings in the order in which they were made.
    pub closed spec fn entries(&self) -> Seq<EntryView> {
        self.mappings.entries()
    }

    /// The committed mappings by key.
    pub open spec fn spec_mappings(&self) -> Map<Seq<char>, MemMapView> {
        entries_map(self.entries())
    }

    /// Makes the handle for an engine that was asked for with `arch`, where
    /// `engine` is what creating the engine gave. A failed creation is
    /// handed on as the engine's failure; else the handle starts without
    /// mappings.
    pub fn new(arch: Arch, engine: Result<(), EngineError>) -> (made: Result<Emulator, Error>)
        ensures
            match engine {
                Ok(_) => made is Ok && made->Ok_0.spec_arch() == arch
                    && made->Ok_0.entries() == Seq::<EntryView>::empty()
                    && made->Ok_0.spec_mappings() == Map::<Seq<char>, MemMapView>::empty(),
                Err(e) => made is Err && made->Err_0@ == ErrorView::EmulatorError(e),
            },
    {
        match engine {
            Ok(_) => Ok(Emulator { mappings: MemMaps::new(), arch }),
            Err(e) => Err(Error::EmulatorError(e)),
        }
    }

    /// The architecture this emulator was created for.
    pub fn arch(&self) -> (arch: &Arch)
        ensures
            *arch == self.spec_arch(),
    {
        &self.arch
    }

    /// The registry of the committed mappings.
    pub fn mappings(&self) -> (maps: &MemMaps)
        ensures
            maps@ == self.spec_mappings(),
            maps.entries() == self.entries(),
    {
        &self.mappings
    }

    /// Tells whether the key of `mapping` is still free, that is, whether
    /// the region may be reserved in the engine.
    pub fn can_map(&self, mapping: &MemMap) -> (free: bool)
        ensures
            free == !has_key(self.entries(), map_key(mapping@)),
            free == !self.spec_mappings().contains_key(map_key(mapping@)),
            distinct_keys(self.entries()),
    {
        let key = mapping.key();
        !self.mappings.contains_key(key.as_str())
    }

    /// Commits `mapping`, where `reserved` is what the engine answered when
    /// the region was reserved in it. A taken key fails as a conflict and a
    /// refused reservation as the engine's failure, both without touching
    /// the registry; else the mapping is recorded under its key.
    pub fn mem_map(&mut self, mapping: MemMap, reserved: Result<(), EngineError>) -> (outcome:
        Result<(), Error>)
        ensures
            final(self).spec_arch() == old(self).spec_arch(),
            final(self).entries() == mem_map_step(old(self).entries(), mapping@, reserved).0,
            distinct_keys(final(self).entries()),
            match mem_map_step(old(self).entries(), mapping@, reserved).1 {
                Some(failure) => outcome is Err && outcome->Err_0@ == failure,
                None => outcome is Ok,
            },
    {
        let key = mapping.key();
        if self.mappings.contains_key(key.as_str()) {
            return Err(Error::MapAlreadyExists(mapping));
        }
        match reserved {
            Err(e) => Err(Error::EmulatorError(e)),
            Ok(_) => {
                proof {
                    lemma_entries_map(self.mappings.entries());
                }
                match self.mappings.insert(key, mapping) {
                    Ok(_) => Ok(()),
                    Err(rejected) => Err(Error::MapAlreadyExists(rejected)),
                }
            },
        }
    }

    /// Calls the function at `addr` with `args`. Execution is left to a
    /// later layer: nothing runs, and the result is 0.
    pub fn call_addr(&mut self, addr: u64, args: &[u64]) -> (outcome: Result<u64, Error>)
        ensures
            outcome is Ok,
            outcome->Ok_0 == 0,
            final(self).spec_arch() == old(self).spec_arch(),
            final(self).entries() == old(self).entries(),
            final(self).spec_mappings() == old(self).spec_mappings(),
    {
        Ok(0)
    }
}

} // verus!
