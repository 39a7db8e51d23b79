//! The table registry: every table that the root list names, keyed by
//! signature, OEM id and OEM table id, and looked up by signature.

use vstd::prelude::*;

use crate::bytes::{le_at, read_u64};
use crate::rsdp::RSDP;
use crate::rsdt::rsdt_signature;
use crate::rxsdt::{root_entries, RxsdtEnum};
use crate::sdt::{is_table, Sdt, SDT_SIZE};
use crate::xsdt::xsdt_signature;

verus! {

/// The key of a table: its signature as text, its OEM id, its OEM table id.
pub type SdtSignature = (String, [u8; 6], [u8; 8]);

/// The value of a key, as contracts speak of it.
pub type SigKey = (Seq<char>, Seq<u8>, Seq<u8>);

pub open spec fn sig_key(s: SdtSignature) -> SigKey {
    (s.0@, s.1@, s.2@)
}

/// Every byte is ASCII.
pub open spec fn is_ascii_bytes(b: Seq<u8>) -> bool {
    forall|i: int| 0 <= i < b.len() ==> #[trigger] b[i] < 0x80
}

/// The text of ASCII bytes: one character per byte, of the same value.
pub open spec fn ascii_text(b: Seq<u8>) -> Seq<char> {
    b.map_values(|c: u8| c as char)
}

/// What `String::from_utf8_lossy` makes of a byte string.
pub uninterp spec fn utf8_lossy(b: Seq<u8>) -> Seq<char>;

/// Relies on `String::from_utf8_lossy` (made owned): the text depends on the
/// bytes alone, and bytes that are valid UTF-8, as ASCII bytes are, come back
/// unchanged, one character per ASCII byte.
#[verifier::external_body]
fn signature_text(b: &[u8; 4]) -> (r: String)
    ensures
        r@ == utf8_lossy(b@),
        is_ascii_bytes(b@) ==> r@ == ascii_text(b@),
{
    String::from_utf8_lossy(b).into_owned()
}

/// The key under which the registry files `t`.
pub open spec fn sdt_key(t: Sdt) -> SigKey {
    (utf8_lossy(t.signature@), t.oem_id@, t.oem_table_id@)
}

/// Extracts the key of a table.
pub fn get_sdt_signature(sdt: &Sdt) -> (r: SdtSignature)
    ensures
        sig_key(r) == sdt_key(*sdt),
        is_ascii_bytes(sdt.signature@) ==> utf8_lossy(sdt.signature@) == ascii_text(sdt.signature@),
{
    (signature_text(&sdt.signature), sdt.oem_id, sdt.oem_table_id)
}

/// A hash map from table keys to positions, kept by hashbrown.
#[verifier::external_body]
pub struct SdtMap {
    map: hashbrown::HashMap<SdtSignature, usize>,
}

/// The entries of an `SdtMap`.
pub uninterp spec fn sdt_map_contents(m: SdtMap) -> Map<SigKey, usize>;

/// Relies on `hashbrown::HashMap::new`: the map starts empty.
#[verifier::external_body]
fn sdt_map_new() -> (r: SdtMap)
    ensures
        sdt_map_contents(r).dom() == Set::<SigKey>::empty(),
{
    SdtMap { map: hashbrown::HashMap::new() }
}

/// Relies on `hashbrown::HashMap::insert`: afterwards `k` maps to `v`, and
/// every other key is as it was.
#[verifier::external_body]
fn sdt_map_insert(m: &mut SdtMap, k: SdtSignature, v: usize)
    ensures
        sdt_map_contents(*final(m)) == sdt_map_contents(*old(m)).insert(sig_key(k), v),
{
    m.map.insert(k, v);
}

/// Relies on `hashbrown::HashMap::iter`: every entry comes out once, in an
/// order that the map does not promise.
#[verifier::external_body]
fn sdt_map_entries(m: &SdtMap) -> (r: Vec<(SdtSignature, usize)>)
    ensures
        forall|i: int| 0 <= i < r@.len() ==> {
            &&& sdt_map_contents(*m).contains_key(sig_key(#[trigger] r@[i].0))
            &&& sdt_map_contents(*m)[sig_key(r@[i].0)] == r@[i].1
        },
        forall|i: int, j: int| 0 <= i < j < r@.len() ==> sig_key(#[trigger] r@[i].0) != sig_key(#[trigger] r@[j].0),
        forall|k: SigKey| #[trigger] sdt_map_contents(*m).contains_key(k) ==> exists|i: int| 0 <= i < r@.len() && sig_key(#[trigger] r@[i].0) == k,
{
    m.map.iter().map(|(k, v)| (k.clone(), *v)).collect()
}

/// The tables found at boot, by key. Built once, then only read; a registry
/// that has not been built yet is the empty one.
pub struct Registry {
    tables: Vec<Sdt>,
    index: SdtMap,
}

/// `r` lists, once each and in some order, the tables of `reg` whose
/// signature text is `name`, as the keys `ks` name them.
pub open spec fn found_with(reg: Map<SigKey, Sdt>, name: Seq<char>, r: Seq<Sdt>, ks: Seq<SigKey>) -> bool {
    &&& ks.len() == r.len()
    &&& ks.no_duplicates()
    &&& forall|k: SigKey| ks.contains(k) <==> (reg.contains_key(k) && k.0 == name)
    &&& forall|i: int| 0 <= i < ks.len() ==> r[i] == reg[ks[i]]
}

/// `r` lists, once each and in some order, the tables of `reg` whose
/// signature text is `name`.
pub open spec fn found_by(reg: Map<SigKey, Sdt>, name: Seq<char>, r: Seq<Sdt>) -> bool {
    exists|ks: Seq<SigKey>| found_with(reg, name, r, ks)
}

/// Two tables with the same signature but different OEM ids, once both are
/// inserted, are both in what a lookup of that signature's text returns.
pub proof fn lemma_same_signature_both_found(reg: Map<SigKey, Sdt>, t1: Sdt, t2: Sdt, r: Seq<Sdt>)
    requires
        t1.signature@ == t2.signature@,
        t1.oem_id@ != t2.oem_id@,
        found_by(reg.insert(sdt_key(t1), t1).insert(sdt_key(t2), t2), utf8_lossy(t1.signature@), r),
    ensures
        r.contains(t1),
        r.contains(t2),
{
    let m = reg.insert(sdt_key(t1), t1).insert(sdt_key(t2), t2);
    let name = utf8_lossy(t1.signature@);
    let ks = choose|ks: Seq<SigKey>| found_with(m, name, r, ks);
    assert(sdt_key(t1) != sdt_key(t2));
    assert(ks.contains(sdt_key(t1)));
    assert(ks.contains(sdt_key(t2)));
    let a = choose|a: int| 0 <= a < ks.len() && ks[a] == sdt_key(t1);
    let b = choose|b: int| 0 <= b < ks.len() && ks[b] == sdt_key(t2);
    assert(r[a] == t1);
    assert(r[b] == t2);
}

/// A lookup of a signature text that no table carries returns nothing.
pub proof fn lemma_absent_signature_found_empty(reg: Map<SigKey, Sdt>, name: Seq<char>, r: Seq<Sdt>)
    requires
        forall|k: SigKey| #[trigger] reg.contains_key(k) ==> k.0 != name,
        found_by(reg, name, r),
    ensures
        r.len() == 0,
{
    let ks = choose|ks: Seq<SigKey>| found_with(reg, name, r, ks);
    if ks.len() > 0 {
        assert(ks.contains(ks[0]));
    }
}

/// The registry built from `s`, inserted in order.
pub open spec fn registry_of(s: Seq<Sdt>) -> Map<SigKey, Sdt>
    decreases s.len(),
{
    if s.len() == 0 {
        Map::empty()
    } else {
        registry_of(s.drop_last()).insert(sdt_key(s.last()), s.last())
    }
}

impl View for Registry {
    type V = Map<SigKey, Sdt>;

    closed spec fn view(&self) -> Map<SigKey, Sdt> {
        sdt_map_contents(self.index).map_values(|i: usize| self.tables@[i as int])
    }
}

impl Registry {
    pub closed spec fn wf(&self) -> bool {
        forall|k: SigKey| #[trigger] sdt_map_contents(self.index).contains_key(k) ==> sdt_map_contents(self.index)[k] < self.tables@.len()
    }

    /// An empty registry.
    pub fn new() -> (r: Registry)
        ensures
            r.wf(),
            r@ == Map::<SigKey, Sdt>::empty(),
    {
        let r = Registry { tables: Vec::new(), index: sdt_map_new() };
        proof {
            assert(r@ =~= Map::<SigKey, Sdt>::empty());
        }
        r
    }

    /// Files `sdt` under its key; a table filed earlier under the same key
    /// is no longer found.
    pub fn insert(&mut self, sdt: Sdt)
        requires
            old(self).wf(),
        ensures
            final(self).wf(),
            final(self)@ == old(self)@.insert(sdt_key(sdt), sdt),
            is_ascii_bytes(sdt.signature@) ==> utf8_lossy(sdt.signature@) == ascii_text(sdt.signature@),
    {
        let key = get_sdt_signature(&sdt);
        let pos = self.tables.len();
        self.tables.push(sdt);
        sdt_map_insert(&mut self.index, key, pos);
        proof {
            assert(self@ =~= old(self)@.insert(sdt_key(sdt), sdt));
        }
    }

    /// A registry of `tables`, inserted in order.
    pub fn build(tables: Vec<Sdt>) -> (r: Registry)
        ensures
            r.wf(),
            r@ == registry_of(tables@),
    {
        let mut r = Registry::new();
        let mut tables = tables;
        let ghost all = tables@;
        let ghost mut done: int = 0;
        while tables.len() > 0
            invariant
                r.wf(),
                0 <= done <= all.len(),
                tables@ == all.skip(done),
                r@ == registry_of(all.take(done)),
            decreases tables@.len(),
        {
            let t = tables.remove(0);
            proof {
                assert(t == all[done]);
                assert(all.take(done + 1).drop_last() =~= all.take(done));
            }
            r.insert(t);
            proof {
                done = done + 1;
                assert(tables@ =~= all.skip(done));
            }
        }
        proof {
            assert(all.take(done) =~= all);
        }
        r
    }
}

/// The tables of `registry` whose signature text is `name`: none, one or
/// several, in no promised order.
pub fn find_sdt<'a>(registry: &'a Registry, name: &str) -> (r: Vec<&'a Sdt>)
    requires
        registry.wf(),
    ensures
        found_by(registry@, name@, r@.map_values(|t: &Sdt| *t)),
{
    let entries = sdt_map_entries(&registry.index);
    let want: String = name.to_owned();
    let mut r: Vec<&'a Sdt> = Vec::new();
    let ghost mut js: Seq<int> = Seq::empty();
    let ghost contents = sdt_map_contents(registry.index);
    let mut j: usize = 0;
    while j < entries.len()
        invariant
            registry.wf(),
            contents == sdt_map_contents(registry.index),
            j <= entries@.len(),
            want@ == name@,
            forall|i: int| 0 <= i < entries@.len() ==> {
                &&& contents.contains_key(sig_key(#[trigger] entries@[i].0))
                &&& contents[sig_key(entries@[i].0)] == entries@[i].1
            },
            r@.len() == js.len(),
            forall|a: int| 0 <= a < js.len() ==> {
                &&& 0 <= #[trigger] js[a] < j
                &&& sig_key(entries@[js[a]].0).0 == name@
                &&& *r@[a] == registry@[sig_key(entries@[js[a]].0)]
            },
            forall|a: int, b: int| 0 <= a < b < js.len() ==> #[trigger] js[a] < #[trigger] js[b],
            forall|jj: int| 0 <= jj < j && sig_key(#[trigger] entries@[jj].0).0 == name@ ==> exists|a: int| 0 <= a < js.len() && js[a] == jj,
        decreases entries@.len() - j,
    {
        let e = &entries[j];
        let ghost old_js = js;
        if e.0.0 == want {
            let pos = e.1;
            r.push(&registry.tables[pos]);
            proof {
                js = js.push(j as int);
            }
        }
        proof {
            assert forall|jj: int| 0 <= jj < j + 1 && sig_key(#[trigger] entries@[jj].0).0 == name@ implies exists|a: int| 0 <= a < js.len() && js[a] == jj by {
                if jj == j {
                    assert(js[js.len() - 1] == jj);
                } else {
                    let a = choose|a: int| 0 <= a < old_js.len() && old_js[a] == jj;
                    assert(js[a] == jj);
                }
            }
        }
        j = j + 1;
    }
    proof {
        let ks = js.map_values(|jj: int| sig_key(entries@[jj].0));
        let rv = r@.map_values(|t: &Sdt| *t);
        assert forall|a: int, b: int| 0 <= a < ks.len() && 0 <= b < ks.len() && a != b implies ks[a] != ks[b] by {
            if a < b {
                assert(js[a] < js[b]);
            } else {
                assert(js[b] < js[a]);
            }
        }
        assert forall|k: SigKey| ks.contains(k) <==> (registry@.contains_key(k) && k.0 == name@) by {
            if ks.contains(k) {
                let a = choose|a: int| 0 <= a < ks.len() && ks[a] == k;
                assert(js[a] < entries@.len());
            }
            if registry@.contains_key(k) && k.0 == name@ {
                assert(contents.contains_key(k));
                let i = choose|i: int| 0 <= i < entries@.len() && sig_key(#[trigger] entries@[i].0) == k;
                let a = choose|a: int| 0 <= a < js.len() && js[a] == i;
                assert(ks[a] == k);
            }
        }
        assert(found_with(registry@, name@, rv, ks));
    }
    r
}

/// Whether `reg` holds a table whose signature text is `name`.
pub open spec fn has_named(reg: Map<SigKey, Sdt>, name: Seq<char>) -> bool {
    exists|k: SigKey| #[trigger] reg.contains_key(k) && k.0 == name
}

/// Whether `t` is filed in `reg` under a key whose signature text is `name`.
pub open spec fn is_named(reg: Map<SigKey, Sdt>, name: Seq<char>, t: Sdt) -> bool {
    exists|k: SigKey| #[trigger] reg.contains_key(k) && k.0 == name && reg[k] == t
}

/// The first of the tables that `find_sdt` returns for `name`, if any.
pub fn first_sdt<'a>(registry: &'a Registry, name: &str) -> (r: Option<&'a Sdt>)
    requires
        registry.wf(),
    ensures
        r is None <==> !has_named(registry@, name@),
        r matches Some(t) ==> is_named(registry@, name@, *t),
{
    let found = find_sdt(registry, name);
    proof {
        let rv = found@.map_values(|t: &Sdt| *t);
        let ks = choose|ks: Seq<SigKey>| found_with(registry@, name@, rv, ks);
        if found@.len() > 0 {
            assert(ks.contains(ks[0]));
            assert(registry@.contains_key(ks[0]) && ks[0].0 == name@ && registry@[ks[0]] == rv[0]);
        } else {
            assert forall|k: SigKey| #[trigger] registry@.contains_key(k) implies k.0 != name@ by {
                if k.0 == name@ {
                    assert(ks.contains(k));
                }
            }
        }
    }
    if found.len() > 0 {
        Some(found[0])
    } else {
        None
    }
}

/// A register block's address: the address space, the register's bit width
/// and offset, the access size, and the address.
#[derive(Clone, Copy, Debug, Default, PartialEq, Eq)]
pub struct GenericAddressStructure {
    pub address_space: u8,
    pub bit_width: u8,
    pub bit_offset: u8,
    pub access_size: u8,
    pub address: u64,
}

/// Size in bytes of a `GenericAddressStructure`.
pub const GAS_SIZE: usize = 12;

/// The address structure held by the twelve bytes of `d` at `o`.
pub open spec fn gas_at(d: Seq<u8>, o: int) -> GenericAddressStructure {
    GenericAddressStructure {
        address_space: d[o],
        bit_width: d[o + 1],
        bit_offset: d[o + 2],
        access_size: d[o + 3],
        address: le_at(d, o + 4, 8) as u64,
    }
}

/// Decodes the address structure at `o`.
pub fn read_gas(d: &[u8], o: usize) -> (r: GenericAddressStructure)
    requires
        o + GAS_SIZE <= d@.len(),
    ensures
        r == gas_at(d@, o as int),
{
    GenericAddressStructure {
        address_space: d[o],
        bit_width: d[o + 1],
        bit_offset: d[o + 2],
        access_size: d[o + 3],
        address: read_u64(d, o + 4),
    }
}

/// Size of a page.
pub const PAGE_SIZE: usize = 4096;

/// The pages that cover `[addr, addr + len)`: the address of the first and
/// how many there are; `None` where the rounded range does not fit in the
/// address space.
pub fn linear_map_span(addr: usize, len: usize) -> (r: Option<(usize, usize)>)
    ensures
        r is None <==> len + addr % PAGE_SIZE + (PAGE_SIZE - 1) > usize::MAX,
        r matches Some((base, count)) ==> {
            &&& base == addr - addr % PAGE_SIZE
            &&& count == (len + addr % PAGE_SIZE + (PAGE_SIZE - 1)) / PAGE_SIZE as int
        },
{
    let offset = addr % PAGE_SIZE;
    let base = addr - offset;
    if len > usize::MAX - offset - (PAGE_SIZE - 1) {
        return None;
    }
    let count = (len + offset + (PAGE_SIZE - 1)) / PAGE_SIZE;
    Some((base, count))
}

/// Why discovery stopped before the table walk.
#[derive(Clone, Copy, Debug, PartialEq, Eq)]
pub enum DiscoveryError {
    /// The root list could not be read, or is not a whole table.
    RootUnreadable,
    /// The root table is signed neither "RSDT" nor "XSDT".
    UnknownRoot,
}

/// Where discovery stands.
#[derive(Clone, Copy, Debug, PartialEq, Eq)]
pub enum DiscoveryState {
    /// The root list, at this address, is to be read.
    Root { address: usize },
    /// The tables of the root list from `next` on are to be read.
    Tables { next: usize },
    /// Discovery stopped.
    Failed(DiscoveryError),
}

/// What the platform must do next.
#[derive(Clone, Copy, Debug, PartialEq, Eq)]
pub enum DiscoveryAction {
    /// Map and read the table at this physical address, and hand its bytes back.
    ReadTable(usize),
    /// Every table has been looked at; the registry is complete.
    Finished,
    /// Discovery stopped for this reason; firmware tables are unavailable.
    Failed(DiscoveryError),
}

/// The addresses that the root table held by `b` lists, or why there are none.
pub open spec fn root_list_of(b: Seq<u8>) -> Result<Seq<usize>, DiscoveryError> {
    if !is_table(b) {
        Err(DiscoveryError::RootUnreadable)
    } else {
        let data = b.subrange(SDT_SIZE as int, le_at(b, 4, 4) as int);
        if b.subrange(0, 4) == rsdt_signature() {
            Ok(root_entries(data, 4))
        } else if b.subrange(0, 4) == xsdt_signature() {
            Ok(root_entries(data, 8))
        } else {
            Err(DiscoveryError::UnknownRoot)
        }
    }
}

/// The walk over the firmware tables at boot: the root list first, then
/// every table it lists, in order. Tables that cannot be read are skipped.
pub struct Discovery {
    pub state: DiscoveryState,
    pub addresses: Vec<usize>,
    pub registry: Registry,
}

impl Discovery {
    pub open spec fn wf(&self) -> bool {
        &&& self.registry.wf()
        &&& self.state matches DiscoveryState::Tables { next } ==> next <= self.addresses@.len()
    }

    /// What `state` asks of the platform.
    pub open spec fn spec_action(&self) -> DiscoveryAction {
        match self.state {
            DiscoveryState::Root { address } => DiscoveryAction::ReadTable(address),
            DiscoveryState::Tables { next } => if next < self.addresses@.len() {
                DiscoveryAction::ReadTable(self.addresses@[next as int])
            } else {
                DiscoveryAction::Finished
            },
            DiscoveryState::Failed(e) => DiscoveryAction::Failed(e),
        }
    }

    /// Discovery from the root descriptor `rsdp`, with an empty registry.
    pub fn new(rsdp: &RSDP) -> (r: Discovery)
        ensures
            r.wf(),
            r.state == (DiscoveryState::Root { address: rsdp.sdt_address() }),
            r.registry@ == Map::<SigKey, Sdt>::empty(),
    {
        Discovery {
            state: DiscoveryState::Root { address: rsdp.sdt_address() },
            addresses: Vec::new(),
            registry: Registry::new(),
        }
    }

    /// What the platform must do next.
    pub fn action(&self) -> (r: DiscoveryAction)
        requires
            self.wf(),
        ensures
            r == self.spec_action(),
    {
        match self.state {
            DiscoveryState::Root { address } => DiscoveryAction::ReadTable(address),
            DiscoveryState::Tables { next } => {
                if next < self.addresses.len() {
                    DiscoveryAction::ReadTable(self.addresses[next])
                } else {
                    DiscoveryAction::Finished
                }
            },
            DiscoveryState::Failed(e) => DiscoveryAction::Failed(e),
        }
    }

    /// Takes the bytes read for the last `ReadTable`, or `None` where they
    /// could not be read.
    pub fn supply(&mut self, bytes: Option<&[u8]>)
        requires
            old(self).wf(),
        ensures
            final(self).wf(),
            old(self).state matches DiscoveryState::Root { address } ==> {
                &&& final(self).registry@ == old(self).registry@
                &&& match bytes {
                    None => final(self).state == DiscoveryState::Failed(DiscoveryError::RootUnreadable),
                    Some(b) => match root_list_of(b@) {
                        Err(e) => final(self).state == DiscoveryState::Failed(e),
                        Ok(list) => final(self).state == (DiscoveryState::Tables { next: 0 })
                            && final(self).addresses@ == list,
                    },
                }
            },
            old(self).state matches DiscoveryState::Tables { next } ==> {
                &&& final(self).addresses == old(self).addresses
                &&& if next < old(self).addresses@.len() {
                    &&& final(self).state == (DiscoveryState::Tables { next: (next + 1) as usize })
                    &&& match bytes {
                        Some(b) => if is_table(b@) {
                            exists|t: Sdt|
                                t.decodes(b@, old(self).addresses@[next as int]) && final(self).registry@
                                    == old(self).registry@.insert(sdt_key(t), t) && (is_ascii_bytes(t.signature@)
                                    ==> utf8_lossy(t.signature@) == ascii_text(t.signature@))
                        } else {
                            final(self).registry@ == old(self).registry@
                        },
                        None => final(self).registry@ == old(self).registry@,
                    }
                } else {
                    &&& final(self).state == old(self).state
                    &&& final(self).registry@ == old(self).registry@
                }
            },
            old(self).state is Failed ==> final(self).state == old(self).state && final(self).registry@
                == old(self).registry@,
    {
        match self.state {
            DiscoveryState::Root { address } => {
                let b = match bytes {
                    Some(b) => b,
                    None => {
                        self.state = DiscoveryState::Failed(DiscoveryError::RootUnreadable);
                        return ;
                    },
                };
                let root = match Sdt::from_bytes(b, address) {
                    Some(t) => t,
                    None => {
                        self.state = DiscoveryState::Failed(DiscoveryError::RootUnreadable);
                        return ;
                    },
                };
                proof {
                    assert(root.signature@ == b@.subrange(0, 4));
                }
                match RxsdtEnum::new(&root) {
                    Some(rx) => {
                        let list = rx.iter();
                        self.addresses = list;
                        self.state = DiscoveryState::Tables { next: 0 };
                    },
                    None => {
                        self.state = DiscoveryState::Failed(DiscoveryError::UnknownRoot);
                    },
                }
            },
            DiscoveryState::Tables { next } => {
                if next < self.addresses.len() {
                    let address = self.addresses[next];
                    if let Some(b) = bytes {
                        if let Some(t) = Sdt::from_bytes(b, address) {
                            self.registry.insert(t);
                        }
                    }
                    self.state = DiscoveryState::Tables { next: next + 1 };
                }
            },
            DiscoveryState::Failed(_) => {},
        }
    }
}

} // verus!

verus! {

/// A table signed "APIC" that the registry holds is found by the name "APIC"
/// (inserting a table with an ASCII signature establishes the last premise).
pub proof fn lemma_apic_table_is_named(reg: Map<SigKey, Sdt>, t: Sdt)
    requires
        t.signature@ == crate::madt::apic_signature(),
        reg.contains_key(sdt_key(t)),
        is_ascii_bytes(t.signature@) ==> utf8_lossy(t.signature@) == ascii_text(t.signature@),
    ensures
        has_named(reg, "APIC"@),
{
    reveal_strlit("APIC");
    assert(ascii_text(t.signature@) =~= "APIC"@);
    assert(sdt_key(t).0 == "APIC"@);
}

} // verus!
