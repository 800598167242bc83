//! The kernel symbols: a one-to-one relation between addresses and names.

use vstd::prelude::*;
use bimap::BiBTreeMap;

verus! {

#[verifier::external_type_specification]
#[verifier::external_body]
#[verifier::reject_recursive_types(L)]
#[verifier::reject_recursive_types(R)]
pub struct ExBiBTreeMap<L, R>(bimap::BiBTreeMap<L, R>);

/// The pairs that a two-way map of symbols holds, as the name at each
/// address.
pub uninterp spec fn symbols_of(m: BiBTreeMap<u64, String>) -> Map<u64, Seq<char>>;

/// The table that holds no symbol.
pub open spec fn no_symbols() -> Map<u64, Seq<char>> {
    Map::empty()
}

/// What is left of `map` without the addresses named `name`.
pub open spec fn without_name(map: Map<u64, Seq<char>>, name: Seq<char>) -> Map<u64, Seq<char>> {
    Map::new(|a: u64| map.contains_key(a) && map[a] != name, |a: u64| map[a])
}

/// No two addresses have the same name.
pub open spec fn one_to_one(map: Map<u64, Seq<char>>) -> bool {
    forall|a: u64, b: u64|
        map.contains_key(a) && map.contains_key(b) && #[trigger] map[a] == #[trigger] map[b] ==> a
            == b
}

/// `BiBTreeMap::new` of the bimap crate: a map that holds no pair.
#[verifier::external_body]
fn bimap_new() -> (r: BiBTreeMap<u64, String>)
    ensures
        symbols_of(r) == no_symbols(),
{
    BiBTreeMap::new()
}

/// `BiBTreeMap::insert` of the bimap crate: the pair that had this address
/// and the pair that had this name leave the map, then the new pair enters.
#[verifier::external_body]
fn bimap_insert(m: &mut BiBTreeMap<u64, String>, addr: u64, name: String)
    ensures
        symbols_of(*final(m)) == without_name(symbols_of(*old(m)), name@).insert(addr, name@),
{
    m.insert(addr, name);
}

/// `BiBTreeMap::get_by_left` of the bimap crate: the name paired with this
/// address, if the address is in the map.
#[verifier::external_body]
fn bimap_get_by_left(m: &BiBTreeMap<u64, String>, addr: u64) -> (r: Option<String>)
    ensures
        match r {
            Some(name) => symbols_of(*m).contains_key(addr) && symbols_of(*m)[addr] == name@,
            None => !symbols_of(*m).contains_key(addr),
        },
{
    m.get_by_left(&addr).cloned()
}

/// `BiBTreeMap::get_by_right` of the bimap crate: an address paired with
/// this name, if the name is in the map.
#[verifier::external_body]
fn bimap_get_by_right(m: &BiBTreeMap<u64, String>, name: &str) -> (r: Option<u64>)
    ensures
        match r {
            Some(addr) => symbols_of(*m).contains_key(addr) && symbols_of(*m)[addr] == name@,
            None => forall|a: u64| symbols_of(*m).contains_key(a) ==> symbols_of(*m)[a] != name@,
        },
{
    m.get_by_right(name).copied()
}

/// `BiBTreeMap::left_range` of the bimap crate, over the addresses up to
/// `target`, and the last pair it gives: the greatest address of the map
/// that is not above `target`, if there is one.
#[verifier::external_body]
fn bimap_last_up_to(m: &BiBTreeMap<u64, String>, target: u64) -> (r: Option<u64>)
    ensures
        match r {
            Some(addr) => symbols_of(*m).contains_key(addr) && addr <= target && forall|a: u64|
                symbols_of(*m).contains_key(a) && a <= target ==> a <= addr,
            None => forall|a: u64| symbols_of(*m).contains_key(a) ==> a > target,
        },
{
    m.left_range((std::ops::Bound::Unbounded, std::ops::Bound::Included(&target)))
        .next_back()
        .map(|pair| *pair.0)
}

/// Why a symbol could not be found.
#[derive(Clone, Copy, Debug, PartialEq, Eq, Structural)]
pub enum SymbolError {
    /// No symbol is at this address.
    UnknownAddress(u64),
    /// No symbol has this name.
    UnknownName,
    /// No symbol is at or below this address.
    NothingNear(u64),
}

/// Symbols bi-directional map (addr<>name).
pub struct SymbolTable {
    map: BiBTreeMap<u64, String>,
}

impl View for SymbolTable {
    type V = Map<u64, Seq<char>>;

    closed spec fn view(&self) -> Map<u64, Seq<char>> {
        symbols_of(self.map)
    }
}

impl SymbolTable {
    #[verifier::type_invariant]
    spec fn inv(self) -> bool {
        one_to_one(symbols_of(self.map))
    }

    /// A table without symbols.
    pub fn new() -> (r: SymbolTable)
        ensures
            r@ == Map::<u64, Seq<char>>::empty(),
    {
        SymbolTable { map: bimap_new() }
    }

    /// Puts the symbol `name` at `addr`, in place of the symbol that was at
    /// this address and of the symbol that had this name.
    pub fn insert(&mut self, addr: u64, name: String)
        ensures
            final(self)@ == without_name(old(self)@, name@).insert(addr, name@),
            one_to_one(final(self)@),
    {
        proof {
            use_type_invariant(&*self);
        }
        let mut taken = SymbolTable::new();
        std::mem::swap(self, &mut taken);
        let SymbolTable { mut map } = taken;
        bimap_insert(&mut map, addr, name);
        *self = SymbolTable { map };
    }

    /// Return a symbol name given its address, if a relationship is found.
    pub fn get_symbol_name(&self, addr: u64) -> (r: Result<String, SymbolError>)
        ensures
            self@.contains_key(addr) ==> (r matches Ok(name) && name@ == self@[addr]),
            !self@.contains_key(addr) ==> r == Err::<String, SymbolError>(
                SymbolError::UnknownAddress(addr),
            ),
    {
        match bimap_get_by_left(&self.map, addr) {
            Some(name) => Ok(name),
            None => Err(SymbolError::UnknownAddress(addr)),
        }
    }

    /// Return a symbol address given its name, if a relationship is found.
    pub fn get_symbol_addr(&self, name: &str) -> (r: Result<u64, SymbolError>)
        ensures
            match r {
                Ok(addr) => self@.contains_key(addr) && self@[addr] == name@ && forall|a: u64|
                    self@.contains_key(a) && self@[a] == name@ ==> a == addr,
                Err(e) => e == SymbolError::UnknownName && forall|a: u64|
                    self@.contains_key(a) ==> self@[a] != name@,
            },
    {
        proof {
            use_type_invariant(self);
        }
        match bimap_get_by_right(&self.map, name) {
            Some(addr) => Ok(addr),
            None => Err(SymbolError::UnknownName),
        }
    }

    /// Given an address, try to find the nearest symbol at or below it.
    pub fn find_nearest_symbol(&self, target: u64) -> (r: Result<u64, SymbolError>)
        ensures
            match r {
                Ok(addr) => self@.contains_key(addr) && addr <= target && forall|a: u64|
                    self@.contains_key(a) && a <= target ==> a <= addr,
                Err(e) => e == SymbolError::NothingNear(target) && forall|a: u64|
                    self@.contains_key(a) ==> a > target,
            },
    {
        match bimap_last_up_to(&self.map, target) {
            Some(addr) => Ok(addr),
            None => Err(SymbolError::NothingNear(target)),
        }
    }

    /// Given an address, gets the name and the offset of the nearest symbol
    /// at or below it, if any.
    pub fn get_name_offt_from_addr_near(&self, addr: u64) -> (r: Result<
        (String, u64),
        SymbolError,
    >)
        ensures
            match r {
                Ok((name, offset)) => offset <= addr && self@.contains_key((addr - offset) as u64)
                    && name@ == self@[(addr - offset) as u64] && forall|a: u64|
                    self@.contains_key(a) && a <= addr ==> a <= addr - offset,
                Err(e) => e == SymbolError::NothingNear(addr) && forall|a: u64|
                    self@.contains_key(a) ==> a > addr,
            },
    {
        let sym_addr = match self.find_nearest_symbol(addr) {
            Ok(a) => a,
            Err(e) => {
                return Err(e);
            },
        };
        match self.get_symbol_name(sym_addr) {
            Ok(name) => Ok((name, addr - sym_addr)),
            Err(e) => Err(e),
        }
    }
}

} // verus!
