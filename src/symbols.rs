use vstd::prelude::*;
use indexmap::IndexMap;
use crate::casm_parser::Operand;

verus! {

#[verifier::external_type_specification]
#[verifier::external_body]
#[verifier::reject_recursive_types(K)]
#[verifier::reject_recursive_types(V)]
#[verifier::reject_recursive_types(S)]
pub struct ExIndexMap<K, V, S>(IndexMap<K, V, S>);

/// What a label map holds: each name's address.
pub uninterp spec fn label_entries(m: IndexMap<String, u16>) -> Map<Seq<char>, u16>;

/// Relies on `IndexMap::new`: a new map is empty.
#[verifier::external_body]
fn label_map_new() -> (r: IndexMap<String, u16>)
    ensures
        label_entries(r).dom().len() == 0 && label_entries(r).dom().finite(),
{
    IndexMap::new()
}

/// Relies on `IndexMap::insert`: afterwards the key maps to the value, and
/// every other key keeps its value.
#[verifier::external_body]
fn label_map_insert(m: &mut IndexMap<String, u16>, k: String, v: u16)
    ensures
        label_entries(*final(m)) == label_entries(*old(m)).insert(k@, v),
{
    m.insert(k, v);
}

/// Relies on `IndexMap::get`: the value stored for a key equal to `k`, if any.
#[verifier::external_body]
fn label_map_get(m: &IndexMap<String, u16>, k: &str) -> (r: Option<u16>)
    ensures
        label_entries(*m).contains_key(k@) ==> r == Some(label_entries(*m)[k@]),
        !label_entries(*m).contains_key(k@) ==> r is None,
{
    m.get(k).copied()
}

/// Label names and their addresses.
pub struct SymbolTable {
    map: IndexMap<String, u16>,
}

impl View for SymbolTable {
    type V = Map<Seq<char>, u16>;

    closed spec fn view(&self) -> Map<Seq<char>, u16> {
        label_entries(self.map)
    }
}

impl SymbolTable {
    pub fn new() -> (r: Self)
        ensures
            r@ == Map::<Seq<char>, u16>::empty(),
    {
        let r = SymbolTable { map: label_map_new() };
        assert(r@ =~= Map::<Seq<char>, u16>::empty());
        r
    }

    /// Binds `name` to `addr`, replacing an earlier binding.
    pub fn insert(&mut self, name: String, addr: u16)
        ensures
            final(self)@ == old(self)@.insert(name@, addr),
    {
        label_map_insert(&mut self.map, name, addr);
    }

    pub fn get(&self, name: &str) -> (r: Option<u16>)
        ensures
            self@.contains_key(name@) ==> r == Some(self@[name@]),
            !self@.contains_key(name@) ==> r is None,
    {
        label_map_get(&self.map, name)
    }

    pub fn contains_key(&self, name: &str) -> (r: bool)
        ensures
            r == self@.contains_key(name@),
    {
        label_map_get(&self.map, name).is_some()
    }
}

/// What an alias map holds: each alias name's operand.
pub uninterp spec fn alias_entries(m: IndexMap<String, Operand>) -> Map<Seq<char>, Operand>;

/// Relies on `IndexMap::new`: a new map is empty.
#[verifier::external_body]
fn alias_map_new() -> (r: IndexMap<String, Operand>)
    ensures
        alias_entries(r).dom().len() == 0 && alias_entries(r).dom().finite(),
{
    IndexMap::new()
}

/// Relies on `IndexMap::insert`: afterwards the key maps to the value, and
/// every other key keeps its value.
#[verifier::external_body]
fn alias_map_insert(m: &mut IndexMap<String, Operand>, k: String, v: Operand)
    ensures
        alias_entries(*final(m)) == alias_entries(*old(m)).insert(k@, v),
{
    m.insert(k, v);
}

/// Relies on `IndexMap::get`: the value stored for a key equal to `k`, if any.
#[verifier::external_body]
fn alias_map_get<'a>(m: &'a IndexMap<String, Operand>, k: &str) -> (r: Option<&'a Operand>)
    ensures
        alias_entries(*m).contains_key(k@) ==> r is Some && *r.unwrap() == alias_entries(*m)[k@],
        !alias_entries(*m).contains_key(k@) ==> r is None,
{
    m.get(k)
}

/// Alias names and the operands they stand for.
pub struct AliasTable {
    map: IndexMap<String, Operand>,
}

impl View for AliasTable {
    type V = Map<Seq<char>, Operand>;

    closed spec fn view(&self) -> Map<Seq<char>, Operand> {
        alias_entries(self.map)
    }
}

impl AliasTable {
    pub fn new() -> (r: Self)
        ensures
            r@ == Map::<Seq<char>, Operand>::empty(),
    {
        let r = AliasTable { map: alias_map_new() };
        assert(r@ =~= Map::<Seq<char>, Operand>::empty());
        r
    }

    /// Binds `name` to `op`, replacing an earlier binding.
    pub fn insert(&mut self, name: String, op: Operand)
        ensures
            final(self)@ == old(self)@.insert(name@, op),
    {
        alias_map_insert(&mut self.map, name, op);
    }

    pub fn get(&self, name: &str) -> (r: Option<&Operand>)
        ensures
            self@.contains_key(name@) ==> r is Some && *r.unwrap() == self@[name@],
            !self@.contains_key(name@) ==> r is None,
    {
        alias_map_get(&self.map, name)
    }
}

} // verus!
