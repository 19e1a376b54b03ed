//! Launchable entries and the ordered map that holds them.

use crate::ordered::inserted;
use crate::ordered::lookup;
use crate::ordered::position;
use indexmap::IndexMap;
use vstd::prelude::*;

verus! {

/// A launchable target: a bare command or an application of a desktop entry.
#[derive(Clone, Debug, PartialEq, Eq)]
pub struct Entry {
    /// Command template; may hold field codes and surrounding white space.
    pub command: String,
    /// Whether the entry comes from a desktop entry.
    pub desktop: bool,
    /// Whether the desktop entry asks for a terminal.
    pub terminal: bool,
    /// Number of launches so far.
    pub count: u64,
}

/// What an [`Entry`] holds, as mathematical values.
pub struct EntryView {
    pub command: Seq<char>,
    pub desktop: bool,
    pub terminal: bool,
    pub count: u64,
}

impl View for Entry {
    type V = EntryView;

    open spec fn view(&self) -> EntryView {
        EntryView {
            command: self.command@,
            desktop: self.desktop,
            terminal: self.terminal,
            count: self.count,
        }
    }
}

/// Entries by identifier, in insertion order.
pub type EntryMap = IndexMap<String, Entry>;

/// `indexmap::IndexMap`, a hash map that keeps its pairs in insertion
/// order; opaque here.
#[verifier::external_type_specification]
#[verifier::external_body]
#[verifier::reject_recursive_types(K)]
#[verifier::reject_recursive_types(V)]
#[verifier::reject_recursive_types(S)]
pub struct ExIndexMap<K, V, S>(IndexMap<K, V, S>);

/// The identifiers and entries that a map holds, in its order.
pub uninterp spec fn map_entries(m: IndexMap<String, Entry>) -> Seq<(Seq<char>, EntryView)>;

/// `IndexMap::get_mut`: a mutable reference to the entry stored under `key`,
/// if there is one. Whatever is written through the reference replaces that
/// entry in place; nothing else in the map changes.
#[verifier::external_body]
pub(crate) fn entry_map_get_mut<'a>(m: &'a mut EntryMap, key: &str) -> (r: Option<&'a mut Entry>)
    ensures
        match r {
            Some(e) => {
                &&& position(map_entries(*old(m)), key@) matches Some(i)
                &&& e@ == map_entries(*old(m))[i].1
                &&& map_entries(*final(m)) == map_entries(*old(m)).update(i, (key@, final(e)@))
            },
            None => {
                &&& position(map_entries(*old(m)), key@) is None
                &&& map_entries(*final(m)) == map_entries(*old(m))
            },
        },
{
    m.get_mut(key)
}

/// `IndexMap::new`: a map that holds nothing.
#[verifier::external_body]
pub(crate) fn entry_map_new() -> (r: EntryMap)
    ensures
        map_entries(r) == Seq::<(Seq<char>, EntryView)>::empty(),
{
    IndexMap::new()
}

/// `IndexMap::len`: the number of pairs in the map.
#[verifier::external_body]
pub(crate) fn entry_map_len(m: &EntryMap) -> (r: usize)
    ensures
        r == map_entries(*m).len(),
{
    m.len()
}

/// `IndexMap::get_index`: the pair at `index` in the map's order, if the
/// index is below the length. The identifier found there occurs at no other
/// index.
#[verifier::external_body]
pub(crate) fn entry_map_get_index(m: &EntryMap, index: usize) -> (r: Option<(&String, &Entry)>)
    ensures
        match r {
            Some((key, entry)) => {
                &&& index < map_entries(*m).len()
                &&& (key@, entry@) == map_entries(*m)[index as int]
                &&& forall|j: int|
                    0 <= j < map_entries(*m).len() && j != index ==> (#[trigger] map_entries(
                        *m,
                    )[j]).0 != key@
            },
            None => index >= map_entries(*m).len(),
        },
{
    m.get_index(index)
}

/// `IndexMap::insert`: stores `value` under `key`. Where the map had the key,
/// the pair keeps its place and the value it had comes back; otherwise the
/// pair goes last and `None` comes back.
#[verifier::external_body]
pub(crate) fn entry_map_insert(m: &mut EntryMap, key: String, value: Entry) -> (r: Option<Entry>)
    ensures
        map_entries(*final(m)) == inserted(map_entries(*old(m)), key@, value@),
        match r {
            Some(before) => lookup(map_entries(*old(m)), key@) == Some(before@),
            None => lookup(map_entries(*old(m)), key@) is None,
        },
{
    m.insert(key, value)
}

} // verus!
