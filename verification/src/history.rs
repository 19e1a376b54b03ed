//! The history store: the entry map as the text of a TOML document.
//!
//! The document maps each identifier to a record with the fields `exec`
//! (string), `desktop` and `terminal` (booleans) and `count` (integer).
//! Further fields of a record are read over.

use crate::entry::entry_map_get_index;
use crate::entry::entry_map_insert;
use crate::entry::entry_map_len;
use crate::entry::entry_map_new;
use crate::entry::map_entries;
use crate::entry::Entry;
use crate::entry::EntryMap;
use crate::entry::EntryView;
use crate::ordered::distinct_keys;
use crate::ordered::inserted;
use crate::ordered::key_at;
use crate::ordered::lemma_position_absent;
use crate::ordered::lemma_position_unique;
use crate::ordered::lookup;
use crate::ordered::position;
use vstd::prelude::*;

verus! {

/// `toml::map::Map`, the table of a TOML document; opaque here.
#[verifier::external_type_specification]
#[verifier::external_body]
#[verifier::reject_recursive_types(K)]
#[verifier::reject_recursive_types(V)]
pub struct ExTomlMap<K, V>(toml::map::Map<K, V>);

/// `toml::Value`, a value of a TOML document; opaque here.
#[verifier::external_type_specification]
#[verifier::external_body]
pub struct ExTomlValue(toml::Value);

/// `toml::de::Error`, why a text was not read; opaque here.
#[verifier::external_type_specification]
#[verifier::external_body]
pub struct ExTomlDeError(toml::de::Error);

/// `toml::ser::Error`, why a table was not written; opaque here.
#[verifier::external_type_specification]
#[verifier::external_body]
pub struct ExTomlSerError(toml::ser::Error);

/// A TOML value as far as the store reads it.
pub enum Item {
    Text(Seq<char>),
    Integer(i64),
    Flag(bool),
    Table(Seq<(Seq<char>, Item)>),
    /// A float, a date or an array.
    Other,
}

/// A TOML value told apart by its kind.
pub(crate) enum Field {
    Text(String),
    Integer(i64),
    Flag(bool),
    Table(toml::Table),
    /// A float, a date or an array, kept as it is.
    Other(toml::Value),
}

impl View for Field {
    type V = Item;

    closed spec fn view(&self) -> Item {
        match self {
            Field::Text(s) => Item::Text(s@),
            Field::Integer(i) => Item::Integer(*i),
            Field::Flag(b) => Item::Flag(*b),
            Field::Table(t) => Item::Table(table_items(*t)),
            Field::Other(_) => Item::Other,
        }
    }
}

/// Why the store could not be read or written.
#[derive(Clone, Copy, Debug, PartialEq, Eq, Structural)]
pub enum HistoryError {
    /// The text is no TOML document, or a record in it lacks a field or
    /// holds one of another type.
    Corrupt,
    /// A usage count is beyond the integers of TOML, or the document was
    /// refused by the writer.
    Unrepresentable,
}

/// The keys and values that a table holds, in its order.
pub uninterp spec fn table_items(t: toml::map::Map<String, toml::Value>) -> Seq<(Seq<char>, Item)>;

/// The top-level table that `toml::from_str` reads from a text, or `None`
/// where the text is no TOML document.
pub uninterp spec fn toml_parsed(text: Seq<char>) -> Option<Seq<(Seq<char>, Item)>>;

/// The text that `toml::to_string` writes for a table of records, or `None`
/// where it refuses the table.
pub uninterp spec fn toml_text(items: Seq<(Seq<char>, Item)>) -> Option<Seq<char>>;

/// Name of the launcher's directory under the cache home.
pub const STORE_DIRECTORY: &'static str = "sklauncher";

/// Name of the store's file in that directory.
pub const STORE_FILE: &'static str = "history.toml";

/// Name of the field that holds the command.
pub const KEY_COMMAND: &'static str = "exec";

/// Name of the field that tells a desktop entry from a bare command.
pub const KEY_DESKTOP: &'static str = "desktop";

/// Name of the field that asks for a terminal.
pub const KEY_TERMINAL: &'static str = "terminal";

/// Name of the field that holds the usage count.
pub const KEY_COUNT: &'static str = "count";

/// The keys of `items`, in order.
pub open spec fn keys_of(items: Seq<(Seq<char>, Item)>) -> Seq<Seq<char>> {
    Seq::new(items.len(), |i: int| items[i].0)
}

/// Whether `item` is a table of strings, integers and booleans.
pub open spec fn plain_record(item: Item) -> bool {
    item matches Item::Table(fields) && forall|j: int|
        0 <= j < fields.len() ==> !((#[trigger] fields[j]).1 is Table) && !(fields[j].1 is Other)
}

/// Whether every value of `items` is a plain record.
pub open spec fn plain_document(items: Seq<(Seq<char>, Item)>) -> bool {
    forall|i: int| 0 <= i < items.len() ==> plain_record((#[trigger] items[i]).1)
}

/// The entry that a value of the document stands for, if it is a record
/// with the four fields in their types and a count that is not negative.
pub open spec fn record_of(item: Item) -> Option<EntryView> {
    match item {
        Item::Table(fields) => match (
            lookup(fields, KEY_COMMAND@),
            lookup(fields, KEY_DESKTOP@),
            lookup(fields, KEY_TERMINAL@),
            lookup(fields, KEY_COUNT@),
        ) {
            (
                Some(Item::Text(command)),
                Some(Item::Flag(desktop)),
                Some(Item::Flag(terminal)),
                Some(Item::Integer(count)),
            ) => if count >= 0 {
                Some(EntryView { command, desktop, terminal, count: count as u64 })
            } else {
                None
            },
            _ => None,
        },
        _ => None,
    }
}

/// The entries that a document stands for, in its order, if every value in
/// it is a valid record.
pub open spec fn records_of(items: Seq<(Seq<char>, Item)>) -> Option<Seq<(Seq<char>, EntryView)>> {
    if forall|i: int| 0 <= i < items.len() ==> record_of((#[trigger] items[i]).1) is Some {
        Some(Seq::new(items.len(), |i: int| (items[i].0, record_of(items[i].1).unwrap())))
    } else {
        None
    }
}

/// The entries that the text of a store holds: none for an empty text, else
/// those of the document it parses to.
pub open spec fn stored_entries(text: Seq<char>) -> Option<Seq<(Seq<char>, EntryView)>> {
    if text.len() == 0 {
        Some(Seq::empty())
    } else {
        match toml_parsed(text) {
            Some(items) => records_of(items),
            None => None,
        }
    }
}

/// The record that stands for an entry.
pub open spec fn record_item(entry: EntryView) -> Item {
    Item::Table(
        seq![
            (KEY_COMMAND@, Item::Text(entry.command)),
            (KEY_DESKTOP@, Item::Flag(entry.desktop)),
            (KEY_TERMINAL@, Item::Flag(entry.terminal)),
            (KEY_COUNT@, Item::Integer(entry.count as i64)),
        ],
    )
}

/// The document that stands for `entries`, in their order.
pub open spec fn document_of(entries: Seq<(Seq<char>, EntryView)>) -> Seq<(Seq<char>, Item)> {
    Seq::new(entries.len(), |i: int| (entries[i].0, record_item(entries[i].1)))
}

/// Whether every count is an integer of TOML.
pub open spec fn counts_fit(entries: Seq<(Seq<char>, EntryView)>) -> bool {
    forall|i: int| 0 <= i < entries.len() ==> (#[trigger] entries[i]).1.count <= i64::MAX
}

/// The text of the store for `entries`, where there is one.
pub open spec fn stored_text(entries: Seq<(Seq<char>, EntryView)>) -> Option<Seq<char>> {
    if counts_fit(entries) {
        toml_text(document_of(entries))
    } else {
        None
    }
}

/// `toml::from_str` at the type `toml::Table`: the top-level table of a TOML
/// document. Whether it succeeds and what the table holds depend on the text
/// alone.
#[verifier::external_body]
fn parse_table(text: &str) -> (r: Result<toml::Table, toml::de::Error>)
    ensures
        match r {
            Ok(t) => toml_parsed(text@) == Some(table_items(t)),
            Err(_) => toml_parsed(text@) is None,
        },
{
    toml::from_str(text)
}

/// `toml::map::Map::keys`: the keys of the table in its order. No key
/// occurs twice.
#[verifier::external_body]
fn table_keys(t: &toml::Table) -> (r: Vec<String>)
    ensures
        r.deep_view() == keys_of(table_items(*t)),
        r.deep_view().no_duplicates(),
{
    t.keys().cloned().collect()
}

/// `toml::map::Map::get`: a copy of the value stored under `key`, if there
/// is one, told apart by the variant of `toml::Value`.
#[verifier::external_body]
fn table_get(t: &toml::Table, key: &str) -> (r: Option<Field>)
    ensures
        match r {
            Some(field) => lookup(table_items(*t), key@) == Some(field@),
            None => lookup(table_items(*t), key@) is None,
        },
{
    Some(match t.get(key)?.clone() {
        toml::Value::String(s) => Field::Text(s),
        toml::Value::Integer(i) => Field::Integer(i),
        toml::Value::Float(x) => Field::Other(toml::Value::Float(x)),
        toml::Value::Boolean(b) => Field::Flag(b),
        toml::Value::Datetime(d) => Field::Other(toml::Value::Datetime(d)),
        toml::Value::Array(a) => Field::Other(toml::Value::Array(a)),
        toml::Value::Table(t) => Field::Table(t),
    })
}

/// `toml::map::Map::new`: a table that holds nothing.
#[verifier::external_body]
fn table_new() -> (r: toml::Table)
    ensures
        table_items(r) == Seq::<(Seq<char>, Item)>::empty(),
{
    toml::Table::new()
}

/// `toml::map::Map::insert`: stores the value under `key`, in the place of
/// the value that the key had, else at the end.
#[verifier::external_body]
fn table_put(t: &mut toml::Table, key: String, field: Field)
    ensures
        table_items(*final(t)) == inserted(table_items(*old(t)), key@, field@),
{
    let value = match field {
        Field::Text(s) => toml::Value::String(s),
        Field::Integer(i) => toml::Value::Integer(i),
        Field::Flag(b) => toml::Value::Boolean(b),
        Field::Table(t) => toml::Value::Table(t),
        Field::Other(v) => v,
    };
    t.insert(key, value);
}

/// `toml::to_string` on a table of plain records: the text of the document.
/// Whether it succeeds and the text depend on what the table holds alone.
#[verifier::external_body]
fn table_text(t: &toml::Table) -> (r: Result<String, toml::ser::Error>)
    requires
        plain_document(table_items(*t)),
    ensures
        match r {
            Ok(text) => toml_text(table_items(*t)) == Some(text@),
            Err(_) => toml_text(table_items(*t)) is None,
        },
{
    toml::to_string(t)
}

/// The four field names are different strings.
pub proof fn lemma_field_names_differ()
    ensures
        KEY_COMMAND@ != KEY_DESKTOP@,
        KEY_COMMAND@ != KEY_TERMINAL@,
        KEY_COMMAND@ != KEY_COUNT@,
        KEY_DESKTOP@ != KEY_TERMINAL@,
        KEY_DESKTOP@ != KEY_COUNT@,
        KEY_TERMINAL@ != KEY_COUNT@,
{
    reveal_strlit("exec");
    reveal_strlit("desktop");
    reveal_strlit("terminal");
    reveal_strlit("count");
    assert(KEY_COMMAND@.len() == 4);
    assert(KEY_DESKTOP@.len() == 7);
    assert(KEY_TERMINAL@.len() == 8);
    assert(KEY_COUNT@.len() == 5);
}

/// The entry that a record of the document stands for.
pub fn read_record(fields: &toml::Table) -> (r: Option<Entry>)
    ensures
        match r {
            Some(entry) => record_of(Item::Table(table_items(*fields))) == Some(entry@),
            None => record_of(Item::Table(table_items(*fields))) is None,
        },
{
    let command = match table_get(fields, KEY_COMMAND) {
        Some(Field::Text(command)) => command,
        _ => { return None; },
    };
    let desktop = match table_get(fields, KEY_DESKTOP) {
        Some(Field::Flag(desktop)) => desktop,
        _ => { return None; },
    };
    let terminal = match table_get(fields, KEY_TERMINAL) {
        Some(Field::Flag(terminal)) => terminal,
        _ => { return None; },
    };
    let count = match table_get(fields, KEY_COUNT) {
        Some(Field::Integer(count)) => count,
        _ => { return None; },
    };
    if count < 0 {
        return None;
    }
    Some(Entry { command, desktop, terminal, count: count as u64 })
}

/// The entry map that a parsed document stands for.
pub fn read_document(doc: &toml::Table) -> (r: Result<EntryMap, HistoryError>)
    ensures
        match r {
            Ok(m) => records_of(table_items(*doc)) == Some(map_entries(m)),
            Err(e) => e == HistoryError::Corrupt && records_of(table_items(*doc)) is None,
        },
{
    let ghost items = table_items(*doc);
    let keys = table_keys(doc);
    let mut m = entry_map_new();
    let mut i: usize = 0;
    proof {
        assert(keys.deep_view().len() == keys.len());
        assert forall|a: int, b: int|
            0 <= a < items.len() && 0 <= b < items.len() && a != b implies items[a].0
            != items[b].0 by {
            assert(keys.deep_view()[a] == items[a].0);
            assert(keys.deep_view()[b] == items[b].0);
        }
    }
    while i < keys.len()
        invariant
            items == table_items(*doc),
            keys.deep_view() == keys_of(items),
            distinct_keys(items),
            i <= keys.len() == items.len(),
            forall|j: int| 0 <= j < i ==> record_of((#[trigger] items[j]).1) is Some,
            map_entries(m) == Seq::new(
                i as nat,
                |j: int| (items[j].0, record_of(items[j].1).unwrap()),
            ),
        decreases keys.len() - i,
    {
        let key = &keys[i];
        proof {
            assert(key@ == keys.deep_view()[i as int]);
            lemma_position_unique(items, key@, i as int);
        }
        let entry = match table_get(doc, key.as_str()) {
            Some(Field::Table(fields)) => match read_record(&fields) {
                Some(entry) => entry,
                None => { return Err(HistoryError::Corrupt); },
            },
            _ => { return Err(HistoryError::Corrupt); },
        };
        proof {
            let before = map_entries(m);
            assert forall|j: int| 0 <= j < before.len() implies (#[trigger] before[j]).0
                != key@ by {
                assert(before[j].0 == items[j].0);
            }
            lemma_position_absent(before, key@);
        }
        entry_map_insert(&mut m, key.clone(), entry);
        i += 1;
        assert(map_entries(m) =~= Seq::new(
            i as nat,
            |j: int| (items[j].0, record_of(items[j].1).unwrap()),
        ));
    }
    assert(map_entries(m) =~= records_of(items).unwrap());
    Ok(m)
}

/// The entry map that the text of a store holds. An empty text holds no
/// entries; any other text is read as a TOML document of records.
pub fn load_history(contents: &str) -> (r: Result<EntryMap, HistoryError>)
    ensures
        match r {
            Ok(m) => stored_entries(contents@) == Some(map_entries(m)),
            Err(e) => e == HistoryError::Corrupt && stored_entries(contents@) is None,
        },
{
    if contents.is_empty() {
        return Ok(entry_map_new());
    }
    match parse_table(contents) {
        Ok(doc) => read_document(&doc),
        Err(_) => Err(HistoryError::Corrupt),
    }
}

/// The record that stands for `entry`, if its count is an integer of TOML.
pub fn write_record(entry: &Entry) -> (r: Option<toml::Table>)
    ensures
        match r {
            Some(fields) => entry.count <= i64::MAX && Item::Table(table_items(fields))
                == record_item(entry@),
            None => entry.count > i64::MAX,
        },
{
    if entry.count > i64::MAX as u64 {
        return None;
    }
    let mut fields = table_new();
    proof {
        lemma_field_names_differ();
    }
    table_put(&mut fields, KEY_COMMAND.to_owned(), Field::Text(entry.command.clone()));
    proof {
        lemma_position_absent(table_items(fields), KEY_DESKTOP@);
    }
    table_put(&mut fields, KEY_DESKTOP.to_owned(), Field::Flag(entry.desktop));
    proof {
        lemma_position_absent(table_items(fields), KEY_TERMINAL@);
    }
    table_put(&mut fields, KEY_TERMINAL.to_owned(), Field::Flag(entry.terminal));
    proof {
        lemma_position_absent(table_items(fields), KEY_COUNT@);
    }
    table_put(&mut fields, KEY_COUNT.to_owned(), Field::Integer(entry.count as i64));
    assert(table_items(fields) =~= record_item(entry@)->Table_0);
    Some(fields)
}

/// The document that stands for an entry map, record by record in the map's
/// order, if every count is an integer of TOML.
pub fn build_document(history: &EntryMap) -> (r: Option<toml::Table>)
    ensures
        match r {
            Some(doc) => counts_fit(map_entries(*history)) && table_items(doc) == document_of(
                map_entries(*history),
            ),
            None => !counts_fit(map_entries(*history)),
        },
{
    let ghost entries = map_entries(*history);
    let n = entry_map_len(history);
    let mut doc = table_new();
    let mut i: usize = 0;
    while i < n
        invariant
            entries == map_entries(*history),
            i <= n == entries.len(),
            forall|j: int| 0 <= j < i ==> (#[trigger] entries[j]).1.count <= i64::MAX,
            table_items(doc) == Seq::new(
                i as nat,
                |j: int| (entries[j].0, record_item(entries[j].1)),
            ),
        decreases n - i,
    {
        match entry_map_get_index(history, i) {
            Some((key, entry)) => {
                let fields = match write_record(entry) {
                    Some(fields) => fields,
                    None => {
                        assert(entries[i as int].1.count > i64::MAX);
                        return None;
                    },
                };
                proof {
                    let before = table_items(doc);
                    assert forall|j: int| 0 <= j < before.len() implies (#[trigger] before[j]).0
                        != key@ by {
                        assert(before[j].0 == entries[j].0);
                    }
                    lemma_position_absent(before, key@);
                }
                table_put(&mut doc, key.clone(), Field::Table(fields));
            },
            None => {},
        }
        i += 1;
        assert(table_items(doc) =~= Seq::new(
            i as nat,
            |j: int| (entries[j].0, record_item(entries[j].1)),
        ));
    }
    assert(table_items(doc) =~= document_of(entries));
    Some(doc)
}

/// The text of the store for the whole entry map.
pub fn save_history(history: &EntryMap) -> (r: Result<String, HistoryError>)
    ensures
        match r {
            Ok(text) => stored_text(map_entries(*history)) == Some(text@),
            Err(e) => e == HistoryError::Unrepresentable && stored_text(map_entries(*history))
                is None,
        },
{
    let doc = match build_document(history) {
        Some(doc) => doc,
        None => { return Err(HistoryError::Unrepresentable); },
    };
    proof {
        lemma_document_is_plain(map_entries(*history));
    }
    match table_text(&doc) {
        Ok(text) => Ok(text),
        Err(_) => Err(HistoryError::Unrepresentable),
    }
}

/// The document of an entry map holds plain records only.
pub proof fn lemma_document_is_plain(entries: Seq<(Seq<char>, EntryView)>)
    ensures
        plain_document(document_of(entries)),
{
    let doc = document_of(entries);
    assert forall|i: int| 0 <= i < doc.len() implies plain_record((#[trigger] doc[i]).1) by {
        let fields = record_item(entries[i].1)->Table_0;
        assert(doc[i].1 == record_item(entries[i].1));
        assert(fields.len() == 4);
    }
}

/// The schema loses nothing: the document written for entries whose counts
/// fit stands for exactly those entries, in the same order.
pub proof fn lemma_schema_round_trip(entries: Seq<(Seq<char>, EntryView)>)
    requires
        counts_fit(entries),
    ensures
        records_of(document_of(entries)) == Some(entries),
{
    let doc = document_of(entries);
    lemma_field_names_differ();
    assert forall|i: int| 0 <= i < doc.len() implies record_of((#[trigger] doc[i]).1) == Some(
        entries[i].1,
    ) by {
        let entry = entries[i].1;
        let fields = record_item(entry)->Table_0;
        assert(doc[i].1 == record_item(entry));
        assert(key_at(fields, KEY_COMMAND@, 0));
        assert(key_at(fields, KEY_DESKTOP@, 1));
        assert(key_at(fields, KEY_TERMINAL@, 2));
        assert(key_at(fields, KEY_COUNT@, 3));
        assert(distinct_keys(fields));
        lemma_position_unique(fields, KEY_COMMAND@, 0);
        lemma_position_unique(fields, KEY_DESKTOP@, 1);
        lemma_position_unique(fields, KEY_TERMINAL@, 2);
        lemma_position_unique(fields, KEY_COUNT@, 3);
        assert(entries[i].1.count <= i64::MAX);
    }
    assert(records_of(doc).unwrap() =~= entries);
}

/// Loading what was saved gives the entries back, in their order, wherever
/// the TOML reader makes of the saved text the document that the writer was
/// given; a second save then writes the same text again. (An empty text
/// holds no entries, whatever the reader would make of it.)
pub proof fn lemma_load_after_save(entries: Seq<(Seq<char>, EntryView)>, text: Seq<char>)
    ensures
        stored_text(entries) == Some(text) && toml_parsed(text) == Some(document_of(entries)) && (
        text.len() > 0 || entries.len() == 0) ==> stored_entries(text) == Some(entries),
{
    if counts_fit(entries) {
        lemma_schema_round_trip(entries);
        assert(entries.len() == 0 ==> entries =~= Seq::empty());
    }
}

} // verus!
