//! A JSON value as a tree, and the pointer-table form some pages send it in.
use vstd::prelude::*;

use crate::text::{chars_of, find_first_index, parse_usize, parse_usize_spec, string_of, trim_start_char, trim_start_char_chars};

verus! {

/// A JSON value. A number that fits in an `i64` is an `Int`; any other
/// number keeps its text.
#[derive(Debug, PartialEq)]
pub enum JsonValue {
    Null,
    Bool(bool),
    Int(i64),
    Number(String),
    Str(String),
    Array(Vec<JsonValue>),
    Object(Vec<(String, JsonValue)>),
}

/// What a JSON value holds.
pub enum JsonView {
    Null,
    Bool(bool),
    Int(i64),
    Number(Seq<char>),
    Str(Seq<char>),
    Array(Seq<JsonView>),
    Object(Seq<(Seq<char>, JsonView)>),
}

/// What a JSON value holds.
pub open spec fn json_view(v: JsonValue) -> JsonView
    decreases v,
{
    match v {
        JsonValue::Null => JsonView::Null,
        JsonValue::Bool(b) => JsonView::Bool(b),
        JsonValue::Int(n) => JsonView::Int(n),
        JsonValue::Number(s) => JsonView::Number(s@),
        JsonValue::Str(s) => JsonView::Str(s@),
        JsonValue::Array(items) => JsonView::Array(Seq::new(items@.len(), |i: int| if 0 <= i < items@.len() { json_view(items@[i]) } else { JsonView::Null })),
        JsonValue::Object(entries) => JsonView::Object(Seq::new(entries@.len(), |i: int| if 0 <= i < entries@.len() { (entries@[i].0@, json_view(entries@[i].1)) } else { (Seq::empty(), JsonView::Null) })),
    }
}

/// What a table of values holds.
pub open spec fn table_view(t: Seq<JsonValue>) -> Seq<JsonView> {
    t.map_values(|v: JsonValue| json_view(v))
}

/// What an object's entries hold.
pub open spec fn entries_view(es: Seq<(String, JsonValue)>) -> Seq<(Seq<char>, JsonView)> {
    es.map_values(|e: (String, JsonValue)| (e.0@, json_view(e.1)))
}

/// Why a table does not resolve.
#[derive(Debug, Clone, Copy, PartialEq, Eq, Structural)]
pub enum PtrError {
    /// A pointer past the table ("Invalid index").
    InvalidIndex,
    /// An object key that is not `_` and a position ("Unable to convert key
    /// index to number").
    KeyIndex,
    /// An object key that points at no string ("Unable to convert key value
    /// to string").
    KeyNotString,
    /// An object value that is not a position ("Unable to convert value
    /// index to number").
    ValueIndex,
    /// An array item that is not a position ("Unable to convert index to
    /// number").
    ItemIndex,
    /// Pointers that lead back to a value being resolved: nested deeper than
    /// the table is long, which only a cycle allows.
    TooDeep,
}

/// The value's number, where it is an integer that fits in an `i64`
/// (`Value::as_i64`).
pub open spec fn as_i64(v: JsonView) -> Option<i64> {
    match v {
        JsonView::Int(n) => Some(n),
        _ => None,
    }
}

/// The string at a position of the table, if there is one.
pub open spec fn str_at(table: Seq<JsonView>, i: int) -> Option<Seq<char>> {
    if 0 <= i < table.len() {
        match table[i] {
            JsonView::Str(s) => Some(s),
            _ => None,
        }
    } else {
        None
    }
}

/// Which entries have the key.
pub open spec fn key_hits(es: Seq<(Seq<char>, JsonView)>, key: Seq<char>) -> Seq<bool> {
    es.map_values(|e: (Seq<char>, JsonView)| e.0 == key)
}

/// An object with a key set to a value: an entry with the key gets the
/// value in place; otherwise the entry is added at the end (`Map::insert`).
pub open spec fn object_insert(es: Seq<(Seq<char>, JsonView)>, key: Seq<char>, v: JsonView) -> Seq<(Seq<char>, JsonView)> {
    let i = find_first_index(key_hits(es, key));
    if i >= 0 {
        es.update(i, (key, v))
    } else {
        es.push((key, v))
    }
}

/// The value at `index` of a pointer table, resolved (`resolve_ptr_table_json`):
/// an object's keys are `_` and the position of their name, its values
/// positions of their values (negative for null); an array's items are
/// positions (negative for null); any other value is itself. `fuel` bounds
/// how deep pointers nest.
pub open spec fn resolve_spec(table: Seq<JsonView>, index: int, fuel: nat) -> Result<JsonView, PtrError>
    decreases fuel, 0nat, 0nat,
{
    if !(0 <= index < table.len()) {
        Err(PtrError::InvalidIndex)
    } else if fuel == 0 {
        Err(PtrError::TooDeep)
    } else {
        match table[index] {
            JsonView::Object(entries) => match resolve_entries(table, entries, (fuel - 1) as nat) {
                Ok(es) => Ok(JsonView::Object(es)),
                Err(e) => Err(e),
            },
            JsonView::Array(items) => match resolve_items(table, items, (fuel - 1) as nat) {
                Ok(xs) => Ok(JsonView::Array(xs)),
                Err(e) => Err(e),
            },
            v => Ok(v),
        }
    }
}

/// An object's entries resolved in order; the first error stops.
pub open spec fn resolve_entries(table: Seq<JsonView>, entries: Seq<(Seq<char>, JsonView)>, fuel: nat) -> Result<Seq<(Seq<char>, JsonView)>, PtrError>
    decreases fuel, 1nat, entries.len(),
{
    if entries.len() == 0 {
        Ok(seq![])
    } else {
        match resolve_entries(table, entries.drop_last(), fuel) {
            Err(e) => Err(e),
            Ok(prev) => {
                let k = entries.last().0;
                let v = entries.last().1;
                match parse_usize_spec(trim_start_char(k, '_')) {
                    None => Err(PtrError::KeyIndex),
                    Some(ki) => match str_at(table, ki as int) {
                        None => Err(PtrError::KeyNotString),
                        Some(key) => match as_i64(v) {
                            None => Err(PtrError::ValueIndex),
                            Some(vi) => if vi >= 0 {
                                match resolve_spec(table, (vi as usize) as int, fuel) {
                                    Err(e) => Err(e),
                                    Ok(r) => Ok(object_insert(prev, key, r)),
                                }
                            } else {
                                Ok(object_insert(prev, key, JsonView::Null))
                            },
                        },
                    },
                }
            },
        }
    }
}

/// An array's items resolved in order; the first error stops.
pub open spec fn resolve_items(table: Seq<JsonView>, items: Seq<JsonView>, fuel: nat) -> Result<Seq<JsonView>, PtrError>
    decreases fuel, 1nat, items.len(),
{
    if items.len() == 0 {
        Ok(seq![])
    } else {
        match resolve_items(table, items.drop_last(), fuel) {
            Err(e) => Err(e),
            Ok(prev) => match as_i64(items.last()) {
                None => Err(PtrError::ItemIndex),
                Some(i) => if i < 0 {
                    Ok(prev.push(JsonView::Null))
                } else {
                    match resolve_spec(table, (i as usize) as int, fuel) {
                        Err(e) => Err(e),
                        Ok(r) => Ok(prev.push(r)),
                    }
                },
            },
        }
    }
}

/// What a resolution gives.
pub open spec fn result_view(r: Result<JsonValue, PtrError>) -> Result<JsonView, PtrError> {
    match r {
        Ok(v) => Ok(json_view(v)),
        Err(e) => Err(e),
    }
}

fn primitive_copy(v: &JsonValue) -> (r: JsonValue)
    requires
        !(v is Array),
        !(v is Object),
    ensures
        json_view(r) == json_view(*v),
{
    match v {
        JsonValue::Null => JsonValue::Null,
        JsonValue::Bool(b) => JsonValue::Bool(*b),
        JsonValue::Int(n) => JsonValue::Int(*n),
        JsonValue::Number(s) => JsonValue::Number(string_of(&chars_of(s.as_str()))),
        JsonValue::Str(s) => JsonValue::Str(string_of(&chars_of(s.as_str()))),
        _ => JsonValue::Null,
    }
}

fn insert_entry(out: &mut Vec<(String, JsonValue)>, key: String, v: JsonValue)
    ensures
        entries_view(final(out)@) == object_insert(entries_view(old(out)@), key@, json_view(v)),
{
    let ghost ev = entries_view(out@);
    let ghost hits = key_hits(ev, key@);
    let mut j: usize = 0;
    while j < out.len()
        invariant
            j <= out@.len(),
            ev == entries_view(out@),
            ev == entries_view(old(out)@),
            hits == key_hits(ev, key@),
            forall|k: int| 0 <= k < j ==> !hits[k],
        decreases out@.len() - j,
    {
        assert(hits[j as int] == (out@[j as int].0@ == key@));
        if crate::text::str_eq(out[j].0.as_str(), key.as_str()) {
            proof {
                crate::text::lemma_find_first_index(hits, j as int);
            }
            let ghost kv = key@;
            let ghost vv = json_view(v);
            out.set(j, (key, v));
            assert(entries_view(out@) =~= ev.update(j as int, (kv, vv)));
            return;
        }
        j = j + 1;
    }
    proof {
        crate::text::lemma_find_first_none(hits);
    }
    let ghost kv = key@;
    let ghost vv = json_view(v);
    out.push((key, v));
    assert(entries_view(out@) =~= ev.push((kv, vv)));
}

fn resolve_at(table: &Vec<JsonValue>, index: usize, fuel: usize) -> (r: Result<JsonValue, PtrError>)
    ensures
        result_view(r) == resolve_spec(table_view(table@), index as int, fuel as nat),
    decreases fuel,
{
    let ghost tv = table_view(table@);
    if index >= table.len() {
        return Err(PtrError::InvalidIndex);
    }
    if fuel == 0 {
        return Err(PtrError::TooDeep);
    }
    assert(tv[index as int] == json_view(table@[index as int]));
    match &table[index] {
        JsonValue::Object(entries) => {
            let ghost ev = entries_view(entries@);
            proof {
                let jv = json_view(table@[index as int]);
                assert(jv->Object_0 =~= ev);
                assert(tv[index as int] == JsonView::Object(ev));
            }
            let mut out: Vec<(String, JsonValue)> = Vec::new();
            let mut i: usize = 0;
            assert(ev.take(0) =~= Seq::<(Seq<char>, JsonView)>::empty());
            assert(entries_view(out@) =~= Seq::<(Seq<char>, JsonView)>::empty());
            while i < entries.len()
                invariant
                    i <= entries@.len(),
                    ev == entries_view(entries@),
                    tv == table_view(table@),
                    fuel > 0,
                    resolve_entries(tv, ev.take(i as int), (fuel - 1) as nat) == Ok::<Seq<(Seq<char>, JsonView)>, PtrError>(entries_view(out@)),
                    index < tv.len(),
                    tv[index as int] == JsonView::Object(ev),
                decreases entries@.len() - i,
            {
                assert(ev.take(i + 1).drop_last() =~= ev.take(i as int));
                assert(ev.take(i + 1).last() == ev[i as int]);
                assert(ev[i as int] == (entries@[i as int].0@, json_view(entries@[i as int].1)));
                let (k, v) = (&entries[i].0, &entries[i].1);
                let kt = trim_start_char_chars(&chars_of(k.as_str()), '_');
                let ki = match parse_usize(&kt) {
                    Some(ki) => ki,
                    None => {
                        proof {
                            lemma_entries_err_prefix(tv, ev, i as int + 1, (fuel - 1) as nat);
                        }
                        return Err(PtrError::KeyIndex);
                    },
                };
                let key = if ki < table.len() {
                    match &table[ki] {
                        JsonValue::Str(s) => Some(string_of(&chars_of(s.as_str()))),
                        _ => None,
                    }
                } else {
                    None
                };
                proof {
                    if (ki as int) < tv.len() {
                        assert(tv[ki as int] == json_view(table@[ki as int]));
                    }
                }
                let key = match key {
                    Some(key) => key,
                    None => {
                        proof {
                            lemma_entries_err_prefix(tv, ev, i as int + 1, (fuel - 1) as nat);
                        }
                        return Err(PtrError::KeyNotString);
                    },
                };
                let vi = match v {
                    JsonValue::Int(n) => *n,
                    _ => {
                        proof {
                            lemma_entries_err_prefix(tv, ev, i as int + 1, (fuel - 1) as nat);
                        }
                        return Err(PtrError::ValueIndex);
                    },
                };
                if vi >= 0 {
                    match resolve_at(table, vi as usize, fuel - 1) {
                        Ok(r) => {
                            insert_entry(&mut out, key, r);
                        },
                        Err(e) => {
                            proof {
                                lemma_entries_err_prefix(tv, ev, i as int + 1, (fuel - 1) as nat);
                            }
                            return Err(e);
                        },
                    }
                } else {
                    insert_entry(&mut out, key, JsonValue::Null);
                }
                i = i + 1;
            }
            assert(ev.take(ev.len() as int) =~= ev);
            let ghost ov = entries_view(out@);
            let r = JsonValue::Object(out);
            assert(json_view(r)->Object_0 =~= ov);
            Ok(r)
        },
        JsonValue::Array(items) => {
            let ghost iv = items@.map_values(|v: JsonValue| json_view(v));
            proof {
                let jv = json_view(table@[index as int]);
                assert(jv->Array_0 =~= iv);
                assert(tv[index as int] == JsonView::Array(iv));
            }
            let mut out: Vec<JsonValue> = Vec::new();
            let mut i: usize = 0;
            assert(iv.take(0) =~= Seq::<JsonView>::empty());
            assert(out@.map_values(|v: JsonValue| json_view(v)) =~= Seq::<JsonView>::empty());
            while i < items.len()
                invariant
                    i <= items@.len(),
                    iv == items@.map_values(|v: JsonValue| json_view(v)),
                    tv == table_view(table@),
                    fuel > 0,
                    index < tv.len(),
                    tv[index as int] == JsonView::Array(iv),
                    resolve_items(tv, iv.take(i as int), (fuel - 1) as nat) == Ok::<Seq<JsonView>, PtrError>(out@.map_values(|v: JsonValue| json_view(v))),
                decreases items@.len() - i,
            {
                assert(iv.take(i + 1).drop_last() =~= iv.take(i as int));
                assert(iv.take(i + 1).last() == iv[i as int]);
                assert(iv[i as int] == json_view(items@[i as int]));
                let n = match &items[i] {
                    JsonValue::Int(n) => *n,
                    _ => {
                        proof {
                            lemma_items_err_prefix(tv, iv, i as int + 1, (fuel - 1) as nat);
                        }
                        return Err(PtrError::ItemIndex);
                    },
                };
                let ghost before = out@;
                if n < 0 {
                    out.push(JsonValue::Null);
                } else {
                    match resolve_at(table, n as usize, fuel - 1) {
                        Ok(r) => {
                            out.push(r);
                        },
                        Err(e) => {
                            proof {
                                lemma_items_err_prefix(tv, iv, i as int + 1, (fuel - 1) as nat);
                            }
                            return Err(e);
                        },
                    }
                }
                assert(out@.map_values(|v: JsonValue| json_view(v)) =~= before.map_values(|v: JsonValue| json_view(v)).push(json_view(out@[before.len() as int])));
                i = i + 1;
            }
            assert(iv.take(iv.len() as int) =~= iv);
            let ghost ov = out@.map_values(|v: JsonValue| json_view(v));
            let r = JsonValue::Array(out);
            assert(json_view(r)->Array_0 =~= ov);
            Ok(r)
        },
        v => Ok(primitive_copy(v)),
    }
}

proof fn lemma_entries_err_prefix(table: Seq<JsonView>, es: Seq<(Seq<char>, JsonView)>, i: int, fuel: nat)
    requires
        0 <= i <= es.len(),
        resolve_entries(table, es.take(i), fuel) is Err,
    ensures
        resolve_entries(table, es, fuel) == resolve_entries(table, es.take(i), fuel),
    decreases es.len() - i,
{
    if i < es.len() {
        assert(es.take(i + 1).drop_last() =~= es.take(i));
        lemma_entries_err_prefix(table, es, i + 1, fuel);
    } else {
        assert(es.take(i) =~= es);
    }
}

proof fn lemma_items_err_prefix(table: Seq<JsonView>, xs: Seq<JsonView>, i: int, fuel: nat)
    requires
        0 <= i <= xs.len(),
        resolve_items(table, xs.take(i), fuel) is Err,
    ensures
        resolve_items(table, xs, fuel) == resolve_items(table, xs.take(i), fuel),
    decreases xs.len() - i,
{
    if i < xs.len() {
        assert(xs.take(i + 1).drop_last() =~= xs.take(i));
        lemma_items_err_prefix(table, xs, i + 1, fuel);
    } else {
        assert(xs.take(i) =~= xs);
    }
}

/// The first value of a pointer table, resolved into an ordinary value
/// (`resolve_ptr_table_json(table, 0)`). Pointers nest at most as deep as
/// the table is long unless they form a cycle, which the site does not
/// send; a cycle is refused as too deep.
pub fn resolve_ptr_table(table: &Vec<JsonValue>) -> (r: Result<JsonValue, PtrError>)
    ensures
        result_view(r) == resolve_spec(table_view(table@), 0, table@.len()),
{
    resolve_at(table, 0, table.len())
}

/// The depth bound only cuts resolution off: wherever a resolution does not
/// run out of depth, a deeper bound gives the same result.
pub proof fn law_depth_bound_only_cuts(table: Seq<JsonView>, index: int, fuel: nat)
    requires
        resolve_spec(table, index, fuel) != Err::<JsonView, PtrError>(PtrError::TooDeep),
    ensures
        resolve_spec(table, index, fuel + 1) == resolve_spec(table, index, fuel),
    decreases fuel, 0nat, 0nat,
{
    if 0 <= index < table.len() && fuel > 0 {
        match table[index] {
            JsonView::Object(entries) => {
                lemma_entries_depth(table, entries, (fuel - 1) as nat);
            },
            JsonView::Array(items) => {
                lemma_items_depth(table, items, (fuel - 1) as nat);
            },
            _ => {},
        }
    }
}

proof fn lemma_entries_depth(table: Seq<JsonView>, entries: Seq<(Seq<char>, JsonView)>, fuel: nat)
    requires
        resolve_entries(table, entries, fuel) != Err::<Seq<(Seq<char>, JsonView)>, PtrError>(PtrError::TooDeep),
    ensures
        resolve_entries(table, entries, fuel + 1) == resolve_entries(table, entries, fuel),
    decreases fuel, 1nat, entries.len(),
{
    if entries.len() > 0 {
        lemma_entries_depth(table, entries.drop_last(), fuel);
        match resolve_entries(table, entries.drop_last(), fuel) {
            Err(e) => {},
            Ok(prev) => {
                let k = entries.last().0;
                let v = entries.last().1;
                match parse_usize_spec(trim_start_char(k, '_')) {
                    None => {},
                    Some(ki) => match str_at(table, ki as int) {
                        None => {},
                        Some(key) => match as_i64(v) {
                            None => {},
                            Some(vi) => if vi >= 0 {
                                law_depth_bound_only_cuts(table, (vi as usize) as int, fuel);
                            },
                        },
                    },
                }
            },
        }
    }
}

proof fn lemma_items_depth(table: Seq<JsonView>, items: Seq<JsonView>, fuel: nat)
    requires
        resolve_items(table, items, fuel) != Err::<Seq<JsonView>, PtrError>(PtrError::TooDeep),
    ensures
        resolve_items(table, items, fuel + 1) == resolve_items(table, items, fuel),
    decreases fuel, 1nat, items.len(),
{
    if items.len() > 0 {
        lemma_items_depth(table, items.drop_last(), fuel);
        match resolve_items(table, items.drop_last(), fuel) {
            Err(e) => {},
            Ok(prev) => match as_i64(items.last()) {
                None => {},
                Some(i) => if i >= 0 {
                    law_depth_bound_only_cuts(table, (i as usize) as int, fuel);
                },
            },
        }
    }
}

} // verus!
