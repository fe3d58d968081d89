//! Decoding relational rows into JSON objects.
//!
//! A column's declared type name picks a decode family from a fixed table;
//! the driver's decode attempt for that family is handed over as a plain
//! value, `None` when the driver could not decode. A failed decode falls
//! back to a family default (`NaN`, `0`, `false`, the empty string) rather
//! than failing the whole row, and a null raw value decodes to JSON null
//! regardless of the declared type. Within one row, a repeated column name
//! folds its values into one JSON array under that key, in order of
//! appearance; column order is otherwise preserved as first seen.

use vstd::prelude::*;

use crate::json::entries_view;
use crate::json::json_view;
use crate::json::items_view;
use crate::json::lemma_entries_view;
use crate::json::lemma_items_view;
use crate::json::text_eq;
use crate::json::Json;
use crate::json::JsonSpec;

verus! {

/// Bit pattern of the quiet NaN that a failed float decode falls back to.
pub const NAN_BITS: u64 = 0x7ff8000000000000;

/// The decode family a column's declared type name selects.
#[derive(Debug, Clone, Copy, PartialEq, Eq)]
pub enum ColumnFamily {
    /// Decoded as a 64-bit float.
    Float,
    /// Decoded as a 64-bit integer.
    BigInt,
    /// Decoded as a 32-bit integer.
    MediumInt,
    /// Decoded as a 16-bit integer.
    SmallInt,
    /// Decoded as a boolean.
    Boolean,
    /// Anything else is decoded as text.
    Text,
}

/// The fixed table from declared type name to decode family.
pub open spec fn spec_type_family(name: Seq<char>) -> ColumnFamily {
    if name == "REAL"@ || name == "FLOAT"@ || name == "NUMERIC"@ || name == "DECIMAL"@ || name
        == "FLOAT4"@ || name == "FLOAT8"@ || name == "DOUBLE"@ {
        ColumnFamily::Float
    } else if name == "INT8"@ || name == "BIGINT"@ || name == "INTEGER"@ {
        ColumnFamily::BigInt
    } else if name == "INT"@ || name == "INT4"@ {
        ColumnFamily::MediumInt
    } else if name == "INT2"@ || name == "SMALLINT"@ {
        ColumnFamily::SmallInt
    } else if name == "BOOL"@ || name == "BOOLEAN"@ {
        ColumnFamily::Boolean
    } else {
        ColumnFamily::Text
    }
}

/// The decode family for a declared column type name.
pub fn type_family(name: &str) -> (f: ColumnFamily)
    ensures
        f == spec_type_family(name@),
{
    if text_eq(name, "REAL") || text_eq(name, "FLOAT") || text_eq(name, "NUMERIC") || text_eq(
        name,
        "DECIMAL",
    ) || text_eq(name, "FLOAT4") || text_eq(name, "FLOAT8") || text_eq(name, "DOUBLE") {
        ColumnFamily::Float
    } else if text_eq(name, "INT8") || text_eq(name, "BIGINT") || text_eq(name, "INTEGER") {
        ColumnFamily::BigInt
    } else if text_eq(name, "INT") || text_eq(name, "INT4") {
        ColumnFamily::MediumInt
    } else if text_eq(name, "INT2") || text_eq(name, "SMALLINT") {
        ColumnFamily::SmallInt
    } else if text_eq(name, "BOOL") || text_eq(name, "BOOLEAN") {
        ColumnFamily::Boolean
    } else {
        ColumnFamily::Text
    }
}

/// One raw column value as the driver hands it over: null, or the decode
/// attempt for the family the column's type name selected (`None` when the
/// driver could not decode the value as that family).
#[derive(Debug, PartialEq)]
pub enum SqlValue {
    Null,
    /// A float family decode attempt, as IEEE double bits.
    Float(Option<u64>),
    /// A 64-bit integer family decode attempt.
    BigInt(Option<i64>),
    /// A 32-bit integer family decode attempt.
    MediumInt(Option<i32>),
    /// A 16-bit integer family decode attempt.
    SmallInt(Option<i16>),
    /// A boolean family decode attempt.
    Boolean(Option<bool>),
    /// A text family decode attempt.
    Text(Option<String>),
}

/// The JSON value a raw column value decodes to, defaults included.
pub open spec fn sql_value_view(v: SqlValue) -> JsonSpec {
    match v {
        SqlValue::Null => JsonSpec::Null,
        SqlValue::Float(ob) => match ob {
            Some(bits) => JsonSpec::Float(bits),
            None => JsonSpec::Float(NAN_BITS),
        },
        SqlValue::BigInt(oi) => match oi {
            Some(i) => JsonSpec::Int(i),
            None => JsonSpec::Int(0),
        },
        SqlValue::MediumInt(oi) => match oi {
            Some(i) => JsonSpec::Int(i as i64),
            None => JsonSpec::Int(0),
        },
        SqlValue::SmallInt(oi) => match oi {
            Some(i) => JsonSpec::Int(i as i64),
            None => JsonSpec::Int(0),
        },
        SqlValue::Boolean(ob) => match ob {
            Some(b) => JsonSpec::Bool(b),
            None => JsonSpec::Bool(false),
        },
        SqlValue::Text(os) => match os {
            Some(s) => JsonSpec::Text(s@),
            None => JsonSpec::Text(Seq::empty()),
        },
    }
}

/// Turn a non-null raw column value into JSON, falling back to the family
/// default when the driver's decode failed.
pub fn sql_nonnull_to_json(raw: &SqlValue) -> (r: Json)
    ensures
        r@ == sql_value_view(*raw),
{
    match raw {
        SqlValue::Null => Json::Null,
        SqlValue::Float(ob) => match ob {
            Some(bits) => Json::Float(*bits),
            None => Json::Float(NAN_BITS),
        },
        SqlValue::BigInt(oi) => match oi {
            Some(i) => Json::Int(*i),
            None => Json::Int(0),
        },
        SqlValue::MediumInt(oi) => match oi {
            Some(i) => Json::Int(*i as i64),
            None => Json::Int(0),
        },
        SqlValue::SmallInt(oi) => match oi {
            Some(i) => Json::Int(*i as i64),
            None => Json::Int(0),
        },
        SqlValue::Boolean(ob) => match ob {
            Some(b) => Json::Bool(*b),
            None => Json::Bool(false),
        },
        SqlValue::Text(os) => match os {
            Some(s) => Json::Text(s.clone()),
            None => Json::Text(String::new()),
        },
    }
}

/// Turn one raw column value into JSON: null stays null, anything else
/// decodes per its family.
pub fn sql_to_json(raw: &SqlValue) -> (r: Json)
    ensures
        r@ == sql_value_view(*raw),
{
    match raw {
        SqlValue::Null => Json::Null,
        other => sql_nonnull_to_json(other),
    }
}

/// The items an incoming value contributes to a fold: an array contributes
/// its elements, anything else contributes itself.
pub open spec fn spec_incoming_items(v: JsonSpec) -> Seq<JsonSpec> {
    match v {
        JsonSpec::Arr(items) => items,
        other => seq![other],
    }
}

/// The value stored under a repeated key after folding `incoming` into the
/// value already stored: always an array, extended in order of appearance.
pub open spec fn spec_folded_value(stored: JsonSpec, incoming: JsonSpec) -> JsonSpec {
    match stored {
        JsonSpec::Arr(old_items) => JsonSpec::Arr(old_items + spec_incoming_items(incoming)),
        old_scalar => JsonSpec::Arr(seq![old_scalar] + spec_incoming_items(incoming)),
    }
}

/// Adding one key/value pair to an object's entry list: a fresh key goes to
/// the end; a repeated key folds into the existing entry, in place.
pub open spec fn spec_add_to_obj(
    obj: Seq<(Seq<char>, JsonSpec)>,
    key: Seq<char>,
    value: JsonSpec,
) -> Seq<(Seq<char>, JsonSpec)>
    decreases obj.len(),
{
    if obj.len() == 0 {
        seq![(key, value)]
    } else if obj[0].0 == key {
        seq![(obj[0].0, spec_folded_value(obj[0].1, value))] + obj.drop_first()
    } else {
        seq![obj[0]] + spec_add_to_obj(obj.drop_first(), key, value)
    }
}

/// When the key is fresh, adding appends the entry at the end.
proof fn lemma_add_to_obj_absent(obj: Seq<(Seq<char>, JsonSpec)>, key: Seq<char>, value: JsonSpec)
    requires
        forall|j: int| 0 <= j < obj.len() ==> obj[j].0 != key,
    ensures
        spec_add_to_obj(obj, key, value) == obj.push((key, value)),
    decreases obj.len(),
{
    if obj.len() == 0 {
        assert(spec_add_to_obj(obj, key, value) =~= obj.push((key, value)));
    } else {
        assert(forall|j: int|
            0 <= j < obj.drop_first().len() ==> obj.drop_first()[j].0 != key);
        lemma_add_to_obj_absent(obj.drop_first(), key, value);
        assert(seq![obj[0]] + obj.drop_first().push((key, value)) =~= obj.push((key, value)));
    }
}

/// When the key is already there, adding folds into its first entry.
proof fn lemma_add_to_obj_found(
    obj: Seq<(Seq<char>, JsonSpec)>,
    key: Seq<char>,
    value: JsonSpec,
    i: int,
)
    requires
        0 <= i < obj.len(),
        obj[i].0 == key,
        forall|j: int| 0 <= j < i ==> obj[j].0 != key,
    ensures
        spec_add_to_obj(obj, key, value) == obj.update(
            i,
            (obj[i].0, spec_folded_value(obj[i].1, value)),
        ),
    decreases i,
{
    if i == 0 {
        assert(seq![(obj[0].0, spec_folded_value(obj[0].1, value))] + obj.drop_first()
            =~= obj.update(0, (obj[0].0, spec_folded_value(obj[0].1, value))));
    } else {
        lemma_add_to_obj_found(obj.drop_first(), key, value, i - 1);
        assert(seq![obj[0]] + obj.drop_first().update(
            i - 1,
            (obj[i].0, spec_folded_value(obj[i].1, value)),
        ) =~= obj.update(i, (obj[i].0, spec_folded_value(obj[i].1, value))));
    }
}

/// Fold an incoming value into the value already stored under its key.
fn fold_into_stored(stored: Json, incoming: Json) -> (r: Json)
    ensures
        r@ == spec_folded_value(stored@, incoming@),
{
    let ghost incoming_spec = incoming@;
    let mut new_items: Vec<Json> = match incoming {
        Json::Arr(v) => v,
        other => {
            let mut one: Vec<Json> = Vec::new();
            one.push(other);
            proof {
                lemma_items_view(one@);
                assert(items_view(one@) =~= spec_incoming_items(incoming_spec));
            }
            one
        },
    };
    proof {
        lemma_items_view(new_items@);
    }
    assert(items_view(new_items@) == spec_incoming_items(incoming_spec));
    match stored {
        Json::Arr(mut old_items) => {
            let ghost old_spec = items_view(old_items@);
            proof {
                lemma_items_view(old_items@);
            }
            old_items.append(&mut new_items);
            proof {
                lemma_items_view(old_items@);
                assert(items_view(old_items@) =~= old_spec + spec_incoming_items(incoming_spec));
            }
            Json::Arr(old_items)
        },
        old_scalar => {
            let ghost scalar_spec = old_scalar@;
            let mut merged: Vec<Json> = Vec::new();
            merged.push(old_scalar);
            merged.append(&mut new_items);
            proof {
                lemma_items_view(merged@);
                assert(items_view(merged@) =~= seq![scalar_spec] + spec_incoming_items(
                    incoming_spec,
                ));
            }
            Json::Arr(merged)
        },
    }
}

/// Add one decoded column to a row object under construction: a fresh
/// column name is appended; a repeated one folds its value into an array
/// under that name, in order of appearance.
#[verifier::loop_isolation(false)]
pub fn add_value_to_map(map: Vec<(String, Json)>, entry: (String, Json)) -> (r: Vec<
    (String, Json),
>)
    ensures
        entries_view(r@) == spec_add_to_obj(entries_view(map@), entry.0@, entry.1@),
{
    let (key, value) = entry;
    let ghost key_spec = key@;
    let ghost value_spec = value@;
    let ghost obj = entries_view(map@);
    proof {
        lemma_entries_view(map@);
    }
    let mut out = map;
    let mut k: usize = 0;
    while k < out.len()
        invariant
            0 <= k <= out@.len(),
            obj == entries_view(out@),
            obj.len() == out@.len(),
            forall|i: int|
                0 <= i < out@.len() ==> obj[i] == (out@[i].0@, json_view(out@[i].1)),
            forall|j: int| 0 <= j < k ==> obj[j].0 != key_spec,
            key_spec == key@,
            value_spec == value@,
            key_spec == entry.0@,
            value_spec == entry.1@,
        decreases out@.len() - k,
    {
        if out[k].0.eq(&key) {
            let ghost old_map = out@;
            let (stored_key, stored_value) = out.remove(k);
            let merged = fold_into_stored(stored_value, value);
            out.insert(k, (stored_key, merged));
            proof {
                let ki = k as int;
                lemma_add_to_obj_found(obj, key_spec, value_spec, ki);
                assert(stored_key == old_map[ki].0);
                assert(stored_value == old_map[ki].1);
                assert(obj[ki] == (old_map[ki].0@, json_view(old_map[ki].1)));
                assert(obj[ki].1 == stored_value@);
                assert(merged@ == spec_folded_value(obj[ki].1, value_spec));
                assert(out@ =~= old_map.update(ki, (old_map[ki].0, merged)));
                lemma_entries_view(out@);
                assert(entries_view(out@) =~= obj.update(
                    ki,
                    (obj[ki].0, spec_folded_value(obj[ki].1, value_spec)),
                ));
            }
            return out;
        }
        k += 1;
    }
    proof {
        lemma_add_to_obj_absent(obj, key_spec, value_spec);
    }
    out.push((key, value));
    proof {
        lemma_entries_view(out@);
        assert(entries_view(out@) =~= obj.push((entry.0@, entry.1@)));
    }
    out
}

/// One decoded column of one row: the column's name and its raw value.
#[derive(Debug, PartialEq)]
pub struct SqlCell {
    pub name: String,
    pub value: SqlValue,
}

/// One relational row, as the driver hands it over: its columns in order.
#[derive(Debug, PartialEq)]
pub struct SqlRow {
    pub cells: Vec<SqlCell>,
}

/// The entry list of the JSON object a row decodes to: each column folded
/// in from left to right.
pub open spec fn spec_row_obj(cells: Seq<SqlCell>) -> Seq<(Seq<char>, JsonSpec)>
    decreases cells.len(),
{
    if cells.len() == 0 {
        Seq::empty()
    } else {
        spec_add_to_obj(
            spec_row_obj(cells.drop_last()),
            cells.last().name@,
            sql_value_view(cells.last().value),
        )
    }
}

/// Decode one row into a JSON object keyed by column name, repeated names
/// folded into arrays.
#[verifier::loop_isolation(false)]
pub fn row_to_json(row: &SqlRow) -> (r: Json)
    ensures
        r@ == JsonSpec::Obj(spec_row_obj(row.cells@)),
{
    let mut map: Vec<(String, Json)> = Vec::new();
    proof {
        lemma_entries_view(map@);
        assert(entries_view(map@) =~= spec_row_obj(row.cells@.take(0)));
    }
    let mut k: usize = 0;
    while k < row.cells.len()
        invariant
            0 <= k <= row.cells@.len(),
            entries_view(map@) == spec_row_obj(row.cells@.take(k as int)),
        decreases row.cells@.len() - k,
    {
        let name = row.cells[k].name.clone();
        let value = sql_to_json(&row.cells[k].value);
        map = add_value_to_map(map, (name, value));
        proof {
            assert(row.cells@.take(k as int + 1).drop_last() =~= row.cells@.take(k as int));
            assert(row.cells@.take(k as int + 1).last() == row.cells@[k as int]);
        }
        k += 1;
    }
    proof {
        assert(row.cells@.take(row.cells@.len() as int) =~= row.cells@);
    }
    Json::Obj(map)
}

/// The decimal digit character for `d` (`d < 10`).
pub open spec fn spec_digit(d: nat) -> char {
    if d == 0 {
        '0'
    } else if d == 1 {
        '1'
    } else if d == 2 {
        '2'
    } else if d == 3 {
        '3'
    } else if d == 4 {
        '4'
    } else if d == 5 {
        '5'
    } else if d == 6 {
        '6'
    } else if d == 7 {
        '7'
    } else if d == 8 {
        '8'
    } else {
        '9'
    }
}

/// The decimal rendering of a natural number, no leading zeros.
pub open spec fn spec_udec(n: nat) -> Seq<char>
    decreases n,
{
    if n < 10 {
        seq![spec_digit(n)]
    } else {
        spec_udec(n / 10).push(spec_digit(n % 10))
    }
}

/// The decimal rendering of an integer, with a leading minus when negative.
pub open spec fn spec_int_text(i: int) -> Seq<char> {
    if i >= 0 {
        spec_udec(i as nat)
    } else {
        seq!['-'] + spec_udec((-i) as nat)
    }
}

/// The rendering of a boolean.
pub open spec fn spec_bool_text(b: bool) -> Seq<char> {
    if b {
        "true"@
    } else {
        "false"@
    }
}

/// The text of one decimal digit.
fn digit_text(d: u64) -> (s: &'static str)
    requires
        d < 10,
    ensures
        s@ == seq![spec_digit(d as nat)],
{
    proof {
        reveal_strlit("0");
        reveal_strlit("1");
        reveal_strlit("2");
        reveal_strlit("3");
        reveal_strlit("4");
        reveal_strlit("5");
        reveal_strlit("6");
        reveal_strlit("7");
        reveal_strlit("8");
        reveal_strlit("9");
    }
    let s = if d == 0 {
        "0"
    } else if d == 1 {
        "1"
    } else if d == 2 {
        "2"
    } else if d == 3 {
        "3"
    } else if d == 4 {
        "4"
    } else if d == 5 {
        "5"
    } else if d == 6 {
        "6"
    } else if d == 7 {
        "7"
    } else if d == 8 {
        "8"
    } else {
        "9"
    };
    proof {
        assert(s@ =~= seq![spec_digit(d as nat)]);
    }
    s
}

/// Append the decimal rendering of `n` to `s`.
fn push_udec(s: &mut String, n: u64)
    ensures
        final(s)@ == old(s)@ + spec_udec(n as nat),
    decreases n,
{
    if n < 10 {
        s.append(digit_text(n));
        proof {
            assert(final(s)@ =~= old(s)@ + spec_udec(n as nat));
        }
    } else {
        push_udec(s, n / 10);
        s.append(digit_text(n % 10));
        proof {
            assert(old(s)@ + spec_udec((n / 10) as nat) + seq![
                spec_digit((n % 10) as nat),
            ] =~= old(s)@ + spec_udec(n as nat));
        }
    }
}

/// The decimal text of a signed integer.
fn int_text(i: i64) -> (s: String)
    ensures
        s@ == spec_int_text(i as int),
{
    let mut s = String::new();
    if i < 0 {
        proof {
            reveal_strlit("-");
        }
        s.append("-");
        let mag: u64 = ((-(i + 1)) as u64) + 1;
        push_udec(&mut s, mag);
        proof {
            assert(s@ =~= spec_int_text(i as int));
        }
    } else {
        push_udec(&mut s, i as u64);
        proof {
            assert(s@ =~= spec_int_text(i as int));
        }
    }
    s
}

/// The text of a boolean.
fn bool_text(b: bool) -> (s: &'static str)
    ensures
        s@ == spec_bool_text(b),
{
    if b {
        "true"
    } else {
        "false"
    }
}

/// What the first column of a row converts to as text.
#[derive(Debug, PartialEq)]
pub enum RowText {
    /// No first column, or a null first column.
    Empty,
    /// The first column's text.
    Text(String),
    /// A float first column: the bits are handed out, since rendering a
    /// float is left to the caller.
    Float(u64),
}

/// Takes the first column of a row and converts it to a string.
pub fn row_to_string(row: &SqlRow) -> (r: RowText)
    ensures
        row.cells@.len() == 0 ==> r is Empty,
        row.cells@.len() > 0 ==> match sql_value_view(row.cells@[0].value) {
            JsonSpec::Null => r is Empty,
            JsonSpec::Text(t) => r matches RowText::Text(s) && s@ == t,
            JsonSpec::Int(i) => r matches RowText::Text(s) && s@ == spec_int_text(i as int),
            JsonSpec::Bool(b) => r matches RowText::Text(s) && s@ == spec_bool_text(b),
            JsonSpec::Float(bits) => r == RowText::Float(bits),
            _ => false,
        },
{
    if row.cells.len() == 0 {
        return RowText::Empty;
    }
    let first = sql_to_json(&row.cells[0].value);
    match first {
        Json::Null => RowText::Empty,
        Json::Text(s) => RowText::Text(s),
        Json::Int(i) => RowText::Text(int_text(i)),
        Json::Bool(b) => RowText::Text(bool_text(b).to_owned()),
        Json::Float(bits) => RowText::Float(bits),
        Json::Arr(_) => {
            proof {
                assert(false);
            }
            RowText::Empty
        },
        Json::Obj(_) => {
            proof {
                assert(false);
            }
            RowText::Empty
        },
    }
}

} // verus!
