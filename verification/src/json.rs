//! The JSON value model shared by the cache, the SQL bridge and the workers.
//!
//! Handlers, the cache and decoded SQL rows all traffic in JSON values. The
//! engine's own value type cannot cross into verified code, so the library
//! carries JSON as a value type of its own; the shell converts at the
//! boundary. A floating-point number is carried as the bit pattern of an
//! IEEE double: the library never computes with it, it only moves it.
//!
//! An object is an ordered list of key/value entries, so that the order in
//! which columns or keys were first seen is preserved; lookup takes the
//! first entry with a matching key.

use vstd::prelude::*;

verus! {

/// A JSON value as specifications see it.
#[verifier::ext_equal]
pub enum JsonSpec {
    Null,
    Bool(bool),
    Int(i64),
    /// Bit pattern of an IEEE double.
    Float(u64),
    Text(Seq<char>),
    Arr(Seq<JsonSpec>),
    Obj(Seq<(Seq<char>, JsonSpec)>),
}

/// A JSON value.
#[derive(Debug, PartialEq)]
pub enum Json {
    Null,
    Bool(bool),
    Int(i64),
    /// Bit pattern of an IEEE double.
    Float(u64),
    Text(String),
    Arr(Vec<Json>),
    Obj(Vec<(String, Json)>),
}

/// The spec view of a JSON value.
pub open spec fn json_view(j: Json) -> JsonSpec
    decreases j, 1int, 0int,
    via json_view_dec
{
    match j {
        Json::Null => JsonSpec::Null,
        Json::Bool(b) => JsonSpec::Bool(b),
        Json::Int(i) => JsonSpec::Int(i),
        Json::Float(bits) => JsonSpec::Float(bits),
        Json::Text(s) => JsonSpec::Text(s@),
        Json::Arr(items) => JsonSpec::Arr(items_view_upto(items@, items@.len() as int)),
        Json::Obj(entries) => JsonSpec::Obj(entries_view_upto(entries@, entries@.len() as int)),
    }
}

/// The spec views of the first `n` elements of an array's item list.
pub open spec fn items_view_upto(items: Seq<Json>, n: int) -> Seq<JsonSpec>
    decreases items, 0int, n,
{
    if n <= 0 || n > items.len() {
        Seq::empty()
    } else {
        items_view_upto(items, n - 1).push(json_view(items[n - 1]))
    }
}

/// The spec views of the first `n` entries of an object's entry list.
pub open spec fn entries_view_upto(entries: Seq<(String, Json)>, n: int) -> Seq<
    (Seq<char>, JsonSpec),
>
    decreases entries, 0int, n,
    via entries_view_upto_dec
{
    if n <= 0 || n > entries.len() {
        Seq::empty()
    } else {
        entries_view_upto(entries, n - 1).push(
            (entries[n - 1].0@, json_view(entries[n - 1].1)),
        )
    }
}

#[via_fn]
proof fn json_view_dec(j: Json) {
    match j {
        Json::Arr(items) => {
            assert(decreases_to!(j => items));
            assert(decreases_to!(items => items@));
        },
        Json::Obj(entries) => {
            assert(decreases_to!(j => entries));
            assert(decreases_to!(entries => entries@));
        },
        _ => {},
    }
}

#[via_fn]
proof fn entries_view_upto_dec(entries: Seq<(String, Json)>, n: int) {
    if 0 < n <= entries.len() {
        assert(decreases_to!(entries => entries[n - 1]));
        assert(decreases_to!(entries[n - 1] => entries[n - 1].1));
    }
}

/// The spec view of a whole array item list.
pub open spec fn items_view(items: Seq<Json>) -> Seq<JsonSpec> {
    items_view_upto(items, items.len() as int)
}

/// The spec view of a whole object entry list.
pub open spec fn entries_view(entries: Seq<(String, Json)>) -> Seq<(Seq<char>, JsonSpec)> {
    entries_view_upto(entries, entries.len() as int)
}

/// Pointwise description of `items_view_upto`.
pub proof fn lemma_items_view_upto(items: Seq<Json>, n: int)
    requires
        0 <= n <= items.len(),
    ensures
        items_view_upto(items, n).len() == n,
        forall|i: int| 0 <= i < n ==> items_view_upto(items, n)[i] == json_view(items[i]),
    decreases n,
{
    if n > 0 {
        lemma_items_view_upto(items, n - 1);
    }
}

/// Pointwise description of `entries_view_upto`.
pub proof fn lemma_entries_view_upto(entries: Seq<(String, Json)>, n: int)
    requires
        0 <= n <= entries.len(),
    ensures
        entries_view_upto(entries, n).len() == n,
        forall|i: int|
            0 <= i < n ==> entries_view_upto(entries, n)[i] == (
                entries[i].0@,
                json_view(entries[i].1),
            ),
    decreases n,
{
    if n > 0 {
        lemma_entries_view_upto(entries, n - 1);
    }
}

/// Pointwise description of `items_view`.
pub proof fn lemma_items_view(items: Seq<Json>)
    ensures
        items_view(items).len() == items.len(),
        forall|i: int| 0 <= i < items.len() ==> items_view(items)[i] == json_view(items[i]),
{
    lemma_items_view_upto(items, items.len() as int);
}

/// Pointwise description of `entries_view`.
pub proof fn lemma_entries_view(entries: Seq<(String, Json)>)
    ensures
        entries_view(entries).len() == entries.len(),
        forall|i: int|
            0 <= i < entries.len() ==> entries_view(entries)[i] == (
                entries[i].0@,
                json_view(entries[i].1),
            ),
{
    lemma_entries_view_upto(entries, entries.len() as int);
}

impl View for Json {
    type V = JsonSpec;

    open spec fn view(&self) -> JsonSpec {
        json_view(*self)
    }
}

/// First entry of `entries` whose key is `key`, if any.
pub open spec fn spec_obj_get(entries: Seq<(Seq<char>, JsonSpec)>, key: Seq<char>) -> Option<
    JsonSpec,
>
    decreases entries.len(),
{
    if entries.len() == 0 {
        None
    } else if entries[0].0 == key {
        Some(entries[0].1)
    } else {
        spec_obj_get(entries.drop_first(), key)
    }
}

/// Whether `entries` holds an entry keyed `key`.
pub open spec fn spec_obj_has_key(entries: Seq<(Seq<char>, JsonSpec)>, key: Seq<char>) -> bool {
    spec_obj_get(entries, key) is Some
}

/// Look a key up in an object's entry list: the first entry with that key wins.
pub fn obj_get<'a>(entries: &'a Vec<(String, Json)>, key: &String) -> (r: Option<&'a Json>)
    ensures
        match r {
            Some(v) => spec_obj_get(entries_view(entries@), key@) == Some(v@),
            None => spec_obj_get(entries_view(entries@), key@) is None,
        },
{
    proof {
        lemma_entries_view_upto(entries@, entries@.len() as int);
    }
    let ghost full = entries_view(entries@);
    proof {
        assert(full.skip(0) =~= full);
    }
    let mut k: usize = 0;
    while k < entries.len()
        invariant
            0 <= k <= entries@.len(),
            full == entries_view(entries@),
            full.len() == entries@.len(),
            forall|i: int|
                0 <= i < entries@.len() ==> full[i] == (
                    entries@[i].0@,
                    json_view(entries@[i].1),
                ),
            spec_obj_get(full, key@) == spec_obj_get(full.skip(k as int), key@),
        decreases entries@.len() - k,
    {
        if entries[k].0.eq(key) {
            proof {
                assert(full.skip(k as int)[0] == full[k as int]);
            }
            return Some(&entries[k].1);
        }
        proof {
            assert(full.skip(k as int)[0] == full[k as int]);
            assert(full.skip(k as int).drop_first() =~= full.skip(k as int + 1));
        }
        k += 1;
    }
    proof {
        assert(full.skip(entries@.len() as int).len() == 0);
    }
    None
}

/// A structurally equal copy of an object's entry list.
pub fn clone_entries(entries: &Vec<(String, Json)>) -> (r: Vec<(String, Json)>)
    ensures
        entries_view(r@) == entries_view(entries@),
        r@.len() == entries@.len(),
{
    let mut out: Vec<(String, Json)> = Vec::new();
    let mut k: usize = 0;
    while k < entries.len()
        invariant
            0 <= k <= entries@.len(),
            out@.len() == k as int,
            forall|i: int|
                0 <= i < k ==> out@[i].0@ == entries@[i].0@ && out@[i].1@ == entries@[i].1@,
        decreases entries@.len() - k,
    {
        let key = entries[k].0.clone();
        let val = entries[k].1.deep_clone();
        out.push((key, val));
        k += 1;
    }
    proof {
        lemma_entries_view(entries@);
        lemma_entries_view(out@);
        assert(entries_view(out@) =~= entries_view(entries@));
    }
    out
}

/// Whether two pieces of text hold the same characters.
pub fn text_eq(a: &str, b: &str) -> (r: bool)
    ensures
        r == (a@ == b@),
{
    let sa: String = a.to_owned();
    let sb: String = b.to_owned();
    sa.eq(&sb)
}

impl Json {
    /// Whether this value is JSON null.
    pub fn is_null(&self) -> (r: bool)
        ensures
            r == (self@ is Null),
    {
        matches!(self, Json::Null)
    }

    /// A structurally equal copy of this value.
    pub fn deep_clone(&self) -> (r: Json)
        ensures
            r@ == self@,
        decreases *self,
    {
        match self {
            Json::Null => Json::Null,
            Json::Bool(b) => Json::Bool(*b),
            Json::Int(i) => Json::Int(*i),
            Json::Float(bits) => Json::Float(*bits),
            Json::Text(s) => Json::Text(s.clone()),
            Json::Arr(items) => {
                let mut out: Vec<Json> = Vec::new();
                let mut k: usize = 0;
                while k < items.len()
                    invariant
                        0 <= k <= items@.len(),
                        out@.len() == k as int,
                        forall|i: int| 0 <= i < k ==> out@[i]@ == items@[i]@,
                        *self == Json::Arr(*items),
                    decreases items@.len() - k,
                {
                    proof {
                        let jj: Json = *self;
                        match jj {
                            Json::Arr(its) => {
                                assert(decreases_to!(jj => its));
                                assert(its == *items);
                            },
                            _ => {},
                        }
                        assert(decreases_to!(*items => items@));
                        assert(decreases_to!(items@ => items@[k as int]));
                    }
                    let c = items[k].deep_clone();
                    out.push(c);
                    k += 1;
                }
                proof {
                    lemma_items_view_upto(items@, items@.len() as int);
                    lemma_items_view_upto(out@, out@.len() as int);
                    assert(items_view(out@) =~= items_view(items@));
                }
                Json::Arr(out)
            },
            Json::Obj(entries) => {
                let mut out: Vec<(String, Json)> = Vec::new();
                let mut k: usize = 0;
                while k < entries.len()
                    invariant
                        0 <= k <= entries@.len(),
                        out@.len() == k as int,
                        forall|i: int|
                            0 <= i < k ==> out@[i].0@ == entries@[i].0@ && out@[i].1@
                                == entries@[i].1@,
                        *self == Json::Obj(*entries),
                    decreases entries@.len() - k,
                {
                    proof {
                        let jj: Json = *self;
                        match jj {
                            Json::Obj(ents) => {
                                assert(decreases_to!(jj => ents));
                                assert(ents == *entries);
                            },
                            _ => {},
                        }
                        assert(decreases_to!(*entries => entries@));
                        assert(decreases_to!(entries@ => entries@[k as int]));
                        assert(decreases_to!(entries@[k as int] => entries@[k as int].1));
                    }
                    let key = entries[k].0.clone();
                    let val = entries[k].1.deep_clone();
                    out.push((key, val));
                    k += 1;
                }
                proof {
                    lemma_entries_view_upto(entries@, entries@.len() as int);
                    lemma_entries_view_upto(out@, out@.len() as int);
                    assert(entries_view(out@) =~= entries_view(entries@));
                }
                Json::Obj(out)
            },
        }
    }
}

} // verus!
