//! The library's own JSON document model.
//!
//! Documents run through the whole pipeline in this shape: the filter engine
//! reads extracted values, the source client reads timestamp fields, and the
//! aggregator reads the normalized response fields. Numbers are held as `i64`;
//! the pipeline never reads a fractional number (it matches on strings and
//! integer identifiers only).
use vstd::prelude::*;

verus! {

/// A JSON value: the unit of data fetched from a vendor and filtered.
///
/// An object is an ordered list of key/value pairs; when a key repeats, the
/// first pair wins on lookup.
pub enum Json {
    Null,
    Bool(bool),
    Num(i64),
    Text(String),
    Arr(Vec<Json>),
    Obj(Vec<(String, Json)>),
}

/// The mathematical shape of a [`Json`] document: every string a `Seq<char>`.
pub ghost enum JsonView {
    Null,
    Bool(bool),
    Num(i64),
    Text(Seq<char>),
    Arr(Seq<JsonView>),
    Obj(Seq<(Seq<char>, JsonView)>),
}

pub open spec fn jview(j: Json) -> JsonView
    decreases j,
{
    match j {
        Json::Null => JsonView::Null,
        Json::Bool(b) => JsonView::Bool(b),
        Json::Num(n) => JsonView::Num(n),
        Json::Text(s) => JsonView::Text(s@),
        Json::Arr(items) => JsonView::Arr(jviews(items@)),
        Json::Obj(pairs) => JsonView::Obj(pair_views(pairs@)),
    }
}

/// The views of the elements of an array, in order.
pub open spec fn jviews(items: Seq<Json>) -> Seq<JsonView>
    decreases items,
{
    if items.len() == 0 {
        Seq::empty()
    } else {
        seq![jview(items[0])] + jviews(items.drop_first())
    }
}

/// The views of the pairs of an object, in order.
pub open spec fn pair_views(pairs: Seq<(String, Json)>) -> Seq<(Seq<char>, JsonView)>
    decreases pairs,
{
    if pairs.len() == 0 {
        Seq::empty()
    } else {
        seq![(pairs[0].0@, jview(pairs[0].1))] + pair_views(pairs.drop_first())
    }
}

/// Element-by-element reading of [`jviews`].
pub proof fn lemma_jviews_index(items: Seq<Json>)
    ensures
        (#[trigger] jviews(items)).len() == items.len(),
        forall|i: int| 0 <= i < items.len() ==> #[trigger] jviews(items)[i] == jview(items[i]),
    decreases items,
{
    if items.len() > 0 {
        lemma_jviews_index(items.drop_first());
    }
}

/// Element-by-element reading of [`pair_views`].
pub proof fn lemma_pair_views_index(pairs: Seq<(String, Json)>)
    ensures
        (#[trigger] pair_views(pairs)).len() == pairs.len(),
        forall|i: int|
            0 <= i < pairs.len() ==> #[trigger] pair_views(pairs)[i] == (
            pairs[i].0@,
            jview(pairs[i].1),
            ),
    decreases pairs,
{
    if pairs.len() > 0 {
        lemma_pair_views_index(pairs.drop_first());
    }
}

impl View for Json {
    type V = JsonView;

    open spec fn view(&self) -> JsonView {
        jview(*self)
    }
}

impl DeepView for Json {
    type V = JsonView;

    open spec fn deep_view(&self) -> JsonView {
        jview(*self)
    }
}

/// The string form of an extracted value: the characters of a JSON string,
/// and empty for every other shape (the missing-field signal of the filter
/// engine, and the excluded case of the recency check).
pub open spec fn string_form(v: JsonView) -> Seq<char> {
    match v {
        JsonView::Text(s) => s,
        _ => Seq::empty(),
    }
}

/// Lookup among object pairs: the first pair whose key matches.
pub open spec fn pairs_get(pairs: Seq<(Seq<char>, JsonView)>, key: Seq<char>) -> Option<JsonView>
    decreases pairs.len(),
{
    if pairs.len() == 0 {
        None
    } else if pairs[0].0 == key {
        Some(pairs[0].1)
    } else {
        pairs_get(pairs.drop_first(), key)
    }
}

/// Field lookup: `Some` exactly when the value is an object with the key.
pub open spec fn obj_get(j: JsonView, key: Seq<char>) -> Option<JsonView> {
    match j {
        JsonView::Obj(pairs) => pairs_get(pairs, key),
        _ => None,
    }
}

/// Reads a field of a JSON object; `None` on any non-object and on a missing
/// key. When a key repeats, the first pair wins.
pub fn json_get<'a>(j: &'a Json, key: &str) -> (r: Option<&'a Json>)
    ensures
        match r {
            Some(v) => obj_get(j@, key@) == Some(v@),
            None => obj_get(j@, key@) is None,
        },
{
    match j {
        Json::Obj(pairs) => {
            let ghost viewed = pair_views(pairs@);
            proof {
                lemma_pair_views_index(pairs@);
                assert(viewed.skip(0) =~= viewed);
            }
            let owned = key.to_owned();
            let mut i: usize = 0;
            while i < pairs.len()
                invariant
                    i <= pairs@.len(),
                    viewed == pair_views(pairs@),
                    viewed.len() == pairs@.len(),
                    forall|k: int|
                        0 <= k < pairs@.len() ==> #[trigger] viewed[k] == (
                        pairs@[k].0@,
                        jview(pairs@[k].1),
                        ),
                    j@ == JsonView::Obj(viewed),
                    owned@ == key@,
                    pairs_get(viewed, key@) == pairs_get(viewed.skip(i as int), key@),
                decreases pairs@.len() - i,
            {
                let p = &pairs[i];
                if p.0 == owned {
                    assert(viewed.skip(i as int)[0] == viewed[i as int]);
                    return Some(&p.1);
                }
                proof {
                    assert(viewed.skip(i as int)[0] == viewed[i as int]);
                    assert(viewed.skip(i as int).drop_first() =~= viewed.skip(i as int + 1));
                }
                i = i + 1;
            }
            proof {
                assert(viewed.skip(i as int) =~= Seq::empty());
            }
            None
        },
        _ => None,
    }
}

/// A value and its view take the same variant, with matching contents.
pub proof fn lemma_jview_shape(v: Json)
    ensures
        (jview(v) is Null) <==> (v is Null),
        (jview(v) is Bool) <==> (v is Bool),
        (jview(v) is Num) <==> (v is Num),
        (jview(v) is Text) <==> (v is Text),
        (jview(v) is Arr) <==> (v is Arr),
        (jview(v) is Obj) <==> (v is Obj),
        v matches Json::Bool(b) ==> jview(v) == JsonView::Bool(b),
        v matches Json::Num(n) ==> jview(v) == JsonView::Num(n),
        v matches Json::Text(s) ==> jview(v) == JsonView::Text(s@),
        v matches Json::Arr(items) ==> jview(v) == JsonView::Arr(jviews(items@)),
        v matches Json::Obj(pairs) ==> jview(v) == JsonView::Obj(pair_views(pairs@)),
{
    match v {
        Json::Null => {},
        Json::Bool(_) => {},
        Json::Num(_) => {},
        Json::Text(_) => {},
        Json::Arr(_) => {},
        Json::Obj(_) => {},
    }
}

/// The string form of a value, as a borrowed `&str`: the characters of a JSON
/// string, and the empty string for every other shape.
pub fn prim_str<'a>(j: &'a Json) -> (s: &'a str)
    ensures
        s@ == string_form(j@),
{
    match j {
        Json::Text(t) => t.as_str(),
        _ => {
            proof {
                reveal_strlit("");
                assert(""@ =~= Seq::<char>::empty());
            }
            ""
        },
    }
}

} // verus!
