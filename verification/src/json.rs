//! A JSON document as the parsers read it, with the lookups they make.
//!
//! Object members keep the order in which the document lists them; a lookup
//! by key finds the first member with that key.
use crate::text::{str_eq, owned};
use vstd::prelude::*;

verus! {

/// A JSON value. Numbers that fit an `i64` are `Int`; any other number keeps
/// its literal text in `Decimal`.
#[derive(Debug)]
pub enum Json {
    Null,
    Bool(bool),
    Int(i64),
    Decimal(String),
    Str(String),
    Array(Vec<Json>),
    Object(Vec<(String, Json)>),
}

/// The mathematical value of a JSON document.
pub enum JsonV {
    Null,
    Bool(bool),
    Int(i64),
    Decimal(Seq<char>),
    Str(Seq<char>),
    Array(Seq<JsonV>),
    Object(Seq<(Seq<char>, JsonV)>),
}

pub open spec fn json_view(j: Json) -> JsonV
    decreases j,
{
    match j {
        Json::Null => JsonV::Null,
        Json::Bool(b) => JsonV::Bool(b),
        Json::Int(i) => JsonV::Int(i),
        Json::Decimal(s) => JsonV::Decimal(s@),
        Json::Str(s) => JsonV::Str(s@),
        Json::Array(v) => JsonV::Array(items_view(v@)),
        Json::Object(v) => JsonV::Object(members_view(v@)),
    }
}

pub open spec fn items_view(s: Seq<Json>) -> Seq<JsonV>
    decreases s,
{
    if s.len() == 0 {
        Seq::empty()
    } else {
        seq![json_view(s[0])] + items_view(s.subrange(1, s.len() as int))
    }
}

pub open spec fn members_view(s: Seq<(String, Json)>) -> Seq<(Seq<char>, JsonV)>
    decreases s,
{
    if s.len() == 0 {
        Seq::empty()
    } else {
        seq![(s[0].0@, json_view(s[0].1))] + members_view(s.subrange(1, s.len() as int))
    }
}

impl View for Json {
    type V = JsonV;

    open spec fn view(&self) -> JsonV {
        json_view(*self)
    }
}

pub proof fn lemma_items_view(s: Seq<Json>)
    ensures
        items_view(s).len() == s.len(),
        forall|i: int| 0 <= i < s.len() ==> #[trigger] items_view(s)[i] == json_view(s[i]),
    decreases s.len(),
{
    if s.len() > 0 {
        lemma_items_view(s.subrange(1, s.len() as int));
        let rest = s.subrange(1, s.len() as int);
        assert forall|i: int| 0 <= i < s.len() implies #[trigger] items_view(s)[i] == json_view(
            s[i],
        ) by {
            if i > 0 {
                assert(rest[i - 1] == s[i]);
            }
        }
    }
}

pub proof fn lemma_members_view(s: Seq<(String, Json)>)
    ensures
        members_view(s).len() == s.len(),
        forall|i: int|
            0 <= i < s.len() ==> #[trigger] members_view(s)[i] == (s[i].0@, json_view(s[i].1)),
    decreases s.len(),
{
    if s.len() > 0 {
        lemma_members_view(s.subrange(1, s.len() as int));
        let rest = s.subrange(1, s.len() as int);
        assert forall|i: int| 0 <= i < s.len() implies #[trigger] members_view(s)[i] == (
            s[i].0@,
            json_view(s[i].1),
        ) by {
            if i > 0 {
                assert(rest[i - 1] == s[i]);
            }
        }
    }
}

/// The value of the first member named `key`.
pub open spec fn members_get(ms: Seq<(Seq<char>, JsonV)>, key: Seq<char>) -> Option<JsonV>
    decreases ms.len(),
{
    if ms.len() == 0 {
        None
    } else if ms[0].0 == key {
        Some(ms[0].1)
    } else {
        members_get(ms.subrange(1, ms.len() as int), key)
    }
}

impl JsonV {
    /// `Value::get` with a string key: the member of an object, if any.
    pub open spec fn get(self, key: Seq<char>) -> Option<JsonV> {
        match self {
            JsonV::Object(ms) => members_get(ms, key),
            _ => None,
        }
    }

    /// A member of an object, or `null` where there is none.
    pub open spec fn field(self, key: Seq<char>) -> JsonV {
        match self.get(key) {
            Some(v) => v,
            None => JsonV::Null,
        }
    }

    pub open spec fn as_str(self) -> Option<Seq<char>> {
        match self {
            JsonV::Str(s) => Some(s),
            _ => None,
        }
    }

    pub open spec fn as_i64(self) -> Option<i64> {
        match self {
            JsonV::Int(i) => Some(i),
            _ => None,
        }
    }

    pub open spec fn as_bool(self) -> Option<bool> {
        match self {
            JsonV::Bool(b) => Some(b),
            _ => None,
        }
    }

    pub open spec fn as_array(self) -> Option<Seq<JsonV>> {
        match self {
            JsonV::Array(a) => Some(a),
            _ => None,
        }
    }

    pub open spec fn as_object(self) -> Option<Seq<(Seq<char>, JsonV)>> {
        match self {
            JsonV::Object(ms) => Some(ms),
            _ => None,
        }
    }

    pub open spec fn is_number(self) -> bool {
        self is Int || self is Decimal
    }
}

/// The value that an optional reference stands for, `null` for none.
pub open spec fn or_null(o: Option<&Json>) -> JsonV {
    match o {
        Some(j) => j@,
        None => JsonV::Null,
    }
}

pub open spec fn opt_string_view(o: Option<String>) -> Option<Seq<char>> {
    match o {
        Some(s) => Some(s@),
        None => None,
    }
}

impl Json {
    /// `Value::get` with a string key.
    pub fn get<'a>(&'a self, key: &str) -> (r: Option<&'a Json>)
        ensures
            match r {
                Some(v) => self@.get(key@) == Some(v@),
                None => self@.get(key@) is None,
            },
    {
        match self {
            Json::Object(ms) => {
                proof {
                    lemma_members_view(ms@);
                }
                let ghost mv = members_view(ms@);
                assert(self@ == JsonV::Object(mv));
                assert(mv.subrange(0, mv.len() as int) =~= mv);
                let mut i: usize = 0;
                while i < ms.len()
                    invariant
                        i <= ms@.len(),
                        mv == members_view(ms@),
                        self@ == JsonV::Object(mv),
                        mv.len() == ms@.len(),
                        forall|k: int|
                            0 <= k < ms@.len() ==> #[trigger] mv[k] == (ms@[k].0@, json_view(
                                ms@[k].1,
                            )),
                        members_get(mv, key@) == members_get(
                            mv.subrange(i as int, mv.len() as int),
                            key@,
                        ),
                    decreases ms@.len() - i,
                {
                    let ghost rest = mv.subrange(i as int, mv.len() as int);
                    assert(rest[0] == mv[i as int]);
                    if str_eq(ms[i].0.as_str(), key) {
                        assert(rest.len() > 0 && rest[0].0 == key@);
                        assert(members_get(rest, key@) == Some(rest[0].1));
                        return Some(&ms[i].1);
                    }
                    assert(rest.subrange(1, rest.len() as int) =~= mv.subrange(
                        i + 1,
                        mv.len() as int,
                    ));
                    i = i + 1;
                }
                None
            },
            _ => None,
        }
    }

    /// `Value::as_str`, copied into a `String`.
    pub fn as_string(&self) -> (r: Option<String>)
        ensures
            opt_string_view(r) == self@.as_str(),
    {
        match self {
            Json::Str(s) => Some(s.clone()),
            _ => None,
        }
    }

    /// `Value::as_i64`.
    pub fn as_i64(&self) -> (r: Option<i64>)
        ensures
            r == self@.as_i64(),
    {
        match self {
            Json::Int(i) => Some(*i),
            _ => None,
        }
    }

    /// `Value::as_bool`.
    pub fn as_bool(&self) -> (r: Option<bool>)
        ensures
            r == self@.as_bool(),
    {
        match self {
            Json::Bool(b) => Some(*b),
            _ => None,
        }
    }

    /// `Value::as_array`.
    pub fn as_array(&self) -> (r: Option<&Vec<Json>>)
        ensures
            match r {
                Some(v) => self@.as_array() == Some(items_view(v@)),
                None => self@.as_array() is None,
            },
    {
        match self {
            Json::Array(v) => Some(v),
            _ => None,
        }
    }

    /// `Value::as_object`, as the list of members.
    pub fn as_object(&self) -> (r: Option<&Vec<(String, Json)>>)
        ensures
            match r {
                Some(v) => self@.as_object() == Some(members_view(v@)),
                None => self@.as_object() is None,
            },
    {
        match self {
            Json::Object(v) => Some(v),
            _ => None,
        }
    }

    pub fn is_null(&self) -> (r: bool)
        ensures
            r == (self@ is Null),
    {
        match self {
            Json::Null => true,
            _ => false,
        }
    }

    /// A copy of this value.
    pub fn copy(&self) -> (r: Json)
        ensures
            r@ == self@,
        decreases self,
    {
        match self {
            Json::Null => Json::Null,
            Json::Bool(b) => Json::Bool(*b),
            Json::Int(i) => Json::Int(*i),
            Json::Decimal(s) => Json::Decimal(s.clone()),
            Json::Str(s) => Json::Str(s.clone()),
            Json::Array(v) => {
                let mut out: Vec<Json> = Vec::new();
                let mut i: usize = 0;
                proof {
                    lemma_items_view(v@);
                }
                while i < v.len()
                    invariant
                        i <= v@.len(),
                        *self == Json::Array(*v),
                        out@.len() == i,
                        forall|k: int| 0 <= k < i ==> #[trigger] json_view(out@[k]) == json_view(
                            v@[k],
                        ),
                    decreases v@.len() - i,
                {
                    proof {
                        vstd::std_specs::vec::axiom_vec_index_decreases(*v, i as int);
                        assert(decreases_to!(*self => (*self)->Array_0));
                        assert(decreases_to!(*self => v[i as int]));
                    }
                    let c = v[i].copy();
                    out.push(c);
                    i = i + 1;
                }
                proof {
                    lemma_items_view(out@);
                    assert(items_view(out@) =~= items_view(v@));
                }
                Json::Array(out)
            },
            Json::Object(v) => {
                let mut out: Vec<(String, Json)> = Vec::new();
                let mut i: usize = 0;
                proof {
                    lemma_members_view(v@);
                }
                while i < v.len()
                    invariant
                        i <= v@.len(),
                        *self == Json::Object(*v),
                        out@.len() == i,
                        forall|k: int|
                            0 <= k < i ==> #[trigger] out@[k].0@ == v@[k].0@ && json_view(
                                out@[k].1,
                            ) == json_view(v@[k].1),
                    decreases v@.len() - i,
                {
                    proof {
                        vstd::std_specs::vec::axiom_vec_index_decreases(*v, i as int);
                        assert(decreases_to!(*self => (*self)->Object_0));
                        assert(decreases_to!(*self => v[i as int]));
                        assert(decreases_to!(*self => v[i as int].1));
                    }
                    let c = v[i].1.copy();
                    let k = v[i].0.clone();
                    out.push((k, c));
                    i = i + 1;
                }
                proof {
                    lemma_members_view(out@);
                    assert(members_view(out@) =~= members_view(v@));
                }
                Json::Object(out)
            },
        }
    }
}

/// `get_field_from_json(json, key)` where `json` itself may stand for `null`:
/// the member named `key`, or none (standing for `null`).
pub fn field<'a>(j: Option<&'a Json>, key: &str) -> (r: Option<&'a Json>)
    ensures
        or_null(r) == or_null(j).field(key@),
        match r {
            Some(v) => or_null(j).get(key@) == Some(v@),
            None => or_null(j).get(key@) is None,
        },
{
    match j {
        Some(v) => v.get(key),
        None => None,
    }
}

/// `.as_str()` of a value that may stand for `null`, copied.
pub fn str_of(j: Option<&Json>) -> (r: Option<String>)
    ensures
        opt_string_view(r) == or_null(j).as_str(),
{
    match j {
        Some(v) => v.as_string(),
        None => None,
    }
}

/// `.as_i64()` of a value that may stand for `null`.
pub fn i64_of(j: Option<&Json>) -> (r: Option<i64>)
    ensures
        r == or_null(j).as_i64(),
{
    match j {
        Some(v) => v.as_i64(),
        None => None,
    }
}

/// `.as_bool()` of a value that may stand for `null`.
pub fn bool_of(j: Option<&Json>) -> (r: Option<bool>)
    ensures
        r == or_null(j).as_bool(),
{
    match j {
        Some(v) => v.as_bool(),
        None => None,
    }
}

/// `.as_array()` of a value that may stand for `null`.
pub fn array_of<'a>(j: Option<&'a Json>) -> (r: Option<&'a Vec<Json>>)
    ensures
        match r {
            Some(v) => or_null(j).as_array() == Some(items_view(v@)),
            None => or_null(j).as_array() is None,
        },
{
    match j {
        Some(v) => v.as_array(),
        None => None,
    }
}

/// The strings among the elements of an array, in order.
pub open spec fn strings_of(items: Seq<JsonV>) -> Seq<Seq<char>>
    decreases items.len(),
{
    if items.len() == 0 {
        Seq::empty()
    } else {
        let rest = strings_of(items.drop_last());
        match items.last() {
            JsonV::Str(s) => rest.push(s),
            _ => rest,
        }
    }
}

pub open spec fn strings_view(v: Seq<String>) -> Seq<Seq<char>> {
    v.map_values(|s: String| s@)
}

/// `from_json_vec_of_str_to_vec_of_str`: the string elements of an array, in
/// order; other elements are passed over.
pub fn strings_in(items: &Vec<Json>) -> (r: Vec<String>)
    ensures
        strings_view(r@) == strings_of(items_view(items@)),
{
    proof {
        lemma_items_view(items@);
    }
    let ghost iv = items_view(items@);
    let mut r: Vec<String> = Vec::new();
    let mut i: usize = 0;
    while i < items.len()
        invariant
            i <= items@.len(),
            iv == items_view(items@),
            iv.len() == items@.len(),
            forall|k: int| 0 <= k < items@.len() ==> #[trigger] iv[k] == json_view(items@[k]),
            strings_view(r@) == strings_of(iv.subrange(0, i as int)),
        decreases items@.len() - i,
    {
        let ghost pre = iv.subrange(0, i as int);
        let ghost next = iv.subrange(0, i + 1);
        assert(next.drop_last() =~= pre);
        assert(next.last() == json_view(items@[i as int]));
        match items[i].as_string() {
            Some(s) => {
                r.push(s);
                assert(strings_view(r@) =~= strings_of(pre).push(s@));
            },
            None => {},
        }
        i = i + 1;
    }
    assert(iv.subrange(0, iv.len() as int) =~= iv);
    r
}

/// For an array field `key` of `j` whose elements are objects, the string
/// member `sub` of each element, in order (`extract_vec_of_str_from_json_with_vec_of_jsons`).
pub open spec fn sub_strings_of(items: Seq<JsonV>, sub: Seq<char>) -> Seq<Seq<char>>
    decreases items.len(),
{
    if items.len() == 0 {
        Seq::empty()
    } else {
        let rest = sub_strings_of(items.drop_last(), sub);
        match items.last().field(sub).as_str() {
            Some(s) => rest.push(s),
            None => rest,
        }
    }
}

pub open spec fn spec_sub_strings(j: JsonV, key: Seq<char>, sub: Seq<char>) -> Seq<Seq<char>> {
    match j.field(key).as_array() {
        Some(items) => sub_strings_of(items, sub),
        None => Seq::empty(),
    }
}

pub fn sub_strings(j: Option<&Json>, key: &str, sub: &str) -> (r: Vec<String>)
    ensures
        strings_view(r@) == spec_sub_strings(or_null(j), key@, sub@),
{
    let mut r: Vec<String> = Vec::new();
    match array_of(field(j, key)) {
        None => {
            assert(strings_view(r@) =~= Seq::<Seq<char>>::empty());
            r
        },
        Some(items) => {
            proof {
                lemma_items_view(items@);
            }
            let ghost iv = items_view(items@);
            let mut i: usize = 0;
            while i < items.len()
                invariant
                    i <= items@.len(),
                    iv == items_view(items@),
                    iv.len() == items@.len(),
                    forall|k: int|
                        0 <= k < items@.len() ==> #[trigger] iv[k] == json_view(items@[k]),
                    strings_view(r@) == sub_strings_of(iv.subrange(0, i as int), sub@),
                decreases items@.len() - i,
            {
                let ghost pre = iv.subrange(0, i as int);
                let ghost next = iv.subrange(0, i + 1);
                assert(next.drop_last() =~= pre);
                assert(next.last() == json_view(items@[i as int]));
                match str_of(field(Some(&items[i]), sub)) {
                    Some(s) => {
                        r.push(s);
                        assert(strings_view(r@) =~= sub_strings_of(pre, sub@).push(s@));
                    },
                    None => {},
                }
                i = i + 1;
            }
            assert(iv.subrange(0, iv.len() as int) =~= iv);
            r
        },
    }
}

/// A copy of a string slice.
pub fn text(s: &str) -> (r: String)
    ensures
        r@ == s@,
{
    owned(s)
}

} // verus!

verus! {

/// The elements of an array when all of them are strings; none when one is not.
pub open spec fn all_strings_of(items: Seq<JsonV>) -> Option<Seq<Seq<char>>>
    decreases items.len(),
{
    if items.len() == 0 {
        Some(Seq::empty())
    } else {
        match all_strings_of(items.drop_last()) {
            None => None,
            Some(rest) => match items.last() {
                JsonV::Str(s) => Some(rest.push(s)),
                _ => None,
            },
        }
    }
}

/// Copies the elements of an array, each of which must be a string; stops at
/// the first element that is not.
pub fn all_strings(items: &Vec<Json>) -> (r: Option<Vec<String>>)
    ensures
        match r {
            Some(v) => all_strings_of(items_view(items@)) == Some(strings_view(v@)),
            None => all_strings_of(items_view(items@)) is None,
        },
{
    proof {
        lemma_items_view(items@);
    }
    let ghost iv = items_view(items@);
    let mut r: Vec<String> = Vec::new();
    let mut i: usize = 0;
    while i < items.len()
        invariant
            i <= items@.len(),
            iv == items_view(items@),
            iv.len() == items@.len(),
            forall|k: int| 0 <= k < items@.len() ==> #[trigger] iv[k] == json_view(items@[k]),
            all_strings_of(iv.subrange(0, i as int)) == Some(strings_view(r@)),
        decreases items@.len() - i,
    {
        let ghost pre = iv.subrange(0, i as int);
        let ghost next = iv.subrange(0, i + 1);
        assert(next.drop_last() =~= pre);
        assert(next.last() == json_view(items@[i as int]));
        match items[i].as_string() {
            Some(s) => {
                r.push(s);
                assert(strings_view(r@) =~= strings_view(r@.drop_last()).push(s@));
            },
            None => {
                proof {
                    lemma_all_strings_prefix_none(iv, i as int + 1);
                }
                return None;
            },
        }
        i = i + 1;
    }
    assert(iv.subrange(0, iv.len() as int) =~= iv);
    Some(r)
}

/// Once a prefix holds a non-string, so does the whole array.
pub proof fn lemma_all_strings_prefix_none(items: Seq<JsonV>, k: int)
    requires
        0 <= k <= items.len(),
        all_strings_of(items.subrange(0, k)) is None,
    ensures
        all_strings_of(items) is None,
    decreases items.len() - k,
{
    if k < items.len() {
        let next = items.subrange(0, k + 1);
        assert(next.drop_last() =~= items.subrange(0, k));
        lemma_all_strings_prefix_none(items, k + 1);
    } else {
        assert(items.subrange(0, k) =~= items);
    }
}

/// The number of members of an object, 0 for any other value.
pub open spec fn member_count(j: JsonV) -> nat {
    match j {
        JsonV::Object(ms) => ms.len(),
        _ => 0,
    }
}

/// The members named `"i"`, `"i+1"`, ... of an object, up to the first number
/// that names none (an object of `n` members names at most `n` of them).
pub open spec fn numbered_from(j: JsonV, i: nat) -> Seq<JsonV>
    decreases member_count(j) - i,
{
    if i >= member_count(j) {
        Seq::empty()
    } else {
        match j.get(crate::text::nat_digits(i)) {
            None => Seq::empty(),
            Some(v) => seq![v] + numbered_from(j, i + 1),
        }
    }
}

/// The members named `"0"`, `"1"`, ... of an object, up to the first number
/// that names none.
pub open spec fn numbered(j: JsonV) -> Seq<JsonV> {
    numbered_from(j, 0)
}

/// Copies the members named `"0"`, `"1"`, ... of an object, up to the first
/// number that names none.
pub fn numbered_values(j: Option<&Json>) -> (r: Vec<Json>)
    ensures
        items_view(r@) == numbered(or_null(j)),
{
    let mut out: Vec<Json> = Vec::new();
    let n: usize = match j {
        Some(Json::Object(ms)) => ms.len(),
        _ => 0,
    };
    let ghost jv = or_null(j);
    assert(n == member_count(jv)) by {
        match j {
            Some(v) => {
                match v {
                    Json::Object(ms) => {
                        lemma_members_view(ms@);
                    },
                    _ => {},
                }
            },
            None => {},
        }
    }
    let mut i: usize = 0;
    proof {
        lemma_items_view(out@);
        assert(items_view(out@) =~= Seq::<JsonV>::empty());
    }
    while i < n
        invariant_except_break
            i <= n,
            n == member_count(jv),
            jv == or_null(j),
            items_view(out@) + numbered_from(jv, i as nat) == numbered(jv),
        ensures
            items_view(out@) == numbered(jv),
        decreases n - i,
    {
        let key = crate::text::u64_to_text(i as u64);
        match field(j, key.as_str()) {
            None => {
                assert(numbered_from(jv, i as nat) =~= Seq::<JsonV>::empty());
                assert(items_view(out@) =~= items_view(out@) + Seq::<JsonV>::empty());
                break;
            },
            Some(v) => {
                let ghost before = out@;
                let c = v.copy();
                out.push(c);
                proof {
                    lemma_items_view(before);
                    lemma_items_view(out@);
                    assert(items_view(out@) =~= items_view(before) + seq![v@]);
                    assert(numbered_from(jv, i as nat) == seq![v@] + numbered_from(jv, (i + 1) as nat));
                    assert(items_view(out@) + numbered_from(jv, (i + 1) as nat) =~= items_view(before)
                        + numbered_from(jv, i as nat));
                }
            },
        }
        i = i + 1;
    }
    proof {
        if i >= n {
            assert(numbered_from(jv, i as nat) =~= Seq::<JsonV>::empty());
            assert(items_view(out@) =~= items_view(out@) + Seq::<JsonV>::empty());
        }
    }
    out
}

} // verus!
