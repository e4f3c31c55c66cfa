//! A map from names to integers, kept as a list of entries with distinct names.
use crate::json::{field, array_of, str_of, i64_of, Json, JsonV, items_view, lemma_items_view, json_view};
use crate::text::str_eq;
use vstd::prelude::*;

verus! {

/// The map that a list of entries gives when each entry overrides the
/// earlier ones with its name.
pub open spec fn map_of<K, V>(es: Seq<(K, V)>) -> Map<K, V>
    decreases es.len(),
{
    if es.len() == 0 {
        Map::empty()
    } else {
        map_of(es.drop_last()).insert(es.last().0, es.last().1)
    }
}

/// The names of a list of entries are distinct.
pub open spec fn distinct_keys<K, V>(es: Seq<(K, V)>) -> bool {
    forall|i: int, j: int| 0 <= i < j < es.len() ==> es[i].0 != es[j].0
}

#[derive(Debug)]
pub struct StrIntMap {
    pub entries: Vec<(String, i64)>,
}

impl StrIntMap {
    pub open spec fn entries_view(&self) -> Seq<(Seq<char>, i64)> {
        self.entries@.map_values(|e: (String, i64)| (e.0@, e.1))
    }

    pub open spec fn wf(&self) -> bool {
        distinct_keys(self.entries_view())
    }
}

impl View for StrIntMap {
    type V = Map<Seq<char>, i64>;

    open spec fn view(&self) -> Map<Seq<char>, i64> {
        map_of(self.entries_view())
    }
}

pub proof fn lemma_map_of_dom<K, V>(es: Seq<(K, V)>, k: K)
    ensures
        map_of(es).contains_key(k) <==> exists|i: int| 0 <= i < es.len() && es[i].0 == k,
    decreases es.len(),
{
    if es.len() > 0 {
        lemma_map_of_dom(es.drop_last(), k);
        if map_of(es).contains_key(k) && es.last().0 != k {
            let i = choose|i: int| 0 <= i < es.drop_last().len() && es.drop_last()[i].0 == k;
            assert(es[i].0 == k);
        }
        if exists|i: int| 0 <= i < es.len() && es[i].0 == k {
            let i = choose|i: int| 0 <= i < es.len() && es[i].0 == k;
            if i < es.len() - 1 {
                assert(es.drop_last()[i].0 == k);
            }
        }
    }
}

/// With distinct names, the map gives each entry's value.
pub proof fn lemma_map_of_entry<K, V>(es: Seq<(K, V)>, i: int)
    requires
        distinct_keys(es),
        0 <= i < es.len(),
    ensures
        map_of(es).contains_key(es[i].0),
        map_of(es)[es[i].0] == es[i].1,
    decreases es.len(),
{
    if i < es.len() - 1 {
        assert(distinct_keys(es.drop_last()));
        assert(es.drop_last()[i] == es[i]);
        lemma_map_of_entry(es.drop_last(), i);
        assert(es.last().0 != es[i].0);
    }
}

pub proof fn lemma_map_of_update<K, V>(es: Seq<(K, V)>, i: int, v: V)
    requires
        distinct_keys(es),
        0 <= i < es.len(),
    ensures
        map_of(es.update(i, (es[i].0, v))) == map_of(es).insert(es[i].0, v),
    decreases es.len(),
{
    let k = es[i].0;
    let u = es.update(i, (k, v));
    if i == es.len() - 1 {
        assert(u.drop_last() =~= es.drop_last());
        assert(map_of(es.drop_last()).insert(k, es[i].1).insert(k, v) =~= map_of(es.drop_last()).insert(k, v));
    } else {
        assert(distinct_keys(es.drop_last()));
        lemma_map_of_update(es.drop_last(), i, v);
        assert(u.drop_last() =~= es.drop_last().update(i, (k, v)));
        assert(es.last().0 != k);
        assert(map_of(es.drop_last()).insert(k, v).insert(es.last().0, es.last().1) =~= map_of(
            es.drop_last(),
        ).insert(es.last().0, es.last().1).insert(k, v));
    }
}

impl StrIntMap {
    pub fn new() -> (r: StrIntMap)
        ensures
            r.wf(),
            r@ == Map::<Seq<char>, i64>::empty(),
    {
        let r = StrIntMap { entries: Vec::new() };
        assert(r.entries_view() =~= Seq::<(Seq<char>, i64)>::empty());
        r
    }

    /// Sets the value of a name, replacing the one it had.
    pub fn insert(&mut self, k: String, v: i64)
        requires
            old(self).wf(),
        ensures
            final(self).wf(),
            final(self)@ == old(self)@.insert(k@, v),
    {
        let ghost es = self.entries_view();
        let mut i: usize = 0;
        while i < self.entries.len()
            invariant
                i <= self.entries@.len(),
                es == self.entries_view(),
                es == old(self).entries_view(),
                distinct_keys(es),
                forall|j: int| 0 <= j < i ==> es[j].0 != k@,
            decreases self.entries@.len() - i,
        {
            if str_eq(self.entries[i].0.as_str(), k.as_str()) {
                let ghost kv = k@;
                assert(es[i as int].0 == kv);
                proof {
                    lemma_map_of_update(es, i as int, v);
                }
                self.entries.set(i, (k, v));
                assert(self.entries_view() =~= es.update(i as int, (es[i as int].0, v)));
                assert(self@ == map_of(es).insert(kv, v));
                return;
            }
            i = i + 1;
        }
        self.entries.push((k, v));
        assert(self.entries_view() =~= es.push((k@, v)));
        assert(self.entries_view().drop_last() =~= es);
    }

    /// The value of a name, if it has one.
    pub fn get(&self, k: &str) -> (r: Option<i64>)
        requires
            self.wf(),
        ensures
            match r {
                Some(v) => self@.contains_key(k@) && self@[k@] == v,
                None => !self@.contains_key(k@),
            },
    {
        let ghost es = self.entries_view();
        let mut i: usize = 0;
        while i < self.entries.len()
            invariant
                i <= self.entries@.len(),
                es == self.entries_view(),
                distinct_keys(es),
                forall|j: int| 0 <= j < i ==> es[j].0 != k@,
            decreases self.entries@.len() - i,
        {
            if str_eq(self.entries[i].0.as_str(), k) {
                proof {
                    lemma_map_of_entry(es, i as int);
                }
                return Some(self.entries[i].1);
            }
            i = i + 1;
        }
        proof {
            lemma_map_of_dom(es, k@);
        }
        None
    }

    pub fn copy(&self) -> (r: StrIntMap)
        ensures
            r.entries_view() == self.entries_view(),
            r@ == self@,
            self.wf() ==> r.wf(),
    {
        let mut es: Vec<(String, i64)> = Vec::new();
        let mut i: usize = 0;
        while i < self.entries.len()
            invariant
                i <= self.entries@.len(),
                es@.len() == i,
                forall|j: int| 0 <= j < i ==> #[trigger] es@[j].0@ == self.entries@[j].0@ && es@[j].1 == self.entries@[j].1,
            decreases self.entries@.len() - i,
        {
            es.push((self.entries[i].0.clone(), self.entries[i].1));
            i = i + 1;
        }
        let r = StrIntMap { entries: es };
        assert(r.entries_view() =~= self.entries_view());
        r
    }
}

/// The entries (`type`, `value`) of the objects in an array, skipping any
/// element without a string `type` and an integer `value`.
pub open spec fn typed_values(items: Seq<JsonV>) -> Seq<(Seq<char>, i64)>
    decreases items.len(),
{
    if items.len() == 0 {
        Seq::empty()
    } else {
        let rest = typed_values(items.drop_last());
        let e = items.last();
        match (e.field("type"@).as_str(), e.field("value"@).as_i64()) {
            (Some(t), Some(v)) => rest.push((t, v)),
            _ => rest,
        }
    }
}

/// `from_json_vec_of_maps_to_map`: the map of the array member `key`, or none
/// where the member is not an array.
pub open spec fn spec_map_of_array(j: JsonV, key: Seq<char>) -> Option<Map<Seq<char>, i64>> {
    match j.field(key).as_array() {
        Some(items) => Some(map_of(typed_values(items))),
        None => None,
    }
}

pub fn map_of_array(j: Option<&Json>, key: &str) -> (r: Option<StrIntMap>)
    ensures
        match r {
            Some(m) => m.wf() && spec_map_of_array(crate::json::or_null(j), key@) == Some(m@),
            None => spec_map_of_array(crate::json::or_null(j), key@) is None,
        },
{
    match array_of(field(j, key)) {
        None => None,
        Some(items) => {
            proof {
                lemma_items_view(items@);
            }
            let ghost iv = items_view(items@);
            let mut m = StrIntMap::new();
            let mut i: usize = 0;
            while i < items.len()
                invariant
                    i <= items@.len(),
                    iv == items_view(items@),
                    iv.len() == items@.len(),
                    forall|k: int| 0 <= k < items@.len() ==> #[trigger] iv[k] == json_view(items@[k]),
                    m.wf(),
                    m@ == map_of(typed_values(iv.subrange(0, i as int))),
                decreases items@.len() - i,
            {
                let ghost pre = iv.subrange(0, i as int);
                let ghost next = iv.subrange(0, i + 1);
                assert(next.drop_last() =~= pre);
                assert(next.last() == json_view(items@[i as int]));
                let t = str_of(items[i].get("type"));
                let v = i64_of(items[i].get("value"));
                match (t, v) {
                    (Some(t), Some(v)) => {
                        m.insert(t, v);
                        assert(typed_values(next).drop_last() =~= typed_values(pre));
                    },
                    _ => {},
                }
                i = i + 1;
            }
            assert(iv.subrange(0, iv.len() as int) =~= iv);
            Some(m)
        },
    }
}

} // verus!
