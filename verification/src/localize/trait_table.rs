//! The table of trait names and the paths of their texts in the language
//! files, read from the TypeScript source that lists them.
use crate::assoc::distinct_keys;
use crate::model::{first_index, lemma_first_index_bound, lemma_first_index_prefix};
use crate::text::{contains, str_contains, str_eq};
use vstd::prelude::*;

verus! {

/// The text without its `R.pick(...)` and `R.omit(...)` constants, as
/// `regex::Regex::replace_all` leaves it for the pattern
/// `const\s+\w+\s*=\s*R\.(pick|omit)\([^;]+;` and an empty replacement.
pub uninterp spec fn ts_without_picks(s: Seq<char>) -> Seq<char>;

/// The name and the body of each object constant, in order, as
/// `regex::Regex::captures_iter` gives them for the pattern
/// `const\s+(\w+)\s*(?::[^=]*)?\s*=\s*\{([^}]*)\}`.
pub uninterp spec fn ts_object_blocks(s: Seq<char>) -> Seq<(Seq<char>, Seq<char>)>;

/// The key and the string value of each `key: "value"` pair of a body, in
/// order, as `regex::Regex::captures_iter` gives them for the pattern
/// `"?([\w-]+)"?\s*:\s*"([^"]+)"`.
pub uninterp spec fn ts_string_pairs(s: Seq<char>) -> Seq<(Seq<char>, Seq<char>)>;

/// The name of each `...name` spread of a body, in order, as
/// `regex::Regex::captures_iter` gives them for the pattern `\.\.\.([\w]+)`.
pub uninterp spec fn ts_spreads(s: Seq<char>) -> Seq<Seq<char>>;

/// An association list with its keys and values taken by their views.
pub open spec fn entries_view<X: View>(es: Seq<(String, X)>) -> Seq<(Seq<char>, X::V)> {
    es.map_values(|e: (String, X)| (e.0@, e.1@))
}

/// Removes the `R.pick`/`R.omit` constants with `regex::Regex::replace_all`
/// (the pattern always compiles).
#[verifier::external_body]
fn strip_picks(s: &str) -> (r: String)
    ensures
        r@ == ts_without_picks(s@),
{
    let re = regex::Regex::new(r"const\s+\w+\s*=\s*R\.(pick|omit)\([^;]+;").unwrap();
    re.replace_all(s, "").into_owned()
}

/// Lists the object constants with `regex::Regex::captures_iter` (the pattern
/// always compiles and both groups take part in every match).
#[verifier::external_body]
fn object_blocks(s: &str) -> (r: Vec<(String, String)>)
    ensures
        entries_view(r@) == ts_object_blocks(s@),
{
    let re = regex::Regex::new(r"const\s+(\w+)\s*(?::[^=]*)?\s*=\s*\{([^}]*)\}").unwrap();
    let mut out = Vec::new();
    for c in re.captures_iter(s) {
        out.push((c[1].to_string(), c[2].to_string()));
    }
    out
}

/// Lists the string pairs of a body with `regex::Regex::captures_iter` (the
/// pattern always compiles and both groups take part in every match).
#[verifier::external_body]
fn string_pairs(s: &str) -> (r: Vec<(String, String)>)
    ensures
        entries_view(r@) == ts_string_pairs(s@),
{
    let re = regex::Regex::new(r#""?([\w-]+)"?\s*:\s*"([^"]+)""#).unwrap();
    let mut out = Vec::new();
    for c in re.captures_iter(s) {
        out.push((c[1].to_string(), c[2].to_string()));
    }
    out
}

/// Lists the spreads of a body with `regex::Regex::captures_iter` (the pattern
/// always compiles and its group takes part in every match).
#[verifier::external_body]
fn spreads_of(s: &str) -> (r: Vec<String>)
    ensures
        crate::json::strings_view(r@) == ts_spreads(s@),
{
    let re = regex::Regex::new(r"\.\.\.([\w]+)").unwrap();
    let mut out = Vec::new();
    for c in re.captures_iter(s) {
        out.push(c[1].to_string());
    }
    out
}

/// The keys of an association list.
pub open spec fn keys_of<V>(es: Seq<(Seq<char>, V)>) -> Seq<Seq<char>> {
    es.map_values(|e: (Seq<char>, V)| e.0)
}

pub open spec fn eq_to(k: Seq<char>) -> spec_fn(Seq<char>) -> bool {
    |x: Seq<char>| x == k
}

/// The position of the key `k` among the keys of an association list.
pub open spec fn key_index<V>(es: Seq<(Seq<char>, V)>, k: Seq<char>) -> Option<int> {
    first_index(keys_of(es), eq_to(k))
}

/// The value of a key in an association list.
pub open spec fn alist_get<V>(es: Seq<(Seq<char>, V)>, k: Seq<char>) -> Option<V> {
    match key_index(es, k) {
        Some(i) => Some(es[i].1),
        None => None,
    }
}

/// Sets the value of a key, in its place where it has one, else at the end.
pub open spec fn alist_insert<V>(es: Seq<(Seq<char>, V)>, k: Seq<char>, v: V) -> Seq<(Seq<char>, V)> {
    match key_index(es, k) {
        Some(i) => es.update(i, (k, v)),
        None => es.push((k, v)),
    }
}

/// Sets the entries of `add` in turn (`HashMap::extend`).
pub open spec fn alist_extend<V>(es: Seq<(Seq<char>, V)>, add: Seq<(Seq<char>, V)>) -> Seq<(Seq<char>, V)>
    decreases add.len(),
{
    if add.len() == 0 {
        es
    } else {
        let e = add.last();
        alist_insert(alist_extend(es, add.drop_last()), e.0, e.1)
    }
}

/// The position of a key among the keys of an association list.
fn index_of_key<X: View>(es: &Vec<(String, X)>, k: &str) -> (r: Option<usize>)
    ensures
        match key_index(entries_view(es@), k@) {
            Some(i) => r is Some && r.unwrap() as int == i && 0 <= i < es@.len(),
            None => r is None,
        },
{
    let ghost ks = keys_of(entries_view(es@));
    let ghost p = eq_to(k@);
    let mut i: usize = 0;
    assert(ks.subrange(0, 0) =~= Seq::<Seq<char>>::empty());
    while i < es.len()
        invariant
            i <= es@.len(),
            ks == keys_of(entries_view(es@)),
            ks.len() == es@.len(),
            p == eq_to(k@),
            first_index(ks.subrange(0, i as int), p) is None,
        decreases es@.len() - i,
    {
        let ghost next = ks.subrange(0, i + 1);
        assert(next.drop_last() =~= ks.subrange(0, i as int));
        assert(next.last() == es@[i as int].0@);
        if str_eq(es[i].0.as_str(), k) {
            assert(first_index(next, p) == Some(i as int));
            proof {
                lemma_first_index_prefix(ks, p, i as int + 1);
            }
            return Some(i);
        }
        i = i + 1;
    }
    assert(ks.subrange(0, ks.len() as int) =~= ks);
    None
}

/// The value of a key in an association list.
fn lookup<'a, X: View>(es: &'a Vec<(String, X)>, k: &str) -> (r: Option<&'a X>)
    ensures
        match alist_get(entries_view(es@), k@) {
            Some(v) => r is Some && r.unwrap()@ == v,
            None => r is None,
        },
{
    match index_of_key(es, k) {
        Some(i) => Some(&es[i].1),
        None => None,
    }
}

/// Sets the value of a key, in its place where it has one, else at the end.
fn set_entry<X: View>(es: &mut Vec<(String, X)>, k: String, v: X)
    ensures
        entries_view(final(es)@) == alist_insert(entries_view(old(es)@), k@, v@),
{
    let ghost ev = entries_view(es@);
    let ghost kv = k@;
    let ghost vv = v@;
    match index_of_key(es, k.as_str()) {
        Some(i) => {
            es.set(i, (k, v));
            assert(entries_view(es@) =~= ev.update(i as int, (kv, vv)));
        },
        None => {
            es.push((k, v));
            assert(entries_view(es@) =~= ev.push((kv, vv)));
        },
    }
}

/// A list of key-value pairs, each key at most once where it is built by
/// `set_entry`.
#[derive(Debug)]
pub struct PairList {
    pub entries: Vec<(String, String)>,
}

impl View for PairList {
    type V = Seq<(Seq<char>, Seq<char>)>;

    open spec fn view(&self) -> Seq<(Seq<char>, Seq<char>)> {
        entries_view(self.entries@)
    }
}

impl PairList {
    pub fn new() -> (r: PairList)
        ensures
            r@ == Seq::<(Seq<char>, Seq<char>)>::empty(),
    {
        let r = PairList { entries: Vec::new() };
        assert(r@ =~= Seq::<(Seq<char>, Seq<char>)>::empty());
        r
    }

    pub fn copy(&self) -> (r: PairList)
        ensures
            r@ == self@,
    {
        let mut out: Vec<(String, String)> = Vec::new();
        let mut i: usize = 0;
        while i < self.entries.len()
            invariant
                i <= self.entries@.len(),
                out@.len() == i,
                forall|k: int| 0 <= k < i ==> #[trigger] out@[k].0@ == self.entries@[k].0@ && out@[k].1@ == self.entries@[k].1@,
            decreases self.entries@.len() - i,
        {
            out.push((self.entries[i].0.clone(), self.entries[i].1.clone()));
            i = i + 1;
        }
        let r = PairList { entries: out };
        assert(r@ =~= self@);
        r
    }

    /// Sets the pairs of `add` in turn (`HashMap::extend`).
    pub fn extend(&mut self, add: &Vec<(String, String)>)
        ensures
            final(self)@ == alist_extend(old(self)@, entries_view(add@)),
    {
        let ghost av = entries_view(add@);
        let ghost start = self@;
        let mut i: usize = 0;
        assert(av.subrange(0, 0) =~= Seq::<(Seq<char>, Seq<char>)>::empty());
        while i < add.len()
            invariant
                i <= add@.len(),
                av == entries_view(add@),
                self@ == alist_extend(start, av.subrange(0, i as int)),
            decreases add@.len() - i,
        {
            let ghost next = av.subrange(0, i + 1);
            assert(next.drop_last() =~= av.subrange(0, i as int));
            assert(next.last() == (add@[i as int].0@, add@[i as int].1@));
            set_entry(&mut self.entries, add[i].0.clone(), add[i].1.clone());
            i = i + 1;
        }
        assert(av.subrange(0, av.len() as int) =~= av);
    }
}

/// An object constant of the source: its spreads and its own pairs.
#[derive(Debug)]
pub struct TsBlock {
    pub spreads: Vec<String>,
    pub pairs: PairList,
}

impl View for TsBlock {
    type V = (Seq<Seq<char>>, Seq<(Seq<char>, Seq<char>)>);

    open spec fn view(&self) -> (Seq<Seq<char>>, Seq<(Seq<char>, Seq<char>)>) {
        (crate::json::strings_view(self.spreads@), self.pairs@)
    }
}

/// The blocks by name; a later block replaces an earlier one of the same name.
pub open spec fn spec_raw_blocks(caps: Seq<(Seq<char>, Seq<char>)>) -> Seq<(Seq<char>, (Seq<Seq<char>>, Seq<(Seq<char>, Seq<char>)>))>
    decreases caps.len(),
{
    if caps.len() == 0 {
        Seq::empty()
    } else {
        let c = caps.last();
        alist_insert(spec_raw_blocks(caps.drop_last()), c.0, (ts_spreads(c.1), alist_extend(Seq::empty(), ts_string_pairs(c.1))))
    }
}

fn raw_blocks(caps: &Vec<(String, String)>) -> (r: Vec<(String, TsBlock)>)
    ensures
        entries_view(r@) == spec_raw_blocks(entries_view(caps@)),
{
    let ghost cv = entries_view(caps@);
    let mut out: Vec<(String, TsBlock)> = Vec::new();
    let mut i: usize = 0;
    assert(cv.subrange(0, 0) =~= Seq::<(Seq<char>, Seq<char>)>::empty());
    assert(entries_view(out@) =~= Seq::<(Seq<char>, (Seq<Seq<char>>, Seq<(Seq<char>, Seq<char>)>))>::empty());
    while i < caps.len()
        invariant
            i <= caps@.len(),
            cv == entries_view(caps@),
            entries_view(out@) == spec_raw_blocks(cv.subrange(0, i as int)),
        decreases caps@.len() - i,
    {
        let ghost next = cv.subrange(0, i + 1);
        assert(next.drop_last() =~= cv.subrange(0, i as int));
        assert(next.last() == (caps@[i as int].0@, caps@[i as int].1@));
        let body = caps[i].1.as_str();
        let spreads = spreads_of(body);
        let found = string_pairs(body);
        let mut pairs = PairList::new();
        pairs.extend(&found);
        set_entry(&mut out, caps[i].0.clone(), TsBlock { spreads, pairs });
        i = i + 1;
    }
    assert(cv.subrange(0, cv.len() as int) =~= cv);
    out
}

/// Every spread of the block names a resolved block or no block at all (the
/// constants that were dropped count as empty).
pub open spec fn ready(
    spreads: Seq<Seq<char>>,
    resolved: Seq<(Seq<char>, Seq<(Seq<char>, Seq<char>)>)>,
    blocks: Seq<(Seq<char>, (Seq<Seq<char>>, Seq<(Seq<char>, Seq<char>)>))>,
) -> bool {
    forall|i: int| 0 <= i < spreads.len() ==> key_index(resolved, #[trigger] spreads[i]) is Some || key_index(blocks, spreads[i]) is None
}

/// The pairs of the resolved spreads, in turn, later ones replacing earlier ones.
pub open spec fn spread_union(spreads: Seq<Seq<char>>, resolved: Seq<(Seq<char>, Seq<(Seq<char>, Seq<char>)>)>) -> Seq<(Seq<char>, Seq<char>)>
    decreases spreads.len(),
{
    if spreads.len() == 0 {
        Seq::empty()
    } else {
        let acc = spread_union(spreads.drop_last(), resolved);
        match alist_get(resolved, spreads.last()) {
            Some(m) => alist_extend(acc, m),
            None => acc,
        }
    }
}

/// A block's pairs once resolved: those of its spreads, then its own.
pub open spec fn merged(b: (Seq<Seq<char>>, Seq<(Seq<char>, Seq<char>)>), resolved: Seq<(Seq<char>, Seq<(Seq<char>, Seq<char>)>)>) -> Seq<(Seq<char>, Seq<char>)> {
    alist_extend(spread_union(b.0, resolved), b.1)
}

/// The blocks among `bs` that one more round resolves, in order, with their pairs.
pub open spec fn newly(
    bs: Seq<(Seq<char>, (Seq<Seq<char>>, Seq<(Seq<char>, Seq<char>)>))>,
    blocks: Seq<(Seq<char>, (Seq<Seq<char>>, Seq<(Seq<char>, Seq<char>)>))>,
    resolved: Seq<(Seq<char>, Seq<(Seq<char>, Seq<char>)>)>,
) -> Seq<(Seq<char>, Seq<(Seq<char>, Seq<char>)>)>
    decreases bs.len(),
{
    if bs.len() == 0 {
        Seq::empty()
    } else {
        let n = newly(bs.drop_last(), blocks, resolved);
        let e = bs.last();
        if key_index(resolved, e.0) is None && ready(e.1.0, resolved, blocks) {
            n.push((e.0, merged(e.1, resolved)))
        } else {
            n
        }
    }
}

/// Rounds of resolution until one resolves nothing (at most `fuel` rounds).
pub open spec fn resolve_from(
    blocks: Seq<(Seq<char>, (Seq<Seq<char>>, Seq<(Seq<char>, Seq<char>)>))>,
    resolved: Seq<(Seq<char>, Seq<(Seq<char>, Seq<char>)>)>,
    fuel: nat,
) -> Seq<(Seq<char>, Seq<(Seq<char>, Seq<char>)>)>
    decreases fuel,
{
    if fuel == 0 {
        resolved
    } else {
        let n = newly(blocks, blocks, resolved);
        if n.len() == 0 {
            resolved
        } else {
            resolve_from(blocks, resolved + n, (fuel - 1) as nat)
        }
    }
}

/// The resolved blocks in the order of resolution: a block comes after the
/// blocks it spreads; blocks in a cycle of spreads are never resolved.
pub open spec fn resolve_all(blocks: Seq<(Seq<char>, (Seq<Seq<char>>, Seq<(Seq<char>, Seq<char>)>))>) -> Seq<(Seq<char>, Seq<(Seq<char>, Seq<char>)>)> {
    resolve_from(blocks, Seq::empty(), blocks.len() + 1)
}

fn is_ready(spreads: &Vec<String>, resolved: &Vec<(String, PairList)>, blocks: &Vec<(String, TsBlock)>) -> (r: bool)
    ensures
        r == ready(crate::json::strings_view(spreads@), entries_view(resolved@), entries_view(blocks@)),
{
    let ghost sv = crate::json::strings_view(spreads@);
    let mut i: usize = 0;
    while i < spreads.len()
        invariant
            i <= spreads@.len(),
            sv == crate::json::strings_view(spreads@),
            forall|j: int| 0 <= j < i ==> key_index(entries_view(resolved@), #[trigger] sv[j]) is Some || key_index(entries_view(blocks@), sv[j]) is None,
        decreases spreads@.len() - i,
    {
        let s = spreads[i].as_str();
        if index_of_key(resolved, s).is_none() && index_of_key(blocks, s).is_some() {
            assert(sv[i as int] == s@);
            return false;
        }
        i = i + 1;
    }
    true
}

fn merge_block(b: &TsBlock, resolved: &Vec<(String, PairList)>) -> (r: PairList)
    ensures
        r@ == merged(b@, entries_view(resolved@)),
{
    let ghost sv = crate::json::strings_view(b.spreads@);
    let ghost rv = entries_view(resolved@);
    let mut acc = PairList::new();
    let mut i: usize = 0;
    assert(sv.subrange(0, 0) =~= Seq::<Seq<char>>::empty());
    while i < b.spreads.len()
        invariant
            i <= b.spreads@.len(),
            sv == crate::json::strings_view(b.spreads@),
            rv == entries_view(resolved@),
            acc@ == spread_union(sv.subrange(0, i as int), rv),
        decreases b.spreads@.len() - i,
    {
        let ghost next = sv.subrange(0, i + 1);
        assert(next.drop_last() =~= sv.subrange(0, i as int));
        assert(next.last() == b.spreads@[i as int]@);
        match lookup(resolved, b.spreads[i].as_str()) {
            Some(m) => {
                acc.extend(&m.entries);
            },
            None => {},
        }
        i = i + 1;
    }
    assert(sv.subrange(0, sv.len() as int) =~= sv);
    acc.extend(&b.pairs.entries);
    acc
}

fn newly_resolved(blocks: &Vec<(String, TsBlock)>, resolved: &Vec<(String, PairList)>) -> (r: Vec<(String, PairList)>)
    ensures
        entries_view(r@) == newly(entries_view(blocks@), entries_view(blocks@), entries_view(resolved@)),
{
    let ghost bv = entries_view(blocks@);
    let ghost rv = entries_view(resolved@);
    let mut out: Vec<(String, PairList)> = Vec::new();
    let mut i: usize = 0;
    assert(bv.subrange(0, 0) =~= Seq::<(Seq<char>, (Seq<Seq<char>>, Seq<(Seq<char>, Seq<char>)>))>::empty());
    assert(entries_view(out@) =~= Seq::<(Seq<char>, Seq<(Seq<char>, Seq<char>)>)>::empty());
    while i < blocks.len()
        invariant
            i <= blocks@.len(),
            bv == entries_view(blocks@),
            rv == entries_view(resolved@),
            entries_view(out@) == newly(bv.subrange(0, i as int), bv, rv),
        decreases blocks@.len() - i,
    {
        let ghost next = bv.subrange(0, i + 1);
        assert(next.drop_last() =~= bv.subrange(0, i as int));
        assert(next.last() == (blocks@[i as int].0@, blocks@[i as int].1@));
        let name = blocks[i].0.as_str();
        let b = &blocks[i].1;
        if index_of_key(resolved, name).is_none() && is_ready(&b.spreads, resolved, blocks) {
            let m = merge_block(b, resolved);
            let ghost before = entries_view(out@);
            let ghost mv = m@;
            out.push((blocks[i].0.clone(), m));
            assert(entries_view(out@) =~= before.push((name@, mv)));
        }
        i = i + 1;
    }
    assert(bv.subrange(0, bv.len() as int) =~= bv);
    out
}

/// Resolves the blocks, round after round.
fn resolve_blocks(blocks: &Vec<(String, TsBlock)>) -> (r: Vec<(String, PairList)>)
    ensures
        entries_view(r@) == resolve_all(entries_view(blocks@)),
{
    let ghost bv = entries_view(blocks@);
    let len = blocks.len();
    let mut resolved: Vec<(String, PairList)> = Vec::new();
    assert(entries_view(resolved@) =~= Seq::<(Seq<char>, Seq<(Seq<char>, Seq<char>)>)>::empty());
    let mut rounds: usize = 0;
    loop
        invariant
            rounds <= len,
            len == bv.len(),
            bv == entries_view(blocks@),
            resolve_from(bv, entries_view(resolved@), (len + 1 - rounds) as nat) == resolve_all(bv),
        decreases len - rounds,
    {
        let mut n = newly_resolved(blocks, &resolved);
        let ghost fuel: nat = (len + 1 - rounds) as nat;
        assert(fuel > 0);
        assert(resolve_from(bv, entries_view(resolved@), fuel) == {
            let nn = newly(bv, bv, entries_view(resolved@));
            if nn.len() == 0 {
                entries_view(resolved@)
            } else {
                resolve_from(bv, entries_view(resolved@) + nn, (fuel - 1) as nat)
            }
        });
        if n.len() == 0 {
            assert(entries_view(n@).len() == 0);
            return resolved;
        }
        let ghost before = entries_view(resolved@);
        let ghost nv = entries_view(n@);
        resolved.append(&mut n);
        assert(entries_view(resolved@) =~= before + nv);
        if rounds == len {
            return resolved;
        }
        rounds = rounds + 1;
    }
}

/// The paths of a trait's name and description texts.
#[derive(Debug)]
pub struct TraitPaths {
    pub trait_path: Option<String>,
    pub description_path: Option<String>,
}

impl View for TraitPaths {
    type V = (Option<Seq<char>>, Option<Seq<char>>);

    open spec fn view(&self) -> (Option<Seq<char>>, Option<Seq<char>>) {
        (crate::model::opt_view(self.trait_path), crate::model::opt_view(self.description_path))
    }
}

/// The paths of the texts of each trait, by trait name.
#[derive(Debug)]
pub struct TraitTable {
    pub entries: Vec<(String, TraitPaths)>,
}

impl View for TraitTable {
    type V = Seq<(Seq<char>, (Option<Seq<char>>, Option<Seq<char>>))>;

    open spec fn view(&self) -> Seq<(Seq<char>, (Option<Seq<char>>, Option<Seq<char>>))> {
        entries_view(self.entries@)
    }
}

/// Records a path for a key: a path whose text mentions `Description` is the
/// key's description, any other its name.
pub open spec fn set_path(
    t: Seq<(Seq<char>, (Option<Seq<char>>, Option<Seq<char>>))>,
    k: Seq<char>,
    v: Seq<char>,
) -> Seq<(Seq<char>, (Option<Seq<char>>, Option<Seq<char>>))> {
    let old = match alist_get(t, k) {
        Some(e) => e,
        None => (None, None),
    };
    alist_insert(t, k, if contains(v, "Description"@) {
        (old.0, Some(v))
    } else {
        (Some(v), old.1)
    })
}

pub open spec fn apply_pairs(
    t: Seq<(Seq<char>, (Option<Seq<char>>, Option<Seq<char>>))>,
    ps: Seq<(Seq<char>, Seq<char>)>,
) -> Seq<(Seq<char>, (Option<Seq<char>>, Option<Seq<char>>))>
    decreases ps.len(),
{
    if ps.len() == 0 {
        t
    } else {
        set_path(apply_pairs(t, ps.drop_last()), ps.last().0, ps.last().1)
    }
}

pub open spec fn apply_resolved(
    t: Seq<(Seq<char>, (Option<Seq<char>>, Option<Seq<char>>))>,
    rs: Seq<(Seq<char>, Seq<(Seq<char>, Seq<char>)>)>,
) -> Seq<(Seq<char>, (Option<Seq<char>>, Option<Seq<char>>))>
    decreases rs.len(),
{
    if rs.len() == 0 {
        t
    } else {
        apply_pairs(apply_resolved(t, rs.drop_last()), rs.last().1)
    }
}

/// The table that the TypeScript source gives: its object constants (but
/// the `R.pick`/`R.omit` ones) resolved through their spreads, then each
/// resolved constant's pairs recorded in the order of resolution, a later
/// one replacing an earlier one.
pub open spec fn spec_parse_ts_traits(text: Seq<char>) -> Seq<(Seq<char>, (Option<Seq<char>>, Option<Seq<char>>))> {
    apply_resolved(Seq::empty(), resolve_all(spec_raw_blocks(ts_object_blocks(ts_without_picks(text)))))
}

fn record_pairs(table: &mut Vec<(String, TraitPaths)>, ps: &Vec<(String, String)>)
    ensures
        entries_view(final(table)@) == apply_pairs(entries_view(old(table)@), entries_view(ps@)),
{
    let ghost pv = entries_view(ps@);
    let ghost start = entries_view(table@);
    let mut i: usize = 0;
    assert(pv.subrange(0, 0) =~= Seq::<(Seq<char>, Seq<char>)>::empty());
    while i < ps.len()
        invariant
            i <= ps@.len(),
            pv == entries_view(ps@),
            entries_view(table@) == apply_pairs(start, pv.subrange(0, i as int)),
        decreases ps@.len() - i,
    {
        let ghost next = pv.subrange(0, i + 1);
        assert(next.drop_last() =~= pv.subrange(0, i as int));
        assert(next.last() == (ps@[i as int].0@, ps@[i as int].1@));
        let k = ps[i].0.as_str();
        let v = ps[i].1.as_str();
        let (tr, de) = match lookup(table, k) {
            Some(e) => (crate::model::copy_opt_string(&e.trait_path), crate::model::copy_opt_string(&e.description_path)),
            None => (None, None),
        };
        let entry = if str_contains(v, "Description") {
            TraitPaths { trait_path: tr, description_path: Some(ps[i].1.clone()) }
        } else {
            TraitPaths { trait_path: Some(ps[i].1.clone()), description_path: de }
        };
        set_entry(table, ps[i].0.clone(), entry);
        i = i + 1;
    }
    assert(pv.subrange(0, pv.len() as int) =~= pv);
}

/// Reads the table of trait texts from the TypeScript source that lists them.
pub fn parse_ts_traits(ts_content: &str) -> (r: TraitTable)
    ensures
        r@ == spec_parse_ts_traits(ts_content@),
{
    let cleaned = strip_picks(ts_content);
    let caps = object_blocks(cleaned.as_str());
    let blocks = raw_blocks(&caps);
    let resolved = resolve_blocks(&blocks);
    let ghost rv = entries_view(resolved@);
    let mut table: Vec<(String, TraitPaths)> = Vec::new();
    assert(entries_view(table@) =~= Seq::<(Seq<char>, (Option<Seq<char>>, Option<Seq<char>>))>::empty());
    let mut i: usize = 0;
    assert(rv.subrange(0, 0) =~= Seq::<(Seq<char>, Seq<(Seq<char>, Seq<char>)>)>::empty());
    while i < resolved.len()
        invariant
            i <= resolved@.len(),
            rv == entries_view(resolved@),
            entries_view(table@) == apply_resolved(Seq::empty(), rv.subrange(0, i as int)),
        decreases resolved@.len() - i,
    {
        let ghost next = rv.subrange(0, i + 1);
        assert(next.drop_last() =~= rv.subrange(0, i as int));
        assert(next.last() == (resolved@[i as int].0@, resolved@[i as int].1@));
        record_pairs(&mut table, &resolved[i].1.entries);
        i = i + 1;
    }
    assert(rv.subrange(0, rv.len() as int) =~= rv);
    TraitTable { entries: table }
}

/// The table of trait texts, read from the TypeScript source that lists them.
pub fn parsed_traits(ts_content: &str) -> (r: TraitTable)
    ensures
        r@ == spec_parse_ts_traits(ts_content@),
{
    parse_ts_traits(ts_content)
}

/// The path of a trait's text of the given kind (`trait` or `description`).
pub open spec fn spec_trait_path(
    t: Seq<(Seq<char>, (Option<Seq<char>>, Option<Seq<char>>))>,
    name: Seq<char>,
    kind: Seq<char>,
) -> Option<Seq<char>> {
    match alist_get(t, name) {
        Some(e) => if kind == "trait"@ {
            e.0
        } else if kind == "description"@ {
            e.1
        } else {
            None
        },
        None => None,
    }
}

impl TraitTable {
    /// The path of a trait's text of the given kind, if the table has one.
    pub fn get(&self, name: &str, kind: &str) -> (r: Option<String>)
        ensures
            crate::model::opt_view(r) == spec_trait_path(self@, name@, kind@),
    {
        match lookup(&self.entries, name) {
            Some(e) => if str_eq(kind, "trait") {
                crate::model::copy_opt_string(&e.trait_path)
            } else if str_eq(kind, "description") {
                crate::model::copy_opt_string(&e.description_path)
            } else {
                None
            },
            None => None,
        }
    }
}

/// The value of the last entry of `es` with key `k`.
pub open spec fn last_value<V>(es: Seq<(Seq<char>, V)>, k: Seq<char>) -> Option<V>
    decreases es.len(),
{
    if es.len() == 0 {
        None
    } else if es.last().0 == k {
        Some(es.last().1)
    } else {
        last_value(es.drop_last(), k)
    }
}

proof fn lemma_keys_first_index<V>(es: Seq<(Seq<char>, V)>, k: Seq<char>)
    ensures
        key_index(es, k) matches Some(i) ==> 0 <= i < es.len() && es[i].0 == k && forall|j: int| 0 <= j < i ==> es[j].0 != k,
        key_index(es, k) is None ==> forall|j: int| 0 <= j < es.len() ==> es[j].0 != k,
    decreases es.len(),
{
    let ks = keys_of(es);
    if es.len() > 0 {
        let d = es.drop_last();
        lemma_keys_first_index(d, k);
        assert(keys_of(d) =~= ks.drop_last());
        assert(ks.last() == es.last().0);
        match key_index(d, k) {
            Some(i) => {
                assert(key_index(es, k) == Some(i));
                assert forall|j: int| 0 <= j < i implies es[j].0 != k by {
                    assert(d[j] == es[j]);
                }
                assert(d[i] == es[i]);
            },
            None => {
                assert forall|j: int| 0 <= j < es.len() - 1 implies es[j].0 != k by {
                    assert(d[j] == es[j]);
                }
                if es.last().0 == k {
                    assert(key_index(es, k) == Some(es.len() - 1));
                } else {
                    assert(key_index(es, k) is None);
                }
            },
        }
    }
}

/// After setting a key, the key has the new value and every other key keeps its own.
pub proof fn lemma_alist_insert_get<V>(es: Seq<(Seq<char>, V)>, k: Seq<char>, v: V, k2: Seq<char>)
    ensures
        alist_get(alist_insert(es, k, v), k2) == (if k2 == k {
            Some(v)
        } else {
            alist_get(es, k2)
        }),
{
    let r = alist_insert(es, k, v);
    lemma_keys_first_index(es, k);
    lemma_keys_first_index(es, k2);
    lemma_keys_first_index(r, k2);
    match key_index(es, k) {
        Some(i) => {
            assert(r.len() == es.len());
            assert forall|j: int| 0 <= j < r.len() implies r[j].0 == es[j].0 by {}
            match key_index(r, k2) {
                Some(j) => {
                    match key_index(es, k2) {
                        Some(j2) => {
                            assert(j == j2) by {
                                if j < j2 {
                                    assert(es[j].0 == k2);
                                }
                                if j2 < j {
                                    assert(r[j2].0 == k2);
                                }
                            }
                        },
                        None => {
                            assert(es[j].0 == k2);
                        },
                    }
                },
                None => {
                    match key_index(es, k2) {
                        Some(j2) => {
                            assert(r[j2].0 == k2);
                        },
                        None => {},
                    }
                },
            }
        },
        None => {
            assert forall|j: int| 0 <= j < es.len() implies r[j] == es[j] by {}
            match key_index(r, k2) {
                Some(j) => {
                    match key_index(es, k2) {
                        Some(j2) => {
                            assert(j == j2) by {
                                if j < j2 {
                                    assert(es[j].0 == k2);
                                }
                                if j2 < j {
                                    assert(r[j2].0 == k2);
                                }
                            }
                        },
                        None => {
                            if j < es.len() {
                                assert(es[j].0 == k2);
                            }
                        },
                    }
                },
                None => {
                    match key_index(es, k2) {
                        Some(j2) => {
                            assert(r[j2].0 == k2);
                        },
                        None => {
                            assert(r[es.len() as int].0 == k);
                        },
                    }
                },
            }
        },
    }
}

/// After extending with `add`, a key has its last value in `add`, or keeps
/// the value it had.
pub proof fn lemma_alist_extend_get<V>(es: Seq<(Seq<char>, V)>, add: Seq<(Seq<char>, V)>, k: Seq<char>)
    ensures
        alist_get(alist_extend(es, add), k) == match last_value(add, k) {
            Some(v) => Some(v),
            None => alist_get(es, k),
        },
    decreases add.len(),
{
    if add.len() > 0 {
        lemma_alist_extend_get(es, add.drop_last(), k);
        lemma_alist_insert_get(alist_extend(es, add.drop_last()), add.last().0, add.last().1, k);
    }
}

/// Law: a resolved constant's own pair for a key wins over its spreads; a key
/// that it does not set itself comes from its spreads, the last spread that
/// sets it winning.
pub proof fn law_own_pairs_win(
    b: (Seq<Seq<char>>, Seq<(Seq<char>, Seq<char>)>),
    resolved: Seq<(Seq<char>, Seq<(Seq<char>, Seq<char>)>)>,
    k: Seq<char>,
)
    ensures
        alist_get(merged(b, resolved), k) == match last_value(b.1, k) {
            Some(v) => Some(v),
            None => alist_get(spread_union(b.0, resolved), k),
        },
        b.0.len() > 0 ==> alist_get(spread_union(b.0, resolved), k) == match alist_get(resolved, b.0.last()) {
            Some(m) => match last_value(m, k) {
                Some(v) => Some(v),
                None => alist_get(spread_union(b.0.drop_last(), resolved), k),
            },
            None => alist_get(spread_union(b.0.drop_last(), resolved), k),
        },
{
    lemma_alist_extend_get(spread_union(b.0, resolved), b.1, k);
    if b.0.len() > 0 {
        match alist_get(resolved, b.0.last()) {
            Some(m) => {
                lemma_alist_extend_get(spread_union(b.0.drop_last(), resolved), m, k);
            },
            None => {},
        }
    }
}

/// Every spread in `sp` that names a block stands in `order` before position `j`.
pub open spec fn spreads_before(
    sp: Seq<Seq<char>>,
    blocks: Seq<(Seq<char>, (Seq<Seq<char>>, Seq<(Seq<char>, Seq<char>)>))>,
    order: Seq<(Seq<char>, Seq<(Seq<char>, Seq<char>)>)>,
    j: int,
) -> bool {
    forall|t: int|
        0 <= t < sp.len() && #[trigger] key_index(blocks, sp[t]) is Some ==> key_index(order, sp[t]) is Some
            && key_index(order, sp[t]).unwrap() < j
}

/// Position `j` of `order` holds block `k`, whose spreads that name blocks
/// all stand before it.
pub open spec fn flattened_at(
    blocks: Seq<(Seq<char>, (Seq<Seq<char>>, Seq<(Seq<char>, Seq<char>)>))>,
    order: Seq<(Seq<char>, Seq<(Seq<char>, Seq<char>)>)>,
    j: int,
    k: int,
) -> bool {
    &&& 0 <= k < blocks.len()
    &&& blocks[k].0 == order[j].0
    &&& spreads_before(blocks[k].1.0, blocks, order, j)
}

/// Position `j` of `order` holds a block whose spreads all stand before it.
pub open spec fn placed_after_spreads(
    blocks: Seq<(Seq<char>, (Seq<Seq<char>>, Seq<(Seq<char>, Seq<char>)>))>,
    order: Seq<(Seq<char>, Seq<(Seq<char>, Seq<char>)>)>,
    j: int,
) -> bool {
    exists|k: int| #[trigger] flattened_at(blocks, order, j, k)
}

/// Every block in `order` comes after every block it spreads.
pub open spec fn flattened_after_spreads(
    blocks: Seq<(Seq<char>, (Seq<Seq<char>>, Seq<(Seq<char>, Seq<char>)>))>,
    order: Seq<(Seq<char>, Seq<(Seq<char>, Seq<char>)>)>,
) -> bool {
    forall|j: int| 0 <= j < order.len() ==> #[trigger] placed_after_spreads(blocks, order, j)
}

/// A key found in an association list keeps its position when more entries follow.
proof fn lemma_key_index_append<V>(es: Seq<(Seq<char>, V)>, more: Seq<(Seq<char>, V)>, k: Seq<char>)
    ensures
        key_index(es, k) matches Some(i) ==> 0 <= i < es.len() && key_index(es + more, k) == Some(i),
{
    let all = keys_of(es + more);
    lemma_first_index_bound(keys_of(es), eq_to(k));
    if key_index(es, k) is Some {
        assert(all.subrange(0, es.len() as int) =~= keys_of(es));
        lemma_first_index_prefix(all, eq_to(k), es.len() as int);
    }
}

/// Each block that a round resolves is a block of `bs` that was ready.
proof fn lemma_newly_ready(
    bs: Seq<(Seq<char>, (Seq<Seq<char>>, Seq<(Seq<char>, Seq<char>)>))>,
    blocks: Seq<(Seq<char>, (Seq<Seq<char>>, Seq<(Seq<char>, Seq<char>)>))>,
    resolved: Seq<(Seq<char>, Seq<(Seq<char>, Seq<char>)>)>,
    m: int,
)
    requires
        0 <= m < newly(bs, blocks, resolved).len(),
    ensures
        exists|k: int|
            0 <= k < bs.len() && #[trigger] bs[k].0 == newly(bs, blocks, resolved)[m].0 && ready(
                bs[k].1.0,
                resolved,
                blocks,
            ),
    decreases bs.len(),
{
    let prev = newly(bs.drop_last(), blocks, resolved);
    if m < prev.len() {
        lemma_newly_ready(bs.drop_last(), blocks, resolved, m);
        let k = choose|k: int|
            0 <= k < bs.drop_last().len() && #[trigger] bs.drop_last()[k].0 == prev[m].0 && ready(
                bs.drop_last()[k].1.0,
                resolved,
                blocks,
            );
        assert(bs[k] == bs.drop_last()[k]);
    } else {
        let k = bs.len() - 1;
        assert(bs[k].0 == newly(bs, blocks, resolved)[m].0);
    }
}

/// A round of resolution keeps every block after the blocks it spreads.
proof fn lemma_round_keeps_order(
    blocks: Seq<(Seq<char>, (Seq<Seq<char>>, Seq<(Seq<char>, Seq<char>)>))>,
    resolved: Seq<(Seq<char>, Seq<(Seq<char>, Seq<char>)>)>,
)
    requires
        flattened_after_spreads(blocks, resolved),
    ensures
        flattened_after_spreads(blocks, resolved + newly(blocks, blocks, resolved)),
{
    let n = newly(blocks, blocks, resolved);
    let all = resolved + n;
    assert forall|j: int| 0 <= j < all.len() implies #[trigger] placed_after_spreads(blocks, all, j) by {
        if j < resolved.len() {
            assert(placed_after_spreads(blocks, resolved, j));
            assert(all[j] == resolved[j]);
            let k = choose|k: int| #[trigger] flattened_at(blocks, resolved, j, k);
            let sp = blocks[k].1.0;
            assert forall|t: int| 0 <= t < sp.len() && #[trigger] key_index(blocks, sp[t]) is Some implies key_index(all, sp[t]) is Some
                && key_index(all, sp[t]).unwrap() < j by {
                lemma_key_index_append(resolved, n, sp[t]);
            }
            assert(flattened_at(blocks, all, j, k));
        } else {
            let m = j - resolved.len();
            lemma_newly_ready(blocks, blocks, resolved, m);
            let k = choose|k: int|
                0 <= k < blocks.len() && #[trigger] blocks[k].0 == n[m].0 && ready(blocks[k].1.0, resolved, blocks);
            let sp = blocks[k].1.0;
            assert forall|t: int| 0 <= t < sp.len() && #[trigger] key_index(blocks, sp[t]) is Some implies key_index(all, sp[t]) is Some
                && key_index(all, sp[t]).unwrap() < j by {
                assert(key_index(resolved, sp[t]) is Some || key_index(blocks, sp[t]) is None);
                lemma_key_index_append(resolved, n, sp[t]);
            }
            assert(flattened_at(blocks, all, j, k));
        }
    }
}

proof fn lemma_resolve_from_keeps_order(
    blocks: Seq<(Seq<char>, (Seq<Seq<char>>, Seq<(Seq<char>, Seq<char>)>))>,
    resolved: Seq<(Seq<char>, Seq<(Seq<char>, Seq<char>)>)>,
    fuel: nat,
)
    requires
        flattened_after_spreads(blocks, resolved),
    ensures
        flattened_after_spreads(blocks, resolve_from(blocks, resolved, fuel)),
    decreases fuel,
{
    if fuel > 0 {
        let n = newly(blocks, blocks, resolved);
        if n.len() > 0 {
            lemma_round_keeps_order(blocks, resolved);
            lemma_resolve_from_keeps_order(blocks, resolved + n, (fuel - 1) as nat);
        }
    }
}

/// Law: blocks are flattened in an order where each block comes after every
/// block that it spreads (a spread that names no block is ignored).
pub proof fn law_flattened_after_spreads(blocks: Seq<(Seq<char>, (Seq<Seq<char>>, Seq<(Seq<char>, Seq<char>)>))>)
    ensures
        flattened_after_spreads(blocks, resolve_all(blocks)),
{
    lemma_resolve_from_keeps_order(blocks, Seq::empty(), blocks.len() + 1);
}

/// A rank of names under which every spread that names a block ranks below the
/// block that spreads it: the spreads form no cycle.
pub open spec fn spreads_ranked(
    blocks: Seq<(Seq<char>, (Seq<Seq<char>>, Seq<(Seq<char>, Seq<char>)>))>,
    rank: spec_fn(Seq<char>) -> nat,
) -> bool {
    forall|k: int, t: int|
        0 <= k < blocks.len() && 0 <= t < blocks[k].1.0.len() && #[trigger] key_index(blocks, blocks[k].1.0[t]) is Some
            ==> rank(blocks[k].1.0[t]) < rank(blocks[k].0)
}

/// The resolved blocks name blocks, each one once.
pub open spec fn resolved_once(
    blocks: Seq<(Seq<char>, (Seq<Seq<char>>, Seq<(Seq<char>, Seq<char>)>))>,
    resolved: Seq<(Seq<char>, Seq<(Seq<char>, Seq<char>)>)>,
) -> bool {
    &&& forall|j: int| 0 <= j < resolved.len() ==> #[trigger] key_index(blocks, resolved[j].0) is Some
    &&& keys_of(resolved).no_duplicates()
}

/// There are no more resolved blocks than blocks.
proof fn lemma_resolved_bound(
    blocks: Seq<(Seq<char>, (Seq<Seq<char>>, Seq<(Seq<char>, Seq<char>)>))>,
    resolved: Seq<(Seq<char>, Seq<(Seq<char>, Seq<char>)>)>,
)
    requires
        resolved_once(blocks, resolved),
    ensures
        resolved.len() <= blocks.len(),
{
    broadcast use vstd::seq_lib::seq_to_set_is_finite;
    let rk = keys_of(resolved);
    let bk = keys_of(blocks);
    rk.unique_seq_to_set();
    bk.lemma_cardinality_of_set();
    assert forall|x: Seq<char>| rk.to_set().contains(x) implies bk.to_set().contains(x) by {
        let j = choose|j: int| 0 <= j < rk.len() && rk[j] == x;
        assert(key_index(blocks, resolved[j].0) is Some);
        lemma_keys_first_index(blocks, x);
        let i = key_index(blocks, x).unwrap();
        assert(bk[i] == x);
    }
    vstd::set_lib::lemma_len_subset(rk.to_set(), bk.to_set());
}

/// A round resolves blocks of `bs` that were not resolved yet, each once.
proof fn lemma_newly_fresh(
    bs: Seq<(Seq<char>, (Seq<Seq<char>>, Seq<(Seq<char>, Seq<char>)>))>,
    blocks: Seq<(Seq<char>, (Seq<Seq<char>>, Seq<(Seq<char>, Seq<char>)>))>,
    resolved: Seq<(Seq<char>, Seq<(Seq<char>, Seq<char>)>)>,
)
    requires
        distinct_keys(bs),
    ensures
        forall|m: int|
            0 <= m < newly(bs, blocks, resolved).len() ==> key_index(resolved, #[trigger] newly(bs, blocks, resolved)[m].0)
                is None && keys_of(bs).contains(newly(bs, blocks, resolved)[m].0),
        keys_of(newly(bs, blocks, resolved)).no_duplicates(),
    decreases bs.len(),
{
    if bs.len() > 0 {
        let d = bs.drop_last();
        assert(distinct_keys(d));
        lemma_newly_fresh(d, blocks, resolved);
        let prev = newly(d, blocks, resolved);
        let n = newly(bs, blocks, resolved);
        assert forall|m: int| 0 <= m < prev.len() implies keys_of(bs).contains(#[trigger] prev[m].0) by {
            let i = choose|i: int| 0 <= i < keys_of(d).len() && keys_of(d)[i] == prev[m].0;
            assert(keys_of(bs)[i] == d[i].0);
        }
        if n.len() > prev.len() {
            let e = bs.last();
            assert(keys_of(bs)[bs.len() - 1] == e.0);
            assert forall|m: int| 0 <= m < prev.len() implies #[trigger] prev[m].0 != e.0 by {
                let i = choose|i: int| 0 <= i < keys_of(d).len() && keys_of(d)[i] == prev[m].0;
                assert(bs[i].0 == prev[m].0);
            }
            assert(keys_of(n) =~= keys_of(prev).push(e.0));
            assert forall|m: int| 0 <= m < n.len() implies key_index(resolved, #[trigger] n[m].0) is None
                && keys_of(bs).contains(n[m].0) by {
                if m < prev.len() {
                    assert(n[m] == prev[m]);
                }
            }
        }
    }
}

/// An unresolved block that is ready makes the round resolve something.
proof fn lemma_ready_block_resolves(
    bs: Seq<(Seq<char>, (Seq<Seq<char>>, Seq<(Seq<char>, Seq<char>)>))>,
    blocks: Seq<(Seq<char>, (Seq<Seq<char>>, Seq<(Seq<char>, Seq<char>)>))>,
    resolved: Seq<(Seq<char>, Seq<(Seq<char>, Seq<char>)>)>,
    k: int,
)
    requires
        0 <= k < bs.len(),
        key_index(resolved, bs[k].0) is None,
        ready(bs[k].1.0, resolved, blocks),
    ensures
        newly(bs, blocks, resolved).len() > 0,
    decreases bs.len(),
{
    if k < bs.len() - 1 {
        assert(bs.drop_last()[k] == bs[k]);
        lemma_ready_block_resolves(bs.drop_last(), blocks, resolved, k);
    }
}

/// Under a rank, an unresolved block makes the round resolve something.
proof fn lemma_unresolved_gives_round(
    blocks: Seq<(Seq<char>, (Seq<Seq<char>>, Seq<(Seq<char>, Seq<char>)>))>,
    resolved: Seq<(Seq<char>, Seq<(Seq<char>, Seq<char>)>)>,
    rank: spec_fn(Seq<char>) -> nat,
    r: nat,
    k: int,
)
    requires
        spreads_ranked(blocks, rank),
        0 <= k < blocks.len(),
        key_index(resolved, blocks[k].0) is None,
        rank(blocks[k].0) <= r,
    ensures
        newly(blocks, blocks, resolved).len() > 0,
    decreases r,
{
    let sp = blocks[k].1.0;
    if ready(sp, resolved, blocks) {
        lemma_ready_block_resolves(blocks, blocks, resolved, k);
    } else {
        let t = choose|t: int|
            0 <= t < sp.len() && !(key_index(resolved, #[trigger] sp[t]) is Some || key_index(blocks, sp[t]) is None);
        assert(key_index(blocks, blocks[k].1.0[t]) is Some);
        lemma_keys_first_index(blocks, sp[t]);
        let k2 = key_index(blocks, sp[t]).unwrap();
        assert(rank(sp[t]) < rank(blocks[k].0));
        lemma_unresolved_gives_round(blocks, resolved, rank, (r - 1) as nat, k2);
    }
}

proof fn lemma_resolve_from_complete(
    blocks: Seq<(Seq<char>, (Seq<Seq<char>>, Seq<(Seq<char>, Seq<char>)>))>,
    resolved: Seq<(Seq<char>, Seq<(Seq<char>, Seq<char>)>)>,
    fuel: nat,
    rank: spec_fn(Seq<char>) -> nat,
)
    requires
        distinct_keys(blocks),
        spreads_ranked(blocks, rank),
        resolved_once(blocks, resolved),
        fuel + resolved.len() > blocks.len(),
    ensures
        forall|k: int| 0 <= k < blocks.len() ==> key_index(resolve_from(blocks, resolved, fuel), #[trigger] blocks[k].0) is Some,
    decreases fuel,
{
    lemma_resolved_bound(blocks, resolved);
    let n = newly(blocks, blocks, resolved);
    if n.len() == 0 {
        assert forall|k: int| 0 <= k < blocks.len() implies key_index(resolve_from(blocks, resolved, fuel), #[trigger] blocks[k].0) is Some by {
            if key_index(resolved, blocks[k].0) is None {
                lemma_unresolved_gives_round(blocks, resolved, rank, rank(blocks[k].0), k);
            }
        }
    } else {
        let all = resolved + n;
        lemma_newly_fresh(blocks, blocks, resolved);
        assert(keys_of(all) =~= keys_of(resolved) + keys_of(n));
        assert forall|j: int| 0 <= j < all.len() implies #[trigger] key_index(blocks, all[j].0) is Some by {
            if j < resolved.len() {
                assert(all[j] == resolved[j]);
            } else {
                let m = j - resolved.len();
                assert(all[j] == n[m]);
                assert(key_index(resolved, n[m].0) is None);
                let i = choose|i: int| 0 <= i < keys_of(blocks).len() && keys_of(blocks)[i] == n[m].0;
                lemma_keys_first_index(blocks, n[m].0);
                assert(blocks[i].0 == n[m].0);
            }
        }
        assert forall|a: int, b: int| 0 <= a < b < all.len() implies keys_of(all)[a] != keys_of(all)[b] by {
            if a < resolved.len() && b >= resolved.len() {
                let m = b - resolved.len();
                assert(key_index(resolved, n[m].0) is None);
                lemma_keys_first_index(resolved, n[m].0);
                assert(keys_of(all)[a] == resolved[a].0);
                assert(keys_of(all)[b] == n[m].0);
            } else if a < resolved.len() {
                assert(keys_of(all)[a] == keys_of(resolved)[a]);
                assert(keys_of(all)[b] == keys_of(resolved)[b]);
            } else {
                assert(keys_of(all)[a] == keys_of(n)[a - resolved.len()]);
                assert(keys_of(all)[b] == keys_of(n)[b - resolved.len()]);
            }
        }
        assert(resolved_once(blocks, all));
        lemma_resolve_from_complete(blocks, all, (fuel - 1) as nat, rank);
    }
}

/// Law: where the spreads form no cycle (some rank of names puts every spread
/// that names a block below the block that spreads it), every block is
/// resolved and flattened.
pub proof fn law_acyclic_spreads_all_flattened(
    blocks: Seq<(Seq<char>, (Seq<Seq<char>>, Seq<(Seq<char>, Seq<char>)>))>,
    rank: spec_fn(Seq<char>) -> nat,
)
    requires
        distinct_keys(blocks),
        spreads_ranked(blocks, rank),
    ensures
        forall|k: int| 0 <= k < blocks.len() ==> key_index(resolve_all(blocks), #[trigger] blocks[k].0) is Some,
{
    let e = Seq::<(Seq<char>, Seq<(Seq<char>, Seq<char>)>)>::empty();
    assert(keys_of(e) =~= Seq::<Seq<char>>::empty());
    lemma_resolve_from_complete(blocks, e, blocks.len() + 1, rank);
}

/// Setting a key keeps the keys distinct.
proof fn lemma_alist_insert_distinct<V>(es: Seq<(Seq<char>, V)>, k: Seq<char>, v: V)
    requires
        distinct_keys(es),
    ensures
        distinct_keys(alist_insert(es, k, v)),
{
    lemma_keys_first_index(es, k);
    let r = alist_insert(es, k, v);
    match key_index(es, k) {
        Some(i) => {
            assert forall|a: int| 0 <= a < r.len() implies r[a].0 == es[a].0 by {}
        },
        None => {
            assert forall|a: int| 0 <= a < es.len() implies r[a] == es[a] by {}
        },
    }
}

/// The blocks read from the source have distinct names.
pub proof fn lemma_raw_blocks_distinct(caps: Seq<(Seq<char>, Seq<char>)>)
    ensures
        distinct_keys(spec_raw_blocks(caps)),
    decreases caps.len(),
{
    if caps.len() > 0 {
        lemma_raw_blocks_distinct(caps.drop_last());
        let c = caps.last();
        lemma_alist_insert_distinct(
            spec_raw_blocks(caps.drop_last()),
            c.0,
            (ts_spreads(c.1), alist_extend(Seq::empty(), ts_string_pairs(c.1))),
        );
    }
}

/// Law: recording a path for a key sets only the kind of text that the path
/// names. A path that mentions `Description` becomes the key's description
/// path and leaves its name path as it was; any other path becomes its name
/// path and leaves its description path as it was; other keys keep theirs.
pub proof fn law_recording_keeps_the_other_kind(
    t: Seq<(Seq<char>, (Option<Seq<char>>, Option<Seq<char>>))>,
    k: Seq<char>,
    v: Seq<char>,
    other: Seq<char>,
    kind: Seq<char>,
)
    ensures
        contains(v, "Description"@) ==> spec_trait_path(set_path(t, k, v), k, "trait"@) == spec_trait_path(t, k, "trait"@)
            && spec_trait_path(set_path(t, k, v), k, "description"@) == Some(v),
        !contains(v, "Description"@) ==> spec_trait_path(set_path(t, k, v), k, "trait"@) == Some(v)
            && spec_trait_path(set_path(t, k, v), k, "description"@) == spec_trait_path(t, k, "description"@),
        other != k ==> spec_trait_path(set_path(t, k, v), other, kind) == spec_trait_path(t, other, kind),
{
    reveal_strlit("trait");
    reveal_strlit("description");
    assert("trait"@ != "description"@) by {
        assert("trait"@.len() != "description"@.len());
    }
    let old = match alist_get(t, k) {
        Some(e) => e,
        None => (None, None),
    };
    let nv = if contains(v, "Description"@) {
        (old.0, Some(v))
    } else {
        (Some(v), old.1)
    };
    lemma_alist_insert_get(t, k, nv, k);
    lemma_alist_insert_get(t, k, nv, other);
}

} // verus!
