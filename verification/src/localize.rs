//! Localized texts: lookups by dotted path in the language files.
use crate::game_system::GameSystem;
use crate::json::{Json, JsonV};
use crate::text::{chars_of, string_from_chars};
use vstd::prelude::*;

pub mod trait_table;

verus! {

/// `str::split` by one character: the pieces between occurrences, empty ones
/// included.
pub open spec fn split_on(s: Seq<char>, c: char) -> Seq<Seq<char>>
    decreases s.len(),
{
    if s.len() == 0 {
        seq![Seq::empty()]
    } else {
        let parts = split_on(s.drop_last(), c);
        if s.last() == c {
            parts.push(Seq::empty())
        } else {
            parts.update(parts.len() - 1, parts.last().push(s.last()))
        }
    }
}

pub proof fn lemma_split_on_nonempty(s: Seq<char>, c: char)
    ensures
        split_on(s, c).len() >= 1,
    decreases s.len(),
{
    if s.len() > 0 {
        lemma_split_on_nonempty(s.drop_last(), c);
    }
}

/// Splits a text at each occurrence of a character, as `str::split` does.
pub fn split_char(s: &str, c: char) -> (r: Vec<String>)
    ensures
        crate::json::strings_view(r@) == split_on(s@, c),
{
    let cs = chars_of(s);
    let mut parts: Vec<String> = Vec::new();
    let mut seg: Vec<char> = Vec::new();
    let mut i: usize = 0;
    assert(cs@.subrange(0, 0) =~= Seq::<char>::empty());
    assert(crate::json::strings_view(parts@).push(seg@) =~= split_on(Seq::<char>::empty(), c));
    while i < cs.len()
        invariant
            i <= cs@.len(),
            cs@ == s@,
            crate::json::strings_view(parts@).push(seg@) == split_on(cs@.subrange(0, i as int), c),
        decreases cs@.len() - i,
    {
        let ghost pre = cs@.subrange(0, i as int);
        let ghost next = cs@.subrange(0, i + 1);
        assert(next.drop_last() =~= pre);
        assert(next.last() == cs@[i as int]);
        let ghost pv = crate::json::strings_view(parts@);
        if cs[i] == c {
            let piece = string_from_chars(seg.as_slice());
            parts.push(piece);
            seg = Vec::new();
            assert(crate::json::strings_view(parts@) =~= pv.push(piece@));
            assert(crate::json::strings_view(parts@).push(seg@) =~= pv.push(piece@).push(Seq::empty()));
        } else {
            let ghost old_seg = seg@;
            seg.push(cs[i]);
            assert(pv.push(seg@) =~= pv.push(old_seg).update(pv.len() as int, old_seg.push(cs@[i as int])));
        }
        i = i + 1;
    }
    assert(cs@.subrange(0, cs@.len() as int) =~= cs@);
    let last = string_from_chars(seg.as_slice());
    let ghost pv = crate::json::strings_view(parts@);
    parts.push(last);
    assert(crate::json::strings_view(parts@) =~= pv.push(last@));
    parts
}

/// The value reached from `j` by following the keys in turn.
pub open spec fn walk(j: Option<JsonV>, keys: Seq<Seq<char>>) -> Option<JsonV>
    decreases keys.len(),
{
    if keys.len() == 0 {
        j
    } else {
        match walk(j, keys.drop_last()) {
            Some(x) => x.get(keys.last()),
            None => None,
        }
    }
}

/// The string at a dot-separated path, if there is one.
pub open spec fn spec_lookup_path(j: JsonV, path: Seq<char>) -> Option<Seq<char>> {
    match walk(Some(j), split_on(path, '.')) {
        Some(v) => v.as_str(),
        None => None,
    }
}

pub open spec fn opt_ref_view(o: Option<&Json>) -> Option<JsonV> {
    match o {
        Some(j) => Some(j@),
        None => None,
    }
}

/// Walks a dot-separated path through a JSON value, returning the string at
/// that path if present.
pub fn lookup_path(json_data: &Json, path: &str) -> (r: Option<String>)
    ensures
        crate::json::opt_string_view(r) == spec_lookup_path(json_data@, path@),
{
    let cs = chars_of(path);
    let mut current: &Json = json_data;
    let mut seg: Vec<char> = Vec::new();
    let mut i: usize = 0;
    assert(cs@.subrange(0, 0) =~= Seq::<char>::empty());
    while i < cs.len()
        invariant
            i <= cs@.len(),
            cs@ == path@,
            split_on(cs@.subrange(0, i as int), '.').len() >= 1,
            seg@ == split_on(cs@.subrange(0, i as int), '.').last(),
            walk(Some(json_data@), split_on(cs@.subrange(0, i as int), '.').drop_last()) == Some(
                current@,
            ),
        decreases cs@.len() - i,
    {
        let ghost pre = cs@.subrange(0, i as int);
        let ghost next = cs@.subrange(0, i + 1);
        assert(next.drop_last() =~= pre);
        assert(next.last() == cs@[i as int]);
        let ghost parts = split_on(pre, '.');
        if cs[i] == '.' {
            let key = string_from_chars(seg.as_slice());
            assert(split_on(next, '.') == parts.push(Seq::empty()));
            assert(split_on(next, '.').drop_last() =~= parts);
            assert(parts =~= parts.drop_last().push(parts.last()));
            match current.get(key.as_str()) {
                Some(x) => {
                    current = x;
                },
                None => {
                    proof {
                        lemma_walk_none(Some(json_data@), split_on(cs@, '.'), parts.len() as int, cs@, i as int + 1);
                    }
                    return None;
                },
            }
            seg = Vec::new();
        } else {
            seg.push(cs[i]);
            assert(split_on(next, '.') == parts.update(parts.len() - 1, parts.last().push(cs@[i as int])));
            assert(split_on(next, '.').drop_last() =~= parts.drop_last());
        }
        i = i + 1;
        proof {
            lemma_split_on_nonempty(cs@.subrange(0, i as int), '.');
        }
    }
    assert(cs@.subrange(0, cs@.len() as int) =~= cs@);
    let ghost parts = split_on(cs@, '.');
    assert(parts =~= parts.drop_last().push(parts.last()));
    let key = string_from_chars(seg.as_slice());
    match current.get(key.as_str()) {
        Some(x) => x.as_string(),
        None => None,
    }
}

/// Splitting a longer text extends the earlier pieces: every piece before the
/// last one stays as it was.
proof fn lemma_split_prefix(s: Seq<char>, c: char, k: int)
    requires
        0 <= k <= s.len(),
    ensures
        split_on(s.subrange(0, k), c).len() <= split_on(s, c).len(),
        split_on(s.subrange(0, k), c).drop_last() =~= split_on(s, c).subrange(
            0,
            split_on(s.subrange(0, k), c).len() - 1,
        ),
    decreases s.len() - k,
{
    lemma_split_on_nonempty(s.subrange(0, k), c);
    if k < s.len() {
        lemma_split_prefix(s, c, k + 1);
        let pre = s.subrange(0, k);
        let next = s.subrange(0, k + 1);
        assert(next.drop_last() =~= pre);
        lemma_split_on_nonempty(pre, c);
        lemma_split_on_nonempty(next, c);
    } else {
        assert(s.subrange(0, k) =~= s);
    }
}

/// Once a walk fails along a prefix of the keys, the whole walk fails.
proof fn lemma_walk_none_keys(j: Option<JsonV>, keys: Seq<Seq<char>>, n: int)
    requires
        0 <= n <= keys.len(),
        walk(j, keys.subrange(0, n)) is None,
    ensures
        walk(j, keys) is None,
    decreases keys.len() - n,
{
    if n < keys.len() {
        assert(keys.subrange(0, n + 1).drop_last() =~= keys.subrange(0, n));
        lemma_walk_none_keys(j, keys, n + 1);
    } else {
        assert(keys.subrange(0, n) =~= keys);
    }
}

/// The walk along the pieces of a prefix of the path failed at a dot; then the
/// walk along the whole path fails.
proof fn lemma_walk_none(j: Option<JsonV>, all: Seq<Seq<char>>, n: int, s: Seq<char>, k: int)
    requires
        all == split_on(s, '.'),
        0 <= k <= s.len(),
        split_on(s.subrange(0, k), '.').len() == n + 1,
        walk(j, split_on(s.subrange(0, k), '.').drop_last()) is None,
    ensures
        walk(j, all) is None,
{
    lemma_split_prefix(s, '.', k);
    lemma_split_on_nonempty(s.subrange(0, k), '.');
    let pre = split_on(s.subrange(0, k), '.');
    assert(pre.len() <= split_on(s, '.').len());
    assert(n < all.len());
    assert(0 <= n);
    assert(walk(j, all.subrange(0, n)) is None);
    assert(pre.drop_last() =~= all.subrange(0, n));
    lemma_walk_none_keys(j, all, n);
}

/// The text at a path: Starfinder's own text where Starfinder is in effect and
/// its overrides have one, else the Pathfinder text.
pub open spec fn spec_localized(path: Seq<char>, gs: GameSystem, lang: JsonV, sf2e: JsonV) -> Option<Seq<char>> {
    if gs == GameSystem::Starfinder && spec_lookup_path(sf2e, path) is Some {
        spec_lookup_path(sf2e, path)
    } else {
        spec_lookup_path(lang, path)
    }
}

/// Looks a text up by path in the language files of the game system in effect.
pub fn localized_text(path: &str, gs: GameSystem, lang: &Json, sf2e: &Json) -> (r: Option<String>)
    ensures
        crate::json::opt_string_view(r) == spec_localized(path@, gs, lang@, sf2e@),
{
    let pf2e_result = lookup_path(lang, path);
    if gs == GameSystem::Starfinder {
        match lookup_path(sf2e, path) {
            Some(v) => return Some(v),
            None => {},
        }
    }
    pf2e_result
}

} // verus!
