use vstd::prelude::*;
use crate::text::string_of;

verus! {

/// `s` cut at every comma.
pub open spec fn split_commas(s: Seq<char>) -> Seq<Seq<char>>
    decreases s.len(),
{
    if s.len() == 0 {
        seq![Seq::empty()]
    } else {
        let p = split_commas(s.drop_last());
        if s.last() == ',' {
            p.push(Seq::empty())
        } else {
            p.update(p.len() - 1, p.last().push(s.last()))
        }
    }
}

/// The key-value pairs of `parts` read two by two; an unpaired last part is
/// left out.
pub open spec fn pairs_of(parts: Seq<Seq<char>>) -> Seq<(Seq<char>, Seq<char>)> {
    Seq::new(parts.len() / 2, |k: int| (parts[2 * k], parts[2 * k + 1]))
}

/// The map that pairs define when a later pair overrides an earlier one with
/// the same key.
pub open spec fn map_of_pairs(e: Seq<(Seq<char>, Seq<char>)>) -> Map<Seq<char>, Seq<char>>
    decreases e.len(),
{
    if e.len() == 0 {
        Map::empty()
    } else {
        map_of_pairs(e.drop_last()).insert(e.last().0, e.last().1)
    }
}

/// What a `key,value,key,value` payload decodes to; an unpaired last key is
/// dropped, so a payload without a comma decodes to the empty map.
pub open spec fn login_params_of(s: Seq<char>) -> Map<Seq<char>, Seq<char>> {
    map_of_pairs(pairs_of(split_commas(s)))
}

/// The decoded key-value payload of the server's callback.
pub struct LaunchParams {
    entries: Vec<(String, String)>,
}

pub open spec fn pair_views(v: Seq<(String, String)>) -> Seq<(Seq<char>, Seq<char>)> {
    v.map_values(|p: (String, String)| (p.0@, p.1@))
}

proof fn lemma_map_suffix(e: Seq<(Seq<char>, Seq<char>)>, j: int, key: Seq<char>)
    requires
        0 <= j <= e.len(),
        forall|i: int| j <= i < e.len() ==> #[trigger] e[i].0 != key,
    ensures
        map_of_pairs(e).contains_key(key) == map_of_pairs(e.take(j)).contains_key(key),
        map_of_pairs(e).contains_key(key) ==> map_of_pairs(e)[key] == map_of_pairs(e.take(j))[key],
    decreases e.len() - j,
{
    if j < e.len() {
        lemma_map_suffix(e.drop_last(), j, key);
        assert(e.drop_last().take(j) =~= e.take(j));
    } else {
        assert(e.take(j) =~= e);
    }
}

impl LaunchParams {
    pub closed spec fn pairs(&self) -> Seq<(Seq<char>, Seq<char>)> {
        pair_views(self.entries@)
    }

    pub open spec fn view(&self) -> Map<Seq<char>, Seq<char>> {
        map_of_pairs(self.pairs())
    }

    /// The value last given to `key`.
    pub fn get(&self, key: &str) -> (r: Option<&String>)
        ensures
            r is Some <==> self.view().contains_key(key@),
            r is Some ==> r->Some_0@ == self.view()[key@],
    {
        let k = String::from_str(key);
        let mut i: usize = self.entries.len();
        while i > 0
            invariant
                i <= self.entries@.len(),
                k@ == key@,
                forall|j: int| i <= j < self.pairs().len() ==> #[trigger] self.pairs()[j].0 != key@,
            decreases i,
        {
            if self.entries[i - 1].0 == k {
                proof {
                    let e = self.pairs();
                    lemma_map_suffix(e, i as int, key@);
                    assert(e.take(i as int).drop_last() =~= e.take(i - 1));
                    assert(e.take(i as int).last() == e[i - 1]);
                }
                return Some(&self.entries[i - 1].1);
            }
            i = i - 1;
        }
        proof {
            lemma_map_suffix(self.pairs(), 0, key@);
        }
        None
    }

    /// The value of `key`, or the empty string where the payload lacks it.
    pub fn value_or_empty(&self, key: &str) -> (r: String)
        ensures
            r@ == if self.view().contains_key(key@) { self.view()[key@] } else { Seq::empty() },
    {
        match self.get(key) {
            Some(v) => v.clone(),
            None => String::new(),
        }
    }
}

/// Decodes a `key,value,key,value` payload; a final key without a value is
/// dropped.
pub fn parse_login_params(params_str: &Vec<char>) -> (r: Option<LaunchParams>)
    ensures
        r is Some,
        r->Some_0.view() == login_params_of(params_str@),
{
    let ghost s = params_str@;
    let mut parts: Vec<String> = Vec::new();
    let mut start: usize = 0;
    let mut i: usize = 0;
    while i < params_str.len()
        invariant
            s == params_str@,
            start <= i <= s.len(),
            parts@.len() + 1 == split_commas(s.take(i as int)).len(),
            forall|j: int| 0 <= j < parts@.len() ==> #[trigger] parts@[j]@ == split_commas(s.take(i as int))[j],
            split_commas(s.take(i as int)).last() == s.subrange(start as int, i as int),
        decreases s.len() - i,
    {
        assert(s.take(i + 1).drop_last() =~= s.take(i as int));
        if params_str[i] == ',' {
            let piece = string_of(vstd::slice::slice_subrange(params_str.as_slice(), start, i));
            parts.push(piece);
            start = i + 1;
            i = i + 1;
            assert(s.subrange(start as int, i as int) =~= Seq::<char>::empty());
        } else {
            i = i + 1;
            assert(s.subrange(start as int, i as int) =~= s.subrange(start as int, i - 1).push(s[i - 1]));
        }
    }
    let last = string_of(vstd::slice::slice_subrange(params_str.as_slice(), start, i));
    parts.push(last);
    assert(s.take(i as int) =~= s);
    let ghost sp = split_commas(s);
    assert(parts@.len() == sp.len());
    let mut entries: Vec<(String, String)> = Vec::new();
    let mut k: usize = 0;
    while k + 1 < parts.len()
        invariant
            parts@.len() == sp.len(),
            forall|j: int| 0 <= j < parts@.len() ==> #[trigger] parts@[j]@ == sp[j],
            k % 2 == 0,
            k <= parts@.len(),
            pair_views(entries@) =~= pairs_of(sp).take(k as int / 2),
        decreases parts@.len() - k,
    {
        let a = parts[k].clone();
        let b = parts[k + 1].clone();
        let ghost before = pair_views(entries@);
        entries.push((a, b));
        assert(pair_views(entries@) =~= before.push((a@, b@)));
        assert(pairs_of(sp)[k as int / 2] == (sp[k as int], sp[k + 1]));
        k = k + 2;
        assert(pairs_of(sp).take(k as int / 2) =~= pairs_of(sp).take(k as int / 2 - 1).push(pairs_of(sp)[k as int / 2 - 1]));
    }
    assert(pairs_of(sp).take(k as int / 2) =~= pairs_of(sp));
    Some(LaunchParams { entries })
}

} // verus!
