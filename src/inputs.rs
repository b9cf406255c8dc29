use vstd::prelude::*;
use vstd::string::*;
use crate::text::char_vec;

verus! {

/// The `&`-separated pieces of `s`, empty pieces included (`""` has one piece).
pub open spec fn segments(s: Seq<char>) -> Seq<Seq<char>>
    decreases s.len(),
{
    if s.len() == 0 {
        seq![Seq::empty()]
    } else {
        let p = segments(s.drop_last());
        if s.last() == '&' {
            p.push(Seq::empty())
        } else {
            p.update(p.len() - 1, p.last().push(s.last()))
        }
    }
}

/// The index of the first `c` in `s`, or -1 where there is none.
pub open spec fn first_index(s: Seq<char>, c: char) -> int
    decreases s.len(),
{
    if s.len() == 0 {
        -1
    } else {
        let i = first_index(s.drop_last(), c);
        if i >= 0 {
            i
        } else if s.last() == c {
            s.len() - 1
        } else {
            -1
        }
    }
}

/// A `key=value` piece split at its first `=`; `None` where it has no `=`.
pub open spec fn pair_of(seg: Seq<char>) -> Option<(Seq<char>, Seq<char>)> {
    let e = first_index(seg, '=');
    if e < 0 {
        None
    } else {
        Some((seg.take(e), seg.skip(e + 1)))
    }
}

/// Folds the pieces into a map in order: a later key overwrites an earlier
/// one, and a piece without `=` is dropped.
pub open spec fn fold_pairs(segs: Seq<Seq<char>>) -> Map<Seq<char>, Seq<char>>
    decreases segs.len(),
{
    if segs.len() == 0 {
        Map::empty()
    } else {
        let m = fold_pairs(segs.drop_last());
        match pair_of(segs.last()) {
            Some(p) => m.insert(p.0, p.1),
            None => m,
        }
    }
}

/// The parameters that an encoded string `k1=v1&k2=v2...` names.
pub open spec fn inputs_of(s: Seq<char>) -> Map<Seq<char>, Seq<char>> {
    fold_pairs(segments(s))
}

/// The map that a list of pairs gives when inserted in order.
pub open spec fn pairs_map(es: Seq<(String, String)>) -> Map<Seq<char>, Seq<char>>
    decreases es.len(),
{
    if es.len() == 0 {
        Map::empty()
    } else {
        pairs_map(es.drop_last()).insert(es.last().0@, es.last().1@)
    }
}

/// No key occurs twice.
pub open spec fn keys_unique(es: Seq<(String, String)>) -> bool {
    forall|i: int, j: int| 0 <= i < j < es.len() ==> es[i].0@ != es[j].0@
}

proof fn lemma_segments_nonempty(s: Seq<char>)
    ensures
        segments(s).len() >= 1,
    decreases s.len(),
{
    if s.len() > 0 {
        lemma_segments_nonempty(s.drop_last());
    }
}

proof fn lemma_first_index(s: Seq<char>, c: char)
    ensures
        -1 <= first_index(s, c) < s.len(),
        first_index(s, c) >= 0 ==> s[first_index(s, c)] == c,
        forall|j: int| 0 <= j < s.len() && (first_index(s, c) < 0 || j < first_index(s, c))
            ==> s[j] != c,
    decreases s.len(),
{
    if s.len() > 0 {
        lemma_first_index(s.drop_last(), c);
        assert(forall|j: int| 0 <= j < s.len() - 1 ==> s.drop_last()[j] == s[j]);
    }
}

proof fn lemma_pairs_map_keys(es: Seq<(String, String)>, k: Seq<char>)
    ensures
        pairs_map(es).contains_key(k) <==> exists|i: int| 0 <= i < es.len() && es[i].0@ == k,
    decreases es.len(),
{
    if es.len() > 0 {
        lemma_pairs_map_keys(es.drop_last(), k);
        if pairs_map(es.drop_last()).contains_key(k) {
            let i = choose|i: int| 0 <= i < es.len() - 1 && es.drop_last()[i].0@ == k;
            assert(es[i].0@ == k);
        }
        if exists|i: int| 0 <= i < es.len() && es[i].0@ == k {
            let i = choose|i: int| 0 <= i < es.len() && es[i].0@ == k;
            if i < es.len() - 1 {
                assert(es.drop_last()[i].0@ == k);
            }
        }
    }
}

proof fn lemma_pairs_map_len(es: Seq<(String, String)>)
    requires
        keys_unique(es),
    ensures
        pairs_map(es).dom().finite(),
        pairs_map(es).dom().len() == es.len(),
    decreases es.len(),
{
    if es.len() > 0 {
        let p = es.drop_last();
        assert(keys_unique(p));
        lemma_pairs_map_len(p);
        lemma_pairs_map_keys(p, es.last().0@);
        assert(!pairs_map(p).contains_key(es.last().0@));
    }
}

proof fn lemma_pairs_map_update(es: Seq<(String, String)>, idx: int, e: (String, String))
    requires
        keys_unique(es),
        0 <= idx < es.len(),
        es[idx].0@ == e.0@,
    ensures
        pairs_map(es.update(idx, e)) == pairs_map(es).insert(e.0@, e.1@),
    decreases es.len(),
{
    let u = es.update(idx, e);
    if idx == es.len() - 1 {
        assert(u.drop_last() =~= es.drop_last());
        assert(pairs_map(u) =~= pairs_map(es).insert(e.0@, e.1@));
    } else {
        let p = es.drop_last();
        assert(keys_unique(p));
        lemma_pairs_map_update(p, idx, e);
        assert(u.drop_last() =~= p.update(idx, e));
        assert(es.last().0@ != e.0@);
        assert(pairs_map(u) =~= pairs_map(es).insert(e.0@, e.1@));
    }
}

proof fn lemma_segments_extend(s: Seq<char>, p: Seq<char>)
    requires
        !p.contains('&'),
    ensures
        segments(s + seq!['&'] + p) == segments(s).push(p),
    decreases p.len(),
{
    lemma_segments_nonempty(s);
    if p.len() == 0 {
        let t = s + seq!['&'] + p;
        assert(t.drop_last() =~= s);
        assert(t.last() == '&');
        assert(p =~= Seq::<char>::empty());
    } else {
        let q = p.drop_last();
        assert(!q.contains('&')) by {
            if q.contains('&') {
                let j = choose|j: int| 0 <= j < q.len() && q[j] == '&';
                assert(p[j] == '&');
            }
        }
        lemma_segments_extend(s, q);
        assert((s + seq!['&'] + p).drop_last() =~= s + seq!['&'] + q);
        assert(p.last() != '&');
        let t = s + seq!['&'] + p;
        assert(t.last() == p.last());
        assert(q.push(p.last()) =~= p);
        assert(segments(s).push(q).update(segments(s).len() as int, q.push(p.last())) =~= segments(s).push(p));
    }
}

/// A piece without `=` adds nothing: `s&w` names what `s` names.
pub proof fn lemma_piece_without_equals_dropped(s: Seq<char>, w: Seq<char>)
    requires
        !w.contains('&'),
        !w.contains('='),
    ensures
        inputs_of(s + "&"@ + w) == inputs_of(s),
{
    reveal_strlit("&");
    assert("&"@ =~= seq!['&']);
    lemma_segments_extend(s, w);
    assert(segments(s).push(w).drop_last() =~= segments(s));
    lemma_first_index(w, '=');
    if first_index(w, '=') >= 0 {
        assert(w.contains('='));
    }
}

/// A later `k=v` piece sets `k` to `v`, whatever `s` said of `k` before.
pub proof fn lemma_later_piece_overwrites(s: Seq<char>, k: Seq<char>, v: Seq<char>)
    requires
        !k.contains('&'),
        !k.contains('='),
        !v.contains('&'),
    ensures
        inputs_of(s + "&"@ + k + "="@ + v) == inputs_of(s).insert(k, v),
{
    reveal_strlit("&");
    reveal_strlit("=");
    assert("&"@ =~= seq!['&']);
    assert("="@ =~= seq!['=']);
    let p = k + seq!['='] + v;
    assert(s + "&"@ + k + "="@ + v =~= s + seq!['&'] + p);
    assert(!p.contains('&')) by {
        if p.contains('&') {
            let j = choose|j: int| 0 <= j < p.len() && p[j] == '&';
            if j < k.len() {
                assert(k[j] == '&');
            } else if j > k.len() {
                assert(v[j - k.len() - 1] == '&');
            }
        }
    }
    lemma_segments_extend(s, p);
    assert(segments(s).push(p).drop_last() =~= segments(s));
    lemma_first_index(p, '=');
    let e = first_index(p, '=');
    assert(p[k.len() as int] == '=');
    if e < k.len() {
        assert(k[e] == p[e]);
    }
    assert(e == k.len());
    assert(p.take(e) =~= k);
    assert(p.skip(e + 1) =~= v);
}

/// Named parameters for a dispatch, keys unique.
pub struct InputMap {
    entries: Vec<(String, String)>,
}

impl View for InputMap {
    type V = Map<Seq<char>, Seq<char>>;

    closed spec fn view(&self) -> Map<Seq<char>, Seq<char>> {
        pairs_map(self.entries@)
    }
}

impl InputMap {
    pub closed spec fn wf(&self) -> bool {
        keys_unique(self.entries@)
    }

    /// An empty map.
    pub fn new() -> (r: InputMap)
        ensures
            r.wf(),
            r@ == Map::<Seq<char>, Seq<char>>::empty(),
    {
        InputMap { entries: Vec::new() }
    }

    /// Sets `key` to `value`, replacing an earlier value of the same key.
    pub fn insert(&mut self, key: String, value: String)
        requires
            old(self).wf(),
        ensures
            final(self).wf(),
            final(self)@ == old(self)@.insert(key@, value@),
    {
        let mut i: usize = 0;
        while i < self.entries.len()
            invariant
                self.wf(),
                self@ == old(self)@,
                i <= self.entries@.len(),
                forall|j: int| 0 <= j < i ==> self.entries@[j].0@ != key@,
            decreases self.entries@.len() - i,
        {
            if self.entries[i].0 == key {
                proof { lemma_pairs_map_update(self.entries@, i as int, (key, value)); }
                self.entries.set(i, (key, value));
                return;
            }
            i = i + 1;
        }
        let ghost before = self.entries@;
        self.entries.push((key, value));
        assert(self.entries@.drop_last() =~= before);
    }

    /// The value of `key`, if it has one.
    pub fn get(&self, key: &str) -> (r: Option<&String>)
        requires
            self.wf(),
        ensures
            r is Some <==> self@.contains_key(key@),
            r matches Some(v) ==> v@ == self@[key@],
    {
        let k = String::from_str(key);
        let mut i: usize = 0;
        while i < self.entries.len()
            invariant
                self.wf(),
                k@ == key@,
                i <= self.entries@.len(),
                forall|j: int| 0 <= j < i ==> self.entries@[j].0@ != key@,
            decreases self.entries@.len() - i,
        {
            if self.entries[i].0 == k {
                proof { self.lemma_value_at(i as int); }
                return Some(&self.entries[i].1);
            }
            i = i + 1;
        }
        proof { lemma_pairs_map_keys(self.entries@, key@); }
        None
    }

    proof fn lemma_value_at(&self, i: int)
        requires
            self.wf(),
            0 <= i < self.entries@.len(),
        ensures
            self@.contains_key(self.entries@[i].0@),
            self@[self.entries@[i].0@] == self.entries@[i].1@,
    {
        let es = self.entries@;
        assert(es.update(i, es[i]) =~= es);
        lemma_pairs_map_update(es, i, es[i]);
    }

    /// The number of keys.
    pub fn len(&self) -> (r: usize)
        requires
            self.wf(),
        ensures
            r as nat == self@.dom().len(),
    {
        proof { lemma_pairs_map_len(self.entries@); }
        self.entries.len()
    }

    /// The (key, value) pairs, each key once.
    pub fn pairs(&self) -> (r: &Vec<(String, String)>)
        requires
            self.wf(),
        ensures
            keys_unique(r@),
            pairs_map(r@) == self@,
    {
        &self.entries
    }
}

/// Adds the piece `s[start..end]` to `m` if it holds an `=`.
fn add_piece(m: &mut InputMap, s: &str, chars: &Vec<char>, start: usize, end: usize)
    requires
        old(m).wf(),
        chars@ == s@,
        start <= end <= s@.len(),
    ensures
        final(m).wf(),
        final(m)@ == match pair_of(s@.subrange(start as int, end as int)) {
            Some(p) => old(m)@.insert(p.0, p.1),
            None => old(m)@,
        },
{
    let ghost seg = s@.subrange(start as int, end as int);
    proof { lemma_first_index(seg, '='); }
    let mut e: usize = start;
    while e < end
        invariant
            chars@ == s@,
            start <= e <= end <= s@.len(),
            seg == s@.subrange(start as int, end as int),
            forall|j: int| start <= j < e ==> s@[j] != '=',
            m.wf(),
            m@ == old(m)@,
        decreases end - e,
    {
        if chars[e] == '=' {
            proof {
                lemma_first_index(seg, '=');
                let f = first_index(seg, '=');
                assert(seg[e - start] == '=');
                if f < e - start {
                    assert(seg[f] == s@[start + f]);
                }
            }
            assert(first_index(seg, '=') == e - start);
            let key = String::from_str(s.substring_char(start, e));
            let value = String::from_str(s.substring_char(e + 1, end));
            assert(key@ =~= seg.take(e - start));
            assert(value@ =~= seg.skip(e - start + 1));
            m.insert(key, value);
            return;
        }
        e = e + 1;
    }
    assert(forall|j: int| 0 <= j < seg.len() ==> seg[j] == s@[start + j]);
    assert(first_index(seg, '=') < 0);
}

/// Parses `k1=v1&k2=v2...` into a map. A piece without `=` is dropped, a
/// repeated key keeps its last value, and nothing is percent-decoded.
pub fn parse_inputs(s: &str) -> (r: InputMap)
    ensures
        r.wf(),
        r@ == inputs_of(s@),
{
    let chars = char_vec(s);
    let mut m = InputMap::new();
    let mut start: usize = 0;
    let mut i: usize = 0;
    let ghost done: Seq<Seq<char>> = Seq::empty();
    assert(s@.take(0) =~= Seq::<char>::empty());
    assert(s@.subrange(0, 0) =~= Seq::<char>::empty());
    while i < chars.len()
        invariant
            chars@ == s@,
            start <= i <= s@.len(),
            segments(s@.take(i as int)) == done.push(s@.subrange(start as int, i as int)),
            m.wf(),
            m@ == fold_pairs(done),
        decreases s@.len() - i,
    {
        proof {
            assert(s@.take(i + 1).drop_last() =~= s@.take(i as int));
        }
        if chars[i] == '&' {
            let ghost seg = s@.subrange(start as int, i as int);
            add_piece(&mut m, s, &chars, start, i);
            proof {
                assert(done.push(seg).drop_last() =~= done);
                done = done.push(seg);
                assert(s@.subrange(i + 1, i + 1) =~= Seq::<char>::empty());
            }
            start = i + 1;
        } else {
            proof {
                assert(s@.subrange(start as int, i + 1) =~= s@.subrange(start as int, i as int).push(s@[i as int]));
                assert(done.push(s@.subrange(start as int, i as int)).update(done.len() as int, s@.subrange(start as int, i + 1)) =~= done.push(s@.subrange(start as int, i + 1)));
            }
        }
        i = i + 1;
    }
    let ghost last = s@.subrange(start as int, i as int);
    add_piece(&mut m, s, &chars, start, i);
    assert(s@.take(i as int) =~= s@);
    assert(done.push(last).drop_last() =~= done);
    m
}

} // verus!
