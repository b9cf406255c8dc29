use vstd::prelude::*;
use crate::text::char_vec;

verus! {

pub open spec fn min_nat(x: nat, y: nat) -> nat {
    if x <= y { x } else { y }
}

/// Levenshtein distance: the fewest single-character insertions, deletions
/// and substitutions that turn `a` into `b`.
pub open spec fn edit_distance(a: Seq<char>, b: Seq<char>) -> nat
    decreases a.len() + b.len(),
{
    if a.len() == 0 {
        b.len()
    } else if b.len() == 0 {
        a.len()
    } else {
        min_nat(
            min_nat(edit_distance(a.drop_last(), b) + 1, edit_distance(a, b.drop_last()) + 1),
            edit_distance(a.drop_last(), b.drop_last()) + if a.last() == b.last() { 0nat } else { 1nat },
        )
    }
}

/// The longer of the two lengths.
pub open spec fn max_len(a: Seq<char>, b: Seq<char>) -> nat {
    if a.len() >= b.len() { a.len() } else { b.len() }
}

/// Two names are alike when their normalized similarity, one minus the edit
/// distance over the longer length (one for two empty names), exceeds 0.80;
/// that is, when five times the distance is below the longer length.
pub open spec fn similar(a: Seq<char>, b: Seq<char>) -> bool {
    max_len(a, b) == 0 || 5 * edit_distance(a, b) < max_len(a, b)
}

/// The first group, among `groups`, whose first member is alike to `x`; -1 where none is.
pub open spec fn first_alike(names: Seq<Seq<char>>, groups: Seq<Seq<usize>>, x: Seq<char>) -> int
    decreases groups.len(),
{
    if groups.len() == 0 {
        -1
    } else {
        let g = first_alike(names, groups.drop_last(), x);
        if g >= 0 {
            g
        } else if similar(names[groups.last()[0] as int], x) {
            groups.len() - 1
        } else {
            -1
        }
    }
}

/// The groups, as indices into `names`, after the first `n` names have been
/// placed: each name joins the first group whose first member is alike to
/// it, or else starts a group of its own.
pub open spec fn grouping(names: Seq<Seq<char>>, n: nat) -> Seq<Seq<usize>>
    decreases n,
{
    if n == 0 {
        Seq::empty()
    } else {
        let gs = grouping(names, (n - 1) as nat);
        let g = first_alike(names, gs, names[n - 1]);
        if g >= 0 {
            gs.update(g, gs[g].push((n - 1) as usize))
        } else {
            gs.push(seq![(n - 1) as usize])
        }
    }
}

/// The names as character sequences.
pub open spec fn names_view(names: Seq<String>) -> Seq<Seq<char>> {
    names.map_values(|s: String| s@)
}

/// The groups as sequences of indices.
pub open spec fn groups_view(groups: Seq<Vec<usize>>) -> Seq<Seq<usize>> {
    groups.map_values(|g: Vec<usize>| g@)
}

proof fn lemma_edit_distance_bound(a: Seq<char>, b: Seq<char>)
    ensures
        edit_distance(a, b) <= max_len(a, b),
    decreases a.len() + b.len(),
{
    if a.len() > 0 && b.len() > 0 {
        lemma_edit_distance_bound(a.drop_last(), b.drop_last());
    }
}

proof fn lemma_first_alike(names: Seq<Seq<char>>, groups: Seq<Seq<usize>>, x: Seq<char>)
    ensures
        -1 <= first_alike(names, groups, x) < groups.len(),
        first_alike(names, groups, x) >= 0 ==> similar(
            names[groups[first_alike(names, groups, x)][0] as int],
            x,
        ),
        forall|h: int|
            0 <= h < groups.len() && (first_alike(names, groups, x) < 0 || h < first_alike(
                names,
                groups,
                x,
            )) ==> !similar(names[#[trigger] groups[h][0] as int], x),
    decreases groups.len(),
{
    if groups.len() > 0 {
        lemma_first_alike(names, groups.drop_last(), x);
        assert(forall|h: int| 0 <= h < groups.len() - 1 ==> groups.drop_last()[h] == groups[h]);
    }
}

proof fn lemma_grouping_shape(names: Seq<Seq<char>>, n: nat)
    ensures
        forall|g: int| 0 <= g < grouping(names, n).len() ==> #[trigger] grouping(names, n)[g].len() > 0,
        forall|g: int, k: int| 0 <= g < grouping(names, n).len() && 0 <= k < grouping(names, n)[g].len()
            ==> #[trigger] grouping(names, n)[g][k] < n,
    decreases n,
{
    if n > 0 {
        lemma_grouping_shape(names, (n - 1) as nat);
        let gs = grouping(names, (n - 1) as nat);
        lemma_first_alike(names, gs, names[n - 1]);
        let g = first_alike(names, gs, names[n - 1]);
        if g >= 0 {
            assert(forall|k: int| 0 <= k < gs[g].len() ==> gs[g].push((n - 1) as usize)[k] == gs[g][k]);
        }
    }
}

/// Greedy placement: the name at index `n` joins the first group, among
/// those that the names before it formed, whose first member is alike to
/// it; where no first member is alike, it starts a new group of its own.
/// Members only ever join at the end, and a group's first member never
/// changes, so the outcome depends on the listing order.
pub proof fn lemma_greedy_placement(names: Seq<Seq<char>>, n: nat)
    requires
        n < names.len(),
    ensures
        forall|g: int|
            0 <= g < grouping(names, n).len()
            && similar(names[grouping(names, n)[g][0] as int], names[n as int])
            && (forall|h: int| 0 <= h < g ==> !similar(names[#[trigger] grouping(names, n)[h][0] as int], names[n as int]))
            ==> grouping(names, n + 1) == grouping(names, n).update(g, grouping(names, n)[g].push(n as usize)),
        (forall|g: int| 0 <= g < grouping(names, n).len()
            ==> !similar(names[#[trigger] grouping(names, n)[g][0] as int], names[n as int]))
            ==> grouping(names, n + 1) == grouping(names, n).push(seq![n as usize]),
{
    let gs = grouping(names, n);
    lemma_first_alike(names, gs, names[n as int]);
    assert(grouping(names, n + 1) == {
        let g = first_alike(names, gs, names[n as int]);
        if g >= 0 {
            gs.update(g, gs[g].push(n as usize))
        } else {
            gs.push(seq![n as usize])
        }
    });
}

/// The edit distance of two character sequences.
pub fn edit_distance_of(a: &Vec<char>, b: &Vec<char>) -> (d: usize)
    ensures
        d == edit_distance(a@, b@),
{
    let n = b.len();
    let mut prev: Vec<usize> = Vec::new();
    prev.push(0);
    let mut j: usize = 0;
    assert(a@.take(0) =~= Seq::<char>::empty());
    while j < n
        invariant
            n == b@.len(),
            j <= n,
            prev@.len() == j + 1,
            forall|k: int| 0 <= k <= j ==> prev@[k] == edit_distance(a@.take(0), b@.take(k)),
        decreases n - j,
    {
        prev.push(j + 1);
        j = j + 1;
    }
    assert(prev.len() == n + 1);
    let alen = a.len();
    let mut i: usize = 0;
    while i < alen
        invariant
            alen == a@.len(),
            n == b@.len(),
            n < usize::MAX,
            i <= a@.len(),
            prev@.len() == n + 1,
            forall|k: int| 0 <= k <= n ==> prev@[k] == edit_distance(a@.take(i as int), b@.take(k)),
        decreases a@.len() - i,
    {
        let ghost ai = a@.take(i as int);
        let ghost an = a@.take(i + 1);
        assert(an.drop_last() =~= ai);
        assert(b@.take(0) =~= Seq::<char>::empty());
        let mut cur: Vec<usize> = Vec::new();
        cur.push(i + 1);
        let mut j: usize = 0;
        while j < n
            invariant
                n == b@.len(),
                n < usize::MAX,
                alen == a@.len(),
                i < alen,
                ai == a@.take(i as int),
                an == a@.take(i + 1),
                an.drop_last() == ai,
                prev@.len() == n + 1,
                forall|k: int| 0 <= k <= n ==> prev@[k] == edit_distance(ai, b@.take(k)),
                j <= n,
                cur@.len() == j + 1,
                forall|k: int| 0 <= k <= j ==> cur@[k] == edit_distance(an, b@.take(k)),
            decreases n - j,
        {
            let ghost bj = b@.take(j as int);
            let ghost bn = b@.take(j + 1);
            assert(bn.drop_last() =~= bj);
            proof {
                lemma_edit_distance_bound(ai, bn);
                lemma_edit_distance_bound(an, bj);
                lemma_edit_distance_bound(ai, bj);
            }
            let up = prev[j + 1];
            let left = cur[j];
            let best = if up <= left { up } else { left };
            let cost: usize = if a[i] == b[j] { 0 } else { 1 };
            let diag = prev[j] + cost;
            let v = if best + 1 <= diag { best + 1 } else { diag };
            cur.push(v);
            j = j + 1;
        }
        prev = cur;
        i = i + 1;
    }
    assert(a@.take(a@.len() as int) =~= a@);
    assert(b@.take(n as int) =~= b@);
    prev[n]
}

/// Whether two names are alike (see `similar`).
pub fn names_alike(a: &Vec<char>, b: &Vec<char>) -> (r: bool)
    ensures
        r == similar(a@, b@),
{
    let m = if a.len() >= b.len() { a.len() } else { b.len() };
    if m == 0 {
        return true;
    }
    let d = edit_distance_of(a, b);
    d <= (m - 1) / 5
}

/// Partitions `names`, in listing order, into groups of alike names. Each
/// name is compared with the first member of each existing group only, and
/// joins the first group whose first member is alike; otherwise it starts a
/// new group. The result holds indices into `names`.
pub fn group_names(names: &Vec<String>) -> (r: Vec<Vec<usize>>)
    ensures
        groups_view(r@) == grouping(names_view(names@), names@.len()),
        forall|g: int| 0 <= g < r@.len() ==> (#[trigger] r@[g])@.len() > 0,
        forall|g: int, k: int| 0 <= g < r@.len() && 0 <= k < r@[g]@.len() ==> #[trigger] r@[g]@[k] < names@.len(),
{
    let ghost nv = names_view(names@);
    let mut chars: Vec<Vec<char>> = Vec::new();
    let mut groups: Vec<Vec<usize>> = Vec::new();
    let mut i: usize = 0;
    while i < names.len()
        invariant
            nv == names_view(names@),
            i <= names@.len(),
            chars@.len() == i,
            forall|k: int| 0 <= k < i ==> (#[trigger] chars@[k])@ == nv[k],
            groups_view(groups@) == grouping(nv, i as nat),
        decreases names@.len() - i,
    {
        let c = char_vec(names[i].as_str());
        chars.push(c);
        let ghost gs = groups_view(groups@);
        proof {
            lemma_grouping_shape(nv, i as nat);
            lemma_first_alike(nv, gs, nv[i as int]);
        }
        let mut g: usize = 0;
        let mut found = false;
        while g < groups.len() && !found
            invariant
                nv == names_view(names@),
                i < names@.len(),
                chars@.len() == i + 1,
                forall|k: int| 0 <= k <= i ==> (#[trigger] chars@[k])@ == nv[k],
                gs == groups_view(groups@),
                gs == grouping(nv, i as nat),
                forall|h: int| 0 <= h < gs.len() ==> #[trigger] gs[h].len() > 0,
                forall|h: int, k: int| 0 <= h < gs.len() && 0 <= k < gs[h].len() ==> #[trigger] gs[h][k] < i,
                g <= groups@.len(),
                found ==> g < groups@.len() && first_alike(nv, gs, nv[i as int]) == g,
                !found ==> forall|h: int| 0 <= h < g ==> !similar(nv[#[trigger] gs[h][0] as int], nv[i as int]),
            decreases groups@.len() - g + if found { 0int } else { 1int },
        {
            assert(gs[g as int] == groups@[g as int]@);
            let rep = groups[g][0];
            if names_alike(&chars[rep], &chars[i]) {
                proof { lemma_first_alike(nv, gs, nv[i as int]); }
                found = true;
            } else {
                g = g + 1;
            }
        }
        if found {
            let mut grp = groups.remove(g);
            grp.push(i);
            groups.insert(g, grp);
            assert(groups_view(groups@) =~= gs.update(g as int, gs[g as int].push(i)));
        } else {
            let single = vec![i];
            assert(single@ =~= seq![i]);
            groups.push(single);
            assert(groups_view(groups@) =~= gs.push(seq![i]));
        }
        i = i + 1;
    }
    proof {
        lemma_grouping_shape(nv, names@.len());
        assert forall|g: int| 0 <= g < groups@.len() implies (#[trigger] groups@[g])@.len() > 0 by {
            assert(groups_view(groups@)[g] == groups@[g]@);
        }
        assert forall|g: int, k: int| 0 <= g < groups@.len() && 0 <= k < groups@[g]@.len()
            implies #[trigger] groups@[g]@[k] < names@.len() by {
            assert(groups_view(groups@)[g] == groups@[g]@);
        }
    }
    groups
}

} // verus!
