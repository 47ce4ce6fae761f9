//! Grouping items by a text key, the groups in ascending key order (the order
//! of Rust's `String`, i.e. by code point) and the items of a group in their
//! original order.

use vstd::prelude::*;

verus! {

/// Lexicographic order of texts by code point.
pub open spec fn lex_lt(a: Seq<char>, b: Seq<char>) -> bool
    decreases a.len(),
{
    if a.len() == 0 {
        b.len() > 0
    } else if b.len() == 0 {
        false
    } else if a[0] != b[0] {
        a[0] < b[0]
    } else {
        lex_lt(a.drop_first(), b.drop_first())
    }
}

pub proof fn lemma_lex_irreflexive(a: Seq<char>)
    ensures
        !lex_lt(a, a),
    decreases a.len(),
{
    if a.len() > 0 {
        lemma_lex_irreflexive(a.drop_first());
    }
}

pub proof fn lemma_lex_total(a: Seq<char>, b: Seq<char>)
    ensures
        lex_lt(a, b) || a == b || lex_lt(b, a),
    decreases a.len(),
{
    if a.len() > 0 && b.len() > 0 && a[0] == b[0] {
        lemma_lex_total(a.drop_first(), b.drop_first());
        if a.drop_first() == b.drop_first() {
            assert(a =~= seq![a[0]] + a.drop_first());
            assert(b =~= seq![b[0]] + b.drop_first());
        }
    } else if a.len() == 0 && b.len() == 0 {
        assert(a =~= b);
    }
}

pub proof fn lemma_lex_transitive(a: Seq<char>, b: Seq<char>, c: Seq<char>)
    requires
        lex_lt(a, b),
        lex_lt(b, c),
    ensures
        lex_lt(a, c),
    decreases a.len(),
{
    if a.len() > 0 && b.len() > 0 && c.len() > 0 && a[0] == b[0] && b[0] == c[0] {
        lemma_lex_transitive(a.drop_first(), b.drop_first(), c.drop_first());
    }
}

pub proof fn lemma_lex_asymmetric(a: Seq<char>, b: Seq<char>)
    requires
        lex_lt(a, b),
    ensures
        !lex_lt(b, a),
{
    if lex_lt(b, a) {
        lemma_lex_transitive(a, b, a);
        lemma_lex_irreflexive(a);
    }
}

/// Compares two texts: -1, 0 or 1 as `a` comes before, equals, or comes after `b`.
pub fn compare_text(a: &[char], b: &[char]) -> (r: i8)
    ensures
        r == -1 <==> lex_lt(a@, b@),
        r == 0 <==> a@ == b@,
        r == 1 <==> lex_lt(b@, a@),
        -1 <= r <= 1,
{
    let n = a.len();
    let m = b.len();
    let mut i: usize = 0;
    proof {
        assert(a@.skip(0) =~= a@);
        assert(b@.skip(0) =~= b@);
        assert(a@.take(0) =~= b@.take(0));
    }
    while i < n && i < m && a[i] == b[i]
        invariant
            n == a@.len(),
            m == b@.len(),
            i <= n,
            i <= m,
            a@.take(i as int) == b@.take(i as int),
            lex_lt(a@, b@) == lex_lt(a@.skip(i as int), b@.skip(i as int)),
            lex_lt(b@, a@) == lex_lt(b@.skip(i as int), a@.skip(i as int)),
        decreases n - i,
    {
        proof {
            assert(a@.skip(i as int).drop_first() =~= a@.skip(i as int + 1));
            assert(b@.skip(i as int).drop_first() =~= b@.skip(i as int + 1));
            assert(a@.take(i as int + 1) =~= a@.take(i as int).push(a@[i as int]));
            assert(b@.take(i as int + 1) =~= b@.take(i as int).push(b@[i as int]));
        }
        i = i + 1;
    }
    proof {
        lemma_lex_irreflexive(a@);
        lemma_lex_total(a@, b@);
    }
    if i == n && i == m {
        proof {
            assert(a@ =~= a@.take(i as int));
            assert(b@ =~= b@.take(i as int));
        }
        0
    } else if i == n {
        proof {
            assert(a@.skip(i as int).len() == 0);
            if a@ == b@ {
                assert(a@.len() == b@.len());
            }
            lemma_lex_asymmetric(a@, b@);
        }
        -1
    } else if i == m {
        proof {
            assert(b@.skip(i as int).len() == 0);
            if a@ == b@ {
                assert(a@.len() == b@.len());
            }
            lemma_lex_asymmetric(b@, a@);
        }
        1
    } else if a[i] < b[i] {
        proof {
            assert(a@.skip(i as int)[0] == a@[i as int]);
            assert(b@.skip(i as int)[0] == b@[i as int]);
            if a@ == b@ {
                assert(a@[i as int] == b@[i as int]);
            }
            lemma_lex_asymmetric(a@, b@);
        }
        -1
    } else {
        proof {
            assert(a@.skip(i as int)[0] == a@[i as int]);
            assert(b@.skip(i as int)[0] == b@[i as int]);
            if a@ == b@ {
                assert(a@[i as int] == b@[i as int]);
            }
            lemma_lex_asymmetric(b@, a@);
        }
        1
    }
}

/// One group: its key and the positions of its items.
pub struct Group {
    pub key: Vec<char>,
    pub members: Vec<usize>,
}

/// Position `i` belongs to some group.
pub open spec fn covered(groups: Seq<(Seq<char>, Seq<usize>)>, i: int) -> bool {
    exists|g: int, x: int| 0 <= g < groups.len() && 0 <= x < groups[g].1.len() && #[trigger] groups[g].1[x] == i
}

/// Whether `groups` is the grouping of `keys`: keys strictly ascending, each
/// group's positions ascending and holding exactly the items of its key.
pub open spec fn is_grouping(groups: Seq<(Seq<char>, Seq<usize>)>, keys: Seq<Seq<char>>) -> bool {
    &&& forall|g: int, h: int| 0 <= g < h < groups.len() ==> lex_lt(#[trigger] groups[g].0, #[trigger] groups[h].0)
    &&& forall|g: int, x: int, y: int| 0 <= g < groups.len() && 0 <= x < y < groups[g].1.len()
        ==> #[trigger] groups[g].1[x] < #[trigger] groups[g].1[y]
    &&& forall|g: int, x: int| 0 <= g < groups.len() && 0 <= x < groups[g].1.len()
        ==> (#[trigger] groups[g].1[x]) < keys.len() && keys[groups[g].1[x] as int] == groups[g].0
    &&& forall|i: int| 0 <= i < keys.len() ==> #[trigger] covered(groups, i)
    &&& forall|g: int| 0 <= g < groups.len() ==> (#[trigger] groups[g]).1.len() > 0
}

pub open spec fn groups_view(v: Seq<Group>) -> Seq<(Seq<char>, Seq<usize>)> {
    v.map_values(|g: Group| (g.key@, g.members@))
}

/// Groups positions `0..keys.len()` by their key.
pub fn group_by_key(keys: &Vec<Vec<char>>) -> (r: Vec<Group>)
    ensures
        is_grouping(groups_view(r@), keys@.map_values(|k: Vec<char>| k@)),
{
    let ghost ks = keys@.map_values(|k: Vec<char>| k@);
    let n = keys.len();
    let mut groups: Vec<Group> = Vec::new();
    let mut i: usize = 0;
    while i < n
        invariant
            n == keys@.len(),
            ks == keys@.map_values(|k: Vec<char>| k@),
            i <= n,
            is_grouping(groups_view(groups@), ks.take(i as int)),
        decreases n - i,
    {
        let key = &keys[i];
        let ghost gv = groups_view(groups@);
        let ghost ki = ks[i as int];
        assert(key@ == ki);
        let gn = groups.len();
        let mut p: usize = 0;
        let mut c: i8 = 1;
        while p < gn
            invariant
                gn == groups@.len(),
                gv == groups_view(groups@),
                key@ == ki,
                p <= gn,
                forall|g: int| 0 <= g < p ==> lex_lt(#[trigger] gv[g].0, ki),
                p < gn ==> true,
            ensures
                p == gn || (c <= 0 && !lex_lt(gv[p as int].0, ki)),
                forall|g: int| 0 <= g < p ==> lex_lt(#[trigger] gv[g].0, ki),
                c <= 0 && p < gn ==> (c == 0 <==> gv[p as int].0 == ki),
            decreases gn - p,
        {
            c = compare_text(groups[p].key.as_slice(), key.as_slice());
            proof {
                assert(gv[p as int].0 == groups@[p as int].key@);
            }
            if c >= 0 {
                proof {
                    if c == 0 {
                        lemma_lex_irreflexive(ki);
                    } else {
                        lemma_lex_asymmetric(ki, gv[p as int].0);
                    }
                }
                c = if c == 0 { 0 } else { -1 };
                break;
            }
            p = p + 1;
        }
        proof {
            assert(ks.take(i as int + 1) =~= ks.take(i as int).push(ki));
        }
        if p < gn && c == 0 {
            let mut g = groups.remove(p);
            g.members.push(i);
            groups.insert(p, g);
            proof {
                let nv = groups_view(groups@);
                let kk = ks.take(i as int + 1);
                assert forall|h: int| 0 <= h < nv.len() && h != p implies #[trigger] nv[h] == gv[h] by {}
                assert(nv[p as int].0 == gv[p as int].0);
                assert(nv[p as int].1 =~= gv[p as int].1.push(i));
                assert forall|j: int| 0 <= j < kk.len() implies #[trigger] covered(nv, j) by {
                    if j == i {
                        assert(nv[p as int].1[nv[p as int].1.len() - 1] == j);
                    } else {
                        assert(covered(gv, j));
                        let (g0, x0) = choose|g: int, x: int| 0 <= g < gv.len() && 0 <= x < gv[g].1.len() && #[trigger] gv[g].1[x] == j;
                        if g0 == p {
                            assert(nv[g0].1[x0] == j);
                        } else {
                            assert(nv[g0].1[x0] == j);
                        }
                    }
                }
                assert forall|g: int, x: int| 0 <= g < nv.len() && 0 <= x < nv[g].1.len()
                    implies (#[trigger] nv[g].1[x]) < kk.len() && kk[nv[g].1[x] as int] == nv[g].0 by {
                    if g == p && x == nv[g].1.len() - 1 {
                    } else {
                        assert(nv[g].1[x] == gv[g].1[x]);
                    }
                }
                assert forall|g: int, x: int, y: int| 0 <= g < nv.len() && 0 <= x < y < nv[g].1.len()
                    implies #[trigger] nv[g].1[x] < #[trigger] nv[g].1[y] by {
                    if g == p && y == nv[g].1.len() - 1 {
                        assert(nv[g].1[x] == gv[g].1[x]);
                        assert(gv[g].1[x] < i);
                    }
                }
                assert(is_grouping(nv, kk));
            }
        } else {
            let mut members: Vec<usize> = Vec::new();
            members.push(i);
            let ng = Group { key: key.clone(), members };
            groups.insert(p, ng);
            proof {
                let nv = groups_view(groups@);
                let kk = ks.take(i as int + 1);
                if p < gn {
                    lemma_lex_total(gv[p as int].0, ki);
                }
                assert forall|h: int| p <= h < gn implies lex_lt(ki, #[trigger] gv[h].0) by {
                    if h > p {
                        lemma_lex_transitive(ki, gv[p as int].0, gv[h].0);
                    }
                }
                assert(nv[p as int].0 == ki);
                assert(nv[p as int].1 =~= seq![i]);
                assert forall|h: int| 0 <= h < p implies #[trigger] nv[h] == gv[h] by {}
                assert forall|h: int| p < h < nv.len() implies #[trigger] nv[h] == gv[h - 1] by {}
                assert forall|g: int, h: int| 0 <= g < h < nv.len() implies lex_lt(#[trigger] nv[g].0, #[trigger] nv[h].0) by {
                    if h == p {
                    } else if g == p {
                        assert(lex_lt(ki, gv[h - 1].0));
                    } else if g < p && h > p {
                        assert(lex_lt(ki, gv[h - 1].0));
                        lemma_lex_transitive(gv[g].0, ki, gv[h - 1].0);
                    }
                }
                assert forall|j: int| 0 <= j < kk.len() implies #[trigger] covered(nv, j) by {
                    if j == i {
                        assert(nv[p as int].1[0] == j);
                    } else {
                        assert(covered(gv, j));
                        let (g0, x0) = choose|g: int, x: int| 0 <= g < gv.len() && 0 <= x < gv[g].1.len() && #[trigger] gv[g].1[x] == j;
                        if g0 < p {
                            assert(nv[g0].1[x0] == j);
                        } else {
                            assert(nv[g0 + 1].1[x0] == j);
                        }
                    }
                }
                assert forall|g: int, x: int| 0 <= g < nv.len() && 0 <= x < nv[g].1.len()
                    implies (#[trigger] nv[g].1[x]) < kk.len() && kk[nv[g].1[x] as int] == nv[g].0 by {
                    if g < p {
                        assert(nv[g].1[x] == gv[g].1[x]);
                    } else if g > p {
                        assert(nv[g].1[x] == gv[g - 1].1[x]);
                    }
                }
                assert forall|g: int, x: int, y: int| 0 <= g < nv.len() && 0 <= x < y < nv[g].1.len()
                    implies #[trigger] nv[g].1[x] < #[trigger] nv[g].1[y] by {
                    if g < p {
                        assert(nv[g].1[x] == gv[g].1[x] && nv[g].1[y] == gv[g].1[y]);
                    } else if g > p {
                        assert(nv[g].1[x] == gv[g - 1].1[x] && nv[g].1[y] == gv[g - 1].1[y]);
                    }
                }
                assert forall|g: int| 0 <= g < nv.len() implies (#[trigger] nv[g]).1.len() > 0 by {
                    if g < p {
                        assert(nv[g] == gv[g]);
                    } else if g > p {
                        assert(nv[g] == gv[g - 1]);
                    }
                }
                assert(is_grouping(nv, kk));
            }
        }
        i = i + 1;
    }
    proof {
        assert(ks.take(n as int) =~= ks);
    }
    groups
}

} // verus!
