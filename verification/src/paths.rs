//! The order in which rollout files are read.
use vstd::prelude::*;

use crate::text::{
    lemma_seq_lt_asymmetric, lemma_seq_lt_irreflexive, lemma_seq_lt_total, lemma_seq_lt_transitive,
    precedence, seq_lt, Precedence,
};

verus! {

/// Whether path `a` comes strictly before path `b`: their components compared in turn, as
/// `Path`'s order compares them.
pub open spec fn path_lt(a: Seq<Seq<char>>, b: Seq<Seq<char>>) -> bool
    decreases a.len(),
{
    if b.len() == 0 {
        false
    } else if a.len() == 0 {
        true
    } else if a[0] != b[0] {
        seq_lt(a[0], b[0])
    } else {
        path_lt(a.drop_first(), b.drop_first())
    }
}

proof fn lemma_path_lt_irreflexive(a: Seq<Seq<char>>)
    ensures
        !path_lt(a, a),
    decreases a.len(),
{
    if a.len() > 0 {
        lemma_path_lt_irreflexive(a.drop_first());
    }
}

proof fn lemma_path_lt_transitive(a: Seq<Seq<char>>, b: Seq<Seq<char>>, c: Seq<Seq<char>>)
    requires
        path_lt(a, b),
        path_lt(b, c),
    ensures
        path_lt(a, c),
    decreases a.len(),
{
    if a.len() > 0 && b.len() > 0 && c.len() > 0 {
        if a[0] == b[0] && b[0] == c[0] {
            lemma_path_lt_transitive(a.drop_first(), b.drop_first(), c.drop_first());
        } else if a[0] == b[0] {
        } else if b[0] == c[0] {
        } else {
            lemma_seq_lt_transitive(a[0], b[0], c[0]);
            if a[0] == c[0] {
                lemma_seq_lt_asymmetric(a[0], b[0]);
            }
        }
    }
}

proof fn lemma_path_lt_total(a: Seq<Seq<char>>, b: Seq<Seq<char>>)
    ensures
        a == b || path_lt(a, b) || path_lt(b, a),
    decreases a.len(),
{
    if a.len() > 0 && b.len() > 0 {
        if a[0] == b[0] {
            lemma_path_lt_total(a.drop_first(), b.drop_first());
            if a.drop_first() == b.drop_first() {
                assert(a =~= seq![a[0]] + a.drop_first());
                assert(b =~= seq![b[0]] + b.drop_first());
            }
        } else {
            lemma_seq_lt_total(a[0], b[0]);
        }
    } else if a.len() == 0 && b.len() == 0 {
        assert(a =~= b);
    }
}

proof fn lemma_path_lt_asymmetric(a: Seq<Seq<char>>, b: Seq<Seq<char>>)
    requires
        path_lt(a, b),
    ensures
        !path_lt(b, a),
{
    if path_lt(b, a) {
        lemma_path_lt_transitive(a, b, a);
        lemma_path_lt_irreflexive(a);
    }
}

/// The value of a path given as its components.
pub open spec fn path_view(p: Vec<String>) -> Seq<Seq<char>> {
    p@.map_values(|s: String| s@)
}

proof fn lemma_path_lt_skip(a: Seq<Seq<char>>, b: Seq<Seq<char>>, n: int)
    requires
        0 <= n <= a.len(),
        n <= b.len(),
        a.take(n) == b.take(n),
    ensures
        path_lt(a, b) == path_lt(a.skip(n), b.skip(n)),
    decreases n,
{
    if n > 0 {
        assert(a[0] == a.take(n)[0] && b[0] == b.take(n)[0]);
        assert(a.drop_first().take(n - 1) =~= a.take(n).drop_first());
        assert(b.drop_first().take(n - 1) =~= b.take(n).drop_first());
        lemma_path_lt_skip(a.drop_first(), b.drop_first(), n - 1);
        assert(a.drop_first().skip(n - 1) =~= a.skip(n));
        assert(b.drop_first().skip(n - 1) =~= b.skip(n));
    } else {
        assert(a.skip(0) =~= a);
        assert(b.skip(0) =~= b);
    }
}

/// Compares two paths given as their components.
pub fn path_precedence(a: &Vec<String>, b: &Vec<String>) -> (r: Precedence)
    ensures
        r == Precedence::Same <==> path_view(*a) == path_view(*b),
        r == Precedence::Before <==> path_lt(path_view(*a), path_view(*b)),
        r == Precedence::After <==> path_lt(path_view(*b), path_view(*a)),
{
    let ghost va = path_view(*a);
    let ghost vb = path_view(*b);
    let mut i: usize = 0;
    while i < a.len() && i < b.len() && precedence(a[i].as_str(), b[i].as_str()) == Precedence::Same
        invariant
            i <= a@.len(),
            i <= b@.len(),
            va == path_view(*a),
            vb == path_view(*b),
            va.take(i as int) == vb.take(i as int),
        decreases a@.len() - i,
    {
        assert(va.take(i + 1) =~= va.take(i as int).push(va[i as int]));
        assert(vb.take(i + 1) =~= vb.take(i as int).push(vb[i as int]));
        i = i + 1;
    }
    proof {
        lemma_path_lt_skip(va, vb, i as int);
        lemma_path_lt_skip(vb, va, i as int);
        lemma_path_lt_irreflexive(va);
        lemma_path_lt_total(va, vb);
        if path_lt(va, vb) {
            lemma_path_lt_asymmetric(va, vb);
        }
        if va == vb {
            lemma_path_lt_irreflexive(vb);
        }
    }
    if i == a.len() && i == b.len() {
        proof {
            assert(va =~= va.take(i as int));
            assert(vb =~= vb.take(i as int));
        }
        Precedence::Same
    } else if i == a.len() {
        Precedence::Before
    } else if i == b.len() {
        Precedence::After
    } else {
        let c = precedence(a[i].as_str(), b[i].as_str());
        proof {
            assert(va.skip(i as int)[0] == va[i as int]);
            assert(vb.skip(i as int)[0] == vb[i as int]);
        }
        c
    }
}

/// Whether the paths at `order` are strictly increasing.
pub open spec fn strictly_increasing(paths: Seq<Seq<Seq<char>>>, order: Seq<usize>) -> bool {
    &&& forall|k: int| 0 <= k < order.len() ==> (#[trigger] order[k]) < paths.len()
    &&& forall|k: int, l: int| 0 <= k < l < order.len() ==> path_lt(paths[#[trigger] order[k] as int], paths[#[trigger] order[l] as int])
}

/// Whether path `i` is at some position of `order`.
pub open spec fn placed(paths: Seq<Seq<Seq<char>>>, order: Seq<usize>, i: int) -> bool {
    exists|k: int| 0 <= k < order.len() && paths[#[trigger] order[k] as int] == paths[i]
}

/// Whether each of the first `n` paths is at some position of `order`.
pub open spec fn covers(paths: Seq<Seq<Seq<char>>>, order: Seq<usize>, n: int) -> bool {
    forall|i: int| 0 <= i < n ==> #[trigger] placed(paths, order, i)
}

/// The values of a list of paths.
pub open spec fn paths_view(paths: Seq<Vec<String>>) -> Seq<Seq<Seq<char>>> {
    paths.map_values(|p: Vec<String>| path_view(p))
}

/// The order in which to read rollout files: their paths sorted, each path once. Paths are
/// given as their components; the result holds positions in `paths`.
pub fn sorted_unique_paths(paths: &Vec<Vec<String>>) -> (r: Vec<usize>)
    ensures
        strictly_increasing(paths_view(paths@), r@),
        covers(paths_view(paths@), r@, paths@.len() as int),
{
    let ghost pv = paths_view(paths@);
    let mut order: Vec<usize> = Vec::new();
    let mut i: usize = 0;
    while i < paths.len()
        invariant
            i <= paths@.len(),
            pv == paths_view(paths@),
            strictly_increasing(pv, order@),
            covers(pv, order@, i as int),
        decreases paths@.len() - i,
    {
        let mut pos: usize = 0;
        let mut found = false;
        while pos < order.len()
            invariant_except_break
                !found,
            invariant
                pos <= order@.len(),
                pv == paths_view(paths@),
                i < paths@.len(),
                strictly_increasing(pv, order@),
                forall|k: int| 0 <= k < pos ==> path_lt(pv[#[trigger] order@[k] as int], pv[i as int]),
            ensures
                found ==> pos < order@.len() && pv[order@[pos as int] as int] == pv[i as int],
                !found ==> (pos < order@.len() ==> path_lt(pv[i as int], pv[order@[pos as int] as int])),
            decreases order@.len() - pos,
        {
            assert(pv[order@[pos as int] as int] == path_view(paths@[order@[pos as int] as int]));
            assert(pv[i as int] == path_view(paths@[i as int]));
            let c = path_precedence(&paths[order[pos]], &paths[i]);
            if c == Precedence::Same {
                found = true;
                break;
            } else if c == Precedence::After {
                break;
            }
            pos = pos + 1;
        }
        proof {
            if found {
                assert(pv[order@[pos as int] as int] == pv[i as int]);
            }
        }
        if !found {
            let ghost before = order@;
            proof {
                lemma_after_position(pv, before, pos as int, i as int);
            }
            order.insert(pos, i);
            proof {
                assert forall|k: int, l: int| 0 <= k < l < order@.len() implies path_lt(
                    pv[#[trigger] order@[k] as int],
                    pv[#[trigger] order@[l] as int],
                ) by {
                    if l < pos {
                        assert(order@[k] == before[k] && order@[l] == before[l]);
                    } else if l == pos {
                        assert(order@[k] == before[k]);
                    } else if k < pos {
                        assert(order@[k] == before[k] && order@[l] == before[l - 1]);
                        assert(path_lt(pv[before[k] as int], pv[i as int]));
                        assert(path_lt(pv[i as int], pv[before[l - 1] as int]));
                        lemma_path_lt_transitive(pv[before[k] as int], pv[i as int], pv[before[l - 1] as int]);
                    } else if k == pos {
                        assert(order@[l] == before[l - 1]);
                    } else {
                        assert(order@[k] == before[k - 1] && order@[l] == before[l - 1]);
                    }
                }
                assert forall|j: int| 0 <= j < i + 1 implies #[trigger] placed(pv, order@, j) by {
                    if j == i {
                        assert(order@[pos as int] == i);
                    } else {
                        assert(placed(pv, before, j));
                        let k = choose|k: int| 0 <= k < before.len() && pv[#[trigger] before[k] as int] == pv[j];
                        if k < pos {
                            assert(order@[k] == before[k]);
                        } else {
                            assert(order@[k + 1] == before[k]);
                        }
                    }
                }
            }
        } else {
            proof {
                assert forall|j: int| 0 <= j < i + 1 implies #[trigger] placed(pv, order@, j) by {
                    if j == i {
                        assert(pv[order@[pos as int] as int] == pv[i as int]);
                    }
                }
            }
        }
        i = i + 1;
    }
    order
}

proof fn lemma_after_position(pv: Seq<Seq<Seq<char>>>, order: Seq<usize>, pos: int, i: int)
    requires
        0 <= pos <= order.len(),
        0 <= i < pv.len(),
        strictly_increasing(pv, order),
        forall|k: int| 0 <= k < pos ==> path_lt(pv[#[trigger] order[k] as int], pv[i]),
        pos < order.len() ==> path_lt(pv[i], pv[order[pos] as int]),
    ensures
        forall|k: int| pos <= k < order.len() ==> path_lt(pv[i], pv[#[trigger] order[k] as int]),
{
    assert forall|k: int| pos <= k < order.len() implies path_lt(pv[i], pv[#[trigger] order[k] as int]) by {
        if k > pos {
            assert(path_lt(pv[order[pos] as int], pv[order[k] as int]));
            lemma_path_lt_transitive(pv[i], pv[order[pos] as int], pv[order[k] as int]);
        }
    }
}

} // verus!
