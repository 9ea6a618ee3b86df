//! Reachability over a directed graph given by an adjacency matrix, as used to
//! find type declarations that contain themselves.
use vstd::prelude::*;

verus! {

/// Each row of the matrix has one entry per node.
pub open spec fn graph_wf(g: Seq<Vec<bool>>) -> bool {
    forall|a: int| 0 <= a < g.len() ==> #[trigger] g[a].len() == g.len()
}

pub open spec fn edge(g: Seq<Vec<bool>>, a: int, b: int) -> bool {
    0 <= a < g.len() && 0 <= b < g.len() && g[a]@[b]
}

/// `p` is a walk of one edge or more.
pub open spec fn is_walk(g: Seq<Vec<bool>>, p: Seq<int>) -> bool {
    p.len() >= 2 && forall|i: int| 0 <= i < p.len() - 1 ==> #[trigger] edge(g, p[i], p[i + 1])
}

/// There is a walk of one edge or more from `a` to `b`.
pub open spec fn reaches(g: Seq<Vec<bool>>, a: int, b: int) -> bool {
    exists|p: Seq<int>| #[trigger] is_walk(g, p) && p[0] == a && p.last() == b
}

/// `s` lies on a cycle.
pub open spec fn on_cycle(g: Seq<Vec<bool>>, s: int) -> bool {
    reaches(g, s, s)
}

pub open spec fn unmarked(m: Seq<bool>) -> nat
    decreases m.len(),
{
    if m.len() == 0 {
        0
    } else {
        unmarked(m.drop_last()) + (if m.last() { 0nat } else { 1nat })
    }
}

proof fn lemma_mark_one(m: Seq<bool>, j: int)
    requires
        0 <= j < m.len(),
        !m[j],
    ensures
        unmarked(m.update(j, true)) + 1 == unmarked(m),
    decreases m.len(),
{
    if j == m.len() - 1 {
        assert(m.update(j, true).drop_last() =~= m.drop_last());
    } else {
        lemma_mark_one(m.drop_last(), j);
        assert(m.update(j, true).drop_last() =~= m.drop_last().update(j, true));
    }
}

proof fn lemma_closed_holds_walk(g: Seq<Vec<bool>>, s: int, marks: Seq<bool>, p: Seq<int>)
    requires
        marks.len() == g.len(),
        forall|b: int| edge(g, s, b) ==> marks[b],
        forall|a: int, b: int| 0 <= a < g.len() && marks[a] && #[trigger] edge(g, a, b) ==> marks[b],
        is_walk(g, p),
        p[0] == s,
    ensures
        0 <= p.last() < g.len() && marks[p.last()],
    decreases p.len(),
{
    let n = p.len() - 2;
    assert(edge(g, p[n], p[n + 1]));
    if p.len() > 2 {
        let q = p.drop_last();
        assert forall|i: int| 0 <= i < q.len() - 1 implies #[trigger] edge(g, q[i], q[i + 1]) by {
            assert(edge(g, p[i], p[i + 1]));
        }
        lemma_closed_holds_walk(g, s, marks, q);
    }
}

/// Marks every node that `s` reaches by one edge or more.
pub fn reachable_from(g: &Vec<Vec<bool>>, s: usize) -> (marks: Vec<bool>)
    requires
        graph_wf(g@),
        s < g.len(),
    ensures
        marks.len() == g.len(),
        forall|j: int| 0 <= j < g.len() ==> (marks@[j] <==> reaches(g@, s as int, j)),
{
    let n = g.len();
    let mut marks: Vec<bool> = Vec::new();
    while marks.len() < n
        invariant
            marks.len() <= n,
            forall|j: int| 0 <= j < marks.len() ==> !marks@[j],
        decreases n - marks.len(),
    {
        marks.push(false);
    }
    let mut x: usize = 0;
    while x < n
        invariant
            graph_wf(g@),
            s < n == g.len() == marks.len(),
            x <= n,
            forall|y: int| 0 <= y < x && edge(g@, s as int, y) ==> marks@[y],
            forall|j: int| 0 <= j < n && marks@[j] ==> reaches(g@, s as int, j),
        decreases n - x,
    {
        assert(g[s as int].len() == n);
        if g[s][x] {
            assert(edge(g@, s as int, x as int));
            assert(is_walk(g@, seq![s as int, x as int]));
            marks.set(x, true);
        }
        x += 1;
    }
    loop
        invariant
            graph_wf(g@),
            s < n == g.len() == marks.len(),
            forall|b: int| edge(g@, s as int, b) ==> marks@[b],
            forall|j: int| 0 <= j < n && marks@[j] ==> reaches(g@, s as int, j),
        decreases unmarked(marks@),
    {
        let ghost start = marks@;
        let mut changed = false;
        let mut i: usize = 0;
        while i < n
            invariant
                graph_wf(g@),
                s < n == g.len() == marks.len() == start.len(),
                i <= n,
                forall|b: int| edge(g@, s as int, b) ==> marks@[b],
                forall|j: int| 0 <= j < n && marks@[j] ==> reaches(g@, s as int, j),
                forall|j: int| 0 <= j < n && start[j] ==> marks@[j],
                changed ==> unmarked(marks@) < unmarked(start),
                !changed ==> marks@ == start,
                !changed ==> forall|a: int, b: int|
                    0 <= a < i && marks@[a] && #[trigger] edge(g@, a, b) ==> marks@[b],
            decreases n - i,
        {
            if marks[i] {
                let ghost w = choose|p: Seq<int>| #[trigger] is_walk(g@, p) && p[0] == s && p.last() == i;
                let mut y: usize = 0;
                while y < n
                    invariant
                        graph_wf(g@),
                        s < n == g.len() == marks.len() == start.len(),
                        i < n,
                        marks@[i as int],
                        is_walk(g@, w) && w[0] == s && w.last() == i,
                        y <= n,
                        forall|b: int| edge(g@, s as int, b) ==> marks@[b],
                        forall|j: int| 0 <= j < n && marks@[j] ==> reaches(g@, s as int, j),
                        forall|j: int| 0 <= j < n && start[j] ==> marks@[j],
                        changed ==> unmarked(marks@) < unmarked(start),
                        !changed ==> marks@ == start,
                        !changed ==> forall|a: int, b: int|
                            0 <= a < i && marks@[a] && #[trigger] edge(g@, a, b) ==> marks@[b],
                        forall|z: int| 0 <= z < y && edge(g@, i as int, z) ==> marks@[z],
                    decreases n - y,
                {
                    assert(g[i as int].len() == n);
                    if g[i][y] && !marks[y] {
                        assert(edge(g@, i as int, y as int));
                        let ghost w2 = w.push(y as int);
                        assert forall|z: int| 0 <= z < w2.len() - 1 implies #[trigger] edge(
                            g@,
                            w2[z],
                            w2[z + 1],
                        ) by {
                            if z < w.len() - 1 {
                                assert(edge(g@, w[z], w[z + 1]));
                            }
                        }
                        assert(is_walk(g@, w2));
                        proof {
                            lemma_mark_one(marks@, y as int);
                        }
                        marks.set(y, true);
                        changed = true;
                    }
                    y += 1;
                }
            }
            i += 1;
        }
        if !changed {
            assert forall|j: int| 0 <= j < n implies (marks@[j] <==> reaches(g@, s as int, j)) by {
                if reaches(g@, s as int, j) {
                    let p = choose|p: Seq<int>| #[trigger] is_walk(g@, p) && p[0] == s && p.last() == j;
                    lemma_closed_holds_walk(g@, s as int, marks@, p);
                }
            }
            return marks;
        }
    }
}

/// Whether `s` lies on a cycle.
pub fn is_on_cycle(g: &Vec<Vec<bool>>, s: usize) -> (r: bool)
    requires
        graph_wf(g@),
        s < g.len(),
    ensures
        r == on_cycle(g@, s as int),
{
    let marks = reachable_from(g, s);
    marks[s]
}

/// The first node that lies on a cycle, if any does.
pub fn first_on_cycle(g: &Vec<Vec<bool>>) -> (r: Option<usize>)
    requires
        graph_wf(g@),
    ensures
        match r {
            Some(s) => s < g.len() && on_cycle(g@, s as int),
            None => forall|s: int| 0 <= s < g.len() ==> !on_cycle(g@, s),
        },
{
    let mut s: usize = 0;
    while s < g.len()
        invariant
            graph_wf(g@),
            s <= g.len(),
            forall|t: int| 0 <= t < s ==> !on_cycle(g@, t),
        decreases g.len() - s,
    {
        if is_on_cycle(g, s) {
            return Some(s);
        }
        s += 1;
    }
    None
}

} // verus!
