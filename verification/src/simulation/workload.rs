//! An ordered collection of tasks submitted as one unit.

use vstd::prelude::*;
use vstd::seq_lib::lemma_multiset_commutative;
use crate::ids::IdGenerator;
use crate::simulation::task::Task;

verus! {

/// Largest number of tasks one workload may hold; together with the task
/// size cap this keeps the exact integer cost model free of overflow.
pub const MAX_WORKLOAD_TASKS: usize = 100_000;

pub struct Workload {
    pub id: usize,
    pub tasks: Vec<Task>,
}

/// Tasks of `s` are sorted by instruction count, largest first.
pub open spec fn sorted_by_descending_instructions(s: Seq<Task>) -> bool {
    forall|a: int, b: int|
        0 <= a < b < s.len() ==> s[a].millions_of_instructions >= s[b].millions_of_instructions
}

impl Workload {
    /// Bounded, well-formed tasks with dense ids: the task at position `i`
    /// carries id `i`, and every contained task is bound to this workload.
    pub open spec fn wf(self) -> bool {
        &&& self.tasks@.len() <= MAX_WORKLOAD_TASKS
        &&& forall|i: int| 0 <= i < self.tasks@.len() ==> (#[trigger] self.tasks@[i]).wf()
        &&& forall|i: int| 0 <= i < self.tasks@.len() ==> (#[trigger] self.tasks@[i]).id == i
        &&& forall|i: int|
            0 <= i < self.tasks@.len() ==> (#[trigger] self.tasks@[i]).workload_id == self.id
    }

    pub fn new(gen: &mut IdGenerator) -> (w: Workload)
        requires
            old(gen).next_id < usize::MAX,
        ensures
            w.id == old(gen).next_id,
            final(gen).next_id == old(gen).next_id + 1,
            w.tasks@.len() == 0,
            w.wf(),
    {
        Workload { id: gen.next(), tasks: Vec::new() }
    }

    /// Appends a task, binding it to this workload.
    pub fn add_task(&mut self, t: Task) -> (nothing: ())
        requires
            old(self).tasks@.len() < MAX_WORKLOAD_TASKS,
        ensures
            final(self).id == old(self).id,
            final(self).tasks@ == old(self).tasks@.push(
                Task { workload_id: old(self).id, ..t },
            ),
    {
        let bound = Task { workload_id: self.id, ..t };
        self.tasks.push(bound);
    }

    /// The workload's tasks in descending instruction-count order; the
    /// result is a rearrangement of the tasks (same multiset).
    pub fn get_sorted_tasks(&self) -> (r: Vec<Task>)
        ensures
            r@.len() == self.tasks@.len(),
            r@.to_multiset() == self.tasks@.to_multiset(),
            sorted_by_descending_instructions(r@),
    {
        let n = self.tasks.len();
        let mut out: Vec<Task> = Vec::new();
        let mut i: usize = 0;
        proof {
            assert(self.tasks@.subrange(0, 0) =~= Seq::<Task>::empty());
            out@.to_multiset_ensures();
            self.tasks@.subrange(0, 0).to_multiset_ensures();
        }
        while i < n
            invariant
                self.tasks@.len() == n,
                i <= n,
                out@.len() == i,
                out@.to_multiset() == self.tasks@.subrange(0, i as int).to_multiset(),
                sorted_by_descending_instructions(out@),
            decreases n - i,
        {
            let t = self.tasks[i];
            let mut p: usize = 0;
            while p < i && self.mi_at_least(&out, p, t.millions_of_instructions)
                invariant
                    out@.len() == i,
                    p <= i,
                    forall|k: int|
                        0 <= k < p ==> (#[trigger] out@[k]).millions_of_instructions
                            >= t.millions_of_instructions,
                decreases i - p,
            {
                p = p + 1;
            }
            let ghost pre = out@;
            out.insert(p, t);
            proof {
                lemma_insert_to_multiset(pre, p as int, t);
                assert(self.tasks@.subrange(0, i + 1) =~= self.tasks@.subrange(0, i as int).push(
                    self.tasks@[i as int],
                ));
                self.tasks@.subrange(0, i as int).to_multiset_ensures();
                assert(out@.to_multiset() =~= self.tasks@.subrange(0, i + 1).to_multiset());
                assert forall|a: int, b: int|
                    0 <= a < b < out@.len() implies (#[trigger] out@[a]).millions_of_instructions
                    >= (#[trigger] out@[b]).millions_of_instructions by {
                    if a < p && b > p {
                        assert(out@[b] == pre[b - 1]);
                    }
                    if a == p && b > p {
                        assert(out@[b] == pre[b - 1]);
                        if p < i {
                            assert(pre[p as int].millions_of_instructions
                                >= pre[b - 1].millions_of_instructions);
                        }
                    }
                }
            }
            i = i + 1;
        }
        proof {
            assert(self.tasks@.subrange(0, n as int) =~= self.tasks@);
        }
        out
    }

    /// True when `out[p]` has at least `mi` instructions.
    fn mi_at_least(&self, out: &Vec<Task>, p: usize, mi: u32) -> (r: bool)
        requires
            p < out@.len(),
        ensures
            r == (out@[p as int].millions_of_instructions >= mi),
    {
        out[p].millions_of_instructions >= mi
    }
}

/// Sum of `f` over the first `n` tasks of `s`.
pub open spec fn tasks_sum_upto(s: Seq<Task>, f: spec_fn(Task) -> int, n: int) -> int
    decreases n,
{
    if n <= 0 {
        0
    } else {
        tasks_sum_upto(s, f, n - 1) + f(s[n - 1])
    }
}

/// Sum of `f` over all tasks of `s`.
pub open spec fn tasks_sum(s: Seq<Task>, f: spec_fn(Task) -> int) -> int {
    tasks_sum_upto(s, f, s.len() as int)
}

/// The instruction count of a task, as a summable quantity.
pub open spec fn task_mi_of() -> spec_fn(Task) -> int {
    |t: Task| t.millions_of_instructions as int
}

/// Total millions of instructions over a task sequence.
pub open spec fn tasks_total_mi(s: Seq<Task>) -> int {
    tasks_sum(s, task_mi_of())
}

/// The sum depends only on the first `n` entries.
proof fn lemma_tasks_sum_congruence(a: Seq<Task>, b: Seq<Task>, f: spec_fn(Task) -> int, n: int)
    requires
        forall|k: int| 0 <= k < n ==> #[trigger] a[k] == b[k],
    ensures
        tasks_sum_upto(a, f, n) == tasks_sum_upto(b, f, n),
    decreases n,
{
    if n > 0 {
        lemma_tasks_sum_congruence(a, b, f, n - 1);
    }
}

/// The sum is unchanged when `f` agrees on the first `n` entries.
pub proof fn lemma_tasks_sum_fn_congruence(
    s: Seq<Task>,
    f: spec_fn(Task) -> int,
    g: spec_fn(Task) -> int,
    n: int,
)
    requires
        forall|k: int| 0 <= k < n ==> f(#[trigger] s[k]) == g(s[k]),
    ensures
        tasks_sum_upto(s, f, n) == tasks_sum_upto(s, g, n),
    decreases n,
{
    if n > 0 {
        lemma_tasks_sum_fn_congruence(s, f, g, n - 1);
    }
}

/// Removing one task takes exactly its contribution out of the sum.
proof fn lemma_tasks_sum_remove(s: Seq<Task>, f: spec_fn(Task) -> int, i: int)
    requires
        0 <= i < s.len(),
    ensures
        tasks_sum(s, f) == tasks_sum(s.remove(i), f) + f(s[i]),
    decreases s.len(),
{
    let len = s.len() as int;
    if i == len - 1 {
        assert forall|k: int| 0 <= k < len - 1 implies #[trigger] s.remove(i)[k] == s[k] by {}
        lemma_tasks_sum_congruence(s.remove(i), s, f, len - 1);
    } else {
        let s2 = s.subrange(0, len - 1);
        let t = s.remove(i);
        assert forall|k: int| 0 <= k < len - 1 implies #[trigger] s2[k] == s[k] by {}
        lemma_tasks_sum_congruence(s2, s, f, len - 1);
        lemma_tasks_sum_remove(s2, f, i);
        assert forall|k: int| 0 <= k < len - 2 implies #[trigger] t[k] == s2.remove(i)[k] by {}
        lemma_tasks_sum_congruence(t, s2.remove(i), f, len - 2);
        assert(t[len - 2] == s[len - 1]);
        assert(tasks_sum(t, f) == tasks_sum_upto(t, f, len - 2) + f(t[len - 2]));
    }
}

/// Rearranging a task sequence does not change the sum of `f` over it.
pub proof fn lemma_tasks_sum_permutation(a: Seq<Task>, b: Seq<Task>, f: spec_fn(Task) -> int)
    requires
        a.to_multiset() == b.to_multiset(),
    ensures
        tasks_sum(a, f) == tasks_sum(b, f),
    decreases a.len(),
{
    broadcast use vstd::seq_lib::group_to_multiset_ensures;

    a.to_multiset_ensures();
    b.to_multiset_ensures();
    if a.len() == 0 {
        assert(b.len() == 0);
    } else {
        let la = a.len() - 1;
        let x = a[la as int];
        assert(a.contains(x));
        assert(b.to_multiset().count(x) > 0);
        assert(b.contains(x));
        let i = choose|i: int| 0 <= i < b.len() && b[i] == x;
        assert(a.remove(la as int).to_multiset() =~= a.to_multiset().remove(x));
        assert(b.remove(i).to_multiset() =~= b.to_multiset().remove(x));
        lemma_tasks_sum_permutation(a.remove(la as int), b.remove(i), f);
        lemma_tasks_sum_remove(a, f, la as int);
        lemma_tasks_sum_remove(b, f, i);
    }
}

/// Inserting an element anywhere adds exactly it to the sequence's multiset.
proof fn lemma_insert_to_multiset(s: Seq<Task>, i: int, x: Task)
    requires
        0 <= i <= s.len(),
    ensures
        s.insert(i, x).to_multiset() =~= s.to_multiset().insert(x),
{
    broadcast use vstd::multiset::group_multiset_axioms;

    let s0 = s.subrange(0, i);
    let s1 = s.subrange(i, s.len() as int);
    assert(s.insert(i, x) =~= s0.push(x) + s1);
    assert(s =~= s0 + s1);
    lemma_multiset_commutative(s0.push(x), s1);
    lemma_multiset_commutative(s0, s1);
    s0.to_multiset_ensures();
    assert(s0.push(x).to_multiset() =~= s0.to_multiset().insert(x));
    assert(s0.to_multiset().insert(x).add(s1.to_multiset()) =~= s0.to_multiset().add(
        s1.to_multiset(),
    ).insert(x));
}

} // verus!
