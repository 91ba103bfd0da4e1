//! A queue of tick tasks, drained highest priority first.

use vstd::prelude::*;
use crate::text::string_views;
use vstd::seq_lib::*;
use vstd::multiset::*;

verus! {

/// How urgent a task is; `Critical` outranks `High`, which outranks
/// `Normal`, which outranks `Low`.
#[derive(Debug, Clone, Copy, PartialEq, Eq, PartialOrd, Ord)]
pub enum Priority {
    Low,
    Normal,
    High,
    Critical,
}

impl Priority {
    /// The position of the priority in the order `Low < Normal < High < Critical`.
    pub open spec fn spec_rank(self) -> nat {
        match self {
            Priority::Low => 0,
            Priority::Normal => 1,
            Priority::High => 2,
            Priority::Critical => 3,
        }
    }

    /// The name of the priority, as its debug rendering spells it.
    pub open spec fn spec_name(self) -> Seq<char> {
        match self {
            Priority::Low => seq!['L', 'o', 'w'],
            Priority::Normal => seq!['N', 'o', 'r', 'm', 'a', 'l'],
            Priority::High => seq!['H', 'i', 'g', 'h'],
            Priority::Critical => seq!['C', 'r', 'i', 't', 'i', 'c', 'a', 'l'],
        }
    }

    pub fn name(&self) -> (s: &'static str)
        ensures
            s@ == self.spec_name(),
            *self == Priority::Low ==> s@ == seq!['L', 'o', 'w'],
            *self == Priority::Normal ==> s@ == seq!['N', 'o', 'r', 'm', 'a', 'l'],
            *self == Priority::High ==> s@ == seq!['H', 'i', 'g', 'h'],
            *self == Priority::Critical ==> s@ == seq!['C', 'r', 'i', 't', 'i', 'c', 'a', 'l'],
    {
        proof {
            reveal_strlit("Low");
            reveal_strlit("Normal");
            reveal_strlit("High");
            reveal_strlit("Critical");
        }
        match self {
            Priority::Low => "Low",
            Priority::Normal => "Normal",
            Priority::High => "High",
            Priority::Critical => "Critical",
        }
    }
}

/// Each priority is named as its debug rendering spells it, and the four
/// names differ, so a log line tells the priority of the task it records.
pub proof fn lemma_priority_names(p: Priority, q: Priority)
    ensures
        Priority::Low.spec_name() == seq!['L', 'o', 'w'],
        Priority::Normal.spec_name() == seq!['N', 'o', 'r', 'm', 'a', 'l'],
        Priority::High.spec_name() == seq!['H', 'i', 'g', 'h'],
        Priority::Critical.spec_name() == seq!['C', 'r', 'i', 't', 'i', 'c', 'a', 'l'],
        p != q ==> p.spec_name() != q.spec_name(),
{
    if p != q {
        match (p, q) {
            (Priority::Low, Priority::Normal) | (Priority::Normal, Priority::Low) => {
                assert(p.spec_name().len() != q.spec_name().len());
            },
            (Priority::Normal, Priority::High) | (Priority::High, Priority::Normal) => {
                assert(p.spec_name().len() != q.spec_name().len());
            },
            (Priority::Normal, Priority::Critical) | (Priority::Critical, Priority::Normal) => {
                assert(p.spec_name().len() != q.spec_name().len());
            },
            (Priority::Low, Priority::High) | (Priority::High, Priority::Low) => {
                assert(p.spec_name().len() != q.spec_name().len());
            },
            (Priority::Low, Priority::Critical) | (Priority::Critical, Priority::Low) => {
                assert(p.spec_name().len() != q.spec_name().len());
            },
            (Priority::High, Priority::Critical) | (Priority::Critical, Priority::High) => {
                assert(p.spec_name().len() != q.spec_name().len());
            },
            _ => {},
        }
    }
}

/// The log line of a run task starts with its own priority's name in
/// brackets: `[Critical] ...` for a critical task.
pub proof fn lemma_log_line_names_priority(t: TickTask)
    ensures
        log_line(t).len() == t.priority.spec_name().len() + 3 + t.payload@.len(),
        log_line(t)[0] == '[',
        log_line(t).subrange(1, 1 + t.priority.spec_name().len() as int) == t.priority.spec_name(),
        log_line(t)[1 + t.priority.spec_name().len() as int] == ']',
        t.priority == Priority::Critical ==> log_line(t).subrange(0, 11) == seq![
            '[', 'C', 'r', 'i', 't', 'i', 'c', 'a', 'l', ']', ' ',
        ],
{
    assert(log_line(t).subrange(1, 1 + t.priority.spec_name().len() as int) =~= t.priority.spec_name());
    if t.priority == Priority::Critical {
        assert(log_line(t).subrange(0, 11) =~= seq![
            '[', 'C', 'r', 'i', 't', 'i', 'c', 'a', 'l', ']', ' ',
        ]);
    }
}

/// A unit of work waiting in a [`TickQueue`].
#[derive(Debug)]
pub struct TickTask {
    pub id: String,
    pub priority: Priority,
    pub payload: String,
    pub executed: bool,
}

/// Whether a task has the given priority rank.
pub open spec fn has_rank(r: nat) -> spec_fn(TickTask) -> bool {
    |t: TickTask| t.priority.spec_rank() == r
}

/// The tasks in the order a drain visits them: by priority, highest first,
/// and within one priority in the order they were enqueued.
pub open spec fn priority_order(tasks: Seq<TickTask>) -> Seq<TickTask> {
    tasks.filter(has_rank(3)) + tasks.filter(has_rank(2)) + tasks.filter(has_rank(1))
        + tasks.filter(has_rank(0))
}

/// The tasks that have not run yet.
pub open spec fn pending(tasks: Seq<TickTask>) -> Seq<TickTask> {
    tasks.filter(|t: TickTask| !t.executed)
}

/// A task after it has run.
pub open spec fn executed(t: TickTask) -> TickTask {
    TickTask { executed: true, ..t }
}

/// The tasks, each marked as run.
pub open spec fn mark_all(tasks: Seq<TickTask>) -> Seq<TickTask> {
    tasks.map_values(|t: TickTask| executed(t))
}

/// The payloads of the tasks, in order.
pub open spec fn payloads(tasks: Seq<TickTask>) -> Seq<Seq<char>> {
    tasks.map_values(|t: TickTask| payload_of(t))
}

/// The log lines of the tasks, in order.
pub open spec fn log_lines(tasks: Seq<TickTask>) -> Seq<Seq<char>> {
    tasks.map_values(|t: TickTask| log_line(t))
}

/// The payload of a task.
pub open spec fn payload_of(t: TickTask) -> Seq<char> {
    t.payload@
}

/// The log line written when a task runs: `[<priority>] <payload>`.
pub open spec fn log_line(t: TickTask) -> Seq<char> {
    seq!['['] + t.priority.spec_name() + seq![']', ' '] + t.payload@
}

/// Filtering a sequence with one more element at its end.
proof fn lemma_filter_push<A>(s: Seq<A>, x: A, p: spec_fn(A) -> bool)
    ensures
        s.push(x).filter(p) == if p(x) {
            s.filter(p).push(x)
        } else {
            s.filter(p)
        },
{
    reveal(Seq::filter);
    assert(s.push(x).drop_last() =~= s);
}

/// Filtering twice: a second test implied by the first keeps everything,
/// one excluded by the first keeps nothing.
proof fn lemma_filter_twice<A>(s: Seq<A>, p: spec_fn(A) -> bool, q: spec_fn(A) -> bool)
    ensures
        (forall|x: A| #[trigger] p(x) ==> q(x)) ==> s.filter(p).filter(q) == s.filter(p),
        (forall|x: A| #[trigger] p(x) ==> !q(x)) ==> s.filter(p).filter(q).len() == 0,
    decreases s.len(),
{
    if s.len() > 0 {
        let rest = s.drop_last();
        let x = s.last();
        assert(s =~= rest.push(x));
        lemma_filter_twice(rest, p, q);
        lemma_filter_push(rest, x, p);
        lemma_filter_push(rest.filter(p), x, q);
    }
}

/// The priority order lists the tasks by priority, highest first.
pub proof fn lemma_priority_order_sorted(tasks: Seq<TickTask>)
    ensures
        forall|i: int, j: int|
            0 <= i < j < priority_order(tasks).len() ==> (#[trigger] priority_order(tasks)[i]).priority.spec_rank()
                >= (#[trigger] priority_order(tasks)[j]).priority.spec_rank(),
{
    let a = tasks.filter(has_rank(3));
    let b = tasks.filter(has_rank(2));
    let c = tasks.filter(has_rank(1));
    let d = tasks.filter(has_rank(0));
    broadcast use group_filter_ensures;

    let order = priority_order(tasks);
    assert forall|k: int| 0 <= k < order.len() implies #[trigger] order[k].priority.spec_rank() == (
    if k < a.len() {
        3nat
    } else if k < a.len() + b.len() {
        2nat
    } else if k < a.len() + b.len() + c.len() {
        1nat
    } else {
        0nat
    }) by {
        if k < a.len() {
            assert(order[k] == a[k]);
        } else if k < a.len() + b.len() {
            assert(order[k] == b[k - a.len()]);
        } else if k < a.len() + b.len() + c.len() {
            assert(order[k] == c[k - a.len() - b.len()]);
        } else {
            assert(order[k] == d[k - a.len() - b.len() - c.len()]);
        }
    }
}

/// The priority order holds the same tasks as the queue, each as often.
pub proof fn lemma_priority_order_permutes(tasks: Seq<TickTask>)
    ensures
        priority_order(tasks).to_multiset() == tasks.to_multiset(),
    decreases tasks.len(),
{
    broadcast use group_to_multiset_ensures, lemma_multiset_commutative, group_multiset_axioms;

    if tasks.len() == 0 {
        assert(priority_order(tasks) =~= tasks);
    } else {
        let rest = tasks.drop_last();
        let x = tasks.last();
        assert(tasks =~= rest.push(x));
        lemma_priority_order_permutes(rest);
        lemma_filter_push(rest, x, has_rank(3));
        lemma_filter_push(rest, x, has_rank(2));
        lemma_filter_push(rest, x, has_rank(1));
        lemma_filter_push(rest, x, has_rank(0));
        let (a, b, c, d) = (
            rest.filter(has_rank(3)),
            rest.filter(has_rank(2)),
            rest.filter(has_rank(1)),
            rest.filter(has_rank(0)),
        );
        let (a2, b2, c2, d2) = (
            tasks.filter(has_rank(3)),
            tasks.filter(has_rank(2)),
            tasks.filter(has_rank(1)),
            tasks.filter(has_rank(0)),
        );
        assert(priority_order(rest).to_multiset() =~= a.to_multiset().add(b.to_multiset()).add(
            c.to_multiset(),
        ).add(d.to_multiset()));
        assert(priority_order(tasks).to_multiset() =~= a2.to_multiset().add(b2.to_multiset()).add(
            c2.to_multiset(),
        ).add(d2.to_multiset()));
        assert(priority_order(tasks).to_multiset() =~= priority_order(rest).to_multiset().insert(x));
    }
}

/// Within one priority the order of the tasks is kept: the priority order
/// lists the tasks of each priority in the order they were enqueued.
pub proof fn lemma_priority_order_stable(tasks: Seq<TickTask>, r: nat)
    ensures
        priority_order(tasks).filter(has_rank(r)) == tasks.filter(has_rank(r)),
{
    broadcast use Seq::filter_distributes_over_add;

    let (a, b, c, d) = (
        tasks.filter(has_rank(3)),
        tasks.filter(has_rank(2)),
        tasks.filter(has_rank(1)),
        tasks.filter(has_rank(0)),
    );
    lemma_filter_twice(tasks, has_rank(3), has_rank(r));
    lemma_filter_twice(tasks, has_rank(2), has_rank(r));
    lemma_filter_twice(tasks, has_rank(1), has_rank(r));
    lemma_filter_twice(tasks, has_rank(0), has_rank(r));
    assert(priority_order(tasks).filter(has_rank(r)) == a.filter(has_rank(r)) + b.filter(has_rank(r))
        + c.filter(has_rank(r)) + d.filter(has_rank(r)));
    if r > 3 {
        tasks.lemma_all_neg_filter_empty(has_rank(r));
        assert(tasks.filter(has_rank(r)) =~= Seq::<TickTask>::empty());
    }
    assert(priority_order(tasks).filter(has_rank(r)) =~= tasks.filter(has_rank(r)));
}

/// A drain runs every task, so a drain right after it runs nothing.
pub proof fn lemma_drain_twice_runs_nothing(tasks: Seq<TickTask>)
    ensures
        pending(priority_order(mark_all(priority_order(tasks)))).len() == 0,
{
    broadcast use Seq::lemma_filter_contains_rev;

    let done = mark_all(priority_order(tasks));
    let order = priority_order(done);
    assert forall|k: int| 0 <= k < order.len() implies (#[trigger] order[k]).executed by {
        let x = order[k];
        assert(order.contains(x));
        let (a, b, c, d) = (
            done.filter(has_rank(3)),
            done.filter(has_rank(2)),
            done.filter(has_rank(1)),
            done.filter(has_rank(0)),
        );
        assert(a.contains(x) || b.contains(x) || c.contains(x) || d.contains(x));
        assert(done.contains(x));
    }
    order.lemma_all_neg_filter_empty(|t: TickTask| !t.executed);
}

proof fn lemma_pending_add(a: Seq<TickTask>, b: Seq<TickTask>)
    ensures
        pending(a + b) == pending(a) + pending(b),
{
    Seq::filter_distributes_over_add(a, b, |t: TickTask| !t.executed);
}

proof fn lemma_filter_step(s: Seq<TickTask>, i: int, p: spec_fn(TickTask) -> bool)
    requires
        0 <= i < s.len(),
    ensures
        s.take(i + 1).filter(p) == if p(s[i]) {
            s.take(i).filter(p).push(s[i])
        } else {
            s.take(i).filter(p)
        },
{
    assert(s.take(i + 1) =~= s.take(i).push(s[i]));
    lemma_filter_push(s.take(i), s[i], p);
}

/// Splits tasks into the four priority classes, each in its original order.
fn split_by_priority(tasks: Vec<TickTask>) -> (classes: (
    Vec<TickTask>,
    Vec<TickTask>,
    Vec<TickTask>,
    Vec<TickTask>,
))
    ensures
        classes.0@ == tasks@.filter(has_rank(3)),
        classes.1@ == tasks@.filter(has_rank(2)),
        classes.2@ == tasks@.filter(has_rank(1)),
        classes.3@ == tasks@.filter(has_rank(0)),
{
    let ghost all = tasks@;
    let mut critical: Vec<TickTask> = Vec::new();
    let mut high: Vec<TickTask> = Vec::new();
    let mut normal: Vec<TickTask> = Vec::new();
    let mut low: Vec<TickTask> = Vec::new();
    for t in it: tasks.into_iter()
        invariant
            it.seq() == all,
            critical@ == all.take(it.index() as int).filter(has_rank(3)),
            high@ == all.take(it.index() as int).filter(has_rank(2)),
            normal@ == all.take(it.index() as int).filter(has_rank(1)),
            low@ == all.take(it.index() as int).filter(has_rank(0)),
    {
        let ghost i = it.index() as int;
        proof {
            lemma_filter_step(all, i, has_rank(3));
            lemma_filter_step(all, i, has_rank(2));
            lemma_filter_step(all, i, has_rank(1));
            lemma_filter_step(all, i, has_rank(0));
        }
        match t.priority {
            Priority::Critical => critical.push(t),
            Priority::High => high.push(t),
            Priority::Normal => normal.push(t),
            Priority::Low => low.push(t),
        }
    }
    proof {
        assert(all.take(all.len() as int) =~= all);
    }
    (critical, high, normal, low)
}

/// Runs the tasks of one priority class in order, appending them to `tasks`
/// marked as run, and logging and collecting the payloads of those that had
/// not run yet.
fn run_bucket(
    bucket: Vec<TickTask>,
    tasks: &mut Vec<TickTask>,
    log: &mut Vec<String>,
    results: &mut Vec<String>,
)
    ensures
        final(tasks)@ == old(tasks)@ + mark_all(bucket@),
        string_views(final(results)@) == string_views(old(results)@) + payloads(pending(bucket@)),
        string_views(final(log)@) == string_views(old(log)@) + log_lines(pending(bucket@)),
{
    let ghost all = bucket@;
    let ghost tasks0 = tasks@;
    let ghost results0 = string_views(results@);
    let ghost log0 = string_views(log@);
    for t in it: bucket.into_iter()
        invariant
            it.seq() == all,
            tasks@ == tasks0 + mark_all(all.take(it.index() as int)),
            string_views(results@) == results0 + payloads(pending(all.take(it.index() as int))),
            string_views(log@) == log0 + log_lines(pending(all.take(it.index() as int))),
    {
        let ghost i = it.index() as int;
        let ghost prefix = all.take(i);
        proof {
            assert(all.take(i + 1) =~= prefix.push(all[i]));
            lemma_filter_push(prefix, all[i], |t: TickTask| !t.executed);
        }
        let mut t = t;
        let ghost orig = t;
        assert(orig == all[i]);
        let ghost pend0 = pending(prefix);
        let ghost pend1 = pending(all.take(i + 1));
        if !t.executed {
            t.executed = true;
            proof {
                reveal_strlit("[");
                reveal_strlit("] ");
            }
            let mut line = "[".to_owned();
            line.append(t.priority.name());
            line.append("] ");
            line.append(t.payload.as_str());
            assert(line@ =~= log_line(orig));
            let ghost log_before = log@;
            let ghost results_before = results@;
            log.push(line);
            results.push(t.payload.clone());
            proof {
                assert(string_views(log@) =~= string_views(log_before).push(log_line(orig)));
                assert(string_views(results@) =~= string_views(results_before).push(payload_of(orig)));
                assert(pend1 == pend0.push(orig));
                assert(payloads(pend1) =~= payloads(pend0).push(payload_of(orig)));
                assert(log_lines(pend1) =~= log_lines(pend0).push(log_line(orig)));
                assert(string_views(results@) =~= results0 + payloads(pend1));
                assert(string_views(log@) =~= log0 + log_lines(pend1));
            }
        } else {
            proof {
                assert(pend1 == pend0);
                assert(string_views(results@) =~= results0 + payloads(pend1));
                assert(string_views(log@) =~= log0 + log_lines(pend1));
            }
        }
        tasks.push(t);
        proof {
            assert(t == executed(orig));
            assert(tasks@ =~= tasks0 + mark_all(all.take(i + 1)));
        }
    }
    proof {
        assert(all.take(all.len() as int) =~= all);
    }
}

/// Tasks waiting to run, and the log of those that ran.
pub struct TickQueue {
    tasks: Vec<TickTask>,
    execution_log: Vec<String>,
}

impl TickQueue {
    /// The tasks held, in their current order.
    pub closed spec fn tasks(&self) -> Seq<TickTask> {
        self.tasks@
    }

    /// The lines of the execution log.
    pub closed spec fn log(&self) -> Seq<Seq<char>> {
        string_views(self.execution_log@)
    }

    pub fn new() -> (q: Self)
        ensures
            q.tasks() == Seq::<TickTask>::empty(),
            q.log() == Seq::<Seq<char>>::empty(),
    {
        let q = TickQueue { tasks: Vec::new(), execution_log: Vec::new() };
        assert(q.log() =~= Seq::<Seq<char>>::empty());
        q
    }

    pub fn enqueue(&mut self, task: TickTask)
        ensures
            final(self).tasks() == old(self).tasks().push(task),
            final(self).log() == old(self).log(),
    {
        self.tasks.push(task);
    }

    /// Runs every task that has not run yet, highest priority first (tasks
    /// of equal priority in the order they were enqueued), and returns their
    /// payloads in that order. The tasks stay in the queue, reordered, and
    /// marked as run; each run appends a line to the execution log.
    pub fn drain_by_priority(&mut self) -> (results: Vec<String>)
        ensures
            final(self).tasks() == mark_all(priority_order(old(self).tasks())),
            string_views(results@) == payloads(pending(priority_order(old(self).tasks()))),
            final(self).log() == old(self).log() + log_lines(pending(
                priority_order(old(self).tasks()),
            )),
    {
        let mut tasks: Vec<TickTask> = Vec::new();
        std::mem::swap(&mut tasks, &mut self.tasks);
        let ghost all = tasks@;
        let ghost log0 = self.execution_log@;
        let (critical, high, normal, low) = split_by_priority(tasks);
        let ghost (c, h, n, l) = (critical@, high@, normal@, low@);
        let mut results: Vec<String> = Vec::new();
        run_bucket(critical, &mut self.tasks, &mut self.execution_log, &mut results);
        run_bucket(high, &mut self.tasks, &mut self.execution_log, &mut results);
        run_bucket(normal, &mut self.tasks, &mut self.execution_log, &mut results);
        run_bucket(low, &mut self.tasks, &mut self.execution_log, &mut results);
        proof {
            let order = priority_order(all);
            assert(order == c + h + n + l);
            lemma_pending_add(c, h);
            lemma_pending_add(c + h, n);
            lemma_pending_add(c + h + n, l);
            assert(self.tasks@ =~= mark_all(order));
            assert(string_views(results@) =~= payloads(pending(order)));
            assert(string_views(self.execution_log@) =~= string_views(log0) + log_lines(pending(order)));
        }
        results
    }

    pub fn execution_log(&self) -> (log: &[String])
        ensures
            string_views(log@) == self.log(),
    {
        self.execution_log.as_slice()
    }
}

impl Default for TickQueue {
    fn default() -> (q: Self)
        ensures
            q.tasks() == Seq::<TickTask>::empty(),
            q.log() == Seq::<Seq<char>>::empty(),
    {
        Self::new()
    }
}

} // verus!
