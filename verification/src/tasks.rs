//! Task records and the order in which they are shown.

pub use crate::manager::TaskManager;

use crate::error::{SourceError, SourceErrorView};
use crate::time::Timestamp;
use std::cmp::Ordering;
use vstd::prelude::*;
use vstd::std_specs::cmp::OrdSpec;
use vstd::string::*;

verus! {

/// One unit of work, as a source delivered it.
#[derive(Debug)]
pub struct Task {
    pub project: String,
    pub title: String,
    pub description: String,
    pub due: Option<Timestamp>,
    pub created: Option<Timestamp>,
    pub id: Option<String>,
}

/// The mathematical content of a `Task`.
pub struct TaskView {
    pub project: Seq<char>,
    pub title: Seq<char>,
    pub description: Seq<char>,
    pub due: Option<Timestamp>,
    pub created: Option<Timestamp>,
    pub id: Option<Seq<char>>,
}

impl View for Task {
    type V = TaskView;

    open spec fn view(&self) -> TaskView {
        TaskView {
            project: self.project@,
            title: self.title@,
            description: self.description@,
            due: self.due,
            created: self.created,
            id: match self.id {
                Some(id) => Some(id@),
                None => None,
            },
        }
    }
}

impl Clone for Task {
    fn clone(&self) -> (r: Task)
        ensures
            r == *self,
    {
        Task {
            project: self.project.clone(),
            title: self.title.clone(),
            description: self.description.clone(),
            due: self.due,
            created: self.created,
            id: match &self.id {
                Some(id) => Some(id.clone()),
                None => None,
            },
        }
    }
}

/// The contents of a list of tasks.
pub open spec fn task_views(tasks: Seq<Task>) -> Seq<TaskView> {
    Seq::new(tasks.len(), |i: int| tasks[i]@)
}

/// What reading one item of a response gives: a task, nothing where the
/// item is left out, or the failure that ends the query.
pub type ItemOutcome = Result<Option<TaskView>, SourceErrorView>;

/// What a whole query gives: the tasks in the order of the items, or the
/// failure that ended it.
pub type QueryOutcome = Result<Seq<TaskView>, SourceErrorView>;

/// The contents of what reading one item gave.
pub open spec fn item_outcome(r: Result<Option<Task>, SourceError>) -> ItemOutcome {
    match r {
        Ok(Some(t)) => Ok(Some(t@)),
        Ok(None) => Ok(None),
        Err(e) => Err(e@),
    }
}

/// The contents of what a query gave.
pub open spec fn query_outcome(r: Result<Vec<Task>, SourceError>) -> QueryOutcome {
    match r {
        Ok(tasks) => Ok(task_views(tasks@)),
        Err(e) => Err(e@),
    }
}

/// The outcome of a query from the outcomes of its items: the tasks of
/// the items that gave one, in their order, unless an item failed; then
/// the failure of the first item that did.
pub open spec fn collect(outcomes: Seq<ItemOutcome>) -> QueryOutcome
    decreases outcomes.len(),
{
    if outcomes.len() == 0 {
        Ok(Seq::empty())
    } else {
        match collect(outcomes.drop_last()) {
            Err(e) => Err(e),
            Ok(tasks) => match outcomes.last() {
                Err(e) => Err(e),
                Ok(Some(t)) => Ok(tasks.push(t)),
                Ok(None) => Ok(tasks),
            },
        }
    }
}

/// Once an item has failed, the query has failed, whatever follows.
pub proof fn lemma_collect_fails(outcomes: Seq<ItemOutcome>, i: int)
    requires
        0 <= i < outcomes.len(),
        collect(outcomes.take(i)) is Ok,
        outcomes[i] is Err,
    ensures
        collect(outcomes) == Err::<Seq<TaskView>, SourceErrorView>(outcomes[i]->Err_0),
    decreases outcomes.len(),
{
    if i < outcomes.len() - 1 {
        assert(outcomes.drop_last().take(i) =~= outcomes.take(i));
        lemma_collect_fails(outcomes.drop_last(), i);
    }
}

/// The identity of a task: its own identifier, or project and title
/// joined by a slash where it has none.
pub open spec fn task_identity(t: TaskView) -> Seq<char> {
    match t.id {
        Some(id) => id,
        None => t.project + seq!['/'] + t.title,
    }
}

impl Task {
    /// The identity of the task. Two tasks of one project with the same
    /// title and no identifier of their own share it.
    pub fn get_id(&self) -> (r: String)
        ensures
            r@ == task_identity(self@),
    {
        match &self.id {
            Some(id) => id.clone(),
            None => {
                proof {
                    reveal_strlit("/");
                }
                let mut r = self.project.clone();
                r.append("/");
                r.append(self.title.as_str());
                r
            },
        }
    }
}

/// Compares two optional values so that a present value sorts before an
/// absent one, and two present values sort by their own order.
pub fn compare_optional<T: Ord>(a: &Option<T>, b: &Option<T>) -> (o: Ordering)
    ensures
        a is None && b is None ==> o == Ordering::Equal,
        a is None && b is Some ==> o == Ordering::Greater,
        a is Some && b is None ==> o == Ordering::Less,
        a is Some && b is Some && T::obeys_cmp_spec() ==> o == a->0.cmp_spec(&b->0),
{
    match (a, b) {
        (Some(x), Some(y)) => x.cmp(y),
        (None, None) => Ordering::Equal,
        (None, Some(_)) => Ordering::Greater,
        (Some(_), None) => Ordering::Less,
    }
}

/// Whether date `a` sorts strictly before date `b`: the earlier instant
/// first, and any instant before no date at all.
pub open spec fn date_lt(a: Option<Timestamp>, b: Option<Timestamp>) -> bool {
    match (a, b) {
        (Some(x), Some(y)) => x.before(y),
        (Some(_), None) => true,
        _ => false,
    }
}

/// Whether task `a` is shown strictly before task `b`: by due date, and
/// among tasks with the same due date by creation date.
pub open spec fn task_lt(a: Task, b: Task) -> bool {
    date_lt(a.due, b.due) || (a.due == b.due && date_lt(a.created, b.created))
}

/// Whether neither of two tasks is shown before the other.
pub open spec fn task_tied(a: Task, b: Task) -> bool {
    !task_lt(a, b) && !task_lt(b, a)
}

fn date_key(date: &Option<Timestamp>) -> (k: Option<(i64, u32)>)
    ensures
        k == match *date {
            Some(t) => Some((t.secs, t.nanos)),
            None => None,
        },
{
    match date {
        Some(t) => Some(t.key()),
        None => None,
    }
}

/// Compares two tasks by due date, then by creation date, a missing date
/// last in both.
pub fn compare_tasks(a: &Task, b: &Task) -> (o: Ordering)
    ensures
        (o == Ordering::Less) == task_lt(*a, *b),
        (o == Ordering::Greater) == task_lt(*b, *a),
        (o == Ordering::Equal) == task_tied(*a, *b),
{
    let by_due_date = compare_optional(&date_key(&a.due), &date_key(&b.due));
    match by_due_date {
        Ordering::Equal => compare_optional(&date_key(&a.created), &date_key(&b.created)),
        _ => by_due_date,
    }
}

/// Whether `a` is shown strictly before `b`.
pub fn sorts_before(a: &Task, b: &Task) -> (r: bool)
    ensures
        r == task_lt(*a, *b),
{
    match compare_tasks(a, b) {
        Ordering::Less => true,
        _ => false,
    }
}

/// The order of tasks is a strict weak ordering: no task is before itself,
/// it is transitive, and so is being tied.
pub proof fn law_task_order_is_strict_weak(a: Task, b: Task, c: Task)
    ensures
        !task_lt(a, a),
        task_lt(a, b) ==> !task_lt(b, a),
        task_lt(a, b) && task_lt(b, c) ==> task_lt(a, c),
        task_tied(a, b) && task_tied(b, c) ==> task_tied(a, c),
{
}

/// Whether no task of `s` is shown before an earlier one.
pub open spec fn is_sorted(s: Seq<Task>) -> bool {
    forall|i: int, j: int| 0 <= i < j < s.len() ==> !task_lt(#[trigger] s[j], #[trigger] s[i])
}

/// The number of tasks at the front of `s` that are shown strictly before `t`.
pub open spec fn leading_before(t: Task, s: Seq<Task>) -> nat
    decreases s.len(),
{
    if s.len() == 0 || !task_lt(s[0], t) {
        0
    } else {
        1 + leading_before(t, s.drop_first())
    }
}

/// `s` with `t` put behind the tasks at its front that are shown strictly
/// before `t`.
pub open spec fn insert_task(t: Task, s: Seq<Task>) -> Seq<Task> {
    s.insert(leading_before(t, s) as int, t)
}

/// The tasks of `s` in the order in which they are shown; tasks that are
/// tied keep the order they have in `s`.
pub open spec fn sorted_tasks(s: Seq<Task>) -> Seq<Task>
    decreases s.len(),
{
    if s.len() == 0 {
        s
    } else {
        insert_task(s[0], sorted_tasks(s.drop_first()))
    }
}

proof fn lemma_leading_before(t: Task, s: Seq<Task>, i: int)
    requires
        0 <= i <= s.len(),
        forall|j: int| 0 <= j < i ==> task_lt(#[trigger] s[j], t),
        i < s.len() ==> !task_lt(s[i], t),
    ensures
        leading_before(t, s) == i,
    decreases i,
{
    if i > 0 {
        let rest = s.drop_first();
        assert(forall|j: int| 0 <= j < i - 1 ==> task_lt(#[trigger] rest[j], t));
        lemma_leading_before(t, rest, i - 1);
    }
}

proof fn lemma_leading_before_bounds(t: Task, s: Seq<Task>)
    ensures
        leading_before(t, s) <= s.len(),
        forall|j: int| 0 <= j < leading_before(t, s) ==> task_lt(#[trigger] s[j], t),
        leading_before(t, s) < s.len() ==> !task_lt(s[leading_before(t, s) as int], t),
    decreases s.len(),
{
    if s.len() > 0 && task_lt(s[0], t) {
        let rest = s.drop_first();
        lemma_leading_before_bounds(t, rest);
        assert forall|j: int| 0 <= j < leading_before(t, s) implies task_lt(
            #[trigger] s[j],
            t,
        ) by {
            if j > 0 {
                assert(s[j] == rest[j - 1]);
            }
        }
    }
}

proof fn lemma_insert_keeps_sorted(t: Task, s: Seq<Task>)
    requires
        is_sorted(s),
    ensures
        is_sorted(insert_task(t, s)),
{
    lemma_leading_before_bounds(t, s);
    let p = leading_before(t, s) as int;
    let r = insert_task(t, s);
    assert forall|i: int, j: int| 0 <= i < j < r.len() implies !task_lt(
        #[trigger] r[j],
        #[trigger] r[i],
    ) by {
        // Behind the place of `t` every task of `r` stands one place
        // further back than in `s`.
        assert(j > p ==> r[j] == s[j - 1]);
    }
}

/// What `sorted_tasks` gives is sorted.
pub proof fn lemma_sorted_tasks_is_sorted(s: Seq<Task>)
    ensures
        is_sorted(sorted_tasks(s)),
        sorted_tasks(s).len() == s.len(),
    decreases s.len(),
{
    if s.len() > 0 {
        lemma_sorted_tasks_is_sorted(s.drop_first());
        lemma_leading_before_bounds(s[0], sorted_tasks(s.drop_first()));
        lemma_insert_keeps_sorted(s[0], sorted_tasks(s.drop_first()));
    }
}

/// Sorting leaves a sorted list as it is.
pub proof fn lemma_sorted_tasks_fixes_sorted(s: Seq<Task>)
    requires
        is_sorted(s),
    ensures
        sorted_tasks(s) == s,
    decreases s.len(),
{
    if s.len() > 0 {
        let rest = s.drop_first();
        assert(is_sorted(rest));
        lemma_sorted_tasks_fixes_sorted(rest);
    }
}

/// Sorting is idempotent: sorting a second time changes nothing.
pub proof fn law_sort_is_idempotent(s: Seq<Task>)
    ensures
        sorted_tasks(sorted_tasks(s)) == sorted_tasks(s),
{
    lemma_sorted_tasks_is_sorted(s);
    lemma_sorted_tasks_fixes_sorted(sorted_tasks(s));
}

/// Sorting neither drops a task nor adds one.
pub proof fn law_sort_keeps_tasks(s: Seq<Task>)
    ensures
        sorted_tasks(s).to_multiset() == s.to_multiset(),
    decreases s.len(),
{
    if s.len() > 0 {
        let rest = s.drop_first();
        let sorted_rest = sorted_tasks(rest);
        law_sort_keeps_tasks(rest);
        lemma_leading_before_bounds(s[0], sorted_rest);
        vstd::seq_lib::to_multiset_insert(sorted_rest, leading_before(s[0], sorted_rest) as int, s[0]);
        assert(s =~= rest.insert(0, s[0]));
        vstd::seq_lib::to_multiset_insert(rest, 0, s[0]);
    }
}

/// The tasks of `s` that are tied with `t`, in their order.
pub open spec fn tied_with(s: Seq<Task>, t: Task) -> Seq<Task>
    decreases s.len(),
{
    if s.len() == 0 {
        s
    } else if task_tied(s[0], t) {
        seq![s[0]] + tied_with(s.drop_first(), t)
    } else {
        tied_with(s.drop_first(), t)
    }
}

proof fn lemma_tied_with_concat(a: Seq<Task>, b: Seq<Task>, t: Task)
    ensures
        tied_with(a + b, t) == tied_with(a, t) + tied_with(b, t),
    decreases a.len(),
{
    if a.len() > 0 {
        assert((a + b).drop_first() =~= a.drop_first() + b);
        lemma_tied_with_concat(a.drop_first(), b, t);
    }
}

proof fn lemma_tied_with_none(a: Seq<Task>, t: Task)
    requires
        forall|i: int| 0 <= i < a.len() ==> !task_tied(#[trigger] a[i], t),
    ensures
        tied_with(a, t) == Seq::<Task>::empty(),
    decreases a.len(),
{
    if a.len() > 0 {
        let rest = a.drop_first();
        assert(forall|i: int| 0 <= i < rest.len() ==> !task_tied(#[trigger] rest[i], t));
        lemma_tied_with_none(rest, t);
    }
}

/// Sorting is stable: tasks that are tied with one another come out in
/// the order in which they went in.
pub proof fn law_sort_is_stable(s: Seq<Task>, t: Task)
    ensures
        tied_with(sorted_tasks(s), t) == tied_with(s, t),
    decreases s.len(),
{
    if s.len() > 0 {
        let first = s[0];
        let rest = s.drop_first();
        let sorted_rest = sorted_tasks(rest);
        law_sort_is_stable(rest, t);
        lemma_leading_before_bounds(first, sorted_rest);
        let at = leading_before(first, sorted_rest) as int;
        let front = sorted_rest.take(at);
        let back = sorted_rest.skip(at);
        assert(sorted_rest =~= front + back);
        assert(sorted_tasks(s) =~= (front + seq![first]) + back);
        lemma_tied_with_concat(front, back, t);
        lemma_tied_with_concat(front + seq![first], back, t);
        lemma_tied_with_concat(front, seq![first], t);
        assert(tied_with(seq![first].drop_first(), t) =~= Seq::<Task>::empty());
        if task_tied(first, t) {
            // The tasks in front of `first` are shown before it: none of
            // them is tied with it, nor with `t`.
            assert(forall|i: int| 0 <= i < front.len() ==> !task_tied(#[trigger] front[i], t));
            lemma_tied_with_none(front, t);
        }
    }
}

/// Puts `t` into the sorted list `out`, behind the tasks that are shown
/// strictly before it.
fn insert_in_order(out: &mut Vec<Task>, t: Task)
    ensures
        final(out)@ == insert_task(t, old(out)@),
{
    let mut i: usize = 0;
    while i < out.len() && sorts_before(&out[i], &t)
        invariant
            i <= out.len(),
            *out == *old(out),
            forall|j: int| 0 <= j < i ==> task_lt(#[trigger] out@[j], t),
        decreases out.len() - i,
    {
        i = i + 1;
    }
    proof {
        lemma_leading_before(t, out@, i as int);
    }
    out.insert(i, t);
}

/// Sorts tasks into the order in which they are shown: by due date, then
/// by creation date, a missing date last; tasks that are tied keep their
/// order.
pub fn sort_tasks(tasks: &mut Vec<Task>)
    ensures
        final(tasks)@ == sorted_tasks(old(tasks)@),
{
    let mut out: Vec<Task> = Vec::new();
    let ghost all = tasks@;
    while tasks.len() > 0
        invariant
            tasks@ == all.take(tasks@.len() as int),
            tasks@.len() <= all.len(),
            out@ == sorted_tasks(all.skip(tasks@.len() as int)),
        decreases tasks.len(),
    {
        let ghost k = tasks@.len() as int;
        let t = tasks.pop().unwrap();
        proof {
            assert(all.skip(k - 1).drop_first() == all.skip(k));
        }
        insert_in_order(&mut out, t);
    }
    *tasks = out;
}

} // verus!
