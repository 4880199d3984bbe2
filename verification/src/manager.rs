//! The registry of sources and the results of the latest refresh.

use crate::error::{ErrorLog, SourceError, SourceErrorView};
use crate::sources::TaskSource;
use crate::tasks::{sort_tasks, sorted_tasks, Task};
use crate::text::{
    lemma_text_lt_irreflexive, lemma_text_lt_total, lemma_text_lt_transitive, str_eq, str_lt,
    text_lt,
};
use vstd::prelude::*;

verus! {

/// What one source gave in a refresh: its name with its tasks or its
/// failure.
pub type Outcome = (String, Result<Vec<Task>, SourceError>);

/// Whether the sources stand in the order of their names, no name twice.
pub open spec fn sorted_by_name(s: Seq<(TaskSource, bool)>) -> bool {
    forall|i: int, j: int|
        0 <= i < j < s.len() ==> text_lt(
            (#[trigger] s[i]).0.name_text(),
            (#[trigger] s[j]).0.name_text(),
        )
}

/// The number of sources at the front of `s` whose names sort strictly
/// before `name`.
pub open spec fn rank(s: Seq<(TaskSource, bool)>, name: Seq<char>) -> nat
    decreases s.len(),
{
    if s.len() == 0 || !text_lt(s[0].0.name_text(), name) {
        0
    } else {
        1 + rank(s.drop_first(), name)
    }
}

/// The registry `s` after `source` was added: in place of the source of
/// the same name, which keeps its place and whether it is enabled, or
/// else enabled at the place that its name sorts to.
pub open spec fn with_source(s: Seq<(TaskSource, bool)>, source: TaskSource) -> Seq<
    (TaskSource, bool),
> {
    let at = rank(s, source.name_text()) as int;
    if at < s.len() && s[at].0.name_text() == source.name_text() {
        s.update(at, (source, s[at].1))
    } else {
        s.insert(at, (source, true))
    }
}

/// The enabled sources of a registry, in their order.
pub open spec fn active(s: Seq<(TaskSource, bool)>) -> Seq<TaskSource>
    decreases s.len(),
{
    if s.len() == 0 {
        Seq::empty()
    } else if s.last().1 {
        active(s.drop_last()).push(s.last().0)
    } else {
        active(s.drop_last())
    }
}

/// The tasks of the sources that succeeded, source after source.
pub open spec fn gathered(outcomes: Seq<Outcome>) -> Seq<Task>
    decreases outcomes.len(),
{
    if outcomes.len() == 0 {
        Seq::empty()
    } else {
        gathered(outcomes.drop_last()) + match outcomes.last().1 {
            Ok(tasks) => tasks@,
            Err(_) => Seq::empty(),
        }
    }
}

/// The failures of the sources that failed, by name; of two failures
/// under one name the later.
pub open spec fn failures(outcomes: Seq<Outcome>) -> Map<Seq<char>, SourceErrorView>
    decreases outcomes.len(),
{
    if outcomes.len() == 0 {
        Map::empty()
    } else {
        match outcomes.last().1 {
            Ok(_) => failures(outcomes.drop_last()),
            Err(e) => failures(outcomes.drop_last()).insert(outcomes.last().0@, e@),
        }
    }
}

proof fn lemma_rank(s: Seq<(TaskSource, bool)>, name: Seq<char>, at: int)
    requires
        0 <= at <= s.len(),
        forall|i: int| 0 <= i < at ==> text_lt((#[trigger] s[i]).0.name_text(), name),
        at < s.len() ==> !text_lt(s[at].0.name_text(), name),
    ensures
        rank(s, name) == at,
    decreases at,
{
    if at > 0 {
        let rest = s.drop_first();
        assert(forall|i: int| 0 <= i < at - 1 ==> text_lt((#[trigger] rest[i]).0.name_text(), name));
        lemma_rank(rest, name, at - 1);
    }
}

proof fn lemma_rank_bounds(s: Seq<(TaskSource, bool)>, name: Seq<char>)
    ensures
        rank(s, name) <= s.len(),
        forall|i: int| 0 <= i < rank(s, name) ==> text_lt((#[trigger] s[i]).0.name_text(), name),
        rank(s, name) < s.len() ==> !text_lt(s[rank(s, name) as int].0.name_text(), name),
    decreases s.len(),
{
    if s.len() > 0 && text_lt(s[0].0.name_text(), name) {
        let rest = s.drop_first();
        lemma_rank_bounds(rest, name);
        assert forall|i: int| 0 <= i < rank(s, name) implies text_lt(
            (#[trigger] s[i]).0.name_text(),
            name,
        ) by {
            if i > 0 {
                assert(s[i] == rest[i - 1]);
            }
        }
    }
}

/// Adding a source keeps the registry in the order of the names.
pub proof fn lemma_with_source_sorted(s: Seq<(TaskSource, bool)>, source: TaskSource)
    requires
        sorted_by_name(s),
    ensures
        sorted_by_name(with_source(s, source)),
{
    let name = source.name_text();
    let at = rank(s, name) as int;
    let r = with_source(s, source);
    lemma_rank_bounds(s, name);
    if at < s.len() && s[at].0.name_text() == name {
        // The new source stands where the source of its name stood.
        assert(sorted_by_name(r));
    } else {
        assert forall|i: int, j: int| 0 <= i < j < r.len() implies text_lt(
            (#[trigger] r[i]).0.name_text(),
            (#[trigger] r[j]).0.name_text(),
        ) by {
            if i == at {
                // The name is none of the registry: it sorts before the
                // source that stood at its place, and before all behind it.
                lemma_text_lt_total(s[at].0.name_text(), name);
                if j - 1 > at {
                    lemma_text_lt_transitive(name, s[at].0.name_text(), s[j - 1].0.name_text());
                }
            }
        }
    }
}

/// The first source of an empty registry stands at position 0, enabled.
pub proof fn law_first_source(source: TaskSource)
    ensures
        with_source(Seq::empty(), source) == seq![(source, true)],
{
}

/// Adding a source under a name that the registry holds replaces the
/// source of that name where it stands: the length of the registry stays,
/// and so does every other entry and whether the source is enabled.
pub proof fn law_known_name_replaces(s: Seq<(TaskSource, bool)>, source: TaskSource, at: int)
    requires
        sorted_by_name(s),
        0 <= at < s.len(),
        s[at].0.name_text() == source.name_text(),
    ensures
        with_source(s, source) == s.update(at, (source, s[at].1)),
        with_source(s, source).len() == s.len(),
{
    let name = source.name_text();
    lemma_text_lt_irreflexive(name);
    lemma_rank(s, name, at);
}

/// Adding a source a second time under the same name changes neither the
/// length of the registry nor the place of the source.
pub proof fn law_adding_twice(s: Seq<(TaskSource, bool)>, first: TaskSource, second: TaskSource)
    requires
        sorted_by_name(s),
        first.name_text() == second.name_text(),
    ensures
        with_source(with_source(s, first), second).len() == with_source(s, first).len(),
        with_source(with_source(s, first), second) == with_source(s, first).update(
            rank(s, first.name_text()) as int,
            (second, with_source(s, first)[rank(s, first.name_text()) as int].1),
        ),
{
    let at = rank(s, first.name_text()) as int;
    lemma_rank_bounds(s, first.name_text());
    lemma_with_source_sorted(s, first);
    law_known_name_replaces(with_source(s, first), second, at);
}

proof fn lemma_gathered_concat(a: Seq<Outcome>, b: Seq<Outcome>)
    ensures
        gathered(a + b) == gathered(a) + gathered(b),
    decreases b.len(),
{
    if b.len() == 0 {
        assert(a + b =~= a);
    } else {
        assert((a + b).drop_last() =~= a + b.drop_last());
        lemma_gathered_concat(a, b.drop_last());
    }
}

proof fn lemma_failures_keep_names(a: Seq<Outcome>, b: Seq<Outcome>, name: Seq<char>)
    requires
        failures(a).contains_key(name),
    ensures
        failures(a + b).contains_key(name),
    decreases b.len(),
{
    if b.len() == 0 {
        assert(a + b =~= a);
    } else {
        assert((a + b).drop_last() =~= a + b.drop_last());
        lemma_failures_keep_names(a, b.drop_last(), name);
    }
}

/// The failure of one source is kept under its name and changes nothing
/// in the tasks that the other sources give.
pub proof fn law_failure_is_isolated(before: Seq<Outcome>, failed: Outcome, after: Seq<Outcome>)
    requires
        failed.1 is Err,
    ensures
        gathered(before.push(failed) + after) == gathered(before + after),
        failures(before.push(failed) + after).contains_key(failed.0@),
{
    lemma_gathered_concat(before.push(failed), after);
    lemma_gathered_concat(before, after);
    assert(before.push(failed).drop_last() =~= before);
    lemma_failures_keep_names(before.push(failed), after, failed.0@);
}

/// The registry of sources, in the order of their names, with the tasks
/// and the failures of the latest refresh.
#[derive(Debug)]
pub struct TaskManager {
    tasks: Vec<Task>,
    sources: Vec<(TaskSource, bool)>,
    errors: ErrorLog,
}

impl TaskManager {
    /// The sources, each with whether it is enabled.
    pub closed spec fn source_list(&self) -> Seq<(TaskSource, bool)> {
        self.sources@
    }

    /// What holds of every manager: the sources stand in the order of
    /// their names, no name twice.
    pub open spec fn wf(&self) -> bool {
        sorted_by_name(self.source_list())
    }

    /// The tasks of the latest refresh.
    pub closed spec fn task_list(&self) -> Seq<Task> {
        self.tasks@
    }

    /// The latest failure of each source that failed and whose failure
    /// was not taken out yet.
    pub closed spec fn failure_map(&self) -> Map<Seq<char>, SourceErrorView> {
        self.errors@
    }

    /// A manager without sources, tasks or failures.
    pub fn new() -> (r: TaskManager)
        ensures
            r.wf(),
            r.source_list() == Seq::<(TaskSource, bool)>::empty(),
            r.task_list() == Seq::<Task>::empty(),
            r.failure_map() == Map::<Seq<char>, SourceErrorView>::empty(),
    {
        TaskManager { tasks: Vec::new(), sources: Vec::new(), errors: ErrorLog::new() }
    }

    /// The tasks of the latest refresh, in the order in which they are
    /// shown.
    pub fn tasks(&self) -> (r: Vec<Task>)
        ensures
            r@ == self.task_list(),
    {
        let mut r: Vec<Task> = Vec::new();
        let mut i: usize = 0;
        while i < self.tasks.len()
            invariant
                i <= self.tasks.len(),
                r@ == self.tasks@.take(i as int),
            decreases self.tasks.len() - i,
        {
            r.push(self.tasks[i].clone());
            i = i + 1;
        }
        r
    }

    /// The sources, in the order of their names, each with whether it is
    /// enabled.
    pub fn sources(&self) -> (r: &Vec<(TaskSource, bool)>)
        ensures
            r@ == self.source_list(),
    {
        &self.sources
    }

    /// The enabled sources, in the order of their names: what a refresh
    /// has to query.
    pub fn active_sources(&self) -> (r: Vec<TaskSource>)
        ensures
            r@ == active(self.source_list()),
    {
        let mut r: Vec<TaskSource> = Vec::new();
        let mut i: usize = 0;
        while i < self.sources.len()
            invariant
                i <= self.sources.len(),
                r@ == active(self.sources@.take(i as int)),
            decreases self.sources.len() - i,
        {
            proof {
                let upto = self.sources@.take(i as int + 1);
                assert(upto.drop_last() =~= self.sources@.take(i as int));
            }
            if self.sources[i].1 {
                r.push(self.sources[i].0.clone());
            }
            i = i + 1;
        }
        assert(self.sources@.take(i as int) =~= self.sources@);
        r
    }

    /// A handle on whether the source at `idx` is enabled.
    pub fn source_ref_mut(&mut self, idx: usize) -> (enabled: &mut bool)
        requires
            old(self).wf(),
            idx < old(self).source_list().len(),
        ensures
            *enabled == old(self).source_list()[idx as int].1,
            final(self).source_list() == old(self).source_list().update(
                idx as int,
                (old(self).source_list()[idx as int].0, *final(enabled)),
            ),
            final(self).wf(),
            final(self).task_list() == old(self).task_list(),
            final(self).failure_map() == old(self).failure_map(),
    {
        &mut self.sources[idx].1
    }

    /// Adds a source, or puts it in place of the source of the same name.
    /// A new source is enabled and stands where its name sorts to; a
    /// replaced source keeps its place and whether it is enabled.
    pub fn add_or_replace_source(&mut self, source: TaskSource)
        requires
            old(self).wf(),
        ensures
            final(self).wf(),
            final(self).source_list() == with_source(old(self).source_list(), source),
            final(self).task_list() == old(self).task_list(),
            final(self).failure_map() == old(self).failure_map(),
    {
        let ghost before = self.sources@;
        let ghost name = source.name_text();
        let mut low: usize = 0;
        let mut high: usize = self.sources.len();
        while low < high
            invariant
                low <= high <= self.sources.len(),
                before == self.sources@,
                sorted_by_name(before),
                name == source.name_text(),
                forall|i: int| 0 <= i < low ==> text_lt((#[trigger] before[i]).0.name_text(), name),
                forall|i: int|
                    high <= i < before.len() ==> !text_lt((#[trigger] before[i]).0.name_text(), name),
            decreases high - low,
        {
            let middle = low + (high - low) / 2;
            if str_lt(self.sources[middle].0.name(), source.name()) {
                proof {
                    assert forall|i: int| 0 <= i < middle + 1 implies text_lt(
                        (#[trigger] before[i]).0.name_text(),
                        name,
                    ) by {
                        if i < middle {
                            lemma_text_lt_transitive(
                                before[i].0.name_text(),
                                before[middle as int].0.name_text(),
                                name,
                            );
                        }
                    }
                }
                low = middle + 1;
            } else {
                proof {
                    assert forall|i: int| middle <= i < before.len() implies !text_lt(
                        (#[trigger] before[i]).0.name_text(),
                        name,
                    ) by {
                        if i > middle && text_lt(before[i].0.name_text(), name) {
                            lemma_text_lt_transitive(
                                before[middle as int].0.name_text(),
                                before[i].0.name_text(),
                                name,
                            );
                        }
                    }
                }
                high = middle;
            }
        }
        proof {
            lemma_rank(before, name, low as int);
            lemma_with_source_sorted(before, source);
        }
        let replace = low < self.sources.len() && str_eq(
            self.sources[low].0.name(),
            source.name(),
        );
        if replace {
            let (_, enabled) = self.sources.remove(low);
            self.sources.insert(low, (source, enabled));
        } else {
            self.sources.insert(low, (source, true));
        }
    }

    /// Takes the source at `idx` out of the registry.
    pub fn remove_source(&mut self, idx: usize) -> (r: (TaskSource, bool))
        requires
            old(self).wf(),
            idx < old(self).source_list().len(),
        ensures
            final(self).wf(),
            r == old(self).source_list()[idx as int],
            final(self).source_list() == old(self).source_list().remove(idx as int),
            final(self).task_list() == old(self).task_list(),
            final(self).failure_map() == old(self).failure_map(),
    {
        self.sources.remove(idx)
    }

    /// Takes the latest failure of the source called `source` out of the
    /// manager, if it holds one.
    pub fn get_and_clear_last_err(&mut self, source: &str) -> (r: Option<SourceError>)
        ensures
            final(self).failure_map() == old(self).failure_map().remove(source@),
            match r {
                Some(e) => old(self).failure_map().contains_key(source@) && old(
                    self,
                ).failure_map()[source@] == e@,
                None => !old(self).failure_map().contains_key(source@),
            },
            final(self).source_list() == old(self).source_list(),
            final(self).task_list() == old(self).task_list(),
    {
        self.errors.remove(source)
    }

    /// Records a failure of the source called `source`, in place of an
    /// earlier one.
    pub fn record_error(&mut self, source: String, error: SourceError)
        ensures
            final(self).failure_map() == old(self).failure_map().insert(source@, error@),
            final(self).source_list() == old(self).source_list(),
            final(self).task_list() == old(self).task_list(),
    {
        self.errors.insert(source, error);
    }

    /// The names of the sources of which the manager holds a failure,
    /// each once.
    pub fn failed_sources(&self) -> (r: Vec<String>)
        ensures
            forall|name: Seq<char>|
                self.failure_map().contains_key(name) <==> exists|i: int|
                    0 <= i < r@.len() && #[trigger] r@[i]@ == name,
            forall|i: int, j: int| 0 <= i < j < r@.len() ==> #[trigger] r@[i]@ != #[trigger] r@[j]@,
    {
        self.errors.names()
    }

    /// Publishes what a refresh gave, in one step and in place of the
    /// results of the refresh before: the tasks of the sources that
    /// succeeded, sorted, and the failures of the sources that failed. A
    /// source that failed adds nothing to the list and takes nothing of
    /// another source out of it; of what an earlier refresh gave, nothing
    /// stays.
    pub fn refresh(&mut self, outcomes: Vec<Outcome>)
        ensures
            final(self).task_list() == sorted_tasks(gathered(outcomes@)),
            final(self).failure_map() == failures(outcomes@),
            final(self).source_list() == old(self).source_list(),
    {
        let mut rest = outcomes;
        let mut tasks: Vec<Task> = Vec::new();
        let mut errors = ErrorLog::new();
        let ghost mut done: int = 0;
        while rest.len() > 0
            invariant
                0 <= done <= outcomes@.len(),
                rest@ == outcomes@.skip(done),
                tasks@ == gathered(outcomes@.take(done)),
                errors@ == failures(outcomes@.take(done)),
            decreases rest.len(),
        {
            proof {
                let upto = outcomes@.take(done + 1);
                assert(upto.drop_last() =~= outcomes@.take(done));
            }
            let (name, result) = rest.remove(0);
            match result {
                Ok(found) => {
                    let mut found = found;
                    tasks.append(&mut found);
                },
                Err(e) => {
                    errors.insert(name, e);
                },
            }
            proof {
                done = done + 1;
            }
        }
        sort_tasks(&mut tasks);
        self.tasks = tasks;
        self.errors = errors;
    }
}

impl Default for TaskManager {
    fn default() -> (r: TaskManager)
        ensures
            r.wf(),
            r.source_list() == Seq::<(TaskSource, bool)>::empty(),
            r.task_list() == Seq::<Task>::empty(),
            r.failure_map() == Map::<Seq<char>, SourceErrorView>::empty(),
    {
        TaskManager::new()
    }
}

} // verus!
