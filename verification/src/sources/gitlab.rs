//! Issues and merge requests of a GitLab server.

use super::{label, labelled, secret_text, GITLAB_ICON};
use crate::error::{SourceError, SourceErrorView};
use crate::fields::{day_field, instant_field, read_day, read_instant};
use crate::http::{plain_request, HttpRequest, HttpRequestView};
use crate::json::{
    element_views, lemma_view_of_array, parse, read_document, Json, JsonView,
};
use crate::tasks::{task_views, Task, TaskView};
use crate::text::{append_decimal, decimal_digits};
use vstd::prelude::*;
use vstd::string::*;

verus! {

/// The configuration of a GitLab server as a source of tasks.
#[derive(Debug)]
pub struct GitLabSource {
    /// The name under which the source is shown and found.
    pub name: String,
    /// The address of the server, in front of the path of every request.
    pub server_url: String,
    /// The user whose issues and merge requests are asked for.
    pub user_name: String,
    /// The token as the user entered it, on its way to where secrets are
    /// kept. No query reads it: a query takes the secret as an argument.
    pub token: String,
}

/// The mathematical content of a `GitLabSource`.
pub struct GitLabSourceView {
    pub name: Seq<char>,
    pub server_url: Seq<char>,
    pub user_name: Seq<char>,
    pub token: Seq<char>,
}

impl View for GitLabSource {
    type V = GitLabSourceView;

    open spec fn view(&self) -> GitLabSourceView {
        GitLabSourceView {
            name: self.name@,
            server_url: self.server_url@,
            user_name: self.user_name@,
            token: self.token@,
        }
    }
}

impl Clone for GitLabSource {
    fn clone(&self) -> (r: GitLabSource)
        ensures
            r == *self,
    {
        GitLabSource {
            name: self.name.clone(),
            server_url: self.server_url.clone(),
            user_name: self.user_name.clone(),
            token: self.token.clone(),
        }
    }
}

impl Default for GitLabSource {
    fn default() -> (r: GitLabSource)
        ensures
            r.name@ == "GitLab"@,
            r.server_url@ == "https://gitlab.com/api/v4/"@,
            r.user_name@ == Seq::<char>::empty(),
            r.token@ == Seq::<char>::empty(),
    {
        GitLabSource {
            name: "GitLab".to_owned(),
            server_url: "https://gitlab.com/api/v4/".to_owned(),
            user_name: String::new(),
            token: String::new(),
        }
    }
}

/// The two lists that a query reads, one after the other.
#[derive(Clone, Copy, Debug, PartialEq, Eq, Structural)]
pub enum GitLabList {
    /// The open issues that are assigned to the user.
    Issues,
    /// The open merge requests that are assigned to the user.
    MergeRequests,
}

/// Where a query of a GitLab server stands.
#[derive(Debug)]
pub struct GitLabQuery {
    list: GitLabList,
    page: u64,
    items: Vec<Json>,
    next: usize,
    awaits_project: bool,
    tasks: Vec<Task>,
}

/// The mathematical content of a `GitLabQuery`.
pub struct GitLabQueryView {
    /// The list that is being read.
    pub list: GitLabList,
    /// The number of the page that was asked for last.
    pub page: u64,
    /// The items of that page, once it has arrived.
    pub items: Seq<JsonView>,
    /// How many of these items have given their task.
    pub next: nat,
    /// Whether the project of the next item is awaited, rather than a page.
    pub awaits_project: bool,
    /// The tasks so far.
    pub tasks: Seq<TaskView>,
}

/// How a query goes on after a reply.
#[derive(Debug)]
pub enum GitLabStep {
    /// The next request to send, and the state in which to await its reply.
    Fetch(GitLabQuery, HttpRequest),
    /// The query is complete.
    Done(Vec<Task>),
}

/// The mathematical content of a `GitLabStep`.
pub enum GitLabStepView {
    Fetch(GitLabQueryView, HttpRequestView),
    Done(Seq<TaskView>),
}

impl View for GitLabQuery {
    type V = GitLabQueryView;

    closed spec fn view(&self) -> GitLabQueryView {
        GitLabQueryView {
            list: self.list,
            page: self.page,
            items: element_views(self.items@),
            next: self.next as nat,
            awaits_project: self.awaits_project,
            tasks: task_views(self.tasks@),
        }
    }
}

impl GitLabQuery {
    #[verifier::type_invariant]
    spec fn well_formed(self) -> bool {
        self.next <= self.items@.len() && (self.awaits_project ==> self.next < self.items@.len())
    }
}

impl View for GitLabStep {
    type V = GitLabStepView;

    open spec fn view(&self) -> GitLabStepView {
        match self {
            GitLabStep::Fetch(state, request) => GitLabStepView::Fetch(state@, request@),
            GitLabStep::Done(tasks) => GitLabStepView::Done(task_views(tasks@)),
        }
    }
}

/// What a step gives: how to go on, or the failure that ends the query.
pub type StepOutcome = Result<GitLabStepView, SourceErrorView>;

/// The contents of what a step gave.
pub open spec fn step_outcome(r: Result<GitLabStep, SourceError>) -> StepOutcome {
    match r {
        Ok(step) => Ok(step@),
        Err(e) => Err(e@),
    }
}

/// The contents of a reply: a document or the failure to get one.
pub open spec fn reply_view(reply: Result<Json, SourceError>) -> Result<JsonView, SourceErrorView> {
    match reply {
        Ok(document) => Ok(document@),
        Err(e) => Err(e@),
    }
}

/// A request with the secret as private token, or as it is where there
/// is no secret.
pub open spec fn with_token(request: HttpRequestView, secret: Option<Seq<char>>) -> HttpRequestView {
    match secret {
        Some(secret) => HttpRequestView {
            headers: request.headers.push(("PRIVATE-TOKEN"@, secret)),
            ..request
        },
        None => request,
    }
}

/// The path of a list.
pub open spec fn list_path(list: GitLabList) -> Seq<char> {
    match list {
        GitLabList::Issues => "/issues"@,
        GitLabList::MergeRequests => "/merge_requests"@,
    }
}

/// The request for one page of a list: what is open and assigned to the
/// configured user.
pub open spec fn page_request(
    source: GitLabSourceView,
    secret: Option<Seq<char>>,
    list: GitLabList,
    page: u64,
) -> HttpRequestView {
    with_token(
        HttpRequestView {
            url: source.server_url + list_path(list),
            headers: Seq::empty(),
            query: seq![
                ("assignee_username"@, source.user_name),
                ("state"@, "opened"@),
                ("scope"@, "all"@),
                ("page"@, decimal_digits(page as nat)),
            ],
        },
        secret,
    )
}

/// The request for the project with the given number.
pub open spec fn project_request(
    source: GitLabSourceView,
    secret: Option<Seq<char>>,
    project: u64,
) -> HttpRequestView {
    with_token(
        plain_request(source.server_url + "/projects/"@ + decimal_digits(project as nat)),
        secret,
    )
}

/// The name of a project after the reply to the request for it: its name
/// with namespace, or the name of the source where the request failed or
/// the reply holds no such name.
pub open spec fn project_name(
    source: GitLabSourceView,
    reply: Result<JsonView, SourceErrorView>,
) -> Seq<char> {
    match reply {
        Ok(document) => match document.field("name_with_namespace"@).text() {
            Some(name) => name,
            None => source.name,
        },
        Err(_) => source.name,
    }
}

/// The text in a field, empty where the field holds none.
pub open spec fn text_or_empty(value: JsonView) -> Seq<char> {
    match value.text() {
        Some(text) => text,
        None => Seq::empty(),
    }
}

/// The task that an issue or merge request of the given project stands
/// for. It fails where the due date or else the date of creation is a
/// text that is no date.
pub open spec fn item_task(project: Seq<char>, item: JsonView) -> Result<TaskView, SourceErrorView> {
    match (day_field(item.field("due_date"@)), instant_field(item.field("created_at"@))) {
        (Err(e), _) => Err(e),
        (_, Err(e)) => Err(e),
        (Ok(due), Ok(created)) => Ok(
            TaskView {
                project: labelled(GITLAB_ICON@, project),
                title: text_or_empty(item.field("title"@)),
                description: text_or_empty(item.field("web_url"@)),
                due,
                created,
                id: Some(text_or_empty(item.field("web_url"@))),
            },
        ),
    }
}

/// How a query goes on when a list has no more pages: the merge requests
/// follow the issues, and the end of the merge requests is the end of the
/// query.
pub open spec fn after_list(
    source: GitLabSourceView,
    secret: Option<Seq<char>>,
    state: GitLabQueryView,
) -> GitLabStepView {
    match state.list {
        GitLabList::Issues => GitLabStepView::Fetch(
            GitLabQueryView {
                list: GitLabList::MergeRequests,
                page: 1,
                items: Seq::empty(),
                next: 0,
                awaits_project: false,
                tasks: state.tasks,
            },
            page_request(source, secret, GitLabList::MergeRequests, 1),
        ),
        GitLabList::MergeRequests => GitLabStepView::Done(state.tasks),
    }
}

/// How a query goes on when all items of a page have given their task:
/// with the next page, as long as pages can be counted.
pub open spec fn after_page(
    source: GitLabSourceView,
    secret: Option<Seq<char>>,
    state: GitLabQueryView,
) -> GitLabStepView {
    if state.page == u64::MAX {
        after_list(source, secret, state)
    } else {
        GitLabStepView::Fetch(
            GitLabQueryView {
                page: (state.page + 1) as u64,
                items: Seq::empty(),
                next: 0,
                awaits_project: false,
                ..state
            },
            page_request(source, secret, state.list, (state.page + 1) as u64),
        )
    }
}

/// How a query goes on with the items of a page that have not given
/// their task yet: an item that names a project waits for the reply to
/// the request for it; an item that names none gives its task under the
/// name of the source. The first item that cannot be read ends the query
/// with its failure.
pub open spec fn with_items(
    source: GitLabSourceView,
    secret: Option<Seq<char>>,
    state: GitLabQueryView,
) -> StepOutcome
    decreases state.items.len() - state.next,
{
    if state.next >= state.items.len() {
        Ok(after_page(source, secret, state))
    } else {
        let item = state.items[state.next as int];
        match item.field("project_id"@).unsigned() {
            Some(project) => Ok(
                GitLabStepView::Fetch(
                    GitLabQueryView { awaits_project: true, ..state },
                    project_request(source, secret, project),
                ),
            ),
            None => match item_task(source.name, item) {
                Err(e) => Err(e),
                Ok(task) => with_items(
                    source,
                    secret,
                    GitLabQueryView { next: state.next + 1, tasks: state.tasks.push(task), ..state },
                ),
            },
        }
    }
}

/// How a query goes on after a reply. Where a project was awaited, the
/// item gives its task under the name in the reply, and the rest of the
/// page follows. Where a page was awaited, a failure to get it ends the
/// query; a page without items ends the list; the items of any other
/// page give their tasks.
pub open spec fn next_step(
    source: GitLabSourceView,
    secret: Option<Seq<char>>,
    state: GitLabQueryView,
    reply: Result<JsonView, SourceErrorView>,
) -> StepOutcome {
    if state.awaits_project {
        match item_task(project_name(source, reply), state.items[state.next as int]) {
            Err(e) => Err(e),
            Ok(task) => with_items(
                source,
                secret,
                GitLabQueryView {
                    next: state.next + 1,
                    tasks: state.tasks.push(task),
                    awaits_project: false,
                    ..state
                },
            ),
        }
    } else {
        match reply {
            Err(e) => Err(e),
            Ok(document) => match document.elements() {
                Some(items) if items.len() > 0 => with_items(
                    source,
                    secret,
                    GitLabQueryView { items, next: 0, ..state },
                ),
                _ => Ok(after_list(source, secret, state)),
            },
        }
    }
}

/// What comes back for a request: a document, or the failure to get one.
pub type Reply = Result<JsonView, SourceErrorView>;

/// One page of a list with the replies to the requests for the projects
/// of its items, in the order of the items that name one.
pub type Page = (Seq<JsonView>, Seq<Reply>);

/// Whether an item names its project by a number.
pub open spec fn names_project(item: JsonView) -> bool {
    item.field("project_id"@).unsigned() is Some
}

/// Whether the dates of an item can be read.
pub open spec fn is_readable(item: JsonView) -> bool {
    day_field(item.field("due_date"@)) is Ok && instant_field(item.field("created_at"@)) is Ok
}

/// The number of items that name a project.
pub open spec fn lookups_of(items: Seq<JsonView>) -> nat
    decreases items.len(),
{
    if items.len() == 0 {
        0
    } else if names_project(items[0]) {
        1 + lookups_of(items.drop_first())
    } else {
        lookups_of(items.drop_first())
    }
}

/// The tasks of the items of a page, in their order: each under the name
/// that the reply for its project gives, or under the name of the source
/// where it names no project.
pub open spec fn page_tasks(
    source: GitLabSourceView,
    items: Seq<JsonView>,
    lookups: Seq<Reply>,
) -> Seq<TaskView>
    decreases items.len(),
{
    if items.len() == 0 {
        Seq::empty()
    } else if names_project(items[0]) {
        seq![item_task(project_name(source, lookups[0]), items[0])->Ok_0] + page_tasks(
            source,
            items.drop_first(),
            lookups.drop_first(),
        )
    } else {
        seq![item_task(source.name, items[0])->Ok_0] + page_tasks(
            source,
            items.drop_first(),
            lookups,
        )
    }
}

/// Where a query stands after replies, one for each request that it
/// makes: every reply is the reply to the request of the step before. A
/// query that has ended stays as it is.
pub open spec fn after_replies(
    source: GitLabSourceView,
    secret: Option<Seq<char>>,
    step: StepOutcome,
    replies: Seq<Reply>,
) -> StepOutcome
    decreases replies.len(),
{
    if replies.len() == 0 {
        step
    } else {
        match step {
            Ok(GitLabStepView::Fetch(state, _)) => after_replies(
                source,
                secret,
                next_step(source, secret, state, replies[0]),
                replies.drop_first(),
            ),
            _ => step,
        }
    }
}

/// Whether a page has items, all of which can be read, and a reply for
/// each item that names a project.
pub open spec fn is_answered(page: Page) -> bool {
    &&& page.0.len() > 0
    &&& forall|i: int| 0 <= i < page.0.len() ==> is_readable(#[trigger] page.0[i])
    &&& page.1.len() == lookups_of(page.0)
}

/// The replies of a list, page after page: each page and behind it the
/// replies for the projects of its items.
pub open spec fn listing_replies(pages: Seq<Page>) -> Seq<Reply>
    decreases pages.len(),
{
    if pages.len() == 0 {
        Seq::empty()
    } else {
        seq![Ok::<JsonView, SourceErrorView>(JsonView::Array(pages[0].0))] + pages[0].1
            + listing_replies(pages.drop_first())
    }
}

/// The tasks of the items of a list, page after page.
pub open spec fn listing_tasks(source: GitLabSourceView, pages: Seq<Page>) -> Seq<TaskView>
    decreases pages.len(),
{
    if pages.len() == 0 {
        Seq::empty()
    } else {
        page_tasks(source, pages[0].0, pages[0].1) + listing_tasks(source, pages.drop_first())
    }
}

proof fn lemma_after_replies_concat(
    source: GitLabSourceView,
    secret: Option<Seq<char>>,
    step: StepOutcome,
    first: Seq<Reply>,
    second: Seq<Reply>,
)
    ensures
        after_replies(source, secret, step, first + second) == after_replies(
            source,
            secret,
            after_replies(source, secret, step, first),
            second,
        ),
    decreases first.len(),
{
    if first.len() == 0 {
        assert(first + second =~= second);
    } else {
        assert((first + second).drop_first() =~= first.drop_first() + second);
        assert((first + second)[0] == first[0]);
        match step {
            Ok(GitLabStepView::Fetch(state, _)) => {
                lemma_after_replies_concat(
                    source,
                    secret,
                    next_step(source, secret, state, first[0]),
                    first.drop_first(),
                    second,
                );
            },
            _ => {},
        }
    }
}

proof fn lemma_rest_of_page(
    source: GitLabSourceView,
    secret: Option<Seq<char>>,
    state: GitLabQueryView,
    lookups: Seq<Reply>,
)
    requires
        !state.awaits_project,
        state.next <= state.items.len(),
        forall|i: int| state.next <= i < state.items.len() ==> is_readable(#[trigger] state.items[i]),
        lookups.len() == lookups_of(state.items.skip(state.next as int)),
    ensures
        after_replies(source, secret, with_items(source, secret, state), lookups) == Ok::<
            GitLabStepView,
            SourceErrorView,
        >(
            after_page(
                source,
                secret,
                GitLabQueryView {
                    next: state.items.len(),
                    tasks: state.tasks + page_tasks(
                        source,
                        state.items.skip(state.next as int),
                        lookups,
                    ),
                    ..state
                },
            ),
        ),
    decreases state.items.len() - state.next,
{
    let rest = state.items.skip(state.next as int);
    if state.next < state.items.len() {
        let item = state.items[state.next as int];
        assert(rest[0] == item);
        assert(rest.drop_first() =~= state.items.skip(state.next as int + 1));
        assert(is_readable(item));
        if names_project(item) {
            let task = item_task(project_name(source, lookups[0]), item)->Ok_0;
            let following = GitLabQueryView {
                next: state.next + 1,
                tasks: state.tasks.push(task),
                ..state
            };
            lemma_rest_of_page(source, secret, following, lookups.drop_first());
            assert(following.tasks + page_tasks(source, rest.drop_first(), lookups.drop_first())
                =~= state.tasks + page_tasks(source, rest, lookups));
        } else {
            let task = item_task(source.name, item)->Ok_0;
            let following = GitLabQueryView {
                next: state.next + 1,
                tasks: state.tasks.push(task),
                ..state
            };
            lemma_rest_of_page(source, secret, following, lookups);
            assert(following.tasks + page_tasks(source, rest.drop_first(), lookups) =~= state.tasks
                + page_tasks(source, rest, lookups));
        }
    } else {
        assert(state.tasks + page_tasks(source, rest, lookups) =~= state.tasks);
    }
}

/// A page gives each of its items once: after a page whose items can all
/// be read, and after the replies for the projects that its items name,
/// the tasks of the items stand behind the tasks so far, in the order of
/// the page, and the next page is asked for.
pub proof fn law_page_gives_each_item_once(
    source: GitLabSourceView,
    secret: Option<Seq<char>>,
    state: GitLabQueryView,
    page: Page,
)
    requires
        !state.awaits_project,
        state.page < u64::MAX,
        is_answered(page),
    ensures
        after_replies(
            source,
            secret,
            next_step(source, secret, state, Ok(JsonView::Array(page.0))),
            page.1,
        ) == Ok::<GitLabStepView, SourceErrorView>(
            GitLabStepView::Fetch(
                GitLabQueryView {
                    page: (state.page + 1) as u64,
                    items: Seq::empty(),
                    next: 0,
                    tasks: state.tasks + page_tasks(source, page.0, page.1),
                    ..state
                },
                page_request(source, secret, state.list, (state.page + 1) as u64),
            ),
        ),
{
    assert(page.0.skip(0) =~= page.0);
    lemma_rest_of_page(source, secret, GitLabQueryView { items: page.0, next: 0, ..state }, page.1);
}

/// The first page without items ends a list: the merge requests follow
/// the issues, and the end of the merge requests is the end of the query.
pub proof fn law_empty_page_ends_the_list(
    source: GitLabSourceView,
    secret: Option<Seq<char>>,
    state: GitLabQueryView,
)
    requires
        !state.awaits_project,
    ensures
        next_step(source, secret, state, Ok(JsonView::Array(Seq::empty()))) == Ok::<
            GitLabStepView,
            SourceErrorView,
        >(after_list(source, secret, state)),
{
}

/// A list gives each item of its pages once: after pages whose items can
/// all be read, each with the replies for the projects that its items
/// name, and one page without items behind them, the list has ended with
/// the tasks of all items behind the tasks so far, page after page and
/// in the order of each page. No further page of the list is asked for.
pub proof fn law_listing_gives_each_item_once(
    source: GitLabSourceView,
    secret: Option<Seq<char>>,
    state: GitLabQueryView,
    request: HttpRequestView,
    pages: Seq<Page>,
)
    requires
        !state.awaits_project,
        state.page + pages.len() <= u64::MAX,
        forall|i: int| 0 <= i < pages.len() ==> is_answered(#[trigger] pages[i]),
    ensures
        after_replies(
            source,
            secret,
            Ok(GitLabStepView::Fetch(state, request)),
            listing_replies(pages).push(Ok(JsonView::Array(Seq::empty()))),
        ) == Ok::<GitLabStepView, SourceErrorView>(
            after_list(
                source,
                secret,
                GitLabQueryView { tasks: state.tasks + listing_tasks(source, pages), ..state },
            ),
        ),
    decreases pages.len(),
{
    let end: Reply = Ok(JsonView::Array(Seq::empty()));
    let start: StepOutcome = Ok(GitLabStepView::Fetch(state, request));
    if pages.len() == 0 {
        let replies = listing_replies(pages).push(end);
        assert(replies[0] == end);
        assert(replies.drop_first() =~= Seq::<Reply>::empty());
        let ended = next_step(source, secret, state, end);
        assert(after_replies(source, secret, ended, Seq::empty()) == ended);
        assert(after_replies(source, secret, start, replies) == ended);
        assert(state.tasks + listing_tasks(source, pages) =~= state.tasks);
    } else {
        let page = pages[0];
        let rest = pages.drop_first();
        let head: Reply = Ok(JsonView::Array(page.0));
        let tail = listing_replies(rest).push(end);
        let replies = listing_replies(pages).push(end);
        assert(is_answered(page));
        assert(replies[0] == head);
        assert(replies.drop_first() =~= page.1 + tail);
        let first = next_step(source, secret, state, head);
        lemma_after_replies_concat(source, secret, first, page.1, tail);
        law_page_gives_each_item_once(source, secret, state, page);
        assert(after_replies(source, secret, start, replies) == after_replies(
            source,
            secret,
            first,
            page.1 + tail,
        ));
        let following = GitLabQueryView {
            page: (state.page + 1) as u64,
            items: Seq::empty(),
            next: 0,
            tasks: state.tasks + page_tasks(source, page.0, page.1),
            ..state
        };
        assert forall|i: int| 0 <= i < rest.len() implies is_answered(#[trigger] rest[i]) by {
            assert(rest[i] == pages[i + 1]);
        }
        law_listing_gives_each_item_once(
            source,
            secret,
            following,
            page_request(source, secret, state.list, (state.page + 1) as u64),
            rest,
        );
        assert(following.tasks + listing_tasks(source, rest) =~= state.tasks + listing_tasks(
            source,
            pages,
        ));
    }
}

/// The state in which a query begins: the first page of the issues is
/// awaited, and there are no tasks yet.
pub open spec fn first_state() -> GitLabQueryView {
    GitLabQueryView {
        list: GitLabList::Issues,
        page: 1,
        items: Seq::empty(),
        next: 0,
        awaits_project: false,
        tasks: Seq::empty(),
    }
}

/// A query gives each item once: where the pages of the issues and then
/// the pages of the merge requests arrive, each list with one page
/// without items behind its pages, and every item can be read, the query
/// ends with the tasks of all items, the issues first, in the order of
/// the pages and of the items on them.
pub proof fn law_query_gives_each_item_once(
    source: GitLabSourceView,
    secret: Option<Seq<char>>,
    issues: Seq<Page>,
    merge_requests: Seq<Page>,
)
    requires
        issues.len() < u64::MAX,
        merge_requests.len() < u64::MAX,
        forall|i: int| 0 <= i < issues.len() ==> is_answered(#[trigger] issues[i]),
        forall|i: int| 0 <= i < merge_requests.len() ==> is_answered(#[trigger] merge_requests[i]),
    ensures
        after_replies(
            source,
            secret,
            Ok(
                GitLabStepView::Fetch(
                    first_state(),
                    page_request(source, secret, GitLabList::Issues, 1),
                ),
            ),
            listing_replies(issues).push(Ok(JsonView::Array(Seq::empty()))) + listing_replies(
                merge_requests,
            ).push(Ok(JsonView::Array(Seq::empty()))),
        ) == Ok::<GitLabStepView, SourceErrorView>(
            GitLabStepView::Done(
                listing_tasks(source, issues) + listing_tasks(source, merge_requests),
            ),
        ),
{
    let end: Reply = Ok(JsonView::Array(Seq::empty()));
    let start: StepOutcome = Ok(
        GitLabStepView::Fetch(first_state(), page_request(source, secret, GitLabList::Issues, 1)),
    );
    let first = listing_replies(issues).push(end);
    let second = listing_replies(merge_requests).push(end);
    lemma_after_replies_concat(source, secret, start, first, second);
    law_listing_gives_each_item_once(
        source,
        secret,
        first_state(),
        page_request(source, secret, GitLabList::Issues, 1),
        issues,
    );
    let between = GitLabQueryView {
        list: GitLabList::MergeRequests,
        tasks: first_state().tasks + listing_tasks(source, issues),
        ..first_state()
    };
    law_listing_gives_each_item_once(
        source,
        secret,
        between,
        page_request(source, secret, GitLabList::MergeRequests, 1),
        merge_requests,
    );
    assert(between.tasks + listing_tasks(source, merge_requests) =~= listing_tasks(source, issues)
        + listing_tasks(source, merge_requests));
}

/// A reply as a document: what the body of a response holds, or the
/// failure to get a response. See `read_document`.
pub open spec fn reply_of(response: Result<&str, SourceError>) -> Result<JsonView, SourceErrorView> {
    match response {
        Ok(body) => read_document(body@),
        Err(e) => Err(e@),
    }
}

fn text_of(value: &Json) -> (r: String)
    ensures
        r@ == text_or_empty(value@),
{
    match value.as_str() {
        Some(text) => text.to_owned(),
        None => String::new(),
    }
}

/// The contents of a task or the failure to give one.
pub open spec fn task_outcome(r: Result<Task, SourceError>) -> Result<TaskView, SourceErrorView> {
    match r {
        Ok(task) => Ok(task@),
        Err(e) => Err(e@),
    }
}

/// Reads an issue or merge request of the given project. See `item_task`.
pub fn read_item(project: &str, item: &Json) -> (r: Result<Task, SourceError>)
    ensures
        task_outcome(r) == item_task(project@, item@),
{
    let due = read_day(item.get("due_date"))?;
    let created = read_instant(item.get("created_at"))?;
    Ok(
        Task {
            project: label(GITLAB_ICON, project),
            title: text_of(item.get("title")),
            description: text_of(item.get("web_url")),
            due,
            created,
            id: Some(text_of(item.get("web_url"))),
        },
    )
}

fn authorize(request: HttpRequest, secret: Option<&str>) -> (r: HttpRequest)
    ensures
        r@ == with_token(request@, secret_text(secret)),
{
    match secret {
        Some(secret) => request.set("PRIVATE-TOKEN", secret.to_owned()),
        None => request,
    }
}

impl GitLabSource {
    fn request_page(&self, secret: Option<&str>, list: GitLabList, page: u64) -> (r: HttpRequest)
        ensures
            r@ == page_request(self@, secret_text(secret), list, page),
    {
        let mut url = self.server_url.clone();
        match list {
            GitLabList::Issues => url.append("/issues"),
            GitLabList::MergeRequests => url.append("/merge_requests"),
        }
        let mut number = String::new();
        append_decimal(&mut number, page);
        let request = HttpRequest::get(url).query(
            "assignee_username",
            self.user_name.clone(),
        ).query("state", "opened".to_owned()).query("scope", "all".to_owned()).query("page", number);
        assert(request@.query =~= page_request(self@, secret_text(secret), list, page).query);
        authorize(request, secret)
    }

    fn request_project(&self, secret: Option<&str>, project: u64) -> (r: HttpRequest)
        ensures
            r@ == project_request(self@, secret_text(secret), project),
    {
        let mut url = self.server_url.clone();
        url.append("/projects/");
        append_decimal(&mut url, project);
        authorize(HttpRequest::get(url), secret)
    }

    /// The first request of a query, for the first page of the issues,
    /// and the state in which to await its reply.
    pub fn begin(&self, secret: Option<&str>) -> (r: (GitLabQuery, HttpRequest))
        ensures
            r.0@ == first_state(),
            r.1@ == page_request(self@, secret_text(secret), GitLabList::Issues, 1),
    {
        let state = GitLabQuery {
            list: GitLabList::Issues,
            page: 1,
            items: Vec::new(),
            next: 0,
            awaits_project: false,
            tasks: Vec::new(),
        };
        assert(state@.items =~= Seq::empty());
        assert(state@.tasks =~= Seq::empty());
        (state, self.request_page(secret, GitLabList::Issues, 1))
    }

    fn end_list(&self, secret: Option<&str>, list: GitLabList, tasks: Vec<Task>) -> (r: GitLabStep)
        ensures
            forall|state: GitLabQueryView|
                state.list == list && state.tasks == task_views(tasks@) ==> r@ == #[trigger] after_list(
                    self@,
                    secret_text(secret),
                    state,
                ),
    {
        match list {
            GitLabList::Issues => {
                let state = GitLabQuery {
                    list: GitLabList::MergeRequests,
                    page: 1,
                    items: Vec::new(),
                    next: 0,
                    awaits_project: false,
                    tasks,
                };
                assert(state@.items =~= Seq::empty());
                GitLabStep::Fetch(state, self.request_page(secret, GitLabList::MergeRequests, 1))
            },
            GitLabList::MergeRequests => GitLabStep::Done(tasks),
        }
    }

    fn go_on(&self, secret: Option<&str>, state: GitLabQuery) -> (r: Result<GitLabStep, SourceError>)
        requires
            !state.awaits_project,
        ensures
            step_outcome(r) == with_items(self@, secret_text(secret), state@),
    {
        proof {
            use_type_invariant(&state);
        }
        let GitLabQuery { list, page, items, next, awaits_project: _, tasks } = state;
        let mut next = next;
        let mut tasks = tasks;
        let ghost views = element_views(items@);
        loop
            invariant
                next <= items.len(),
                views == element_views(items@),
                with_items(self@, secret_text(secret), state@) == with_items(
                    self@,
                    secret_text(secret),
                    GitLabQueryView {
                        list,
                        page,
                        items: views,
                        next: next as nat,
                        awaits_project: false,
                        tasks: task_views(tasks@),
                    },
                ),
            decreases items.len() - next,
        {
            if next >= items.len() {
                if page == u64::MAX {
                    return Ok(self.end_list(secret, list, tasks));
                }
                let state = GitLabQuery {
                    list,
                    page: page + 1,
                    items: Vec::new(),
                    next: 0,
                    awaits_project: false,
                    tasks,
                };
                assert(state@.items =~= Seq::empty());
                return Ok(GitLabStep::Fetch(state, self.request_page(secret, list, page + 1)));
            }
            match items[next].get("project_id").as_u64() {
                Some(project) => {
                    let state = GitLabQuery { list, page, items, next, awaits_project: true, tasks };
                    return Ok(GitLabStep::Fetch(state, self.request_project(secret, project)));
                },
                None => {
                    let ghost before = task_views(tasks@);
                    let task = read_item(self.name.as_str(), &items[next])?;
                    tasks.push(task);
                    assert(task_views(tasks@) =~= before.push(task@));
                    next = next + 1;
                },
            }
        }
    }

    /// Goes on with a query after a reply. See `next_step`.
    pub fn proceed(
        &self,
        secret: Option<&str>,
        state: GitLabQuery,
        reply: Result<Json, SourceError>,
    ) -> (r: Result<GitLabStep, SourceError>)
        ensures
            step_outcome(r) == next_step(self@, secret_text(secret), state@, reply_view(reply)),
    {
        proof {
            use_type_invariant(&state);
        }
        let GitLabQuery { list, page, items, next, awaits_project, tasks } = state;
        let _ = items.len();
        if awaits_project {
            let project = match &reply {
                Ok(document) => match document.get("name_with_namespace").as_str() {
                    Some(name) => name.to_owned(),
                    None => self.name.clone(),
                },
                Err(_) => self.name.clone(),
            };
            let task = read_item(project.as_str(), &items[next])?;
            let ghost before = task_views(tasks@);
            let mut tasks = tasks;
            tasks.push(task);
            assert(task_views(tasks@) =~= before.push(task@));
            self.go_on(
                secret,
                GitLabQuery { list, page, items, next: next + 1, awaits_project: false, tasks },
            )
        } else {
            match reply {
                Err(e) => Err(e),
                Ok(Json::Array(page_items)) => {
                    proof {
                        lemma_view_of_array(page_items);
                    }
                    if page_items.len() > 0 {
                        self.go_on(
                            secret,
                            GitLabQuery {
                                list,
                                page,
                                items: page_items,
                                next: 0,
                                awaits_project: false,
                                tasks,
                            },
                        )
                    } else {
                        Ok(self.end_list(secret, list, tasks))
                    }
                },
                Ok(_) => Ok(self.end_list(secret, list, tasks)),
            }
        }
    }

    /// Goes on with a query after the response to the awaited request:
    /// its body, or the failure to get one. See `next_step` and
    /// `reply_of`.
    pub fn query_tasks(
        &self,
        secret: Option<&str>,
        state: GitLabQuery,
        response: Result<&str, SourceError>,
    ) -> (r: Result<GitLabStep, SourceError>)
        ensures
            step_outcome(r) == next_step(self@, secret_text(secret), state@, reply_of(response)),
    {
        let reply = match response {
            Ok(body) => parse(body),
            Err(e) => Err(e),
        };
        self.proceed(secret, state, reply)
    }
}

} // verus!
