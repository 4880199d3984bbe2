//! Work packages of an OpenProject server.

use super::{label, labelled, secret_text, OPENPROJECT_ICON};
use crate::error::{ErrorKind, SourceError, SourceErrorView};
use crate::fields::{can_start, day_field, read_day, read_rfc3339, rfc3339_field, startable};
use crate::http::{base64_encode, base64_text, plain_request, HttpRequest, HttpRequestView};
use crate::json::{
    element_views, parse, read_document, Json, JsonView,
};
use crate::tasks::{
    collect, item_outcome, lemma_collect_fails, query_outcome, task_views, ItemOutcome,
    QueryOutcome, Task, TaskView,
};
use crate::text::{append_decimal, append_signed_decimal, decimal, decimal_digits};
use crate::time::Timestamp;
use vstd::prelude::*;
use vstd::string::*;

verus! {

/// The configuration of an OpenProject server as a source of tasks.
#[derive(Debug)]
pub struct OpenProjectSource {
    /// The name under which the source is shown and found.
    pub name: String,
    /// The address of the server, in front of the path of every request.
    pub server_url: String,
    /// The token as the user entered it, on its way to where secrets are
    /// kept. No query reads it: a query takes the secret as an argument.
    pub token: String,
}

impl Clone for OpenProjectSource {
    fn clone(&self) -> (r: OpenProjectSource)
        ensures
            r == *self,
    {
        OpenProjectSource {
            name: self.name.clone(),
            server_url: self.server_url.clone(),
            token: self.token.clone(),
        }
    }
}

impl Default for OpenProjectSource {
    fn default() -> (r: OpenProjectSource)
        ensures
            r.name@ == "OpenProject"@,
            r.server_url@ == "https://community.openproject.org"@,
            r.token@ == Seq::<char>::empty(),
    {
        OpenProjectSource {
            name: "OpenProject".to_owned(),
            server_url: "https://community.openproject.org".to_owned(),
            token: String::new(),
        }
    }
}

/// The failure for a work package that is no JSON object.
pub open spec fn not_an_object() -> SourceErrorView {
    SourceErrorView { kind: ErrorKind::Schema, message: "Response is not a JSON object"@ }
}

/// The failure for a work package without a whole number as its `id`.
pub open spec fn id_not_integer() -> SourceErrorView {
    SourceErrorView {
        kind: ErrorKind::Schema,
        message: "'id' field in response is not an integer"@,
    }
}

/// The failure for a work package that links to no project with a text
/// as its title.
pub open spec fn project_not_text() -> SourceErrorView {
    SourceErrorView {
        kind: ErrorKind::Schema,
        message: "Title of the project in response is not a text"@,
    }
}

/// The title of the project that a work package links to; nothing where
/// it links to none or the title is no text.
pub open spec fn project_title(work_package: JsonView) -> Option<Seq<char>> {
    work_package.field("_links"@).field("project"@).field("title"@).text()
}

/// The subject of a work package, `<unknown>` where it has none.
pub open spec fn subject(work_package: JsonView) -> Seq<char> {
    match work_package.field("subject"@).text() {
        Some(text) => text,
        None => "<unknown>"@,
    }
}

/// The address at which a work package is shown.
pub open spec fn activity_url(server_url: Seq<char>, id: i64) -> Seq<char> {
    server_url + "/work_packages/"@ + decimal(id as int) + "/activity"@
}

/// The task that a work package stands for at `now`. A work package
/// whose start date lies in the future gives none. It fails where the
/// value is no object, where `id` is no whole number, where it links to
/// no project with a text as its title, and where `createdAt`, `startDate` or, for a
/// work package that can be started, `dueDate` holds a text that is no
/// date: the first of these in that order decides.
pub open spec fn work_package_task(
    server_url: Seq<char>,
    work_package: JsonView,
    now: Timestamp,
) -> ItemOutcome {
    if !(work_package is Object) {
        Err(not_an_object())
    } else {
        match (
            work_package.field("id"@).integer(),
            project_title(work_package),
            rfc3339_field(work_package.field("createdAt"@)),
            day_field(work_package.field("startDate"@)),
            day_field(work_package.field("dueDate"@)),
        ) {
            (None, _, _, _, _) => Err(id_not_integer()),
            (_, None, _, _, _) => Err(project_not_text()),
            (_, _, Err(e), _, _) => Err(e),
            (_, _, _, Err(e), _) => Err(e),
            (Some(id), Some(project), Ok(created), Ok(start), due) => if !startable(start, now) {
                Ok(None)
            } else {
                match due {
                    Err(e) => Err(e),
                    Ok(due) => Ok(
                        Some(
                            TaskView {
                                project: labelled(OPENPROJECT_ICON@, project),
                                title: subject(work_package),
                                description: activity_url(server_url, id),
                                due,
                                created,
                                id: Some(decimal(id as int)),
                            },
                        ),
                    ),
                }
            },
        }
    }
}

impl OpenProjectSource {
    /// Reads one work package of a response. See `work_package_task`.
    pub fn create_task(&self, work_package: &Json, now: Timestamp) -> (r: Result<
        Option<Task>,
        SourceError,
    >)
        ensures
            item_outcome(r) == work_package_task(self.server_url@, work_package@, now),
    {
        match work_package {
            Json::Object(_) => {},
            _ => {
                return Err(
                    SourceError::new(ErrorKind::Schema, "Response is not a JSON object".to_owned()),
                );
            },
        }
        let title = match work_package.get("subject").as_str() {
            Some(text) => text.to_owned(),
            None => "<unknown>".to_owned(),
        };
        let id = match work_package.get("id").as_i64() {
            Some(id) => id,
            None => {
                return Err(
                    SourceError::new(
                        ErrorKind::Schema,
                        "'id' field in response is not an integer".to_owned(),
                    ),
                );
            },
        };
        let mut url = self.server_url.clone();
        url.append("/work_packages/");
        append_signed_decimal(&mut url, id);
        url.append("/activity");
        let project = match work_package.get("_links").get("project").get("title").as_str() {
            Some(title) => label(OPENPROJECT_ICON, title),
            None => {
                return Err(
                    SourceError::new(
                        ErrorKind::Schema,
                        "Title of the project in response is not a text".to_owned(),
                    ),
                );
            },
        };
        let created = read_rfc3339(work_package.get("createdAt"))?;
        let start = read_day(work_package.get("startDate"))?;
        if !can_start(&start, &now) {
            return Ok(None);
        }
        let due = read_day(work_package.get("dueDate"))?;
        let mut id_text = String::new();
        append_signed_decimal(&mut id_text, id);
        Ok(Some(Task { project, title, description: url, due, created, id: Some(id_text) }))
    }
}

/// Where a query of an OpenProject server stands: the request whose
/// response is awaited, with what earlier responses gave.
#[derive(Debug)]
pub enum OpenProjectQuery {
    /// The definitions of the statuses are awaited.
    Statuses,
    /// The user who owns the secret is awaited; `closed` holds the
    /// statuses that count as closed.
    User { closed: Vec<u64> },
    /// The work packages are awaited.
    WorkPackages,
}

/// How a query goes on after a response.
#[derive(Debug)]
pub enum OpenProjectStep {
    /// The next request to send, and the state in which to await its response.
    Fetch(OpenProjectQuery, HttpRequest),
    /// The query is complete.
    Done(Vec<Task>),
}

/// The mathematical content of an `OpenProjectQuery`.
pub enum OpenProjectQueryView {
    Statuses,
    User { closed: Seq<u64> },
    WorkPackages,
}

/// The mathematical content of an `OpenProjectStep`.
pub enum OpenProjectStepView {
    Fetch(OpenProjectQueryView, HttpRequestView),
    Done(Seq<TaskView>),
}

impl View for OpenProjectQuery {
    type V = OpenProjectQueryView;

    open spec fn view(&self) -> OpenProjectQueryView {
        match self {
            OpenProjectQuery::Statuses => OpenProjectQueryView::Statuses,
            OpenProjectQuery::User { closed } => OpenProjectQueryView::User { closed: closed@ },
            OpenProjectQuery::WorkPackages => OpenProjectQueryView::WorkPackages,
        }
    }
}

impl View for OpenProjectStep {
    type V = OpenProjectStepView;

    open spec fn view(&self) -> OpenProjectStepView {
        match self {
            OpenProjectStep::Fetch(state, request) => OpenProjectStepView::Fetch(state@, request@),
            OpenProjectStep::Done(tasks) => OpenProjectStepView::Done(task_views(tasks@)),
        }
    }
}

/// The contents of what a step gave.
pub open spec fn step_outcome(r: Result<OpenProjectStep, SourceError>) -> Result<
    OpenProjectStepView,
    SourceErrorView,
> {
    match r {
        Ok(step) => Ok(step@),
        Err(e) => Err(e@),
    }
}

/// The elements that a collection of the server embeds; none where the
/// response embeds no list.
pub open spec fn embedded_elements(document: JsonView) -> Seq<JsonView> {
    match document.field("_embedded"@).field("elements"@).elements() {
        Some(items) => items,
        None => Seq::empty(),
    }
}

/// Whether a status definition is flagged as closed and has a number.
pub open spec fn is_closed_status(status: JsonView) -> bool {
    status.field("isClosed"@).boolean() == Some(true) && status.field("id"@).unsigned() is Some
}

/// The numbers of the status definitions that are flagged as closed, in
/// their order.
pub open spec fn closed_statuses(statuses: Seq<JsonView>) -> Seq<u64>
    decreases statuses.len(),
{
    if statuses.len() == 0 {
        Seq::empty()
    } else if is_closed_status(statuses.last()) {
        closed_statuses(statuses.drop_last()).push(
            statuses.last().field("id"@).unsigned()->0,
        )
    } else {
        closed_statuses(statuses.drop_last())
    }
}

/// The number of the user in a response, if it holds one.
pub open spec fn user_id(document: JsonView) -> Option<u64> {
    document.field("id"@).unsigned()
}

/// The failure for a response that holds no number of the user.
pub open spec fn user_without_id() -> SourceErrorView {
    SourceErrorView {
        kind: ErrorKind::Schema,
        message: "'id' field of the user in response is not a number"@,
    }
}

/// Numbers in decimal notation with commas between them.
pub open spec fn comma_separated(numbers: Seq<u64>) -> Seq<char>
    decreases numbers.len(),
{
    if numbers.len() == 0 {
        Seq::empty()
    } else if numbers.len() == 1 {
        decimal_digits(numbers[0] as nat)
    } else {
        comma_separated(numbers.drop_last()) + ","@ + decimal_digits(numbers.last() as nat)
    }
}

/// The filter that selects the work packages to show: assigned to the
/// user, of type 1, and in none of the closed statuses.
pub open spec fn work_package_filter(user: u64, closed: Seq<u64>) -> Seq<char> {
    "[{\"assignee\":{\"operator\":\"=\",\"values\":["@ + decimal_digits(user as nat)
        + "]}},{\"type\":{\"operator\":\"=\",\"values\":[1]}},{\"status\":{\"operator\":\"!\",\"values\":["@
        + comma_separated(closed) + "]}}]"@
}

/// A request with the secret as the key of basic authentication, or as it
/// is where there is no secret.
pub open spec fn authorized(request: HttpRequestView, secret: Option<Seq<char>>) -> HttpRequestView {
    match secret {
        Some(secret) => HttpRequestView {
            headers: request.headers.push(
                ("Authorization"@, "Basic "@ + base64_text("apikey:"@ + secret)),
            ),
            ..request
        },
        None => request,
    }
}

/// The request for the definitions of the statuses.
pub open spec fn statuses_request(server_url: Seq<char>, secret: Option<Seq<char>>) -> HttpRequestView {
    authorized(plain_request(server_url + "/api/v3/statuses"@), secret)
}

/// The request for the user who owns the secret.
pub open spec fn user_request(server_url: Seq<char>, secret: Option<Seq<char>>) -> HttpRequestView {
    authorized(plain_request(server_url + "/api/v3/users/me"@), secret)
}

/// The request for the work packages to show.
pub open spec fn work_packages_request(
    server_url: Seq<char>,
    secret: Option<Seq<char>>,
    user: u64,
    closed: Seq<u64>,
) -> HttpRequestView {
    authorized(
        HttpRequestView {
            query: seq![("filters"@, work_package_filter(user, closed))],
            ..plain_request(server_url + "/api/v3/work_packages"@)
        },
        secret,
    )
}

/// The tasks of the work packages in a response, in their order.
pub open spec fn work_package_tasks(
    server_url: Seq<char>,
    work_packages: Seq<JsonView>,
    now: Timestamp,
) -> QueryOutcome {
    collect(
        Seq::new(
            work_packages.len(),
            |i: int| work_package_task(server_url, work_packages[i], now),
        ),
    )
}

/// How a query goes on when the response to the awaited request holds
/// `document`: after the statuses the user is asked for, after the user
/// the work packages, and the work packages give the tasks. The query
/// ends with a failure where no document could be read from the
/// response, where the response on the user holds no number of the user,
/// and where a work package cannot be read.
pub open spec fn next_step(
    server_url: Seq<char>,
    secret: Option<Seq<char>>,
    state: OpenProjectQueryView,
    document: Result<JsonView, SourceErrorView>,
    now: Timestamp,
) -> Result<OpenProjectStepView, SourceErrorView> {
    match document {
        Err(e) => Err(e),
        Ok(document) => match state {
            OpenProjectQueryView::Statuses => Ok(
                OpenProjectStepView::Fetch(
                    OpenProjectQueryView::User {
                        closed: closed_statuses(embedded_elements(document)),
                    },
                    user_request(server_url, secret),
                ),
            ),
            OpenProjectQueryView::User { closed } => match user_id(document) {
                Some(user) => Ok(
                    OpenProjectStepView::Fetch(
                        OpenProjectQueryView::WorkPackages,
                        work_packages_request(server_url, secret, user, closed),
                    ),
                ),
                None => Err(user_without_id()),
            },
            OpenProjectQueryView::WorkPackages => match work_package_tasks(
                server_url,
                embedded_elements(document),
                now,
            ) {
                Ok(tasks) => Ok(OpenProjectStepView::Done(tasks)),
                Err(e) => Err(e),
            },
        },
    }
}

fn embedded<'a>(document: &'a Json) -> (r: Option<&'a Vec<Json>>)
    ensures
        match r {
            Some(items) => embedded_elements(document@) == element_views(items@),
            None => embedded_elements(document@) == Seq::<JsonView>::empty(),
        },
{
    document.get("_embedded").get("elements").members()
}

fn closed_status_ids(document: &Json) -> (r: Vec<u64>)
    ensures
        r@ == closed_statuses(embedded_elements(document@)),
{
    let mut closed: Vec<u64> = Vec::new();
    match embedded(document) {
        None => {},
        Some(items) => {
            let ghost views = element_views(items@);
            let mut i: usize = 0;
            while i < items.len()
                invariant
                    i <= items.len(),
                    views == element_views(items@),
                    closed@ == closed_statuses(views.take(i as int)),
                decreases items.len() - i,
            {
                let status = &items[i];
                proof {
                    let upto = views.take(i as int + 1);
                    assert(upto.drop_last() =~= views.take(i as int));
                }
                let is_closed = match status.get("isClosed").as_bool() {
                    Some(flag) => flag,
                    None => false,
                };
                if is_closed {
                    match status.get("id").as_u64() {
                        Some(id) => {
                            closed.push(id);
                        },
                        None => {},
                    }
                }
                i = i + 1;
            }
            assert(views.take(i as int) =~= views);
        },
    }
    closed
}

fn append_comma_separated(out: &mut String, numbers: &Vec<u64>)
    ensures
        final(out)@ == old(out)@ + comma_separated(numbers@),
{
    let mut i: usize = 0;
    while i < numbers.len()
        invariant
            i <= numbers.len(),
            out@ == old(out)@ + comma_separated(numbers@.take(i as int)),
        decreases numbers.len() - i,
    {
        assert(numbers@.take(i as int + 1).drop_last() =~= numbers@.take(i as int));
        if i > 0 {
            out.append(",");
        }
        append_decimal(out, numbers[i]);
        i = i + 1;
    }
    assert(numbers@.take(i as int) =~= numbers@);
}

fn filter_text(user: u64, closed: &Vec<u64>) -> (r: String)
    ensures
        r@ == work_package_filter(user, closed@),
{
    let mut r = "[{\"assignee\":{\"operator\":\"=\",\"values\":[".to_owned();
    append_decimal(&mut r, user);
    r.append(
        "]}},{\"type\":{\"operator\":\"=\",\"values\":[1]}},{\"status\":{\"operator\":\"!\",\"values\":[",
    );
    append_comma_separated(&mut r, closed);
    r.append("]}}]");
    r
}

fn authorize(request: HttpRequest, secret: Option<&str>) -> (r: HttpRequest)
    ensures
        r@ == authorized(request@, secret_text(secret)),
{
    match secret {
        Some(secret) => {
            let mut key = "apikey:".to_owned();
            key.append(secret);
            let mut value = "Basic ".to_owned();
            value.append(base64_encode(key.as_str()).as_str());
            request.set("Authorization", value)
        },
        None => request,
    }
}

impl OpenProjectSource {
    fn address(&self, path: &str) -> (r: String)
        ensures
            r@ == self.server_url@ + path@,
    {
        let mut url = self.server_url.clone();
        url.append(path);
        url
    }

    /// The first request of a query, for the definitions of the statuses,
    /// and the state in which to await its response.
    pub fn begin(&self, secret: Option<&str>) -> (r: (OpenProjectQuery, HttpRequest))
        ensures
            r.0@ == OpenProjectQueryView::Statuses,
            r.1@ == statuses_request(self.server_url@, secret_text(secret)),
    {
        let request = authorize(HttpRequest::get(self.address("/api/v3/statuses")), secret);
        (OpenProjectQuery::Statuses, request)
    }

    /// Goes on with a query whose awaited response holds `document`. See
    /// `next_step`.
    pub fn proceed(
        &self,
        secret: Option<&str>,
        state: OpenProjectQuery,
        document: &Json,
        now: Timestamp,
    ) -> (r: Result<OpenProjectStep, SourceError>)
        ensures
            step_outcome(r) == next_step(
                self.server_url@,
                secret_text(secret),
                state@,
                Ok(document@),
                now,
            ),
    {
        match state {
            OpenProjectQuery::Statuses => {
                let closed = closed_status_ids(document);
                let request = authorize(HttpRequest::get(self.address("/api/v3/users/me")), secret);
                Ok(OpenProjectStep::Fetch(OpenProjectQuery::User { closed }, request))
            },
            OpenProjectQuery::User { closed } => {
                let user = match document.get("id").as_u64() {
                    Some(id) => id,
                    None => {
                        return Err(
                            SourceError::new(
                                ErrorKind::Schema,
                                "'id' field of the user in response is not a number".to_owned(),
                            ),
                        );
                    },
                };
                let request = HttpRequest::get(self.address("/api/v3/work_packages")).query(
                    "filters",
                    filter_text(user, &closed),
                );
                Ok(OpenProjectStep::Fetch(OpenProjectQuery::WorkPackages, authorize(request, secret)))
            },
            OpenProjectQuery::WorkPackages => {
                let tasks = match embedded(document) {
                    Some(items) => self.read_work_packages(items, now)?,
                    None => {
                        let none: Vec<Json> = Vec::new();
                        self.read_work_packages(&none, now)?
                    },
                };
                Ok(OpenProjectStep::Done(tasks))
            },
        }
    }

    /// Reads the work packages of a response in their order, up to the
    /// first that cannot be read.
    pub fn read_work_packages(&self, items: &Vec<Json>, now: Timestamp) -> (r: Result<
        Vec<Task>,
        SourceError,
    >)
        ensures
            query_outcome(r) == work_package_tasks(self.server_url@, element_views(items@), now),
    {
        let mut result: Vec<Task> = Vec::new();
        let ghost views = element_views(items@);
        let ghost outcomes = Seq::new(
            views.len(),
            |i: int| work_package_task(self.server_url@, views[i], now),
        );
        assert(task_views(result@) =~= Seq::empty());
        let mut i: usize = 0;
        while i < items.len()
            invariant
                i <= items.len(),
                views == element_views(items@),
                outcomes == Seq::new(
                    views.len(),
                    |i: int| work_package_task(self.server_url@, views[i], now),
                ),
                collect(outcomes.take(i as int)) == Ok::<Seq<TaskView>, SourceErrorView>(
                    task_views(result@),
                ),
            decreases items.len() - i,
        {
            proof {
                let upto = outcomes.take(i as int + 1);
                assert(upto.drop_last() =~= outcomes.take(i as int));
            }
            let ghost before = task_views(result@);
            match self.create_task(&items[i], now) {
                Err(e) => {
                    proof {
                        lemma_collect_fails(outcomes, i as int);
                    }
                    return Err(e);
                },
                Ok(Some(task)) => {
                    result.push(task);
                    assert(task_views(result@) =~= before.push(task@));
                },
                Ok(None) => {},
            }
            i = i + 1;
        }
        assert(outcomes.take(i as int) =~= outcomes);
        Ok(result)
    }

    /// Goes on with a query when the response to the awaited request has
    /// arrived with `body`. See `next_step`, and `read_document` for what
    /// the body holds as a JSON document.
    pub fn query_tasks(
        &self,
        secret: Option<&str>,
        state: OpenProjectQuery,
        body: &str,
        now: Timestamp,
    ) -> (r: Result<OpenProjectStep, SourceError>)
        ensures
            step_outcome(r) == next_step(
                self.server_url@,
                secret_text(secret),
                state@,
                read_document(body@),
                now,
            ),
    {
        let document = parse(body)?;
        self.proceed(secret, state, &document, now)
    }
}

} // verus!
