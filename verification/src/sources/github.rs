//! Issues of a GitHub server.

use super::{label, labelled, secret_text, GITHUB_ICON};
use crate::error::{ErrorKind, SourceError, SourceErrorView};
use crate::fields::{instant_field, read_instant};
use crate::http::{HttpRequest, HttpRequestView};
use crate::json::{element_views, parse, read_document, Json, JsonView};
use crate::tasks::{
    collect, item_outcome, lemma_collect_fails, query_outcome, task_views, ItemOutcome,
    QueryOutcome, Task, TaskView,
};
use crate::text::str_eq;
use vstd::prelude::*;
use vstd::string::*;

verus! {

/// The configuration of a GitHub server as a source of tasks.
#[derive(Debug)]
pub struct GitHubSource {
    /// The name under which the source is shown and found.
    pub name: String,
    /// The address of the server, in front of the path of every request.
    pub server_url: String,
    /// The token as the user entered it, on its way to where secrets are
    /// kept. No query reads it: a query takes the secret as an argument.
    pub token: String,
}

impl Clone for GitHubSource {
    fn clone(&self) -> (r: GitHubSource)
        ensures
            r == *self,
    {
        GitHubSource {
            name: self.name.clone(),
            server_url: self.server_url.clone(),
            token: self.token.clone(),
        }
    }
}

impl Default for GitHubSource {
    fn default() -> (r: GitHubSource)
        ensures
            r.name@ == "GitHub"@,
            r.server_url@ == "https://api.github.com"@,
            r.token@ == Seq::<char>::empty(),
    {
        GitHubSource {
            name: "GitHub".to_owned(),
            server_url: "https://api.github.com".to_owned(),
            token: String::new(),
        }
    }
}

/// The failure for a response that lacks a text field of an issue.
pub open spec fn missing_field(field: Seq<char>) -> SourceErrorView {
    SourceErrorView {
        kind: ErrorKind::Schema,
        message: "Missing '"@ + field + "' field for issue"@,
    }
}

/// The request for the open issues of the user who owns the secret: with
/// the version of the interface and the media type, and with the secret
/// as bearer token where there is one.
pub open spec fn issues_request(server_url: Seq<char>, secret: Option<Seq<char>>) -> HttpRequestView {
    let headers = seq![
        ("X-GitHub-Api-Version"@, "2022-11-28"@),
        ("Accept"@, "application/vnd.github+json"@),
    ];
    HttpRequestView {
        url: server_url + "/issues"@,
        headers: match secret {
            Some(secret) => headers.push(("Authorization"@, "Bearer "@ + secret)),
            None => headers,
        },
        query: Seq::empty(),
    }
}

/// The project of an issue: the full name of its repository, the name of
/// the source where the issue names no repository, nothing where the
/// repository has no full name.
pub open spec fn issue_project(name: Seq<char>, issue: JsonView) -> Option<Seq<char>> {
    if issue.field("repository"@) is Object {
        issue.field("repository"@).field("full_name"@).text()
    } else {
        Some(name)
    }
}

/// The task that an issue stands for: none where the item is no object
/// or not open. It fails where the full name of the repository, the
/// title or the address is no text, and where the date of creation or
/// the due date of the milestone is a text that is no date: the first of
/// these in that order decides.
pub open spec fn issue_task(name: Seq<char>, issue: JsonView) -> ItemOutcome {
    if !(issue is Object) || issue.field("state"@).text() != Some("open"@) {
        Ok(None)
    } else {
        match (
            issue_project(name, issue),
            issue.field("title"@).text(),
            issue.field("html_url"@).text(),
            instant_field(issue.field("created_at"@)),
            instant_field(issue.field("milestone"@).field("due_on"@)),
        ) {
            (None, _, _, _, _) => Err(missing_field("full_name"@)),
            (_, None, _, _, _) => Err(missing_field("title"@)),
            (_, _, None, _, _) => Err(missing_field("html_url"@)),
            (_, _, _, Err(e), _) => Err(e),
            (_, _, _, _, Err(e)) => Err(e),
            (Some(project), Some(title), Some(url), Ok(created), Ok(due)) => Ok(
                Some(
                    TaskView {
                        project: labelled(GITHUB_ICON@, project),
                        title,
                        description: url,
                        due,
                        created,
                        id: Some(url),
                    },
                ),
            ),
        }
    }
}

/// The tasks of the issues in a response, in their order; none where the
/// response is no list.
pub open spec fn issue_tasks(name: Seq<char>, document: JsonView) -> QueryOutcome {
    match document.elements() {
        Some(issues) => collect(Seq::new(issues.len(), |i: int| issue_task(name, issues[i]))),
        None => Ok(Seq::empty()),
    }
}

/// The tasks in the body of a response, given what the body holds as a
/// JSON document; the failure to read one where it holds none.
pub open spec fn response_tasks(
    name: Seq<char>,
    document: Result<JsonView, SourceErrorView>,
) -> QueryOutcome {
    match document {
        Ok(document) => issue_tasks(name, document),
        Err(e) => Err(e),
    }
}

fn missing(field: &str) -> (e: SourceError)
    ensures
        e@ == missing_field(field@),
{
    let mut message = "Missing '".to_owned();
    message.append(field);
    message.append("' field for issue");
    SourceError::new(ErrorKind::Schema, message)
}

impl GitHubSource {
    /// The request to send. See `issues_request`.
    pub fn request(&self, secret: Option<&str>) -> (r: HttpRequest)
        ensures
            r@ == issues_request(self.server_url@, secret_text(secret)),
    {
        let mut url = self.server_url.clone();
        url.append("/issues");
        let request = HttpRequest::get(url).set(
            "X-GitHub-Api-Version",
            "2022-11-28".to_owned(),
        ).set("Accept", "application/vnd.github+json".to_owned());
        let request = match secret {
            Some(secret) => {
                let mut value = "Bearer ".to_owned();
                value.append(secret);
                request.set("Authorization", value)
            },
            None => request,
        };
        assert(request@.headers =~= issues_request(self.server_url@, secret_text(secret)).headers);
        request
    }

    /// Reads one issue of a response. See `issue_task`.
    pub fn read_issue(&self, issue: &Json) -> (r: Result<Option<Task>, SourceError>)
        ensures
            item_outcome(r) == issue_task(self.name@, issue@),
    {
        match issue {
            Json::Object(_) => {},
            _ => {
                return Ok(None);
            },
        }
        let open = match issue.get("state").as_str() {
            Some(state) => str_eq(state, "open"),
            None => false,
        };
        if !open {
            return Ok(None);
        }
        let project = match issue.get("repository") {
            Json::Object(_) => match issue.get("repository").get("full_name").as_str() {
                Some(full_name) => label(GITHUB_ICON, full_name),
                None => {
                    return Err(missing("full_name"));
                },
            },
            _ => label(GITHUB_ICON, self.name.as_str()),
        };
        let title = match issue.get("title").as_str() {
            Some(title) => title.to_owned(),
            None => {
                return Err(missing("title"));
            },
        };
        let url = match issue.get("html_url").as_str() {
            Some(url) => url,
            None => {
                return Err(missing("html_url"));
            },
        };
        let created = read_instant(issue.get("created_at"))?;
        let due = read_instant(issue.get("milestone").get("due_on"))?;
        Ok(
            Some(
                Task {
                    project,
                    title,
                    description: url.to_owned(),
                    due,
                    created,
                    id: Some(url.to_owned()),
                },
            ),
        )
    }

    /// Reads the issues of a response in their order, up to the first
    /// that cannot be read. See `issue_tasks`.
    pub fn read_issues(&self, document: &Json) -> (r: Result<Vec<Task>, SourceError>)
        ensures
            query_outcome(r) == issue_tasks(self.name@, document@),
    {
        let mut result: Vec<Task> = Vec::new();
        assert(task_views(result@) =~= Seq::empty());
        let items = match document.members() {
            Some(items) => items,
            None => {
                return Ok(result);
            },
        };
        let ghost views = element_views(items@);
        let ghost outcomes = Seq::new(views.len(), |i: int| issue_task(self.name@, views[i]));
        let mut i: usize = 0;
        while i < items.len()
            invariant
                i <= items.len(),
                views == element_views(items@),
                document@.elements() == Some(views),
                outcomes == Seq::new(views.len(), |i: int| issue_task(self.name@, views[i])),
                collect(outcomes.take(i as int)) == Ok::<Seq<TaskView>, SourceErrorView>(
                    task_views(result@),
                ),
            decreases items.len() - i,
        {
            proof {
                let upto = outcomes.take(i as int + 1);
                assert(upto.drop_last() =~= outcomes.take(i as int));
            }
            let ghost before = task_views(result@);
            match self.read_issue(&items[i]) {
                Err(e) => {
                    proof {
                        lemma_collect_fails(outcomes, i as int);
                    }
                    return Err(e);
                },
                Ok(Some(task)) => {
                    result.push(task);
                    assert(task_views(result@) =~= before.push(task@));
                },
                Ok(None) => {},
            }
            i = i + 1;
        }
        assert(outcomes.take(i as int) =~= outcomes);
        Ok(result)
    }

    /// The tasks in the body of the response to the request. See
    /// `response_tasks`, and `read_document` for what the body holds as a
    /// JSON document.
    pub fn query_tasks(&self, body: &str) -> (r: Result<Vec<Task>, SourceError>)
        ensures
            query_outcome(r) == response_tasks(self.name@, read_document(body@)),
    {
        let document = parse(body)?;
        self.read_issues(&document)
    }
}

} // verus!
