use task_picker::error::{ErrorKind, SourceError};
use task_picker::http::HttpRequest;
use task_picker::json::parse;
use task_picker::sources::gitlab::{read_item, GitLabQuery, GitLabStep};
use task_picker::sources::{GitLabSource, GITLAB_ICON};
use task_picker::tasks::Task;
use task_picker::time::Timestamp;

fn at(secs: i64) -> Timestamp {
    Timestamp { secs, nanos: 0 }
}

fn source() -> GitLabSource {
    GitLabSource {
        name: "Work".to_string(),
        server_url: "https://gitlab.example/api/v4".to_string(),
        user_name: "me".to_string(),
        token: String::new(),
    }
}

fn fetch(step: GitLabStep) -> (GitLabQuery, HttpRequest) {
    match step {
        GitLabStep::Fetch(state, request) => (state, request),
        GitLabStep::Done(_) => panic!("the query ended early"),
    }
}

fn done(step: GitLabStep) -> Vec<Task> {
    match step {
        GitLabStep::Done(tasks) => tasks,
        GitLabStep::Fetch(_, request) => panic!("the query goes on with {}", request.url),
    }
}

fn query(request: &HttpRequest) -> Vec<(&str, &str)> {
    request.query.iter().map(|(k, v)| (k.as_str(), v.as_str())).collect()
}

fn page_of(request: &HttpRequest) -> &str {
    request.query.iter().find(|(k, _)| k == "page").map(|(_, v)| v.as_str()).unwrap()
}

#[test]
fn three_pages_and_an_empty_one_give_every_item_once() {
    let source = source();
    let (state, request) = source.begin(None);
    assert_eq!(request.url, "https://gitlab.example/api/v4/issues");
    assert_eq!(page_of(&request), "1");
    let page1 = r#"[{"title": "a", "web_url": "u/a"}, {"title": "b", "web_url": "u/b"}]"#;
    let (state, request) = fetch(source.query_tasks(None, state, Ok(page1)).unwrap());
    assert_eq!(request.url, "https://gitlab.example/api/v4/issues");
    assert_eq!(page_of(&request), "2");
    let page2 = r#"[{"title": "c", "web_url": "u/c"}]"#;
    let (state, request) = fetch(source.query_tasks(None, state, Ok(page2)).unwrap());
    assert_eq!(page_of(&request), "3");
    let page3 = r#"[{"title": "d", "web_url": "u/d"}, {"title": "e", "web_url": "u/e"}]"#;
    let (state, request) = fetch(source.query_tasks(None, state, Ok(page3)).unwrap());
    assert_eq!(page_of(&request), "4");
    let (state, request) = fetch(source.query_tasks(None, state, Ok("[]")).unwrap());
    assert_eq!(request.url, "https://gitlab.example/api/v4/merge_requests");
    assert_eq!(page_of(&request), "1");
    let tasks = done(source.query_tasks(None, state, Ok("[]")).unwrap());
    let titles: Vec<&str> = tasks.iter().map(|t| t.title.as_str()).collect();
    assert_eq!(titles, vec!["a", "b", "c", "d", "e"]);
    let ids: Vec<Option<&str>> = tasks.iter().map(|t| t.id.as_deref()).collect();
    assert_eq!(ids, vec![Some("u/a"), Some("u/b"), Some("u/c"), Some("u/d"), Some("u/e")]);
}

#[test]
fn pages_are_not_deduplicated() {
    let source = source();
    let (state, _) = source.begin(None);
    let page = r#"[{"title": "same", "web_url": "u"}]"#;
    let (state, _) = fetch(source.query_tasks(None, state, Ok(page)).unwrap());
    let (state, _) = fetch(source.query_tasks(None, state, Ok(page)).unwrap());
    let (state, _) = fetch(source.query_tasks(None, state, Ok("[]")).unwrap());
    let tasks = done(source.query_tasks(None, state, Ok("[]")).unwrap());
    assert_eq!(tasks.len(), 2);
}

#[test]
fn merge_requests_follow_the_issues() {
    let source = source();
    let (state, _) = source.begin(None);
    let (state, _) =
        fetch(source.query_tasks(None, state, Ok(r#"[{"title": "issue"}]"#)).unwrap());
    let (state, request) = fetch(source.query_tasks(None, state, Ok("[]")).unwrap());
    assert_eq!(request.url, "https://gitlab.example/api/v4/merge_requests");
    let (state, request) =
        fetch(source.query_tasks(None, state, Ok(r#"[{"title": "mr 1"}]"#)).unwrap());
    assert_eq!(request.url, "https://gitlab.example/api/v4/merge_requests");
    assert_eq!(page_of(&request), "2");
    let (state, _) =
        fetch(source.query_tasks(None, state, Ok(r#"[{"title": "mr 2"}]"#)).unwrap());
    let tasks = done(source.query_tasks(None, state, Ok("{}")).unwrap());
    let titles: Vec<&str> = tasks.iter().map(|t| t.title.as_str()).collect();
    assert_eq!(titles, vec!["issue", "mr 1", "mr 2"]);
}

#[test]
fn the_requests_carry_the_user_and_the_token() {
    let source = source();
    let (state, request) = source.begin(Some("t0ken"));
    assert_eq!(
        query(&request),
        vec![("assignee_username", "me"), ("state", "opened"), ("scope", "all"), ("page", "1")]
    );
    assert_eq!(request.headers, vec![("PRIVATE-TOKEN".to_string(), "t0ken".to_string())]);
    let page = r#"[{"title": "a", "project_id": 42}]"#;
    let (_, request) = fetch(source.query_tasks(Some("t0ken"), state, Ok(page)).unwrap());
    assert_eq!(request.url, "https://gitlab.example/api/v4/projects/42");
    assert!(request.query.is_empty());
    assert_eq!(request.headers, vec![("PRIVATE-TOKEN".to_string(), "t0ken".to_string())]);
    let (_, request) = source.begin(None);
    assert!(request.headers.is_empty());
}

#[test]
fn the_project_of_an_item_is_looked_up() {
    let source = source();
    let (state, _) = source.begin(None);
    let page = r#"[
        {"title": "a", "project_id": 42, "web_url": "u/a", "due_date": "2024-05-01",
         "created_at": "2024-05-10T05:36:41Z"},
        {"title": "b", "web_url": "u/b"},
        {"title": "c", "project_id": 7, "web_url": "u/c"},
        {"title": "d", "project_id": 8, "web_url": "u/d"},
        {"title": "e", "project_id": 9, "web_url": "u/e"}
    ]"#;
    let (state, request) = fetch(source.query_tasks(None, state, Ok(page)).unwrap());
    assert_eq!(request.url, "https://gitlab.example/api/v4/projects/42");
    let project = r#"{"id": 42, "name_with_namespace": "Group / Project"}"#;
    let (state, request) = fetch(source.query_tasks(None, state, Ok(project)).unwrap());
    assert_eq!(request.url, "https://gitlab.example/api/v4/projects/7");
    let failure = SourceError::new(ErrorKind::Transport, "timeout".to_string());
    let (state, request) = fetch(source.query_tasks(None, state, Err(failure)).unwrap());
    assert_eq!(request.url, "https://gitlab.example/api/v4/projects/8");
    let (state, request) = fetch(source.query_tasks(None, state, Ok("not json")).unwrap());
    assert_eq!(request.url, "https://gitlab.example/api/v4/projects/9");
    let (state, request) = fetch(source.query_tasks(None, state, Ok(r#"{"id": 9}"#)).unwrap());
    assert_eq!(request.url, "https://gitlab.example/api/v4/issues");
    assert_eq!(page_of(&request), "2");
    let (state, _) = fetch(source.query_tasks(None, state, Ok("[]")).unwrap());
    let tasks = done(source.query_tasks(None, state, Ok("[]")).unwrap());
    let projects: Vec<String> = tasks.iter().map(|t| t.project.clone()).collect();
    assert_eq!(
        projects,
        vec![
            format!("{} Group / Project", GITLAB_ICON),
            format!("{} Work", GITLAB_ICON),
            format!("{} Work", GITLAB_ICON),
            format!("{} Work", GITLAB_ICON),
            format!("{} Work", GITLAB_ICON),
        ]
    );
    assert_eq!(tasks[0].due, Some(at(1714521600)));
    assert_eq!(tasks[0].created, Some(at(1715319401)));
    assert_eq!(tasks[0].description, "u/a");
    assert_eq!(tasks[0].id, Some("u/a".to_string()));
}

#[test]
fn a_page_that_fails_ends_the_query() {
    let source = source();
    let (state, _) = source.begin(None);
    let failure = SourceError::new(ErrorKind::Unreachable, "no route".to_string());
    let e = source.query_tasks(None, state, Err(failure)).unwrap_err();
    assert_eq!(e.kind, ErrorKind::Unreachable);
    assert_eq!(e.message, "no route");
    let (state, _) = source.begin(None);
    let e = source.query_tasks(None, state, Ok("<html>")).unwrap_err();
    assert_eq!(e.kind, ErrorKind::Schema);
}

#[test]
fn an_item_with_a_date_that_is_no_date_ends_the_query() {
    let source = source();
    let (state, _) = source.begin(None);
    let page = r#"[{"title": "a"}, {"title": "b", "due_date": "tomorrow"}]"#;
    let e = source.query_tasks(None, state, Ok(page)).unwrap_err();
    assert_eq!(e.kind, ErrorKind::Parse);
    assert_eq!(e.message, "Could not parse date 'tomorrow'");
    let (state, _) = source.begin(None);
    let page = r#"[{"title": "a", "project_id": 1, "created_at": "now"}]"#;
    let (state, _) = fetch(source.query_tasks(None, state, Ok(page)).unwrap());
    let e = source.query_tasks(None, state, Ok("{}")).unwrap_err();
    assert_eq!(e.message, "Could not parse date 'now'");
}

#[test]
fn an_item_is_read_with_empty_texts_for_missing_fields() {
    let item = parse(r#"{"due_date": "2024-05-01"}"#).unwrap();
    let task = read_item("Group / Project", &item).unwrap();
    assert_eq!(task.project, format!("{} Group / Project", GITLAB_ICON));
    assert_eq!(task.title, "");
    assert_eq!(task.description, "");
    assert_eq!(task.id, Some(String::new()));
    assert_eq!(task.due, Some(at(1714521600)));
    assert_eq!(task.created, None);
}

#[test]
fn the_default_gitlab_source() {
    let s = GitLabSource::default();
    assert_eq!(s.name, "GitLab");
    assert_eq!(s.server_url, "https://gitlab.com/api/v4/");
    assert_eq!(s.user_name, "");
    assert_eq!(s.token, "");
}

#[test]
fn pages_with_project_lookups_give_every_item_once() {
    let source = source();
    let (mut state, mut request) = source.begin(None);
    let pages = [
        r#"[{"title": "a", "project_id": 1}, {"title": "b"}]"#,
        r#"[{"title": "c", "project_id": 2}]"#,
        r#"[{"title": "d"}, {"title": "e", "project_id": 1}, {"title": "f", "project_id": 3}]"#,
        "[]",
        r#"[{"title": "g", "project_id": 2}]"#,
        "[]",
    ];
    let mut asked = Vec::new();
    let mut next_page = pages.iter();
    let tasks = loop {
        asked.push(request.url.clone());
        let body = if request.url.contains("/projects/") {
            let id = request.url.rsplit('/').next().unwrap();
            format!("{{\"name_with_namespace\": \"Project {id}\"}}")
        } else {
            next_page.next().unwrap().to_string()
        };
        match source.query_tasks(None, state, Ok(&body)).unwrap() {
            GitLabStep::Fetch(following, following_request) => {
                state = following;
                request = following_request;
            }
            GitLabStep::Done(tasks) => break tasks,
        }
    };
    assert!(next_page.next().is_none());
    let shown: Vec<(String, String)> =
        tasks.iter().map(|t| (t.title.clone(), t.project.clone())).collect();
    let expected: Vec<(String, String)> = [
        ("a", "Project 1"),
        ("b", "Work"),
        ("c", "Project 2"),
        ("d", "Work"),
        ("e", "Project 1"),
        ("f", "Project 3"),
        ("g", "Project 2"),
    ]
    .iter()
    .map(|(title, project)| (title.to_string(), format!("{} {}", GITLAB_ICON, project)))
    .collect();
    assert_eq!(shown, expected);
    let page_requests = asked.iter().filter(|url| !url.contains("/projects/")).count();
    assert_eq!(page_requests, 6);
    assert_eq!(asked.len(), 11);
}
