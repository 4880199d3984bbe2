use task_picker::error::ErrorKind;
use task_picker::json::{parse, Json, JsonNumber};
use task_picker::sources::openproject::{OpenProjectQuery, OpenProjectStep};
use task_picker::sources::{OpenProjectSource, OPENPROJECT_ICON};
use task_picker::time::Timestamp;

fn at(secs: i64) -> Timestamp {
    Timestamp { secs, nanos: 0 }
}

fn text(s: &str) -> Json {
    Json::Text(s.to_string())
}

fn number(n: u64) -> Json {
    Json::Number(JsonNumber { positive: true, mantissa: n, exponent: 0 })
}

fn object(members: Vec<(&str, Json)>) -> Json {
    Json::Object(members.into_iter().map(|(k, v)| (k.to_string(), v)).collect())
}

fn project(title: Json) -> Json {
    object(vec![("project", object(vec![("title", title)]))])
}

fn work_package(id: Json, more: Vec<(&str, Json)>) -> Json {
    let mut members = vec![("id", id), ("_links", project(text("Test project")))];
    members.extend(more);
    object(members)
}

#[test]
fn parse_open_project_task() {
    let json_body = r#"
    {
        "derivedStartDate": null,
        "derivedDueDate": null,
        "spentTime": "PT0S",
        "laborCosts": "0,00 EUR",
        "materialCosts": "0,00 EUR",
        "overallCosts": "0,00 EUR",
        "_type": "WorkPackage",
        "id": 33013,
        "lockVersion": 3,
        "subject": "Test title",
        "description": {
          "format": "markdown",
          "raw": "This is a *description*.",
          "html": "<p>This is a <em>description</em></p>"
        },
        "scheduleManually": false,
        "startDate": "2024-05-01",
        "dueDate": null,
        "estimatedTime": null,
        "derivedEstimatedTime": null,
        "derivedRemainingTime": null,
        "duration": null,
        "ignoreNonWorkingDays": false,
        "percentageDone": null,
        "derivedPercentageDone": null,
        "createdAt": "2024-05-10T05:36:41.859Z",
        "updatedAt": "2024-05-30T12:18:44.591Z",
        "readonly": false,
        "customField4": null,
        "customField3": null,
        "_links": {
            "project": {"href": "/api/v3/projects/1337", "title": "Test project"}
        }
      }
    "#;

    let work_package = parse(&json_body).unwrap();

    let source = OpenProjectSource::default();

    let task = source.create_task(&work_package, Timestamp::now()).unwrap();
    assert_eq!(true, task.is_some());
    let task = task.unwrap();

    assert_eq!("Test title", task.title);
    assert_eq!(
        "https://community.openproject.org/work_packages/33013/activity",
        task.description
    );
    assert_eq!(format!("{} Test project", OPENPROJECT_ICON), task.project);
}

#[test]
fn a_work_package_gives_its_dates_and_its_id() {
    let wp = parse(
        r#"{"id": 33013, "subject": "Test title", "startDate": "2024-05-01",
            "dueDate": "2024-05-10", "createdAt": "2024-05-10T05:36:41.859Z",
            "_links": {"project": {"title": "Test project"}}}"#,
    )
    .unwrap();
    let task = OpenProjectSource::default().create_task(&wp, at(1714521600)).unwrap().unwrap();
    assert_eq!(task.id, Some("33013".to_string()));
    assert_eq!(task.created, Some(Timestamp { secs: 1715319401, nanos: 859_000_000 }));
    assert_eq!(task.due, Some(at(1715299200)));
}

#[test]
fn a_work_package_is_held_back_until_its_start_date() {
    let wp = work_package(number(7), vec![("startDate", text("2024-05-01"))]);
    let source = OpenProjectSource::default();
    assert!(source.create_task(&wp, at(1714521599)).unwrap().is_none());
    assert!(source.create_task(&wp, at(1714521600)).unwrap().is_some());
    assert!(source.create_task(&wp, at(1893456000)).unwrap().is_some());
    let no_start = work_package(number(7), vec![]);
    assert!(source.create_task(&no_start, at(i64::MIN)).unwrap().is_some());
}

#[test]
fn a_work_package_with_few_fields_gets_the_defaults() {
    let source = OpenProjectSource {
        server_url: "https://op.example".to_string(),
        ..OpenProjectSource::default()
    };
    let task = source.create_task(&work_package(number(5), vec![]), at(0)).unwrap().unwrap();
    assert_eq!(task.title, "<unknown>");
    assert_eq!(task.project, format!("{} Test project", OPENPROJECT_ICON));
    assert_eq!(task.description, "https://op.example/work_packages/5/activity");
    assert_eq!(task.due, None);
    assert_eq!(task.created, None);
    assert_eq!(task.id, Some("5".to_string()));
}

#[test]
fn a_negative_id_is_written_with_its_sign() {
    let id = Json::Number(JsonNumber { positive: false, mantissa: 12, exponent: 0 });
    let task =
        OpenProjectSource::default().create_task(&work_package(id, vec![]), at(0)).unwrap().unwrap();
    assert_eq!(task.id, Some("-12".to_string()));
    assert_eq!(task.description, "https://community.openproject.org/work_packages/-12/activity");
}

#[test]
fn a_work_package_that_is_no_object_is_a_schema_error() {
    let source = OpenProjectSource::default();
    for value in [Json::Null, text("x"), Json::Array(vec![]), number(1), Json::Bool(true)] {
        let e = source.create_task(&value, at(0)).unwrap_err();
        assert_eq!(e.kind, ErrorKind::Schema);
        assert_eq!(e.message, "Response is not a JSON object");
    }
}

#[test]
fn an_id_that_is_no_whole_number_is_a_schema_error() {
    let source = OpenProjectSource::default();
    let ids = vec![
        Json::Null,
        text("33013"),
        Json::Number(JsonNumber { positive: true, mantissa: 15, exponent: -1 }),
        Json::Number(JsonNumber { positive: true, mantissa: 1, exponent: 3 }),
        Json::Number(JsonNumber { positive: true, mantissa: 1 << 63, exponent: 0 }),
        Json::Number(JsonNumber { positive: false, mantissa: u64::MAX, exponent: 0 }),
    ];
    for id in ids {
        let e = source.create_task(&work_package(id, vec![]), at(0)).unwrap_err();
        assert_eq!(e.kind, ErrorKind::Schema);
        assert_eq!(e.message, "'id' field in response is not an integer");
    }
    let missing = object(vec![("subject", text("x"))]);
    assert_eq!(source.create_task(&missing, at(0)).unwrap_err().kind, ErrorKind::Schema);
    let parsed = parse(r#"{"id": 1.5}"#).unwrap();
    assert_eq!(source.create_task(&parsed, at(0)).unwrap_err().kind, ErrorKind::Schema);
}

#[test]
fn a_project_title_that_is_no_text_is_a_schema_error() {
    let source = OpenProjectSource::default();
    let cases = vec![
        object(vec![("id", number(1))]),
        object(vec![("id", number(1)), ("_links", object(vec![]))]),
        object(vec![("id", number(1)), ("_links", project(Json::Null))]),
        object(vec![("id", number(1)), ("_links", project(number(3)))]),
        object(vec![("id", number(1)), ("_links", project(Json::Bool(true)))]),
        object(vec![("id", number(1)), ("_links", text("Test project"))]),
    ];
    for wp in cases {
        let e = source.create_task(&wp, at(0)).unwrap_err();
        assert_eq!(e.kind, ErrorKind::Schema);
        assert_eq!(e.message, "Title of the project in response is not a text");
    }
    let parsed = parse(r#"{"id": 1, "subject": "no project"}"#).unwrap();
    assert_eq!(source.create_task(&parsed, at(0)).unwrap_err().kind, ErrorKind::Schema);
}

#[test]
fn a_user_without_a_number_is_a_schema_error() {
    let source = OpenProjectSource::default();
    for body in ["{}", "[]", r#"{"id": "5"}"#, r#"{"id": -5}"#, r#"{"id": 1.5}"#, r#"{"name": "Me"}"#] {
        let state = OpenProjectQuery::User { closed: vec![12] };
        let e = source.query_tasks(Some("secret"), state, body, at(0)).unwrap_err();
        assert_eq!(e.kind, ErrorKind::Schema, "{body}");
        assert_eq!(e.message, "'id' field of the user in response is not a number");
    }
    let state = OpenProjectQuery::User { closed: vec![] };
    assert!(source.query_tasks(None, state, r#"{"id": 0}"#, at(0)).is_ok());
}

#[test]
fn work_package_dates_that_are_no_dates_are_parse_errors() {
    let source = OpenProjectSource::default();
    let created = work_package(number(1), vec![("createdAt", text("yesterday"))]);
    let e = source.create_task(&created, at(0)).unwrap_err();
    assert_eq!(e.kind, ErrorKind::Parse);
    assert_eq!(e.message, "Could not parse date 'yesterday'");
    let start = work_package(number(1), vec![("startDate", text("2024-13-01"))]);
    assert_eq!(source.create_task(&start, at(0)).unwrap_err().kind, ErrorKind::Parse);
    let due = work_package(number(1), vec![("dueDate", text("01.05.2024"))]);
    assert_eq!(
        source.create_task(&due, at(0)).unwrap_err().message,
        "Could not parse date '01.05.2024'"
    );
    let held_back = work_package(
        number(1),
        vec![("startDate", text("2024-05-01")), ("dueDate", text("01.05.2024"))],
    );
    assert!(source.create_task(&held_back, at(0)).unwrap().is_none());
}

fn fetch(step: OpenProjectStep) -> (OpenProjectQuery, task_picker::http::HttpRequest) {
    match step {
        OpenProjectStep::Fetch(state, request) => (state, request),
        OpenProjectStep::Done(_) => panic!("the query ended early"),
    }
}

#[test]
fn a_query_asks_for_statuses_then_the_user_then_the_work_packages() {
    let source = OpenProjectSource {
        server_url: "https://op.example".to_string(),
        ..OpenProjectSource::default()
    };
    let secret = Some("secret");
    let (state, request) = source.begin(secret);
    assert_eq!(request.url, "https://op.example/api/v3/statuses");
    assert!(request.query.is_empty());
    assert_eq!(
        request.headers,
        vec![("Authorization".to_string(), "Basic YXBpa2V5OnNlY3JldA==".to_string())]
    );

    let statuses = r#"{"_embedded": {"elements": [
        {"id": 1, "name": "New", "isClosed": false},
        {"id": 12, "name": "Closed", "isClosed": true},
        {"id": 13, "name": "On hold"},
        {"id": "x", "name": "Odd", "isClosed": true},
        {"id": 14, "name": "Rejected", "isClosed": true}
    ]}}"#;
    let (state, request) = fetch(source.query_tasks(secret, state, statuses, at(0)).unwrap());
    match &state {
        OpenProjectQuery::User { closed } => assert_eq!(closed, &vec![12, 14]),
        _ => panic!("the user should be awaited"),
    }
    assert_eq!(request.url, "https://op.example/api/v3/users/me");
    assert_eq!(request.headers.len(), 1);

    let (state, request) =
        fetch(source.query_tasks(secret, state, r#"{"id": 5, "name": "Me"}"#, at(0)).unwrap());
    assert!(matches!(state, OpenProjectQuery::WorkPackages));
    assert_eq!(request.url, "https://op.example/api/v3/work_packages");
    assert_eq!(
        request.query,
        vec![(
            "filters".to_string(),
            concat_filter("5", "12,14"),
        )]
    );
    assert_eq!(request.headers[0].1, "Basic YXBpa2V5OnNlY3JldA==");

    let packages = r#"{"_embedded": {"elements": [
        {"id": 1, "subject": "first", "_links": {"project": {"title": "P"}}},
        {"id": 2, "subject": "later", "startDate": "2999-01-01",
         "_links": {"project": {"title": "P"}}},
        {"id": 3, "subject": "third", "dueDate": "2024-05-01",
         "_links": {"project": {"title": "P"}}}
    ]}}"#;
    match source.query_tasks(secret, state, packages, at(1714521600)).unwrap() {
        OpenProjectStep::Done(tasks) => {
            let titles: Vec<&str> = tasks.iter().map(|t| t.title.as_str()).collect();
            assert_eq!(titles, vec!["first", "third"]);
            assert_eq!(tasks[1].due, Some(at(1714521600)));
        }
        OpenProjectStep::Fetch(..) => panic!("the query should be complete"),
    }
}

fn concat_filter(user: &str, closed: &str) -> String {
    let mut s = String::from("[{\"assignee\":{\"operator\":\"=\",\"values\":[");
    s.push_str(user);
    s.push_str("]}},{\"type\":{\"operator\":\"=\",\"values\":[1]}},");
    s.push_str("{\"status\":{\"operator\":\"!\",\"values\":[");
    s.push_str(closed);
    s.push_str("]}}]");
    s
}

#[test]
fn a_query_without_secret_sends_no_authorization() {
    let source = OpenProjectSource::default();
    let (state, request) = source.begin(None);
    assert_eq!(request.url, "https://community.openproject.org/api/v3/statuses");
    assert!(request.headers.is_empty());
    let (state, request) = fetch(source.query_tasks(None, state, "{}", at(0)).unwrap());
    match &state {
        OpenProjectQuery::User { closed } => assert!(closed.is_empty()),
        _ => panic!("the user should be awaited"),
    }
    assert!(request.headers.is_empty());
    let (state, request) = fetch(source.query_tasks(None, state, r#"{"id": 0}"#, at(0)).unwrap());
    assert_eq!(request.query, vec![("filters".to_string(), concat_filter("0", ""))]);
    match source.query_tasks(None, state, "{}", at(0)).unwrap() {
        OpenProjectStep::Done(tasks) => assert!(tasks.is_empty()),
        OpenProjectStep::Fetch(..) => panic!("the query should be complete"),
    }
}

#[test]
fn a_response_that_is_no_json_is_a_schema_error() {
    let source = OpenProjectSource::default();
    for state in [
        OpenProjectQuery::Statuses,
        OpenProjectQuery::User { closed: vec![1] },
        OpenProjectQuery::WorkPackages,
    ] {
        let e = source.query_tasks(None, state, "<html>", at(0)).unwrap_err();
        assert_eq!(e.kind, ErrorKind::Schema);
        assert_eq!(e.message, "The response is not a JSON document");
    }
}

#[test]
fn one_unreadable_work_package_fails_the_query() {
    let source = OpenProjectSource::default();
    let packages = r#"{"_embedded": {"elements": [
        {"id": 1, "subject": "first", "_links": {"project": {"title": "P"}}},
        {"subject": "no id"},
        {"id": 3, "dueDate": "never"}
    ]}}"#;
    let e = source.query_tasks(None, OpenProjectQuery::WorkPackages, packages, at(0)).unwrap_err();
    assert_eq!(e.kind, ErrorKind::Schema);
    assert_eq!(e.message, "'id' field in response is not an integer");
    let items = vec![work_package(number(1), vec![]), work_package(number(2), vec![])];
    assert_eq!(source.read_work_packages(&items, at(0)).unwrap().len(), 2);
}

#[test]
fn the_default_open_project_source() {
    let s = OpenProjectSource::default();
    assert_eq!(s.name, "OpenProject");
    assert_eq!(s.server_url, "https://community.openproject.org");
    assert_eq!(s.token, "");
}
