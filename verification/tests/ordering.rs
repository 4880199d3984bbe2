use std::cmp::Ordering;
use task_picker::tasks::{compare_optional, compare_tasks, sort_tasks, sorts_before, Task};
use task_picker::time::Timestamp;

fn at(secs: i64) -> Option<Timestamp> {
    Some(Timestamp { secs, nanos: 0 })
}

fn task(title: &str, due: Option<Timestamp>, created: Option<Timestamp>) -> Task {
    Task {
        project: "project".to_string(),
        title: title.to_string(),
        description: String::new(),
        due,
        created,
        id: None,
    }
}

fn titles(tasks: &[Task]) -> Vec<&str> {
    tasks.iter().map(|t| t.title.as_str()).collect()
}

#[test]
fn compare_optional_puts_absent_last() {
    assert_eq!(compare_optional(&Some(1), &Some(2)), Ordering::Less);
    assert_eq!(compare_optional(&Some(2), &Some(2)), Ordering::Equal);
    assert_eq!(compare_optional(&Some(3), &Some(2)), Ordering::Greater);
    assert_eq!(compare_optional(&None, &Some(2)), Ordering::Greater);
    assert_eq!(compare_optional(&Some(2), &None), Ordering::Less);
    assert_eq!(compare_optional::<u8>(&None, &None), Ordering::Equal);
}

#[test]
fn compare_optional_orders_pairs_by_first_then_second() {
    assert_eq!(compare_optional(&Some((1i64, 9u32)), &Some((2i64, 0u32))), Ordering::Less);
    assert_eq!(compare_optional(&Some((2i64, 1u32)), &Some((2i64, 0u32))), Ordering::Greater);
}

#[test]
fn timestamps_compare_by_seconds_then_nanoseconds() {
    let early = Timestamp { secs: 10, nanos: 999_999_999 };
    let late = Timestamp { secs: 11, nanos: 0 };
    assert!(early.is_before(&late));
    assert!(!late.is_before(&early));
    assert!(!early.is_before(&early));
    assert!(Timestamp { secs: 11, nanos: 0 }.is_before(&Timestamp { secs: 11, nanos: 1 }));
    assert!(Timestamp { secs: -5, nanos: 0 }.is_before(&Timestamp { secs: 0, nanos: 0 }));
    assert_eq!(early.key(), (10, 999_999_999));
}

#[test]
fn tasks_compare_by_due_date_then_creation_date() {
    let a = task("a", at(100), at(5));
    let b = task("b", at(200), at(1));
    assert_eq!(compare_tasks(&a, &b), Ordering::Less);
    assert_eq!(compare_tasks(&b, &a), Ordering::Greater);
    let c = task("c", at(100), at(7));
    assert_eq!(compare_tasks(&a, &c), Ordering::Less);
    assert_eq!(compare_tasks(&c, &a), Ordering::Greater);
    let d = task("d", at(100), at(5));
    assert_eq!(compare_tasks(&a, &d), Ordering::Equal);
    assert!(sorts_before(&a, &b));
    assert!(!sorts_before(&b, &a));
    assert!(!sorts_before(&a, &d));
}

#[test]
fn a_task_without_due_date_is_less_urgent_than_any_with_one() {
    let far = task("far", at(4_000_000_000), None);
    let none = task("none", None, at(1));
    assert_eq!(compare_tasks(&far, &none), Ordering::Less);
    assert_eq!(compare_tasks(&none, &far), Ordering::Greater);
    let none_later = task("none later", None, at(2));
    assert_eq!(compare_tasks(&none, &none_later), Ordering::Less);
    let none_none = task("none none", None, None);
    assert_eq!(compare_tasks(&none_later, &none_none), Ordering::Less);
    assert_eq!(compare_tasks(&none_none, &none_none), Ordering::Equal);
}

#[test]
fn the_order_of_tasks_is_a_strict_weak_ordering_on_samples() {
    let samples = vec![
        task("a", at(1), at(1)),
        task("b", at(1), at(2)),
        task("c", at(1), None),
        task("d", at(2), at(1)),
        task("e", None, at(1)),
        task("f", None, None),
        task("g", at(1), at(1)),
        task("h", None, None),
    ];
    let tied = |x: &Task, y: &Task| !sorts_before(x, y) && !sorts_before(y, x);
    for x in &samples {
        assert!(!sorts_before(x, x));
        for y in &samples {
            if sorts_before(x, y) {
                assert!(!sorts_before(y, x));
            }
            for z in &samples {
                if sorts_before(x, y) && sorts_before(y, z) {
                    assert!(sorts_before(x, z));
                }
                if tied(x, y) && tied(y, z) {
                    assert!(tied(x, z));
                }
            }
        }
    }
}

#[test]
fn sorting_puts_the_next_due_first_and_the_undated_last() {
    let mut tasks = vec![
        task("no due, created 3", None, at(3)),
        task("due 300", at(300), at(1)),
        task("no dates", None, None),
        task("due 100", at(100), at(9)),
        task("no due, created 1", None, at(1)),
        task("due 200", at(200), None),
    ];
    sort_tasks(&mut tasks);
    assert_eq!(
        titles(&tasks),
        vec![
            "due 100",
            "due 200",
            "due 300",
            "no due, created 1",
            "no due, created 3",
            "no dates"
        ]
    );
}

#[test]
fn sorting_keeps_tied_tasks_in_their_order() {
    let mut tasks = vec![
        task("first", at(100), at(1)),
        task("early", at(50), None),
        task("second", at(100), at(1)),
        task("third", at(100), at(1)),
    ];
    sort_tasks(&mut tasks);
    assert_eq!(titles(&tasks), vec!["early", "first", "second", "third"]);
}

#[test]
fn sorting_twice_changes_nothing() {
    let mut tasks = vec![
        task("c", None, at(3)),
        task("a", at(300), at(1)),
        task("b", at(100), at(9)),
        task("d", at(100), at(9)),
    ];
    sort_tasks(&mut tasks);
    let once: Vec<String> = tasks.iter().map(|t| t.title.clone()).collect();
    sort_tasks(&mut tasks);
    let twice: Vec<String> = tasks.iter().map(|t| t.title.clone()).collect();
    assert_eq!(once, twice);
    assert_eq!(once, vec!["b", "d", "a", "c"]);
}

#[test]
fn sorting_an_empty_list_and_a_single_task() {
    let mut none: Vec<Task> = Vec::new();
    sort_tasks(&mut none);
    assert!(none.is_empty());
    let mut one = vec![task("only", None, None)];
    sort_tasks(&mut one);
    assert_eq!(titles(&one), vec!["only"]);
}

#[test]
fn the_identity_of_a_task_is_its_id_or_project_and_title() {
    let mut t = task("Buy presents", None, None);
    t.project = "family".to_string();
    assert_eq!(t.get_id(), "family/Buy presents");
    t.id = Some("task_relaxed".to_string());
    assert_eq!(t.get_id(), "task_relaxed");
    let other = Task { id: None, ..t.clone() };
    let same = Task { description: "another".to_string(), ..other.clone() };
    assert_eq!(other.get_id(), same.get_id());
}

#[test]
fn cloning_a_task_keeps_every_field() {
    let t = Task {
        project: "p".to_string(),
        title: "t".to_string(),
        description: "d".to_string(),
        due: at(1),
        created: at(2),
        id: Some("i".to_string()),
    };
    let c = t.clone();
    assert_eq!(c.project, "p");
    assert_eq!(c.title, "t");
    assert_eq!(c.description, "d");
    assert_eq!(c.due, at(1));
    assert_eq!(c.created, at(2));
    assert_eq!(c.id, Some("i".to_string()));
}
