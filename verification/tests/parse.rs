use todo::parse::{
    parse_todo_list, parse_todo_list_tasks, parse_todo_list_tasks_status, parse_todo_list_title,
};

#[test]
fn parse_todo_empty_title_produces_error() {
    let todo_raw = "# \n\n## Description\n\nLABEL=\n";
    let todo = parse_todo_list(todo_raw);
    assert!(todo.is_err());
}

#[test]
fn parse_todo_simple() {
    let todo_raw = "# Title\n\n## Description\n\nLABEL=l1,l2,l3\n";
    let todo_list = parse_todo_list(todo_raw);
    assert!(todo_list.is_ok());
    let todo = todo_list.unwrap();
    assert_eq!(todo.title, "Title");
    assert_eq!(todo.raw, todo_raw);
    assert!(todo.labels.contains(&String::from("l1")));
    assert!(todo.labels.contains(&String::from("l2")));
    assert!(todo.labels.contains(&String::from("l3")));
    assert_eq!(todo.labels.len(), 3);
}

#[test]
fn empty_title() {
    let todo_raw = "# \n\n## Description\n\nLABEL=\n";
    assert!(parse_todo_list_title(todo_raw).is_none());
}

#[test]
fn parse_todo_no_labels() {
    let todo_raw = "# Title\n\n## Description\n\nLABEL=\n";
    let todo = parse_todo_list(todo_raw).unwrap();
    assert_eq!(todo.labels.len(), 0);
}

#[test]
fn parse_no_tasks() {
    let todo_raw = "# Title\n\n## Description\n\nLABEL=\n";
    let (done, total) = parse_todo_list_tasks_status(todo_raw);
    assert_eq!(0, done);
    assert_eq!(0, total);
}

#[test]
fn parse_one_remaining_tasks() {
    let todo_raw = "# Title\n\n## Description\n\nLABEL=\n\n## Todo list\n\n* [ ] idk man\n\n";
    let (done, total) = parse_todo_list_tasks_status(todo_raw);
    assert_eq!(0, done);
    assert_eq!(1, total);

    assert!(!parse_todo_list(todo_raw).unwrap().tasks_are_all_done());
}

#[test]
fn parse_one_done_tasks() {
    let todo_raw = "# Title\n\n## Description\n\nLABEL=\n\n## Todo list\n\n* [x] idk man\n\n";
    let (done, total) = parse_todo_list_tasks_status(todo_raw);
    assert_eq!(1, done);
    assert_eq!(1, total);

    assert!(parse_todo_list(todo_raw).unwrap().tasks_are_all_done());
}

#[test]
fn parse_multiple_remaining_tasks() {
    let todo_raw = "# Title\n\n## Description\n\nLABEL=\n\n## Todo list\n\n\
* [ ] idk man\n* [x] idk man\n* [ ] idk man\n* [x] idk man\n* [ ] idk man\n\n";
    let (done, total) = parse_todo_list_tasks_status(todo_raw);
    assert_eq!(2, done, "wrong number of done tasks");
    assert_eq!(5, total);

    assert!(!parse_todo_list(todo_raw).unwrap().tasks_are_all_done());
}

#[test]
fn parse_multiple_all_done_tasks() {
    let todo_raw = "# Title\n\n## Description\n\nLABEL=\n\n## Todo list\n\n\
* [x] idk man\n* [x] idk man\n* [x] idk man\n* [x] idk man\n* [x] idk man\n\n";
    let (done, total) = parse_todo_list_tasks_status(todo_raw);
    assert_eq!(5, done);
    assert_eq!(5, total);

    assert!(parse_todo_list(todo_raw).unwrap().tasks_are_all_done());
}

#[test]
fn parse_tasks_only_in_todo_list_section() {
    let todo_raw = "# Title\n\n## Description\n\nLABEL=\n\n## Description \n\n\
Confusing description\n\n* [x] confusing point\n\n## Todo list\n\n\
* [x] idk man\n* [x] idk man\n* [x] idk man\n* [x] idk man\n* [x] idk man\n\n";
    let (done, total) = parse_todo_list_tasks_status(todo_raw);
    assert_eq!(5, done);
    assert_eq!(5, total);

    assert!(parse_todo_list(todo_raw).unwrap().tasks_are_all_done());

    let todo_raw = "# Title\n\n## Description\n\nLABEL=\n\n## Description \n\n\
Confusing description\n\n* [x] confusing point\n\n## Todo list\n\n\
* [x] idk man\n* [x] idk man\n* [x] idk man\n* [x] idk man\n* [x] idk man\n\n\
## Some other section\n\n* [x] this should not be counted\n";
    let (done, total) = parse_todo_list_tasks_status(todo_raw);
    assert_eq!(5, done);
    assert_eq!(5, total);

    assert!(parse_todo_list(todo_raw).unwrap().tasks_are_all_done());
}

#[test]
fn parse_todo_list_tasks_assertion() {
    let todo_raw = "";
    let completed = true;
    let open = true;
    let short = true;
    assert!(parse_todo_list_tasks(&todo_raw, completed, open, short, None).is_ok());
    let completed = true;
    let open = true;
    let short = false; // testing if short modifies this behavior
    assert!(parse_todo_list_tasks(&todo_raw, completed, open, short, None).is_ok());
    let completed = false;
    let open = true;
    let short = false;
    assert!(parse_todo_list_tasks(&todo_raw, completed, open, short, None).is_ok());
    let completed = true;
    let open = false;
    let short = false;
    assert!(parse_todo_list_tasks(&todo_raw, completed, open, short, None).is_ok());
    let completed = false;
    let open = false;
    let short = false;
    assert!(parse_todo_list_tasks(&todo_raw, completed, open, short, None).is_err());
    let completed = false;
    let open = false;
    let short = true;
    assert!(parse_todo_list_tasks(&todo_raw, completed, open, short, None).is_err());
}

#[test]
fn parse_todo_list_completed_tasks_short_description() {
    let todo_raw = "# Title\n\n## Description\n\nLABEL=\n\n## Description\n\n\
Confusing description\n\n* [x] confusing point\n\n## Todo list\n\n\
* [x] completed1\n* [x] completed2\n* [ ] open1\n\
* [x] completed3 long description\nthis line should not be caught\n\
* [x] completed4 long description\nthis line should not be caught either\n\n";
    let completed = true;
    let open = false;
    let short = true;
    let tasks = parse_todo_list_tasks(todo_raw, completed, open, short, None).unwrap();
    let expected: Vec<String> = vec![
        String::from("* [x] completed1"),
        String::from("* [x] completed2"),
        String::from("* [x] completed3 long description"),
        String::from("* [x] completed4 long description"),
    ];
    assert_eq!(tasks, expected);
}

#[test]
fn parse_todo_list_open_tasks_short_description() {
    let todo_raw = "# Title\n\n## Description\n\nLABEL=\n\n## Description\n\n\
Confusing description\n\n* [x] confusing point\n\n## Todo list\n\n\
* [ ] open1\n* [x] completed1\n* [x] completed2\n\
* [ ] open2 long description\nthis line should not be caught\n\
* [ ] open3 long description\nthis line should not be caught either\n\n";
    let completed = false;
    let open = true;
    let short = true;
    let tasks = parse_todo_list_tasks(todo_raw, completed, open, short, None).unwrap();
    let expected: Vec<String> = vec![
        String::from("* [ ] open1"),
        String::from("* [ ] open2 long description"),
        String::from("* [ ] open3 long description"),
    ];
    assert_eq!(tasks, expected);
}

#[test]
fn parse_todo_list_completed_tasks_description() {
    let todo_raw = "# Title\n\n## Description\n\nLABEL=\n\n## Description\n\n\
Confusing description\n\n* [x] confusing point\n\n## Todo list\n\n\
* [x] completed1\n* [x] completed2\n* [ ] open1\n\
* [x] completed3 long description\nthis line should be caught\n\
* [x] completed4 long description\nthis line should also be caught\n\n";
    let completed = true;
    let open = false;
    let short = false;
    let tasks = parse_todo_list_tasks(todo_raw, completed, open, short, None).unwrap();
    let expected: Vec<String> = vec![
        String::from("* [x] completed1"),
        String::from("* [x] completed2"),
        String::from("* [x] completed3 long description\nthis line should be caught"),
        String::from("* [x] completed4 long description\nthis line should also be caught"),
    ];
    assert_eq!(tasks, expected);
}

#[test]
fn parse_todo_list_open_tasks_description() {
    let todo_raw = "# Title\n\n## Description\n\nLABEL=\n\n## Description\n\n\
Confusing description\n\n* [x] confusing point\n\n## Todo list\n\n\
* [ ] open1\n* [x] completed1\n* [x] completed2\n\
* [ ] open2 long description\nthis line should be caught\n\
* [ ] open3 long description\nthis line should also be caught\n\n";
    let completed = false;
    let open = true;
    let short = false;
    let tasks = parse_todo_list_tasks(todo_raw, completed, open, short, None).unwrap();
    let expected: Vec<String> = vec![
        String::from("* [ ] open1"),
        String::from("* [ ] open2 long description\nthis line should be caught"),
        String::from("* [ ] open3 long description\nthis line should also be caught"),
    ];
    assert_eq!(tasks, expected);
}
