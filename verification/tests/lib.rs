use todo::{todo_path, Configuration, Context, TodoList};

const TODO_BAREBONES: &'static str = "# Title\n\n## Description\n\nLABEL=\n";

fn named(name: &str) -> Context {
    Context {
        ide: String::from(""),
        name: String::from(name),
        timezone: String::from(""),
        folder_location: String::from(""),
    }
}

#[test]
fn barebones_todo() {
    let todo = TodoList {
        title: String::from("Title"),
        labels: vec![],
        description: String::from(""),
        list_items: vec![],
        motives: vec![],
    };
    let expected = TODO_BAREBONES;
    let output = todo.to_text();
    assert_eq!(output, expected);
}

#[test]
fn all_options_todo() {
    let todo = TodoList {
        title: String::from("Title"),
        labels: vec![String::from("l1"), String::from("l2")],
        description: String::from("This is the hello todo list"),
        list_items: vec![String::from("i1 first"), String::from("i2 second")],
        motives: vec![String::from("m1 first"), String::from("m2 second")],
    };
    let expected = String::from(
        "# Title\n\n## Description\n\nLABEL=l1,l2\nThis is the hello todo list\n\n\
## Todo list\n\n* [ ] i1 first\n* [ ] i2 second\n\n## Motives\n\n1. m1 first\n2. m2 second\n",
    );
    let output = todo.to_text();
    assert_eq!(output, expected);
}

#[test]
fn update_config_with_empty_title_fails() {
    let mut config = Configuration {
        active_ctx_name: String::from(""),
        ctxs: vec![],
    };
    assert!(config.update_active_ctx("").is_err());

    let mut config = Configuration {
        active_ctx_name: String::from("config1"),
        ctxs: vec![named("config1"), named("")],
    };
    assert!(config.update_active_ctx("").is_err());
}

#[test]
fn update_config_with_existing_config() {
    let mut config = Configuration {
        active_ctx_name: String::from("config1"),
        ctxs: vec![named("config1"), named("config2")],
    };
    assert!(config.update_active_ctx("config2").is_ok());
    assert_eq!(config.active_ctx_name, "config2");
}

#[test]
fn update_config_with_missing_config() {
    let mut config = Configuration {
        active_ctx_name: String::from("config1"),
        ctxs: vec![named("config1"), named("config2")],
    };
    assert!(config.update_active_ctx("missing_config").is_err());
}

#[test]
fn todo_path_joins_folder_name_and_extension() {
    assert_eq!(todo_path("/path/to/folder", "groceries"), "/path/to/folder/groceries.md");
    assert_eq!(todo_path("", ""), "/.md");
}
