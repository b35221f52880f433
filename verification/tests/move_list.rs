use todo::move_list::{paths_for_moving_todo_list, Error};
use todo::{Configuration, Context};

fn two_contexts(active: &str) -> Configuration {
    Configuration {
        active_ctx_name: active.to_string(),
        ctxs: vec![
            Context {
                ide: "".to_string(),
                name: "ctx1".to_string(),
                timezone: "".to_string(),
                folder_location: "/path/to/folder1".to_string(),
            },
            Context {
                ide: "".to_string(),
                name: "ctx2".to_string(),
                timezone: "".to_string(),
                folder_location: "/path/to/folder2".to_string(),
            },
        ],
    }
}

#[test]
fn well_formed_paths() {
    let config = two_contexts("ctx1");
    let (old_path, new_path) = paths_for_moving_todo_list("file", "ctx2", &config).unwrap();
    // the extension is left out so that the test does not depend on it
    let expected_old_path = "/path/to/folder1/file.";
    let expected_new_path = "/path/to/folder2/file.";
    assert!(old_path.starts_with(expected_old_path));
    assert!(new_path.starts_with(expected_new_path));
}

#[test]
fn unknown_context_throws_error() {
    let config = two_contexts("ctx1");
    let paths = paths_for_moving_todo_list("file", "unknown", &config);
    assert!(paths.is_err());
    match paths.unwrap_err() {
        Error::UnknownContext(is_old_path, unknown_ctx, available_ctxs) => {
            assert!(!is_old_path);
            assert_eq!(unknown_ctx, "unknown");
            assert_eq!(available_ctxs, vec!["ctx1".to_string(), "ctx2".to_string()])
        }

        _ => assert!(false),
    }
}

#[test]
fn moving_paths_are_exact() {
    let config = two_contexts("ctx2");
    let (old_path, new_path) = paths_for_moving_todo_list("file", "ctx1", &config).unwrap();
    assert_eq!(old_path, "/path/to/folder2/file.md");
    assert_eq!(new_path, "/path/to/folder1/file.md");
}

#[test]
fn unknown_active_context_is_reported_as_old_path() {
    let config = two_contexts("gone");
    match paths_for_moving_todo_list("file", "ctx1", &config).unwrap_err() {
        Error::UnknownContext(is_old_path, unknown_ctx, available_ctxs) => {
            assert!(is_old_path);
            assert_eq!(unknown_ctx, "ctx1");
            assert_eq!(available_ctxs, vec!["ctx1".to_string(), "ctx2".to_string()])
        }
        _ => assert!(false),
    }
}

#[test]
fn move_error_messages() {
    let unknown_old = Error::UnknownContext(
        true,
        "work".to_string(),
        vec!["ctx1".to_string(), "ctx2".to_string()],
    );
    assert_eq!(
        unknown_old.message(),
        "Old path is unknown!\n\"work\" does not match any available context.\n\
Please select a name among:\n- ctx1\n- ctx2\n"
    );
    let unknown_new = Error::UnknownContext(false, "work".to_string(), vec![]);
    assert_eq!(
        unknown_new.message(),
        "New path is unknown!\n\"work\" does not match any available context.\n\
Please select a name among:\n"
    );
    assert_eq!(
        Error::PromptingUserForContextFolderCreation.message(),
        "Something went wrong while asking user to create Todo Context folder to move Todo list into.\n"
    );
    assert_eq!(
        Error::Renaming.message(),
        "Error while renaming the file to another location.\n"
    );
    assert_eq!(
        Error::NothingToMove("file".to_string(), "/tmp/file.md".to_string()).message(),
        "File \"file\" could not be moved because there is nothing at \"/tmp/file.md\"\n"
    );
}
