use roadmap_planner::adapter::{load_response, save_response, SaveOutcome};
use roadmap_planner::commands::{command_for_name, Command};
use roadmap_planner::greeting::greet;
use roadmap_planner::store::Store;

#[test]
fn greet_ada() {
    assert_eq!(greet("Ada"), "Hello, Ada! You're running Roadmap Planner!");
}

#[test]
fn greet_empty_name() {
    assert_eq!(greet(""), "Hello, ! You're running Roadmap Planner!");
}

#[test]
fn save_then_load_round_trip() {
    let mut store = Store::new();
    let path = String::from("roadmap.json");
    let content = String::from("{\"milestones\":[\"alpha\",\"beta\"]}");
    store.save(path.clone(), content.clone());
    assert_eq!(store.load(&path), Some(content));
}

#[test]
fn save_then_load_empty_content() {
    let mut store = Store::new();
    let path = String::from("empty.txt");
    store.save(path.clone(), String::new());
    assert_eq!(store.load(&path), Some(String::new()));
}

#[test]
fn overwrite_truncates() {
    let mut store = Store::new();
    let path = String::from("roadmap.json");
    store.save(path.clone(), String::from("first version"));
    store.save(path.clone(), String::from("second"));
    assert_eq!(store.load(&path), Some(String::from("second")));
}

#[test]
fn overwrite_leaves_other_paths_alone() {
    let mut store = Store::new();
    let one = String::from("one.txt");
    let two = String::from("two.txt");
    store.save(one.clone(), String::from("kept"));
    store.save(two.clone(), String::from("old"));
    store.save(two.clone(), String::from("new"));
    assert_eq!(store.load(&one), Some(String::from("kept")));
    assert_eq!(store.load(&two), Some(String::from("new")));
}

#[test]
fn load_missing_path() {
    let store = Store::new();
    assert_eq!(store.load(&String::from("nowhere.json")), None);
}

#[test]
fn load_missing_path_after_save_elsewhere() {
    let mut store = Store::new();
    store.save(String::from("here.json"), String::from("data"));
    assert_eq!(store.load(&String::from("elsewhere.json")), None);
}

#[test]
fn save_response_success() {
    assert_eq!(save_response(SaveOutcome::Written), Ok(()));
}

#[test]
fn save_response_create_error() {
    let r = save_response(SaveOutcome::CreateError(String::from(
        "Permission denied (os error 13)",
    )));
    assert_eq!(
        r,
        Err(String::from(
            "Failed to create file: Permission denied (os error 13)"
        ))
    );
}

#[test]
fn save_response_write_error() {
    let r = save_response(SaveOutcome::WriteError(String::from(
        "No space left on device (os error 28)",
    )));
    assert_eq!(
        r,
        Err(String::from(
            "Failed to write file: No space left on device (os error 28)"
        ))
    );
}

#[test]
fn load_response_success_passes_content_through() {
    let r = load_response(Ok(String::from("saved roadmap")));
    assert_eq!(r, Ok(String::from("saved roadmap")));
}

#[test]
fn load_response_read_error() {
    let r = load_response(Err(String::from(
        "No such file or directory (os error 2)",
    )));
    assert_eq!(
        r,
        Err(String::from(
            "Failed to read file: No such file or directory (os error 2)"
        ))
    );
}

#[test]
fn dispatch_known_commands() {
    assert_eq!(command_for_name("greet"), Some(Command::Greet));
    assert_eq!(command_for_name("save_roadmap"), Some(Command::SaveRoadmap));
    assert_eq!(command_for_name("load_roadmap"), Some(Command::LoadRoadmap));
}

#[test]
fn dispatch_unknown_command() {
    assert_eq!(command_for_name("quit"), None);
    assert_eq!(command_for_name(""), None);
}
