use encode::general_data::{Plugin, Project, StoreError};
use encode::launcher::{dependencies_check, project_for, DependencyError, Ret};
use encode::plugins::{library_file_name, plugins_to_load};

fn plugin(id: i32, name: &str, used: bool, deps: &str) -> Plugin {
    Plugin::from_row(id, name.to_string(), used, deps)
}

fn names(v: &[&str]) -> Vec<String> {
    v.iter().map(|s| s.to_string()).collect()
}

#[test]
fn plugin_from_row_splits_dependencies() {
    let p = plugin(3, "std_menu", true, " std_commands  std_shortcuts\n");
    assert_eq!(p.id, 3);
    assert_eq!(p.dev_name, "std_menu");
    assert!(p.will_be_used);
    assert_eq!(p.dependencies, names(&["std_commands", "std_shortcuts"]));
    assert!(plugin(1, "x", false, "").dependencies.is_empty());
}

#[test]
fn plugin_switch_follows_the_store() {
    let mut p = plugin(1, "std_menu", false, "std_commands");
    assert!(p.set_will_be_used(true, Ok(())).is_ok());
    assert!(p.will_be_used);
    let refused = p.set_will_be_used(false, Err(StoreError { message: "locked".to_string() }));
    assert_eq!(refused.unwrap_err().message, "locked");
    assert!(p.will_be_used);
    assert_eq!(p.dependencies, names(&["std_commands"]));
}

#[test]
fn project_rename_and_replace_follow_the_store() {
    let mut p = Project { id: 7, dev_name: "old".to_string(), dir: "/home/u".to_string() };
    assert!(p.rename("new".to_string(), Ok(())).is_ok());
    assert_eq!(p.dev_name, "new");
    assert!(p.replace("/srv".to_string(), Ok(())).is_ok());
    assert_eq!(p.dir, "/srv");
    let err = StoreError { message: "no such table".to_string() };
    assert!(p.rename("other".to_string(), Err(err.clone())).is_err());
    assert!(p.replace("/tmp".to_string(), Err(err)).is_err());
    assert_eq!((p.id, p.dev_name.as_str(), p.dir.as_str()), (7, "new", "/srv"));
}

#[test]
fn next_project_id() {
    assert_eq!(Project::next_id(None), 1);
    assert_eq!(Project::next_id(Some(41)), 42);
    assert_eq!(Project::next_id(Some(-5)), -4);
}

#[test]
fn new_project_record() {
    let ret = Ret {
        name: "demo".to_string(),
        directory: "/home/u/projects".to_string(),
        use_env: true,
        env_dir: ".env".to_string(),
    };
    let p = project_for(ret, 9);
    assert_eq!((p.id, p.dev_name.as_str(), p.dir.as_str()), (9, "demo", "/home/u/projects"));
}

#[test]
fn dependencies_must_be_selected() {
    let plugins = vec![plugin(1, "std_menu", true, "std_commands"), plugin(2, "std_commands", true, "")];
    assert_eq!(dependencies_check(&plugins, &names(&["std_menu", "std_commands"])), Ok(()));
    assert_eq!(dependencies_check(&plugins, &names(&["std_menu"])), Err(DependencyError::Unmet));
    assert_eq!(dependencies_check(&vec![], &names(&[])), Ok(()));
    assert_eq!(DependencyError::Unmet.message(), "Кажется, вы не учли зависимости плагинов");
}

#[test]
fn selecting_more_keeps_dependencies_covered() {
    let plugins = vec![plugin(1, "a", true, "b c")];
    assert!(dependencies_check(&plugins, &names(&["b", "c"])).is_ok());
    assert!(dependencies_check(&plugins, &names(&["x", "b", "y", "c"])).is_ok());
}

#[test]
fn only_switched_on_plugins_are_loaded() {
    let plugins = vec![plugin(1, "a", true, ""), plugin(2, "b", false, ""), plugin(3, "c", true, "a")];
    assert_eq!(plugins_to_load(&plugins), names(&["a", "c"]));
    assert!(plugins_to_load(&vec![]).is_empty());
}

#[test]
fn plugin_library_file_name() {
    assert_eq!(library_file_name("lib", "std_menu", ".so"), "libstd_menu.so");
    assert_eq!(library_file_name("", "std_menu", ".dll"), "std_menu.dll");
}
