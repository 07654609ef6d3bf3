use pkg_browser::backend::{list_command, show_command, title, PackageManager};
use pkg_browser::catalog::PackageList;
use pkg_browser::detail::{fetch_package_details, no_selection_text};
use pkg_browser::interaction::{App, InputEvent};
use pkg_browser::package::{display_row, display_rows};

fn five_item_catalog() -> PackageList {
    PackageList::load(PackageManager::Pkg, "a/1\nb/2\nc/3\nd/4\ne/5\n")
}

#[test]
fn load_selects_first_entry() {
    let list = five_item_catalog();
    assert_eq!(list.items.len(), 5);
    assert_eq!(list.selected, Some(0));
    assert_eq!(list.package_manager, PackageManager::Pkg);
}

#[test]
fn select_next_cycles_back_after_item_count_steps() {
    let mut list = five_item_catalog();
    list.select_next();
    list.select_next();
    assert_eq!(list.selected, Some(2));
    for _ in 0..5 {
        list.select_next();
    }
    assert_eq!(list.selected, Some(2));
}

#[test]
fn select_next_wraps_from_last_to_first() {
    let mut list = five_item_catalog();
    list.select_last();
    list.select_next();
    assert_eq!(list.selected, Some(0));
}

#[test]
fn select_previous_wraps_from_first_to_last() {
    let mut list = five_item_catalog();
    assert_eq!(list.selected, Some(0));
    list.select_previous();
    assert_eq!(list.selected, Some(4));
}

#[test]
fn select_previous_undoes_select_next() {
    let mut list = five_item_catalog();
    list.select_next();
    list.select_next();
    let before = list.selected;
    list.select_next();
    list.select_previous();
    assert_eq!(list.selected, before);
    list.select_previous();
    list.select_next();
    assert_eq!(list.selected, before);
}

#[test]
fn select_first_then_last_on_five_items() {
    let mut list = five_item_catalog();
    list.select_first();
    list.select_last();
    assert_eq!(list.selected, Some(4));
}

#[test]
fn navigation_is_a_no_op_on_an_empty_catalog() {
    let mut list = PackageList::load(PackageManager::Pkg, "");
    list.select_next();
    assert_eq!(list.selected, None);
    list.select_previous();
    assert_eq!(list.selected, None);
    list.select_first();
    assert_eq!(list.selected, None);
    list.select_last();
    assert_eq!(list.selected, None);
}

#[test]
fn navigation_stays_put_on_a_single_item() {
    let mut list = PackageList::load(PackageManager::Pkg, "only/1\n");
    list.select_next();
    assert_eq!(list.selected, Some(0));
    list.select_previous();
    assert_eq!(list.selected, Some(0));
}

#[test]
fn toggle_replaces_catalog_and_advances_backend() {
    let mut list = PackageList::load(PackageManager::Pkg, "a/1\n");
    list.toggle_package_manager("vim/stable 2:8.2.0 amd64 [installed]\n");
    assert_eq!(list.package_manager, PackageManager::Apt);
    assert_eq!(list.items.len(), 1);
    assert_eq!(list.items[0].name, "vim");
    assert_eq!(list.selected, Some(0));
}

#[test]
fn three_toggles_return_to_the_starting_backend() {
    let mut list = PackageList::load(PackageManager::Pkg, "a/1\n");
    list.toggle_package_manager("");
    list.toggle_package_manager("");
    list.toggle_package_manager("");
    assert_eq!(list.package_manager, PackageManager::Pkg);
}

#[test]
fn backend_cycle_order() {
    assert_eq!(PackageManager::Pkg.next(), PackageManager::Apt);
    assert_eq!(PackageManager::Apt.next(), PackageManager::Pip);
    assert_eq!(PackageManager::Pip.next(), PackageManager::Pkg);
}

#[test]
fn selected_name_of_selected_entry() {
    let mut list = five_item_catalog();
    list.select_next();
    assert_eq!(list.selected_name(), Some("b".to_string()));
}

#[test]
fn no_selection_detail_text_without_external_call() {
    let list = PackageList::load(PackageManager::Pkg, "");
    assert_eq!(list.selected_name(), None);
    assert_eq!(no_selection_text(), "No package selected");
}

#[test]
fn detail_text_for_launch_failure() {
    assert_eq!(fetch_package_details(None), "Failed to fetch package details");
}

#[test]
fn detail_text_for_empty_output() {
    assert_eq!(fetch_package_details(Some(String::new())), "No details available");
}

#[test]
fn detail_text_passes_output_through_verbatim() {
    let text = "Name: htop\nDescription: a process viewer\n".to_string();
    assert_eq!(fetch_package_details(Some(text.clone())), text);
}

#[test]
fn titles_name_the_active_backend() {
    assert_eq!(title(PackageManager::Pkg), "Installed Packages (pkg)");
    assert_eq!(title(PackageManager::Apt), "Installed Packages (apt)");
    assert_eq!(title(PackageManager::Pip), "Installed Packages (pip)");
}

#[test]
fn list_commands_match_the_contract_table() {
    let (prog, args) = list_command(PackageManager::Pkg);
    assert_eq!(prog, "pkg");
    assert_eq!(args, vec!["list-installed"]);
    let (prog, args) = list_command(PackageManager::Apt);
    assert_eq!(prog, "apt");
    assert_eq!(args, vec!["list", "--installed"]);
    let (prog, args) = list_command(PackageManager::Pip);
    assert_eq!(prog, "pip");
    assert_eq!(args, vec!["list"]);
}

#[test]
fn show_commands_match_the_contract_table() {
    let (prog, args) = show_command(PackageManager::Pkg, "htop");
    assert_eq!(prog, "pkg");
    assert_eq!(args, vec!["show".to_string(), "htop".to_string()]);
    let (prog, args) = show_command(PackageManager::Apt, "vim");
    assert_eq!(prog, "apt");
    assert_eq!(args, vec!["show".to_string(), "vim".to_string()]);
    let (prog, args) = show_command(PackageManager::Pip, "requests");
    assert_eq!(prog, "pip");
    assert_eq!(args, vec!["show".to_string(), "requests".to_string()]);
}

#[test]
fn display_rows_join_name_and_version() {
    let list = five_item_catalog();
    assert_eq!(display_row(&list.items[0]), "a 1");
    let rows = display_rows(&list.items);
    assert_eq!(rows.len(), 5);
    assert_eq!(rows[4], "e 5");
}

#[test]
fn quit_event_sets_the_exit_flag() {
    let mut app = App::new("a/1\n");
    assert!(!app.should_exit);
    let reload = app.handle_event(InputEvent::Quit);
    assert_eq!(reload, None);
    assert!(app.should_exit);
}

#[test]
fn movement_events_drive_the_selection() {
    let mut app = App::new("a/1\nb/2\nc/3\n");
    assert_eq!(app.package_list.selected, Some(0));
    app.handle_event(InputEvent::MoveDown);
    assert_eq!(app.package_list.selected, Some(1));
    app.handle_event(InputEvent::MoveUp);
    assert_eq!(app.package_list.selected, Some(0));
    app.handle_event(InputEvent::JumpLast);
    assert_eq!(app.package_list.selected, Some(2));
    app.handle_event(InputEvent::JumpFirst);
    assert_eq!(app.package_list.selected, Some(0));
}

#[test]
fn cycle_backend_event_reports_the_next_backend_without_touching_state() {
    let mut app = App::new("a/1\n");
    let reload = app.handle_event(InputEvent::CycleBackend);
    assert_eq!(reload, Some(PackageManager::Apt));
    assert_eq!(app.package_list.package_manager, PackageManager::Pkg);
    assert_eq!(app.package_list.items.len(), 1);
    app.package_list.toggle_package_manager("vim/stable 2:8.2.0 amd64 [installed]\n");
    assert_eq!(app.package_list.package_manager, PackageManager::Apt);
    assert_eq!(app.package_list.items[0].name, "vim");
}

#[test]
fn other_events_change_nothing() {
    let mut app = App::new("a/1\n");
    let reload = app.handle_event(InputEvent::Other);
    assert_eq!(reload, None);
    assert!(!app.should_exit);
    assert_eq!(app.package_list.selected, Some(0));
}
