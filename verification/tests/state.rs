use language_bot::about::AboutText;
use language_bot::commands::{before, update_about, apply_about_update};
use language_bot::counter::CommandCounter;

#[test]
fn counter_starts_empty() {
    let c = CommandCounter::new();
    assert_eq!(c.len(), 0);
    assert_eq!(c.count("about"), 0);
    assert_eq!(c.report(), "Commands used:\n");
}

#[test]
fn counter_records_in_order_of_first_use() {
    let mut c = CommandCounter::new();
    c.record("about");
    c.record("commands");
    c.record("about");
    assert_eq!(c.len(), 2);
    assert_eq!(c.count("about"), 2);
    assert_eq!(c.count("commands"), 1);
    assert_eq!(c.count("help"), 0);
    assert_eq!(c.report(), "Commands used:\n- about: 2\n- commands: 1\n");
}

#[test]
fn before_hook_counts_and_proceeds() {
    let mut c = CommandCounter::new();
    for _ in 0..12 {
        assert!(before(&mut c, "remove_member"));
    }
    assert!(before(&mut c, "about"));
    assert_eq!(c.count("remove_member"), 12);
    assert_eq!(c.count("about"), 1);
    assert_eq!(c.report(), "Commands used:\n- remove_member: 12\n- about: 1\n");
}

#[test]
fn about_starts_with_creator_line() {
    let a = AboutText::new();
    assert_eq!(a.text(), "Bot created by ilya");
}

#[test]
fn about_read_gives_back_last_write() {
    let mut a = AboutText::new();
    a.replace_with("first");
    a.replace_with("second text");
    assert_eq!(a.text(), "Bot made by itzIlya.\nsecond text");
}

#[test]
fn update_about_outside_server_is_refused() {
    let mut a = AboutText::new();
    let r = update_about(&mut a, false, &roles(&["admin"]), "new text");
    assert_eq!(r, "Command only available in server channels.");
    assert_eq!(a.text(), "Bot created by ilya");
}

fn roles(names: &[&str]) -> Option<Vec<String>> {
    Some(names.iter().map(|n| n.to_string()).collect())
}

#[test]
fn update_about_without_admin_role_is_refused() {
    let mut a = AboutText::new();
    let r = update_about(&mut a, true, &roles(&["moderator", "Admin"]), "new text");
    assert_eq!(r, "You don't have permission to edit bot features");
    assert_eq!(a.text(), "Bot created by ilya");
}

#[test]
fn update_about_with_admin_role() {
    let mut a = AboutText::new();
    let r = update_about(&mut a, true, &roles(&["member", "admin"]), "Rules: be nice");
    assert_eq!(r, "successfully updated about");
    assert_eq!(a.text(), "Bot made by itzIlya.\nRules: be nice");
}

#[test]
fn update_about_when_roles_unknown_is_refused() {
    let mut a = AboutText::new();
    let r = update_about(&mut a, true, &None, "hello, world");
    assert_eq!(r, "You don't have permission to edit bot features");
    assert_eq!(a.text(), "Bot created by ilya");
}

#[test]
fn update_about_keeps_commas() {
    let mut a = AboutText::new();
    let r = update_about(&mut a, true, &roles(&["admin"]), "hello, world");
    assert_eq!(r, "successfully updated about");
    assert_eq!(a.text(), "Bot made by itzIlya.\nhello, world");
}

#[test]
fn update_about_skips_leading_delimiter() {
    let mut a = AboutText::new();
    update_about(&mut a, true, &roles(&["admin"]), ", hi");
    assert_eq!(a.text(), "Bot made by itzIlya.\nhi");
}

#[test]
fn update_about_with_no_arguments() {
    let mut a = AboutText::new();
    update_about(&mut a, true, &roles(&["admin"]), "");
    assert_eq!(a.text(), "Bot made by itzIlya.\n");
}

#[test]
fn apply_about_update_takes_rest_verbatim() {
    let mut a = AboutText::new();
    let r = apply_about_update(&mut a, true, &roles(&["admin"]), "  spaced  ");
    assert_eq!(r, "successfully updated about");
    assert_eq!(a.text(), "Bot made by itzIlya.\n  spaced  ");
}

#[test]
fn about_about_commands_report() {
    let mut c = CommandCounter::new();
    assert!(before(&mut c, "about"));
    assert!(before(&mut c, "about"));
    assert!(before(&mut c, "commands"));
    assert_eq!(c.report(), "Commands used:\n- about: 2\n- commands: 1\n");
}

#[test]
fn record_order_does_not_change_counts() {
    let mut x = CommandCounter::new();
    x.record("about");
    x.record("help");
    let mut y = CommandCounter::new();
    y.record("help");
    y.record("about");
    assert_eq!(x.count("about"), y.count("about"));
    assert_eq!(x.count("help"), y.count("help"));
    assert_eq!(x.len(), y.len());
}

#[test]
fn update_about_skips_leading_space() {
    let mut a = AboutText::new();
    update_about(&mut a, true, &roles(&["admin"]), " hi there");
    assert_eq!(a.text(), "Bot made by itzIlya.\nhi there");
}
