use nanobar::error::Error;
use nanobar::menubar::MenuBarItem;
use nanobar::resolver::{
    also_hidden, divider_position, located_names, match_target, match_targets, names_contain,
    owner_matches, plan_divider, pusher_position, resolve_target, resolve_targets,
    target_position,
};
use nanobar::text::{contains_text, parse_index};

fn item(name: &str, x: i64, width: i64) -> MenuBarItem {
    MenuBarItem { window_id: 1, owner_name: name.to_string(), owner_pid: 42, x, width }
}

fn strings(v: &[&str]) -> Vec<String> {
    v.iter().map(|s| s.to_string()).collect()
}

fn snapshot() -> Vec<MenuBarItem> {
    vec![
        item("Slack", 1000, 220),
        item("Dropbox", 1300, 220),
        item("nanobar", 2000, 100),
        item("Control Center", 3000, 300),
        item("Slack Helper", 3500, 220),
    ]
}

#[test]
fn least_position_wins() {
    // A at 120.0 and B at 95.0: target 95.0, divider 75.0, never 100.0.
    let ps = vec![Some(1200), Some(950)];
    assert_eq!(target_position(&ps), Some(950));
    assert_eq!(plan_divider(&ps), Ok(750));
    assert_ne!(plan_divider(&ps), Ok(1000));
}

#[test]
fn missing_positions_are_skipped() {
    assert_eq!(target_position(&vec![None, Some(800), None, Some(900)]), Some(800));
    assert_eq!(plan_divider(&vec![None, Some(800)]), Ok(600));
    assert_eq!(target_position(&vec![None, None]), None);
    assert_eq!(plan_divider(&vec![None, None]), Err(Error::ResolutionFailed));
    assert_eq!(plan_divider(&Vec::new()), Err(Error::ResolutionFailed));
}

#[test]
fn divider_is_floored() {
    assert_eq!(divider_position(950), 750);
    assert_eq!(divider_position(210), 10);
    assert_eq!(divider_position(100), 10);
    assert_eq!(divider_position(-5000), 10);
    assert_eq!(divider_position(i64::MIN), 10);
    assert_eq!(divider_position(i64::MAX), i64::MAX - 200);
}

#[test]
fn pusher_sits_left_of_divider() {
    assert_eq!(pusher_position(750), 770);
}

#[test]
fn partial_match_goes_on() {
    let items = snapshot();
    let m = match_targets(&strings(&["Slack", "NoSuchApp"]), &items);
    assert_eq!(m.matched, vec![0, 4]);
    assert_eq!(m.not_found, strings(&["NoSuchApp"]));
    let ps = vec![Some(1200), None];
    assert_eq!(plan_divider(&ps), Ok(1000));
    assert_eq!(located_names(&items, &m.matched, &ps), strings(&["Slack"]));
}

#[test]
fn matching_ignores_case_and_own_items() {
    let items = snapshot();
    assert_eq!(match_target("SLACK", &items), vec![0, 4]);
    assert_eq!(match_target("center", &items), vec![3]);
    assert_eq!(match_target("nano", &items), Vec::<usize>::new());
    assert_eq!(match_target("", &items), vec![0, 1, 3, 4]);
    assert!(owner_matches("Slack", "slack", "sla"));
    assert!(!owner_matches("nanobar", "nanobar", "nano"));
    assert!(!owner_matches("Slack", "slack", "SLA"));
}

#[test]
fn numeric_arguments_pick_items() {
    let items = snapshot();
    let r = resolve_targets(&strings(&["2", "0", "6", "Zoom", "+4", "-1"]), &items);
    assert_eq!(r, strings(&["Dropbox", "0", "6", "Zoom", "Control Center", "-1"]));
    assert_eq!(resolve_target(&"1".to_string(), &items), "Slack");
}

#[test]
fn index_parsing() {
    assert_eq!(parse_index("12"), Some(12));
    assert_eq!(parse_index("+7"), Some(7));
    assert_eq!(parse_index("007"), Some(7));
    assert_eq!(parse_index(""), None);
    assert_eq!(parse_index("+"), None);
    assert_eq!(parse_index("-1"), None);
    assert_eq!(parse_index("1a"), None);
    assert_eq!(parse_index(" 1"), None);
    assert_eq!(parse_index("18446744073709551615"), Some(18446744073709551615));
    assert_eq!(parse_index("18446744073709551616"), None);
}

#[test]
fn substring_search() {
    assert!(contains_text("control center", "center"));
    assert!(contains_text("abc", ""));
    assert!(contains_text("abc", "abc"));
    assert!(!contains_text("abc", "abcd"));
    assert!(!contains_text("aab", "abb"));
}

#[test]
fn items_hidden_along_with_targets() {
    let items = snapshot();
    let targets = strings(&["Dropbox"]);
    // Dropbox ends at 152.0: Slack, left of it, goes too.
    assert_eq!(also_hidden(&items, &targets), strings(&["Slack"]));
    let targets = strings(&["Control Center"]);
    assert_eq!(also_hidden(&items, &targets), strings(&["Slack", "Dropbox"]));
    assert_eq!(also_hidden(&items, &strings(&["Nothing"])), Vec::<String>::new());
    assert!(names_contain(&targets, "Control Center"));
    assert!(!names_contain(&targets, "Control"));
}
