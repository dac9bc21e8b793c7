use awdy::filter::{filter_lane, refresh_tags, str_lex_lt, TagItem};
use awdy::store::tag_diff;
use awdy::task::{Task, TaskState};

fn task(id: u64, state: TaskState, title: &str, tags: &[&str]) -> Task {
    Task {
        id: Some(id),
        state,
        title: title.to_string(),
        description: None,
        tags: tags.iter().map(|t| t.to_string()).collect(),
    }
}

fn tag(name: &str, selected: bool) -> TagItem {
    TagItem { name: name.to_string(), selected }
}

fn titles(lane: &[Task]) -> Vec<String> {
    lane.iter().map(|t| t.title.clone()).collect()
}

#[test]
fn no_filter_excludes_archived_tasks_from_every_lane() {
    let all = vec![
        task(1, TaskState::Todo, "open", &[]),
        task(2, TaskState::Todo, "hidden", &["Archive"]),
        task(3, TaskState::Done, "shipped", &["Archive", "x"]),
    ];
    let panel = vec![tag("Archive", false), tag("x", false)];
    for lane in 0..4usize {
        let shown = filter_lane(&all, lane, &panel);
        assert!(shown.iter().all(|t| !t.tags.iter().any(|g| g == "Archive")));
    }
    assert_eq!(titles(&filter_lane(&all, 0, &panel)), vec!["open".to_string()]);
    assert!(filter_lane(&all, 3, &panel).is_empty());
}

#[test]
fn selecting_a_tag_shows_archived_tasks_carrying_it() {
    let all = vec![
        task(1, TaskState::Todo, "open", &[]),
        task(2, TaskState::Todo, "hidden", &["Archive"]),
    ];
    let panel = vec![tag("Archive", true)];
    let shown = filter_lane(&all, 0, &panel);
    assert_eq!(titles(&shown), vec!["hidden".to_string()]);
}

#[test]
fn selected_tags_show_exactly_the_union() {
    let all = vec![
        task(1, TaskState::Todo, "a", &["red"]),
        task(2, TaskState::Todo, "b", &["blue"]),
        task(3, TaskState::Todo, "c", &["green"]),
        task(4, TaskState::Todo, "d", &["red", "green"]),
    ];
    let panel = vec![tag("red", true), tag("blue", false), tag("green", true)];
    let shown = filter_lane(&all, 0, &panel);
    assert_eq!(
        titles(&shown),
        vec!["a".to_string(), "c".to_string(), "d".to_string()]
    );
}

#[test]
fn lanes_split_by_state_in_store_order() {
    let all = vec![
        task(1, TaskState::Done, "z", &[]),
        task(2, TaskState::Todo, "y", &[]),
        task(3, TaskState::Done, "x", &[]),
    ];
    let panel: Vec<TagItem> = vec![];
    assert_eq!(titles(&filter_lane(&all, 0, &panel)), vec!["y".to_string()]);
    assert_eq!(
        titles(&filter_lane(&all, 3, &panel)),
        vec!["z".to_string(), "x".to_string()]
    );
    assert!(filter_lane(&all, 1, &panel).is_empty());
    assert!(filter_lane(&all, 2, &panel).is_empty());
}

#[test]
fn tag_panel_is_distinct_and_descending() {
    let all = vec![
        task(1, TaskState::Todo, "a", &["beta", "alpha"]),
        task(2, TaskState::Done, "b", &["alpha", "gamma"]),
    ];
    let old: Vec<TagItem> = Vec::new();
    let panel = refresh_tags(&all, &old);
    let names: Vec<String> = panel.iter().map(|t| t.name.clone()).collect();
    assert_eq!(
        names,
        vec!["gamma".to_string(), "beta".to_string(), "alpha".to_string()]
    );
}

#[test]
fn tag_panel_keeps_selected_flags_by_name() {
    let all = vec![task(1, TaskState::Todo, "a", &["red", "blue", "new"])];
    let old = vec![tag("red", true), tag("blue", false), tag("gone", true)];
    let panel = refresh_tags(&all, &old);
    let lookup = |name: &str| panel.iter().find(|t| t.name == name).unwrap().selected;
    assert!(lookup("red"));
    assert!(!lookup("blue"));
    assert!(!lookup("new"));
    assert!(panel.iter().all(|t| t.name != "gone"));
}

#[test]
fn tag_diff_separates_additions_from_removals() {
    let stored = vec!["a".to_string(), "b".to_string(), "c".to_string()];
    let current = vec!["b".to_string(), "d".to_string()];
    let (to_add, to_remove) = tag_diff(&stored, &current);
    assert_eq!(to_add, vec!["d".to_string()]);
    assert_eq!(to_remove, vec!["a".to_string(), "c".to_string()]);
}

#[test]
fn tag_diff_deduplicates_and_handles_empty_sides() {
    let stored: Vec<String> = Vec::new();
    let current = vec!["x".to_string(), "x".to_string(), "y".to_string()];
    let (to_add, to_remove) = tag_diff(&stored, &current);
    assert_eq!(to_add, vec!["x".to_string(), "y".to_string()]);
    assert!(to_remove.is_empty());
    let (none_to_add, all_to_remove) = tag_diff(&current, &stored);
    assert!(none_to_add.is_empty());
    assert_eq!(all_to_remove, vec!["x".to_string(), "y".to_string()]);
}

#[test]
fn lexicographic_order_on_tag_names() {
    let a = "alpha".to_string();
    let b = "beta".to_string();
    let ab = "ab".to_string();
    assert!(str_lex_lt(&a, &b));
    assert!(!str_lex_lt(&b, &a));
    assert!(!str_lex_lt(&a, &a));
    assert!(str_lex_lt(&ab, &a));
    assert!(str_lex_lt(&"".to_string(), &ab));
}
