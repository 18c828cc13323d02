use audiocast::queue::{PlayQueue, QueueAction};

fn queue_of(items: &[(&str, &str)]) -> PlayQueue {
    let mut q = PlayQueue::new();
    for (k, t) in items {
        q.add(k.to_string(), t.to_string());
    }
    q
}

fn pairs(q: &PlayQueue) -> Vec<(String, String)> {
    q.get_all().into_iter().map(|p| (p[0].clone(), p[1].clone())).collect()
}

#[test]
fn solo_add_starts_playback() {
    let mut q = PlayQueue::new();
    let act = q.add("A".to_string(), "Alpha".to_string());
    assert!(matches!(act, QueueAction::Next(ref k) if k == "A"));
    assert_eq!(q.get_id(), "0");
    assert_eq!(pairs(&q), vec![("A".to_string(), "Alpha".to_string())]);
}

#[test]
fn second_add_passes() {
    let mut q = queue_of(&[("A", "Alpha")]);
    let act = q.add("B".to_string(), "Beta".to_string());
    assert!(matches!(act, QueueAction::Pass));
    assert_eq!(q.get_id(), "0");
    assert_eq!(q.get_all().len(), 2);
}

#[test]
fn wrap_next_to_start() {
    let mut q = queue_of(&[("A", "Alpha"), ("B", "Beta")]);
    assert_eq!(q.next(), "B");
    assert_eq!(q.get_id(), "1");
    let key = q.next();
    assert_eq!(key, "A");
    assert_eq!(q.get_id(), "0");
}

#[test]
fn wrap_prev_to_end() {
    let mut q = queue_of(&[("A", "Alpha"), ("B", "Beta")]);
    assert_eq!(q.get_id(), "0");
    let key = q.prev();
    assert_eq!(key, "B");
    assert_eq!(q.get_id(), "1");
}

#[test]
fn next_then_prev_restores_cursor() {
    let mut q = queue_of(&[("A", "Alpha"), ("B", "Beta"), ("C", "Gamma")]);
    q.next();
    let before = q.get_id();
    q.next();
    q.prev();
    assert_eq!(q.get_id(), before);
}

#[test]
fn next_and_prev_on_empty_queue() {
    let mut q = PlayQueue::new();
    assert_eq!(q.next(), "");
    assert_eq!(q.prev(), "");
    assert_eq!(q.get_id(), "0");
    assert!(q.is_empty());
}

#[test]
fn remove_current_by_id_plays_successor() {
    let mut q = queue_of(&[("A", "Alpha"), ("B", "Beta"), ("C", "Gamma")]);
    q.next();
    assert_eq!(q.get_id(), "1");
    let act = q.remove_by_id(1);
    assert!(matches!(act, QueueAction::Next(ref k) if k == "C"));
    assert_eq!(q.get_id(), "1");
    assert_eq!(
        pairs(&q),
        vec![("A".to_string(), "Alpha".to_string()), ("C".to_string(), "Gamma".to_string())]
    );
}

#[test]
fn remove_before_cursor_shifts_cursor_left() {
    let mut q = queue_of(&[("A", "Alpha"), ("B", "Beta"), ("C", "Gamma")]);
    q.next();
    q.next();
    assert_eq!(q.get_id(), "2");
    let act = q.remove_by_id(0);
    assert!(matches!(act, QueueAction::Pass));
    assert_eq!(q.get_id(), "1");
}

#[test]
fn remove_last_item_stops() {
    let mut q = queue_of(&[("A", "Alpha")]);
    let act = q.remove_by_id(0);
    assert!(matches!(act, QueueAction::Stop));
    assert!(q.is_empty());
    assert_eq!(q.get_id(), "0");
}

#[test]
fn remove_by_id_out_of_range_is_not_found() {
    let mut q = queue_of(&[("A", "Alpha")]);
    let act = q.remove_by_id(1);
    assert!(matches!(act, QueueAction::NotFound));
    assert_eq!(q.get_all().len(), 1);
    let mut empty = PlayQueue::new();
    assert!(matches!(empty.remove_by_id(0), QueueAction::NotFound));
}

#[test]
fn remove_current_at_end_clamps_cursor() {
    let mut q = queue_of(&[("B", "Beta"), ("A", "Alpha")]);
    q.next();
    assert_eq!(q.get_id(), "1");
    let act = q.remove_by_key("A".to_string());
    assert!(matches!(act, QueueAction::Next(ref k) if k == "B"));
    assert_eq!(q.get_id(), "0");
}

#[test]
fn remove_by_key_removes_all_occurrences() {
    let mut q = queue_of(&[("A", "Alpha"), ("B", "Beta"), ("A", "Alpha"), ("C", "Gamma")]);
    q.next();
    q.next();
    q.next();
    assert_eq!(q.get_id(), "3");
    let act = q.remove_by_key("A".to_string());
    assert!(matches!(act, QueueAction::Pass));
    assert_eq!(
        pairs(&q),
        vec![("B".to_string(), "Beta".to_string()), ("C".to_string(), "Gamma".to_string())]
    );
    assert_eq!(q.get_id(), "1");
}

#[test]
fn remove_by_key_emptying_queue_stops() {
    let mut q = queue_of(&[("A", "Alpha"), ("A", "Encore")]);
    let act = q.remove_by_key("A".to_string());
    assert!(matches!(act, QueueAction::Stop));
    assert!(q.is_empty());
    assert_eq!(q.get_id(), "0");
}

#[test]
fn add_then_remove_key_is_identity_when_absent() {
    let mut q = queue_of(&[("A", "Alpha"), ("B", "Beta")]);
    let before = pairs(&q);
    q.add("Z".to_string(), "Zeta".to_string());
    q.remove_by_key("Z".to_string());
    assert_eq!(pairs(&q), before);
}

#[test]
fn reorder_same_index_is_identity() {
    let mut q = queue_of(&[("A", "Alpha"), ("B", "Beta"), ("C", "Gamma")]);
    q.next();
    let before = pairs(&q);
    let act = q.reorder(1, 1);
    assert!(matches!(act, QueueAction::Pass));
    assert_eq!(pairs(&q), before);
    assert_eq!(q.get_id(), "1");
}

#[test]
fn reorder_across_cursor_keeps_current_item() {
    let mut q = queue_of(&[("A", "Alpha"), ("B", "Beta"), ("C", "Gamma"), ("D", "Delta")]);
    q.next();
    q.next();
    assert_eq!(q.get_id(), "2");
    let act = q.reorder(0, 3);
    assert!(matches!(act, QueueAction::Pass));
    let got: Vec<String> = pairs(&q).into_iter().map(|p| p.0).collect();
    assert_eq!(got, vec!["B", "C", "D", "A"]);
    assert_eq!(q.get_id(), "1");
}

#[test]
fn reorder_out_of_range_is_not_found() {
    let mut q = queue_of(&[("A", "Alpha"), ("B", "Beta")]);
    assert!(matches!(q.reorder(2, 0), QueueAction::NotFound));
    assert!(matches!(q.reorder(0, 2), QueueAction::NotFound));
    assert_eq!(q.get_all().len(), 2);
}

#[test]
fn lookups_and_titles() {
    let q = queue_of(&[("A", "Alpha"), ("B", "Beta")]);
    assert!(q.has_key("A".to_string()));
    assert!(!q.has_key("Z".to_string()));
    assert_eq!(q.get_title(0), "Alpha");
    assert_eq!(q.get_title(1), "Beta");
    assert_eq!(q.get_title(2), "");
    assert!(!q.is_empty());
}
