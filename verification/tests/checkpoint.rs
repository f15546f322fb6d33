use nlbn::checkpoint::{checkpoint_lines, parse_checkpoint};
use nlbn::CheckpointManager;

#[test]
fn loads_existing_checkpoint_ids() {
    let checkpoint = CheckpointManager::load("ckpt", Some("C1\nC2\n\nC3\n"));

    let ids = checkpoint.completed_ids();
    assert!(ids.contains(&"C1".to_string()));
    assert!(ids.contains(&"C2".to_string()));
    assert!(ids.contains(&"C3".to_string()));
}

#[test]
fn append_completed_ids_deduplicates_entries() {
    let mut checkpoint = CheckpointManager::load("ckpt", None);
    let mut content = String::new();

    let pending = checkpoint.append_completed_ids(&["C1".to_string(), "C2".to_string()]);
    content.push_str(&checkpoint_lines(&pending));
    let pending = checkpoint.append_completed_ids(&["C2".to_string(), "C3".to_string()]);
    content.push_str(&checkpoint_lines(&pending));

    assert_eq!(content.lines().collect::<Vec<_>>(), vec!["C1", "C2", "C3"]);
}

#[test]
fn lines_are_trimmed_and_read_once() {
    let ids = parse_checkpoint("  C1 \r\nC2\n\t\nC1\nC3");
    assert_eq!(ids, vec!["C1", "C2", "C3"]);
    assert!(parse_checkpoint("").is_empty());
    assert!(parse_checkpoint("\n \n").is_empty());
}

#[test]
fn reloading_after_append_gives_back_the_completed_ids() {
    let old = "C1\nC2\n";
    let mut checkpoint = CheckpointManager::load("ckpt", Some(old));
    let pending = checkpoint.append_completed_ids(&[
        "C2".to_string(),
        "C5".to_string(),
        "C5".to_string(),
        "C6".to_string(),
    ]);
    assert_eq!(pending, vec!["C5", "C6"]);
    let new_content = format!("{}{}", old, checkpoint_lines(&pending));
    let reloaded = CheckpointManager::load("ckpt", Some(&new_content));
    let mut a = reloaded.completed_ids();
    let mut b = checkpoint.completed_ids();
    a.sort();
    b.sort();
    assert_eq!(a, b);
    assert_eq!(a, vec!["C1", "C2", "C5", "C6"]);
    assert!(checkpoint.is_completed(&"C6".to_string()));
    assert!(!checkpoint.is_completed(&"C7".to_string()));
    assert_eq!(checkpoint.path(), "ckpt");
}

#[test]
fn appending_nothing_new_writes_nothing() {
    let mut checkpoint = CheckpointManager::load("ckpt", Some("C1\n"));
    assert!(checkpoint.append_completed_ids(&[]).is_empty());
    assert!(checkpoint.append_completed_ids(&["C1".to_string()]).is_empty());
    assert_eq!(checkpoint_lines(&[]), "");
}

#[test]
fn checkpoint_lives_in_the_output_directory() {
    assert_eq!(nlbn::checkpoint::checkpoint_path("out"), "out/.checkpoint");
    assert_eq!(nlbn::checkpoint::checkpoint_path("out/"), "out/.checkpoint");
}
