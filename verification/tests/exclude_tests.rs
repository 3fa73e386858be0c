use gits::exclude::{exclude_append_suffix, has_entry, secondary_name, updated_content};

fn name() -> Vec<u8> {
    b".gits".to_vec()
}

#[test]
fn secondary_name_is_dot_gits() {
    assert_eq!(secondary_name(), b".gits".to_vec());
}

#[test]
fn has_entry_finds_exact_line() {
    let content = b"target\n.gits\nnotes.txt\n".to_vec();
    assert!(has_entry(&content, &name()));
}

#[test]
fn has_entry_ignores_surrounding_whitespace() {
    let content = b"target\n  .gits \t\nnotes.txt\n".to_vec();
    assert!(has_entry(&content, &name()));
}

#[test]
fn has_entry_rejects_longer_lines() {
    let content = b".gitsx\na.gits\n.git\n".to_vec();
    assert!(!has_entry(&content, &name()));
}

#[test]
fn has_entry_on_empty_content() {
    let content = Vec::new();
    assert!(!has_entry(&content, &name()));
}

#[test]
fn has_entry_finds_last_line_without_newline() {
    let content = b"target\n.gits".to_vec();
    assert!(has_entry(&content, &name()));
}

#[test]
fn update_appends_entry_line() {
    let content = b"target\n".to_vec();
    let out = updated_content(&content, &name());
    assert_eq!(out, b"target\n.gits\n".to_vec());
}

#[test]
fn update_opens_a_fresh_line_first() {
    let content = b"target".to_vec();
    let out = updated_content(&content, &name());
    assert_eq!(out, b"target\n.gits\n".to_vec());
}

#[test]
fn update_of_empty_content() {
    let content = Vec::new();
    let out = updated_content(&content, &name());
    assert_eq!(out, b".gits\n".to_vec());
}

#[test]
fn update_leaves_present_entry_alone() {
    let content = b"target\n.gits\n".to_vec();
    let out = updated_content(&content, &name());
    assert_eq!(out, content);
}

#[test]
fn update_is_idempotent() {
    let content = b"build\n*.log\n".to_vec();
    let once = updated_content(&content, &name());
    let twice = updated_content(&once, &name());
    assert_eq!(twice, once);
}

#[test]
fn repeated_updates_keep_exactly_one_matching_line() {
    let mut content = b"target\n".to_vec();
    for _ in 0..4 {
        content = updated_content(&content, &name());
    }
    let text = String::from_utf8(content).unwrap();
    let matching = text.lines().filter(|line| line.trim() == ".gits").count();
    assert_eq!(matching, 1);
}

#[test]
fn suffix_is_empty_when_entry_is_present() {
    let content = b".gits\n".to_vec();
    let suffix = exclude_append_suffix(&content, &name());
    assert_eq!(suffix, Vec::<u8>::new());
}

#[test]
fn suffix_is_whole_line_when_entry_is_absent() {
    let content = b"target\n".to_vec();
    let suffix = exclude_append_suffix(&content, &name());
    assert_eq!(suffix, b".gits\n".to_vec());
}

#[test]
fn suffix_starts_with_newline_after_unterminated_text() {
    let content = b"target".to_vec();
    let suffix = exclude_append_suffix(&content, &name());
    assert_eq!(suffix, b"\n.gits\n".to_vec());
}
