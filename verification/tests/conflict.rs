use termiters::conflict::{
    extract_conflict_blocks, resolve_conflict_files, ConflictError, ConflictResolution,
};
use termiters::git::ConflictFileContent;

fn conflict_file() -> ConflictFileContent {
    ConflictFileContent {
        path: "src/example.py".to_string(),
        content: "before = 1\n<<<<<<< HEAD\nupstream()\n||||||| parent\nold()\n=======\npersonal_patch()\n>>>>>>> patch\nafter = 2\n"
            .to_string(),
    }
}

#[test]
fn extracts_small_conflict_block_from_large_file() {
    let mut file = conflict_file();
    file.content = format!("{}{}", "header = 0\n".repeat(10_000), file.content);
    let blocks = extract_conflict_blocks(&[file], 3).unwrap();
    assert_eq!(blocks.len(), 1);
    assert_eq!(blocks[0].ours, "upstream()\n");
    assert_eq!(blocks[0].base.as_deref(), Some("old()\n"));
    assert_eq!(blocks[0].theirs, "personal_patch()\n");
    assert!(blocks[0].before_context.len() < 100);
}

#[test]
fn rebuild_preserves_non_conflict_content() {
    let file = conflict_file();
    let block = extract_conflict_blocks(std::slice::from_ref(&file), 3)
        .unwrap()
        .remove(0);
    let resolved = resolve_conflict_files(
        &[file],
        &[ConflictResolution {
            path: block.path,
            conflict_id: block.id,
            expected_sha256: block.expected_sha256,
            replacement: "upstream()\npersonal_patch()".to_string(),
        }],
    )
    .unwrap();
    assert_eq!(
        resolved[0].content,
        "before = 1\nupstream()\npersonal_patch()\nafter = 2\n"
    );
}

#[test]
fn rejects_stale_hash_and_unknown_block() {
    let file = conflict_file();
    let block = extract_conflict_blocks(std::slice::from_ref(&file), 2)
        .unwrap()
        .remove(0);
    let error = resolve_conflict_files(
        &[file],
        &[ConflictResolution {
            path: block.path,
            conflict_id: block.id,
            expected_sha256: "stale".to_string(),
            replacement: "resolved()\n".to_string(),
        }],
    )
    .unwrap_err();
    assert!(error.message().contains("哈希不匹配"));
}

#[test]
fn replacement_follows_conflict_line_endings() {
    let mut file = conflict_file();
    file.content = file.content.replace('\n', "\r\n");
    let block = extract_conflict_blocks(std::slice::from_ref(&file), 2)
        .unwrap()
        .remove(0);
    let resolved = resolve_conflict_files(
        &[file],
        &[ConflictResolution {
            path: block.path,
            conflict_id: block.id,
            expected_sha256: block.expected_sha256,
            replacement: "upstream()\npersonal_patch()".to_string(),
        }],
    )
    .unwrap();
    assert!(!resolved[0].content.replace("\r\n", "").contains('\n'));
}

#[test]
fn a_block_carries_the_digest_of_its_text() {
    let block = extract_conflict_blocks(&[conflict_file()], 1).unwrap().remove(0);
    assert_eq!(block.id, "conflict-1");
    assert_eq!(block.before_context, "before = 1\n");
    assert_eq!(block.after_context, "after = 2\n");
    assert_eq!(block.expected_sha256.len(), 64);
    let other = extract_conflict_blocks(
        &[ConflictFileContent {
            path: "a".to_string(),
            content: "<<<<<<< a\n=======\n>>>>>>> b\n".to_string(),
        }],
        0,
    )
    .unwrap()
    .remove(0);
    assert_ne!(block.expected_sha256, other.expected_sha256);
}

fn resolution(id: &str, replacement: &str) -> ConflictResolution {
    let block = extract_conflict_blocks(&[conflict_file()], 0).unwrap().remove(0);
    ConflictResolution {
        path: "src/example.py".to_string(),
        conflict_id: id.to_string(),
        expected_sha256: block.expected_sha256,
        replacement: replacement.to_string(),
    }
}

#[test]
fn every_refusal_names_its_reason() {
    let file = conflict_file();
    let files = std::slice::from_ref(&file);
    let plain = ConflictFileContent {
        path: "plain.py".to_string(),
        content: "x = 1\n".to_string(),
    };
    assert!(matches!(
        extract_conflict_blocks(std::slice::from_ref(&plain), 0),
        Err(ConflictError::NoBlocks)
    ));
    assert!(matches!(
        resolve_conflict_files(files, &[]),
        Err(ConflictError::NoResolutions)
    ));
    assert!(matches!(
        resolve_conflict_files(
            files,
            &[resolution("conflict-1", "a"), resolution("conflict-1", "b")]
        ),
        Err(ConflictError::Duplicate(_, _))
    ));
    assert!(matches!(
        resolve_conflict_files(files, &[resolution("conflict-1", "  <<<<<<< x")]),
        Err(ConflictError::MarkerLeft(_, _))
    ));
    assert!(matches!(
        resolve_conflict_files(
            std::slice::from_ref(&plain),
            &[resolution("conflict-1", "a")]
        ),
        Err(ConflictError::NoConflict(_))
    ));
    assert!(matches!(
        resolve_conflict_files(files, &[resolution("conflict-2", "a")]),
        Err(ConflictError::Missing(_, _))
    ));
    assert!(matches!(
        resolve_conflict_files(
            files,
            &[resolution("conflict-1", "a"), resolution("conflict-9", "b")]
        ),
        Err(ConflictError::Unknown(_, _))
    ));
    for text in [
        "<<<<<<< a\nx\n",
        "<<<<<<< a\n||||||| b\nx\n",
        "<<<<<<< a\n=======\nx\n",
    ] {
        let open = ConflictFileContent {
            path: "open.py".to_string(),
            content: text.to_string(),
        };
        assert!(matches!(
            extract_conflict_blocks(&[open], 0),
            Err(ConflictError::Markers(_, _))
        ));
    }
}

#[test]
fn an_empty_replacement_removes_the_block() {
    let file = conflict_file();
    let resolved =
        resolve_conflict_files(std::slice::from_ref(&file), &[resolution("conflict-1", "")]).unwrap();
    assert_eq!(resolved[0].content, "before = 1\nafter = 2\n");
}
