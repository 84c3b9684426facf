use rogger::file_store::MemFileStore;
use rogger::rotation_writer::RotationWriter;

fn writer(max_lines: usize) -> RotationWriter<MemFileStore> {
    RotationWriter::new(MemFileStore::new(), "test.log".to_string(), max_lines)
}

#[test]
fn test_rotation_writer() {
    let mut writer = writer(3);

    // Write lines
    writer.write_line("line1").unwrap();
    writer.write_line("line2").unwrap();
    writer.write_line("line3").unwrap();
    // Should rotate on next write
    writer.write_line("line4").unwrap();

    // Check that at least two files exist
    let files = &writer.store.files;
    assert!(files.len() >= 2, "Should have at least two files after rotation");

    // Check content of first file
    let content = files[0].lines.join("\n");
    assert_eq!(content.trim(), "line1\nline2\nline3");

    // The second file holds only the line that triggered the rotation.
    assert_eq!(files[1].lines, vec!["line4".to_string()]);
}

#[test]
fn test_file_counts_follow_threshold() {
    // 7 writes at 3 lines per file: ceil(7 / 3) = 3 files, filled 3, 3, 1.
    let mut w = writer(3);
    for i in 0..7 {
        w.write_line(&format!("line{}", i)).unwrap();
    }
    let files = &w.store.files;
    assert_eq!(files.len(), 3);
    assert_eq!(files[0].lines.len(), 3);
    assert_eq!(files[1].lines.len(), 3);
    assert_eq!(files[2].lines.len(), 1);
    // Lines appear in write order across the files.
    let all: Vec<String> = files.iter().flat_map(|f| f.lines.clone()).collect();
    let expected: Vec<String> = (0..7).map(|i| format!("line{}", i)).collect();
    assert_eq!(all, expected);
}

#[test]
fn test_rotated_filenames_are_unique() {
    let mut w = writer(1);
    for i in 0..5 {
        w.write_line(&format!("l{}", i)).unwrap();
    }
    let mut names: Vec<String> = w.store.files.iter().map(|f| f.name.clone()).collect();
    assert_eq!(
        names,
        vec!["test.log.0", "test.log.1", "test.log.2", "test.log.3", "test.log.4"]
    );
    names.sort();
    names.dedup();
    assert_eq!(names.len(), 5, "no two rotated files share a filename");
}

#[test]
fn test_recovers_after_create_failure() {
    let mut store = MemFileStore::new();
    store.inject_create_failure();
    let mut w = RotationWriter::new(store, "app.log".to_string(), 2);

    // The first write fails while rotating: no file is created, nothing written.
    assert!(w.write_line("a").is_err());
    assert_eq!(w.store.files.len(), 0);

    // The next write retries the rotation and succeeds.
    assert!(w.write_line("a").is_ok());
    assert_eq!(w.store.files.len(), 1);
    assert_eq!(w.store.files[0].lines, vec!["a".to_string()]);
}

#[test]
fn test_recovers_after_append_failure() {
    let mut w = writer(2);
    w.write_line("a").unwrap();
    w.store.inject_append_failure();

    // The append fails; the open file and its contents are intact.
    assert!(w.write_line("b").is_err());
    assert_eq!(w.store.files.len(), 1);
    assert_eq!(w.store.files[0].lines, vec!["a".to_string()]);

    // The next write retries the append into the same file.
    assert!(w.write_line("b").is_ok());
    assert_eq!(w.store.files[0].lines, vec!["a".to_string(), "b".to_string()]);
}
