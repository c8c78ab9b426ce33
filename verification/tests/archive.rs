use std::io::Write;

use control_plane::archive::{entry_bytes, extract_plan, ExtractEntry};
use control_plane::error::AppError;
use zip::write::SimpleFileOptions;

fn build(entries: &[(&str, Option<&str>)]) -> Vec<u8> {
    let mut w = zip::ZipWriter::new(std::io::Cursor::new(Vec::new()));
    for (name, body) in entries {
        match body {
            Some(b) => {
                w.start_file(*name, SimpleFileOptions::default()).unwrap();
                w.write_all(b.as_bytes()).unwrap();
            }
            None => w.add_directory(*name, SimpleFileOptions::default()).unwrap(),
        }
    }
    w.finish().unwrap().into_inner()
}

fn paths(v: &[ExtractEntry]) -> Vec<(String, bool)> {
    v.iter().map(|e| (e.relative.join("/"), e.is_dir)).collect()
}

#[test]
fn single_top_directory_is_stripped() {
    let data = build(&[
        ("my-skill/", None),
        ("my-skill/skill.md", Some("---\nname: x\n---\n")),
        ("my-skill/lib/", None),
        ("my-skill/lib/a.txt", Some("A")),
        ("__MACOSX/my-skill/._skill.md", Some("junk")),
    ]);
    let plan = extract_plan(&data).unwrap();
    assert_eq!(
        paths(&plan),
        vec![("skill.md".to_string(), false), ("lib".to_string(), true), ("lib/a.txt".to_string(), false)]
    );
    assert_eq!(entry_bytes(&data, plan[0].index).unwrap(), b"---\nname: x\n---\n".to_vec());
    assert_eq!(entry_bytes(&data, plan[2].index).unwrap(), b"A".to_vec());
    assert_eq!(plan[0].index, 1);
}

#[test]
fn several_top_levels_are_kept() {
    let data = build(&[("skill.md", Some("s")), ("docs/readme.txt", Some("r")), ("__MACOSX/x", Some("j"))]);
    let plan = extract_plan(&data).unwrap();
    assert_eq!(paths(&plan), vec![("skill.md".to_string(), false), ("docs/readme.txt".to_string(), false)]);
}

#[test]
fn unsafe_paths_are_skipped() {
    let data = build(&[("../evil.txt", Some("e")), ("ok.txt", Some("o")), ("sub/ok2.txt", Some("p"))]);
    let plan = extract_plan(&data).unwrap();
    assert_eq!(paths(&plan), vec![("ok.txt".to_string(), false), ("sub/ok2.txt".to_string(), false)]);
}

#[test]
fn not_a_zip_is_rejected() {
    match extract_plan(b"definitely not a zip") {
        Err(AppError::BadRequest(m)) => assert!(m.starts_with("Invalid zip: ")),
        other => panic!("unexpected {:?}", other),
    }
}

#[test]
fn empty_archive_writes_nothing() {
    let data = build(&[]);
    assert_eq!(extract_plan(&data).unwrap().len(), 0);
}

#[test]
fn lone_top_level_file_is_kept() {
    let data = build(&[("SKILL.md", Some("s"))]);
    let plan = extract_plan(&data).unwrap();
    assert_eq!(paths(&plan), vec![("SKILL.md".to_string(), false)]);
    let data = build(&[("SKILL.md", Some("s")), ("__MACOSX/._SKILL.md", Some("j"))]);
    let plan = extract_plan(&data).unwrap();
    assert_eq!(paths(&plan), vec![("SKILL.md".to_string(), false)]);
    assert_eq!(entry_bytes(&data, plan[0].index).unwrap(), b"s".to_vec());
}

#[test]
fn lone_directory_entry_without_files_is_stripped() {
    let data = build(&[("only/", None)]);
    assert_eq!(extract_plan(&data).unwrap().len(), 0);
}

#[test]
fn reading_a_missing_entry_fails() {
    let data = build(&[("a.txt", Some("a"))]);
    match entry_bytes(&data, 5) {
        Err(AppError::DockerError(m)) => assert!(m.starts_with("Write file error: ")),
        other => panic!("unexpected {:?}", other),
    }
}

#[test]
fn dot_components_never_leave_the_directory() {
    let data = build(&[
        ("a/../b.txt", Some("b")),
        ("./c.txt", Some("c")),
        ("d/./e.txt", Some("e")),
        ("/abs.txt", Some("x")),
        ("../../up.txt", Some("u")),
    ]);
    let plan = extract_plan(&data).unwrap();
    assert_eq!(
        paths(&plan),
        vec![
            ("b.txt".to_string(), false),
            ("c.txt".to_string(), false),
            ("d/e.txt".to_string(), false),
            ("abs.txt".to_string(), false),
        ]
    );
    for e in &plan {
        assert!(!e.relative.is_empty());
        for c in &e.relative {
            assert!(!c.is_empty() && c != "." && c != ".." && !c.contains('/') && !c.contains('\\'));
        }
    }
}
