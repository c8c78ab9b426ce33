use control_plane::error::AppError;
use control_plane::skills::{
    check_new_skill_name, check_skill_rename, eq_ignore_ascii_case, find, form_field, frontmatter,
    is_manifest_file, is_valid_skill_name, new_skill_id, require_upload, resolve_skill_metadata,
    FormField, Skill,
};

#[test]
fn skill_names() {
    assert!(is_valid_skill_name("code-review_2"));
    assert!(is_valid_skill_name("审查"));
    assert!(!is_valid_skill_name(""));
    assert!(!is_valid_skill_name("a b"));
    assert!(!is_valid_skill_name("../x"));
}

#[test]
fn metadata_from_form_or_manifest() {
    let r = resolve_skill_metadata(Some("form-name".to_string()), None, Some(("m".to_string(), Some("md".to_string()))));
    assert_eq!(r, Ok(("form-name".to_string(), String::new())));
    let r = resolve_skill_metadata(None, None, Some(("m".to_string(), Some("md".to_string()))));
    assert_eq!(r, Ok(("m".to_string(), "md".to_string())));
    let r = resolve_skill_metadata(None, Some("fd".to_string()), Some(("m".to_string(), Some("md".to_string()))));
    assert_eq!(r, Ok(("m".to_string(), "fd".to_string())));
    let r = resolve_skill_metadata(None, None, None);
    assert_eq!(r, Err(AppError::BadRequest("name is required (provide in form or skill.md)".to_string())));
    let r = resolve_skill_metadata(Some("bad name".to_string()), None, None);
    assert_eq!(r, Err(AppError::BadRequest("name must be alphanumeric with hyphens or underscores".to_string())));
}

#[test]
fn renaming_checks() {
    assert_eq!(check_skill_rename("id1", None, None), Ok(()));
    assert_eq!(check_skill_rename("id1", Some("new"), None), Ok(()));
    assert_eq!(check_skill_rename("id1", Some("new"), Some("id1")), Ok(()));
    assert_eq!(
        check_skill_rename("id1", Some("new"), Some("id2")),
        Err(AppError::BadRequest("A skill with this name already exists".to_string()))
    );
    assert_eq!(
        check_skill_rename("id1", Some(""), None),
        Err(AppError::BadRequest("name must be alphanumeric with hyphens or underscores".to_string()))
    );
}

#[test]
fn form_fields() {
    assert_eq!(form_field("name"), FormField::Name);
    assert_eq!(form_field("description"), FormField::Description);
    assert_eq!(form_field("file"), FormField::File);
    assert_eq!(form_field("File"), FormField::Other);
}

#[test]
fn manifest_file_names() {
    assert!(is_manifest_file("SKILL.md"));
    assert!(is_manifest_file("skill.MD"));
    assert!(!is_manifest_file("skill.markdown"));
    assert!(!is_manifest_file("skill.md "));
    assert!(eq_ignore_ascii_case("ÄbC", "Äbc"));
    assert!(!eq_ignore_ascii_case("ä", "Ä"));
}

#[test]
fn front_matter_blocks() {
    let doc = "\n  ---\nname: code-review\ndescription: 自动化代码审查工具\n---\n\n# Code Review Skill\n";
    assert_eq!(
        frontmatter(doc),
        Some("\nname: code-review\ndescription: 自动化代码审查工具".to_string())
    );
    assert_eq!(frontmatter("# no front matter"), None);
    assert_eq!(frontmatter("---\nname: x\n"), None);
    assert_eq!(frontmatter("---\n---"), Some(String::new()));
}

#[test]
fn find_first_occurrence() {
    let s: Vec<char> = "ab--ab".chars().collect();
    let p: Vec<char> = "ab".chars().collect();
    assert_eq!(find(&s, &p), Some(0));
    let p: Vec<char> = "-a".chars().collect();
    assert_eq!(find(&s, &p), Some(3));
    let p: Vec<char> = "x".chars().collect();
    assert_eq!(find(&s, &p), None);
    assert_eq!(find(&s, &[]), Some(0));
}

#[test]
fn upload_needs_a_file() {
    assert_eq!(require_upload(Some(vec![1, 2])), Ok(vec![1, 2]));
    assert_eq!(require_upload(None), Err(AppError::BadRequest("file is required".to_string())));
}

#[test]
fn new_skill_name_must_be_free() {
    assert_eq!(check_new_skill_name(None), Ok(()));
    assert_eq!(
        check_new_skill_name(Some("other-id")),
        Err(AppError::BadRequest("A skill with this name already exists".to_string()))
    );
}

#[test]
fn new_skill_record() {
    let id = new_skill_id();
    assert_eq!(id.len(), 36);
    assert_eq!(id.as_bytes()[14], b'4');
    assert_eq!(Skill::directory("skills", &id), format!("skills/{}", id));
    let s = Skill::create(id.clone(), "n".to_string(), "d".to_string());
    assert_eq!(s.id, id);
    assert_eq!(s.created_at, s.updated_at);
    assert!(s.created_at.ends_with("+00:00"));
    let t = Skill::create_at("i".to_string(), "n".to_string(), String::new(), "now".to_string());
    assert_eq!((t.created_at.as_str(), t.updated_at.as_str()), ("now", "now"));
}
