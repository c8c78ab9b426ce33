use control_plane::docker::{
    checked_cpu_quota, checked_memory_limit, image_missing_error, parse_cpu, parse_memory,
    tar_extract_argv, tar_extract_command,
};
use control_plane::error::AppError;

#[test]
fn test_parse_memory() {
    assert_eq!(parse_memory("4Gi"), 4 * 1024 * 1024 * 1024);
    assert_eq!(parse_memory("512Mi"), 512 * 1024 * 1024);
    assert_eq!(parse_memory("1024"), 1024);
    assert_eq!(parse_memory(" 2Gi "), 2 * 1024 * 1024 * 1024);
}

#[test]
fn test_parse_cpu() {
    assert_eq!(parse_cpu("1"), 100000);
    assert_eq!(parse_cpu("4"), 400000);
    assert_eq!(parse_cpu("2"), 200000);
}

#[test]
fn memory_defaults_where_number_does_not_parse() {
    assert_eq!(parse_memory("xGi"), 4 * 1024 * 1024 * 1024);
    assert_eq!(parse_memory("xMi"), 4096 * 1024 * 1024);
    assert_eq!(parse_memory("lots"), 4294967296);
    assert_eq!(parse_memory(""), 4294967296);
    // The number itself is not trimmed after the unit is removed.
    assert_eq!(parse_memory("3 Gi"), 4 * 1024 * 1024 * 1024);
}

#[test]
fn memory_signs_and_units() {
    assert_eq!(parse_memory("+1Gi"), 1024 * 1024 * 1024);
    assert_eq!(parse_memory("-1Mi"), -1024 * 1024);
    assert_eq!(parse_memory("\t7\n"), 7);
    assert_eq!(parse_memory("1gi"), 4294967296);
}

#[test]
fn memory_overflow_is_reported() {
    assert_eq!(checked_memory_limit("9223372036854775807Gi"), None);
    assert_eq!(checked_memory_limit("8589934591Gi"), Some(8589934591 * 1073741824));
    assert_eq!(checked_memory_limit("8589934592Gi"), None);
    assert_eq!(checked_memory_limit("-8589934592Gi"), Some(i64::MIN));
    assert_eq!(checked_memory_limit("99999999999999999999"), Some(4294967296));
    assert_eq!(checked_memory_limit("4Gi"), Some(4294967296));
}

#[test]
fn cpu_defaults_and_overflow() {
    assert_eq!(parse_cpu(""), 200000);
    assert_eq!(parse_cpu(" 1"), 200000);
    assert_eq!(parse_cpu("0.5"), 200000);
    assert_eq!(parse_cpu("-3"), -300000);
    assert_eq!(checked_cpu_quota("92233720368548"), None);
    assert_eq!(checked_cpu_quota("92233720368547"), Some(9223372036854700000));
    assert_eq!(checked_cpu_quota("3"), Some(300000));
}

#[test]
fn missing_image_message() {
    let e = image_missing_error("agent:1");
    assert_eq!(
        e,
        AppError::BadRequest(
            "Image 'agent:1' not found locally. Run: docker build -t agent:1 -f agent-image/Dockerfile ."
                .to_string()
        )
    );
    assert_eq!(e.status_code(), 400);
}

#[test]
fn tar_command_unpacks_into_destination() {
    assert_eq!(
        tar_extract_command("/workspace/skills/x"),
        "mkdir -p '/workspace/skills/x' && tar -xf - -C '/workspace/skills/x'"
    );
    let argv = tar_extract_argv("/d");
    assert_eq!(argv, vec!["sh".to_string(), "-c".to_string(), "mkdir -p '/d' && tar -xf - -C '/d'".to_string()]);
}
