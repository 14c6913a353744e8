use junction::env_path::augmented_path;
use junction::env_path::has_path_segment;

#[test]
fn test_augmented_path_appends_missing_data_dir() {
    let current = "/usr/bin:/bin";
    let result = augmented_path(current, None, "/srv/data");
    assert_eq!(result, "/srv/data:/usr/bin:/bin");
    assert!(result.contains(current));
    assert_eq!(result.split(':').filter(|p| *p == "/srv/data").count(), 1);
}

#[test]
fn test_augmented_path_keeps_present_data_dir() {
    let current = "/srv/data:/usr/bin:/bin";
    let result = augmented_path(current, None, "/srv/data");
    assert_eq!(result, current);
    assert_eq!(result.split(':').filter(|p| *p == "/srv/data").count(), 1);
}

#[test]
fn test_augmented_path_prepends_exe_dir_first() {
    let result = augmented_path("/usr/bin:/bin", Some("/opt/junction"), "/srv/data");
    assert_eq!(result, "/opt/junction:/srv/data:/usr/bin:/bin");
}

#[test]
fn test_augmented_path_exe_dir_equal_to_data_dir_added_once() {
    let result = augmented_path("/usr/bin", Some("/srv/data"), "/srv/data");
    assert_eq!(result, "/srv/data:/usr/bin");
}

#[test]
fn test_augmented_path_exe_dir_already_present() {
    let result = augmented_path("/opt/junction:/usr/bin", Some("/opt/junction"), "/srv/data");
    assert_eq!(result, "/srv/data:/opt/junction:/usr/bin");
}

#[test]
fn test_augmented_path_empty_inherited_path() {
    let result = augmented_path("", None, "/srv/data");
    assert_eq!(result, "/srv/data:");
}

#[test]
fn test_has_path_segment_matches_whole_segments_only() {
    assert!(has_path_segment("/usr/bin:/bin", "/usr/bin"));
    assert!(has_path_segment("/usr/bin:/bin", "/bin"));
    assert!(!has_path_segment("/usr/binx:/bin", "/usr/bin"));
    assert!(!has_path_segment("/usr/bin:/bin", "usr"));
    assert!(!has_path_segment("/usr/bin:/bin", ""));
    assert!(has_path_segment("/usr/bin::/bin", ""));
    assert!(has_path_segment("", ""));
}
