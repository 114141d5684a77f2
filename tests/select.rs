use running_config::naming::{key_name, prefix_name, trim_slashes_of};
use running_config::select::{
    has_config, is_selected, select_endpoints, starts_with, Operation, PathEntry, Schema,
    ValidatedSpec,
};
use running_config::transform::Shape;

fn entry(path: &str, tags: &[&str], parameter_count: usize) -> PathEntry {
    PathEntry {
        path: path.to_string(),
        get: Some(Operation {
            tags: tags.iter().map(|t| t.to_string()).collect(),
            parameter_count,
            schema: Some(Schema { additional_properties: false, items: false }),
        }),
    }
}

#[test]
fn names_from_paths() {
    assert_eq!(key_name("/system"), "system");
    assert_eq!(key_name("//a/b/"), "a b");
    assert_eq!(key_name("/services"), "services");
    assert_eq!(prefix_name("/services"), "service");
    assert_eq!(prefix_name("/a/bs/"), "a b");
    assert_eq!(prefix_name("/system"), "system");
    assert_eq!(prefix_name("/"), "");
    assert_eq!(trim_slashes_of("//x/y//"), "x/y");
}

#[test]
fn operation_with_parameters_is_never_selected() {
    assert!(!is_selected(&entry("/system", &["config"], 1), ""));
    assert!(is_selected(&entry("/system", &["config"], 0), ""));
}

#[test]
fn operation_without_config_tag_is_never_selected() {
    assert!(!is_selected(&entry("/system", &["state"], 0), ""));
    assert!(!is_selected(&entry("/system", &[], 0), ""));
    assert!(is_selected(&entry("/system", &["state", "config"], 0), ""));
    assert!(has_config(&vec!["x".to_string(), "config".to_string()]));
    assert!(!has_config(&vec!["configs".to_string()]));
}

#[test]
fn path_without_get_is_never_selected() {
    let e = PathEntry { path: "/system".to_string(), get: None };
    assert!(!is_selected(&e, ""));
}

#[test]
fn prefix_is_matched_after_trimming_slashes() {
    assert!(is_selected(&entry("/system/time", &["config"], 0), "system"));
    assert!(!is_selected(&entry("/services", &["config"], 0), "system"));
    assert!(starts_with("abc", ""));
    assert!(starts_with("abc", "ab"));
    assert!(!starts_with("ab", "abc"));
}

#[test]
fn selection_keeps_order_across_specs() {
    let specs = [
        ValidatedSpec {
            paths: vec![
                entry("/z", &["config"], 0),
                entry("/skip", &["config"], 2),
                entry("/a", &["config"], 0),
            ],
        },
        ValidatedSpec { paths: vec![entry("/m", &["config"], 0)] },
    ];
    let got: Vec<String> = select_endpoints(&specs[..], "").into_iter().map(|e| e.path).collect();
    assert_eq!(got, vec!["/z", "/a", "/m"]);
}

#[test]
fn shapes_from_schema() {
    let s = |a, i| Schema { additional_properties: a, items: i };
    assert_eq!(Shape::classify(s(false, false)), Shape::Fixed);
    assert_eq!(Shape::classify(s(true, false)), Shape::Open);
    assert_eq!(Shape::classify(s(false, true)), Shape::List);
    assert_eq!(Shape::classify(s(true, true)), Shape::OpenList);
}
