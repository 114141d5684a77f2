use running_config::codec::ConfigError;
use running_config::config::{Action, RunningConfig};
use running_config::select::{Operation, PathEntry, Schema, ValidatedSpec};

fn yaml(expected: &str) -> String {
    let first_line = expected.trim_start_matches('\n').lines().next().unwrap();
    let spaces = first_line.split(|c| c != ' ').next().unwrap();
    expected.replace(spaces, "").trim().to_owned()
}

fn config_get(path: &str, additional_properties: bool, items: bool) -> PathEntry {
    PathEntry {
        path: path.to_string(),
        get: Some(Operation {
            tags: vec!["config".to_string()],
            parameter_count: 0,
            schema: Some(Schema { additional_properties, items }),
        }),
    }
}

fn system_spec() -> ValidatedSpec {
    ValidatedSpec { paths: vec![config_get("/system", false, false)] }
}

fn service_spec() -> ValidatedSpec {
    ValidatedSpec { paths: vec![config_get("/services", true, false)] }
}

/// Runs the configuration against canned responses, keyed by URL.
fn run_with(config: &RunningConfig, responses: &[(&str, u16, &str)]) -> (Result<String, ConfigError>, Vec<String>) {
    let mut run = config.start();
    let mut fetched = Vec::new();
    loop {
        match run.action() {
            Action::Fetch(url) => {
                fetched.push(url.clone());
                let (_, status, body) = responses
                    .iter()
                    .find(|(u, _, _)| *u == url)
                    .unwrap_or_else(|| panic!("no response for {}", url));
                assert!(run.is_waiting());
                if let Err(e) = run.receive(*status, body.to_string()) {
                    return (Err(e), fetched);
                }
            }
            Action::Fail(e) => return (Err(e), fetched),
            Action::Done(out) => return (Ok(out), fetched),
        }
    }
}

const SYSTEM_BODY: &str = r#"{"hostname": "UT", "timezone": "Asia/Shanghai"}"#;
const SERVICES_BODY: &str = r#"{"networking": {"enable": true}, "rsyslog": {"enable": false}}"#;

#[test]
fn test_test_running_config() {
    let specs = [system_spec(), service_spec()];
    let server = "http://127.0.0.1:1234";
    let running_config = RunningConfig::new(server, &specs[..]);
    let responses = [
        ("http://127.0.0.1:1234/system", 200, SYSTEM_BODY),
        ("http://127.0.0.1:1234/services", 200, SERVICES_BODY),
    ];
    let (actual, _) = run_with(&running_config, &responses);
    let actual = actual.unwrap();
    let expected = yaml(
        r#"
        ---
        system:
          hostname: UT
          timezone: Asia/Shanghai
        ---
        service networking:
          enable: true
        service rsyslog:
          enable: false"#,
    );
    assert_eq!(expected.trim(), actual)
}

#[test]
fn fixed_shape_is_wrapped_under_path_key() {
    let specs = [system_spec()];
    let config = RunningConfig::new("http://h", &specs[..]);
    let (out, _) = run_with(&config, &[("http://h/system", 200, SYSTEM_BODY)]);
    assert_eq!(out.unwrap(), "---\nsystem:\n  hostname: UT\n  timezone: Asia/Shanghai");
}

#[test]
fn open_shape_keys_are_prefixed_and_singular() {
    let specs = [service_spec()];
    let config = RunningConfig::new("http://h", &specs[..]);
    let (out, _) = run_with(&config, &[("http://h/services", 200, SERVICES_BODY)]);
    assert_eq!(
        out.unwrap(),
        "---\nservice networking:\n  enable: true\nservice rsyslog:\n  enable: false"
    );
}

#[test]
fn list_shape_array_passes_through() {
    let specs = [ValidatedSpec { paths: vec![config_get("/users", false, true)] }];
    let config = RunningConfig::new("http://h", &specs[..]);
    let (out, _) = run_with(&config, &[("http://h/users", 200, r#"["a", "b"]"#)]);
    assert_eq!(out.unwrap(), "---\n- a\n- b");
}

#[test]
fn open_shape_empty_mapping_is_still_emitted() {
    let specs = [service_spec(), system_spec()];
    let config = RunningConfig::new("http://h", &specs[..]);
    let (out, _) = run_with(
        &config,
        &[("http://h/services", 200, "{}"), ("http://h/system", 200, r#"{"a": 1}"#)],
    );
    assert_eq!(out.unwrap(), "---\n{}\n---\nsystem:\n  a: 1");
}

#[test]
fn non_success_status_aborts_with_code_and_body() {
    let specs = [system_spec(), service_spec()];
    let config = RunningConfig::new("http://h", &specs[..]);
    let (out, fetched) = run_with(
        &config,
        &[("http://h/system", 503, "unavailable"), ("http://h/services", 200, SERVICES_BODY)],
    );
    match out {
        Err(ConfigError::HTTP(status, body)) => {
            assert_eq!(status, 503);
            assert_eq!(body, "unavailable");
        }
        other => panic!("unexpected {:?}", other),
    }
    assert_eq!(fetched, vec!["http://h/system".to_string()]);
}

#[test]
fn body_that_is_not_json_is_an_error() {
    let specs = [system_spec()];
    let config = RunningConfig::new("http://h", &specs[..]);
    let (out, _) = run_with(&config, &[("http://h/system", 200, "{not json")]);
    assert!(matches!(out, Err(ConfigError::JSON(_))));
}

#[test]
fn selected_endpoint_without_schema_fails() {
    let mut entry = config_get("/system", false, false);
    entry.get.as_mut().unwrap().schema = None;
    let specs = [ValidatedSpec { paths: vec![entry] }];
    let config = RunningConfig::new("http://h", &specs[..]);
    let (out, fetched) = run_with(&config, &[]);
    match out {
        Err(ConfigError::MissingSchema(path)) => assert_eq!(path, "/system"),
        other => panic!("unexpected {:?}", other),
    }
    assert!(fetched.is_empty());
}

#[test]
fn two_runs_give_identical_output() {
    let specs = [system_spec(), service_spec()];
    let config = RunningConfig::new("http://h", &specs[..]);
    let responses =
        [("http://h/system", 200, SYSTEM_BODY), ("http://h/services", 200, SERVICES_BODY)];
    let (first, _) = run_with(&config, &responses);
    let (second, _) = run_with(&config, &responses);
    assert_eq!(first.unwrap(), second.unwrap());
}

#[test]
fn fragments_follow_spec_then_path_order() {
    let a = ValidatedSpec {
        paths: vec![config_get("/b", false, false), config_get("/a", false, false)],
    };
    let b = ValidatedSpec { paths: vec![config_get("/c", false, false)] };
    let specs = [a, b];
    let config = RunningConfig::new("http://h", &specs[..]);
    let (out, fetched) = run_with(
        &config,
        &[("http://h/a", 200, "1"), ("http://h/b", 200, "2"), ("http://h/c", 200, "3")],
    );
    assert_eq!(fetched, vec!["http://h/b", "http://h/a", "http://h/c"]);
    assert_eq!(out.unwrap(), "---\nb: 2\n---\na: 1\n---\nc: 3");
}

#[test]
fn no_selected_endpoint_gives_empty_output() {
    let specs = [ValidatedSpec { paths: vec![] }];
    let config = RunningConfig::new("http://h", &specs[..]);
    let (out, _) = run_with(&config, &[]);
    assert_eq!(out.unwrap(), "");
}

#[test]
fn path_prefix_filters_endpoints() {
    let specs = [ValidatedSpec {
        paths: vec![config_get("/system", false, false), config_get("/services", true, false)],
    }];
    let mut config = RunningConfig::new("http://h", &specs[..]);
    config.set_path_prefix("serv".to_string());
    let (out, fetched) = run_with(&config, &[("http://h/services", 200, r#"{"x": 1}"#)]);
    assert_eq!(fetched, vec!["http://h/services"]);
    assert_eq!(out.unwrap(), "---\nservice x: 1");
}
