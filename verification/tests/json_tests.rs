use junction::Config;
use junction::OutputConfig;
use junction::ResolvedConfig;

fn sample_registry() -> ResolvedConfig {
    ResolvedConfig::new(
        Config {
            outputs: vec![
                OutputConfig {
                    slug: "echo-hello".to_string(),
                    cmd: "/bin/echo".to_string(),
                    args: vec!["hello".to_string(), "world".to_string()],
                },
                OutputConfig {
                    slug: "pwd".to_string(),
                    cmd: "/bin/pwd".to_string(),
                    args: vec![],
                },
            ],
        },
        "/srv/data".to_string(),
    )
    .unwrap()
}

#[test]
fn test_config_json_exact_text() {
    let registry = ResolvedConfig::new(
        Config {
            outputs: vec![OutputConfig {
                slug: "a".to_string(),
                cmd: "echo".to_string(),
                args: vec!["x".to_string(), "y".to_string()],
            }],
        },
        "/d".to_string(),
    )
    .unwrap();
    assert_eq!(
        registry.to_json(),
        "{\"outputs\":{\"a\":{\"slug\":\"a\",\"cmd\":\"echo\",\"args\":[\"x\",\"y\"]}},\"data_dir\":\"/d\"}"
    );
}

#[test]
fn test_config_json_keys_are_the_configured_slugs() {
    let registry = sample_registry();
    let document: serde_json::Value = serde_json::from_str(&registry.to_json()).unwrap();

    let outputs = document["outputs"].as_object().unwrap();
    let mut keys: Vec<&str> = outputs.keys().map(|k| k.as_str()).collect();
    keys.sort();
    assert_eq!(keys, vec!["echo-hello", "pwd"]);

    assert_eq!(document["data_dir"].as_str().unwrap(), "/srv/data");
    assert_eq!(outputs["echo-hello"]["slug"].as_str().unwrap(), "echo-hello");
    assert_eq!(outputs["echo-hello"]["cmd"].as_str().unwrap(), "/bin/echo");
    let args = outputs["echo-hello"]["args"].as_array().unwrap();
    assert_eq!(args.len(), 2);
    assert_eq!(args[0].as_str().unwrap(), "hello");
    assert_eq!(args[1].as_str().unwrap(), "world");
    assert_eq!(outputs["pwd"]["args"].as_array().unwrap().len(), 0);
}

#[test]
fn test_config_json_repeated_calls_are_byte_identical() {
    let registry = sample_registry();
    let first = registry.to_json();
    let second = registry.to_json();
    let third = registry.to_json();
    assert_eq!(first, second);
    assert_eq!(second, third);
}

#[test]
fn test_config_json_escapes_special_characters() {
    let registry = ResolvedConfig::new(
        Config {
            outputs: vec![OutputConfig {
                slug: "odd\"one".to_string(),
                cmd: "back\\slash".to_string(),
                args: vec!["line\nbreak".to_string()],
            }],
        },
        "tab\there".to_string(),
    )
    .unwrap();
    let text = registry.to_json();
    assert!(text.contains("odd\\\"one"));
    assert!(text.contains("back\\\\slash"));
    assert!(text.contains("line\\u000abreak"));
    assert!(text.contains("tab\\u0009here"));

    let document: serde_json::Value = serde_json::from_str(&text).unwrap();
    let outputs = document["outputs"].as_object().unwrap();
    assert_eq!(outputs["odd\"one"]["cmd"].as_str().unwrap(), "back\\slash");
    assert_eq!(
        outputs["odd\"one"]["args"][0].as_str().unwrap(),
        "line\nbreak"
    );
    assert_eq!(document["data_dir"].as_str().unwrap(), "tab\there");
}

#[test]
fn test_config_json_empty_registry() {
    let registry = ResolvedConfig::new(Config { outputs: vec![] }, "".to_string()).unwrap();
    assert_eq!(registry.to_json(), "{\"outputs\":{},\"data_dir\":\"\"}");
}

#[test]
fn test_output_json_single_definition() {
    let definition = OutputConfig {
        slug: "pwd".to_string(),
        cmd: "/bin/pwd".to_string(),
        args: vec![],
    };
    assert_eq!(
        definition.to_json(),
        "{\"slug\":\"pwd\",\"cmd\":\"/bin/pwd\",\"args\":[]}"
    );
}
