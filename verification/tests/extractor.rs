use manifestor::CapabilityComponent;
use manifestor::Config;
use manifestor::ConfigProperties;
use manifestor::DecodeError;
use manifestor::Properties;
use manifestor::extract_capability_components;

#[test]
fn test_extract_capability_components() {
    let json_data = r#"
    {
        "manifests": {
            "v0.0.1": {
                "apiVersion": "core.oam.dev/v1beta1",
                "kind": "Application",
                "metadata": {
                    "name": "mds",
                    "annotations": {
                        "description": "HTTP hello world demo in Rust, using the WebAssembly Component Model and WebAssembly Interfaces Types (WIT)",
                        "version": "v0.0.1"
                    }
                },
                "spec": {
                    "components": [
                        {
                            "name": "future-ticker-deribit-btc",
                            "type": "capability",
                            "properties": {
                                "image": "ghcr.io/jabratech/ticker-provider:0.1.0",
                                "config": [
                                    {
                                        "name": "future-ticker-deribit-btc",
                                        "properties": {
                                            "exchange_name": "jabratech",
                                            "uri": "192.100.1.213:4222",
                                            "exchange": "deribit",
                                            "currency": "btc",
                                            "instrument_kind": "future"
                                        }
                                    }
                                ]
                            }
                        },
                        {
                            "name": "option-ticker-deribit-btc",
                            "type": "capability",
                            "properties": {
                                "image": "ghcr.io/jabratech/ticker-provider:0.1.0",
                                "config": [
                                    {
                                        "name": "option-ticker-deribit-btc",
                                        "properties": {
                                            "exchange_name": "deribit",
                                            "currency": "btc",
                                            "instrument_kind": "option",
                                            "exchange": "deribit",
                                            "uri": "192.100.1.213:4222"
                                        }
                                    }
                                ]
                            }
                        },
                        {
                            "name": "another-component",
                            "type": "component",
                            "properties": {
                                "image": "ghcr.io/jabratech/another-component:0.1.0"
                            }
                        }
                    ]
                }
            }
        },
        "deployed_version": null
    }
    "#;

    let expected = vec![
        CapabilityComponent {
            name: "future-ticker-deribit-btc".to_string(),
            component_type: "capability".to_string(),
            properties: Some(Properties {
                image: "ghcr.io/jabratech/ticker-provider:0.1.0".to_string(),
                config: Some(vec![Config {
                    name: "future-ticker-deribit-btc".to_string(),
                    properties: Some(ConfigProperties {
                        exchange_name: Some("jabratech".to_string()),
                        uri: Some("192.100.1.213:4222".to_string()),
                        exchange: Some("deribit".to_string()),
                        currency: Some("btc".to_string()),
                        instrument_kind: Some("future".to_string()),
                    }),
                }]),
            }),
        },
        CapabilityComponent {
            name: "option-ticker-deribit-btc".to_string(),
            component_type: "capability".to_string(),
            properties: Some(Properties {
                image: "ghcr.io/jabratech/ticker-provider:0.1.0".to_string(),
                config: Some(vec![Config {
                    name: "option-ticker-deribit-btc".to_string(),
                    properties: Some(ConfigProperties {
                        exchange_name: Some("deribit".to_string()),
                        uri: Some("192.100.1.213:4222".to_string()),
                        exchange: Some("deribit".to_string()),
                        currency: Some("btc".to_string()),
                        instrument_kind: Some("option".to_string()),
                    }),
                }]),
            }),
        },
    ];

    let result = extract_capability_components(json_data).unwrap();
    assert_eq!(result, expected);
}

fn wrap_components(components: &str) -> String {
    format!(
        r#"{{
            "manifests": {{
                "v0.0.1": {{
                    "apiVersion": "core.oam.dev/v1beta1",
                    "kind": "Application",
                    "metadata": {{
                        "name": "demo",
                        "annotations": {{ "description": "d", "version": "v" }}
                    }},
                    "spec": {{ "components": [{}] }}
                }}
            }},
            "deployed_version": null
        }}"#,
        components
    )
}

#[test]
fn extract_excludes_capability_without_config() {
    let text = wrap_components(
        r#"{"name": "a", "type": "capability", "properties": {"image": "img"}}"#,
    );
    let result = extract_capability_components(&text).unwrap();
    assert!(result.is_empty());
}

#[test]
fn extract_includes_capability_with_empty_config() {
    let text = wrap_components(
        r#"{"name": "a", "type": "capability", "properties": {"image": "img", "config": []}}"#,
    );
    let result = extract_capability_components(&text).unwrap();
    assert_eq!(result.len(), 1);
    assert_eq!(result[0].name, "a");
    assert_eq!(result[0].properties.as_ref().unwrap().config, Some(vec![]));
}

#[test]
fn extract_excludes_plain_component_with_config() {
    let text = wrap_components(
        r#"{"name": "a", "type": "component", "properties": {"image": "img", "config": []}}"#,
    );
    let result = extract_capability_components(&text).unwrap();
    assert!(result.is_empty());
}

#[test]
fn extract_keeps_order_and_count() {
    let text = wrap_components(
        r#"{"name": "one", "type": "capability", "properties": {"image": "i", "config": []}},
           {"name": "skip", "type": "component", "properties": {"image": "i"}},
           {"name": "two", "type": "capability", "properties": {"image": "i", "config": []}}"#,
    );
    let result = extract_capability_components(&text).unwrap();
    assert_eq!(result.len(), 2);
    assert_eq!(result[0].name, "one");
    assert_eq!(result[1].name, "two");
}

#[test]
fn extract_keeps_components_sharing_a_name() {
    let text = wrap_components(
        r#"{"name": "twin", "type": "capability", "properties": {"image": "a", "config": []}},
           {"name": "twin", "type": "capability", "properties": {"image": "b", "config": []}}"#,
    );
    let result = extract_capability_components(&text).unwrap();
    assert_eq!(result.len(), 2);
    assert_eq!(result[0].properties.as_ref().unwrap().image, "a");
    assert_eq!(result[1].properties.as_ref().unwrap().image, "b");
}

#[test]
fn extract_fails_on_unsupported_version_key() {
    let text = r#"{"manifests": {"v9.9.9": {}}, "deployed_version": null}"#;
    let err = extract_capability_components(text).unwrap_err();
    assert_eq!(err, DecodeError::UnsupportedVersion);
}

#[test]
fn extract_fails_on_multiple_version_keys() {
    let text = r#"{"manifests": {"v0.0.1": {}, "v0.0.2": {}}}"#;
    let err = extract_capability_components(text).unwrap_err();
    assert_eq!(err, DecodeError::UnsupportedVersion);
}

#[test]
fn extract_fails_on_malformed_text() {
    let err = extract_capability_components("not json at all").unwrap_err();
    assert!(matches!(err, DecodeError::Syntax { .. }));
}

#[test]
fn extract_reports_missing_field() {
    let text = r#"{"deployed_version": null}"#;
    let err = extract_capability_components(text).unwrap_err();
    assert_eq!(err, DecodeError::MissingField { field: "manifests".to_string() });
}

#[test]
fn extract_reports_type_mismatch() {
    let text = r#"
    {
        "manifests": {
            "v0.0.1": {
                "apiVersion": "a",
                "kind": "k",
                "metadata": {"name": "n", "annotations": {"description": "d", "version": "v"}},
                "spec": {"components": 5}
            }
        }
    }"#;
    let err = extract_capability_components(text).unwrap_err();
    assert_eq!(err, DecodeError::TypeMismatch { field: "components".to_string() });
}

#[test]
fn extract_ignores_unknown_fields() {
    let text = r#"
    {
        "manifests": {
            "v0.0.1": {
                "apiVersion": "a",
                "kind": "k",
                "extra": [1, 2, {"x": true}],
                "metadata": {"name": "n", "note": 7,
                             "annotations": {"description": "d", "version": "v"}},
                "spec": {"components": []}
            }
        },
        "deployed_version": "v1",
        "future_field": 3.5
    }"#;
    let result = extract_capability_components(text).unwrap();
    assert!(result.is_empty());
}
