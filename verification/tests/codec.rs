use manifestor::Annotations;
use manifestor::CapabilityComponent;
use manifestor::Config;
use manifestor::ConfigProperties;
use manifestor::DecodeError;
use manifestor::Manifest;
use manifestor::Manifests;
use manifestor::Metadata;
use manifestor::Properties;
use manifestor::Root;
use manifestor::Spec;

fn sample_root() -> Root {
    Root {
        manifests: Manifests {
            version: Manifest {
                api_version: "core.oam.dev/v1beta1".to_string(),
                kind: "Application".to_string(),
                metadata: Metadata {
                    name: "demo".to_string(),
                    annotations: Annotations {
                        description: "a demo".to_string(),
                        version: "v0.0.1".to_string(),
                    },
                },
                spec: Spec {
                    components: vec![
                        CapabilityComponent {
                            name: "cap".to_string(),
                            component_type: "capability".to_string(),
                            properties: Some(Properties {
                                image: "img:1".to_string(),
                                config: Some(vec![Config {
                                    name: "c1".to_string(),
                                    properties: Some(ConfigProperties {
                                        uri: Some("u".to_string()),
                                        exchange_name: None,
                                        exchange: Some("e".to_string()),
                                        currency: None,
                                        instrument_kind: None,
                                    }),
                                }]),
                            }),
                        },
                        CapabilityComponent {
                            name: "plain".to_string(),
                            component_type: "component".to_string(),
                            properties: None,
                        },
                    ],
                },
            },
        },
        deployed_version: Some("v1".to_string()),
    }
}

#[test]
fn decode_builds_the_expected_document() {
    let text = r#"
    {
        "manifests": {
            "v0.0.1": {
                "apiVersion": "a",
                "kind": "k",
                "metadata": {"name": "n", "annotations": {"description": "d", "version": "v"}},
                "spec": {"components": []}
            }
        }
    }"#;
    let root = Root::decode(text).unwrap();
    let expected = Root {
        manifests: Manifests {
            version: Manifest {
                api_version: "a".to_string(),
                kind: "k".to_string(),
                metadata: Metadata {
                    name: "n".to_string(),
                    annotations: Annotations {
                        description: "d".to_string(),
                        version: "v".to_string(),
                    },
                },
                spec: Spec { components: vec![] },
            },
        },
        deployed_version: None,
    };
    assert_eq!(root, expected);
}

#[test]
fn absent_and_null_optionals_decode_as_absent() {
    let text = r#"
    {
        "manifests": {
            "v0.0.1": {
                "apiVersion": "a",
                "kind": "k",
                "metadata": {"name": "n", "annotations": {"description": "d", "version": "v"}},
                "spec": {"components": [
                    {"name": "c1", "type": "t", "properties": null},
                    {"name": "c2", "type": "t"}
                ]}
            }
        },
        "deployed_version": null
    }"#;
    let root = Root::decode(text).unwrap();
    assert_eq!(root.deployed_version, None);
    assert_eq!(root.manifests.version.spec.components[0].properties, None);
    assert_eq!(root.manifests.version.spec.components[1].properties, None);
}

#[test]
fn present_deployed_version_decodes_to_some() {
    let text = r#"
    {
        "manifests": {
            "v0.0.1": {
                "apiVersion": "a",
                "kind": "k",
                "metadata": {"name": "n", "annotations": {"description": "d", "version": "v"}},
                "spec": {"components": []}
            }
        },
        "deployed_version": "2024-01"
    }"#;
    let root = Root::decode(text).unwrap();
    assert_eq!(root.deployed_version, Some("2024-01".to_string()));
}

#[test]
fn missing_required_field_is_reported_by_name() {
    let text = r#"
    {
        "manifests": {
            "v0.0.1": {
                "apiVersion": "a",
                "metadata": {"name": "n", "annotations": {"description": "d", "version": "v"}},
                "spec": {"components": []}
            }
        }
    }"#;
    let err = Root::decode(text).unwrap_err();
    assert_eq!(err, DecodeError::MissingField { field: "kind".to_string() });
}

#[test]
fn wrong_typed_string_field_is_a_mismatch() {
    let text = r#"
    {
        "manifests": {
            "v0.0.1": {
                "apiVersion": 1,
                "kind": "k",
                "metadata": {"name": "n", "annotations": {"description": "d", "version": "v"}},
                "spec": {"components": []}
            }
        }
    }"#;
    let err = Root::decode(text).unwrap_err();
    assert_eq!(err, DecodeError::TypeMismatch { field: "apiVersion".to_string() });
}

#[test]
fn encode_then_decode_round_trips() {
    let root = sample_root();
    let text = root.encode();
    let again = Root::decode(&text).unwrap();
    assert_eq!(again, sample_root());
}

#[test]
fn decode_encode_decode_round_trips() {
    let text = r#"
    {
        "manifests": {
            "v0.0.1": {
                "apiVersion": "core.oam.dev/v1beta1",
                "kind": "Application",
                "metadata": {"name": "mds",
                             "annotations": {"description": "d", "version": "v0.0.1"}},
                "spec": {"components": [
                    {"name": "cap", "type": "capability",
                     "properties": {"image": "img",
                                    "config": [{"name": "c",
                                                "properties": {"currency": "btc"}}]}}
                ]}
            }
        },
        "deployed_version": null
    }"#;
    let first = Root::decode(text).unwrap();
    let reencoded = first.encode();
    let second = Root::decode(&reencoded).unwrap();
    assert_eq!(first, second);
}

#[test]
fn encoded_text_is_plain_json() {
    let root = sample_root();
    let text = root.encode();
    assert!(text.starts_with('{'));
    assert!(text.contains("\"v0.0.1\""));
    assert!(text.contains("\"deployed_version\":\"v1\""));
}
