//! Tests of class lookup, instantiation, and method resolution.

use modal_rust::cls::lookup_outcome;
use modal_rust::cls::ClassParameterInfo;
use modal_rust::cls::Cls;
use modal_rust::cls::ClsInstance;
use modal_rust::cls::HandleMetadata;
use modal_rust::cls::InstancePlan;
use modal_rust::cls::ParamFormat;
use modal_rust::config::choose_profile;
use modal_rust::config::effective_server_url;
use modal_rust::config::prefer_explicit;
use modal_rust::config::Profile;
use modal_rust::engine::EngineAction;
use modal_rust::engine::InvocationError;
use modal_rust::params::encode_parameter_set;
use modal_rust::params::BindError;
use modal_rust::params::ParamDecl;
use modal_rust::params::ParamKind;
use modal_rust::params::ParamMap;
use modal_rust::params::ParamValue;

fn metadata_without_schema() -> HandleMetadata {
    HandleMetadata {
        method_names: vec![b"run".to_vec(), b"stats".to_vec()],
        parameter_info: None,
    }
}

fn ready_instance(cls: &Cls, params: &ParamMap) -> ClsInstance {
    match cls.instance(params) {
        Ok(InstancePlan::Ready(inst)) => inst,
        _ => panic!("expected a ready instance"),
    }
}

#[test]
fn lookup_with_empty_identifier_is_not_found() {
    assert!(matches!(
        lookup_outcome(String::new()),
        Err(InvocationError::NotFound)
    ));
}

#[test]
fn lookup_with_identifier_returns_it() {
    assert_eq!(lookup_outcome("fu-1".to_string()).unwrap(), "fu-1");
}

#[test]
fn class_lookup_tag_appends_wildcard_suffix() {
    assert_eq!(Cls::service_function_name("Counter"), "Counter.*");
}

#[test]
fn class_from_lookup_rejects_empty_identifier() {
    assert!(matches!(
        Cls::from_lookup(String::new(), Some(metadata_without_schema())),
        Err(InvocationError::NotFound)
    ));
}

#[test]
fn instance_without_metadata_fails() {
    let cls = Cls { service_function_id: "svc".to_string(), service_function_metadata: None };
    assert!(matches!(
        cls.instance(&ParamMap::new()),
        Err(BindError::MetadataMissing)
    ));
}

#[test]
fn instance_without_schema_is_ready_with_service_identifier() {
    let cls = Cls {
        service_function_id: "svc-1".to_string(),
        service_function_metadata: Some(metadata_without_schema()),
    };
    let inst = ready_instance(&cls, &ParamMap::new());
    let (_, action) = inst.call_method(&b"run".to_vec(), vec![1]).unwrap();
    match action {
        EngineAction::Submit { function_id, input } => {
            assert_eq!(function_id, "svc-1");
            assert_eq!(input.args, vec![1]);
        }
        _ => panic!("expected the submission action"),
    }
}

#[test]
fn legacy_format_skips_binding() {
    let cls = Cls {
        service_function_id: "svc-2".to_string(),
        service_function_metadata: Some(HandleMetadata {
            method_names: vec![b"run".to_vec()],
            parameter_info: Some(ClassParameterInfo {
                format: ParamFormat::Legacy,
                schema: vec![ParamDecl {
                    name: b"x".to_vec(),
                    kind: ParamKind::Int,
                    default: None,
                }],
            }),
        }),
    };
    assert!(matches!(
        cls.instance(&ParamMap::new()),
        Ok(InstancePlan::Ready(_))
    ));
}

#[test]
fn structured_schema_requires_binding_with_canonical_bytes() {
    let schema = vec![ParamDecl { name: b"x".to_vec(), kind: ParamKind::Int, default: None }];
    let cls = Cls {
        service_function_id: "svc-3".to_string(),
        service_function_metadata: Some(HandleMetadata {
            method_names: vec![b"run".to_vec()],
            parameter_info: Some(ClassParameterInfo {
                format: ParamFormat::Structured,
                schema: schema.clone(),
            }),
        }),
    };
    let mut params = ParamMap::new();
    params.insert(b"x".to_vec(), ParamValue::Int(5));
    match cls.instance(&params) {
        Ok(InstancePlan::NeedsBind { serialized_params }) => {
            assert_eq!(serialized_params, encode_parameter_set(&schema, &params).unwrap());
        }
        _ => panic!("expected a binding round trip"),
    }
}

#[test]
fn structured_schema_propagates_binding_errors() {
    let cls = Cls {
        service_function_id: "svc-4".to_string(),
        service_function_metadata: Some(HandleMetadata {
            method_names: vec![b"run".to_vec()],
            parameter_info: Some(ClassParameterInfo {
                format: ParamFormat::Structured,
                schema: vec![ParamDecl {
                    name: b"x".to_vec(),
                    kind: ParamKind::Int,
                    default: None,
                }],
            }),
        }),
    };
    match cls.instance(&ParamMap::new()) {
        Err(BindError::MissingParameter(name)) => assert_eq!(name, b"x".to_vec()),
        _ => panic!("expected missing-parameter"),
    }
}

#[test]
fn bound_identifier_serves_every_method() {
    let cls = Cls {
        service_function_id: "svc-5".to_string(),
        service_function_metadata: Some(metadata_without_schema()),
    };
    let inst = match cls.instance_with_bound_id("bound-5") {
        Ok(i) => i,
        Err(_) => panic!("instantiation failed"),
    };
    for name in [b"run".to_vec(), b"stats".to_vec()] {
        let (_, action) = inst.call_method(&name, vec![]).unwrap();
        match action {
            EngineAction::Submit { function_id, .. } => assert_eq!(function_id, "bound-5"),
            _ => panic!("expected the submission action"),
        }
    }
}

#[test]
fn empty_bound_identifier_keeps_service_identifier() {
    let cls = Cls {
        service_function_id: "svc-6".to_string(),
        service_function_metadata: Some(metadata_without_schema()),
    };
    let inst = match cls.instance_with_bound_id("") {
        Ok(i) => i,
        Err(_) => panic!("instantiation failed"),
    };
    let (_, action) = inst.call_method(&b"run".to_vec(), vec![]).unwrap();
    match action {
        EngineAction::Submit { function_id, .. } => assert_eq!(function_id, "svc-6"),
        _ => panic!("expected the submission action"),
    }
}

#[test]
fn unknown_method_fails_without_any_action() {
    let cls = Cls {
        service_function_id: "svc-7".to_string(),
        service_function_metadata: Some(metadata_without_schema()),
    };
    let inst = ready_instance(&cls, &ParamMap::new());
    assert!(matches!(
        inst.call_method(&b"missing".to_vec(), vec![1]),
        Err(InvocationError::MethodNotFound)
    ));
}

#[test]
fn profile_choice_prefers_first_active() {
    let profiles = vec![
        Profile { token_id: None, token_secret: None, active: false },
        Profile { token_id: Some("ak-2".to_string()), token_secret: None, active: true },
        Profile { token_id: None, token_secret: None, active: true },
    ];
    assert_eq!(choose_profile(&profiles), Some(1));
}

#[test]
fn profile_choice_falls_back_to_first() {
    let profiles = vec![
        Profile { token_id: Some("ak-1".to_string()), token_secret: None, active: false },
        Profile { token_id: None, token_secret: None, active: false },
    ];
    assert_eq!(choose_profile(&profiles), Some(0));
}

#[test]
fn profile_choice_on_empty_file_is_none() {
    assert_eq!(choose_profile(&Vec::new()), None);
}

#[test]
fn server_url_precedence() {
    assert_eq!(
        effective_server_url(Some("https://a".to_string()), Some("https://b".to_string())),
        "https://a"
    );
    assert_eq!(
        effective_server_url(None, Some("https://b".to_string())),
        "https://b"
    );
    assert_eq!(effective_server_url(None, None), "https://api.modal.com:443");
}

#[test]
fn credential_precedence() {
    assert_eq!(
        prefer_explicit(Some("x".to_string()), Some("y".to_string())),
        Some("x".to_string())
    );
    assert_eq!(prefer_explicit(None, Some("y".to_string())), Some("y".to_string()));
    assert_eq!(prefer_explicit(None, None), None);
}
