use std::str::FromStr;

use authzen_pdp::authzen::{Action, EvaluationRequest, Resource, Subject};
use authzen_pdp::convert::{
    annotation_context, build_response_context, decision_context_key, display_id, display_name,
    effective_priority, entities_json, entity_json, entity_uid, first_in_rank,
    is_reserved_context_key, overridden_keys, parse_priority, priority_of, to_cedar, to_decision_context, type_error,
    ConversionError, DecisionContext, ID_ANNOTATION,
};
use cedar_policy::{EntityTypeName, EntityUid, Policy, PolicyId, PolicySet, Schema};
use serde_json::Value;

fn policy_set(src: &str) -> PolicySet {
    PolicySet::from_str(src).expect("test policy set should parse")
}

fn find_id<'a>(ps: &'a PolicySet, name: &str) -> &'a PolicyId {
    ps.policies()
        .find(|p| p.annotation(ID_ANNOTATION) == Some(name))
        .map_or_else(|| panic!("policy `{name}` not found"), Policy::id)
}

fn json(text: &str) -> Value {
    serde_json::from_str(text).expect("test JSON should parse")
}

fn object(text: &str) -> serde_json::Map<String, Value> {
    json(text).as_object().cloned().expect("object")
}

fn schema() -> Schema {
    Schema::from_json_value(json(
        r#"{
            "": {
                "entityTypes": {
                    "User": {
                        "shape": {
                            "type": "Record",
                            "attributes": {
                                "user_type": { "type": "String", "required": false },
                                "department": { "type": "String", "required": false }
                            }
                        }
                    },
                    "Client": {
                        "shape": {
                            "type": "Record",
                            "attributes": {
                                "tier": { "type": "String", "required": false }
                            }
                        }
                    }
                },
                "actions": {
                    "login": {
                        "appliesTo": {
                            "principalTypes": ["User"],
                            "resourceTypes": ["Client"],
                            "context": {
                                "type": "Record",
                                "attributes": {
                                    "access_route": { "type": "String", "required": false }
                                }
                            }
                        }
                    }
                }
            }
        }"#,
    ))
    .expect("test schema should parse")
}

fn request() -> EvaluationRequest {
    EvaluationRequest {
        subject: Subject {
            entity_type: "User".to_string(),
            id: "alice".to_string(),
            properties: None,
        },
        action: Action {
            name: "login".to_string(),
            properties: None,
        },
        resource: Resource {
            entity_type: "Client".to_string(),
            id: "a-client".to_string(),
            properties: None,
        },
        context: None,
    }
}

fn context_of(ps: &PolicySet, reason: &[&PolicyId]) -> DecisionContext {
    to_decision_context(ps, reason).expect("context should be present")
}

fn string(value: &str) -> Value {
    Value::String(value.into())
}

fn uid(entity_type: &str, id: &str) -> EntityUid {
    entity_uid(entity_type, id).expect("test entity uid should build")
}

#[test]
fn to_cedar_builds_principal_action_resource() {
    let (request, _) = to_cedar(&request(), &schema()).expect("conversion should succeed");

    assert_eq!(request.principal(), Some(&uid("User", "alice")));
    assert_eq!(request.action(), Some(&uid("Action", "login")));
    assert_eq!(request.resource(), Some(&uid("Client", "a-client")));
}

#[test]
fn to_cedar_carries_subject_properties_into_entities() {
    let mut req = request();
    req.subject.properties = Some(object(
        r#"{ "user_type": "employee", "department": "A1" }"#,
    ));

    let (_, entities) = to_cedar(&req, &schema()).expect("conversion should succeed");

    let subject = entities
        .get(&uid("User", "alice"))
        .expect("subject entity should be present");
    assert!(subject.attr("user_type").is_some());
    assert!(subject.attr("department").is_some());
}

#[test]
fn to_cedar_always_emits_the_subject_entity() {
    let (_, entities) = to_cedar(&request(), &schema()).expect("conversion should succeed");

    assert!(entities.get(&uid("User", "alice")).is_some());
}

#[test]
fn to_cedar_omits_the_resource_entity_without_properties() {
    let (_, entities) = to_cedar(&request(), &schema()).expect("conversion should succeed");

    assert!(entities.get(&uid("Client", "a-client")).is_none());
}

#[test]
fn to_cedar_emits_the_resource_entity_with_properties() {
    let mut req = request();
    req.resource.properties = Some(object(r#"{ "tier": "gold" }"#));

    let (_, entities) = to_cedar(&req, &schema()).expect("conversion should succeed");

    assert!(entities.get(&uid("Client", "a-client")).is_some());
}

#[test]
fn to_cedar_treats_empty_resource_properties_as_absent() {
    let mut req = request();
    req.resource.properties = Some(serde_json::Map::new());

    let (_, entities) = to_cedar(&req, &schema()).expect("conversion should succeed");

    assert!(entities.get(&uid("Client", "a-client")).is_none());
}

#[test]
fn to_cedar_accepts_context_declared_by_the_schema() {
    let mut req = request();
    req.context = Some(json(r#"{ "access_route": "internet" }"#));

    assert!(to_cedar(&req, &schema()).is_ok());
}

#[test]
fn to_cedar_rejects_malformed_entity_type() {
    let mut req = request();
    req.subject.entity_type = "1nvalid".to_string();

    let error = to_cedar(&req, &schema()).expect_err("malformed type must be rejected");
    assert_eq!(error.code(), "invalid_entity");
}

#[test]
fn to_cedar_rejects_principal_type_the_action_does_not_accept() {
    let mut req = request();
    req.subject.entity_type = "Client".to_string();

    let error = to_cedar(&req, &schema()).expect_err("principal type must be rejected");
    assert_eq!(error.code(), "invalid_request");
}

#[test]
fn to_cedar_rejects_context_not_declared_by_the_schema() {
    let mut req = request();
    req.context = Some(json(r#"{ "undeclared": "value" }"#));

    let error = to_cedar(&req, &schema()).expect_err("unknown context key must be rejected");
    assert_eq!(error.code(), "invalid_context");
}

#[test]
fn to_cedar_rejects_properties_not_declared_by_the_schema() {
    let mut req = request();
    req.subject.properties = Some(object(r#"{ "undeclared": "value" }"#));

    let error = to_cedar(&req, &schema()).expect_err("unknown property must be rejected");
    assert_eq!(error.code(), "invalid_properties");
}

#[test]
fn conversion_error_codes_are_stable() {
    let cases = [
        (ConversionError::Entity(String::new()), "invalid_entity"),
        (ConversionError::Context(String::new()), "invalid_context"),
        (
            ConversionError::Properties(String::new()),
            "invalid_properties",
        ),
        (ConversionError::Request(String::new()), "invalid_request"),
    ];

    for (error, expected) in cases {
        assert_eq!(error.code(), expected);
    }
}

#[test]
fn maps_prefixed_annotations_to_context() {
    let ps = policy_set(
        r#"
        @id("deny-admins")
        @decision_context_reason_user("additional authentication required")
        @decision_context_step_up("mfa")
        forbid(principal, action, resource);
        "#,
    );
    let reason = [find_id(&ps, "deny-admins")];

    let DecisionContext { policy_id, context } = context_of(&ps, &reason);
    assert_eq!(policy_id, "deny-admins");
    assert_eq!(
        context.get("reason_user"),
        Some(&string("additional authentication required"))
    );
    assert_eq!(context.get("step_up"), Some(&string("mfa")));
    assert_eq!(context.len(), 2, "`@id` must not leak into the context");
}

#[test]
fn returns_none_without_matching_annotations() {
    let ps = policy_set(
        r#"
        @id("allow-all")
        permit(principal, action, resource);
        "#,
    );
    let reason = [find_id(&ps, "allow-all")];

    assert_eq!(to_decision_context(&ps, &reason), None);
}

#[test]
fn returns_none_for_empty_reason() {
    let ps = policy_set(
        r#"
        @id("deny-all")
        @decision_context_reason_user("nope")
        forbid(principal, action, resource);
        "#,
    );

    assert_eq!(to_decision_context(&ps, &[]), None);
}

#[test]
fn lower_priority_value_wins() {
    let ps = policy_set(
        r#"
        @id("routine")
        @priority("10")
        @decision_context_reason_user("from routine")
        @decision_context_step_up("external-auth")
        forbid(principal, action, resource);

        @id("urgent")
        @priority("1")
        @decision_context_reason_user("from urgent")
        forbid(principal, action, resource);
        "#,
    );
    let reason = [find_id(&ps, "routine"), find_id(&ps, "urgent")];

    let DecisionContext { policy_id, context } = context_of(&ps, &reason);
    assert_eq!(policy_id, "urgent");
    assert_eq!(context.get("reason_user"), Some(&string("from urgent")));
    assert_eq!(context.get("step_up"), None);
    assert_eq!(context.len(), 1);
}

#[test]
fn missing_priority_is_lowest() {
    let ps = policy_set(
        r#"
        @id("aaa-no-priority")
        @decision_context_reason_user("from no-priority")
        forbid(principal, action, resource);

        @id("zzz-with-priority")
        @priority("50")
        @decision_context_reason_user("from priority-50")
        forbid(principal, action, resource);
        "#,
    );
    let reason = [
        find_id(&ps, "aaa-no-priority"),
        find_id(&ps, "zzz-with-priority"),
    ];

    let DecisionContext { policy_id, context } = context_of(&ps, &reason);
    assert_eq!(policy_id, "zzz-with-priority");
    assert_eq!(
        context.get("reason_user"),
        Some(&string("from priority-50"))
    );
}

#[test]
fn equal_priority_falls_back_to_id_order() {
    let ps = policy_set(
        r#"
        @id("second")
        @priority("10")
        @decision_context_reason_user("from second")
        forbid(principal, action, resource);

        @id("first")
        @priority("10")
        @decision_context_reason_user("from first")
        forbid(principal, action, resource);
        "#,
    );
    let reason = [find_id(&ps, "second"), find_id(&ps, "first")];

    let DecisionContext { policy_id, context } = context_of(&ps, &reason);
    assert_eq!(policy_id, "first");
    assert_eq!(context.get("reason_user"), Some(&string("from first")));
}

#[test]
fn winner_without_context_annotations_yields_none() {
    let ps = policy_set(
        r#"
        @id("silent-urgent")
        @priority("1")
        forbid(principal, action, resource);

        @id("verbose-routine")
        @priority("10")
        @decision_context_reason_user("from routine")
        forbid(principal, action, resource);
        "#,
    );
    let reason = [
        find_id(&ps, "silent-urgent"),
        find_id(&ps, "verbose-routine"),
    ];

    assert_eq!(to_decision_context(&ps, &reason), None);
}

#[test]
fn priority_annotation_is_not_exposed() {
    let ps = policy_set(
        r#"
        @id("with-priority")
        @priority("1")
        @decision_context_reason_user("shown")
        forbid(principal, action, resource);
        "#,
    );
    let reason = [find_id(&ps, "with-priority")];

    let context = context_of(&ps, &reason).context;
    assert_eq!(context.get("priority"), None);
    assert_eq!(context.len(), 1);
}

#[test]
fn parses_only_non_negative_integers_as_priority() {
    assert_eq!(parse_priority("0"), Some(0));
    assert_eq!(parse_priority("1"), Some(1));
    assert_eq!(parse_priority("4294967295"), Some(u32::MAX));

    for invalid in ["", "abc", "-1", "1.5", " 1", "4294967296"] {
        assert_eq!(
            parse_priority(invalid),
            None,
            "{invalid:?} must be rejected"
        );
    }
}

#[test]
fn display_id_falls_back_to_internal_id() {
    let ps = policy_set("permit(principal, action, resource);");
    let policy = ps.policies().next().expect("one policy");

    assert_eq!(display_id(policy), policy.id().to_string());
}

#[test]
fn valueless_annotation_maps_to_empty_string() {
    let ps = policy_set(
        r#"
        @id("flag-only")
        @decision_context_flag
        forbid(principal, action, resource);
        "#,
    );
    let reason = [find_id(&ps, "flag-only")];

    let context = context_of(&ps, &reason).context;
    assert_eq!(context.get("flag"), Some(&string("")));
}

#[test]
fn skips_prefix_only_annotation() {
    let ps = policy_set(
        r#"
        @id("broken")
        @decision_context_("no key")
        forbid(principal, action, resource);
        "#,
    );
    let reason = [find_id(&ps, "broken")];

    assert_eq!(to_decision_context(&ps, &reason), None);
}

fn strings(values: &[&str]) -> Vec<String> {
    values.iter().map(ToString::to_string).collect()
}

#[test]
fn build_response_context_adds_reason_and_errors_as_string_arrays() {
    let reason = strings(&["deny-one", "deny-two"]);
    let errors = strings(&["policy0 evaluation error"]);

    let context =
        build_response_context(None, &reason, &errors).expect("context should be present");
    assert_eq!(
        context.get("reason"),
        Some(&json(r#"["deny-one", "deny-two"]"#))
    );
    assert_eq!(
        context.get("errors"),
        Some(&json(r#"["policy0 evaluation error"]"#))
    );
}

#[test]
fn build_response_context_merges_with_annotation_context() {
    let mut annotations = serde_json::Map::new();
    annotations.insert("reason_user".into(), Value::String("mfa".into()));

    let context = build_response_context(Some(annotations), &strings(&["deny-one"]), &[])
        .expect("context should be present");

    assert_eq!(
        context.get("reason_user"),
        Some(&Value::String("mfa".into()))
    );
    assert_eq!(context.get("reason"), Some(&json(r#"["deny-one"]"#)));
    assert!(!context.contains_key("errors"));
}

#[test]
fn build_response_context_returns_none_when_nothing_to_report() {
    assert_eq!(build_response_context(None, &[], &[]), None);
    assert_eq!(build_response_context(Some(serde_json::Map::new()), &[], &[]), None);
}

#[test]
fn build_response_context_omits_empty_reserved_keys() {
    let mut annotations = serde_json::Map::new();
    annotations.insert("reason_user".into(), Value::String("mfa".into()));

    let context = build_response_context(Some(annotations), &[], &[])
        .expect("annotation context should survive on its own");

    assert!(!context.contains_key("reason"));
    assert!(!context.contains_key("errors"));
    assert_eq!(context.len(), 1);
}

#[test]
fn build_response_context_reserved_key_overwrites_author_annotation() {
    let mut annotations = serde_json::Map::new();
    annotations.insert("reason".into(), Value::String("author value".into()));

    let context = build_response_context(Some(annotations), &strings(&["deny-one"]), &[])
        .expect("context should be present");
    assert_eq!(context.get("reason"), Some(&json(r#"["deny-one"]"#)));
}

#[test]
fn reserved_keys_are_never_left_to_annotations() {
    let annotations = object(r#"{ "errors": "author value", "step_up": "mfa" }"#);
    let context = build_response_context(Some(annotations), &strings(&["deny-one"]), &[])
        .expect("context should be present");
    assert!(!context.contains_key("errors"));
    assert_eq!(context.get("step_up"), Some(&string("mfa")));
    assert_eq!(context.len(), 2);

    let annotations = object(r#"{ "errors": "author value" }"#);
    assert_eq!(build_response_context(Some(annotations), &[], &[]), None);
}

#[test]
fn overridden_keys_are_told() {
    assert!(overridden_keys(&None).is_empty());
    assert!(overridden_keys(&Some(object(r#"{ "step_up": "mfa" }"#))).is_empty());
    assert_eq!(
        overridden_keys(&Some(object(r#"{ "errors": "a", "b": "c" }"#))),
        ["errors"]
    );
    assert_eq!(
        overridden_keys(&Some(object(r#"{ "errors": "a", "reason": "c" }"#))),
        ["reason", "errors"]
    );
}

#[test]
fn conversion_errors_say_what_is_wrong() {
    let cases = [
        (
            ConversionError::Entity("x".to_string()),
            "invalid entity reference: x",
        ),
        (
            ConversionError::Context("x".to_string()),
            "invalid context: x",
        ),
        (
            ConversionError::Properties("x".to_string()),
            "invalid properties: x",
        ),
        (
            ConversionError::Request("x".to_string()),
            "invalid request: x",
        ),
    ];
    for (error, expected) in cases {
        assert_eq!(error.message(), expected);
    }
}

#[test]
fn entity_errors_name_the_faulty_type() {
    let error = entity_uid("no type", "alice").expect_err("no type name");
    let cause = EntityTypeName::from_str("no type").expect_err("no type name");
    assert_eq!(
        error.message(),
        format!("invalid entity reference: type `no type`: {cause}")
    );

    let mut req = request();
    req.subject.entity_type = "if".to_string();
    req.resource.entity_type = "1".to_string();
    let error = to_cedar(&req, &schema()).expect_err("two faulty types");
    assert!(error.message().contains("type `if`"));

    assert_eq!(
        type_error("no type", "why").message(),
        "invalid entity reference: type `no type`: why"
    );
}

#[test]
fn type_names_are_paths_of_identifiers() {
    for name in ["User", "_u1", "Acme::Users::User", "A::B"] {
        let uid = entity_uid(name, "x").expect("a type name");
        assert_eq!(uid.to_string(), format!("{name}::\"x\""));
    }
    for name in [
        "", "1User", "Us er", " User", "User ", "A:B", "A::", "::A", "A:: B", "Us-er", "in",
        "A::like", "__cedar", "__cedar::Long", "A::__cedar", "Ü",
    ] {
        assert!(entity_uid(name, "x").is_err(), "{name:?} names no type");
    }
}

#[test]
fn entity_ids_are_taken_as_they_stand() {
    for id in ["", "alice", "a \"quoted\" one", "\u{e9}\n"] {
        let made = uid("User", id);
        let plain: &str = made.id().as_ref();
        assert_eq!(plain, id);
    }
}

#[test]
fn any_action_name_is_put_to_cedar() {
    let mut req = request();
    req.action.name = "no such action!".to_string();
    let error = to_cedar(&req, &schema()).expect_err("unknown action");
    assert_eq!(error.code(), "invalid_request");
    assert_eq!(
        error.message(),
        "invalid request: request's action `Action::\"no such action!\"` is not declared in the schema"
    );
}

#[test]
fn refused_parties_are_named_as_they_were_asked() {
    let mut req = request();
    req.subject.entity_type = "Client".to_string();
    let error = to_cedar(&req, &schema()).expect_err("principal type must be rejected");
    assert_eq!(
        error.message(),
        "invalid request: principal type `Client` is not valid for `Action::\"login\"`"
    );

    let mut req = request();
    req.resource.entity_type = "User".to_string();
    let error = to_cedar(&req, &schema()).expect_err("resource type must be rejected");
    assert_eq!(
        error.message(),
        "invalid request: resource type `User` is not valid for `Action::\"login\"`"
    );
}

#[test]
fn context_for_an_unknown_action_is_rejected_first() {
    let mut req = request();
    req.action.name = "unknown".to_string();
    req.context = Some(json("{}"));
    let error = to_cedar(&req, &schema()).expect_err("unknown action");
    assert_eq!(error.code(), "invalid_context");
}

#[test]
fn context_must_be_an_object() {
    let mut req = request();
    req.context = Some(json("[1]"));
    let error = to_cedar(&req, &schema()).expect_err("no object");
    assert_eq!(error.code(), "invalid_context");
    assert!(error.message().len() > "invalid context: ".len());
}

#[test]
fn context_reaches_the_request() {
    let mut req = request();
    req.context = Some(json(r#"{ "access_route": "internet" }"#));
    let (made, _) = to_cedar(&req, &schema()).expect("conversion should succeed");
    let context = made.context().expect("a context");
    assert_eq!(
        context.get("access_route").map(|value| value.to_string()),
        Some("\"internet\"".to_string())
    );
    let (made, _) = to_cedar(&request(), &schema()).expect("conversion should succeed");
    assert!(made
        .context()
        .expect("a context")
        .get("access_route")
        .is_none());
}

#[test]
fn entity_documents_hold_uid_attributes_and_no_parents() {
    assert_eq!(
        entity_json("User", "alice", &object(r#"{ "user_type": "employee" }"#)),
        json(
            r#"{
                "uid": { "type": "User", "id": "alice" },
                "attrs": { "user_type": "employee" },
                "parents": []
            }"#
        )
    );
}

#[test]
fn documents_list_the_resource_only_with_properties() {
    let subject = r#"{ "uid": { "type": "User", "id": "alice" }, "attrs": {}, "parents": [] }"#;
    assert_eq!(entities_json(&request()), json(&format!("[{subject}]")));

    let mut req = request();
    req.resource.properties = Some(object(r#"{ "tier": "gold" }"#));
    let resource = r#"{
        "uid": { "type": "Client", "id": "a-client" },
        "attrs": { "tier": "gold" },
        "parents": []
    }"#;
    assert_eq!(
        entities_json(&req),
        json(&format!("[{subject}, {resource}]"))
    );
}

#[test]
fn stored_subject_has_its_properties_and_no_other() {
    let mut req = request();
    req.subject.properties = Some(object(r#"{ "department": "A1" }"#));
    let (_, entities) = to_cedar(&req, &schema()).expect("conversion should succeed");
    let subject = entities.get(&uid("User", "alice")).expect("the subject");
    assert!(subject.attr("department").is_some());
    assert!(subject.attr("user_type").is_none());
}

#[test]
fn nothing_but_parties_and_actions_is_stored() {
    let mut req = request();
    req.resource.properties = Some(object(r#"{ "tier": "gold" }"#));
    let (_, entities) = to_cedar(&req, &schema()).expect("conversion should succeed");
    for entity in entities.iter() {
        let known = [
            uid("User", "alice"),
            uid("Client", "a-client"),
            uid("Action", "login"),
        ];
        assert!(known.contains(&entity.uid()));
    }
}

#[test]
fn names_prefer_the_annotation() {
    assert_eq!(display_name(Some("a"), "policy0".to_string()), "a");
    assert_eq!(display_name(None, "policy0".to_string()), "policy0");

    let ps = policy_set(r#"@id("named") permit(principal, action, resource);"#);
    let policy = ps.policies().next().expect("one policy");
    assert_eq!(display_id(policy), "named");
}

#[test]
fn internal_ids_are_displayed_with_escapes() {
    let policy = Policy::parse(
        Some(PolicyId::new("a\nb")),
        "permit(principal, action, resource);",
    )
    .expect("a policy");
    assert_eq!(display_id(&policy), "a\\nb");
}

#[test]
fn priorities_may_have_a_plus_and_leading_zeros() {
    assert_eq!(parse_priority("+7"), Some(7));
    assert_eq!(parse_priority("007"), Some(7));
    assert_eq!(parse_priority("0000000000000000000000012"), Some(12));
    assert_eq!(parse_priority("+"), None);
    assert_eq!(parse_priority("++1"), None);
    assert_eq!(parse_priority("+-1"), None);
    assert_eq!(parse_priority("1 "), None);
    assert_eq!(parse_priority("\u{661}"), None);
    assert_eq!(parse_priority("99999999999999999999999999"), None);
}

#[test]
fn unusable_priorities_count_as_lowest() {
    assert_eq!(effective_priority(None), u32::MAX);
    assert_eq!(effective_priority(Some("high")), u32::MAX);
    assert_eq!(effective_priority(Some("3")), 3);

    let ps = policy_set(r#"@priority("12") permit(principal, action, resource);"#);
    assert_eq!(priority_of(ps.policies().next().expect("one policy")), 12);
    let ps = policy_set(r#"@priority("-12") permit(principal, action, resource);"#);
    assert_eq!(
        priority_of(ps.policies().next().expect("one policy")),
        u32::MAX
    );
}

#[test]
fn ranks_go_by_priority_then_name_then_place() {
    let ranks = |list: &[(u32, &str)]| {
        let list: Vec<(u32, String)> = list
            .iter()
            .map(|(priority, name)| (*priority, name.to_string()))
            .collect();
        first_in_rank(&list)
    };
    assert_eq!(ranks(&[]), None);
    assert_eq!(ranks(&[(5, "a")]), Some(0));
    assert_eq!(ranks(&[(5, "a"), (4, "b")]), Some(1));
    assert_eq!(ranks(&[(5, "b"), (5, "a"), (5, "c")]), Some(1));
    assert_eq!(ranks(&[(5, "a"), (5, "a")]), Some(0));
    assert_eq!(ranks(&[(5, "aa"), (5, "a")]), Some(1));
    assert_eq!(ranks(&[(5, "\u{e9}"), (5, "z")]), Some(1));
}

#[test]
fn context_keys_stand_behind_the_prefix() {
    assert_eq!(
        decision_context_key("decision_context_step_up"),
        Some("step_up")
    );
    assert_eq!(decision_context_key("decision_context_"), Some(""));
    assert_eq!(decision_context_key("decision_context"), None);
    assert_eq!(decision_context_key("id"), None);
    assert_eq!(decision_context_key("x_decision_context_step_up"), None);
}

#[test]
fn reserved_keys_are_reason_and_errors() {
    assert!(is_reserved_context_key("reason"));
    assert!(is_reserved_context_key("errors"));
    assert!(!is_reserved_context_key("reason_user"));
    assert!(!is_reserved_context_key(""));
}

#[test]
fn later_annotations_overwrite_earlier_ones() {
    let list = |pairs: &[(&str, &str)]| {
        let list: Vec<(String, String)> = pairs
            .iter()
            .map(|(key, value)| (key.to_string(), value.to_string()))
            .collect();
        annotation_context(&list)
    };
    assert_eq!(
        list(&[
            ("decision_context_a", "1"),
            ("id", "x"),
            ("decision_context_", "y"),
            ("decision_context_a", "2"),
            ("decision_context_b", "3"),
        ]),
        object(r#"{ "a": "2", "b": "3" }"#)
    );
}

#[test]
fn context_does_not_depend_on_the_order_of_ids() {
    let ps = policy_set(
        r#"
        @id("a")
        @priority("2")
        @decision_context_k("from a")
        forbid(principal, action, resource);

        @id("b")
        @priority("1")
        @decision_context_k("from b")
        forbid(principal, action, resource);

        @id("c")
        @priority("1")
        @decision_context_k("from c")
        forbid(principal, action, resource);
        "#,
    );
    let (a, b, c) = (find_id(&ps, "a"), find_id(&ps, "b"), find_id(&ps, "c"));
    for order in [[a, b, c], [c, b, a], [b, a, c], [c, a, b]] {
        assert_eq!(context_of(&ps, &order).policy_id, "b");
    }
}

#[test]
fn unknown_ids_are_passed_over() {
    let ps = policy_set(
        r#"
        @id("a")
        @decision_context_k("from a")
        forbid(principal, action, resource);
        "#,
    );
    let unknown = PolicyId::new("elsewhere");
    let context = context_of(&ps, &[&unknown, find_id(&ps, "a")]);
    assert_eq!(context.policy_id, "a");
    assert_eq!(to_decision_context(&ps, &[&unknown]), None);
}
