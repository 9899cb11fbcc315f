use std::collections::HashSet;
use std::str::FromStr;

use authzen_pdp::authzen::{Action, ErrorBody, EvaluationRequest, EvaluationResponse, Resource, Subject};
use authzen_pdp::error::ApiError;
use authzen_pdp::handlers::{
    answer, collect_policy_errors, convert_request, evaluate, healthz, latency_ms, metadata,
    readyz, resolve_reason, LogTarget,
};
use axum::http::StatusCode;
use cedar_policy::{
    Authorizer, Context, Decision, Entities, EntityUid, PolicyId, PolicySet, Request, Response,
    Schema,
};
use serde_json::Value;

fn policy_set(src: &str) -> PolicySet {
    PolicySet::from_str(src).expect("test policy set should parse")
}

fn find_id<'a>(ps: &'a PolicySet, name: &str) -> &'a PolicyId {
    ps.policies()
        .find(|p| p.annotation("id") == Some(name))
        .map_or_else(
            || panic!("policy `{name}` not found"),
            cedar_policy::Policy::id,
        )
}

fn request() -> EvaluationRequest {
    EvaluationRequest {
        subject: Subject {
            entity_type: "User".to_string(),
            id: "alice".to_string(),
            properties: None,
        },
        action: Action {
            name: "login".to_string(),
            properties: None,
        },
        resource: Resource {
            entity_type: "Client".to_string(),
            id: "a-client".to_string(),
            properties: None,
        },
        context: None,
    }
}

fn json(text: &str) -> Value {
    serde_json::from_str(text).expect("test JSON should parse")
}

#[test]
fn log_target_formats_the_authzen_triple() {
    let target = LogTarget::new(&request());
    assert_eq!(target.subject, "User::alice");
    assert_eq!(target.action, "login");
    assert_eq!(target.resource, "Client::a-client");
}

#[test]
fn records_hold_no_properties() {
    let mut full = request();
    full.subject.properties = json(r#"{ "department": "A1" }"#).as_object().cloned();
    full.resource.properties = json(r#"{ "tier": "gold" }"#).as_object().cloned();
    full.context = Some(json(r#"{ "ip": "10.0.0.5" }"#));
    let (plain, with_properties) = (LogTarget::new(&request()), LogTarget::new(&full));
    assert_eq!(plain.subject, with_properties.subject);
    assert_eq!(plain.action, with_properties.action);
    assert_eq!(plain.resource, with_properties.resource);
}

#[test]
fn resolve_reason_sorts_display_ids() {
    let ps = policy_set(
        r#"
        @id("zebra")
        forbid(principal, action, resource);

        @id("alpha")
        forbid(principal, action, resource);
        "#,
    );
    let reason_ids = [find_id(&ps, "zebra"), find_id(&ps, "alpha")];

    assert_eq!(resolve_reason(&reason_ids, Some(&ps)), ["alpha", "zebra"]);
}

#[test]
fn resolve_reason_falls_back_to_internal_id_for_unknown_policies() {
    let ps = policy_set(
        r#"
        @id("named")
        forbid(principal, action, resource);
        "#,
    );
    let reason_ids = [find_id(&ps, "named")];

    let resolved = resolve_reason(&reason_ids, None);
    assert_eq!(resolved, [reason_ids[0].to_string()]);
    assert_ne!(resolved, ["named"]);
}

#[test]
fn resolve_reason_is_empty_without_determining_policies() {
    assert!(resolve_reason(&[], None).is_empty());
}

#[test]
fn reason_does_not_depend_on_the_order_of_ids() {
    let ps = policy_set(
        r#"
        @id("b")
        forbid(principal, action, resource);

        @id("a")
        forbid(principal, action, resource);

        forbid(principal, action, resource);
        "#,
    );
    let (a, b) = (find_id(&ps, "a"), find_id(&ps, "b"));
    let unnamed = PolicyId::new("policy2");
    let elsewhere = PolicyId::new("elsewhere");
    let expected = ["a", "b", "elsewhere", "policy2"];
    assert_eq!(
        resolve_reason(&[a, b, &unnamed, &elsewhere], Some(&ps)),
        expected
    );
    assert_eq!(
        resolve_reason(&[&elsewhere, &unnamed, b, a], Some(&ps)),
        expected
    );
}

fn asked() -> Request {
    Request::new(
        EntityUid::from_str(r#"User::"alice""#).expect("uid"),
        EntityUid::from_str(r#"Action::"login""#).expect("uid"),
        EntityUid::from_str(r#"Client::"a-client""#).expect("uid"),
        Context::empty(),
        None,
    )
    .expect("request")
}

fn decide(ps: &PolicySet) -> Response {
    Authorizer::new().is_authorized(&asked(), ps, &Entities::empty())
}

const POLICIES: &str = r#"
    @id("allow-login")
    permit(principal, action, resource);

    @id("z-deny")
    @priority("20")
    @decision_context_step_up("mfa")
    forbid(principal, action, resource);

    @id("a-client-deny")
    @priority("10")
    @decision_context_reason_user("External authentication is required.")
    @decision_context_step_up("external-auth")
    forbid(principal, action, resource == Client::"a-client");
"#;

#[test]
fn denial_is_answered_and_recorded() {
    let ps = policy_set(POLICIES);
    let response = decide(&ps);
    let evaluation =
        evaluate(&request(), Some(&response), Some(&ps), 12).expect("the authorizer answered");

    assert!(!evaluation.response.decision);
    assert_eq!(
        evaluation.response.context.map(Value::Object),
        Some(json(
            r#"{
                "reason": ["a-client-deny", "z-deny"],
                "reason_user": "External authentication is required.",
                "step_up": "external-auth"
            }"#
        ))
    );
    let audit = evaluation.audit;
    assert_eq!(audit.target.subject, "User::alice");
    assert_eq!(audit.target.action, "login");
    assert_eq!(audit.target.resource, "Client::a-client");
    assert_eq!(audit.decision, "deny");
    assert!(audit.external_auth_forced);
    assert_eq!(audit.determining_policies, "a-client-deny,z-deny");
    assert_eq!(audit.context_policy, "a-client-deny");
    assert_eq!(audit.latency_ms, 12);
    assert!(evaluation.overridden.is_empty());
}

#[test]
fn permission_is_answered_and_recorded() {
    let ps = policy_set(r#"@id("allow-login") permit(principal, action, resource);"#);
    let response = decide(&ps);
    let evaluation =
        evaluate(&request(), Some(&response), Some(&ps), 0).expect("the authorizer answered");

    assert!(evaluation.response.decision);
    assert_eq!(
        evaluation.response.context.map(Value::Object),
        Some(json(r#"{ "reason": ["allow-login"] }"#))
    );
    assert_eq!(evaluation.audit.decision, "allow");
    assert!(!evaluation.audit.external_auth_forced);
    assert_eq!(evaluation.audit.context_policy, "-");
}

#[test]
fn implicit_denial_has_no_context() {
    let ps = policy_set("");
    let response = decide(&ps);
    let evaluation =
        evaluate(&request(), Some(&response), Some(&ps), 0).expect("the authorizer answered");

    assert!(!evaluation.response.decision);
    assert!(evaluation.response.context.is_none());
    assert_eq!(evaluation.audit.determining_policies, "");
}

#[test]
fn missing_policies_leave_internal_ids() {
    let ps = policy_set(POLICIES);
    let response = decide(&ps);
    let evaluation =
        evaluate(&request(), Some(&response), None, 0).expect("the authorizer answered");

    assert_eq!(
        evaluation.response.context.map(Value::Object),
        Some(json(r#"{ "reason": ["policy1", "policy2"] }"#))
    );
    assert_eq!(evaluation.audit.determining_policies, "policy1,policy2");
    assert_eq!(evaluation.audit.context_policy, "-");
}

#[test]
fn evaluation_errors_are_reported() {
    let ps = policy_set(
        r#"
        @id("allow")
        permit(principal, action, resource);

        @id("broken")
        forbid(principal, action, resource) when { context.missing };
        "#,
    );
    let response = decide(&ps);
    let errors = collect_policy_errors(&response);
    assert_eq!(errors.len(), 1);
    assert!(!errors[0].is_empty());

    let evaluation =
        evaluate(&request(), Some(&response), Some(&ps), 0).expect("the authorizer answered");
    assert!(evaluation.response.decision);
    let context = evaluation.response.context.expect("a context");
    assert_eq!(
        context.get("errors"),
        Some(&Value::Array(vec![Value::String(errors[0].clone())]))
    );
    assert_eq!(context.get("reason"), Some(&json(r#"["allow"]"#)));
}

#[test]
fn no_response_is_a_failure() {
    let ps = policy_set(POLICIES);
    let error = evaluate(&request(), None, Some(&ps), 0).expect_err("no response");
    assert!(matches!(error, ApiError::Evaluation));
}

#[test]
fn priorities_do_not_touch_the_decision() {
    let ps = policy_set(POLICIES);
    let ids: HashSet<PolicyId> = [find_id(&ps, "a-client-deny").clone()].into();
    for (decision, allowed) in [(Decision::Allow, true), (Decision::Deny, false)] {
        let response = Response::new(decision, ids.clone(), vec![]);
        let evaluation =
            evaluate(&request(), Some(&response), Some(&ps), 0).expect("the authorizer answered");
        assert_eq!(evaluation.response.decision, allowed);
        assert_eq!(evaluation.audit.external_auth_forced, !allowed);
    }
}

#[test]
fn priorities_do_not_touch_the_reason() {
    let ps = policy_set(POLICIES);
    let swapped = policy_set(&POLICIES.replace(r#""10""#, r#""30""#));
    let response = decide(&ps);
    let one = evaluate(&request(), Some(&response), Some(&ps), 0).expect("answered");
    let other = evaluate(&request(), Some(&response), Some(&swapped), 0).expect("answered");
    assert_eq!(one.audit.context_policy, "a-client-deny");
    assert_eq!(other.audit.context_policy, "z-deny");
    assert_eq!(one.response.decision, other.response.decision);
    assert_eq!(
        one.audit.determining_policies,
        other.audit.determining_policies
    );
    let (one, other) = (one.response.context, other.response.context);
    assert_ne!(one, other);
    assert_eq!(
        one.expect("a context").get("reason"),
        other.expect("a context").get("reason")
    );
}

#[test]
fn answers_follow_from_what_they_are_made_of() {
    let ps = policy_set(POLICIES);
    let errors = ["one".to_string(), "two".to_string()];
    let evaluation = answer(
        &request(),
        true,
        &[find_id(&ps, "z-deny")],
        Some(&ps),
        &errors,
        u128::MAX,
    );
    assert!(evaluation.response.decision);
    assert_eq!(
        evaluation.response.context.map(Value::Object),
        Some(json(
            r#"{ "reason": ["z-deny"], "errors": ["one", "two"], "step_up": "mfa" }"#
        ))
    );
    assert_eq!(evaluation.audit.latency_ms, u64::MAX);
}

#[test]
fn reserved_annotations_are_not_answered() {
    let ps = policy_set(
        r#"
        @id("author")
        @decision_context_errors("author value")
        @decision_context_reason("author value")
        forbid(principal, action, resource);
        "#,
    );
    let evaluation =
        evaluate(&request(), Some(&decide(&ps)), Some(&ps), 0).expect("the authorizer answered");
    assert_eq!(
        evaluation.response.context.map(Value::Object),
        Some(json(r#"{ "reason": ["author"] }"#))
    );
    assert_eq!(evaluation.audit.context_policy, "author");
    assert_eq!(evaluation.overridden, ["reason", "errors"]);
}

#[test]
fn refused_requests_keep_their_code() {
    let schema = Schema::from_json_value(json(
        r#"{ "": {
            "entityTypes": { "User": {}, "Client": {} },
            "actions": { "login": { "appliesTo": {
                "principalTypes": ["User"], "resourceTypes": ["Client"]
            } } }
        } }"#,
    ))
    .expect("schema");
    assert!(convert_request(&request(), &schema).is_ok());

    let mut bad = request();
    bad.resource.entity_type = "no type".to_string();
    let error = convert_request(&bad, &schema).expect_err("refused");
    assert_eq!(error.status(), StatusCode::BAD_REQUEST);
    assert_eq!(error.code(), "invalid_entity");
}

#[test]
fn latency_saturates() {
    assert_eq!(latency_ms(0), 0);
    assert_eq!(latency_ms(u64::MAX as u128), u64::MAX);
    assert_eq!(latency_ms(u64::MAX as u128 + 1), u64::MAX);
}

#[test]
fn one_response_has_one_answer() {
    let ps = policy_set(POLICIES);
    let (a, z) = (find_id(&ps, "a-client-deny"), find_id(&ps, "z-deny"));
    let one = answer(&request(), false, &[a, z], Some(&ps), &[], 0);
    let other = answer(&request(), false, &[z, a], Some(&ps), &[], 0);
    assert_eq!(one.response.context, other.response.context);
    assert_eq!(
        one.audit.determining_policies,
        other.audit.determining_policies
    );
    assert_eq!(one.audit.context_policy, other.audit.context_policy);
}

#[test]
fn metadata_follows_the_host() {
    let configuration = metadata(Some("pdp.example:8080"));
    assert_eq!(
        configuration.policy_decision_point,
        "http://pdp.example:8080"
    );
    assert_eq!(
        configuration.access_evaluation_endpoint,
        "http://pdp.example:8080/access/v1/evaluation"
    );
    assert_eq!(
        metadata(None).access_evaluation_endpoint,
        "http://localhost/access/v1/evaluation"
    );
}

#[test]
fn probes_are_answered() {
    assert_eq!(healthz(), StatusCode::OK);
    assert_eq!(readyz(true), StatusCode::OK);
    assert_eq!(readyz(false), StatusCode::SERVICE_UNAVAILABLE);
}

#[test]
fn messages_hold_what_they_are_made_of() {
    let bare = EvaluationResponse::new(true);
    assert!(bare.decision);
    assert!(bare.context.is_none());
    let object = json(r#"{ "a": "b" }"#).as_object().cloned();
    let full = EvaluationResponse::new(false).with_context(object.clone());
    assert!(!full.decision);
    assert_eq!(full.context, object);

    let body = ErrorBody::new("code", "message".to_string());
    assert_eq!(body.error, "code");
    assert_eq!(body.message, "message");
}
