use std::str::FromStr;

use authzen_pdp::convert::priority_of;
use authzen_pdp::handlers::readyz;
use authzen_pdp::policy::{
    check_priority, load_schema, ready_after, reject_faults, reload, schema_violation, validate,
    validate_policies, validate_priorities, PolicyError, ReloadStep, SchemaFile,
};
use axum::http::StatusCode;
use cedar_policy::{PolicySet, Schema};

fn policy_set(src: &str) -> PolicySet {
    PolicySet::from_str(src).expect("test policy set should parse")
}

#[test]
fn accepts_valid_priority() {
    let ps = policy_set(
        r#"
        @id("lowest-value")
        @priority("0")
        forbid(principal, action, resource);

        @id("highest-value")
        @priority("4294967295")
        forbid(principal, action, resource);

        @id("no-priority")
        permit(principal, action, resource);
        "#,
    );

    assert!(validate_priorities(&ps).is_ok());
}

#[test]
fn rejects_invalid_priority() {
    for invalid in [r#"("abc")"#, r#"("-1")"#, r#"("1.5")"#, ""] {
        let ps = policy_set(&format!(
            r#"
            @id("broken")
            @priority{invalid}
            forbid(principal, action, resource);
            "#
        ));

        let error =
            validate_priorities(&ps).expect_err(&format!("@priority{invalid} must be rejected"));
        assert!(
            matches!(error, PolicyError::Annotation(_)),
            "expected Annotation variant, got {error:?}"
        );
        assert!(
            error.message().contains("broken"),
            "error should name the policy: {error:?}"
        );
    }
}

const TEST_SCHEMA: &str = r#"{
    "": {
        "entityTypes": {
            "User": { "shape": { "type": "Record", "attributes": {} } },
            "Client": { "shape": { "type": "Record", "attributes": {} } }
        },
        "actions": {
            "login": {
                "appliesTo": {
                    "principalTypes": ["User"],
                    "resourceTypes": ["Client"]
                }
            }
        }
    }
}"#;

fn test_schema() -> Schema {
    load_schema(
        "schema.json",
        SchemaFile::Read(TEST_SCHEMA.as_bytes().to_vec()),
    )
    .expect("test schema should load")
}

fn contents(text: &str) -> Result<String, String> {
    Ok(text.to_string())
}

const NO_FILE: &str = "No such file or directory (os error 2)";

#[test]
fn load_schema_reports_missing_file() {
    let error = load_schema(
        "/nonexistent/schema.json",
        SchemaFile::Unopened(NO_FILE.to_string()),
    )
    .expect_err("missing file must fail");

    assert!(
        matches!(error, PolicyError::FileRead { .. }),
        "expected FileRead variant, got {error:?}"
    );
    assert_eq!(
        error.message(),
        "read `/nonexistent/schema.json`: No such file or directory (os error 2)"
    );
}

#[test]
fn load_schema_reports_malformed_json() {
    let error = load_schema("schema.json", SchemaFile::Read(b"{ not json".to_vec()))
        .expect_err("malformed schema must fail");
    assert!(
        matches!(error, PolicyError::SchemaParse { .. }),
        "expected SchemaParse variant, got {error:?}"
    );
    assert!(error.message().starts_with("parse schema `schema.json`: "));
    assert!(error.message().len() > "parse schema `schema.json`: ".len());
}

#[test]
fn load_schema_reports_a_file_that_cannot_be_read() {
    let cause = Schema::from_json_str("{ not json").expect_err("no schema");
    let told = cause.to_string();

    let error =
        load_schema("a-directory", SchemaFile::Unread(cause)).expect_err("unread file must fail");
    assert!(
        matches!(error, PolicyError::SchemaParse { .. }),
        "expected SchemaParse variant, got {error:?}"
    );
    assert_eq!(
        error.message(),
        format!("parse schema `a-directory`: {told}")
    );
}

#[test]
fn validate_counts_policies_that_pass() {
    let policies = r#"
        @id("allow-login")
        permit(principal, action == Action::"login", resource);

        @id("deny-one")
        @priority("10")
        forbid(principal, action == Action::"login", resource == Client::"a");
        "#;

    let count = validate("policies.cedar", contents(policies), &test_schema())
        .expect("policies should validate");
    assert_eq!(count, 2);
}

#[test]
fn validate_reports_missing_policy_file() {
    let error = validate(
        "/nonexistent/policies.cedar",
        Err(NO_FILE.to_string()),
        &test_schema(),
    )
    .expect_err("missing file must fail");

    assert!(
        matches!(error, PolicyError::FileRead { .. }),
        "expected FileRead variant, got {error:?}"
    );
}

#[test]
fn validate_reports_unparsable_policy() {
    let error = validate(
        "policies.cedar",
        contents("this is not cedar"),
        &test_schema(),
    )
    .expect_err("malformed policy must fail");
    assert!(
        matches!(error, PolicyError::PolicyParse { .. }),
        "expected PolicyParse variant, got {error:?}"
    );
    let cause = PolicySet::from_str("this is not cedar").expect_err("no policies");
    assert_eq!(error.message(), format!("parse `policies.cedar`: {cause}"));
}

#[test]
fn validate_reports_schema_violation() {
    let policies = r#"
        @id("bad-principal-type")
        permit(principal == Client::"a", action == Action::"login", resource);
        "#;

    let error = validate("policies.cedar", contents(policies), &test_schema())
        .expect_err("schema violation must fail");
    assert!(
        matches!(error, PolicyError::Validation(_)),
        "expected Validation variant, got {error:?}"
    );
    assert!(error.message().starts_with("schema validation: "));
    assert!(error.message().len() > "schema validation: ".len());
}

#[test]
fn validate_rejects_invalid_priority_annotation() {
    let policies = r#"
        @id("bad-priority")
        @priority("high")
        permit(principal, action == Action::"login", resource);
        "#;

    let error = validate("policies.cedar", contents(policies), &test_schema())
        .expect_err("invalid @priority must fail");
    assert!(
        matches!(error, PolicyError::Annotation(_)),
        "expected Annotation variant, got {error:?}"
    );
}

#[test]
fn every_bad_priority_is_named_in_order() {
    let ps = policy_set(
        r#"
        @id("b")
        @priority("x\"y")
        permit(principal, action, resource);

        @id("fine")
        @priority("1")
        permit(principal, action, resource);

        @priority
        permit(principal, action, resource);
        "#,
    );
    let error = validate_priorities(&ps).expect_err("two bad priorities");
    assert_eq!(
        error.message(),
        "invalid annotation: policy `b`: invalid @priority value \"x\\\"y\"; \
         policy `policy2`: invalid @priority value \"\""
    );
}

#[test]
fn single_priorities_are_checked() {
    assert_eq!(check_priority("a", None), None);
    assert_eq!(check_priority("a", Some("7")), None);
    assert_eq!(
        check_priority("a", Some("x\ty")),
        Some("policy `a`: invalid @priority value \"x\\ty\"".to_string())
    );
}

#[test]
fn faults_and_violations_are_joined() {
    let list = vec!["one".to_string(), "two".to_string()];
    assert_eq!(
        reject_faults(&list).expect_err("two faults").message(),
        "invalid annotation: one; two"
    );
    assert!(reject_faults(&vec![]).is_ok());
    assert_eq!(
        schema_violation(&list).message(),
        "schema validation: one; two"
    );
}

#[test]
fn schema_is_checked_before_priorities() {
    let ps = policy_set(
        r#"
        @priority("high")
        permit(principal == Client::"a", action == Action::"login", resource);
        "#,
    );
    assert!(matches!(
        validate_policies(&ps, &test_schema()),
        Err(PolicyError::Validation(_))
    ));
}

#[test]
fn no_policies_are_valid_policies() {
    assert_eq!(
        validate("policies.cedar", contents(""), &test_schema()).expect("nothing to reject"),
        0
    );
}

#[test]
fn provider_errors_say_what_failed() {
    assert_eq!(
        PolicyError::ProviderConfig("x".to_string()).message(),
        "policy provider configuration: x"
    );
    assert_eq!(
        PolicyError::Provider("x".to_string()).message(),
        "policy provider: x"
    );
}

#[test]
fn only_valid_policies_are_taken_over() {
    let good = r#"permit(principal, action == Action::"login", resource);"#;
    let step = reload("policies.cedar", contents(good), &test_schema());
    assert!(matches!(step, ReloadStep::Update(1)));
    assert!(ready_after(&step, true));
    assert!(!ready_after(&step, false));

    let step = reload("policies.cedar", contents("not cedar"), &test_schema());
    assert!(matches!(
        step,
        ReloadStep::Reject(PolicyError::PolicyParse { .. })
    ));
    assert!(!ready_after(&step, false));
    assert!(!ready_after(&step, true));
    assert_eq!(
        readyz(ready_after(&step, false)),
        StatusCode::SERVICE_UNAVAILABLE
    );
}

#[test]
fn served_priorities_are_stated() {
    let source = r#"
        @priority("4294967295")
        permit(principal, action == Action::"login", resource);

        @priority("+8")
        permit(principal, action == Action::"login", resource);
        "#;
    assert_eq!(
        validate("policies.cedar", contents(source), &test_schema()).expect("valid"),
        2
    );
    let ps = policy_set(source);
    let priorities: Vec<u32> = ps.policies().map(priority_of).collect();
    assert_eq!(priorities, [u32::MAX, 8]);
}
