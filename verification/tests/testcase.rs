//! The assertion evaluator: one result per assertion, in order.

use iamthat::effect::Effect;
use iamthat::json::JsonValue;
use iamthat::policy::Policy;
use iamthat::request::Request;
use iamthat::scenario::Scenario;
use iamthat::testcase::{AssertionResult, TestCase, TestCaseAssertion};

fn s(x: &str) -> JsonValue {
    JsonValue::Str(x.to_string())
}

fn obj(fields: Vec<(&str, JsonValue)>) -> JsonValue {
    JsonValue::Obj(fields.into_iter().map(|(k, v)| (k.to_string(), v)).collect())
}

fn arr(items: Vec<JsonValue>) -> JsonValue {
    JsonValue::Arr(items)
}

fn s3_list_scenario() -> Scenario {
    let mut scenario = Scenario::new();
    scenario.add_resource_policy(
        "s3_list",
        Policy::from_json_value(&obj(vec![(
            "Statement",
            arr(vec![obj(vec![
                ("Effect", s("Allow")),
                ("Resource", s("*")),
                ("Action", s("s3:ListBuckets")),
            ])]),
        )]))
        .unwrap(),
    );
    scenario
}

fn request(action: &str) -> Request {
    Request {
        action: action.to_string(),
        principal: None,
    }
}

#[test]
fn eval_reports_one_result_per_assertion_in_order() {
    let testcase = TestCase {
        comment: Some("listing allowed, creating denied".to_string()),
        scenario: s3_list_scenario(),
        assertions: vec![
            TestCaseAssertion {
                comment: None,
                request: request("s3:ListBuckets"),
                expected: Effect::Allow,
            },
            TestCaseAssertion {
                comment: None,
                request: request("s3:CreateBucket"),
                expected: Effect::Deny,
            },
            TestCaseAssertion {
                comment: Some("wrong expectation".to_string()),
                request: request("s3:CreateBucket"),
                expected: Effect::Allow,
            },
        ],
    };
    let results = testcase.eval();
    assert_eq!(
        results,
        vec![
            AssertionResult::Pass,
            AssertionResult::Pass,
            AssertionResult::Fail,
        ]
    );
}

#[test]
fn eval_of_empty_assertion_list_is_empty() {
    let testcase = TestCase {
        comment: None,
        scenario: s3_list_scenario(),
        assertions: vec![],
    };
    assert_eq!(testcase.eval(), vec![]);
}

#[test]
fn is_pass_distinguishes_results() {
    assert!(AssertionResult::Pass.is_pass());
    assert!(!AssertionResult::Fail.is_pass());
    assert!(!AssertionResult::Error("boom".to_string()).is_pass());
}

#[test]
fn effect_helpers_report_the_variant() {
    assert!(Effect::Allow.is_allow());
    assert!(!Effect::Allow.is_deny());
    assert!(Effect::Deny.is_deny());
    assert!(!Effect::Deny.is_allow());
}

#[test]
fn request_decoding_accepts_optional_principal() {
    let doc = obj(vec![
        ("Action", s("s3:ListBuckets")),
        ("Principal", obj(vec![("ARN", s("arn:aws:iam::1:user/a"))])),
    ]);
    let req = Request::from_json_value(&doc).unwrap();
    assert_eq!(req.action, "s3:ListBuckets");
    assert!(req.principal.is_some());

    let bare = obj(vec![("Action", s("s3:ListBuckets"))]);
    let req2 = Request::from_json_value(&bare).unwrap();
    assert!(req2.principal.is_none());

    let unknown = obj(vec![("Action", s("x:Y")), ("Color", s("pink"))]);
    let err = Request::from_json_value(&unknown).unwrap_err().message();
    assert!(err.contains("unknown field `Color`"), "{err}");
}

#[test]
fn user_decoding_applies_defaults() {
    let doc = obj(vec![("UserName", s("mateo"))]);
    let user = iamthat::user::User::from_json_value(&doc).unwrap();
    assert_eq!(user.user_name, "mateo");
    assert_eq!(user.path, "/");
    assert!(user.user_id.is_none());
    assert!(user.tags.is_empty());
    assert!(user.attached_policies.is_empty());

    let full = obj(vec![
        ("UserName", s("ana")),
        ("UserId", s("u-1")),
        ("Path", s("/eng/")),
        (
            "Tags",
            arr(vec![obj(vec![("Key", s("team")), ("Value", s("eng"))])]),
        ),
        ("AttachedPolicies", arr(vec![s("s3_list")])),
    ]);
    let user2 = iamthat::user::User::from_json_value(&full).unwrap();
    assert_eq!(user2.path, "/eng/");
    assert_eq!(user2.tags[0].key, "team");
    assert_eq!(user2.tags[0].value, "eng");
    assert_eq!(user2.attached_policies, ["s3_list"]);
}
