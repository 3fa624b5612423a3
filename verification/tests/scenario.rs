//! Scenarios: named policy bundles evaluated against requests.

use iamthat::json::JsonValue;
use iamthat::policy::Policy;
use iamthat::principal::Principal;
use iamthat::request::Request;
use iamthat::scenario::Scenario;

fn s(x: &str) -> JsonValue {
    JsonValue::Str(x.to_string())
}

fn obj(fields: Vec<(&str, JsonValue)>) -> JsonValue {
    JsonValue::Obj(fields.into_iter().map(|(k, v)| (k.to_string(), v)).collect())
}

fn arr(items: Vec<JsonValue>) -> JsonValue {
    JsonValue::Arr(items)
}

fn mateo() -> Option<Principal> {
    Some(Principal::ARN(
        "arn:aws:iam::111122223333:user/mateo".to_owned(),
    ))
}

#[test]
fn scenario_deny_overrides_allow() {
    let mut scenario = Scenario::new();
    scenario.add_resource_policy(
        "deny_and_allow",
        Policy::from_json_value(&obj(vec![
            ("Version", s("2000-01-01")),
            (
                "Statement",
                arr(vec![
                    obj(vec![
                        ("Effect", s("Allow")),
                        ("Resource", s("s3:*")),
                        ("Action", s("arn:aws:s3:::mybucket/*")),
                    ]),
                    obj(vec![
                        ("Effect", s("Deny")),
                        ("Resource", s("s3:*")),
                        ("Action", s("arn:aws:s3:::mybucket/*")),
                    ]),
                ]),
            ),
        ]))
        .unwrap(),
    );

    let request = Request {
        action: "s3:GetObject".to_string(),
        principal: mateo(),
    };

    assert!(scenario.eval(&request).unwrap().is_deny());
}

#[test]
fn scenario_with_no_policies_causes_implicit_deny() {
    let scenario = Scenario::new();

    let request = Request {
        action: "aws-pca:IssueCertificate".to_string(),
        principal: mateo(),
    };

    assert!(scenario.eval(&request).unwrap().is_deny());
}

#[test]
fn scenario_lack_of_match_is_implicit_deny() {
    let mut scenario = Scenario::new();
    scenario.add_resource_policy(
        "allow_s3",
        Policy::from_json_value(&obj(vec![
            ("Version", s("2000-01-01")),
            (
                "Statement",
                arr(vec![obj(vec![
                    ("Effect", s("Allow")),
                    ("Resource", s("s3:*")),
                    ("Action", s("arn:aws:s3:::mybucket/*")),
                ])]),
            ),
        ]))
        .unwrap(),
    );

    let request = Request {
        action: "aws-pca:IssueCertificate".to_string(),
        principal: mateo(),
    };

    assert!(scenario.eval(&request).unwrap().is_deny());
}

#[test]
fn end_to_end_allow_then_implicit_deny() {
    // One resource policy allowing s3:ListBuckets: that request is
    // allowed, any other is denied implicitly.
    let mut scenario = Scenario::new();
    scenario.add_resource_policy(
        "s3_list",
        Policy::from_json_value(&obj(vec![(
            "Statement",
            arr(vec![obj(vec![
                ("Effect", s("Allow")),
                ("Resource", s("*")),
                ("Action", s("s3:ListBuckets")),
            ])]),
        )]))
        .unwrap(),
    );

    let listing = Request {
        action: "s3:ListBuckets".to_string(),
        principal: None,
    };
    assert!(scenario.eval(&listing).unwrap().is_allow());

    let creating = Request {
        action: "s3:CreateBucket".to_string(),
        principal: None,
    };
    assert!(scenario.eval(&creating).unwrap().is_deny());
}

#[test]
fn end_to_end_deny_statement_overrides() {
    // Adding a second, denying statement to the same policy turns the
    // previously allowed request into a deny.
    let mut scenario = Scenario::new();
    scenario.add_resource_policy(
        "s3_list_but_deny_all",
        Policy::from_json_value(&obj(vec![(
            "Statement",
            arr(vec![
                obj(vec![
                    ("Effect", s("Allow")),
                    ("Resource", s("*")),
                    ("Action", s("s3:ListBuckets")),
                ]),
                obj(vec![
                    ("Effect", s("Deny")),
                    ("Resource", s("*")),
                    ("Action", s("s3:*")),
                ]),
            ]),
        )]))
        .unwrap(),
    );

    let listing = Request {
        action: "s3:ListBuckets".to_string(),
        principal: None,
    };
    assert!(scenario.eval(&listing).unwrap().is_deny());
}

#[test]
fn contains_policy_reports_existing_names() {
    let mut scenario = Scenario::new();
    assert!(!scenario.contains_policy("p1"));
    scenario.add_resource_policy(
        "p1",
        Policy::from_json_value(&obj(vec![("Statement", arr(vec![]))])).unwrap(),
    );
    assert!(scenario.contains_policy("p1"));
    assert!(!scenario.contains_policy("p2"));
}
