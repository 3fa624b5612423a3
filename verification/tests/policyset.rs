//! The combination engine over typed policy sets.

use iamthat::json::JsonValue;
use iamthat::policy::{Policy, PolicyType};
use iamthat::policyset::PolicySet;
use iamthat::request::Request;

fn s(x: &str) -> JsonValue {
    JsonValue::Str(x.to_string())
}

fn obj(fields: Vec<(&str, JsonValue)>) -> JsonValue {
    JsonValue::Obj(fields.into_iter().map(|(k, v)| (k.to_string(), v)).collect())
}

fn arr(items: Vec<JsonValue>) -> JsonValue {
    JsonValue::Arr(items)
}

#[test]
fn policyset_deny_overrides_allow() {
    let mut policyset = PolicySet::new();
    policyset.add(
        PolicyType::Identity,
        Policy::from_json_value(&obj(vec![
            ("Version", s("2000-01-01")),
            (
                "Statement",
                arr(vec![
                    obj(vec![
                        ("Effect", s("Allow")),
                        ("Resource", s("s3:*")),
                        ("Action", s("arn:aws:s3:::mybucket/*")),
                    ]),
                    obj(vec![
                        ("Effect", s("Deny")),
                        ("Resource", s("s3:*")),
                        ("Action", s("arn:aws:s3:::mybucket/*")),
                    ]),
                ]),
            ),
        ]))
        .unwrap(),
    );

    let request = Request {
        action: "s3:GetObject".to_string(),
        principal: None,
    };

    assert!(policyset.eval(&request).is_deny());
}

#[test]
fn empty_policyset_is_implicit_deny() {
    let policyset = PolicySet::new();

    let request = Request {
        action: "aws-pca:IssueCertificate".to_string(),
        principal: None,
    };

    assert!(policyset.eval(&request).is_deny());
}

#[test]
fn policyset_lack_of_match_is_implicit_deny() {
    let mut policyset = PolicySet::new();
    policyset.add(
        PolicyType::Resource,
        Policy::from_json_value(&obj(vec![
            ("Version", s("2000-01-01")),
            (
                "Statement",
                arr(vec![obj(vec![
                    ("Effect", s("Allow")),
                    ("Resource", s("s3:*")),
                    ("Action", s("arn:aws:s3:::mybucket/*")),
                ])]),
            ),
        ]))
        .unwrap(),
    );

    let request = Request {
        action: "aws-pca:IssueCertificate".to_string(),
        principal: None,
    };

    assert!(policyset.eval(&request).is_deny());
}

#[test]
fn identity_allow_does_not_grant() {
    // Only Resource-type policies contribute to the allow branch: an
    // Identity policy that allows the request still leaves the decision
    // at the implicit deny. This pins a documented gap.
    let mut policyset = PolicySet::new();
    policyset.add(
        PolicyType::Identity,
        Policy::from_json_value(&obj(vec![(
            "Statement",
            arr(vec![obj(vec![
                ("Effect", s("Allow")),
                ("Resource", s("*")),
                ("Action", s("s3:GetObject")),
            ])]),
        )]))
        .unwrap(),
    );

    let request = Request {
        action: "s3:GetObject".to_string(),
        principal: None,
    };

    assert!(policyset.eval(&request).is_deny());
}

#[test]
fn resource_allow_grants() {
    let mut policyset = PolicySet::new();
    policyset.add(
        PolicyType::Resource,
        Policy::from_json_value(&obj(vec![(
            "Statement",
            arr(vec![obj(vec![
                ("Effect", s("Allow")),
                ("Resource", s("*")),
                ("Action", s("s3:GetObject")),
            ])]),
        )]))
        .unwrap(),
    );

    let request = Request {
        action: "s3:GetObject".to_string(),
        principal: None,
    };

    assert!(policyset.eval(&request).is_allow());
}

#[test]
fn policyset_iter_returns_added_policies() {
    let mut policyset = PolicySet::new();
    assert_eq!(policyset.iter().len(), 0);
    policyset.add(
        PolicyType::Session,
        Policy::from_json_value(&obj(vec![(
            "Statement",
            arr(vec![obj(vec![
                ("Effect", s("Deny")),
                ("Resource", s("*")),
                ("Action", s("*")),
            ])]),
        )]))
        .unwrap(),
    );
    let entries = policyset.iter();
    assert_eq!(entries.len(), 1);
    assert_eq!(entries[0].0, PolicyType::Session);
    assert_eq!(entries[0].1.statement.len(), 1);
}
