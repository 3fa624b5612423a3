//! Policy document decoding and matching, driven through the document
//! value tree.

use iamthat::json::JsonValue;
use iamthat::policy::Policy;
use iamthat::principal::Principal;
use iamthat::request::Request;

fn s(x: &str) -> JsonValue {
    JsonValue::Str(x.to_string())
}

fn obj(fields: Vec<(&str, JsonValue)>) -> JsonValue {
    JsonValue::Obj(fields.into_iter().map(|(k, v)| (k.to_string(), v)).collect())
}

fn arr(items: Vec<JsonValue>) -> JsonValue {
    JsonValue::Arr(items)
}

fn mateo() -> Option<Principal> {
    Some(Principal::ARN(
        "arn:aws:iam::111122223333:user/mateo".to_owned(),
    ))
}

#[test]
fn deny_unknown_fields_in_policy() {
    let doc = obj(vec![
        ("Version", s("2000-01-01")),
        ("Color", s("pink")),
        ("Statement", arr(vec![])),
    ]);
    let err = Policy::from_json_value(&doc).unwrap_err().message();
    assert!(err.contains("unknown field `Color`"), "{err}");
}

#[test]
fn deny_unknown_fields_in_statement() {
    let doc = obj(vec![
        ("Version", s("2000-01-01")),
        (
            "Statement",
            arr(vec![obj(vec![
                ("Effect", s("Allow")),
                ("Resource", s("*")),
                ("Action", s("*")),
                ("Affect", s("Allow")),
            ])]),
        ),
    ]);
    let err = Policy::from_json_value(&doc).unwrap_err().message();
    assert!(err.contains("unknown field `Affect`"), "{err}");
}

#[test]
fn deserialize_single_strings_abbreviate_lists() {
    let doc = obj(vec![
        ("Version", s("2000-01-01")),
        (
            "Statement",
            arr(vec![obj(vec![
                ("Effect", s("Allow")),
                ("Resource", s("*")),
                ("Action", s("s3:ListBuckets")),
                ("NotPrincipal", obj(vec![("CanonicalUser", s("012345"))])),
            ])]),
        ),
    ]);
    let policy = Policy::from_json_value(&doc).unwrap();
    assert_eq!(policy.statement[0].action, ["s3:ListBuckets"]);
    assert_eq!(policy.statement[0].resource, ["*"]);
}

#[test]
fn action_star_matches_in_resource_policy() {
    let doc = obj(vec![(
        "Statement",
        arr(vec![obj(vec![
            ("Effect", s("Allow")),
            ("Resource", s("*")),
            ("Action", s("*")),
            ("Principal", s("*")),
        ])]),
    )]);
    let policy = Policy::from_json_value(&doc).unwrap();
    let request = Request {
        action: "s3:ListBuckets".to_owned(),
        principal: mateo(),
    };
    assert!(policy.allows(&request));
}

#[test]
fn action_glob_case_insensitive_in_resource_policy() {
    let doc = obj(vec![(
        "Statement",
        arr(vec![obj(vec![
            ("Effect", s("Allow")),
            ("Resource", s("*")),
            ("Action", s("s3:*Bucket*")),
            ("Principal", s("*")),
        ])]),
    )]);
    let policy = Policy::from_json_value(&doc).unwrap();
    let request = Request {
        action: "S3:lISTbUCKETS".to_owned(),
        principal: mateo(),
    };
    assert!(policy.allows(&request));
    assert!(!policy.denies(&request));
}

#[test]
fn missing_effect_is_an_error() {
    let doc = obj(vec![(
        "Statement",
        arr(vec![obj(vec![("Resource", s("*")), ("Action", s("*"))])]),
    )]);
    let err = Policy::from_json_value(&doc).unwrap_err().message();
    assert!(err.contains("missing field `Effect`"), "{err}");
}

#[test]
fn missing_statement_is_an_error() {
    let doc = obj(vec![("Version", s("2000-01-01"))]);
    let err = Policy::from_json_value(&doc).unwrap_err().message();
    assert!(err.contains("missing field `Statement`"), "{err}");
}

#[test]
fn duplicate_field_is_an_error() {
    let doc = obj(vec![
        ("Version", s("2000-01-01")),
        ("Version", s("2012-10-17")),
        ("Statement", arr(vec![])),
    ]);
    let err = Policy::from_json_value(&doc).unwrap_err().message();
    assert!(err.contains("duplicate field `Version`"), "{err}");
}

#[test]
fn unknown_effect_value_is_an_error() {
    let doc = obj(vec![(
        "Statement",
        arr(vec![obj(vec![
            ("Effect", s("Permit")),
            ("Resource", s("*")),
            ("Action", s("*")),
        ])]),
    )]);
    let err = Policy::from_json_value(&doc).unwrap_err().message();
    assert!(err.contains("unknown variant `Permit`"), "{err}");
}

#[test]
fn non_string_action_is_an_error() {
    let doc = obj(vec![(
        "Statement",
        arr(vec![obj(vec![
            ("Effect", s("Allow")),
            ("Resource", s("*")),
            ("Action", JsonValue::Bool(true)),
        ])]),
    )]);
    let err = Policy::from_json_value(&doc).unwrap_err().message();
    assert!(err.contains("invalid type for `Action`"), "{err}");
}

#[test]
fn empty_action_list_is_an_error() {
    let doc = obj(vec![(
        "Statement",
        arr(vec![obj(vec![
            ("Effect", s("Allow")),
            ("Resource", s("*")),
            ("Action", arr(vec![])),
        ])]),
    )]);
    let err = Policy::from_json_value(&doc).unwrap_err().message();
    assert!(err.contains("empty list in field `Action`"), "{err}");
}

#[test]
fn non_object_policy_is_an_error() {
    let err = Policy::from_json_value(&s("nope")).unwrap_err().message();
    assert!(err.contains("invalid type for `Policy`"), "{err}");
}

#[test]
fn malformed_action_pattern_matches_nothing_but_others_still_match() {
    // One malformed entry must not abort evaluation of the others.
    let doc = obj(vec![(
        "Statement",
        arr(vec![obj(vec![
            ("Effect", s("Allow")),
            ("Resource", s("*")),
            ("Action", arr(vec![s("not a pattern"), s("s3:GetObject")])),
        ])]),
    )]);
    let policy = Policy::from_json_value(&doc).unwrap();
    let request = Request {
        action: "s3:GetObject".to_owned(),
        principal: None,
    };
    assert!(policy.allows(&request));
    let other = Request {
        action: "not a pattern".to_owned(),
        principal: None,
    };
    assert!(!policy.allows(&other));
}
