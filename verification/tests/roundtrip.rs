//! Decoding then re-encoding a policy document preserves its content.

use iamthat::json::JsonValue;
use iamthat::policy::Policy;

fn s(x: &str) -> JsonValue {
    JsonValue::Str(x.to_string())
}

fn obj(fields: Vec<(&str, JsonValue)>) -> JsonValue {
    JsonValue::Obj(fields.into_iter().map(|(k, v)| (k.to_string(), v)).collect())
}

fn arr(items: Vec<JsonValue>) -> JsonValue {
    JsonValue::Arr(items)
}

fn sample_policy_doc() -> JsonValue {
    obj(vec![
        ("Version", s("2012-10-17")),
        ("Id", s("policy-one")),
        (
            "Statement",
            arr(vec![
                obj(vec![
                    ("Sid", s("first")),
                    ("Effect", s("Allow")),
                    ("Resource", s("*")),
                    ("Action", s("s3:ListBuckets")),
                    (
                        "Principal",
                        obj(vec![("AWS", arr(vec![s("arn:aws:iam::1:user/a")]))]),
                    ),
                ]),
                obj(vec![
                    ("Effect", s("Deny")),
                    ("Resource", arr(vec![s("a"), s("b")])),
                    ("Action", arr(vec![s("s3:*"), s("iam:*")])),
                    ("NotPrincipal", arr(vec![s("arn:aws:iam::2:user/b")])),
                ]),
            ]),
        ),
    ])
}

#[test]
fn round_trip_preserves_policy_content() {
    let first = Policy::from_json_value(&sample_policy_doc()).unwrap();
    let encoded = first.to_json_value();
    let second = Policy::from_json_value(&encoded).unwrap();

    assert_eq!(first.version, second.version);
    assert_eq!(first.id, second.id);
    assert_eq!(first.statement.len(), second.statement.len());
    for (a, b) in first.statement.iter().zip(second.statement.iter()) {
        assert_eq!(a.sid, b.sid);
        assert_eq!(a.effect, b.effect);
        assert_eq!(a.resource, b.resource);
        assert_eq!(a.action, b.action);
    }
}

#[test]
fn round_trip_normalizes_scalars_to_lists() {
    // A bare string decodes as a one-element list, and the re-encoded
    // document carries the list form.
    let doc = obj(vec![(
        "Statement",
        arr(vec![obj(vec![
            ("Effect", s("Allow")),
            ("Resource", s("*")),
            ("Action", s("s3:ListBuckets")),
        ])]),
    )]);
    let policy = Policy::from_json_value(&doc).unwrap();
    assert_eq!(policy.statement[0].action, ["s3:ListBuckets"]);

    let encoded = policy.to_json_value();
    let fields = match &encoded {
        JsonValue::Obj(fields) => fields,
        other => panic!("expected an object, got {other:?}"),
    };
    let statement = fields
        .iter()
        .find(|(k, _)| k == "Statement")
        .map(|(_, v)| v)
        .unwrap();
    let items = match statement {
        JsonValue::Arr(items) => items,
        other => panic!("expected a list, got {other:?}"),
    };
    let st_fields = match &items[0] {
        JsonValue::Obj(fields) => fields,
        other => panic!("expected an object, got {other:?}"),
    };
    let action = st_fields.iter().find(|(k, _)| k == "Action").map(|(_, v)| v);
    match action {
        Some(JsonValue::Arr(action_items)) => {
            assert_eq!(action_items.len(), 1);
            match &action_items[0] {
                JsonValue::Str(p) => assert_eq!(p, "s3:ListBuckets"),
                other => panic!("expected a string, got {other:?}"),
            }
        }
        other => panic!("expected the action as a list, got {other:?}"),
    }
}

#[test]
fn round_trip_preserves_statement_effects() {
    let first = Policy::from_json_value(&sample_policy_doc()).unwrap();
    let second = Policy::from_json_value(&first.to_json_value()).unwrap();
    let effects: Vec<_> = second.statement.iter().map(|st| st.effect).collect();
    assert_eq!(
        effects,
        first
            .statement
            .iter()
            .map(|st| st.effect)
            .collect::<Vec<_>>()
    );
}
