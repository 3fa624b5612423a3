//! Decoding and encoding of the document shapes.
//!
//! Documents arrive as [`JsonValue`] trees; the decoders here apply the
//! grammar rules the document model demands: unknown fields are rejected,
//! a bare string abbreviates a one-element list wherever a list of strings
//! is expected, a statement's action list must not be empty, and the
//! effect must be exactly `"Allow"` or `"Deny"`. Encoding emits the
//! normalized form (lists are always lists), so that a decoded document
//! re-encodes to one with the same content.

use vstd::prelude::*;
use vstd::string::StringExecFns;
use crate::effect::Effect;
use crate::policy::{Policy, Statement};
use crate::principal::{Principal, PrincipalMapEntry, PrincipalOrNot};
use crate::request::Request;
use crate::tag::Tag;
use crate::text::str_eq;
use crate::user::User;

verus! {

/// A JSON document tree. Objects keep their fields in document order.
#[derive(Debug)]
pub enum JsonValue {
    Null,
    Bool(bool),
    /// A number, carried as its source text; no document shape decoded
    /// here contains one.
    Number(String),
    Str(String),
    Arr(Vec<JsonValue>),
    Obj(Vec<(String, JsonValue)>),
}

/// Why a document failed to decode.
#[derive(Debug, Clone, PartialEq, Eq)]
pub enum DecodeError {
    /// A field name outside the document shape.
    UnknownField(String),
    /// The same field, or two exclusive fields, given twice.
    DuplicateField(String),
    /// A required field is absent.
    MissingField(String),
    /// A closed set of string values (the effect) saw another value.
    UnknownVariant(String),
    /// A value of the wrong JSON type; carries the name of what was being
    /// decoded.
    WrongType(String),
    /// A list that must not be empty (a statement's actions) was empty.
    EmptyList(String),
}

impl DecodeError {
    /// The wording of each error's message.
    pub open spec fn spec_message(&self) -> Seq<char> {
        match self {
            DecodeError::UnknownField(f) => "unknown field `"@ + f@ + "`"@,
            DecodeError::DuplicateField(f) => "duplicate field `"@ + f@ + "`"@,
            DecodeError::MissingField(f) => "missing field `"@ + f@ + "`"@,
            DecodeError::UnknownVariant(v) => "unknown variant `"@ + v@ + "`"@,
            DecodeError::WrongType(w) => "invalid type for `"@ + w@ + "`"@,
            DecodeError::EmptyList(f) => "empty list in field `"@ + f@ + "`"@,
        }
    }

    /// A human-readable description of the error.
    pub fn message(&self) -> (r: String)
        ensures
            r@ == self.spec_message(),
    {
        match self {
            DecodeError::UnknownField(f) => String::from_str("unknown field `").concat(
                f.as_str(),
            ).concat("`"),
            DecodeError::DuplicateField(f) => String::from_str("duplicate field `").concat(
                f.as_str(),
            ).concat("`"),
            DecodeError::MissingField(f) => String::from_str("missing field `").concat(
                f.as_str(),
            ).concat("`"),
            DecodeError::UnknownVariant(v) => String::from_str("unknown variant `").concat(
                v.as_str(),
            ).concat("`"),
            DecodeError::WrongType(w) => String::from_str("invalid type for `").concat(
                w.as_str(),
            ).concat("`"),
            DecodeError::EmptyList(f) => String::from_str("empty list in field `").concat(
                f.as_str(),
            ).concat("`"),
        }
    }
}

// ---------------------------------------------------------------------------
// Object fields
// ---------------------------------------------------------------------------

/// No two fields share a name.
pub open spec fn keys_distinct(fields: Seq<(String, JsonValue)>) -> bool {
    forall|i: int, j: int| 0 <= i < j < fields.len() ==> fields[i].0@ != fields[j].0@
}

/// Some field bears this name.
pub open spec fn has_field(fields: Seq<(String, JsonValue)>, name: Seq<char>) -> bool {
    exists|i: int| 0 <= i < fields.len() && fields[i].0@ == name
}

/// The value of the field bearing this name. Meaningful when the name is
/// present and the keys are distinct.
pub open spec fn field_value(fields: Seq<(String, JsonValue)>, name: Seq<char>) -> JsonValue {
    fields[choose|i: int| 0 <= i < fields.len() && fields[i].0@ == name].1
}

/// With distinct keys, the field at a known index is the field the name
/// selects.
pub proof fn lemma_field_value(fields: Seq<(String, JsonValue)>, name: Seq<char>, j: int)
    requires
        keys_distinct(fields),
        0 <= j < fields.len(),
        fields[j].0@ == name,
    ensures
        has_field(fields, name),
        field_value(fields, name) == fields[j].1,
{
    let i = choose|i: int| 0 <= i < fields.len() && fields[i].0@ == name;
    if i != j {
        if i < j {
            assert(fields[i].0@ != fields[j].0@);
        } else {
            assert(fields[j].0@ != fields[i].0@);
        }
    }
}

/// While scanning a field list, `idx` records where `name` occurred among
/// the first `upto` fields, if anywhere, and that it occurred only there.
pub open spec fn tracks(
    fields: Seq<(String, JsonValue)>,
    upto: int,
    name: Seq<char>,
    idx: Option<usize>,
) -> bool {
    match idx {
        Some(x) => {
            &&& 0 <= x < upto <= fields.len()
            &&& fields[x as int].0@ == name
            &&& forall|j: int| 0 <= j < upto && fields[j].0@ == name ==> j == x
        },
        None => forall|j: int| 0 <= j < upto ==> fields[j].0@ != name,
    }
}

// ---------------------------------------------------------------------------
// Strings and lists of strings
// ---------------------------------------------------------------------------

/// The characters of a string value (other values give the empty string).
pub open spec fn as_str_view(v: JsonValue) -> Seq<char> {
    match v {
        JsonValue::Str(s) => s@,
        _ => Seq::empty(),
    }
}

/// A value a list-of-strings field accepts: a bare string, abbreviating a
/// one-element list, or a list of strings.
pub open spec fn string_or_list_ok(v: JsonValue) -> bool {
    match v {
        JsonValue::Str(_) => true,
        JsonValue::Arr(items) => forall|i: int| 0 <= i < items@.len() ==> items@[i] is Str,
        _ => false,
    }
}

/// The normalized list a string-or-list value stands for.
pub open spec fn string_or_list_view(v: JsonValue) -> Seq<Seq<char>> {
    match v {
        JsonValue::Str(s) => seq![s@],
        JsonValue::Arr(items) => items@.map_values(|x: JsonValue| as_str_view(x)),
        _ => Seq::empty(),
    }
}

/// A strict list of strings (no scalar abbreviation).
pub open spec fn string_list_ok(v: JsonValue) -> bool {
    match v {
        JsonValue::Arr(items) => forall|i: int| 0 <= i < items@.len() ==> items@[i] is Str,
        _ => false,
    }
}

/// Decode a list-of-strings field, normalizing a bare string into a
/// one-element list.
pub fn decode_string_or_list(v: &JsonValue, what: &str) -> (r: Result<Vec<String>, DecodeError>)
    ensures
        r is Ok <==> string_or_list_ok(*v),
        r matches Ok(list) ==> list.deep_view() == string_or_list_view(*v),
        r matches Err(e) ==> e matches DecodeError::WrongType(w) && w@ == what@,
{
    match v {
        JsonValue::Str(s) => {
            let mut list: Vec<String> = Vec::new();
            list.push(s.clone());
            assert(list.deep_view() =~= string_or_list_view(*v));
            Ok(list)
        },
        JsonValue::Arr(items) => {
            let n = items.len();
            let mut list: Vec<String> = Vec::new();
            let mut i: usize = 0;
            while i < n
                invariant
                    i <= n,
                    n == items@.len(),
                    *v == JsonValue::Arr(*items),
                    list@.len() == i,
                    forall|j: int| 0 <= j < i ==> items@[j] is Str,
                    forall|j: int| 0 <= j < i ==> list@[j]@ == as_str_view(items@[j]),
                decreases n - i,
            {
                match &items[i] {
                    JsonValue::Str(s) => {
                        list.push(s.clone());
                    },
                    _ => {
                        assert(!(items@[i as int] is Str));
                        return Err(DecodeError::WrongType(what.to_owned()));
                    },
                }
                i += 1;
            }
            assert(list.deep_view() =~= string_or_list_view(*v));
            Ok(list)
        },
        _ => Err(DecodeError::WrongType(what.to_owned())),
    }
}

// ---------------------------------------------------------------------------
// The effect
// ---------------------------------------------------------------------------

/// An effect value: exactly the string `"Allow"` or `"Deny"`.
pub open spec fn effect_ok(v: JsonValue) -> bool {
    match v {
        JsonValue::Str(s) => s@ == "Allow"@ || s@ == "Deny"@,
        _ => false,
    }
}

/// The effect an effect value stands for.
pub open spec fn effect_view(v: JsonValue) -> Effect {
    if as_str_view(v) == "Allow"@ {
        Effect::Allow
    } else {
        Effect::Deny
    }
}

impl Effect {
    /// Decode an effect from its document form.
    pub fn from_json_value(v: &JsonValue) -> (r: Result<Effect, DecodeError>)
        ensures
            r is Ok <==> effect_ok(*v),
            r matches Ok(e) ==> e == effect_view(*v),
            r matches Err(e) ==> (e is UnknownVariant || e is WrongType),
            r matches Err(e) ==> (e matches DecodeError::UnknownVariant(s) ==> *v
                == JsonValue::Str(s)),
            r matches Err(e) ==> (e matches DecodeError::WrongType(_) ==> !(*v is Str)),
    {
        match v {
            JsonValue::Str(s) => {
                if str_eq(s.as_str(), "Allow") {
                    Ok(Effect::Allow)
                } else if str_eq(s.as_str(), "Deny") {
                    proof {
                        reveal_strlit("Allow");
                        reveal_strlit("Deny");
                        assert("Allow"@.len() == 5);
                        assert("Deny"@.len() == 4);
                    }
                    Ok(Effect::Deny)
                } else {
                    Err(DecodeError::UnknownVariant(s.clone()))
                }
            },
            _ => Err(DecodeError::WrongType("Effect".to_owned())),
        }
    }

    /// Encode an effect into its document form.
    pub fn to_json_value(&self) -> (r: JsonValue)
        ensures
            effect_ok(r),
            effect_view(r) == *self,
    {
        match self {
            Effect::Allow => JsonValue::Str(String::from_str("Allow")),
            Effect::Deny => {
                proof {
                    reveal_strlit("Allow");
                    reveal_strlit("Deny");
                    assert("Allow"@.len() == 5);
                    assert("Deny"@.len() == 4);
                }
                JsonValue::Str(String::from_str("Deny"))
            },
        }
    }
}


// ---------------------------------------------------------------------------
// Principals
// ---------------------------------------------------------------------------

/// A strict list of strings: the normalized view.
pub open spec fn string_list_view(v: JsonValue) -> Seq<Seq<char>> {
    match v {
        JsonValue::Arr(items) => items@.map_values(|x: JsonValue| as_str_view(x)),
        _ => Seq::empty(),
    }
}

/// A key a principal map may use.
pub open spec fn principal_key_ok(k: Seq<char>) -> bool {
    k == "AWS"@ || k == "Federated"@ || k == "CanonicalUser"@ || k == "Service"@
}

/// Every key of a principal map names a principal type and every value
/// is a string or list of strings.
pub open spec fn principal_fields_ok(fields: Seq<(String, JsonValue)>) -> bool {
    forall|i: int|
        0 <= i < fields.len() ==> principal_key_ok(#[trigger] fields[i].0@) && string_or_list_ok(
            fields[i].1,
        )
}

/// A well-shaped principal map.
pub open spec fn principal_map_ok(v: JsonValue) -> bool {
    match v {
        JsonValue::Obj(fields) => principal_fields_ok(fields@),
        _ => false,
    }
}

/// One principal map field decodes to this entry.
pub open spec fn principal_entry_matches(k: Seq<char>, v: JsonValue, e: PrincipalMapEntry) -> bool {
    if k == "AWS"@ {
        e matches PrincipalMapEntry::AWS(l) && l.deep_view() == string_or_list_view(v)
    } else if k == "Federated"@ {
        e matches PrincipalMapEntry::Federated(l) && l.deep_view() == string_or_list_view(v)
    } else if k == "CanonicalUser"@ {
        e matches PrincipalMapEntry::CanonicalUser(l) && l.deep_view() == string_or_list_view(v)
    } else if k == "Service"@ {
        e matches PrincipalMapEntry::Service(l) && l.deep_view() == string_or_list_view(v)
    } else {
        false
    }
}

/// A principal map's fields decode, in order, to these entries.
pub open spec fn principal_entries_match(
    fields: Seq<(String, JsonValue)>,
    es: Seq<PrincipalMapEntry>,
) -> bool {
    es.len() == fields.len() && forall|i: int|
        0 <= i < fields.len() ==> principal_entry_matches(
            #[trigger] fields[i].0@,
            fields[i].1,
            es[i],
        )
}

/// How a statement's principal clause relates to its document fields.
/// The clause is provisional in the grammar: an ill-shaped `Principal`
/// or `NotPrincipal` value is read as an absent clause, not an error.
pub open spec fn principal_clause_matches(
    fields: Seq<(String, JsonValue)>,
    p: Option<PrincipalOrNot>,
) -> bool {
    if has_field(fields, "Principal"@) && principal_map_ok(field_value(fields, "Principal"@)) {
        match field_value(fields, "Principal"@) {
            JsonValue::Obj(pf) => p matches Some(q) && q matches PrincipalOrNot::Principal(es)
                && principal_entries_match(pf@, es@),
            _ => false,
        }
    } else if has_field(fields, "NotPrincipal"@) && string_list_ok(
        field_value(fields, "NotPrincipal"@),
    ) {
        p matches Some(q) && q matches PrincipalOrNot::NotPrincipal(l) && l.deep_view()
            == string_list_view(field_value(fields, "NotPrincipal"@))
    } else {
        p is None
    }
}

/// Decode a principal map leniently: `None` when the value is not a
/// well-shaped principal map.
fn try_decode_principal_entries(v: &JsonValue) -> (r: Option<Vec<PrincipalMapEntry>>)
    ensures
        r is Some <==> principal_map_ok(*v),
        r matches Some(es) ==> (*v matches JsonValue::Obj(fs) && principal_entries_match(
            fs@,
            es@,
        )),
{
    match v {
        JsonValue::Obj(fields) => {
            let n = fields.len();
            let mut es: Vec<PrincipalMapEntry> = Vec::new();
            let mut i: usize = 0;
            while i < n
                invariant
                    i <= n,
                    n == fields@.len(),
                    *v == JsonValue::Obj(*fields),
                    es@.len() == i,
                    forall|j: int| #![trigger fields@[j]]
                        0 <= j < i ==> principal_key_ok(fields@[j].0@)
                            && string_or_list_ok(fields@[j].1),
                    forall|j: int| #![trigger fields@[j]]
                        0 <= j < i ==> principal_entry_matches(
                            fields@[j].0@,
                            fields@[j].1,
                            es@[j],
                        ),
                decreases n - i,
            {
                let key = fields[i].0.as_str();
                let value = &fields[i].1;
                if str_eq(key, "AWS") {
                    match decode_string_or_list(value, "AWS") {
                        Ok(l) => es.push(PrincipalMapEntry::AWS(l)),
                        Err(_) => {
                            assert(!(principal_key_ok(fields@[i as int].0@)
                                && string_or_list_ok(fields@[i as int].1)));
                            assert(!principal_fields_ok(fields@));
                            return None;
                        },
                    }
                } else if str_eq(key, "Federated") {
                    match decode_string_or_list(value, "Federated") {
                        Ok(l) => es.push(PrincipalMapEntry::Federated(l)),
                        Err(_) => {
                            assert(!(principal_key_ok(fields@[i as int].0@)
                                && string_or_list_ok(fields@[i as int].1)));
                            assert(!principal_fields_ok(fields@));
                            return None;
                        },
                    }
                } else if str_eq(key, "CanonicalUser") {
                    match decode_string_or_list(value, "CanonicalUser") {
                        Ok(l) => es.push(PrincipalMapEntry::CanonicalUser(l)),
                        Err(_) => {
                            assert(!(principal_key_ok(fields@[i as int].0@)
                                && string_or_list_ok(fields@[i as int].1)));
                            assert(!principal_fields_ok(fields@));
                            return None;
                        },
                    }
                } else if str_eq(key, "Service") {
                    match decode_string_or_list(value, "Service") {
                        Ok(l) => es.push(PrincipalMapEntry::Service(l)),
                        Err(_) => {
                            assert(!(principal_key_ok(fields@[i as int].0@)
                                && string_or_list_ok(fields@[i as int].1)));
                            assert(!principal_fields_ok(fields@));
                            return None;
                        },
                    }
                } else {
                    assert(!principal_key_ok(fields@[i as int].0@));
                    assert(!principal_fields_ok(fields@));
                    return None;
                }
                assert(principal_key_ok(fields@[i as int].0@));
                assert(string_or_list_ok(fields@[i as int].1));
                assert(principal_entry_matches(
                    fields@[i as int].0@,
                    fields@[i as int].1,
                    es@[i as int],
                ));
                i += 1;
            }
            Some(es)
        },
        _ => None,
    }
}

/// Decode a strict list of strings leniently: `None` when the value is
/// not one.
fn try_decode_string_list(v: &JsonValue) -> (r: Option<Vec<String>>)
    ensures
        r is Some <==> string_list_ok(*v),
        r matches Some(l) ==> l.deep_view() == string_list_view(*v),
{
    match v {
        JsonValue::Arr(_) => {
            match decode_string_or_list(v, "list") {
                Ok(l) => {
                    assert(l.deep_view() == string_or_list_view(*v));
                    assert(string_or_list_view(*v) == string_list_view(*v));
                    Some(l)
                },
                Err(_) => None,
            }
        },
        _ => None,
    }
}



// ---------------------------------------------------------------------------
// Statements
// ---------------------------------------------------------------------------

/// A field name a statement object may use.
pub open spec fn statement_key_ok(k: Seq<char>) -> bool {
    ||| k == "Sid"@
    ||| k == "Effect"@
    ||| k == "Resource"@
    ||| k == "Action"@
    ||| k == "Principal"@
    ||| k == "NotPrincipal"@
}

/// A well-shaped statement object: known fields only, each at most once,
/// at most one principal clause, `Effect`, `Resource` and `Action`
/// present and well-typed, and at least one action pattern.
pub open spec fn statement_fields_ok(fields: Seq<(String, JsonValue)>) -> bool {
    &&& keys_distinct(fields)
    &&& forall|i: int| 0 <= i < fields.len() ==> statement_key_ok(#[trigger] fields[i].0@)
    &&& !(has_field(fields, "Principal"@) && has_field(fields, "NotPrincipal"@))
    &&& (has_field(fields, "Sid"@) ==> field_value(fields, "Sid"@) is Str)
    &&& has_field(fields, "Effect"@)
    &&& effect_ok(field_value(fields, "Effect"@))
    &&& has_field(fields, "Resource"@)
    &&& string_or_list_ok(field_value(fields, "Resource"@))
    &&& has_field(fields, "Action"@)
    &&& string_or_list_ok(field_value(fields, "Action"@))
    &&& string_or_list_view(field_value(fields, "Action"@)).len() >= 1
}

/// A well-shaped statement value.
pub open spec fn statement_ok(v: JsonValue) -> bool {
    match v {
        JsonValue::Obj(fields) => statement_fields_ok(fields@),
        _ => false,
    }
}

/// The statement `st` carries exactly the content of these fields.
pub open spec fn statement_matches_fields(
    fields: Seq<(String, JsonValue)>,
    st: Statement,
) -> bool {
    &&& (match st.sid {
        Some(s) => has_field(fields, "Sid"@) && s@ == as_str_view(field_value(fields, "Sid"@)),
        None => !has_field(fields, "Sid"@),
    })
    &&& st.effect == effect_view(field_value(fields, "Effect"@))
    &&& st.resource.deep_view() == string_or_list_view(field_value(fields, "Resource"@))
    &&& st.action.deep_view() == string_or_list_view(field_value(fields, "Action"@))
    &&& principal_clause_matches(fields, st.principal)
}

/// The document value `v` decodes to the statement `st`.
pub open spec fn statement_decodes_to(v: JsonValue, st: Statement) -> bool {
    match v {
        JsonValue::Obj(fields) => statement_matches_fields(fields@, st),
        _ => false,
    }
}

impl Statement {
    /// Decode one statement from its document form. Unknown fields are
    /// rejected; `Resource` and `Action` normalize a bare string into a
    /// one-element list; the action list must not be empty; the principal
    /// clause is read leniently (an ill-shaped one counts as absent).
    pub fn from_json_value(v: &JsonValue) -> (r: Result<Statement, DecodeError>)
        ensures
            r is Ok <==> statement_ok(*v),
            r matches Ok(st) ==> statement_decodes_to(*v, st) && st.action@.len() >= 1,
            r matches Err(e) ==> (e matches DecodeError::UnknownField(f)
                ==> !statement_key_ok(f@)),
            r matches Err(e) ==> (e matches DecodeError::MissingField(f) ==> (*v matches
                JsonValue::Obj(fs) && !has_field(fs@, f@))),
            r matches Err(e) ==> (e matches DecodeError::EmptyList(_) ==> (*v matches
                JsonValue::Obj(fs) && string_or_list_view(
                field_value(fs@, "Action"@),
            ).len() == 0)),
            r matches Err(e) ==> (e matches DecodeError::DuplicateField(_) ==> (*v matches
                JsonValue::Obj(fs) && (!keys_distinct(fs@) || (has_field(fs@, "Principal"@)
                && has_field(fs@, "NotPrincipal"@))))),
    {
        let fields = match v {
            JsonValue::Obj(fields) => fields,
            _ => {
                return Err(DecodeError::WrongType("Statement".to_owned()));
            },
        };
        let n = fields.len();
        let mut sid_at: Option<usize> = None;
        let mut effect_at: Option<usize> = None;
        let mut resource_at: Option<usize> = None;
        let mut action_at: Option<usize> = None;
        let mut principal_at: Option<usize> = None;
        let mut not_principal_at: Option<usize> = None;
        let mut i: usize = 0;
        while i < n
            invariant
                i <= n,
                n == fields@.len(),
                *v == JsonValue::Obj(*fields),
                tracks(fields@, i as int, "Sid"@, sid_at),
                tracks(fields@, i as int, "Effect"@, effect_at),
                tracks(fields@, i as int, "Resource"@, resource_at),
                tracks(fields@, i as int, "Action"@, action_at),
                tracks(fields@, i as int, "Principal"@, principal_at),
                tracks(fields@, i as int, "NotPrincipal"@, not_principal_at),
                forall|j: int| #![trigger fields@[j]]
                    0 <= j < i ==> statement_key_ok(fields@[j].0@),
            decreases n - i,
        {
            proof {
                lemma_statement_keys_pairwise();
            }
            let key = fields[i].0.as_str();
            if str_eq(key, "Sid") {
                if sid_at.is_some() {
                    proof {
                        lemma_duplicate_key(fields@, i as int, "Sid"@, sid_at);
                    }
                    return Err(DecodeError::DuplicateField("Sid".to_owned()));
                }
                sid_at = Some(i);
            } else if str_eq(key, "Effect") {
                if effect_at.is_some() {
                    proof {
                        lemma_duplicate_key(fields@, i as int, "Effect"@, effect_at);
                    }
                    return Err(DecodeError::DuplicateField("Effect".to_owned()));
                }
                effect_at = Some(i);
            } else if str_eq(key, "Resource") {
                if resource_at.is_some() {
                    proof {
                        lemma_duplicate_key(fields@, i as int, "Resource"@, resource_at);
                    }
                    return Err(DecodeError::DuplicateField("Resource".to_owned()));
                }
                resource_at = Some(i);
            } else if str_eq(key, "Action") {
                if action_at.is_some() {
                    proof {
                        lemma_duplicate_key(fields@, i as int, "Action"@, action_at);
                    }
                    return Err(DecodeError::DuplicateField("Action".to_owned()));
                }
                action_at = Some(i);
            } else if str_eq(key, "Principal") {
                if principal_at.is_some() {
                    proof {
                        lemma_duplicate_key(fields@, i as int, "Principal"@, principal_at);
                    }
                    return Err(DecodeError::DuplicateField("Principal".to_owned()));
                }
                principal_at = Some(i);
            } else if str_eq(key, "NotPrincipal") {
                if not_principal_at.is_some() {
                    proof {
                        lemma_duplicate_key(fields@, i as int, "NotPrincipal"@, not_principal_at);
                    }
                    return Err(DecodeError::DuplicateField("NotPrincipal".to_owned()));
                }
                not_principal_at = Some(i);
            } else {
                assert(!statement_key_ok(fields@[i as int].0@));
                return Err(DecodeError::UnknownField(fields[i].0.clone()));
            }
            i += 1;
        }
        assert(keys_distinct(fields@)) by {
            lemma_statement_tracks_distinct(
                fields@,
                sid_at,
                effect_at,
                resource_at,
                action_at,
                principal_at,
                not_principal_at,
            );
        }

        // Sid
        let sid: Option<String> = match sid_at {
            None => None,
            Some(x) => {
                proof {
                    lemma_field_value(fields@, "Sid"@, x as int);
                }
                match &fields[x].1 {
                    JsonValue::Str(s) => Some(s.clone()),
                    _ => {
                        return Err(DecodeError::WrongType("Sid".to_owned()));
                    },
                }
            },
        };

        // Effect
        let effect = match effect_at {
            None => {
                return Err(DecodeError::MissingField("Effect".to_owned()));
            },
            Some(x) => {
                proof {
                    lemma_field_value(fields@, "Effect"@, x as int);
                }
                match Effect::from_json_value(&fields[x].1) {
                    Ok(e) => e,
                    Err(e) => {
                        return Err(e);
                    },
                }
            },
        };

        // Resource
        let resource = match resource_at {
            None => {
                return Err(DecodeError::MissingField("Resource".to_owned()));
            },
            Some(x) => {
                proof {
                    lemma_field_value(fields@, "Resource"@, x as int);
                }
                match decode_string_or_list(&fields[x].1, "Resource") {
                    Ok(l) => l,
                    Err(e) => {
                        return Err(e);
                    },
                }
            },
        };

        // Action
        let action = match action_at {
            None => {
                return Err(DecodeError::MissingField("Action".to_owned()));
            },
            Some(x) => {
                proof {
                    lemma_field_value(fields@, "Action"@, x as int);
                }
                match decode_string_or_list(&fields[x].1, "Action") {
                    Ok(l) => l,
                    Err(e) => {
                        return Err(e);
                    },
                }
            },
        };
        if action.len() == 0 {
            assert(string_or_list_view(field_value(fields@, "Action"@)).len() == 0);
            return Err(DecodeError::EmptyList("Action".to_owned()));
        }
        assert(action.deep_view().len() == action@.len());

        // The principal clause, read leniently.
        let principal: Option<PrincipalOrNot> = match (principal_at, not_principal_at) {
            (Some(_), Some(_)) => {
                return Err(DecodeError::DuplicateField("Principal".to_owned()));
            },
            (Some(x), None) => {
                proof {
                    lemma_field_value(fields@, "Principal"@, x as int);
                }
                match try_decode_principal_entries(&fields[x].1) {
                    Some(es) => Some(PrincipalOrNot::Principal(es)),
                    None => None,
                }
            },
            (None, Some(x)) => {
                proof {
                    lemma_field_value(fields@, "NotPrincipal"@, x as int);
                }
                match try_decode_string_list(&fields[x].1) {
                    Some(l) => Some(PrincipalOrNot::NotPrincipal(l)),
                    None => None,
                }
            },
            (None, None) => None,
        };

        let st = Statement { sid, principal, effect, resource, action };
        assert(statement_fields_ok(fields@));
        assert(statement_matches_fields(fields@, st));
        Ok(st)
    }
}


/// The six statement field names are pairwise distinct.
proof fn lemma_statement_keys_pairwise()
    ensures
        "Sid"@ != "Effect"@,
        "Sid"@ != "Resource"@,
        "Sid"@ != "Action"@,
        "Sid"@ != "Principal"@,
        "Sid"@ != "NotPrincipal"@,
        "Effect"@ != "Resource"@,
        "Effect"@ != "Action"@,
        "Effect"@ != "Principal"@,
        "Effect"@ != "NotPrincipal"@,
        "Resource"@ != "Action"@,
        "Resource"@ != "Principal"@,
        "Resource"@ != "NotPrincipal"@,
        "Action"@ != "Principal"@,
        "Action"@ != "NotPrincipal"@,
        "Principal"@ != "NotPrincipal"@,
{
    reveal_strlit("Sid");
    reveal_strlit("Effect");
    reveal_strlit("Resource");
    reveal_strlit("Action");
    reveal_strlit("Principal");
    reveal_strlit("NotPrincipal");
    assert("Sid"@.len() == 3);
    assert("Effect"@.len() == 6);
    assert("Resource"@.len() == 8);
    assert("Action"@.len() == 6);
    assert("Principal"@.len() == 9);
    assert("NotPrincipal"@.len() == 12);
    assert("Effect"@[0] == 'E');
    assert("Action"@[0] == 'A');
}

/// A second occurrence of a tracked key refutes key distinctness.
proof fn lemma_duplicate_key(
    fields: Seq<(String, JsonValue)>,
    i: int,
    name: Seq<char>,
    idx: Option<usize>,
)
    requires
        tracks(fields, i, name, idx),
        idx is Some,
        0 <= i < fields.len(),
        fields[i].0@ == name,
    ensures
        !keys_distinct(fields),
{
    let x = idx->0;
    assert(fields[x as int].0@ == fields[i].0@);
}

/// All statement keys are known and each was seen at most once, so the
/// keys are distinct.
proof fn lemma_statement_tracks_distinct(
    fields: Seq<(String, JsonValue)>,
    sid_at: Option<usize>,
    effect_at: Option<usize>,
    resource_at: Option<usize>,
    action_at: Option<usize>,
    principal_at: Option<usize>,
    not_principal_at: Option<usize>,
)
    requires
        tracks(fields, fields.len() as int, "Sid"@, sid_at),
        tracks(fields, fields.len() as int, "Effect"@, effect_at),
        tracks(fields, fields.len() as int, "Resource"@, resource_at),
        tracks(fields, fields.len() as int, "Action"@, action_at),
        tracks(fields, fields.len() as int, "Principal"@, principal_at),
        tracks(fields, fields.len() as int, "NotPrincipal"@, not_principal_at),
        forall|j: int| #![trigger fields[j]] 0 <= j < fields.len() ==> statement_key_ok(
            fields[j].0@,
        ),
    ensures
        keys_distinct(fields),
{
    assert forall|a: int, b: int| 0 <= a < b < fields.len() implies fields[a].0@ != fields[b].0@
    by {
        if fields[a].0@ == fields[b].0@ {
            let k = fields[a].0@;
            assert(statement_key_ok(k));
            if k == "Sid"@ {
                assert(sid_at is Some && a == sid_at->0 && b == sid_at->0);
            } else if k == "Effect"@ {
                assert(effect_at is Some && a == effect_at->0 && b == effect_at->0);
            } else if k == "Resource"@ {
                assert(resource_at is Some && a == resource_at->0 && b == resource_at->0);
            } else if k == "Action"@ {
                assert(action_at is Some && a == action_at->0 && b == action_at->0);
            } else if k == "Principal"@ {
                assert(principal_at is Some && a == principal_at->0 && b == principal_at->0);
            } else {
                assert(not_principal_at is Some && a == not_principal_at->0 && b
                    == not_principal_at->0);
            }
        }
    }
}



// ---------------------------------------------------------------------------
// Policies
// ---------------------------------------------------------------------------

/// A field name a policy object may use.
pub open spec fn policy_key_ok(k: Seq<char>) -> bool {
    k == "Version"@ || k == "Id"@ || k == "Statement"@
}

/// A well-shaped policy object: known fields only, each at most once,
/// `Version` and `Id` strings when present, and a `Statement` list of
/// well-shaped statements.
pub open spec fn policy_fields_ok(fields: Seq<(String, JsonValue)>) -> bool {
    &&& keys_distinct(fields)
    &&& forall|i: int| 0 <= i < fields.len() ==> policy_key_ok(#[trigger] fields[i].0@)
    &&& (has_field(fields, "Version"@) ==> field_value(fields, "Version"@) is Str)
    &&& (has_field(fields, "Id"@) ==> field_value(fields, "Id"@) is Str)
    &&& has_field(fields, "Statement"@)
    &&& (match field_value(fields, "Statement"@) {
        JsonValue::Arr(items) => statements_ok(items@),
        _ => false,
    })
}

/// Every element is a well-shaped statement.
pub open spec fn statements_ok(items: Seq<JsonValue>) -> bool {
    forall|i: int| #![trigger items[i]] 0 <= i < items.len() ==> statement_ok(items[i])
}

/// The elements decode, in order, to these statements.
pub open spec fn statements_decode_to(items: Seq<JsonValue>, sts: Seq<Statement>) -> bool {
    sts.len() == items.len() && forall|i: int| #![trigger items[i]]
        0 <= i < items.len() ==> statement_decodes_to(items[i], sts[i])
}

/// A well-shaped policy value.
pub open spec fn policy_ok(v: JsonValue) -> bool {
    match v {
        JsonValue::Obj(fields) => policy_fields_ok(fields@),
        _ => false,
    }
}

/// The policy `p` carries exactly the content of these fields.
pub open spec fn policy_matches_fields(fields: Seq<(String, JsonValue)>, p: Policy) -> bool {
    &&& (match p.version {
        Some(s) => has_field(fields, "Version"@) && s@ == as_str_view(
            field_value(fields, "Version"@),
        ),
        None => !has_field(fields, "Version"@),
    })
    &&& (match p.id {
        Some(s) => has_field(fields, "Id"@) && s@ == as_str_view(field_value(fields, "Id"@)),
        None => !has_field(fields, "Id"@),
    })
    &&& (match field_value(fields, "Statement"@) {
        JsonValue::Arr(items) => statements_decode_to(items@, p.statement@),
        _ => false,
    })
}

/// The document value `v` decodes to the policy `p`.
pub open spec fn policy_decodes_to(v: JsonValue, p: Policy) -> bool {
    match v {
        JsonValue::Obj(fields) => policy_matches_fields(fields@, p),
        _ => false,
    }
}

/// The three policy field names are pairwise distinct.
proof fn lemma_policy_keys_pairwise()
    ensures
        "Version"@ != "Id"@,
        "Version"@ != "Statement"@,
        "Id"@ != "Statement"@,
{
    reveal_strlit("Version");
    reveal_strlit("Id");
    reveal_strlit("Statement");
    assert("Version"@.len() == 7);
    assert("Id"@.len() == 2);
    assert("Statement"@.len() == 9);
}

/// All policy keys are known and each was seen at most once, so the keys
/// are distinct.
proof fn lemma_policy_tracks_distinct(
    fields: Seq<(String, JsonValue)>,
    version_at: Option<usize>,
    id_at: Option<usize>,
    statement_at: Option<usize>,
)
    requires
        tracks(fields, fields.len() as int, "Version"@, version_at),
        tracks(fields, fields.len() as int, "Id"@, id_at),
        tracks(fields, fields.len() as int, "Statement"@, statement_at),
        forall|j: int| #![trigger fields[j]] 0 <= j < fields.len() ==> policy_key_ok(
            fields[j].0@,
        ),
    ensures
        keys_distinct(fields),
{
    assert forall|a: int, b: int| 0 <= a < b < fields.len() implies fields[a].0@ != fields[b].0@
    by {
        if fields[a].0@ == fields[b].0@ {
            let k = fields[a].0@;
            assert(policy_key_ok(k));
            if k == "Version"@ {
                assert(version_at is Some && a == version_at->0 && b == version_at->0);
            } else if k == "Id"@ {
                assert(id_at is Some && a == id_at->0 && b == id_at->0);
            } else {
                assert(statement_at is Some && a == statement_at->0 && b == statement_at->0);
            }
        }
    }
}

impl Policy {
    /// Decode a policy document. Unknown fields are rejected; the
    /// statements decode one by one, and the first statement error
    /// aborts the document.
    pub fn from_json_value(v: &JsonValue) -> (r: Result<Policy, DecodeError>)
        ensures
            r is Ok <==> policy_ok(*v),
            r matches Ok(p) ==> policy_decodes_to(*v, p),
    {
        let fields = match v {
            JsonValue::Obj(fields) => fields,
            _ => {
                return Err(DecodeError::WrongType("Policy".to_owned()));
            },
        };
        let n = fields.len();
        let mut version_at: Option<usize> = None;
        let mut id_at: Option<usize> = None;
        let mut statement_at: Option<usize> = None;
        let mut i: usize = 0;
        while i < n
            invariant
                i <= n,
                n == fields@.len(),
                *v == JsonValue::Obj(*fields),
                tracks(fields@, i as int, "Version"@, version_at),
                tracks(fields@, i as int, "Id"@, id_at),
                tracks(fields@, i as int, "Statement"@, statement_at),
                forall|j: int| #![trigger fields@[j]]
                    0 <= j < i ==> policy_key_ok(fields@[j].0@),
            decreases n - i,
        {
            proof {
                lemma_policy_keys_pairwise();
            }
            let key = fields[i].0.as_str();
            if str_eq(key, "Version") {
                if version_at.is_some() {
                    proof {
                        lemma_duplicate_key(fields@, i as int, "Version"@, version_at);
                    }
                    return Err(DecodeError::DuplicateField("Version".to_owned()));
                }
                version_at = Some(i);
            } else if str_eq(key, "Id") {
                if id_at.is_some() {
                    proof {
                        lemma_duplicate_key(fields@, i as int, "Id"@, id_at);
                    }
                    return Err(DecodeError::DuplicateField("Id".to_owned()));
                }
                id_at = Some(i);
            } else if str_eq(key, "Statement") {
                if statement_at.is_some() {
                    proof {
                        lemma_duplicate_key(fields@, i as int, "Statement"@, statement_at);
                    }
                    return Err(DecodeError::DuplicateField("Statement".to_owned()));
                }
                statement_at = Some(i);
            } else {
                assert(!policy_key_ok(fields@[i as int].0@));
                return Err(DecodeError::UnknownField(fields[i].0.clone()));
            }
            i += 1;
        }
        assert(keys_distinct(fields@)) by {
            lemma_policy_tracks_distinct(fields@, version_at, id_at, statement_at);
        }

        // Version
        let version: Option<String> = match version_at {
            None => None,
            Some(x) => {
                proof {
                    lemma_field_value(fields@, "Version"@, x as int);
                }
                match &fields[x].1 {
                    JsonValue::Str(s) => Some(s.clone()),
                    _ => {
                        return Err(DecodeError::WrongType("Version".to_owned()));
                    },
                }
            },
        };

        // Id
        let id: Option<String> = match id_at {
            None => None,
            Some(x) => {
                proof {
                    lemma_field_value(fields@, "Id"@, x as int);
                }
                match &fields[x].1 {
                    JsonValue::Str(s) => Some(s.clone()),
                    _ => {
                        return Err(DecodeError::WrongType("Id".to_owned()));
                    },
                }
            },
        };

        // Statement
        let statement: Vec<Statement> = match statement_at {
            None => {
                return Err(DecodeError::MissingField("Statement".to_owned()));
            },
            Some(x) => {
                proof {
                    lemma_field_value(fields@, "Statement"@, x as int);
                }
                let items = match &fields[x].1 {
                    JsonValue::Arr(items) => items,
                    _ => {
                        return Err(DecodeError::WrongType("Statement".to_owned()));
                    },
                };
                let m = items.len();
                let mut out: Vec<Statement> = Vec::new();
                let mut k: usize = 0;
                while k < m
                    invariant
                        k <= m,
                        m == items@.len(),
                        out@.len() == k,
                        field_value(fields@, "Statement"@) == JsonValue::Arr(*items),
                        *v == JsonValue::Obj(*fields),
                        keys_distinct(fields@),
                        forall|j: int| #![trigger fields@[j]]
                            0 <= j < fields@.len() ==> policy_key_ok(fields@[j].0@),
                        forall|j: int| #![trigger items@[j]]
                            0 <= j < k ==> statement_ok(items@[j]),
                        forall|j: int| #![trigger items@[j]]
                            0 <= j < k ==> statement_decodes_to(items@[j], out@[j]),
                    decreases m - k,
                {
                    match Statement::from_json_value(&items[k]) {
                        Ok(st) => out.push(st),
                        Err(e) => {
                            assert(!statement_ok(items@[k as int]));
                            assert(!statements_ok(items@));
                            return Err(e);
                        },
                    }
                    k += 1;
                }
                assert(statements_ok(items@));
                out
            },
        };

        let p = Policy { version, id, statement };
        assert(policy_fields_ok(fields@));
        assert(policy_matches_fields(fields@, p));
        Ok(p)
    }
}



// ---------------------------------------------------------------------------
// Encoding
// ---------------------------------------------------------------------------

/// Encode a list of strings in its normalized (always-list) form.
fn encode_string_list(list: &Vec<String>) -> (r: JsonValue)
    ensures
        string_or_list_ok(r),
        string_list_ok(r),
        string_or_list_view(r) == list.deep_view(),
        string_list_view(r) == list.deep_view(),
        r is Arr,
{
    let n = list.len();
    let mut items: Vec<JsonValue> = Vec::new();
    let mut i: usize = 0;
    while i < n
        invariant
            i <= n,
            n == list@.len(),
            items@.len() == i,
            forall|j: int| #![trigger items@[j]]
                0 <= j < i ==> items@[j] is Str && as_str_view(items@[j]) == list@[j]@,
        decreases n - i,
    {
        items.push(JsonValue::Str(list[i].clone()));
        i += 1;
    }
    let r = JsonValue::Arr(items);
    assert(string_or_list_view(r) =~= list.deep_view());
    assert(string_list_view(r) =~= list.deep_view());
    r
}

/// The four principal map keys are pairwise distinct.
proof fn lemma_principal_keys_pairwise()
    ensures
        "AWS"@ != "Federated"@,
        "AWS"@ != "CanonicalUser"@,
        "AWS"@ != "Service"@,
        "Federated"@ != "CanonicalUser"@,
        "Federated"@ != "Service"@,
        "CanonicalUser"@ != "Service"@,
{
    reveal_strlit("AWS");
    reveal_strlit("Federated");
    reveal_strlit("CanonicalUser");
    reveal_strlit("Service");
    assert("AWS"@.len() == 3);
    assert("Federated"@.len() == 9);
    assert("CanonicalUser"@.len() == 13);
    assert("Service"@.len() == 7);
}

/// Encode a principal map from its entries.
fn encode_principal_entries(es: &Vec<PrincipalMapEntry>) -> (r: JsonValue)
    ensures
        principal_map_ok(r),
        r matches JsonValue::Obj(fs) && principal_entries_match(fs@, es@),
{
    let n = es.len();
    let mut fields: Vec<(String, JsonValue)> = Vec::new();
    let mut i: usize = 0;
    while i < n
        invariant
            i <= n,
            n == es@.len(),
            fields@.len() == i,
            forall|j: int| #![trigger fields@[j]]
                0 <= j < i ==> principal_key_ok(fields@[j].0@) && string_or_list_ok(
                    fields@[j].1,
                ),
            forall|j: int| #![trigger fields@[j]]
                0 <= j < i ==> principal_entry_matches(fields@[j].0@, fields@[j].1, es@[j]),
        decreases n - i,
    {
        proof {
            lemma_principal_keys_pairwise();
        }
        match &es[i] {
            PrincipalMapEntry::AWS(l) => {
                fields.push(("AWS".to_owned(), encode_string_list(l)));
            },
            PrincipalMapEntry::Federated(l) => {
                fields.push(("Federated".to_owned(), encode_string_list(l)));
            },
            PrincipalMapEntry::CanonicalUser(l) => {
                fields.push(("CanonicalUser".to_owned(), encode_string_list(l)));
            },
            PrincipalMapEntry::Service(l) => {
                fields.push(("Service".to_owned(), encode_string_list(l)));
            },
        }
        assert(principal_entry_matches(
            fields@[i as int].0@,
            fields@[i as int].1,
            es@[i as int],
        ));
        i += 1;
    }
    JsonValue::Obj(fields)
}

impl Statement {
    /// Encode this statement in its normalized document form: `Resource`
    /// and `Action` always as lists, optional fields only when present.
    pub fn to_json_value(&self) -> (r: JsonValue)
        requires
            self.action@.len() >= 1,
        ensures
            statement_ok(r),
            statement_decodes_to(r, *self),
    {
        proof {
            lemma_statement_keys_pairwise();
        }
        let mut fields: Vec<(String, JsonValue)> = Vec::new();
        match &self.sid {
            Some(s) => {
                fields.push(("Sid".to_owned(), JsonValue::Str(s.clone())));
            },
            None => {},
        }
        let ghost after_sid = fields@;
        match &self.principal {
            Some(PrincipalOrNot::Principal(es)) => {
                fields.push(("Principal".to_owned(), encode_principal_entries(es)));
            },
            Some(PrincipalOrNot::NotPrincipal(l)) => {
                fields.push(("NotPrincipal".to_owned(), encode_string_list(l)));
            },
            None => {},
        }
        let ghost after_principal = fields@;
        fields.push(("Effect".to_owned(), self.effect.to_json_value()));
        fields.push(("Resource".to_owned(), encode_string_list(&self.resource)));
        fields.push(("Action".to_owned(), encode_string_list(&self.action)));
        let r = JsonValue::Obj(fields);
        proof {
            let fs = fields@;
            let n = fs.len() as int;
            assert(keys_distinct(fs));
            lemma_field_value(fs, "Effect"@, n - 3);
            lemma_field_value(fs, "Resource"@, n - 2);
            lemma_field_value(fs, "Action"@, n - 1);
            if self.sid is Some {
                lemma_field_value(fs, "Sid"@, 0);
            } else {
                assert(!has_field(fs, "Sid"@));
            }
            match &self.principal {
                Some(PrincipalOrNot::Principal(_)) => {
                    lemma_field_value(fs, "Principal"@, after_sid.len() as int);
                    assert(!has_field(fs, "NotPrincipal"@));
                },
                Some(PrincipalOrNot::NotPrincipal(_)) => {
                    lemma_field_value(fs, "NotPrincipal"@, after_sid.len() as int);
                    assert(!has_field(fs, "Principal"@));
                },
                None => {
                    assert(!has_field(fs, "Principal"@));
                    assert(!has_field(fs, "NotPrincipal"@));
                },
            }
            assert(statement_fields_ok(fs));
            assert(statement_matches_fields(fs, *self));
        }
        r
    }
}



impl Policy {
    /// Every statement carries at least one action pattern, as decoding
    /// guarantees.
    pub open spec fn spec_wf(&self) -> bool {
        forall|i: int| #![trigger self.statement@[i]]
            0 <= i < self.statement@.len() ==> self.statement@[i].action@.len() >= 1
    }

    /// Encode this policy in its normalized document form.
    pub fn to_json_value(&self) -> (r: JsonValue)
        requires
            self.spec_wf(),
        ensures
            policy_ok(r),
            policy_decodes_to(r, *self),
    {
        proof {
            lemma_policy_keys_pairwise();
        }
        let mut fields: Vec<(String, JsonValue)> = Vec::new();
        match &self.version {
            Some(s) => {
                fields.push(("Version".to_owned(), JsonValue::Str(s.clone())));
            },
            None => {},
        }
        let ghost after_version = fields@;
        match &self.id {
            Some(s) => {
                fields.push(("Id".to_owned(), JsonValue::Str(s.clone())));
            },
            None => {},
        }
        let ghost after_id = fields@;

        let n = self.statement.len();
        let mut items: Vec<JsonValue> = Vec::new();
        let mut i: usize = 0;
        while i < n
            invariant
                i <= n,
                n == self.statement@.len(),
                self.spec_wf(),
                items@.len() == i,
                forall|j: int| #![trigger items@[j]] 0 <= j < i ==> statement_ok(items@[j]),
                forall|j: int| #![trigger items@[j]]
                    0 <= j < i ==> statement_decodes_to(items@[j], self.statement@[j]),
            decreases n - i,
        {
            items.push(self.statement[i].to_json_value());
            i += 1;
        }
        assert(statements_ok(items@));
        assert(statements_decode_to(items@, self.statement@));
        fields.push(("Statement".to_owned(), JsonValue::Arr(items)));

        let r = JsonValue::Obj(fields);
        proof {
            let fs = fields@;
            let m = fs.len() as int;
            assert(keys_distinct(fs));
            lemma_field_value(fs, "Statement"@, m - 1);
            if self.version is Some {
                lemma_field_value(fs, "Version"@, 0);
            } else {
                assert(!has_field(fs, "Version"@));
            }
            if self.id is Some {
                lemma_field_value(fs, "Id"@, after_version.len() as int);
            } else {
                assert(!has_field(fs, "Id"@));
            }
            assert(policy_fields_ok(fs));
            assert(policy_matches_fields(fs, *self));
        }
        r
    }
}

// ---------------------------------------------------------------------------
// Round-trip laws
// ---------------------------------------------------------------------------

/// Two optional strings with the same characters.
pub open spec fn opt_string_view_eq(a: Option<String>, b: Option<String>) -> bool {
    match (a, b) {
        (Some(x), Some(y)) => x@ == y@,
        (None, None) => true,
        _ => false,
    }
}

/// Two principal map entries of the same type with the same strings.
pub open spec fn entry_view_eq(a: PrincipalMapEntry, b: PrincipalMapEntry) -> bool {
    match (a, b) {
        (PrincipalMapEntry::AWS(x), PrincipalMapEntry::AWS(y)) => x.deep_view() == y.deep_view(),
        (PrincipalMapEntry::Federated(x), PrincipalMapEntry::Federated(y)) => x.deep_view()
            == y.deep_view(),
        (PrincipalMapEntry::CanonicalUser(x), PrincipalMapEntry::CanonicalUser(y)) => x.deep_view()
            == y.deep_view(),
        (PrincipalMapEntry::Service(x), PrincipalMapEntry::Service(y)) => x.deep_view()
            == y.deep_view(),
        _ => false,
    }
}

/// Two principal clauses with the same content.
pub open spec fn principal_view_eq(a: Option<PrincipalOrNot>, b: Option<PrincipalOrNot>) -> bool {
    match (a, b) {
        (None, None) => true,
        (Some(PrincipalOrNot::Principal(x)), Some(PrincipalOrNot::Principal(y))) => x@.len()
            == y@.len() && forall|i: int| 0 <= i < x@.len() ==> entry_view_eq(
            #[trigger] x@[i],
            y@[i],
        ),
        (Some(PrincipalOrNot::NotPrincipal(x)), Some(PrincipalOrNot::NotPrincipal(y))) => x
            .deep_view() == y.deep_view(),
        _ => false,
    }
}

/// Two statements with the same content: same id, effect, resources,
/// actions, and principal clause.
pub open spec fn statement_view_eq(a: Statement, b: Statement) -> bool {
    &&& opt_string_view_eq(a.sid, b.sid)
    &&& a.effect == b.effect
    &&& a.resource.deep_view() == b.resource.deep_view()
    &&& a.action.deep_view() == b.action.deep_view()
    &&& principal_view_eq(a.principal, b.principal)
}

/// Two policies with the same content: same version, id, statement
/// count, and statement contents.
pub open spec fn policy_view_eq(a: Policy, b: Policy) -> bool {
    &&& opt_string_view_eq(a.version, b.version)
    &&& opt_string_view_eq(a.id, b.id)
    &&& a.statement@.len() == b.statement@.len()
    &&& forall|i: int| 0 <= i < a.statement@.len() ==> statement_view_eq(
        #[trigger] a.statement@[i],
        b.statement@[i],
    )
}

/// One document's principal map determines its entries' content.
proof fn lemma_entries_deterministic(
    fields: Seq<(String, JsonValue)>,
    x: Seq<PrincipalMapEntry>,
    y: Seq<PrincipalMapEntry>,
)
    requires
        principal_entries_match(fields, x),
        principal_entries_match(fields, y),
    ensures
        x.len() == y.len(),
        forall|i: int| 0 <= i < x.len() ==> entry_view_eq(#[trigger] x[i], y[i]),
{
    assert forall|i: int| 0 <= i < x.len() implies entry_view_eq(#[trigger] x[i], y[i]) by {
        assert(principal_entry_matches(fields[i].0@, fields[i].1, x[i]));
        assert(principal_entry_matches(fields[i].0@, fields[i].1, y[i]));
    }
}

/// One statement document determines the decoded statement's content.
pub proof fn lemma_statement_decode_deterministic(v: JsonValue, a: Statement, b: Statement)
    requires
        statement_decodes_to(v, a),
        statement_decodes_to(v, b),
    ensures
        statement_view_eq(a, b),
{
    let fields = v->Obj_0@;
    assert(principal_clause_matches(fields, a.principal));
    assert(principal_clause_matches(fields, b.principal));
    if has_field(fields, "Principal"@) && principal_map_ok(field_value(fields, "Principal"@)) {
        let pf = field_value(fields, "Principal"@)->Obj_0;
        let x = a.principal->0->Principal_0;
        let y = b.principal->0->Principal_0;
        lemma_entries_deterministic(pf@, x@, y@);
    }
}

/// Round trip: one policy document determines the decoded policy's
/// content. In particular, a document obtained by re-encoding a decoded
/// policy decodes back to a policy with the same version, id, statement
/// count, and per-statement effect, actions, resources, and principal
/// clause.
pub proof fn lemma_policy_round_trip(w: JsonValue, p: Policy, q: Policy)
    requires
        policy_decodes_to(w, p),
        policy_decodes_to(w, q),
    ensures
        policy_view_eq(p, q),
{
    let fields = w->Obj_0@;
    let items = field_value(fields, "Statement"@)->Arr_0@;
    assert(statements_decode_to(items, p.statement@));
    assert(statements_decode_to(items, q.statement@));
    assert forall|i: int| 0 <= i < p.statement@.len() implies statement_view_eq(
        #[trigger] p.statement@[i],
        q.statement@[i],
    ) by {
        assert(statement_decodes_to(items[i], p.statement@[i]));
        assert(statement_decodes_to(items[i], q.statement@[i]));
        lemma_statement_decode_deterministic(items[i], p.statement@[i], q.statement@[i]);
    }
}



// ---------------------------------------------------------------------------
// Requests
// ---------------------------------------------------------------------------

/// A field name a request object may use.
pub open spec fn request_key_ok(k: Seq<char>) -> bool {
    k == "Action"@ || k == "Principal"@
}

/// A well-shaped request principal: an object with the single field
/// `ARN` holding a string.
pub open spec fn principal_value_ok(v: JsonValue) -> bool {
    match v {
        JsonValue::Obj(fs) => fs@.len() == 1 && fs@[0].0@ == "ARN"@ && fs@[0].1 is Str,
        _ => false,
    }
}

/// A well-shaped request object.
pub open spec fn request_fields_ok(fields: Seq<(String, JsonValue)>) -> bool {
    &&& keys_distinct(fields)
    &&& forall|i: int| 0 <= i < fields.len() ==> request_key_ok(#[trigger] fields[i].0@)
    &&& has_field(fields, "Action"@)
    &&& field_value(fields, "Action"@) is Str
    &&& (has_field(fields, "Principal"@) ==> principal_value_ok(
        field_value(fields, "Principal"@),
    ))
}

/// A well-shaped request value.
pub open spec fn request_ok(v: JsonValue) -> bool {
    match v {
        JsonValue::Obj(fields) => request_fields_ok(fields@),
        _ => false,
    }
}

/// The document value `v` decodes to the request `r`.
pub open spec fn request_decodes_to(v: JsonValue, r: Request) -> bool {
    match v {
        JsonValue::Obj(fields) => {
            &&& r.action@ == as_str_view(field_value(fields@, "Action"@))
            &&& (match r.principal {
                Some(p) => has_field(fields@, "Principal"@) && (p matches Principal::ARN(s)
                    && s@ == as_str_view(field_value(fields@, "Principal"@)->Obj_0@[0].1)),
                None => !has_field(fields@, "Principal"@),
            })
        },
        _ => false,
    }
}

proof fn lemma_request_keys_pairwise()
    ensures
        "Action"@ != "Principal"@,
{
    reveal_strlit("Action");
    reveal_strlit("Principal");
    assert("Action"@.len() == 6);
    assert("Principal"@.len() == 9);
}

impl Request {
    /// Decode a request: a required `Action` string and an optional
    /// `Principal` identified by an ARN. Unknown fields are rejected.
    pub fn from_json_value(v: &JsonValue) -> (r: Result<Request, DecodeError>)
        ensures
            r is Ok <==> request_ok(*v),
            r matches Ok(req) ==> request_decodes_to(*v, req),
            r matches Err(e) ==> (e matches DecodeError::UnknownField(f) ==> !request_key_ok(
                f@,
            )),
    {
        let fields = match v {
            JsonValue::Obj(fields) => fields,
            _ => {
                return Err(DecodeError::WrongType("Request".to_owned()));
            },
        };
        let n = fields.len();
        let mut action_at: Option<usize> = None;
        let mut principal_at: Option<usize> = None;
        let mut i: usize = 0;
        while i < n
            invariant
                i <= n,
                n == fields@.len(),
                *v == JsonValue::Obj(*fields),
                tracks(fields@, i as int, "Action"@, action_at),
                tracks(fields@, i as int, "Principal"@, principal_at),
                forall|j: int| #![trigger fields@[j]]
                    0 <= j < i ==> request_key_ok(fields@[j].0@),
            decreases n - i,
        {
            proof {
                lemma_request_keys_pairwise();
            }
            let key = fields[i].0.as_str();
            if str_eq(key, "Action") {
                if action_at.is_some() {
                    proof {
                        lemma_duplicate_key(fields@, i as int, "Action"@, action_at);
                    }
                    return Err(DecodeError::DuplicateField("Action".to_owned()));
                }
                action_at = Some(i);
            } else if str_eq(key, "Principal") {
                if principal_at.is_some() {
                    proof {
                        lemma_duplicate_key(fields@, i as int, "Principal"@, principal_at);
                    }
                    return Err(DecodeError::DuplicateField("Principal".to_owned()));
                }
                principal_at = Some(i);
            } else {
                assert(!request_key_ok(fields@[i as int].0@));
                return Err(DecodeError::UnknownField(fields[i].0.clone()));
            }
            i += 1;
        }
        assert(keys_distinct(fields@)) by {
            lemma_request_keys_pairwise();
            assert forall|a: int, b: int| 0 <= a < b < fields@.len() implies fields@[a].0@
                != fields@[b].0@ by {
                if fields@[a].0@ == fields@[b].0@ {
                    let k = fields@[a].0@;
                    assert(request_key_ok(k));
                    if k == "Action"@ {
                        assert(action_at is Some && a == action_at->0 && b == action_at->0);
                    } else {
                        assert(principal_at is Some && a == principal_at->0 && b
                            == principal_at->0);
                    }
                }
            }
        }

        let action: String = match action_at {
            None => {
                return Err(DecodeError::MissingField("Action".to_owned()));
            },
            Some(x) => {
                proof {
                    lemma_field_value(fields@, "Action"@, x as int);
                }
                match &fields[x].1 {
                    JsonValue::Str(s) => s.clone(),
                    _ => {
                        return Err(DecodeError::WrongType("Action".to_owned()));
                    },
                }
            },
        };

        let principal: Option<Principal> = match principal_at {
            None => None,
            Some(x) => {
                proof {
                    lemma_field_value(fields@, "Principal"@, x as int);
                }
                let pf = match &fields[x].1 {
                    JsonValue::Obj(pf) => pf,
                    _ => {
                        return Err(DecodeError::WrongType("Principal".to_owned()));
                    },
                };
                if pf.len() != 1 {
                    return Err(DecodeError::WrongType("Principal".to_owned()));
                }
                if !str_eq(pf[0].0.as_str(), "ARN") {
                    return Err(DecodeError::WrongType("Principal".to_owned()));
                }
                match &pf[0].1 {
                    JsonValue::Str(s) => Some(Principal::ARN(s.clone())),
                    _ => {
                        return Err(DecodeError::WrongType("Principal".to_owned()));
                    },
                }
            },
        };

        let req = Request { action, principal };
        assert(request_fields_ok(fields@));
        Ok(req)
    }
}



// ---------------------------------------------------------------------------
// Tags and users
// ---------------------------------------------------------------------------

/// A well-shaped tag object: exactly the string fields `Key` and
/// `Value`.
pub open spec fn tag_fields_ok(fields: Seq<(String, JsonValue)>) -> bool {
    &&& keys_distinct(fields)
    &&& forall|i: int| #![trigger fields[i]]
        0 <= i < fields.len() ==> (fields[i].0@ == "Key"@ || fields[i].0@ == "Value"@)
    &&& has_field(fields, "Key"@)
    &&& field_value(fields, "Key"@) is Str
    &&& has_field(fields, "Value"@)
    &&& field_value(fields, "Value"@) is Str
}

/// A well-shaped tag value.
pub open spec fn tag_ok(v: JsonValue) -> bool {
    match v {
        JsonValue::Obj(fields) => tag_fields_ok(fields@),
        _ => false,
    }
}

/// The document value `v` decodes to the tag `t`.
pub open spec fn tag_decodes_to(v: JsonValue, t: Tag) -> bool {
    match v {
        JsonValue::Obj(fields) => {
            &&& t.key@ == as_str_view(field_value(fields@, "Key"@))
            &&& t.value@ == as_str_view(field_value(fields@, "Value"@))
        },
        _ => false,
    }
}

proof fn lemma_tag_keys_pairwise()
    ensures
        "Key"@ != "Value"@,
{
    reveal_strlit("Key");
    reveal_strlit("Value");
    assert("Key"@.len() == 3);
    assert("Value"@.len() == 5);
}

impl Tag {
    /// Decode a key-value tag. Unknown fields are rejected.
    pub fn from_json_value(v: &JsonValue) -> (r: Result<Tag, DecodeError>)
        ensures
            r is Ok <==> tag_ok(*v),
            r matches Ok(t) ==> tag_decodes_to(*v, t),
    {
        let fields = match v {
            JsonValue::Obj(fields) => fields,
            _ => {
                return Err(DecodeError::WrongType("Tag".to_owned()));
            },
        };
        let n = fields.len();
        let mut key_at: Option<usize> = None;
        let mut value_at: Option<usize> = None;
        let mut i: usize = 0;
        while i < n
            invariant
                i <= n,
                n == fields@.len(),
                *v == JsonValue::Obj(*fields),
                tracks(fields@, i as int, "Key"@, key_at),
                tracks(fields@, i as int, "Value"@, value_at),
                forall|j: int| #![trigger fields@[j]]
                    0 <= j < i ==> (fields@[j].0@ == "Key"@ || fields@[j].0@ == "Value"@),
            decreases n - i,
        {
            proof {
                lemma_tag_keys_pairwise();
            }
            let key = fields[i].0.as_str();
            if str_eq(key, "Key") {
                if key_at.is_some() {
                    proof {
                        lemma_duplicate_key(fields@, i as int, "Key"@, key_at);
                    }
                    return Err(DecodeError::DuplicateField("Key".to_owned()));
                }
                key_at = Some(i);
            } else if str_eq(key, "Value") {
                if value_at.is_some() {
                    proof {
                        lemma_duplicate_key(fields@, i as int, "Value"@, value_at);
                    }
                    return Err(DecodeError::DuplicateField("Value".to_owned()));
                }
                value_at = Some(i);
            } else {
                return Err(DecodeError::UnknownField(fields[i].0.clone()));
            }
            i += 1;
        }
        assert(keys_distinct(fields@)) by {
            assert forall|a: int, b: int| 0 <= a < b < fields@.len() implies fields@[a].0@
                != fields@[b].0@ by {
                if fields@[a].0@ == fields@[b].0@ {
                    if fields@[a].0@ == "Key"@ {
                        assert(key_at is Some && a == key_at->0 && b == key_at->0);
                    } else {
                        assert(value_at is Some && a == value_at->0 && b == value_at->0);
                    }
                }
            }
        }

        let key_s: String = match key_at {
            None => {
                return Err(DecodeError::MissingField("Key".to_owned()));
            },
            Some(x) => {
                proof {
                    lemma_field_value(fields@, "Key"@, x as int);
                }
                match &fields[x].1 {
                    JsonValue::Str(s) => s.clone(),
                    _ => {
                        return Err(DecodeError::WrongType("Key".to_owned()));
                    },
                }
            },
        };
        let value_s: String = match value_at {
            None => {
                return Err(DecodeError::MissingField("Value".to_owned()));
            },
            Some(x) => {
                proof {
                    lemma_field_value(fields@, "Value"@, x as int);
                }
                match &fields[x].1 {
                    JsonValue::Str(s) => s.clone(),
                    _ => {
                        return Err(DecodeError::WrongType("Value".to_owned()));
                    },
                }
            },
        };
        let t = Tag { key: key_s, value: value_s };
        assert(tag_fields_ok(fields@));
        Ok(t)
    }
}

/// Every element is a well-shaped tag.
pub open spec fn tags_ok(items: Seq<JsonValue>) -> bool {
    forall|i: int| #![trigger items[i]] 0 <= i < items.len() ==> tag_ok(items[i])
}

/// The elements decode, in order, to these tags.
pub open spec fn tags_decode_to(items: Seq<JsonValue>, ts: Seq<Tag>) -> bool {
    ts.len() == items.len() && forall|i: int| #![trigger items[i]]
        0 <= i < items.len() ==> tag_decodes_to(items[i], ts[i])
}

/// A field name a user object may use.
pub open spec fn user_key_ok(k: Seq<char>) -> bool {
    ||| k == "UserName"@
    ||| k == "UserId"@
    ||| k == "Path"@
    ||| k == "Tags"@
    ||| k == "AttachedPolicies"@
}

/// A well-shaped user object: a required `UserName`, optional `UserId`
/// and `Path` strings, optional `Tags` and `AttachedPolicies` lists.
pub open spec fn user_fields_ok(fields: Seq<(String, JsonValue)>) -> bool {
    &&& keys_distinct(fields)
    &&& forall|i: int| 0 <= i < fields.len() ==> user_key_ok(#[trigger] fields[i].0@)
    &&& has_field(fields, "UserName"@)
    &&& field_value(fields, "UserName"@) is Str
    &&& (has_field(fields, "UserId"@) ==> field_value(fields, "UserId"@) is Str)
    &&& (has_field(fields, "Path"@) ==> field_value(fields, "Path"@) is Str)
    &&& (has_field(fields, "Tags"@) ==> (match field_value(fields, "Tags"@) {
        JsonValue::Arr(items) => tags_ok(items@),
        _ => false,
    }))
    &&& (has_field(fields, "AttachedPolicies"@) ==> string_list_ok(
        field_value(fields, "AttachedPolicies"@),
    ))
}

/// A well-shaped user value.
pub open spec fn user_ok(v: JsonValue) -> bool {
    match v {
        JsonValue::Obj(fields) => user_fields_ok(fields@),
        _ => false,
    }
}

/// The document value `v` decodes to the user `u`. An absent `Path`
/// defaults to `"/"`; absent lists default to empty.
pub open spec fn user_decodes_to(v: JsonValue, u: User) -> bool {
    match v {
        JsonValue::Obj(fields) => {
            &&& u.user_name@ == as_str_view(field_value(fields@, "UserName"@))
            &&& (match u.user_id {
                Some(s) => has_field(fields@, "UserId"@) && s@ == as_str_view(
                    field_value(fields@, "UserId"@),
                ),
                None => !has_field(fields@, "UserId"@),
            })
            &&& (if has_field(fields@, "Path"@) {
                u.path@ == as_str_view(field_value(fields@, "Path"@))
            } else {
                u.path@ == "/"@
            })
            &&& (if has_field(fields@, "Tags"@) {
                tags_decode_to(field_value(fields@, "Tags"@)->Arr_0@, u.tags@)
            } else {
                u.tags@.len() == 0
            })
            &&& (if has_field(fields@, "AttachedPolicies"@) {
                u.attached_policies.deep_view() == string_list_view(
                    field_value(fields@, "AttachedPolicies"@),
                )
            } else {
                u.attached_policies@.len() == 0
            })
        },
        _ => false,
    }
}

proof fn lemma_user_keys_pairwise()
    ensures
        "UserName"@ != "UserId"@,
        "UserName"@ != "Path"@,
        "UserName"@ != "Tags"@,
        "UserName"@ != "AttachedPolicies"@,
        "UserId"@ != "Path"@,
        "UserId"@ != "Tags"@,
        "UserId"@ != "AttachedPolicies"@,
        "Path"@ != "Tags"@,
        "Path"@ != "AttachedPolicies"@,
        "Tags"@ != "AttachedPolicies"@,
{
    reveal_strlit("UserName");
    reveal_strlit("UserId");
    reveal_strlit("Path");
    reveal_strlit("Tags");
    reveal_strlit("AttachedPolicies");
    assert("UserName"@.len() == 8);
    assert("UserId"@.len() == 6);
    assert("Path"@.len() == 4);
    assert("Tags"@.len() == 4);
    assert("AttachedPolicies"@.len() == 16);
    assert("Path"@[0] == 'P');
    assert("Tags"@[0] == 'T');
}

impl User {
    /// Decode a user. Unknown fields are rejected; an absent `Path`
    /// defaults to `"/"`, and absent `Tags` or `AttachedPolicies`
    /// default to empty lists.
    pub fn from_json_value(v: &JsonValue) -> (r: Result<User, DecodeError>)
        ensures
            r is Ok <==> user_ok(*v),
            r matches Ok(u) ==> user_decodes_to(*v, u),
    {
        let fields = match v {
            JsonValue::Obj(fields) => fields,
            _ => {
                return Err(DecodeError::WrongType("User".to_owned()));
            },
        };
        let n = fields.len();
        let mut name_at: Option<usize> = None;
        let mut id_at: Option<usize> = None;
        let mut path_at: Option<usize> = None;
        let mut tags_at: Option<usize> = None;
        let mut attached_at: Option<usize> = None;
        let mut i: usize = 0;
        while i < n
            invariant
                i <= n,
                n == fields@.len(),
                *v == JsonValue::Obj(*fields),
                tracks(fields@, i as int, "UserName"@, name_at),
                tracks(fields@, i as int, "UserId"@, id_at),
                tracks(fields@, i as int, "Path"@, path_at),
                tracks(fields@, i as int, "Tags"@, tags_at),
                tracks(fields@, i as int, "AttachedPolicies"@, attached_at),
                forall|j: int| #![trigger fields@[j]]
                    0 <= j < i ==> user_key_ok(fields@[j].0@),
            decreases n - i,
        {
            proof {
                lemma_user_keys_pairwise();
            }
            let key = fields[i].0.as_str();
            if str_eq(key, "UserName") {
                if name_at.is_some() {
                    proof {
                        lemma_duplicate_key(fields@, i as int, "UserName"@, name_at);
                    }
                    return Err(DecodeError::DuplicateField("UserName".to_owned()));
                }
                name_at = Some(i);
            } else if str_eq(key, "UserId") {
                if id_at.is_some() {
                    proof {
                        lemma_duplicate_key(fields@, i as int, "UserId"@, id_at);
                    }
                    return Err(DecodeError::DuplicateField("UserId".to_owned()));
                }
                id_at = Some(i);
            } else if str_eq(key, "Path") {
                if path_at.is_some() {
                    proof {
                        lemma_duplicate_key(fields@, i as int, "Path"@, path_at);
                    }
                    return Err(DecodeError::DuplicateField("Path".to_owned()));
                }
                path_at = Some(i);
            } else if str_eq(key, "Tags") {
                if tags_at.is_some() {
                    proof {
                        lemma_duplicate_key(fields@, i as int, "Tags"@, tags_at);
                    }
                    return Err(DecodeError::DuplicateField("Tags".to_owned()));
                }
                tags_at = Some(i);
            } else if str_eq(key, "AttachedPolicies") {
                if attached_at.is_some() {
                    proof {
                        lemma_duplicate_key(fields@, i as int, "AttachedPolicies"@, attached_at);
                    }
                    return Err(DecodeError::DuplicateField("AttachedPolicies".to_owned()));
                }
                attached_at = Some(i);
            } else {
                assert(!user_key_ok(fields@[i as int].0@));
                return Err(DecodeError::UnknownField(fields[i].0.clone()));
            }
            i += 1;
        }
        assert(keys_distinct(fields@)) by {
            lemma_user_keys_pairwise();
            assert forall|a: int, b: int| 0 <= a < b < fields@.len() implies fields@[a].0@
                != fields@[b].0@ by {
                if fields@[a].0@ == fields@[b].0@ {
                    let k = fields@[a].0@;
                    assert(user_key_ok(k));
                    if k == "UserName"@ {
                        assert(name_at is Some && a == name_at->0 && b == name_at->0);
                    } else if k == "UserId"@ {
                        assert(id_at is Some && a == id_at->0 && b == id_at->0);
                    } else if k == "Path"@ {
                        assert(path_at is Some && a == path_at->0 && b == path_at->0);
                    } else if k == "Tags"@ {
                        assert(tags_at is Some && a == tags_at->0 && b == tags_at->0);
                    } else {
                        assert(attached_at is Some && a == attached_at->0 && b
                            == attached_at->0);
                    }
                }
            }
        }

        let user_name: String = match name_at {
            None => {
                return Err(DecodeError::MissingField("UserName".to_owned()));
            },
            Some(x) => {
                proof {
                    lemma_field_value(fields@, "UserName"@, x as int);
                }
                match &fields[x].1 {
                    JsonValue::Str(s) => s.clone(),
                    _ => {
                        return Err(DecodeError::WrongType("UserName".to_owned()));
                    },
                }
            },
        };
        let user_id: Option<String> = match id_at {
            None => None,
            Some(x) => {
                proof {
                    lemma_field_value(fields@, "UserId"@, x as int);
                }
                match &fields[x].1 {
                    JsonValue::Str(s) => Some(s.clone()),
                    _ => {
                        return Err(DecodeError::WrongType("UserId".to_owned()));
                    },
                }
            },
        };
        let path: String = match path_at {
            None => String::from_str("/"),
            Some(x) => {
                proof {
                    lemma_field_value(fields@, "Path"@, x as int);
                }
                match &fields[x].1 {
                    JsonValue::Str(s) => s.clone(),
                    _ => {
                        return Err(DecodeError::WrongType("Path".to_owned()));
                    },
                }
            },
        };
        let tags: Vec<Tag> = match tags_at {
            None => Vec::new(),
            Some(x) => {
                proof {
                    lemma_field_value(fields@, "Tags"@, x as int);
                }
                let items = match &fields[x].1 {
                    JsonValue::Arr(items) => items,
                    _ => {
                        return Err(DecodeError::WrongType("Tags".to_owned()));
                    },
                };
                let m = items.len();
                let mut out: Vec<Tag> = Vec::new();
                let mut k: usize = 0;
                while k < m
                    invariant
                        k <= m,
                        m == items@.len(),
                        out@.len() == k,
                        field_value(fields@, "Tags"@) == JsonValue::Arr(*items),
                        *v == JsonValue::Obj(*fields),
                        has_field(fields@, "Tags"@),
                        forall|j: int| #![trigger items@[j]] 0 <= j < k ==> tag_ok(items@[j]),
                        forall|j: int| #![trigger items@[j]]
                            0 <= j < k ==> tag_decodes_to(items@[j], out@[j]),
                    decreases m - k,
                {
                    match Tag::from_json_value(&items[k]) {
                        Ok(tg) => out.push(tg),
                        Err(e) => {
                            assert(!tag_ok(items@[k as int]));
                            assert(!tags_ok(items@));
                            return Err(e);
                        },
                    }
                    k += 1;
                }
                assert(tags_ok(items@));
                assert(tags_decode_to(items@, out@));
                out
            },
        };
        let attached_policies: Vec<String> = match attached_at {
            None => Vec::new(),
            Some(x) => {
                proof {
                    lemma_field_value(fields@, "AttachedPolicies"@, x as int);
                }
                match &fields[x].1 {
                    JsonValue::Arr(_) => {
                        match decode_string_or_list(&fields[x].1, "AttachedPolicies") {
                            Ok(l) => {
                                assert(string_or_list_view(fields@[x as int].1)
                                    == string_list_view(fields@[x as int].1));
                                l
                            },
                            Err(e) => {
                                return Err(e);
                            },
                        }
                    },
                    _ => {
                        return Err(DecodeError::WrongType("AttachedPolicies".to_owned()));
                    },
                }
            },
        };

        let u = User { user_name, user_id, path, tags, attached_policies };
        assert(user_fields_ok(fields@));
        Ok(u)
    }
}


} // verus!
