//! The action pattern matcher: compiling and matching.

use iamthat::action::{ActionGlob, ParseError};

fn compiles(pattern: &str) -> ActionGlob {
    ActionGlob::compile(pattern).unwrap()
}

#[test]
fn star_matches_every_action() {
    let glob = compiles("*");
    assert!(glob.matches("s3:ListBuckets"));
    assert!(glob.matches("ec2:RunInstances"));
    assert!(glob.matches(""));
    assert!(glob.matches("no colon here"));
    assert!(glob.matches("a:b:c"));
}

#[test]
fn literal_matching_is_case_insensitive_and_exact() {
    let glob = compiles("S3:ListBuckets");
    assert!(glob.matches("s3:listbuckets"));
    let glob2 = compiles("s3:ListBuckets");
    assert!(!glob2.matches("s3:ListBucket"));
    assert!(glob2.matches("S3:LISTBUCKETS"));
    assert!(!glob2.matches("s3:ListBucketsX"));
}

#[test]
fn wildcards_expand_within_the_action_portion() {
    let glob = compiles("s3:*Bucket*");
    assert!(glob.matches("S3:ListBuckets"));
    assert!(glob.matches("s3:CreateBucket"));
    assert!(!glob.matches("ec2:ListBuckets"));
}

#[test]
fn wildcard_matches_zero_characters() {
    let glob = compiles("s3:Get*");
    assert!(glob.matches("s3:Get"));
    assert!(glob.matches("s3:GetObject"));
    assert!(!glob.matches("s3:PutObject"));
}

#[test]
fn service_wide_wildcard() {
    let glob = compiles("s3:*");
    assert!(glob.matches("s3:GetObject"));
    assert!(glob.matches("S3:anything"));
    assert!(!glob.matches("iam:GetUser"));
}

#[test]
fn pattern_without_colon_is_rejected() {
    assert_eq!(
        ActionGlob::compile("s3").unwrap_err(),
        ParseError::MissingSeparator
    );
}

#[test]
fn pattern_with_space_in_action_is_rejected() {
    assert_eq!(
        ActionGlob::compile("s3:Li st").unwrap_err(),
        ParseError::InvalidActionGlob
    );
}

#[test]
fn hyphen_in_service_is_rejected() {
    assert_eq!(
        ActionGlob::compile("bad-service:List").unwrap_err(),
        ParseError::InvalidService
    );
}

#[test]
fn empty_parts_are_rejected() {
    assert_eq!(
        ActionGlob::compile(":List").unwrap_err(),
        ParseError::InvalidService
    );
    assert_eq!(
        ActionGlob::compile("s3:").unwrap_err(),
        ParseError::InvalidActionGlob
    );
}

#[test]
fn star_in_service_is_rejected() {
    assert_eq!(
        ActionGlob::compile("*:List").unwrap_err(),
        ParseError::InvalidService
    );
}

#[test]
fn second_colon_is_rejected() {
    assert_eq!(
        ActionGlob::compile("s3:Get:Object").unwrap_err(),
        ParseError::InvalidActionGlob
    );
}
