use group_chat_core::everyone::{everyone_mentioned_in_text, is_everyone_mentioned};
use group_chat_core::message::MessageContent;
use group_chat_core::types::{FieldTooLongResult, FieldTooShortResult, GroupSubtype};
use group_chat_core::validation::{
    check_group_name, validate_avatar, validate_description, validate_group_name, validate_rules,
    NameValidationError, RulesValidationError,
};
use group_chat_core::types::Document;

fn text(body: &str) -> MessageContent {
    MessageContent::Text { text: body.to_string() }
}

#[test]
fn everyone_is_found_where_it_stands_alone() {
    for body in [
        "@everyone",
        "@everyone hello",
        "hello @everyone",
        "(@everyone)",
        "[@everyone]",
        "{@everyone}",
        "line one\n@everyone\nline three",
        "tab\t@everyone\tend",
    ] {
        assert!(is_everyone_mentioned(&text(body)), "{:?}", body);
    }
}

#[test]
fn everyone_is_not_found_inside_other_words() {
    for body in ["", "hello", "me@everyone", "@everyonee", "@everyone!", "mail@everyone.com", "@Everyone", "@ everyone"] {
        assert!(!is_everyone_mentioned(&text(body)), "{:?}", body);
    }
}

#[test]
fn everyone_is_found_in_captions() {
    assert!(is_everyone_mentioned(&MessageContent::File { caption: "look @everyone".to_string(), blob_id: Some(1) }));
    assert!(!is_everyone_mentioned(&MessageContent::GovernanceProposal { governance_canister_id: 1, proposal_id: 2 }));
}

#[test]
fn everyone_needs_word_and_pattern() {
    assert!(everyone_mentioned_in_text(true, Some(true)));
    assert!(!everyone_mentioned_in_text(true, Some(false)));
    assert!(!everyone_mentioned_in_text(true, None));
    assert!(!everyone_mentioned_in_text(false, Some(true)));
}

#[test]
fn group_names_have_limits() {
    assert_eq!(
        validate_group_name(&"ab".to_string(), false, None),
        Err(NameValidationError::TooShort(FieldTooShortResult { length_provided: 2, min_length: 3 }))
    );
    assert_eq!(validate_group_name(&"abc".to_string(), false, None), Ok(()));
    assert_eq!(validate_group_name(&"a".repeat(40), false, None), Ok(()));
    assert_eq!(
        validate_group_name(&"a".repeat(41), false, None),
        Err(NameValidationError::TooLong(FieldTooLongResult { length_provided: 41, max_length: 40 }))
    );
}

#[test]
fn proposals_names_are_reserved_in_public_groups() {
    let subtype = GroupSubtype::GovernanceProposals { is_nns: true, governance_canister_id: 9 };
    assert_eq!(validate_group_name(&"NNS Proposals".to_string(), true, None), Err(NameValidationError::Reserved));
    assert_eq!(validate_group_name(&"nns proPOSALS".to_string(), true, None), Err(NameValidationError::Reserved));
    assert_eq!(validate_group_name(&"NNS Proposals".to_string(), false, None), Ok(()));
    assert_eq!(validate_group_name(&"NNS Proposals".to_string(), true, Some(&subtype)), Ok(()));
    assert_eq!(validate_group_name(&"Proposals talk".to_string(), true, None), Ok(()));
}

#[test]
fn name_check_goes_by_length_first() {
    assert_eq!(
        check_group_name(2, true),
        Err(NameValidationError::TooShort(FieldTooShortResult { length_provided: 2, min_length: 3 }))
    );
    assert_eq!(check_group_name(10, true), Err(NameValidationError::Reserved));
    assert_eq!(check_group_name(10, false), Ok(()));
}

#[test]
fn descriptions_have_a_limit() {
    assert_eq!(validate_description(&"d".repeat(1024)), Ok(()));
    assert_eq!(
        validate_description(&"d".repeat(1025)),
        Err(FieldTooLongResult { length_provided: 1025, max_length: 1024 })
    );
}

#[test]
fn rules_have_limits() {
    assert_eq!(
        validate_rules(true, &String::new()),
        Err(RulesValidationError::TooShort(FieldTooShortResult { length_provided: 0, min_length: 1 }))
    );
    assert_eq!(validate_rules(false, &String::new()), Ok(()));
    assert_eq!(validate_rules(true, &"r".repeat(1024)), Ok(()));
    assert_eq!(
        validate_rules(false, &"r".repeat(1025)),
        Err(RulesValidationError::TooLong(FieldTooLongResult { length_provided: 1025, max_length: 1024 }))
    );
}

#[test]
fn avatars_have_a_limit() {
    let avatar = |size: usize| Document { id: 1, mime_type: "image/png".to_string(), data: vec![0u8; size] };
    assert_eq!(validate_avatar(None), Ok(()));
    assert_eq!(validate_avatar(Some(&avatar(819_200))), Ok(()));
    assert_eq!(
        validate_avatar(Some(&avatar(819_201))),
        Err(FieldTooLongResult { length_provided: 819_201, max_length: 819_200 })
    );
}
