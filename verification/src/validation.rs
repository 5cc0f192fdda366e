//! Limits on the name, the description, the rules and the avatar of a group.

use vstd::prelude::*;
use crate::message::{byte_len, text_len};
use crate::text::{ends_with, has_suffix, lowercase, to_lowercase};
use crate::types::{Document, FieldTooLongResult, FieldTooShortResult, GroupSubtype};

verus! {

pub const MIN_GROUP_NAME_LENGTH: u32 = 3;

pub const MAX_GROUP_NAME_LENGTH: u32 = 40;

pub const MAX_GROUP_DESCRIPTION_LENGTH: u32 = 1024;

pub const MIN_GROUP_RULES_LENGTH: u32 = 1;

pub const MAX_GROUP_RULES_LENGTH: u32 = 1024;

/// Largest avatar, in bytes.
pub const MAX_AVATAR_SIZE: u32 = 819200;

/// Why a name was refused.
#[derive(Clone, Copy, Debug, PartialEq, Eq, Structural)]
pub enum NameValidationError {
    TooShort(FieldTooShortResult),
    TooLong(FieldTooLongResult),
    Reserved,
}

/// Why rules were refused.
#[derive(Clone, Copy, Debug, PartialEq, Eq, Structural)]
pub enum RulesValidationError {
    TooShort(FieldTooShortResult),
    TooLong(FieldTooLongResult),
}

/// The ending that is reserved for groups that carry proposals.
pub open spec fn reserved_ending() -> Seq<char> {
    "proposals"@
}

/// A length as a 32-bit number; a length beyond the range counts as the
/// largest number.
pub open spec fn clamp_length(length: nat) -> u32 {
    if length <= u32::MAX {
        length as u32
    } else {
        u32::MAX
    }
}

/// A length as a 32-bit number.
fn clamped(length: usize) -> (r: u32)
    ensures
        r == clamp_length(length as nat),
{
    if length <= u32::MAX as usize {
        length as u32
    } else {
        u32::MAX
    }
}

/// Whether a name is reserved: the group is public, has no subtype, and
/// the name in lower case ends with the reserved ending.
pub open spec fn name_reserved(name: Seq<char>, is_public: bool, subtype: Option<GroupSubtype>) -> bool {
    is_public && subtype is None && has_suffix(lowercase(name), reserved_ending())
}

/// The verdict on a name of `length` bytes: the length is checked first,
/// then whether the name is reserved.
pub open spec fn name_verdict(length: nat, reserved: bool) -> Result<(), NameValidationError> {
    if length < MIN_GROUP_NAME_LENGTH {
        Err(
            NameValidationError::TooShort(
                FieldTooShortResult { length_provided: clamp_length(length), min_length: MIN_GROUP_NAME_LENGTH },
            ),
        )
    } else if length > MAX_GROUP_NAME_LENGTH {
        Err(
            NameValidationError::TooLong(
                FieldTooLongResult { length_provided: clamp_length(length), max_length: MAX_GROUP_NAME_LENGTH },
            ),
        )
    } else if reserved {
        Err(NameValidationError::Reserved)
    } else {
        Ok(())
    }
}

/// The verdict on a name of `length` bytes, given whether it is reserved.
pub fn check_group_name(length: usize, reserved: bool) -> (r: Result<(), NameValidationError>)
    ensures
        r == name_verdict(length as nat, reserved),
{
    let length_provided = clamped(length);
    if length_provided < MIN_GROUP_NAME_LENGTH {
        Err(NameValidationError::TooShort(FieldTooShortResult { length_provided, min_length: MIN_GROUP_NAME_LENGTH }))
    } else if length_provided > MAX_GROUP_NAME_LENGTH {
        Err(NameValidationError::TooLong(FieldTooLongResult { length_provided, max_length: MAX_GROUP_NAME_LENGTH }))
    } else if reserved {
        Err(NameValidationError::Reserved)
    } else {
        Ok(())
    }
}

/// The verdict on the name of a group.
pub fn validate_group_name(name: &String, is_public: bool, subtype: Option<&GroupSubtype>) -> (r: Result<
    (),
    NameValidationError,
>)
    ensures
        r == name_verdict(
            byte_len(name@),
            name_reserved(
                name@,
                is_public,
                match subtype {
                    Some(s) => Some(*s),
                    None => None,
                },
            ),
        ),
{
    let reserved = if is_public && subtype.is_none() {
        let lowered = to_lowercase(name.as_str());
        ends_with(lowered.as_str(), "proposals")
    } else {
        false
    };
    check_group_name(text_len(name), reserved)
}

/// The verdict on a description of `length` bytes.
pub open spec fn description_verdict(length: nat) -> Result<(), FieldTooLongResult> {
    if length <= MAX_GROUP_DESCRIPTION_LENGTH {
        Ok(())
    } else {
        Err(FieldTooLongResult { length_provided: clamp_length(length), max_length: MAX_GROUP_DESCRIPTION_LENGTH })
    }
}

/// The verdict on the description of a group.
pub fn validate_description(description: &String) -> (r: Result<(), FieldTooLongResult>)
    ensures
        r == description_verdict(byte_len(description@)),
{
    let length_provided = clamped(text_len(description));
    if length_provided <= MAX_GROUP_DESCRIPTION_LENGTH {
        Ok(())
    } else {
        Err(FieldTooLongResult { length_provided, max_length: MAX_GROUP_DESCRIPTION_LENGTH })
    }
}

/// The verdict on rules of `length` bytes: enabled rules need a text, and
/// no text may be over the limit.
pub open spec fn rules_verdict(enabled: bool, length: nat) -> Result<(), RulesValidationError> {
    if enabled && length < MIN_GROUP_RULES_LENGTH {
        Err(
            RulesValidationError::TooShort(
                FieldTooShortResult { length_provided: clamp_length(length), min_length: MIN_GROUP_RULES_LENGTH },
            ),
        )
    } else if length > MAX_GROUP_RULES_LENGTH {
        Err(
            RulesValidationError::TooLong(
                FieldTooLongResult { length_provided: clamp_length(length), max_length: MAX_GROUP_RULES_LENGTH },
            ),
        )
    } else {
        Ok(())
    }
}

/// The verdict on the rules of a group.
pub fn validate_rules(enabled: bool, text: &String) -> (r: Result<(), RulesValidationError>)
    ensures
        r == rules_verdict(enabled, byte_len(text@)),
{
    let length_provided = clamped(text_len(text));
    if enabled && length_provided < MIN_GROUP_RULES_LENGTH {
        Err(RulesValidationError::TooShort(FieldTooShortResult { length_provided, min_length: MIN_GROUP_RULES_LENGTH }))
    } else if length_provided > MAX_GROUP_RULES_LENGTH {
        Err(RulesValidationError::TooLong(FieldTooLongResult { length_provided, max_length: MAX_GROUP_RULES_LENGTH }))
    } else {
        Ok(())
    }
}

/// The verdict on an avatar of `size` bytes.
pub open spec fn avatar_verdict(size: nat) -> Result<(), FieldTooLongResult> {
    if size <= MAX_AVATAR_SIZE {
        Ok(())
    } else {
        Err(FieldTooLongResult { length_provided: clamp_length(size), max_length: MAX_AVATAR_SIZE })
    }
}

/// The verdict on a new avatar; taking the avatar away is always allowed.
pub fn validate_avatar(avatar: Option<&Document>) -> (r: Result<(), FieldTooLongResult>)
    ensures
        r == match avatar {
            Some(document) => avatar_verdict(document.data@.len()),
            None => Ok(()),
        },
{
    match avatar {
        Some(document) => {
            let length_provided = clamped(document.data.len());
            if length_provided <= MAX_AVATAR_SIZE {
                Ok(())
            } else {
                Err(FieldTooLongResult { length_provided, max_length: MAX_AVATAR_SIZE })
            }
        },
        None => Ok(()),
    }
}

} // verus!
