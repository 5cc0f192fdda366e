//! Messages, their content and the rules that a new message must meet.

use vstd::prelude::*;
use vstd::string::StringSliceAdditionalSpecFns;
use crate::types::{EventIndex, TimestampMillis, UserId};

verus! {

/// Longest text, in bytes, that a message may carry.
pub const MAX_TEXT_LENGTH: u32 = 5000;

/// Fewest options that a poll may offer.
pub const MIN_POLL_OPTIONS: u32 = 2;

/// Most options that a poll may offer.
pub const MAX_POLL_OPTIONS: u32 = 10;

/// Longest poll option, in bytes.
pub const MAX_POLL_OPTION_LENGTH: u32 = 100;

/// Length of a text in bytes of its UTF-8 encoding.
pub open spec fn byte_len(text: Seq<char>) -> nat {
    vstd::utf8::encode_utf8(text).len()
}

/// Length of a string in bytes.
pub fn text_len(text: &String) -> (r: usize)
    ensures
        r == byte_len(text@),
{
    text.as_str().as_bytes().len()
}

/// How far a crypto transfer has got.
#[derive(Clone, Copy, Debug, PartialEq, Eq, Structural)]
pub enum TransferStatus {
    Pending,
    Completed,
    Failed,
}

/// A transfer of tokens attached to a message.
#[derive(Clone, Copy, Debug, PartialEq, Eq, Structural)]
pub struct CryptoTransaction {
    pub status: TransferStatus,
    pub recipient: UserId,
    pub amount: u128,
}

/// A poll as configured by its author.
#[derive(Clone, Debug)]
pub struct PollConfig {
    pub text: String,
    pub options: Vec<String>,
    pub end_date: Option<TimestampMillis>,
}

/// Why a poll was refused.
#[derive(Clone, Copy, Debug, PartialEq, Eq, Structural)]
pub enum InvalidPollReason {
    TooFewOptions(u32),
    TooManyOptions(u32),
    OptionTooLong(u32),
    EndDateInThePast,
}

/// What a message holds.
#[derive(Clone, Debug)]
pub enum MessageContent {
    Text { text: String },
    File { caption: String, blob_id: Option<u128> },
    Poll { config: PollConfig },
    Crypto { transfer: CryptoTransaction, caption: String },
    Prize { transfer: CryptoTransaction, end_date: TimestampMillis, caption: String },
    GovernanceProposal { governance_canister_id: UserId, proposal_id: u64 },
    Deleted { deleted_by: UserId, timestamp: TimestampMillis },
}

/// Why the content of a new message was refused.
#[derive(Clone, Copy, Debug, PartialEq, Eq, Structural)]
pub enum ContentValidationError {
    Empty,
    TextTooLong(u32),
    InvalidPoll(InvalidPollReason),
    TransferCannotBeZero,
    InvalidTypeForForwarding,
    PrizeEndDateInThePast,
    UnauthorizedToSendProposalMessages,
    Unauthorized,
}

/// Position of the first option longer than the limit, or the number of
/// options if there is none.
pub open spec fn first_long_option(options: Seq<String>) -> int
    decreases options.len(),
{
    if options.len() == 0 {
        0
    } else if byte_len(options[0]@) > MAX_POLL_OPTION_LENGTH {
        0
    } else {
        1 + first_long_option(options.drop_first())
    }
}

/// `first_long_option` lies within bounds, no option before it is too
/// long, and the option at it is.
proof fn lemma_first_long_option(options: Seq<String>)
    ensures
        0 <= first_long_option(options) <= options.len(),
        forall|i: int| 0 <= i < first_long_option(options) ==> byte_len(#[trigger] options[i]@) <= MAX_POLL_OPTION_LENGTH,
        first_long_option(options) < options.len() ==> byte_len(options[first_long_option(options)]@)
            > MAX_POLL_OPTION_LENGTH,
    decreases options.len(),
{
    if options.len() > 0 && !(byte_len(options[0]@) > MAX_POLL_OPTION_LENGTH) {
        let rest = options.drop_first();
        lemma_first_long_option(rest);
        assert forall|i: int| 0 <= i < first_long_option(options) implies byte_len(#[trigger] options[i]@)
            <= MAX_POLL_OPTION_LENGTH by {
            if i > 0 {
                assert(options[i] == rest[i - 1]);
            }
        }
    }
}

impl PollConfig {
    /// The verdict on a poll at time `now`: the number of options is checked
    /// first, then their lengths, then the end date.
    pub open spec fn spec_validate(&self, now: TimestampMillis) -> Result<(), InvalidPollReason> {
        if self.options@.len() < MIN_POLL_OPTIONS {
            Err(InvalidPollReason::TooFewOptions(MIN_POLL_OPTIONS))
        } else if self.options@.len() > MAX_POLL_OPTIONS {
            Err(InvalidPollReason::TooManyOptions(MAX_POLL_OPTIONS))
        } else if first_long_option(self.options@) < self.options@.len() {
            Err(InvalidPollReason::OptionTooLong(MAX_POLL_OPTION_LENGTH))
        } else if self.end_date matches Some(end) && end <= now {
            Err(InvalidPollReason::EndDateInThePast)
        } else {
            Ok(())
        }
    }

    /// The verdict on a poll at time `now`.
    pub fn validate(&self, now: TimestampMillis) -> (r: Result<(), InvalidPollReason>)
        ensures
            r == self.spec_validate(now),
    {
        if self.options.len() < MIN_POLL_OPTIONS as usize {
            return Err(InvalidPollReason::TooFewOptions(MIN_POLL_OPTIONS));
        }
        if self.options.len() > MAX_POLL_OPTIONS as usize {
            return Err(InvalidPollReason::TooManyOptions(MAX_POLL_OPTIONS));
        }
        proof {
            lemma_first_long_option(self.options@);
        }
        let mut i: usize = 0;
        while i < self.options.len()
            invariant
                0 <= i <= self.options@.len(),
                MIN_POLL_OPTIONS <= self.options@.len() <= MAX_POLL_OPTIONS,
                forall|j: int| 0 <= j < i ==> byte_len(#[trigger] self.options@[j]@) <= MAX_POLL_OPTION_LENGTH,
                0 <= first_long_option(self.options@) <= self.options@.len(),
                forall|j: int|
                    0 <= j < first_long_option(self.options@) ==> byte_len(#[trigger] self.options@[j]@)
                        <= MAX_POLL_OPTION_LENGTH,
                first_long_option(self.options@) < self.options@.len() ==> byte_len(
                    self.options@[first_long_option(self.options@)]@,
                ) > MAX_POLL_OPTION_LENGTH,
            decreases self.options@.len() - i,
        {
            if text_len(&self.options[i]) > MAX_POLL_OPTION_LENGTH as usize {
                assert(first_long_option(self.options@) <= i) by {
                    if first_long_option(self.options@) > i {
                        assert(byte_len(self.options@[i as int]@) <= MAX_POLL_OPTION_LENGTH);
                    }
                }
                return Err(InvalidPollReason::OptionTooLong(MAX_POLL_OPTION_LENGTH));
            }
            i += 1;
        }
        match self.end_date {
            Some(end) => {
                if end <= now {
                    return Err(InvalidPollReason::EndDateInThePast);
                }
            },
            None => {},
        }
        Ok(())
    }
}

impl MessageContent {
    /// The text that the content shows: the body of a text message, the
    /// caption of an attachment, the question of a poll.
    pub open spec fn spec_text(&self) -> Option<Seq<char>> {
        match self {
            MessageContent::Text { text } => Some(text@),
            MessageContent::File { caption, .. } => Some(caption@),
            MessageContent::Poll { config } => Some(config.text@),
            MessageContent::Crypto { caption, .. } => Some(caption@),
            MessageContent::Prize { caption, .. } => Some(caption@),
            MessageContent::GovernanceProposal { .. } => None,
            MessageContent::Deleted { .. } => None,
        }
    }

    /// The text that the content shows.
    pub fn text(&self) -> (r: Option<&String>)
        ensures
            match r {
                Some(t) => self.spec_text() == Some(t@),
                None => self.spec_text() is None,
            },
    {
        match self {
            MessageContent::Text { text } => Some(text),
            MessageContent::File { caption, .. } => Some(caption),
            MessageContent::Poll { config } => Some(&config.text),
            MessageContent::Crypto { caption, .. } => Some(caption),
            MessageContent::Prize { caption, .. } => Some(caption),
            MessageContent::GovernanceProposal { .. } => None,
            MessageContent::Deleted { .. } => None,
        }
    }

    /// The transfer that the content carries, if any.
    pub open spec fn spec_transfer(&self) -> Option<CryptoTransaction> {
        match self {
            MessageContent::Crypto { transfer, .. } => Some(*transfer),
            MessageContent::Prize { transfer, .. } => Some(*transfer),
            _ => None,
        }
    }

    /// The transfer that the content carries, if any.
    pub fn transfer(&self) -> (r: Option<CryptoTransaction>)
        ensures
            r == self.spec_transfer(),
    {
        match self {
            MessageContent::Crypto { transfer, .. } => Some(*transfer),
            MessageContent::Prize { transfer, .. } => Some(*transfer),
            _ => None,
        }
    }

    /// Content that may not be forwarded from another chat.
    pub open spec fn forward_ineligible(&self) -> bool {
        self is Poll || self is Crypto || self is Prize || self is Deleted
    }

    /// Why the poll that the content holds is refused at `now`, if it is.
    pub open spec fn poll_error(&self, now: TimestampMillis) -> Option<InvalidPollReason> {
        match self {
            MessageContent::Poll { config } => match config.spec_validate(now) {
                Err(reason) => Some(reason),
                Ok(_) => None,
            },
            _ => None,
        }
    }

    /// A plain transfer of no tokens at all.
    pub open spec fn is_zero_transfer(&self) -> bool {
        match self {
            MessageContent::Crypto { transfer, .. } => transfer.amount == 0,
            _ => false,
        }
    }

    /// A prize whose end date is not after `now`.
    pub open spec fn prize_ended(&self, now: TimestampMillis) -> bool {
        match self {
            MessageContent::Prize { end_date, .. } => *end_date <= now,
            _ => false,
        }
    }

    /// Content that carries nothing to show.
    pub open spec fn is_empty(&self) -> bool {
        match self {
            MessageContent::Text { text } => text@.len() == 0,
            MessageContent::File { blob_id, .. } => blob_id is None,
            MessageContent::Poll { config } => config.options@.len() == 0,
            MessageContent::Crypto { transfer, .. } => transfer.amount == 0,
            MessageContent::Prize { .. } => false,
            MessageContent::GovernanceProposal { .. } => false,
            MessageContent::Deleted { .. } => true,
        }
    }

    /// Length in bytes of the text that the content shows.
    pub open spec fn text_length(&self) -> nat {
        match self.spec_text() {
            Some(t) => byte_len(t),
            None => 0,
        }
    }

    /// The verdict on the content of a new message in a group, first failure
    /// first: forwarding of content that may not be forwarded; content of a
    /// kind that only the system writes; an invalid poll; a transfer of
    /// nothing; a prize that has already ended; a proposal from anyone but
    /// the proposals bot; empty content; text over the limit.
    pub open spec fn spec_validate_for_new_group_message(
        &self,
        sender: UserId,
        forwarding: bool,
        proposals_bot_user_id: UserId,
        now: TimestampMillis,
    ) -> Result<(), ContentValidationError> {
        if forwarding && self.forward_ineligible() {
            Err(ContentValidationError::InvalidTypeForForwarding)
        } else if self is Deleted {
            Err(ContentValidationError::Unauthorized)
        } else if self.poll_error(now) is Some {
            Err(ContentValidationError::InvalidPoll(self.poll_error(now)->Some_0))
        } else if self.is_zero_transfer() {
            Err(ContentValidationError::TransferCannotBeZero)
        } else if self.prize_ended(now) {
            Err(ContentValidationError::PrizeEndDateInThePast)
        } else if self is GovernanceProposal && sender != proposals_bot_user_id {
            Err(ContentValidationError::UnauthorizedToSendProposalMessages)
        } else if self.is_empty() {
            Err(ContentValidationError::Empty)
        } else if self.text_length() > MAX_TEXT_LENGTH {
            Err(ContentValidationError::TextTooLong(MAX_TEXT_LENGTH))
        } else {
            Ok(())
        }
    }

    /// The verdict on the content of a new message in a group.
    pub fn validate_for_new_group_message(
        &self,
        sender: UserId,
        forwarding: bool,
        proposals_bot_user_id: UserId,
        now: TimestampMillis,
    ) -> (r: Result<(), ContentValidationError>)
        ensures
            r == self.spec_validate_for_new_group_message(sender, forwarding, proposals_bot_user_id, now),
    {
        match self {
            MessageContent::Text { text } => {
                if text.as_str().is_empty() {
                    Err(ContentValidationError::Empty)
                } else if text_len(text) > MAX_TEXT_LENGTH as usize {
                    Err(ContentValidationError::TextTooLong(MAX_TEXT_LENGTH))
                } else {
                    Ok(())
                }
            },
            MessageContent::File { caption, blob_id } => {
                if blob_id.is_none() {
                    Err(ContentValidationError::Empty)
                } else if text_len(caption) > MAX_TEXT_LENGTH as usize {
                    Err(ContentValidationError::TextTooLong(MAX_TEXT_LENGTH))
                } else {
                    Ok(())
                }
            },
            MessageContent::Poll { config } => {
                if forwarding {
                    return Err(ContentValidationError::InvalidTypeForForwarding);
                }
                match config.validate(now) {
                    Err(reason) => Err(ContentValidationError::InvalidPoll(reason)),
                    Ok(()) => {
                        if text_len(&config.text) > MAX_TEXT_LENGTH as usize {
                            Err(ContentValidationError::TextTooLong(MAX_TEXT_LENGTH))
                        } else {
                            Ok(())
                        }
                    },
                }
            },
            MessageContent::Crypto { transfer, caption } => {
                if forwarding {
                    Err(ContentValidationError::InvalidTypeForForwarding)
                } else if transfer.amount == 0 {
                    Err(ContentValidationError::TransferCannotBeZero)
                } else if text_len(caption) > MAX_TEXT_LENGTH as usize {
                    Err(ContentValidationError::TextTooLong(MAX_TEXT_LENGTH))
                } else {
                    Ok(())
                }
            },
            MessageContent::Prize { end_date, caption, .. } => {
                if forwarding {
                    Err(ContentValidationError::InvalidTypeForForwarding)
                } else if *end_date <= now {
                    Err(ContentValidationError::PrizeEndDateInThePast)
                } else if text_len(caption) > MAX_TEXT_LENGTH as usize {
                    Err(ContentValidationError::TextTooLong(MAX_TEXT_LENGTH))
                } else {
                    Ok(())
                }
            },
            MessageContent::GovernanceProposal { .. } => {
                if sender != proposals_bot_user_id {
                    Err(ContentValidationError::UnauthorizedToSendProposalMessages)
                } else {
                    Ok(())
                }
            },
            MessageContent::Deleted { .. } => {
                if forwarding {
                    Err(ContentValidationError::InvalidTypeForForwarding)
                } else {
                    Err(ContentValidationError::Unauthorized)
                }
            },
        }
    }
}

/// The message that a reply answers, named by the event that holds it.
#[derive(Clone, Copy, Debug, PartialEq, Eq, Structural)]
pub struct GroupReplyContext {
    pub event_index: EventIndex,
}

/// Who deleted a message, and when.
#[derive(Clone, Copy, Debug, PartialEq, Eq, Structural)]
pub struct DeletedBy {
    pub deleted_by: UserId,
    pub timestamp: TimestampMillis,
}

/// An explicit choice of a user to follow or not to follow a thread.
#[derive(Clone, Copy, Debug, PartialEq, Eq, Structural)]
pub struct FollowChoice {
    pub user_id: UserId,
    pub following: bool,
    pub timestamp: TimestampMillis,
}

/// A reaction and the users who gave it.
#[derive(Clone, Debug)]
pub struct ReactionEntry {
    pub reaction: String,
    pub users: Vec<UserId>,
}

/// A tip given to the author of a message.
#[derive(Clone, Copy, Debug, PartialEq, Eq, Structural)]
pub struct Tip {
    pub ledger: UserId,
    pub user_id: UserId,
    pub amount: u128,
}

} // verus!
