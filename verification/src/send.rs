//! Sending a message to the group.

use vstd::prelude::*;
use crate::chat_events::{push_message_post, pushed_entry, ChatEvents, MessageEventResult, PushMessageArgs};
use crate::delivery::{acceptance_after, lemma_delivery_in_time, no_later, Delivery, DeliveryView};
use crate::event_list::lemma_same_places;
use crate::everyone::{is_everyone_mentioned, mentions_everyone};
use crate::group::GroupChatCore;
use crate::known_threads::lemma_send_keeps_known;
use crate::members::GroupMemberInternal;
use crate::message::{
    ContentValidationError, GroupReplyContext, InvalidPollReason, MessageContent, TransferStatus,
};
use crate::results::{SendMessageResult, SendMessageSuccess};
use crate::roles::permitted;
use crate::seq_util::{copy_ids, set_of_ids};
use crate::shown::{EventWrapper, Message};
use crate::types::{EventIndex, MessageId, MessageIndex, TimestampMillis, UserId, Version};

verus! {

/// Where the message that an entry shows has landed.
pub open spec fn landing(entry: EventWrapper<Message>) -> MessageEventResult {
    MessageEventResult {
        event_index: entry.index,
        message_index: entry.event.message_index,
        timestamp: entry.timestamp,
        expires_at: entry.expires_at,
    }
}

/// Why a message was not sent.
pub enum SendRefusal {
    UserNotInGroup,
    UserSuspended,
    RulesNotAccepted,
    MessageEmpty,
    TextTooLong(u32),
    InvalidPoll(InvalidPollReason),
    CannotForward,
    PrizeEnded,
    NotProposalsBot,
    ContentNotAllowed,
    TransferNotCompleted,
    NotAuthorized,
    ThreadMessageNotFound,
}

/// The refusal that an invalid content leads to. A transfer of nothing is
/// not among the contents that a message may be sent with, so that no
/// refusal is ever needed for it.
pub open spec fn refusal_of(error: ContentValidationError) -> SendRefusal {
    match error {
        ContentValidationError::Empty => SendRefusal::MessageEmpty,
        ContentValidationError::TextTooLong(max) => SendRefusal::TextTooLong(max),
        ContentValidationError::InvalidPoll(reason) => SendRefusal::InvalidPoll(reason),
        ContentValidationError::TransferCannotBeZero => SendRefusal::ContentNotAllowed,
        ContentValidationError::InvalidTypeForForwarding => SendRefusal::CannotForward,
        ContentValidationError::PrizeEndDateInThePast => SendRefusal::PrizeEnded,
        ContentValidationError::UnauthorizedToSendProposalMessages => SendRefusal::NotProposalsBot,
        ContentValidationError::Unauthorized => SendRefusal::ContentNotAllowed,
    }
}

/// Whether `r` is the result that reports the given refusal.
pub open spec fn refused(r: SendMessageResult, refusal: SendRefusal) -> bool {
    match refusal {
        SendRefusal::UserNotInGroup => r is UserNotInGroup,
        SendRefusal::UserSuspended => r is UserSuspended,
        SendRefusal::RulesNotAccepted => r is RulesNotAccepted,
        SendRefusal::MessageEmpty => r is MessageEmpty,
        SendRefusal::TextTooLong(max) => r matches SendMessageResult::TextTooLong(m) && m == max,
        SendRefusal::InvalidPoll(reason) => r matches SendMessageResult::InvalidPoll(x) && x == reason,
        SendRefusal::CannotForward => r matches SendMessageResult::InvalidRequest(s) && s@
            == "Cannot forward this type of message"@,
        SendRefusal::PrizeEnded => r matches SendMessageResult::InvalidRequest(s) && s@
            == "Prize ended in the past"@,
        SendRefusal::NotProposalsBot => r matches SendMessageResult::InvalidRequest(s) && s@
            == "User unauthorized to send proposal messages"@,
        SendRefusal::ContentNotAllowed => r matches SendMessageResult::InvalidRequest(s) && s@
            == "User unauthorized to send messages of this type"@,
        SendRefusal::TransferNotCompleted => r matches SendMessageResult::InvalidRequest(s) && s@
            == "The crypto transaction must be completed"@,
        SendRefusal::NotAuthorized => r is NotAuthorized,
        SendRefusal::ThreadMessageNotFound => r is ThreadMessageNotFound,
    }
}

impl ChatEvents {
    /// The message that was just recorded, as its sender is shown it.
    /// `place` is where the log of its thread stands among the logs of
    /// threads.
    fn hydrate_pushed(
        &self,
        thread_root: Option<MessageIndex>,
        place: usize,
        sender: UserId,
        Ghost(pre): Ghost<ChatEvents>,
        Ghost(args): Ghost<PushMessageArgs>,
        Ghost(thread_followers): Ghost<Seq<UserId>>,
        Ghost(landed): Ghost<MessageEventResult>,
    ) -> (shown: EventWrapper<Message>)
        requires
            push_message_post(pre, args, thread_followers, *self, landed),
            args.thread_root_message_index == thread_root,
            thread_root matches Some(root) ==> place == pre.thread_position(root) && place <= pre.threads@.len(),
        ensures
            shown.shows(pushed_entry(pre, *self, thread_root), Some(sender)),
            landing(shown) == landed,
    {
        let list = match thread_root {
            Some(_) => &self.threads[place].list,
            None => &self.main,
        };
        match list.events[list.events.len() - 1].hydrate_message(Some(sender)) {
            Some(shown) => shown,
            None => vstd::pervasive::unreached(),
        }
    }
}

impl GroupChatCore {
    /// Why the group refuses a message, if it does; first failure first.
    ///
    /// The sender must be a member and not suspended, and must have
    /// accepted the rules (the acceptance that comes with the message
    /// counts). The content must be valid, and a transfer that it carries
    /// must be completed. The sender's role must allow sending (replying,
    /// for a message in a thread), and creating polls for a poll. The root
    /// of the thread must be a message that the sender may see.
    pub open spec fn send_refusal(
        &self,
        sender: UserId,
        thread_root: Option<MessageIndex>,
        content: MessageContent,
        forwarding: bool,
        rules_accepted: Option<Version>,
        proposals_bot_user_id: UserId,
        now: TimestampMillis,
    ) -> Option<SendRefusal> {
        if !self.members.contains(sender) {
            Some(SendRefusal::UserNotInGroup)
        } else {
            let member = self.members.member(sender);
            let validity = content.spec_validate_for_new_group_message(sender, forwarding, proposals_bot_user_id, now);
            if member.suspended.value {
                Some(SendRefusal::UserSuspended)
            } else if !self.rules_met_by(
                GroupMemberInternal {
                    rules_accepted: acceptance_after(member.rules_accepted, rules_accepted, now),
                    ..member
                },
            ) {
                Some(SendRefusal::RulesNotAccepted)
            } else if validity is Err {
                Some(refusal_of(validity->Err_0))
            } else if content.spec_transfer() is Some && content.spec_transfer()->Some_0.status
                != TransferStatus::Completed {
                Some(SendRefusal::TransferNotCompleted)
            } else if !permitted(
                member.role,
                if thread_root is Some {
                    self.permissions.reply_in_thread
                } else {
                    self.permissions.send_messages
                },
            ) {
                Some(SendRefusal::NotAuthorized)
            } else if content is Poll && !permitted(member.role, self.permissions.create_polls) {
                Some(SendRefusal::NotAuthorized)
            } else if thread_root is Some && !self.events.spec_is_accessible(
                member.min_visible_event_index,
                None,
                thread_root->Some_0,
            ) {
                Some(SendRefusal::ThreadMessageNotFound)
            } else {
                None
            }
        }
    }

    /// Whether the group gets as far as examining the content of a message
    /// from this sender: the sender is a member, is not suspended and has
    /// accepted the rules.
    pub open spec fn examines_content(
        &self,
        sender: UserId,
        rules_accepted: Option<Version>,
        now: TimestampMillis,
    ) -> bool {
        let member = self.members.member(sender);
        self.members.contains(sender) && !member.suspended.value && self.rules_met_by(
            GroupMemberInternal {
                rules_accepted: acceptance_after(member.rules_accepted, rules_accepted, now),
                ..member
            },
        )
    }

    /// Whether the message is a transfer of nothing that the group would
    /// come to examine and find nothing else wrong with before that. The
    /// group has no answer to such a message; callers keep it away.
    pub open spec fn offers_nothing(
        &self,
        sender: UserId,
        content: MessageContent,
        forwarding: bool,
        rules_accepted: Option<Version>,
        proposals_bot_user_id: UserId,
        now: TimestampMillis,
    ) -> bool {
        self.examines_content(sender, rules_accepted, now) && content.spec_validate_for_new_group_message(
            sender,
            forwarding,
            proposals_bot_user_id,
            now,
        ) matches Err(ContentValidationError::TransferCannotBeZero)
    }

    /// The author of the message that a reply answers: the sender of the
    /// message held by the event named in the reply, if the reader may
    /// read the chosen log and see that event, and it holds a message.
    pub open spec fn replied_user(
        &self,
        replies_to: Option<GroupReplyContext>,
        min_visible_event_index: EventIndex,
        thread_root: Option<MessageIndex>,
    ) -> Option<UserId> {
        match replies_to {
            Some(context) => if self.events.log_readable(min_visible_event_index, thread_root) {
                let list = self.events.log(thread_root);
                match list.visible_event_position(
                    ChatEvents::bound_in(min_visible_event_index, thread_root),
                    context.event_index,
                ) {
                    Some(p) => if list.events@[p].is_message() {
                        Some(list.events@[p].message().sender)
                    } else {
                        None
                    },
                    None => None,
                }
            } else {
                None
            },
            None => None,
        }
    }

    /// The author of the root of a thread, if this will be the first reply
    /// in it.
    pub open spec fn first_reply_to(&self, thread_root: Option<MessageIndex>) -> Option<UserId> {
        match thread_root {
            Some(root) => match self.events.main.message_position(root) {
                Some(p) => {
                    let message = self.events.main.events@[p].message();
                    if message.thread_summary is None || message.thread_summary->Some_0.reply_count == 0 {
                        Some(message.sender)
                    } else {
                        None
                    }
                },
                None => None,
            },
            None => None,
        }
    }

    /// The users whom a message draws into its thread: those whom the
    /// sender mentioned, then the author of the message replied to, then,
    /// with the first reply, the author of the root. A top-level message
    /// draws nobody.
    pub open spec fn drawn_into_thread(
        &self,
        thread_root: Option<MessageIndex>,
        mentioned: Seq<UserId>,
        replied_to: Option<UserId>,
    ) -> Seq<UserId> {
        if thread_root is None {
            Seq::empty()
        } else {
            let with_replied = match replied_to {
                Some(u) => mentioned.push(u),
                None => mentioned,
            };
            match self.first_reply_to(thread_root) {
                Some(u) => with_replied.push(u),
                None => with_replied,
            }
        }
    }

    /// How a message that was sent bears on the members, given the log as
    /// it is after the message was recorded.
    pub open spec fn delivery_of(
        &self,
        log_after: ChatEvents,
        sender: UserId,
        thread_root: Option<MessageIndex>,
        message_index: MessageIndex,
        replies_to: Option<GroupReplyContext>,
        mentioned: Seq<UserId>,
        rules_accepted: Option<Version>,
        proposals_bot_user_id: UserId,
        now: TimestampMillis,
        everyone_in_text: bool,
    ) -> DeliveryView {
        let member = self.members.member(sender);
        let root = match thread_root {
            Some(root) => match self.events.main.message_position(root) {
                Some(p) => Some(log_after.main.events@[p].message()),
                None => None,
            },
            None => None,
        };
        DeliveryView {
            sender,
            thread_root,
            message_index,
            now,
            mentioned: mentioned.to_set(),
            replied_to: self.replied_user(replies_to, member.min_visible_event_index, thread_root),
            root_sender: match root {
                Some(m) => Some(m.sender),
                None => None,
            },
            first_reply: match root {
                Some(m) => m.thread_summary matches Some(s) && s.reply_count == 1,
                None => false,
            },
            followers: match root {
                Some(m) => match m.thread_summary {
                    Some(s) => Some(Set::new(|u: UserId| s.is_involved(u) && s.is_followed_by(u))),
                    None => None,
                },
                None => None,
            },
            everyone_mentioned: everyone_in_text && permitted(member.role, self.permissions.mention_all_members),
            mentions_disabled: sender == proposals_bot_user_id,
            accepted_version: no_later(rules_accepted, self.rules.text.version),
        }
    }

    /// The author of the message that a reply answers.
    fn get_user_being_replied_to(
        &self,
        replies_to: &Option<GroupReplyContext>,
        min_visible_event_index: EventIndex,
        thread_root: Option<MessageIndex>,
    ) -> (r: Option<UserId>)
        ensures
            r == self.replied_user(*replies_to, min_visible_event_index, thread_root),
    {
        match replies_to {
            Some(context) => match self.events.events_reader(min_visible_event_index, thread_root) {
                Some(reader) => match reader.message_internal_by_event(context.event_index) {
                    Some(m) => Some(m.sender),
                    None => None,
                },
                None => None,
            },
            None => None,
        }
    }

    /// Decides whether the message can be sent; returns the refusal if not.
    fn check_send(
        &self,
        sender: UserId,
        thread_root: Option<MessageIndex>,
        content: &MessageContent,
        forwarding: bool,
        rules_accepted: Option<Version>,
        proposals_bot_user_id: UserId,
        now: TimestampMillis,
    ) -> (r: Option<SendMessageResult>)
        requires
            !self.offers_nothing(sender, *content, forwarding, rules_accepted, proposals_bot_user_id, now),
        ensures
            match r {
                Some(result) => self.send_refusal(
                    sender,
                    thread_root,
                    *content,
                    forwarding,
                    rules_accepted,
                    proposals_bot_user_id,
                    now,
                ) matches Some(refusal) && refused(result, refusal),
                None => self.send_refusal(
                    sender,
                    thread_root,
                    *content,
                    forwarding,
                    rules_accepted,
                    proposals_bot_user_id,
                    now,
                ) is None,
            },
    {
        let member = match self.members.get(sender) {
            Some(m) => m,
            None => {
                return Some(SendMessageResult::UserNotInGroup);
            },
        };
        if member.suspended.value {
            return Some(SendMessageResult::UserSuspended);
        }
        let accepted_now = match rules_accepted {
            Some(v) => v >= self.rules.text.version,
            None => false,
        };
        if !(self.check_rules(member) || accepted_now) {
            return Some(SendMessageResult::RulesNotAccepted);
        }
        match content.validate_for_new_group_message(sender, forwarding, proposals_bot_user_id, now) {
            Err(error) => {
                return Some(
                    match error {
                        ContentValidationError::Empty => SendMessageResult::MessageEmpty,
                        ContentValidationError::TextTooLong(max) => SendMessageResult::TextTooLong(max),
                        ContentValidationError::InvalidPoll(reason) => SendMessageResult::InvalidPoll(reason),
                        ContentValidationError::TransferCannotBeZero => vstd::pervasive::unreached(),
                        ContentValidationError::InvalidTypeForForwarding => SendMessageResult::InvalidRequest(
                            "Cannot forward this type of message".to_owned(),
                        ),
                        ContentValidationError::PrizeEndDateInThePast => SendMessageResult::InvalidRequest(
                            "Prize ended in the past".to_owned(),
                        ),
                        ContentValidationError::UnauthorizedToSendProposalMessages => SendMessageResult::InvalidRequest(
                            "User unauthorized to send proposal messages".to_owned(),
                        ),
                        ContentValidationError::Unauthorized => SendMessageResult::InvalidRequest(
                            "User unauthorized to send messages of this type".to_owned(),
                        ),
                    },
                );
            },
            Ok(()) => {},
        }
        match content.transfer() {
            Some(transfer) => {
                if !matches!(transfer.status, TransferStatus::Completed) {
                    return Some(
                        SendMessageResult::InvalidRequest("The crypto transaction must be completed".to_owned()),
                    );
                }
            },
            None => {},
        }
        if thread_root.is_some() {
            if !member.role.can_reply_in_thread(&self.permissions) {
                return Some(SendMessageResult::NotAuthorized);
            }
        } else if !member.role.can_send_messages(&self.permissions) {
            return Some(SendMessageResult::NotAuthorized);
        }
        if matches!(content, MessageContent::Poll { .. }) && !member.role.can_create_polls(&self.permissions) {
            return Some(SendMessageResult::NotAuthorized);
        }
        match thread_root {
            Some(root) => {
                if !self.events.is_accessible(member.min_visible_event_index(), None, root) {
                    return Some(SendMessageResult::ThreadMessageNotFound);
                }
            },
            None => {},
        }
        None
    }

    /// Sends a message, given whether its text mentions everyone.
    ///
    /// The log that the message goes to must have room for it where the
    /// message is to be sent; a refusal needs none. A transfer of nothing
    /// is kept away only from a sender whose message the group would come
    /// to examine: anyone else is refused like with any other content.
    pub fn send_message_resolved(
        &mut self,
        sender: UserId,
        thread_root_message_index: Option<MessageIndex>,
        message_id: MessageId,
        content: MessageContent,
        replies_to: Option<GroupReplyContext>,
        mentioned: Vec<UserId>,
        forwarding: bool,
        rules_accepted: Option<Version>,
        proposals_bot_user_id: UserId,
        now: TimestampMillis,
        everyone_in_text: bool,
    ) -> (r: SendMessageResult)
        requires
            old(self).wf(),
            old(self).send_refusal(
                sender,
                thread_root_message_index,
                content,
                forwarding,
                rules_accepted,
                proposals_bot_user_id,
                now,
            ) is None ==> old(self).events.room_for_message(thread_root_message_index),
            !old(self).offers_nothing(sender, content, forwarding, rules_accepted, proposals_bot_user_id, now),
        ensures
            final(self).wf(),
            send_message_post(
                *old(self),
                sender,
                thread_root_message_index,
                message_id,
                content,
                replies_to,
                mentioned,
                forwarding,
                rules_accepted,
                proposals_bot_user_id,
                now,
                everyone_in_text,
                *final(self),
                r,
            ),
    {
        match self.check_send(
            sender,
            thread_root_message_index,
            &content,
            forwarding,
            rules_accepted,
            proposals_bot_user_id,
            now,
        ) {
            Some(result) => {
                return result;
            },
            None => {},
        }
        let ghost pre = *self;
        let (role, min_visible_event_index) = match self.members.get(sender) {
            Some(m) => (m.role, m.min_visible_event_index()),
            None => vstd::pervasive::unreached(),
        };
        let replied_to = self.get_user_being_replied_to(&replies_to, min_visible_event_index, thread_root_message_index);
        let everyone_mentioned = everyone_in_text && role.can_mention_everyone(&self.permissions);
        let mention_set = set_of_ids(&mentioned);
        let mut thread_followers: Vec<UserId> = Vec::new();
        match thread_root_message_index {
            Some(root) => {
                thread_followers = copy_ids(&mentioned);
                match replied_to {
                    Some(u) => {
                        thread_followers.push(u);
                    },
                    None => {},
                }
                match self.events.main.find_message(root) {
                    Some(p) => match self.events.main.events[p].as_message() {
                        Some(m) => {
                            let first = match &m.thread_summary {
                                Some(summary) => summary.reply_count == 0,
                                None => true,
                            };
                            if first {
                                thread_followers.push(m.sender);
                            }
                        },
                        None => {},
                    },
                    None => {},
                }
            },
            None => {},
        }
        assert(thread_followers@ =~= self.drawn_into_thread(thread_root_message_index, mentioned@, replied_to));
        let ghost drawn = thread_followers@;
        let ghost args = PushMessageArgs {
            sender,
            thread_root_message_index,
            message_id,
            content,
            mentioned,
            replies_to,
            forwarded: forwarding,
            now,
        };
        let place: usize = match thread_root_message_index {
            Some(root) => {
                proof {
                    crate::seq_util::lemma_first_match(self.events.threads@, crate::chat_events::rooted_at(root));
                }
                match self.events.find_thread(root) {
                    Some(t) => t,
                    None => self.events.threads.len(),
                }
            },
            None => 0,
        };
        let message_event = self.events.push_message(
            PushMessageArgs {
                sender,
                thread_root_message_index,
                message_id,
                content,
                mentioned,
                replies_to,
                forwarded: forwarding,
                now,
            },
            thread_followers,
        );
        let shown = self.events.hydrate_pushed(
            thread_root_message_index,
            place,
            sender,
            Ghost(pre.events),
            Ghost(args),
            Ghost(drawn),
            Ghost(message_event),
        );
        let mut root_sender: Option<UserId> = None;
        let mut first_reply = false;
        let mut followers: Option<Vec<UserId>> = None;
        match thread_root_message_index {
            Some(root) => {
                proof {
                    crate::seq_util::lemma_first_match(
                        pre.events.main.events@,
                        crate::event_list::with_message_index(root),
                    );
                    let p = pre.events.main.message_position(root)->Some_0;
                    assert(pre.events.main.events@[p].is_message());
                    assert forall|i: int| 0 <= i < pre.events.main.events@.len() implies {
                        &&& (#[trigger] self.events.main.events@[i]).index == pre.events.main.events@[i].index
                        &&& self.events.main.events@[i].is_message() == pre.events.main.events@[i].is_message()
                        &&& self.events.main.events@[i].is_message() ==> self.events.main.events@[i].message().message_index
                            == pre.events.main.events@[i].message().message_index
                            && self.events.main.events@[i].message().message_id
                            == pre.events.main.events@[i].message().message_id
                    } by {
                        if i != p {
                            assert(self.events.main.events@[i] == pre.events.main.events@[i]);
                        }
                    }
                    lemma_same_places(pre.events.main, self.events.main);
                }
                match self.events.main.find_message(root) {
                    Some(p) => match self.events.main.events[p].as_message() {
                        Some(m) => {
                            root_sender = Some(m.sender);
                            match &m.thread_summary {
                                Some(summary) => {
                                    first_reply = summary.reply_count == 1;
                                    followers = Some(summary.participants_and_followers(false));
                                },
                                None => {},
                            }
                        },
                        None => {},
                    },
                    None => {},
                }
            },
            None => {},
        }
        let delivery = Delivery {
            sender,
            thread_root: thread_root_message_index,
            message_index: message_event.message_index,
            now,
            mentioned: mention_set,
            replied_to,
            root_sender,
            first_reply,
            followers,
            everyone_mentioned,
            mentions_disabled: sender == proposals_bot_user_id,
            accepted_version: match rules_accepted {
                Some(v) => Some(
                    if v > self.rules.text.version {
                        self.rules.text.version
                    } else {
                        v
                    },
                ),
                None => None,
            },
        };
        proof {
            let d = pre.delivery_of(
                self.events,
                sender,
                thread_root_message_index,
                message_event.message_index,
                replies_to,
                mentioned@,
                rules_accepted,
                proposals_bot_user_id,
                now,
                everyone_in_text,
            );
            assert(delivery@.followers =~= d.followers);
            assert(delivery@ == d);
        }
        let users_to_notify = delivery.apply(&mut self.members);
        proof {
            lemma_delivery_in_time(delivery@, pre.members, self.members, self.rules.text.version);
        }
        let result = SendMessageResult::Success(SendMessageSuccess { message_event: shown, users_to_notify });
        proof {
            lemma_send_keeps_known(
                pre,
                sender,
                thread_root_message_index,
                message_id,
                args.content,
                replies_to,
                args.mentioned,
                forwarding,
                rules_accepted,
                proposals_bot_user_id,
                now,
                everyone_in_text,
                *self,
                result,
            );
        }
        result
    }

    /// Sends a message.
    ///
    /// The log that the message goes to must have room for it where the
    /// message is to be sent; a refusal needs none. A transfer of nothing
    /// is kept away only from a sender whose message the group would come
    /// to examine: anyone else is refused like with any other content.
    pub fn send_message(
        &mut self,
        sender: UserId,
        thread_root_message_index: Option<MessageIndex>,
        message_id: MessageId,
        content: MessageContent,
        replies_to: Option<GroupReplyContext>,
        mentioned: Vec<UserId>,
        forwarding: bool,
        rules_accepted: Option<Version>,
        proposals_bot_user_id: UserId,
        now: TimestampMillis,
    ) -> (r: SendMessageResult)
        requires
            old(self).wf(),
            old(self).send_refusal(
                sender,
                thread_root_message_index,
                content,
                forwarding,
                rules_accepted,
                proposals_bot_user_id,
                now,
            ) is None ==> old(self).events.room_for_message(thread_root_message_index),
            !old(self).offers_nothing(sender, content, forwarding, rules_accepted, proposals_bot_user_id, now),
        ensures
            final(self).wf(),
            send_message_post(
                *old(self),
                sender,
                thread_root_message_index,
                message_id,
                content,
                replies_to,
                mentioned,
                forwarding,
                rules_accepted,
                proposals_bot_user_id,
                now,
                mentions_everyone(content),
                *final(self),
                r,
            ),
    {
        let everyone_in_text = is_everyone_mentioned(&content);
        self.send_message_resolved(
            sender,
            thread_root_message_index,
            message_id,
            content,
            replies_to,
            mentioned,
            forwarding,
            rules_accepted,
            proposals_bot_user_id,
            now,
            everyone_in_text,
        )
    }
}

/// What sending a message does.
///
/// A message that the group refuses changes nothing. Otherwise the message
/// is recorded in the log, every member's record is brought up to date
/// (mentions, threads followed, the sender's acceptance of the rules), and
/// the result holds the message as its sender is shown it, at the place
/// where it landed, and names whom to notify, each user once.
pub open spec fn send_message_post(
    pre: GroupChatCore,
    sender: UserId,
    thread_root: Option<MessageIndex>,
    message_id: MessageId,
    content: MessageContent,
    replies_to: Option<GroupReplyContext>,
    mentioned: Vec<UserId>,
    forwarding: bool,
    rules_accepted: Option<Version>,
    proposals_bot_user_id: UserId,
    now: TimestampMillis,
    everyone_in_text: bool,
    post: GroupChatCore,
    r: SendMessageResult,
) -> bool {
    match pre.send_refusal(sender, thread_root, content, forwarding, rules_accepted, proposals_bot_user_id, now) {
        Some(refusal) => refused(r, refusal) && post == pre,
        None => {
            &&& r matches SendMessageResult::Success(success)
            &&& push_message_post(
                pre.events,
                PushMessageArgs {
                    sender,
                    thread_root_message_index: thread_root,
                    message_id,
                    content,
                    mentioned,
                    replies_to,
                    forwarded: forwarding,
                    now,
                },
                pre.drawn_into_thread(
                    thread_root,
                    mentioned@,
                    pre.replied_user(replies_to, pre.members.member(sender).min_visible_event_index, thread_root),
                ),
                post.events,
                landing(success.message_event),
            )
            &&& success.message_event.shows(pushed_entry(pre.events, post.events, thread_root), Some(sender))
            &&& ({
                let delivery = pre.delivery_of(
                    post.events,
                    sender,
                    thread_root,
                    success.message_event.event.message_index,
                    replies_to,
                    mentioned@,
                    rules_accepted,
                    proposals_bot_user_id,
                    now,
                    everyone_in_text,
                );
                &&& delivery.roster_after(pre.members, post.members)
                &&& forall|u: UserId|
                    success.users_to_notify@.contains(u) <==> delivery.notifies(pre.members.members@, u)
                &&& success.users_to_notify@.no_duplicates()
            })
            &&& post == (GroupChatCore { events: post.events, members: post.members, ..pre })
        },
    }
}

} // verus!
