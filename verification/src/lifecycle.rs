//! The life of a message after it was recorded: deleting and restoring,
//! tipping, and following the thread that it roots.

use vstd::prelude::*;
use crate::chat_events::{later, marked_updated, ChatEvents};
use crate::event_list::lemma_same_places;
use crate::events::{ChatEventInternal, EventWrapperInternal, MessageInternal};
use crate::message::{DeletedBy, Tip};
use crate::results::{DeleteMessageResult, UndeleteMessageResult};
use crate::seq_util::lemma_first_match_same;
use crate::thread_summary::follow_recorded;
use crate::types::{EventIndex, MessageId, MessageIndex, TimestampMillis, UserId};

verus! {

/// A tip to the sender of a message.
#[derive(Clone, Copy, Debug, PartialEq, Eq, Structural)]
pub struct TipMessageArgs {
    pub user_id: UserId,
    pub recipient: UserId,
    pub thread_root_message_index: Option<MessageIndex>,
    pub message_id: MessageId,
    pub ledger: UserId,
    pub amount: u128,
    pub now: TimestampMillis,
}

/// How an attempt to follow a thread ended, as far as the log is concerned.
#[derive(Clone, Copy, Debug, PartialEq, Eq, Structural)]
pub enum FollowOutcome {
    Success,
    AlreadyFollowing,
    ThreadNotFound,
}

/// How an attempt to stop following a thread ended, as far as the log is
/// concerned.
#[derive(Clone, Copy, Debug, PartialEq, Eq, Structural)]
pub enum UnfollowOutcome {
    Success,
    NotFollowing,
    ThreadNotFound,
}

/// How a tip ended, as far as the log is concerned.
#[derive(Clone, Copy, Debug, PartialEq, Eq, Structural)]
pub enum TipOutcome {
    Success,
    MessageNotFound,
    RecipientMismatch,
    CannotTipSelf,
}

/// The message at position `p` of the chosen log was changed at `now`:
/// its event keeps its place, index and times, every other event of every
/// log is as it was, and the event is marked as updated.
pub open spec fn edited_at(
    pre: ChatEvents,
    post: ChatEvents,
    thread_root: Option<MessageIndex>,
    p: int,
    now: TimestampMillis,
) -> bool {
    let before = pre.log(thread_root).events@[p];
    let after = post.log(thread_root).events@[p];
    &&& post.log(thread_root).events@ == pre.log(thread_root).events@.update(p, after)
    &&& post.log(thread_root).next_event_index == pre.log(thread_root).next_event_index
    &&& post.log(thread_root).next_message_index == pre.log(thread_root).next_message_index
    &&& after.index == before.index
    &&& after.timestamp == before.timestamp
    &&& after.expires_at == before.expires_at
    &&& after.is_message()
    &&& after.message().message_index == before.message().message_index
    &&& after.message().message_id == before.message().message_id
    &&& after.message().sender == before.message().sender
    &&& match thread_root {
        None => post.threads == pre.threads,
        Some(root) => {
            &&& post.main == pre.main
            &&& post.threads@.len() == pre.threads@.len()
            &&& post.thread_position(root) == pre.thread_position(root)
            &&& forall|k: int|
                0 <= k < pre.threads@.len() && k != pre.thread_position(root) ==> post.threads@[k]
                    == pre.threads@[k]
            &&& post.threads@[pre.thread_position(root)].root_message_index == root
        },
    }
    &&& post.events_ttl == pre.events_ttl
    &&& post.recently_updated@ == marked_updated(pre.recently_updated@, thread_root, before.index, now)
    &&& post.latest_event_timestamp == later(pre.latest_event_timestamp, now)
}

impl ChatEvents {
    /// Position, in the chosen log, of the message with the given
    /// identifier, if the reader may read that log and see the message.
    pub open spec fn target(
        &self,
        min_visible_event_index: EventIndex,
        thread_root: Option<MessageIndex>,
        message_id: MessageId,
    ) -> Option<int> {
        if self.log_readable(min_visible_event_index, thread_root) {
            self.log(thread_root).visible_message_id_position(
                Self::bound_in(min_visible_event_index, thread_root),
                message_id,
            )
        } else {
            None
        }
    }

    /// Whether `p` is the position of a message in the chosen log.
    pub open spec fn holds_message_at(&self, thread_root: Option<MessageIndex>, p: int) -> bool {
        &&& thread_root matches Some(root) ==> self.has_thread(root)
        &&& 0 <= p < self.log(thread_root).events@.len()
        &&& self.log(thread_root).events@[p].is_message()
    }

    /// Position, in the chosen log, of the message with the given identifier,
    /// if the reader may see it.
    pub fn find_target(
        &self,
        min_visible_event_index: EventIndex,
        thread_root: Option<MessageIndex>,
        message_id: MessageId,
    ) -> (r: Option<usize>)
        ensures
            match r {
                Some(p) => self.target(min_visible_event_index, thread_root, message_id) == Some(p as int)
                    && self.holds_message_at(thread_root, p as int) && self.log(
                    thread_root,
                ).events@[p as int].message().message_id == message_id,
                None => self.target(min_visible_event_index, thread_root, message_id) is None,
            },
    {
        match self.events_reader(min_visible_event_index, thread_root) {
            Some(reader) => reader.list.find_visible_message_by_id(reader.min_visible_event_index, message_id),
            None => None,
        }
    }

    /// The message at position `p` of the chosen log, to be changed in
    /// place. Whatever the caller makes of it is what the log holds
    /// afterwards; nothing else in the log changes.
    pub(crate) fn message_mut(&mut self, thread_root: Option<MessageIndex>, p: usize) -> (m: &mut MessageInternal)
        requires
            old(self).holds_message_at(thread_root, p as int),
        ensures
            *m == old(self).log(thread_root).events@[p as int].message(),
            final(self).latest_event_timestamp == old(self).latest_event_timestamp,
            final(self).recently_updated == old(self).recently_updated,
            final(self).events_ttl == old(self).events_ttl,
            match thread_root {
                None => {
                    &&& final(self).threads == old(self).threads
                    &&& final(self).main.next_event_index == old(self).main.next_event_index
                    &&& final(self).main.next_message_index == old(self).main.next_message_index
                    &&& final(self).main.events@ == old(self).main.events@.update(
                        p as int,
                        EventWrapperInternal {
                            event: ChatEventInternal::Message(*final(m)),
                            ..old(self).main.events@[p as int]
                        },
                    )
                },
                Some(root) => {
                    let t = old(self).thread_position(root);
                    &&& final(self).main == old(self).main
                    &&& final(self).threads@.len() == old(self).threads@.len()
                    &&& forall|k: int|
                        0 <= k < old(self).threads@.len() && k != t ==> final(self).threads@[k] == old(
                            self,
                        ).threads@[k]
                    &&& final(self).threads@[t].root_message_index == root
                    &&& final(self).threads@[t].list.next_event_index == old(self).threads@[t].list.next_event_index
                    &&& final(self).threads@[t].list.next_message_index == old(
                        self,
                    ).threads@[t].list.next_message_index
                    &&& final(self).threads@[t].list.events@ == old(self).threads@[t].list.events@.update(
                        p as int,
                        EventWrapperInternal {
                            event: ChatEventInternal::Message(*final(m)),
                            ..old(self).threads@[t].list.events@[p as int]
                        },
                    )
                },
            },
    {
        match thread_root {
            None => match &mut self.main.events[p].event {
                ChatEventInternal::Message(m) => m,
                _ => vstd::pervasive::unreached(),
            },
            Some(root) => {
                let t = match self.find_thread(root) {
                    Some(t) => t,
                    None => vstd::pervasive::unreached(),
                };
                match &mut self.threads[t].list.events[p].event {
                    ChatEventInternal::Message(m) => m,
                    _ => vstd::pervasive::unreached(),
                }
            },
        }
    }
}

impl ChatEvents {
    /// The event at position `p` of the chosen log.
    pub(crate) fn event_at(&self, thread_root: Option<MessageIndex>, p: usize) -> (w: &EventWrapperInternal)
        requires
            self.holds_message_at(thread_root, p as int),
        ensures
            *w == self.log(thread_root).events@[p as int],
    {
        match thread_root {
            None => &self.main.events[p],
            Some(root) => {
                let t = match self.find_thread(root) {
                    Some(t) => t,
                    None => vstd::pervasive::unreached(),
                };
                &self.threads[t].list.events[p]
            },
        }
    }

    /// The outcome of a request by `caller` to delete a message: the
    /// message must be one that the caller may see and that is not
    /// deleted yet, and the caller must be its sender or act as an admin.
    pub open spec fn delete_verdict(
        &self,
        caller: UserId,
        is_admin: bool,
        min_visible_event_index: EventIndex,
        thread_root: Option<MessageIndex>,
        message_id: MessageId,
    ) -> DeleteMessageResult {
        match self.target(min_visible_event_index, thread_root, message_id) {
            None => DeleteMessageResult::NotFound,
            Some(p) => {
                let m = self.log(thread_root).events@[p].message();
                if m.deleted_by is Some {
                    DeleteMessageResult::AlreadyDeleted
                } else if m.sender == caller || is_admin {
                    DeleteMessageResult::Success(m.sender)
                } else {
                    DeleteMessageResult::NotAuthorized
                }
            },
        }
    }

    /// Marks a message as deleted by `caller`. The content stays, so that
    /// the deletion can be undone.
    pub fn delete_message(
        &mut self,
        caller: UserId,
        is_admin: bool,
        min_visible_event_index: EventIndex,
        thread_root: Option<MessageIndex>,
        message_id: MessageId,
        now: TimestampMillis,
    ) -> (r: DeleteMessageResult)
        requires
            old(self).wf(),
        ensures
            final(self).wf(),
            delete_message_post(
                *old(self),
                caller,
                is_admin,
                min_visible_event_index,
                thread_root,
                message_id,
                now,
                *final(self),
                r,
            ),
    {
        let p = match self.find_target(min_visible_event_index, thread_root, message_id) {
            Some(p) => p,
            None => {
                return DeleteMessageResult::NotFound;
            },
        };
        let w = self.event_at(thread_root, p);
        let event_index = w.index;
        let (sender, deleted) = match w.as_message() {
            Some(m) => (m.sender, m.deleted_by.is_some()),
            None => vstd::pervasive::unreached(),
        };
        if deleted {
            return DeleteMessageResult::AlreadyDeleted;
        }
        if !(sender == caller || is_admin) {
            return DeleteMessageResult::NotAuthorized;
        }
        let m = self.message_mut(thread_root, p);
        m.deleted_by = Some(DeletedBy { deleted_by: caller, timestamp: now });
        m.last_updated = Some(now);
        proof {
            lemma_edit_keeps(*old(self), *self, thread_root, p as int);
            assert(self.thread_position(thread_root->Some_0) == old(self).thread_position(thread_root->Some_0));
        }
        self.mark_updated(thread_root, event_index, now);
        DeleteMessageResult::Success(sender)
    }

    /// The outcome of a request by `caller` to restore a deleted message:
    /// the message must be one that the caller may see, deleted, and not
    /// wiped; the caller must be the one who deleted it, or act as an
    /// admin where someone other than the sender deleted it.
    pub open spec fn undelete_verdict(
        &self,
        caller: UserId,
        is_admin: bool,
        min_visible_event_index: EventIndex,
        thread_root: Option<MessageIndex>,
        message_id: MessageId,
    ) -> UndeleteMessageResult {
        match self.target(min_visible_event_index, thread_root, message_id) {
            None => UndeleteMessageResult::NotFound,
            Some(p) => {
                let m = self.log(thread_root).events@[p].message();
                match m.deleted_by {
                    None => UndeleteMessageResult::NotDeleted,
                    Some(d) => if m.content is Deleted {
                        UndeleteMessageResult::HardDeleted
                    } else if d.deleted_by == caller || (is_admin && d.deleted_by != m.sender) {
                        UndeleteMessageResult::Success
                    } else {
                        UndeleteMessageResult::NotAuthorized
                    },
                }
            },
        }
    }

    /// Restores a deleted message.
    pub fn undelete_message(
        &mut self,
        caller: UserId,
        is_admin: bool,
        min_visible_event_index: EventIndex,
        thread_root: Option<MessageIndex>,
        message_id: MessageId,
        now: TimestampMillis,
    ) -> (r: UndeleteMessageResult)
        requires
            old(self).wf(),
        ensures
            final(self).wf(),
            undelete_message_post(
                *old(self),
                caller,
                is_admin,
                min_visible_event_index,
                thread_root,
                message_id,
                now,
                *final(self),
                r,
            ),
    {
        let p = match self.find_target(min_visible_event_index, thread_root, message_id) {
            Some(p) => p,
            None => {
                return UndeleteMessageResult::NotFound;
            },
        };
        let w = self.event_at(thread_root, p);
        let event_index = w.index;
        let verdict = match w.as_message() {
            Some(m) => match &m.deleted_by {
                None => UndeleteMessageResult::NotDeleted,
                Some(d) => if matches!(m.content, crate::message::MessageContent::Deleted { .. }) {
                    UndeleteMessageResult::HardDeleted
                } else if d.deleted_by == caller || (is_admin && d.deleted_by != m.sender) {
                    UndeleteMessageResult::Success
                } else {
                    UndeleteMessageResult::NotAuthorized
                },
            },
            None => vstd::pervasive::unreached(),
        };
        if !matches!(verdict, UndeleteMessageResult::Success) {
            return verdict;
        }
        let m = self.message_mut(thread_root, p);
        m.deleted_by = None;
        m.last_updated = Some(now);
        proof {
            lemma_edit_keeps(*old(self), *self, thread_root, p as int);
            assert(self.thread_position(thread_root->Some_0) == old(self).thread_position(thread_root->Some_0));
        }
        self.mark_updated(thread_root, event_index, now);
        UndeleteMessageResult::Success
    }

    /// The outcome of a tip: the message must be one that the tipper may
    /// see, sent by someone else, namely by the recipient named.
    pub open spec fn tip_verdict(&self, args: TipMessageArgs, min_visible_event_index: EventIndex) -> TipOutcome {
        match self.target(min_visible_event_index, args.thread_root_message_index, args.message_id) {
            None => TipOutcome::MessageNotFound,
            Some(p) => {
                let m = self.log(args.thread_root_message_index).events@[p].message();
                if m.sender == args.user_id {
                    TipOutcome::CannotTipSelf
                } else if m.sender != args.recipient {
                    TipOutcome::RecipientMismatch
                } else {
                    TipOutcome::Success
                }
            },
        }
    }

    /// Records a tip on a message.
    pub fn tip_message(&mut self, args: TipMessageArgs, min_visible_event_index: EventIndex) -> (r: TipOutcome)
        requires
            old(self).wf(),
        ensures
            final(self).wf(),
            tip_message_post(*old(self), args, min_visible_event_index, *final(self), r),
    {
        let thread_root = args.thread_root_message_index;
        let p = match self.find_target(min_visible_event_index, thread_root, args.message_id) {
            Some(p) => p,
            None => {
                return TipOutcome::MessageNotFound;
            },
        };
        let w = self.event_at(thread_root, p);
        let event_index = w.index;
        let sender = match w.as_message() {
            Some(m) => m.sender,
            None => vstd::pervasive::unreached(),
        };
        if sender == args.user_id {
            return TipOutcome::CannotTipSelf;
        }
        if sender != args.recipient {
            return TipOutcome::RecipientMismatch;
        }
        let m = self.message_mut(thread_root, p);
        m.tips.push(Tip { ledger: args.ledger, user_id: args.user_id, amount: args.amount });
        m.last_updated = Some(args.now);
        proof {
            lemma_edit_keeps(*old(self), *self, thread_root, p as int);
            assert(self.thread_position(thread_root->Some_0) == old(self).thread_position(thread_root->Some_0));
        }
        self.mark_updated(thread_root, event_index, args.now);
        TipOutcome::Success
    }

    /// Position in the main log of the root of a thread that exists and
    /// that the reader may see: a visible message with a thread summary.
    pub open spec fn thread_root_position(&self, min_visible_event_index: EventIndex, root: MessageIndex) -> Option<
        int,
    > {
        match self.main.visible_message_position(min_visible_event_index, root) {
            Some(p) => if self.main.events@[p].message().thread_summary is Some {
                Some(p)
            } else {
                None
            },
            None => None,
        }
    }

    /// Lets a user follow a thread.
    pub fn follow_thread(
        &mut self,
        root: MessageIndex,
        user_id: UserId,
        min_visible_event_index: EventIndex,
        now: TimestampMillis,
    ) -> (r: FollowOutcome)
        requires
            old(self).wf(),
        ensures
            final(self).wf(),
            follow_thread_post(*old(self), root, user_id, min_visible_event_index, now, true, *final(self), r is Success),
            r == match old(self).thread_root_position(min_visible_event_index, root) {
                None => FollowOutcome::ThreadNotFound,
                Some(p) => if old(self).main.events@[p].message().thread_summary->Some_0.is_followed_by(user_id) {
                    FollowOutcome::AlreadyFollowing
                } else {
                    FollowOutcome::Success
                },
            },
    {
        if self.set_follow(root, user_id, min_visible_event_index, now, true) {
            match self.main.find_visible_message(min_visible_event_index, root) {
                Some(p) => {
                    let event_index = self.main.events[p].index;
                    self.mark_updated(None, event_index, now);
                },
                None => {},
            }
            FollowOutcome::Success
        } else {
            match self.main.find_visible_message(min_visible_event_index, root) {
                Some(p) => match self.main.events[p].as_message() {
                    Some(m) => if m.thread_summary.is_some() {
                        FollowOutcome::AlreadyFollowing
                    } else {
                        FollowOutcome::ThreadNotFound
                    },
                    None => FollowOutcome::ThreadNotFound,
                },
                None => FollowOutcome::ThreadNotFound,
            }
        }
    }

    /// Lets a user stop following a thread.
    pub fn unfollow_thread(
        &mut self,
        root: MessageIndex,
        user_id: UserId,
        min_visible_event_index: EventIndex,
        now: TimestampMillis,
    ) -> (r: UnfollowOutcome)
        requires
            old(self).wf(),
        ensures
            final(self).wf(),
            follow_thread_post(
                *old(self),
                root,
                user_id,
                min_visible_event_index,
                now,
                false,
                *final(self),
                r is Success,
            ),
            r == match old(self).thread_root_position(min_visible_event_index, root) {
                None => UnfollowOutcome::ThreadNotFound,
                Some(p) => if !old(self).main.events@[p].message().thread_summary->Some_0.is_followed_by(user_id) {
                    UnfollowOutcome::NotFollowing
                } else {
                    UnfollowOutcome::Success
                },
            },
    {
        if self.set_follow(root, user_id, min_visible_event_index, now, false) {
            match self.main.find_visible_message(min_visible_event_index, root) {
                Some(p) => {
                    let event_index = self.main.events[p].index;
                    self.mark_updated(None, event_index, now);
                },
                None => {},
            }
            UnfollowOutcome::Success
        } else {
            match self.main.find_visible_message(min_visible_event_index, root) {
                Some(p) => match self.main.events[p].as_message() {
                    Some(m) => if m.thread_summary.is_some() {
                        UnfollowOutcome::NotFollowing
                    } else {
                        UnfollowOutcome::ThreadNotFound
                    },
                    None => UnfollowOutcome::ThreadNotFound,
                },
                None => UnfollowOutcome::ThreadNotFound,
            }
        }
    }

    /// Records in the summary of a thread that a user follows it, or no
    /// longer does. Returns whether that changed anything; the event is
    /// not yet marked as updated.
    fn set_follow(
        &mut self,
        root: MessageIndex,
        user_id: UserId,
        min_visible_event_index: EventIndex,
        now: TimestampMillis,
        follow: bool,
    ) -> (changed: bool)
        requires
            old(self).wf(),
        ensures
            final(self).wf(),
            changed == (old(self).thread_root_position(min_visible_event_index, root) matches Some(p) && old(
                self,
            ).main.events@[p].message().thread_summary->Some_0.is_followed_by(user_id) != follow),
            !changed ==> *final(self) == *old(self),
            changed ==> {
                let p = old(self).thread_root_position(min_visible_event_index, root)->Some_0;
                let before = old(self).main.events@[p].message();
                let after = final(self).main.events@[p].message();
                &&& final(self).main.visible_message_position(min_visible_event_index, root) == Some(p)
                &&& final(self).main.events@ == old(self).main.events@.update(p, final(self).main.events@[p])
                &&& final(self).main.events@[p] == (EventWrapperInternal {
                    event: ChatEventInternal::Message(after),
                    ..old(self).main.events@[p]
                })
                &&& after.thread_summary is Some
                &&& follow_recorded(before.thread_summary->Some_0, after.thread_summary->Some_0, user_id, follow)
                &&& after == (MessageInternal {
                    thread_summary: after.thread_summary,
                    last_updated: Some(now),
                    ..before
                })
                &&& final(self).main.next_event_index == old(self).main.next_event_index
                &&& final(self).main.next_message_index == old(self).main.next_message_index
                &&& final(self).threads == old(self).threads
                &&& final(self).events_ttl == old(self).events_ttl
                &&& final(self).recently_updated == old(self).recently_updated
                &&& final(self).latest_event_timestamp == old(self).latest_event_timestamp
            },
    {
        let p = match self.main.find_visible_message(min_visible_event_index, root) {
            Some(p) => p,
            None => {
                return false;
            },
        };
        let follows = match self.main.events[p].as_message() {
            Some(m) => match &m.thread_summary {
                Some(summary) => summary.follows(user_id),
                None => {
                    return false;
                },
            },
            None => vstd::pervasive::unreached(),
        };
        if follows == follow {
            return false;
        }
        let m = self.message_mut(None, p);
        match &mut m.thread_summary {
            Some(summary) => {
                summary.set_follow(user_id, now, follow);
            },
            None => {},
        }
        m.last_updated = Some(now);
        proof {
            lemma_edit_keeps(*old(self), *self, None, p as int);
        }
        true
    }
}

/// What deleting a message does: on success the message carries the mark
/// of its deletion and is marked as updated; otherwise nothing changes.
pub open spec fn delete_message_post(
    pre: ChatEvents,
    caller: UserId,
    is_admin: bool,
    min_visible_event_index: EventIndex,
    thread_root: Option<MessageIndex>,
    message_id: MessageId,
    now: TimestampMillis,
    post: ChatEvents,
    r: DeleteMessageResult,
) -> bool {
    &&& r == pre.delete_verdict(caller, is_admin, min_visible_event_index, thread_root, message_id)
    &&& if r is Success {
        let p = pre.target(min_visible_event_index, thread_root, message_id)->Some_0;
        &&& edited_at(pre, post, thread_root, p, now)
        &&& post.log(thread_root).events@[p].message() == (MessageInternal {
            deleted_by: Some(DeletedBy { deleted_by: caller, timestamp: now }),
            last_updated: Some(now),
            ..pre.log(thread_root).events@[p].message()
        })
    } else {
        post == pre
    }
}

/// What restoring a message does: on success the mark of its deletion is
/// gone and the message is marked as updated; otherwise nothing changes.
pub open spec fn undelete_message_post(
    pre: ChatEvents,
    caller: UserId,
    is_admin: bool,
    min_visible_event_index: EventIndex,
    thread_root: Option<MessageIndex>,
    message_id: MessageId,
    now: TimestampMillis,
    post: ChatEvents,
    r: UndeleteMessageResult,
) -> bool {
    &&& r == pre.undelete_verdict(caller, is_admin, min_visible_event_index, thread_root, message_id)
    &&& if r is Success {
        let p = pre.target(min_visible_event_index, thread_root, message_id)->Some_0;
        &&& edited_at(pre, post, thread_root, p, now)
        &&& post.log(thread_root).events@[p].message() == (MessageInternal {
            deleted_by: None,
            last_updated: Some(now),
            ..pre.log(thread_root).events@[p].message()
        })
    } else {
        post == pre
    }
}

/// What a tip does: on success the message has one more tip and is marked
/// as updated; otherwise nothing changes.
pub open spec fn tip_message_post(
    pre: ChatEvents,
    args: TipMessageArgs,
    min_visible_event_index: EventIndex,
    post: ChatEvents,
    r: TipOutcome,
) -> bool {
    &&& r == pre.tip_verdict(args, min_visible_event_index)
    &&& if r is Success {
        let root = args.thread_root_message_index;
        let p = pre.target(min_visible_event_index, root, args.message_id)->Some_0;
        let before = pre.log(root).events@[p].message();
        let after = post.log(root).events@[p].message();
        &&& edited_at(pre, post, root, p, args.now)
        &&& after.tips@ == before.tips@.push(Tip { ledger: args.ledger, user_id: args.user_id, amount: args.amount })
        &&& after == (MessageInternal { tips: after.tips, last_updated: Some(args.now), ..before })
    } else {
        post == pre
    }
}

/// What following or unfollowing a thread does to the log: where it
/// `happened`, the summary of the thread records the choice and the root
/// message is marked as updated; otherwise nothing changes.
pub open spec fn follow_thread_post(
    pre: ChatEvents,
    root: MessageIndex,
    user_id: UserId,
    min_visible_event_index: EventIndex,
    now: TimestampMillis,
    follow: bool,
    post: ChatEvents,
    happened: bool,
) -> bool {
    if happened {
        let p = pre.thread_root_position(min_visible_event_index, root)->Some_0;
        let before = pre.main.events@[p].message();
        let after = post.main.events@[p].message();
        &&& pre.thread_root_position(min_visible_event_index, root) is Some
        &&& post.thread_root_position(min_visible_event_index, root) == Some(p)
        &&& edited_at(pre, post, None, p, now)
        &&& follow_recorded(before.thread_summary->Some_0, after.thread_summary->Some_0, user_id, follow)
        &&& after == (MessageInternal { thread_summary: after.thread_summary, last_updated: Some(now), ..before })
    } else {
        post == pre
    }
}

/// A log in which one message was changed in place, keeping its indexes
/// and identifier, is well formed if it was, and finds every event and
/// message where it found them before.
pub proof fn lemma_edit_keeps(pre: ChatEvents, post: ChatEvents, thread_root: Option<MessageIndex>, p: int)
    requires
        pre.wf(),
        pre.holds_message_at(thread_root, p),
        post.events_ttl == pre.events_ttl,
        post.latest_event_timestamp >= pre.latest_event_timestamp,
        match thread_root {
            None => {
                &&& post.threads == pre.threads
                &&& post.main.next_event_index == pre.main.next_event_index
                &&& post.main.next_message_index == pre.main.next_message_index
                &&& post.main.events@ == pre.main.events@.update(p, post.main.events@[p])
                &&& same_place(pre.main.events@[p], post.main.events@[p])
                &&& post.main.events@[p].timestamp == pre.main.events@[p].timestamp
            },
            Some(root) => {
                let t = pre.thread_position(root);
                &&& post.main == pre.main
                &&& post.threads@.len() == pre.threads@.len()
                &&& forall|k: int| 0 <= k < pre.threads@.len() && k != t ==> post.threads@[k] == pre.threads@[k]
                &&& post.threads@[t].root_message_index == root
                &&& post.threads@[t].list.next_event_index == pre.threads@[t].list.next_event_index
                &&& post.threads@[t].list.next_message_index == pre.threads@[t].list.next_message_index
                &&& post.threads@[t].list.events@ == pre.threads@[t].list.events@.update(
                    p,
                    post.threads@[t].list.events@[p],
                )
                &&& same_place(pre.threads@[t].list.events@[p], post.threads@[t].list.events@[p])
                &&& post.threads@[t].list.events@[p].timestamp == pre.threads@[t].list.events@[p].timestamp
            },
        },
    ensures
        post.wf(),
        forall|root: MessageIndex| #[trigger] post.thread_position(root) == pre.thread_position(root),
        forall|min: EventIndex, root: Option<MessageIndex>| #[trigger]
            post.log_readable(min, root) == pre.log_readable(min, root),
        forall|min: EventIndex, root: Option<MessageIndex>, id: MessageId| #[trigger]
            post.target(min, root, id) == pre.target(min, root, id),
        forall|min: EventIndex, root: Option<MessageIndex>, mi: MessageIndex| #[trigger]
            post.spec_is_accessible(min, root, mi) == pre.spec_is_accessible(min, root, mi),
        forall|min: EventIndex, mi: MessageIndex| #[trigger]
            post.main.visible_message_position(min, mi) == pre.main.visible_message_position(min, mi),
{
    if thread_root is Some {
        crate::seq_util::lemma_first_match(pre.threads@, crate::chat_events::rooted_at(thread_root->Some_0));
    }
    assert forall|root: MessageIndex| #[trigger] post.thread_position(root) == pre.thread_position(root) by {
        lemma_first_match_same(pre.threads@, post.threads@, crate::chat_events::rooted_at(root));
    }
    lemma_same_places(pre.main, post.main);
    assert forall|k: int| 0 <= k < pre.threads@.len() implies (#[trigger] post.threads@[k]).list.wf()
        && post.threads@[k].list.next_event_index > 0 by {
        lemma_same_places(pre.threads@[k].list, post.threads@[k].list);
    }
    assert forall|min: EventIndex, root: Option<MessageIndex>| #[trigger]
        post.log_readable(min, root) == pre.log_readable(min, root) by {}
    assert forall|min: EventIndex, root: Option<MessageIndex>, id: MessageId| #[trigger]
        post.target(min, root, id) == pre.target(min, root, id) by {
        if root is Some && pre.has_thread(root->Some_0) {
            let t = pre.thread_position(root->Some_0);
            crate::seq_util::lemma_first_match(pre.threads@, crate::chat_events::rooted_at(root->Some_0));
            assert(0 <= t < pre.threads@.len());
            if thread_root is Some && t == pre.thread_position(thread_root->Some_0) {
                assert(post.threads@[t].list.events@.len() == pre.threads@[t].list.events@.len());
            } else {
                assert(post.threads@[t] == pre.threads@[t]);
            }
            lemma_same_places(pre.threads@[t].list, post.threads@[t].list);
        }
    }
    assert forall|min: EventIndex, root: Option<MessageIndex>, mi: MessageIndex| #[trigger]
        post.spec_is_accessible(min, root, mi) == pre.spec_is_accessible(min, root, mi) by {
        if root is Some && pre.has_thread(root->Some_0) {
            let t = pre.thread_position(root->Some_0);
            crate::seq_util::lemma_first_match(pre.threads@, crate::chat_events::rooted_at(root->Some_0));
            assert(0 <= t < pre.threads@.len());
            if thread_root is Some && t == pre.thread_position(thread_root->Some_0) {
                assert(post.threads@[t].list.events@.len() == pre.threads@[t].list.events@.len());
            } else {
                assert(post.threads@[t] == pre.threads@[t]);
            }
            lemma_same_places(pre.threads@[t].list, post.threads@[t].list);
        }
    }
}

/// Two events that keep place: the same index, and a message with the same
/// message index and identifier if either holds one.
pub open spec fn same_place(before: EventWrapperInternal, after: EventWrapperInternal) -> bool {
    &&& after.index == before.index
    &&& after.is_message() == before.is_message()
    &&& after.is_message() ==> after.message().message_index == before.message().message_index
        && after.message().message_id == before.message().message_id
}

} // verus!
