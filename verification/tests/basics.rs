use group_chat_core::access_rules::AccessRulesInternal;
use group_chat_core::chat_events::ChatEvents;
use group_chat_core::events::ChatEventInternal;
use group_chat_core::invited_users::{InvitedUsers, UserInvitation};
use group_chat_core::members::{GroupMembers, MAX_RETAINED_MENTIONS};
use group_chat_core::message::{
    ContentValidationError, CryptoTransaction, MessageContent, TransferStatus,
};
use group_chat_core::seq_util::{copy_ids, set_of_ids};
use group_chat_core::sorted_set;
use group_chat_core::thread_summary::ThreadSummaryInternal;
use group_chat_core::types::{
    GroupPermissionRole, GroupPermissions, GroupRole, OptionUpdate, Rules, Timestamped, UpdatedRules, Versioned,
    VersionedRules,
};

fn permissions(all: GroupPermissionRole) -> GroupPermissions {
    GroupPermissions {
        change_permissions: GroupPermissionRole::Owner,
        change_roles: all,
        add_members: GroupPermissionRole::Owner,
        remove_members: all,
        block_users: GroupPermissionRole::Owner,
        delete_messages: all,
        update_group: all,
        pin_messages: all,
        invite_users: all,
        create_polls: all,
        send_messages: all,
        react_to_messages: all,
        reply_in_thread: all,
        mention_all_members: all,
    }
}

#[test]
fn rules_start_at_version_zero() {
    let rules = AccessRulesInternal::new(Rules { text: "be kind".to_string(), enabled: true });
    assert_eq!(rules.text.version, 0);
    assert!(rules.enabled);
    assert_eq!(rules.text.value, "be kind");
    assert_eq!(rules.text_if_enabled().map(|t| t.version), Some(0));
}

#[test]
fn rules_update_bumps_version_only_when_text_changes() {
    let mut rules = AccessRulesInternal::new(Rules { text: "be kind".to_string(), enabled: true });
    let same = rules.update(UpdatedRules { text: "be kind".to_string(), enabled: true, new_version: true });
    assert_eq!(same, None);
    let flipped = rules.update(UpdatedRules { text: "be kind".to_string(), enabled: false, new_version: true });
    assert_eq!(flipped, Some(0));
    let changed = rules.update(UpdatedRules { text: "be nice".to_string(), enabled: false, new_version: true });
    assert_eq!(changed, Some(1));
    let quiet = rules.update(UpdatedRules { text: "be good".to_string(), enabled: false, new_version: false });
    assert_eq!(quiet, Some(1));
    assert_eq!(rules.text.value, "be good");
    assert!(rules.text_if_enabled().is_none());
    let shown = rules.to_versioned_rules();
    assert_eq!((shown.text.as_str(), shown.version, shown.enabled), ("be good", 1, false));
    let plain = rules.to_rules();
    assert_eq!((plain.text.as_str(), plain.enabled), ("be good", false));
}

#[test]
fn version_sticks_at_its_largest_value() {
    let mut text = Versioned::new("a".to_string(), u32::MAX - 1);
    text.update("b".to_string(), true);
    assert_eq!(text.version, u32::MAX);
    text.update("c".to_string(), true);
    assert_eq!(text.version, u32::MAX);
    assert_eq!(text.value, "c");
}

#[test]
fn option_updates_expand() {
    assert_eq!(OptionUpdate::<u8>::NoChange.expand(), None);
    assert_eq!(OptionUpdate::<u8>::SetToNone.expand(), Some(None));
    assert_eq!(OptionUpdate::SetToSome(7u8).expand(), Some(Some(7)));
    assert!(!OptionUpdate::<u8>::NoChange.has_update());
    assert!(OptionUpdate::<u8>::SetToNone.has_update());
    assert!(matches!(OptionUpdate::from_update(Some(3u8)), OptionUpdate::SetToSome(3)));
    assert!(matches!(OptionUpdate::<u8>::from_update(None), OptionUpdate::SetToNone));
    let stamped = Timestamped::new(5u8, 99);
    assert_eq!((stamped.value, stamped.timestamp), (5, 99));
}

#[test]
fn roles_meet_thresholds_by_seniority() {
    let roles = [GroupRole::Owner, GroupRole::Admin, GroupRole::Moderator, GroupRole::Participant];
    let thresholds = [
        GroupPermissionRole::Owner,
        GroupPermissionRole::Admins,
        GroupPermissionRole::Moderators,
        GroupPermissionRole::Members,
    ];
    for (r, role) in roles.iter().enumerate() {
        for (t, threshold) in thresholds.iter().enumerate() {
            assert_eq!(role.is_permitted(*threshold), r <= t, "{:?} {:?}", role, threshold);
        }
        for (o, other) in roles.iter().enumerate() {
            assert_eq!(role.is_same_or_senior(*other), r <= o);
        }
    }
    assert!(GroupRole::Owner.is_owner() && !GroupRole::Admin.is_owner());
    assert!(GroupRole::Admin.is_admin() && GroupRole::Moderator.is_moderator());
}

#[test]
fn each_action_goes_by_its_own_slot() {
    let mut p = permissions(GroupPermissionRole::Owner);
    let member = GroupRole::Participant;
    assert!(!member.can_send_messages(&p));
    p.send_messages = GroupPermissionRole::Members;
    assert!(member.can_send_messages(&p));
    assert!(!member.can_reply_in_thread(&p));
    p.reply_in_thread = GroupPermissionRole::Members;
    assert!(member.can_reply_in_thread(&p));
    p.create_polls = GroupPermissionRole::Members;
    assert!(member.can_create_polls(&p));
    p.react_to_messages = GroupPermissionRole::Members;
    assert!(member.can_react_to_messages(&p));
    p.pin_messages = GroupPermissionRole::Members;
    assert!(member.can_pin_messages(&p));
    p.invite_users = GroupPermissionRole::Members;
    assert!(member.can_invite_users(&p));
    p.delete_messages = GroupPermissionRole::Members;
    assert!(member.can_delete_messages(&p));
    p.update_group = GroupPermissionRole::Members;
    assert!(member.can_update_group(&p));
    p.mention_all_members = GroupPermissionRole::Members;
    assert!(member.can_mention_everyone(&p));
    p.remove_members = GroupPermissionRole::Members;
    assert!(member.can_remove_members(&p));
    assert!(member.can_remove_members_with_role(GroupRole::Participant, &p));
    assert!(!member.can_remove_members_with_role(GroupRole::Moderator, &p));
    p.change_roles = GroupPermissionRole::Members;
    assert!(member.can_change_roles(GroupRole::Admin, &p));
    assert!(!member.can_change_roles(GroupRole::Owner, &p));
    assert!(GroupRole::Owner.can_change_roles(GroupRole::Owner, &p));
    assert!(!GroupRole::Admin.can_change_permissions());
    assert!(GroupRole::Owner.can_change_permissions());
    assert!(!GroupRole::Admin.can_add_members() && GroupRole::Owner.can_add_members());
    assert!(!GroupRole::Admin.can_block_users() && GroupRole::Owner.can_block_users());
    assert!(!GroupRole::Admin.can_change_group_visibility());
    assert!(GroupRole::Owner.can_change_group_visibility());
}

#[test]
fn sorted_set_inserts_and_removes() {
    let mut set: Vec<u32> = Vec::new();
    for x in [5, 1, 9, 5, 3, 1] {
        sorted_set::insert(&mut set, x);
    }
    assert_eq!(set, vec![1, 3, 5, 9]);
    assert_eq!(sorted_set::search(&set, 5), Ok(2));
    assert_eq!(sorted_set::search(&set, 4), Err(2));
    assert_eq!(sorted_set::search(&set, 0), Err(0));
    assert_eq!(sorted_set::search(&set, 10), Err(4));
    assert!(sorted_set::remove(&mut set, 3));
    assert!(!sorted_set::remove(&mut set, 3));
    assert_eq!(set, vec![1, 5, 9]);
}

#[test]
fn mentions_index_drops_the_oldest() {
    let mut members = GroupMembers::new(1, false, 100);
    let member = &mut members.members[0];
    for i in 0..(MAX_RETAINED_MENTIONS as u32 + 5) {
        member.add_mention(None, i, 1000 + i as u64);
    }
    assert_eq!(member.mentions.len(), MAX_RETAINED_MENTIONS);
    assert_eq!(member.mentions[0].message_index, 5);
    assert_eq!(member.mentions.last().unwrap().message_index, MAX_RETAINED_MENTIONS as u32 + 4);
}

#[test]
fn rules_acceptance_never_goes_back() {
    let mut members = GroupMembers::new(1, false, 100);
    let member = &mut members.members[0];
    assert_eq!(member.rules_accepted.map(|a| (a.value, a.timestamp)), Some((0, 100)));
    member.accept_rules(3, 200);
    assert_eq!(member.rules_accepted.map(|a| (a.value, a.timestamp)), Some((3, 200)));
    member.accept_rules(2, 300);
    assert_eq!(member.rules_accepted.map(|a| (a.value, a.timestamp)), Some((3, 200)));
    member.accept_rules(3, 400);
    assert_eq!(member.rules_accepted.map(|a| (a.value, a.timestamp)), Some((3, 200)));
}

#[test]
fn invitations_are_replaced_in_place() {
    let mut invited = InvitedUsers::new();
    let invitation = |invited: u64, by: u64, timestamp: u64| UserInvitation {
        invited,
        invited_by: by,
        timestamp,
        min_visible_event_index: 0,
        min_visible_message_index: 0,
    };
    invited.add(invitation(5, 1, 100));
    invited.add(invitation(6, 1, 200));
    invited.add(invitation(5, 2, 300));
    assert_eq!(invited.users(), vec![5, 6]);
    assert_eq!(invited.get(5).unwrap().invited_by, 2);
    assert_eq!(invited.last_updated(), 300);
    assert!(invited.contains(6) && !invited.contains(7));
    assert_eq!(invited.remove(7, 400), None);
    assert_eq!(invited.last_updated(), 300);
    assert_eq!(invited.remove(5, 400).map(|i| i.invited_by), Some(2));
    assert_eq!(invited.last_updated(), 400);
    assert_eq!(invited.len(), 1);
}

#[test]
fn thread_summary_tracks_followers() {
    let mut summary = ThreadSummaryInternal::new(10, 0, 1000);
    assert!(summary.follows(10));
    assert!(!summary.follows(11));
    assert!(summary.set_follow(11, 1100, true));
    assert!(!summary.set_follow(11, 1200, true));
    assert!(!summary.set_follow(10, 1200, true));
    assert!(summary.set_follow(10, 1300, false));
    assert!(!summary.set_follow(12, 1300, false));
    assert!(!summary.follows(10));
    summary.mark_reply_added(12, 1, 1400);
    summary.mark_reply_added(10, 2, 1500);
    assert_eq!(summary.participant_ids, vec![10, 12]);
    assert_eq!(summary.reply_count, 3);
    assert_eq!((summary.latest_event_index, summary.latest_event_timestamp), (2, 1500));
    assert_eq!(summary.participants_and_followers(false), vec![12, 11]);
    assert_eq!(summary.participants_and_followers(true), vec![10, 12, 11]);
    let seen = summary.hydrate(Some(11));
    assert!(seen.followed_by_me);
    assert_eq!(seen.participant_ids, vec![10, 12]);
    assert_eq!(seen.reply_count, 3);
    assert!(!summary.hydrate(Some(10)).followed_by_me);
    assert!(!summary.hydrate(None).followed_by_me);
}

#[test]
fn content_is_checked_first_failure_first() {
    let zero = MessageContent::Crypto {
        transfer: CryptoTransaction { status: TransferStatus::Completed, recipient: 2, amount: 0 },
        caption: String::new(),
    };
    assert_eq!(zero.validate_for_new_group_message(1, false, 9, 100), Err(ContentValidationError::TransferCannotBeZero));
    assert_eq!(zero.validate_for_new_group_message(1, true, 9, 100), Err(ContentValidationError::InvalidTypeForForwarding));
    let proposal = MessageContent::GovernanceProposal { governance_canister_id: 1, proposal_id: 2 };
    assert_eq!(proposal.validate_for_new_group_message(9, false, 9, 100), Ok(()));
    assert_eq!(
        proposal.validate_for_new_group_message(1, true, 9, 100),
        Err(ContentValidationError::UnauthorizedToSendProposalMessages)
    );
    let caption = MessageContent::File { caption: "c".repeat(5001), blob_id: Some(1) };
    assert_eq!(caption.validate_for_new_group_message(1, false, 9, 100), Err(ContentValidationError::TextTooLong(5000)));
    let umlauts = MessageContent::Text { text: "ä".repeat(2501) };
    assert_eq!(umlauts.validate_for_new_group_message(1, false, 9, 100), Err(ContentValidationError::TextTooLong(5000)));
    let fits = MessageContent::Text { text: "ä".repeat(2500) };
    assert_eq!(fits.validate_for_new_group_message(1, false, 9, 100), Ok(()));
    assert_eq!(fits.text().map(|t| t.len()), Some(5000));
    assert_eq!(zero.transfer().map(|t| t.amount), Some(0));
    assert!(proposal.text().is_none());
}

#[test]
fn log_gives_out_indexes_once() {
    let mut log = ChatEvents::new_group_chat("n".to_string(), "d".to_string(), 1, Some(500), 1000);
    assert_eq!(log.main.events[0].expires_at, None);
    let first = log.push_main_event(ChatEventInternal::ParticipantLeft { user_id: 3 }, 2000);
    assert_eq!((first.index, first.timestamp, first.expires_at), (1, 2000, Some(2500)));
    let second = log.push_main_event(ChatEventInternal::ParticipantLeft { user_id: 4 }, u64::MAX - 10);
    assert_eq!((second.index, second.expires_at), (2, Some(u64::MAX)));
    assert!(log.has_updates_since(2000));
    assert_eq!(log.main.latest_event_index(), Some(2));
    assert_eq!(log.main.find_event(1), Some(1));
    assert_eq!(log.main.find_event(7), None);
    assert_eq!(log.main.lower_bound(2), 2);
    assert_eq!(log.main.lower_bound(3), 3);
    assert!(!log.is_accessible(0, None, 0));
    assert!(log.is_event_accessible(0, None, 2));
    assert!(log.is_event_accessible(2, None, 2));
    assert!(!log.is_event_accessible(3, None, 2));
    assert!(!log.is_event_accessible(0, None, 3));
    assert!(!log.is_event_accessible(0, Some(0), 0));
    assert_eq!(log.get_events_time_to_live().value, Some(500));
    log.set_events_time_to_live(1, None, 3000);
    assert_eq!(log.get_events_time_to_live().value, None);
    assert_eq!(log.get_events_time_to_live().timestamp, 3000);
    assert_eq!(log.main.events.last().unwrap().expires_at, Some(3500));
}

#[test]
fn rules_convert_to_their_public_forms() {
    let make = || {
        let mut rules = AccessRulesInternal::new(Rules { text: "be kind".to_string(), enabled: true });
        rules.update(UpdatedRules { text: "be nice".to_string(), enabled: true, new_version: true });
        rules
    };
    let plain = Rules::from(make());
    assert_eq!((plain.text.as_str(), plain.enabled), ("be nice", true));
    let shown: VersionedRules = make().into();
    assert_eq!((shown.text.as_str(), shown.version, shown.enabled), ("be nice", 1, true));
}

#[test]
fn identifiers_are_gathered_into_a_set() {
    let set = set_of_ids(&vec![3, 1, 3, 7]);
    assert_eq!(set.len(), 3);
    assert!(set.contains(&1) && set.contains(&3) && set.contains(&7));
    assert!(!set.contains(&2));
    assert!(set_of_ids(&Vec::new()).is_empty());
    assert_eq!(copy_ids(&vec![3, 1, 3]), vec![3, 1, 3]);
}

#[test]
fn ascending_vectors_are_told_apart() {
    assert!(sorted_set::is_strictly_ascending(&Vec::new()));
    assert!(sorted_set::is_strictly_ascending(&vec![4]));
    assert!(sorted_set::is_strictly_ascending(&vec![1, 2, 9]));
    assert!(!sorted_set::is_strictly_ascending(&vec![1, 1]));
    assert!(!sorted_set::is_strictly_ascending(&vec![1, 3, 2]));
}
