use hot_or_not::bets::{BetDirection, BetOnCurrentlyViewingPostError, BettingStatus};
use hot_or_not::post::{Post, PostDetailsFromFrontend};
use hot_or_not::principal_id::PrincipalId;
use hot_or_not::{DURATION_OF_EACH_SLOT_IN_SECONDS, TOTAL_DURATION_OF_ALL_SLOTS_IN_SECONDS};

fn get_mock_user_alice_principal_id() -> PrincipalId {
    PrincipalId::from_bytes(vec![0xA1, 0x01])
}

fn get_mock_user_alice_canister_id() -> PrincipalId {
    PrincipalId::from_bytes(vec![0xA2, 0x01])
}

fn test_post_details() -> PostDetailsFromFrontend {
    PostDetailsFromFrontend {
        description: "Doggos and puppers".into(),
        hashtags: vec!["doggo".into(), "pupper".into()],
        video_uid: "abcd#1234".into(),
        creator_consent_for_inclusion_in_hot_or_not: true,
    }
}

#[test]
fn test_get_hot_or_not_betting_status_for_this_post() {
    let post_creation_time: u64 = 1_700_000_000;
    let mut post = Post::new(0, &test_post_details(), post_creation_time);

    let result = post.get_hot_or_not_betting_status_for_this_post(
        post_creation_time + TOTAL_DURATION_OF_ALL_SLOTS_IN_SECONDS + 1,
        &PrincipalId::anonymous(),
    );

    assert_eq!(result, BettingStatus::BettingClosed);

    let current_time = post_creation_time;

    let result =
        post.get_hot_or_not_betting_status_for_this_post(current_time, &PrincipalId::anonymous());

    assert_eq!(
        result,
        BettingStatus::BettingOpen {
            started_at: post.created_at,
            number_of_participants: 0,
            ongoing_slot: 1,
            ongoing_room: 1,
            has_this_user_participated_in_this_post: None,
        }
    );

    let result = post.get_hot_or_not_betting_status_for_this_post(
        current_time + DURATION_OF_EACH_SLOT_IN_SECONDS * 2 + 1,
        &PrincipalId::anonymous(),
    );

    assert_eq!(
        result,
        BettingStatus::BettingOpen {
            started_at: post.created_at,
            number_of_participants: 0,
            ongoing_slot: 3,
            ongoing_room: 1,
            has_this_user_participated_in_this_post: None,
        }
    );

    let result = post.place_hot_or_not_bet(
        &get_mock_user_alice_principal_id(),
        &get_mock_user_alice_canister_id(),
        100,
        &BetDirection::Hot,
        current_time + DURATION_OF_EACH_SLOT_IN_SECONDS * 2 + 1,
    );

    assert!(result.is_ok());

    let result = post.get_hot_or_not_betting_status_for_this_post(
        current_time + DURATION_OF_EACH_SLOT_IN_SECONDS * 2 + 1,
        &get_mock_user_alice_principal_id(),
    );

    assert_eq!(
        result,
        BettingStatus::BettingOpen {
            started_at: post.created_at,
            number_of_participants: 1,
            ongoing_slot: 3,
            ongoing_room: 1,
            has_this_user_participated_in_this_post: Some(true),
        }
    );

    (100..200u8).for_each(|num| {
        let result = post.place_hot_or_not_bet(
            &PrincipalId::from_bytes(vec![num]),
            &PrincipalId::from_bytes(vec![num]),
            100,
            &BetDirection::Hot,
            current_time + DURATION_OF_EACH_SLOT_IN_SECONDS * 2 + 1,
        );

        assert!(result.is_ok());
    });

    let result = post.place_hot_or_not_bet(
        &PrincipalId::from_bytes(vec![200]),
        &PrincipalId::from_bytes(vec![200]),
        100,
        &BetDirection::Hot,
        current_time + DURATION_OF_EACH_SLOT_IN_SECONDS * 2 + 1,
    );

    assert!(result.is_ok());

    let result = post.get_hot_or_not_betting_status_for_this_post(
        current_time + DURATION_OF_EACH_SLOT_IN_SECONDS * 2 + 1,
        &PrincipalId::from_bytes(vec![100]),
    );

    assert_eq!(
        result,
        BettingStatus::BettingOpen {
            started_at: post.created_at,
            number_of_participants: 2,
            ongoing_slot: 3,
            ongoing_room: 2,
            has_this_user_participated_in_this_post: Some(true),
        }
    );

    let result = post.place_hot_or_not_bet(
        &get_mock_user_alice_principal_id(),
        &get_mock_user_alice_canister_id(),
        100,
        &BetDirection::Hot,
        current_time + DURATION_OF_EACH_SLOT_IN_SECONDS * 2 + 1,
    );

    assert!(result.is_err());

    let result = post.get_hot_or_not_betting_status_for_this_post(
        current_time + DURATION_OF_EACH_SLOT_IN_SECONDS * 2 + 1,
        &get_mock_user_alice_principal_id(),
    );

    assert_eq!(
        result,
        BettingStatus::BettingOpen {
            started_at: post.created_at,
            number_of_participants: 2,
            ongoing_slot: 3,
            ongoing_room: 2,
            has_this_user_participated_in_this_post: Some(true),
        }
    );

    let result = post.place_hot_or_not_bet(
        &get_mock_user_alice_principal_id(),
        &get_mock_user_alice_canister_id(),
        100,
        &BetDirection::Hot,
        current_time + DURATION_OF_EACH_SLOT_IN_SECONDS * 4 + 1,
    );

    assert!(result.is_err());

    let result = post.get_hot_or_not_betting_status_for_this_post(
        current_time + DURATION_OF_EACH_SLOT_IN_SECONDS * 4 + 1,
        &get_mock_user_alice_principal_id(),
    );

    assert_eq!(
        result,
        BettingStatus::BettingOpen {
            started_at: post.created_at,
            number_of_participants: 0,
            ongoing_slot: 5,
            ongoing_room: 1,
            has_this_user_participated_in_this_post: Some(true),
        }
    );
}

#[test]
fn test_has_this_principal_already_bet_on_this_post() {
    let post_creation_time: u64 = 1_700_000_000;
    let mut post = Post::new(0, &test_post_details(), post_creation_time);

    let result =
        post.has_this_principal_already_bet_on_this_post(&get_mock_user_alice_principal_id());

    assert!(!result);

    post.place_hot_or_not_bet(
        &get_mock_user_alice_principal_id(),
        &get_mock_user_alice_canister_id(),
        100,
        &BetDirection::Hot,
        post_creation_time,
    )
    .ok();

    let result =
        post.has_this_principal_already_bet_on_this_post(&get_mock_user_alice_principal_id());

    assert!(result);
}

#[test]
fn test_place_hot_or_not_bet() {
    let post_creation_time: u64 = 1_700_000_000;
    let mut post = Post::new(0, &test_post_details(), post_creation_time);

    assert!(post.hot_or_not_details.is_some());

    let result = post.place_hot_or_not_bet(
        &get_mock_user_alice_principal_id(),
        &get_mock_user_alice_canister_id(),
        100,
        &BetDirection::Hot,
        post_creation_time + TOTAL_DURATION_OF_ALL_SLOTS_IN_SECONDS + 1,
    );

    assert_eq!(result, Err(BetOnCurrentlyViewingPostError::BettingClosed));

    let result = post.place_hot_or_not_bet(
        &get_mock_user_alice_principal_id(),
        &get_mock_user_alice_canister_id(),
        100,
        &BetDirection::Hot,
        post_creation_time,
    );

    assert_eq!(
        result,
        Ok(BettingStatus::BettingOpen {
            started_at: post.created_at,
            number_of_participants: 1,
            ongoing_slot: 1,
            ongoing_room: 1,
            has_this_user_participated_in_this_post: Some(true)
        })
    );
    let hot_or_not_details = post.hot_or_not_details.clone().unwrap();
    assert_eq!(hot_or_not_details.slot_history.len(), 1);
    let slot_details = hot_or_not_details.get_slot(1).unwrap();
    assert_eq!(slot_details.room_details.len(), 1);
    let room_detail = slot_details.get_room(1).unwrap();
    let bets_made = &room_detail.bets_made;
    assert_eq!(bets_made.len(), 1);
    assert_eq!(
        room_detail
            .get_bet(&get_mock_user_alice_principal_id())
            .unwrap()
            .amount,
        100
    );
    assert_eq!(
        room_detail
            .get_bet(&get_mock_user_alice_principal_id())
            .unwrap()
            .bet_direction,
        BetDirection::Hot
    );
    assert_eq!(room_detail.room_bets_total_pot, 100);
    assert_eq!(room_detail.total_hot_bets, 1);
    assert_eq!(room_detail.total_not_bets, 0);
    assert_eq!(hot_or_not_details.aggregate_stats.total_amount_bet, 100);
    assert_eq!(
        hot_or_not_details.aggregate_stats.total_number_of_hot_bets,
        1
    );
    assert_eq!(
        hot_or_not_details.aggregate_stats.total_number_of_not_bets,
        0
    );

    let result = post.place_hot_or_not_bet(
        &get_mock_user_alice_principal_id(),
        &get_mock_user_alice_canister_id(),
        100,
        &BetDirection::Hot,
        post_creation_time,
    );
    assert!(result.is_err());
}
