use totp_cli::store::AccountStore;
use totp_cli::watch::{
    bar_filled, color_band, next_action, next_state, watch_tick, KeyPress, Urgency, WatchAction,
    WatchState,
};

#[test]
fn band_is_urgent_up_to_five() {
    assert_eq!(color_band(1), Urgency::Urgent);
    assert_eq!(color_band(5), Urgency::Urgent);
}

#[test]
fn band_is_warning_from_six_to_ten() {
    assert_eq!(color_band(6), Urgency::Warning);
    assert_eq!(color_band(10), Urgency::Warning);
}

#[test]
fn band_is_normal_above_ten() {
    assert_eq!(color_band(11), Urgency::Normal);
    assert_eq!(color_band(30), Urgency::Normal);
}

#[test]
fn ctrl_c_quits() {
    assert_eq!(next_action(KeyPress::CtrlC, 3), WatchAction::Quit);
    assert_eq!(
        next_state(WatchState::Running, WatchAction::Quit),
        WatchState::Terminating
    );
}

#[test]
fn digit_in_range_copies_that_account() {
    assert_eq!(next_action(KeyPress::Digit(1), 3), WatchAction::CopyCode { index: 0 });
    assert_eq!(next_action(KeyPress::Digit(3), 3), WatchAction::CopyCode { index: 2 });
}

#[test]
fn digit_out_of_range_is_ignored() {
    assert_eq!(next_action(KeyPress::Digit(0), 3), WatchAction::Ignore);
    assert_eq!(next_action(KeyPress::Digit(4), 3), WatchAction::Ignore);
    assert_eq!(next_action(KeyPress::Digit(9), 0), WatchAction::Ignore);
}

#[test]
fn other_keys_are_ignored_and_keep_state() {
    assert_eq!(next_action(KeyPress::Other, 3), WatchAction::Ignore);
    assert_eq!(
        next_state(WatchState::Running, WatchAction::Ignore),
        WatchState::Running
    );
    assert_eq!(
        next_state(WatchState::Terminating, WatchAction::Ignore),
        WatchState::Terminating
    );
}

#[test]
fn bar_tracks_elapsed_share() {
    assert_eq!(bar_filled(30, 30), 0);
    assert_eq!(bar_filled(15, 30), 15);
    assert_eq!(bar_filled(1, 30), 29);
    assert_eq!(bar_filled(1, 10), 9);
    assert_eq!(bar_filled(30, 10), 0);
}

#[test]
fn tick_shows_bar_only_for_a_single_account() {
    let mut store = AccountStore::new();
    store.add("work".to_string(), "GEZDGNBVGY3TQOJQGEZDGNBVGY3TQOJQ".to_string());
    let frame = watch_tick(&store, 59, 30).unwrap();
    assert_eq!(frame.rows.len(), 1);
    assert_eq!(frame.bar, Some(29));
    assert_eq!(frame.band, Urgency::Urgent);

    store.add("home".to_string(), "MZXW6YTB".to_string());
    let frame = watch_tick(&store, 59, 30).unwrap();
    assert_eq!(frame.rows.len(), 2);
    assert_eq!(frame.bar, None);
}

#[test]
fn tick_rows_match_one_shot_listing() {
    let mut store = AccountStore::new();
    store.add("work".to_string(), "GEZDGNBVGY3TQOJQGEZDGNBVGY3TQOJQ".to_string());
    let frame = watch_tick(&store, 0, 30).unwrap();
    assert_eq!(frame.rows[0].remaining, 30);
    assert_eq!(frame.band, Urgency::Normal);
    assert_eq!(frame.bar, Some(0));
    let rows = totp_cli::display::render_rows(&store, 0).unwrap();
    assert_eq!(frame.rows[0].code, rows[0].code);
}
