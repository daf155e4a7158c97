use limusic::commands::{Enqueued, Fill, Listing, Role, SongStart, Walk, MAX_PAGES};
use limusic::load::{Priming, Unresolved, PRIME_ATTEMPTS};
use limusic::order::RepeatMode;
use limusic::playback::PlaybackData;
use limusic::queue::QueueState;
use limusic::song::SongItem;
use limusic::state::{Action, AppState};

fn song(id: &str) -> SongItem {
    SongItem {
        video_id: id.into(),
        title: id.into(),
        artists: String::new(),
        artist_id: None,
        artist_runs: Vec::new(),
        album: None,
        album_id: None,
        duration: None,
        play_count: None,
        thumbnail: None,
        set_video_id: None,
        rating: None,
        queued: false,
        queued_end: false,
        queued_from: None,
        queued_by: None,
        autoplay: false,
        is_video: false,
        explicit: false,
    }
}

fn songs(ids: &[&str]) -> Vec<SongItem> {
    ids.iter().map(|id| song(id)).collect()
}

fn ids(state: &AppState) -> Vec<&str> {
    state.queue.items.iter().map(|i| i.video_id.as_str()).collect()
}

fn playing(list: &[&str], current: usize) -> AppState {
    let mut state = AppState::new();
    state.queue = QueueState { items: songs(list), current, ..QueueState::default() };
    state
}

fn solo() -> Role {
    Role { guest: false, host: false, username: None }
}

fn guest() -> Role {
    Role { guest: true, host: false, username: None }
}

fn actions(r: Enqueued) -> Vec<Action> {
    match r {
        Enqueued::Done(actions, _) => actions,
        _ => panic!("nothing was queued"),
    }
}

fn stream(client: &str) -> PlaybackData {
    PlaybackData {
        video_id: "x".into(),
        stream_url: "https://stream".into(),
        itag: 251,
        headers: Vec::new(),
        expires_in_seconds: 3600,
        loudness_db: None,
        playback_url: Some("https://history".into()),
        title: None,
        artists: Some("Author".into()),
        duration: Some("167".into()),
        thumbnail: None,
        stream_client: client.into(),
    }
}

fn listing(list: &[&str]) -> Listing {
    Listing {
        items: songs(list),
        start: None,
        source_id: None,
        source_name: None,
        shuffle: false,
        continuation: None,
    }
}

#[test]
fn a_fresh_state_is_empty_and_paused() {
    let state = AppState::new();
    assert!(state.queue.items.is_empty());
    assert!(!state.is_playing);
    assert_eq!(state.generation, 0);
}

#[test]
fn a_jump_starts_a_new_generation() {
    let mut state = playing(&["a", "b", "c"], 0);
    state.queue.lookahead_loaded = Some(1);
    assert_eq!(state.play_index(false, 2), [Action::Start(1)]);
    assert_eq!((state.queue.current, state.generation), (2, 1));
    assert_eq!(state.queue.lookahead_loaded, None);
    // Outside the queue: nothing plays, but what was being loaded is superseded.
    assert_eq!(state.play_index(false, 3), []);
    assert_eq!((state.queue.current, state.generation), (2, 2));
    // A guest is only told who is in charge.
    assert_eq!(state.play_index(true, 0), [Action::GuestHint]);
    assert_eq!((state.queue.current, state.generation), (2, 2));
}

#[test]
fn play_pause_starts_a_queue_that_nothing_is_loaded_from() {
    let mut state = playing(&["a", "b"], 1);
    assert_eq!(state.resume_or_toggle(false, true), [Action::Start(1)]);
    assert_eq!(state.resume_or_toggle(false, false), [Action::Toggle]);
    assert_eq!(state.resume_or_toggle(true, true), []);
    assert_eq!(AppState::new().resume_or_toggle(false, true), [Action::Toggle]);
}

#[test]
fn skipping_escapes_repeat_one_and_asks_for_more_at_the_tail() {
    let mut state = playing(&["a", "b"], 1);
    state.queue.repeat = RepeatMode::One;
    assert_eq!(state.next_in_queue(false), [Action::Start(1)]);
    assert_eq!(state.queue.current, 0);

    let mut state = playing(&["a", "b"], 1);
    assert_eq!(state.next_in_queue(false), [Action::ExtendThenNext(0)]);
    assert_eq!(state.next_after_extension(false, 0), []);
    state.queue.items.push(song("c"));
    assert_eq!(state.next_after_extension(false, 1), [Action::Start(1)]);
    assert_eq!(state.queue.current, 2);

    assert_eq!(state.prev_in_queue(false), [Action::Start(2)]);
    assert_eq!(state.queue.current, 1);
    let mut state = playing(&["a"], 0);
    assert_eq!(state.prev_in_queue(false), [Action::Start(1)]);
    assert_eq!(state.queue.current, 0);
}

#[test]
fn the_end_of_a_track_follows_the_player_or_loads_the_next() {
    // Primed, and the player went on by itself.
    let mut state = playing(&["a", "b", "c"], 0);
    state.lookahead_primed(1, &stream("WEB_REMIX"), Some(7));
    let done = state.on_track_ended(false, false, "nonce".into());
    assert_eq!(
        done,
        [
            Action::SetGain(Some(7)),
            Action::Announce,
            Action::EmitQueue,
            Action::PersistQueue,
            Action::BroadcastTrack,
            Action::PrimeAndExtendSoon(0),
        ]
    );
    assert_eq!(state.queue.current, 1);
    assert_eq!(state.queue.current_client.as_deref(), Some("WEB_REMIX"));
    assert_eq!(state.queue.playback_url.as_deref(), Some("https://history"));
    assert_eq!(state.queue.cpn, "nonce");
    assert_eq!(state.queue.lookahead_loaded, None);
    assert_eq!(state.queue.items[1].duration.as_deref(), Some("2:47"));
    assert_eq!(state.queue.items[1].artists, "Author");

    // Not primed: load explicitly, even though the player does not report idle yet.
    assert_eq!(state.on_track_ended(false, false, "n".into()), [Action::Start(1)]);
    assert_eq!(state.queue.current, 2);

    // Primed, but the player has nothing loaded.
    let mut state = playing(&["a", "b"], 0);
    state.queue.lookahead_loaded = Some(1);
    assert_eq!(state.on_track_ended(false, true, "n".into()), [Action::Start(1)]);
    assert_eq!(state.queue.lookahead_loaded, None);

    // Guests follow the host.
    let mut state = playing(&["a", "b"], 0);
    assert_eq!(state.on_track_ended(true, true, "n".into()), []);
    assert_eq!(state.queue.current, 0);
}

#[test]
fn the_end_of_the_queue_extends_it_or_stops() {
    let mut state = playing(&["a"], 0);
    state.is_playing = true;
    assert_eq!(state.on_track_ended(false, true, "n".into()), [Action::ExtendOrStop(1)]);
    assert_eq!(
        state.after_extension(0, 1),
        [Action::EmitPaused, Action::ReportPlaying(false)]
    );
    assert!(!state.is_playing);

    let mut state = playing(&["a", "b"], 0);
    assert_eq!(state.after_extension(1, 4), [Action::Start(4)]);
    assert_eq!(state.queue.current, 1);

    // Repeat-all wraps, which starts the played run over.
    let mut state = playing(&["a", "b"], 1);
    state.queue.repeat = RepeatMode::All;
    assert_eq!(state.on_track_ended(false, true, "n".into()), [Action::Start(1)]);
    assert_eq!((state.queue.current, state.queue.played_from), (0, 0));
}

#[test]
fn a_failed_track_is_tried_once_more() {
    let mut state = playing(&["a", "b"], 0);
    state.queue.current_client = Some("MAIN".into());
    let first = state.on_track_failed("MAIN", false, true, "n".into());
    assert!(first.retried && first.mark);
    assert_eq!(first.evict.as_deref(), Some("a"));
    assert_eq!(first.actions, [Action::Start(1)]);
    assert_eq!(state.queue.current, 0);
    // The second failure of the same track advances.
    let second = state.on_track_failed("MAIN", false, true, "n".into());
    assert!(!second.retried);
    assert_eq!(second.actions, [Action::Start(2)]);
    assert_eq!(state.queue.current, 1);

    // A cached address is tried again, and not held against the main client.
    let mut state = playing(&["a", "b"], 0);
    state.queue.current_client = Some("cache".into());
    let r = state.on_track_failed("MAIN", false, true, "n".into());
    assert!(r.retried && !r.mark);
    assert_eq!(r.evict.as_deref(), Some("a"));

    // A fallback client's failure advances.
    let mut state = playing(&["a", "b"], 0);
    state.queue.current_client = Some("ANDROID".into());
    let r = state.on_track_failed("MAIN", false, true, "n".into());
    assert!(!r.retried && !r.mark);
    assert_eq!(r.evict.as_deref(), Some("a"));
    assert_eq!(state.queue.current, 1);

    // Nothing known of who served it: it just ends.
    let mut state = playing(&["a", "b"], 0);
    let r = state.on_track_failed("MAIN", false, true, "n".into());
    assert!(r.evict.is_none() && !r.retried);
}

#[test]
fn loading_records_the_play_and_uses_the_resume_position_once() {
    let mut state = playing(&["a", "b"], 0);
    state.pending_seek = Some(("a".into(), 99));
    let item = state.start_item(0).unwrap();
    assert_eq!(item.video_id, "a");
    let (item, done) = state.start_loaded(0, item, &stream("MAIN"), "n1".into());
    assert_eq!(item.duration.as_deref(), Some("2:47"));
    assert_eq!(
        done,
        [
            Action::Play,
            Action::Seek(99),
            Action::Announce,
            Action::ReportPlaying(true),
            Action::EmitQueue,
            Action::PersistQueue,
            Action::BroadcastTrack,
            Action::ExtendSoon(0),
        ]
    );
    assert!(state.is_playing);
    assert_eq!(state.queue.items[0].duration.as_deref(), Some("2:47"));
    assert_eq!(state.queue.current_client.as_deref(), Some("MAIN"));

    // A position saved for another track is used up all the same.
    state.pending_seek = Some(("b".into(), 99));
    let item = state.start_item(0).unwrap();
    let (_, done) = state.start_loaded(0, item, &stream("MAIN"), "n2".into());
    assert_eq!(done[1], Action::Announce);
    assert!(state.pending_seek.is_none());

    // Superseded: there is nothing to load.
    assert!(state.start_item(7).is_none());
}

#[test]
fn a_track_that_cannot_be_resolved_is_skipped_or_dropped() {
    let mut state = playing(&["a", "b", "c"], 0);
    let (done, again) = state.start_failed(0, Unresolved::Other);
    assert_eq!(done, [Action::NoticeSkipped, Action::EmitQueue]);
    assert!(again);
    assert_eq!(state.queue.current, 1);

    // A file that is gone leaves the queue for good.
    let (done, again) = state.start_failed(0, Unresolved::Missing);
    assert_eq!(
        done,
        [
            Action::EmitQueue,
            Action::PersistQueue,
            Action::BroadcastQueue,
            Action::NoticeMissing,
        ]
    );
    assert!(again);
    assert_eq!(ids(&state), ["a", "c"]);
    assert_eq!(state.queue.current, 1);

    // At the tail there is nothing to skip to, even under repeat.
    state.queue.repeat = RepeatMode::All;
    let (done, again) = state.start_failed(0, Unresolved::Other);
    assert_eq!(done, [Action::ShowError]);
    assert!(!again);
    let (_, again) = state.start_failed(0, Unresolved::Missing);
    assert!(!again);
    assert_eq!(ids(&state), ["a"]);
    assert_eq!(state.queue.current, 0);

    // Superseded: nothing happens.
    assert_eq!(state.start_failed(3, Unresolved::Missing), (vec![], false));
    assert_eq!(ids(&state), ["a"]);

    assert_eq!(limusic::load::missing_notice("Tune"), "Tune is no longer on your disk");
    assert_eq!(limusic::load::skip_notice("Tune"), "Skipped (unavailable): Tune");
}

#[test]
fn priming_takes_what_plays_next_once() {
    let mut state = playing(&["a", "b", "c"], 0);
    let target = state.prime_target(&Priming::new(0)).unwrap();
    assert_eq!((target.index, target.video_id.as_str()), (1, "b"));
    assert!(state.may_prime(0, 1, "b"));
    state.lookahead_primed(1, &stream("MAIN"), None);
    // A second resolve of the same slot is dropped, and there is nothing more to prime.
    assert!(!state.may_prime(0, 1, "b"));
    assert!(state.prime_target(&Priming::new(0)).is_none());
    // Another generation, or another track in the slot.
    assert!(!state.may_prime(1, 2, "c"));
    assert!(!state.may_prime(0, 2, "x"));
    assert!(!state.may_prime(0, 9, "c"));
}

#[test]
fn an_upcoming_track_that_fails_is_dropped() {
    let mut state = playing(&["a", "b", "c"], 0);
    let target = state.prime_target(&Priming::new(0)).unwrap();
    let mut late = Priming::new(5);
    assert!(state.prime_failed(&mut late, false, &target).is_none());
    assert_eq!(late.left, 0);
    let mut run = Priming::new(0);
    let done = state.prime_failed(&mut run, false, &target).unwrap();
    assert_eq!(run.left, PRIME_ATTEMPTS - 1);
    assert_eq!(
        done,
        [
            Action::EmitQueue,
            Action::PersistQueue,
            Action::BroadcastQueue,
            Action::NoticeSkipped,
        ]
    );
    assert_eq!(ids(&state), ["a", "c"]);
    // The slot holds another track by now.
    assert!(state.prime_failed(&mut run, false, &target).is_none());
    assert!(state.prime_target(&run).is_none());
}

#[test]
fn a_run_of_priming_drops_no_more_than_its_attempts() {
    let mut state = playing(&["a", "b", "c", "d", "e", "f"], 0);
    let mut run = Priming::new(0);
    let mut dropped = 0;
    while let Some(target) = state.prime_target(&run) {
        assert!(state.prime_failed(&mut run, false, &target).is_some());
        dropped += 1;
    }
    assert_eq!(dropped, 3);
    assert_eq!(ids(&state), ["a", "e", "f"]);
    // A guest's failures use the attempts up too, and take nothing out.
    let mut run = Priming::new(0);
    while let Some(target) = state.prime_target(&run) {
        state.prime_failed(&mut run, true, &target);
    }
    assert_eq!((run.left, state.queue.items.len()), (0, 3));
}

#[test]
fn repeat_one_primes_nothing() {
    let mut state = playing(&["a", "b"], 0);
    let run = Priming::new(0);
    state.set_repeat(false, RepeatMode::One);
    assert!(state.prime_target(&run).is_none());
    // Leaving the mode primes again.
    assert_eq!(state.set_repeat(false, RepeatMode::Off)[3], Action::Prime(0));
    assert_eq!(state.prime_target(&run).unwrap().video_id, "b");
}

#[test]
fn dragging_clamps_past_the_playing_track() {
    let mut state = playing(&["a", "b", "c"], 0);
    assert_eq!(
        state.move_in_queue(false, 2, 0),
        [Action::EmitQueue, Action::PersistQueue, Action::BroadcastQueue]
    );
    assert_eq!(ids(&state), ["a", "c", "b"]);
    assert_eq!(state.queue.current, 0);
    // The playing track stays: the one behind it is dragged.
    let mut state = playing(&["h", "a", "b", "c"], 1);
    state.move_in_queue(false, 0, 3);
    assert_eq!(ids(&state), ["h", "a", "c", "b"]);
    assert_eq!(state.queue.current, 1);
    // Nothing is upcoming.
    let mut state = playing(&["a", "b"], 1);
    assert_eq!(state.move_in_queue(false, 0, 1), []);
    assert_eq!(ids(&state), ["a", "b"]);
}

#[test]
fn autoplay_extends_only_a_queue_that_is_nearly_out() {
    let state = playing(&["a", "b", "c"], 0);
    assert!(state.extension(true, false, false).is_none());
    let mut state = playing(&["a", "b", "c"], 1);
    assert!(state.extension(false, false, false).is_none());
    assert!(state.extension(true, true, false).is_none());
    assert!(state.extension(true, false, true).is_none());
    let e = state.extension(true, false, false).unwrap();
    assert_eq!((e.last_video.as_str(), e.seed.as_str()), ("c", "RDAMVMc"));
    assert!(e.existing.contains("a") && !e.existing.contains("x"));
    let (added, done) = state.extend(0, songs(&["a", "x", "y", "x"]), e.existing);
    assert_eq!(added, 2);
    assert_eq!(
        done,
        [
            Action::EmitQueue,
            Action::PersistQueue,
            Action::BroadcastQueue,
            Action::Prime(0),
        ]
    );
    assert_eq!(ids(&state), ["a", "b", "c", "x", "y"]);
    assert!(state.queue.items[3].autoplay);

    let mut state = playing(&["a"], 0);
    state.queue.radio_seed = Some("RDAMPLpl".into());
    let e = state.extension(true, false, true).unwrap();
    assert_eq!(e.seed, "RDAMPLpl");
    // The user moved on while the radio was fetched.
    assert_eq!(state.extend(9, songs(&["x"]), e.existing), (0, vec![]));
    state.queue.repeat = RepeatMode::All;
    assert!(state.extension(true, false, false).is_none());
    assert!(AppState::new().extension(true, false, false).is_none());
}

#[test]
fn shuffle_on_and_off_gives_the_queue_back() {
    let mut state = playing(&["a", "b", "c", "d", "e"], 1);
    state.queue.lookahead_loaded = Some(2);
    let done = state.toggle_shuffle(false);
    assert_eq!(
        done,
        [
            Action::ClearPlaylist,
            Action::EmitQueue,
            Action::PersistQueue,
            Action::Prime(0),
            Action::Extend(0),
            Action::BroadcastQueue,
        ]
    );
    assert!(state.queue.shuffle_orig.is_some());
    assert_eq!(ids(&state)[..2], ["a", "b"]);
    let done = state.toggle_shuffle(false);
    assert_eq!(done[0], Action::EmitQueue);
    assert!(state.queue.shuffle_orig.is_none());
    assert_eq!(ids(&state), ["a", "b", "c", "d", "e"]);
    assert_eq!((state.queue.current, state.queue.played_from), (1, 1));

    assert_eq!(state.toggle_shuffle(true), [Action::GuestHint]);
    assert_eq!(AppState::new().toggle_shuffle(false), []);
}

#[test]
fn adds_made_while_shuffled_survive_unshuffling() {
    let mut state = playing(&["a", "b", "c"], 0);
    state.toggle_shuffle(false);
    state.play_next(songs(&["mine"]), None, false, &solo());
    state.toggle_shuffle(false);
    assert_eq!(ids(&state), ["a", "mine", "b", "c"]);
}

#[test]
fn repeat_one_is_left_to_the_player() {
    let mut state = playing(&["a"], 0);
    assert_eq!(
        state.set_repeat(false, RepeatMode::One),
        [
            Action::LoopFile(true),
            Action::EmitQueue,
            Action::PersistQueue,
            Action::Prime(0),
        ]
    );
    assert_eq!(state.set_repeat(false, RepeatMode::All)[0], Action::LoopFile(false));
    assert_eq!(state.queue.repeat, RepeatMode::All);
    assert_eq!(state.set_repeat(true, RepeatMode::Off), [Action::GuestHint]);
    assert_eq!(state.queue.repeat, RepeatMode::All);
}

#[test]
fn removing_follows_the_playing_and_the_primed_track() {
    let mut state = playing(&["a", "b", "c", "d"], 1);
    state.queue.lookahead_loaded = Some(2);
    let plain = [Action::EmitQueue, Action::PersistQueue, Action::BroadcastQueue];
    assert_eq!(state.remove_from_queue(false, 0), plain);
    assert_eq!(ids(&state), ["b", "c", "d"]);
    assert_eq!((state.queue.current, state.queue.lookahead_loaded), (0, Some(1)));
    assert_eq!(
        state.remove_from_queue(false, 1),
        [
            Action::ClearPlaylist,
            Action::EmitQueue,
            Action::PersistQueue,
            Action::Prime(0),
            Action::BroadcastQueue,
        ]
    );
    assert_eq!(state.queue.lookahead_loaded, None);
    // The playing track, an index outside, and a guest.
    assert_eq!(state.remove_from_queue(false, 0), []);
    assert_eq!(state.remove_from_queue(false, 7), []);
    assert_eq!(state.remove_from_queue(true, 1), []);
    assert_eq!(ids(&state), ["b", "d"]);
}

#[test]
fn dragging_moves_only_what_is_upcoming() {
    let mut state = playing(&["a", "b", "c", "d"], 0);
    state.queue.lookahead_loaded = Some(1);
    // Deeper in the queue: the primed track stays.
    assert_eq!(
        state.move_in_queue(false, 3, 2),
        [Action::EmitQueue, Action::PersistQueue, Action::BroadcastQueue]
    );
    assert_eq!(ids(&state), ["a", "b", "d", "c"]);
    assert_eq!(state.queue.lookahead_loaded, Some(1));
    // Another track now plays next.
    let done = state.move_in_queue(false, 3, 1);
    assert_eq!(done[0], Action::ClearPlaylist);
    assert_eq!(ids(&state), ["a", "c", "b", "d"]);
    assert_eq!(state.queue.lookahead_loaded, None);
    for (from, to) in [(0, 1), (1, 0), (1, 1), (4, 1), (1, 4)] {
        assert_eq!(state.move_in_queue(false, from, to), []);
    }
    assert_eq!(state.move_in_queue(true, 1, 2), []);
    assert_eq!(ids(&state), ["a", "c", "b", "d"]);
}

#[test]
fn clearing_takes_the_upcoming_adds_and_nothing_else() {
    let mut state = playing(&["a", "b"], 0);
    assert_eq!(state.clear_queued(false), []);
    state.play_next(songs(&["x"]), None, false, &solo());
    state.add_to_queue(songs(&["y"]), None, None, false, &solo());
    assert_eq!(ids(&state), ["a", "x", "y", "b"]);
    assert_eq!(state.clear_queued(true), []);
    state.queue.lookahead_loaded = Some(1);
    assert_eq!(
        state.clear_queued(false),
        [
            Action::ClearPlaylist,
            Action::EmitQueue,
            Action::PersistQueue,
            Action::Prime(0),
            Action::BroadcastQueue,
        ]
    );
    assert_eq!(ids(&state), ["a", "b"]);
}

#[test]
fn play_next_goes_ahead_of_add_to_queue() {
    let mut state = playing(&["a", "b"], 0);
    state.add_to_queue(songs(&["q"]), Some("Mix".into()), None, false, &solo());
    state.play_next(songs(&["n1"]), None, false, &solo());
    let done = actions(state.play_next(songs(&["n2"]), None, false, &solo()));
    assert_eq!(
        done,
        [
            Action::EmitQueue,
            Action::PersistQueue,
            Action::Prime(0),
            Action::BroadcastQueue,
        ]
    );
    assert_eq!(ids(&state), ["a", "n1", "n2", "q", "b"]);
    assert!(state.queue.items[1].queued && !state.queue.items[1].queued_end);
    assert!(state.queue.items[3].queued_end && !state.queue.items[3].queued);
    assert_eq!(state.queue.items[3].queued_from.as_deref(), Some("Mix"));
    // A copy that waits in the block is moved up, not doubled.
    state.play_next(songs(&["q"]), None, false, &solo());
    assert_eq!(ids(&state), ["a", "n1", "n2", "q", "b"]);
    assert!(state.queue.items[3].queued);
    // A track of the context is a deliberate copy…
    state.play_next(songs(&["b"]), None, false, &solo());
    assert_eq!(ids(&state), ["a", "n1", "n2", "q", "b", "b"]);
    // …unless duplicates are prevented.
    state.play_next(songs(&["b"]), None, true, &solo());
    assert_eq!(ids(&state), ["a", "n1", "n2", "q", "b"]);
}

#[test]
fn an_add_drops_a_primed_track_that_no_longer_plays_next() {
    let mut state = playing(&["a", "b"], 0);
    state.queue.lookahead_loaded = Some(1);
    let done = actions(state.play_next(songs(&["x"]), None, false, &solo()));
    assert_eq!(done[0], Action::ClearPlaylist);
    assert_eq!(state.queue.lookahead_loaded, None);
    // Behind the block the primed track stays what plays next.
    state.queue.lookahead_loaded = Some(1);
    let done = actions(state.add_to_queue(songs(&["y"]), None, None, false, &solo()));
    assert_eq!(done[0], Action::EmitQueue);
    assert_eq!(state.queue.lookahead_loaded, Some(1));
}

#[test]
fn an_add_to_an_empty_queue_starts_it() {
    let mut state = AppState::new();
    let done = actions(state.add_to_queue(songs(&["x", "y"]), None, None, false, &solo()));
    assert_eq!(done, [Action::Start(1), Action::BroadcastQueue]);
    assert_eq!(ids(&state), ["x", "y"]);
    assert!(matches!(state.play_next(vec![], None, false, &solo()), Enqueued::Nothing));
}

#[test]
fn guests_suggest_and_hosts_sign_their_adds() {
    let mut state = playing(&["a"], 0);
    match state.play_next(songs(&["x", "y"]), None, false, &guest()) {
        Enqueued::Suggest(list) => {
            assert_eq!(list.iter().map(|t| t.id.as_str()).collect::<Vec<_>>(), ["x", "y"]);
        },
        _ => panic!("a guest owns no queue"),
    }
    assert_eq!(ids(&state), ["a"]);
    let host = |name: Option<&str>| Role {
        guest: false,
        host: true,
        username: name.map(Into::into),
    };
    state.play_next(songs(&["x"]), None, false, &host(Some("Kim")));
    assert_eq!(state.queue.items[1].queued_by.as_deref(), Some("Kim"));
    state.play_next(songs(&["y"]), None, false, &host(None));
    assert_eq!(state.queue.items[2].queued_by.as_deref(), Some("Host"));
}

#[test]
fn an_added_album_is_shuffled_while_shuffle_is_on() {
    let album: Vec<String> = (0..30).map(|i| format!("t{i}")).collect();
    let names: Vec<&str> = album.iter().map(String::as_str).collect();
    let mut state = playing(&["a"], 0);
    state.toggle_shuffle(false);
    state.add_to_queue(songs(&names), Some("Album".into()), None, false, &solo());
    assert_ne!(ids(&state)[1..], names[..]);
    let mut sorted: Vec<&str> = ids(&state)[1..].to_vec();
    sorted.sort();
    let mut expected = names.clone();
    expected.sort();
    assert_eq!(sorted, expected);
    // The order to come back to keeps the album's own.
    let orig = state.queue.shuffle_orig.as_ref().unwrap();
    assert_eq!(orig[1..].iter().map(|i| i.video_id.as_str()).collect::<Vec<_>>(), names);
}

#[test]
fn a_song_starts_a_queue_ahead_of_the_waiting_adds() {
    let mut state = playing(&["a", "b"], 0);
    state.play_next(songs(&["mine"]), None, false, &solo());
    match state.play_song(false, song("s"), false) {
        SongStart::Start(generation, radio) => {
            assert_eq!((generation, radio.as_deref()), (1, Some("RDAMVMs")));
        },
        _ => panic!("we are no guest"),
    }
    assert_eq!(ids(&state), ["s", "mine"]);
    assert_eq!(state.queue.source_name.as_deref(), Some("s Radio"));
    // Its radio arrives: the song itself is not queued again.
    assert_eq!(
        state.hydrate_song(1, "s", Some(songs(&["s", "r1", "r2"]))),
        [Action::EmitQueue, Action::Prime(1)]
    );
    assert_eq!(ids(&state), ["s", "mine", "r1", "r2"]);
    assert_eq!(state.hydrate_song(1, "s", None), [Action::Prime(1)]);
    assert_eq!(state.hydrate_song(0, "s", Some(songs(&["late"]))), []);
    assert_eq!(ids(&state), ["s", "mine", "r1", "r2"]);

    // A file on disk promises no radio.
    match state.play_song(false, song("/f"), true) {
        SongStart::Start(_, radio) => assert!(radio.is_none()),
        _ => panic!("we are no guest"),
    }
    assert!(state.queue.source_name.is_none());
    assert!(matches!(state.play_song(true, song("s"), false), SongStart::Suggest(t) if t.id == "s"));
}

#[test]
fn a_list_opens_at_the_click_and_keeps_the_waiting_adds() {
    let mut state = playing(&["a"], 0);
    state.play_next(songs(&["mine"]), None, false, &solo());
    let (done, walk) = state.play_tracks(
        false,
        Listing {
            start: Some(1),
            source_id: Some("VLPL1".into()),
            source_name: Some("List".into()),
            continuation: Some("token".into()),
            ..listing(&["x", "y", "z"])
        },
    );
    assert_eq!(done, [Action::Start(1)]);
    assert_eq!(ids(&state), ["x", "y", "mine", "z"]);
    assert_eq!((state.queue.current, state.queue.played_from), (1, 1));
    assert_eq!(state.queue.radio_seed.as_deref(), Some("RDAMPLPL1"));
    assert_eq!(state.queue.source_name.as_deref(), Some("List"));
    let walk = walk.unwrap();
    assert_eq!((walk.generation, walk.token.as_str(), walk.pages), (1, "token", 0));
    assert!(matches!(walk.fill, Fill::Playing));

    // A mix is not walked, a click past the end is the last track.
    let (_, walk) = state.play_tracks(
        false,
        Listing {
            start: Some(9),
            source_id: Some("VLRDmix".into()),
            continuation: Some("token".into()),
            ..listing(&["x", "y"])
        },
    );
    assert!(walk.is_none());
    assert_eq!(state.queue.current, 1);

    let (done, walk) = state.play_tracks(true, listing(&["x"]));
    assert_eq!(done, [Action::GuestHint]);
    assert!(walk.is_none());
    let (done, _) = state.play_tracks(false, listing(&[]));
    assert_eq!(done, []);
    assert_eq!(ids(&state)[..2], ["x", "y"]);
}

#[test]
fn a_shuffled_list_without_a_click_opens_anywhere() {
    let names: Vec<String> = (0..20).map(|i| format!("t{i}")).collect();
    let names: Vec<&str> = names.iter().map(String::as_str).collect();
    let mut first = Vec::new();
    for _ in 0..20 {
        let mut state = AppState::new();
        state.play_tracks(false, Listing { shuffle: true, ..listing(&names) });
        assert_eq!(state.queue.current, 0);
        let orig = state.queue.shuffle_orig.as_ref().unwrap();
        assert_eq!(orig.iter().map(|i| i.video_id.as_str()).collect::<Vec<_>>(), names);
        first.push(state.queue.items[0].video_id.clone());
    }
    // The same track every time by chance is (1/20)^19.
    assert!(first.iter().any(|id| *id != first[0]));
    let mut state = AppState::new();
    state.play_tracks(false, listing(&names));
    assert_eq!(ids(&state), names);
}

#[test]
fn a_walk_appends_page_by_page_and_ends() {
    let mut state = playing(&["a"], 0);
    let mut walk = Walk { generation: 0, token: "t0".into(), fill: Fill::Playing, pages: 0 };
    let (done, more) = state.fill_page(&mut walk, Some(songs(&["b"])), Some("t1".into()));
    assert_eq!(done, [Action::EmitQueue, Action::Prime(0)]);
    assert!(more);
    assert_eq!((walk.token.as_str(), walk.pages), ("t1", 1));
    // The last page is followed by one save and one announcement.
    let (done, more) = state.fill_page(&mut walk, Some(songs(&["c"])), None);
    assert_eq!(
        done,
        [
            Action::EmitQueue,
            Action::Prime(0),
            Action::PersistQueue,
            Action::BroadcastQueue,
        ]
    );
    assert!(!more);
    assert_eq!(ids(&state), ["a", "b", "c"]);

    // A page that fails, or is empty, ends the walk.
    let ended = [Action::PersistQueue, Action::BroadcastQueue];
    let (done, more) = state.fill_page(&mut walk, None, Some("t2".into()));
    assert_eq!(done, ended);
    assert!(!more);
    let (done, more) = state.fill_page(&mut walk, Some(vec![]), Some("t2".into()));
    assert_eq!(done, ended);
    assert!(!more);
    // Another queue owns the state by now.
    state.generation = 4;
    let (done, more) = state.fill_page(&mut walk, Some(songs(&["d"])), Some("t2".into()));
    assert_eq!(done, []);
    assert!(!more);
    assert_eq!(ids(&state), ["a", "b", "c"]);
    // A walk that added nothing leaves nothing to save.
    let mut walk = Walk { generation: 4, token: "t".into(), fill: Fill::Playing, pages: 0 };
    assert_eq!(state.fill_page(&mut walk, None, None), (vec![], false));
    // The bound.
    let mut walk =
        Walk { generation: 4, token: "t".into(), fill: Fill::Playing, pages: MAX_PAGES - 1 };
    let (_, more) = state.fill_page(&mut walk, Some(songs(&["d"])), Some("t2".into()));
    assert!(!more);
}

#[test]
fn a_walk_for_an_added_playlist_joins_its_block() {
    let mut state = playing(&["a", "b"], 0);
    let walk = match state.add_to_queue(
        songs(&["x1"]),
        Some("Mix".into()),
        Some("t".into()),
        false,
        &solo(),
    ) {
        Enqueued::Done(_, walk) => walk,
        _ => panic!("nothing was queued"),
    };
    let mut walk = walk.unwrap();
    state.fill_page(&mut walk, Some(songs(&["x2"])), None);
    assert_eq!(ids(&state), ["a", "x1", "x2", "b"]);
    assert!(state.queue.items[2].queued_end);
    assert_eq!(state.queue.items[2].queued_from.as_deref(), Some("Mix"));
}

#[test]
fn a_page_drops_a_primed_wrap() {
    let mut state = playing(&["a", "b"], 1);
    state.queue.repeat = RepeatMode::All;
    state.queue.lookahead_loaded = Some(0);
    let mut walk = Walk { generation: 0, token: "t".into(), fill: Fill::Playing, pages: 0 };
    let (done, _) = state.fill_page(&mut walk, Some(songs(&["c"])), Some("t1".into()));
    assert_eq!(done, [Action::ClearPlaylist, Action::EmitQueue, Action::Prime(0)]);
    assert_eq!(state.queue.lookahead_loaded, None);
}
