use limusic::listen::{
    load_position, Playback, PlaybackKind, RoomState, SyncCommand, SyncFacts, SyncStep,
};
use limusic::playback::{cache_deadline, from_cache, to_cache, CachedStream, PlaybackData};
use limusic::progress::TickFacts;
use limusic::queue::QueueState;
use limusic::radio::{
    album_radio, artist_radio, escalated, first_page, title_for, FirstPage, RadioAsk, RadioSource,
    ON_REPEAT_ID,
};
use limusic::settings::{
    autoplay_enabled, disabled_clients, history_enabled, prevents_duplicates, quality,
    saved_volume, AudioQuality, Db,
};
use limusic::snapshot::{cover_for, SavedQueue};
use limusic::song::{track_to_song, SongItem, Track};
use limusic::state::{Action, AppState};
use limusic::order::RepeatMode;

fn track(id: &str) -> Track {
    Track {
        id: id.into(),
        title: id.into(),
        artist: "A".into(),
        thumbnail: None,
        duration_ms: 61_500,
        queued_by: None,
    }
}

fn song(id: &str) -> SongItem {
    track_to_song(&Track { duration_ms: 0, ..track(id) })
}

fn songs(ids: &[&str]) -> Vec<SongItem> {
    ids.iter().map(|id| song(id)).collect()
}

fn playing(list: &[&str], current: usize) -> AppState {
    let mut state = AppState::new();
    state.queue = QueueState { items: songs(list), current, ..QueueState::default() };
    state
}

fn ids(state: &AppState) -> Vec<&str> {
    state.queue.items.iter().map(|i| i.video_id.as_str()).collect()
}

fn facts() -> SyncFacts {
    SyncFacts {
        guest: true,
        host: false,
        idle: false,
        dedupe: false,
        player_ms: 10_000,
        now_ms: 50_000,
    }
}

fn settings(pairs: &[(&str, &str)]) -> Db {
    let mut db = Db::new();
    for (key, value) in pairs {
        db.set_setting(key, value);
    }
    db
}

#[test]
fn a_track_goes_over_the_wire_in_whole_seconds() {
    let row = track_to_song(&track("t"));
    assert_eq!(row.duration.as_deref(), Some("1:01"));
    assert_eq!(limusic::song::song_to_track(&row).duration_ms, 61_000);
    assert_eq!(song("t").duration, None);
}

#[test]
fn the_host_tells_the_room_what_plays_and_what_is_next() {
    let names: Vec<String> = (0..60).map(|i| format!("t{i}")).collect();
    let names: Vec<&str> = names.iter().map(String::as_str).collect();
    let state = playing(&names, 1);
    assert!(state.can_tell_track() && state.can_tell_queue());
    let p = state.broadcast_current_track(true, 5, true).unwrap();
    assert_eq!((p.kind, p.position_ms, p.playing), (PlaybackKind::ChangeTrack, 5, true));
    assert_eq!(p.track.unwrap().id, "t1");
    let told = p.queue.unwrap();
    assert_eq!(told.len(), 50);
    assert_eq!((told[0].id.as_str(), told[49].id.as_str()), ("t2", "t51"));
    assert!(state.broadcast_current_track(false, 5, true).is_none());
    assert!(AppState::new().broadcast_current_track(true, 5, true).is_none());

    let p = state.broadcast_queue(true).unwrap();
    assert_eq!(p.kind, PlaybackKind::SyncQueue);
    assert!(p.track.is_none());
    assert_eq!(p.queue.unwrap().len(), 50);
    assert!(state.broadcast_queue(false).is_none());

    let p = state.lt_on_play_state(true, true, 7).unwrap();
    assert_eq!((p.kind, p.position_ms, p.playing), (PlaybackKind::Play, 7, true));
    let p = state.lt_on_play_state(true, false, 7).unwrap();
    assert_eq!((p.kind, p.playing), (PlaybackKind::Pause, false));
    assert!(state.lt_on_play_state(false, true, 7).is_none());

    assert!(state.user_seek(true, false, 9).is_none());
    assert!(state.user_seek(false, false, 9).unwrap().is_none());
    let p: Playback = state.user_seek(false, true, 9).unwrap().unwrap();
    assert_eq!((p.kind, p.position_ms), (PlaybackKind::Seek, 9));
}

#[test]
fn a_guest_follows_the_room() {
    let mut state = playing(&["own1", "own2"], 1);
    state.queue.shuffle_orig = Some(songs(&["own1"]));
    let step = state.apply_sync(
        SyncCommand::ChangeTrack {
            track: track("h"),
            position_ms: 3_000,
            playing: true,
            queue: vec![track("n1"), track("n2")],
        },
        facts(),
    );
    match step {
        SyncStep::Load(load) => {
            assert_eq!((load.generation, load.video_id.as_str()), (1, "h"));
            assert_eq!((load.position_ms, load.playing), (3_000, true));
        },
        _ => panic!("the host changed the track"),
    }
    assert_eq!(ids(&state), ["h", "n1", "n2"]);
    assert_eq!((state.queue.current, state.queue.played_from), (0, 0));
    assert!(state.queue.shuffle_orig.is_none());

    let room = |id: &str| RoomState {
        current_track: Some(track(id)),
        position_ms: 4_000,
        is_playing: false,
        queue: vec![track("n3")],
    };
    // The track is loaded: only its position and what is upcoming are corrected.
    let step = state.apply_sync(SyncCommand::ApplyState(room("h")), facts());
    assert!(matches!(step, SyncStep::Align { position_ms: 4_000, playing: false }));
    assert_eq!(ids(&state), ["h", "n3"]);
    // Another track, or nothing loaded.
    let step = state.apply_sync(SyncCommand::ApplyState(room("i")), facts());
    assert!(matches!(step, SyncStep::Load(load) if load.video_id == "i"));
    let step =
        state.apply_sync(SyncCommand::ApplyState(room("i")), SyncFacts { idle: true, ..facts() });
    assert!(matches!(step, SyncStep::Load(_)));
    let nothing = RoomState { current_track: None, ..room("i") };
    assert!(matches!(
        state.apply_sync(SyncCommand::ApplyState(nothing), facts()),
        SyncStep::Nothing
    ));

    let step = state.apply_sync(SyncCommand::SyncQueue { queue: vec![track("z")] }, facts());
    assert!(matches!(step, SyncStep::Perform(done) if done == [Action::EmitQueue]));
    assert_eq!(ids(&state), ["i", "z"]);

    let step = state.apply_sync(SyncCommand::Seek { position_ms: 8 }, facts());
    assert!(matches!(step, SyncStep::Seek(8)));
    assert!(matches!(state.apply_sync(SyncCommand::Release, facts()), SyncStep::Nothing));
}

#[test]
fn a_guest_corrects_only_a_real_drift() {
    let mut state = playing(&["h"], 0);
    let mut play = |position_ms: i64, server_time_ms: i64| {
        match state.apply_sync(SyncCommand::Play { position_ms, server_time_ms }, facts()) {
            SyncStep::Play(seek) => seek,
            _ => panic!("the host plays"),
        }
    };
    // The player is at 10 s and the clock at 50 s.
    assert_eq!(play(12_000, 0), None);
    assert_eq!(play(12_001, 0), Some(12_001));
    assert_eq!(play(7_999, 0), Some(7_999));
    // The time that the message took counts.
    assert_eq!(play(9_000, 47_000), None);
    assert_eq!(play(9_000, 46_999), Some(12_001));
    // A clock that runs ahead of ours does not.
    assert_eq!(play(9_000, 60_000), None);
    let step = state.apply_sync(SyncCommand::Pause { position_ms: 20_000 }, facts());
    assert!(matches!(step, SyncStep::Pause(Some(20_000))));
    let step = state.apply_sync(SyncCommand::Pause { position_ms: 10_500 }, facts());
    assert!(matches!(step, SyncStep::Pause(None)));

    assert_eq!(load_position(3_000, true, 1_500), 4_500);
    assert_eq!(load_position(3_000, false, 1_500), 3_000);
}

#[test]
fn the_host_seeds_the_room_and_takes_suggestions() {
    let mut state = playing(&["a", "b"], 0);
    let host = SyncFacts { guest: false, host: true, ..facts() };
    match state.apply_sync(SyncCommand::HostSeed, host) {
        SyncStep::Tell(p) => {
            assert_eq!((p.position_ms, p.playing), (10_000, false));
            assert_eq!(p.track.unwrap().id, "a");
        },
        _ => panic!("the host tells"),
    }
    assert!(matches!(state.apply_sync(SyncCommand::HostSeed, facts()), SyncStep::Nothing));
    let step = state.apply_sync(SyncCommand::GuestAdd { track: track("g") }, host);
    assert!(matches!(step, SyncStep::Perform(done) if done.len() == 4));
    assert_eq!(ids(&state), ["a", "g", "b"]);
    assert!(state.queue.items[1].queued);
}

#[test]
fn a_radio_begins_with_what_its_kind_needs() {
    let state = AppState::new();
    let refused = |r: RadioAsk| match r {
        RadioAsk::Refused(why) => why,
        _ => panic!("not refused"),
    };
    assert!(matches!(state.start_radio(true, "song", "v", false, true), RadioAsk::Hint));
    assert_eq!(
        refused(state.start_radio(false, "song", "/f", true, true)),
        "This has no radio behind it."
    );
    assert_eq!(
        refused(state.start_radio(false, "playlist", ON_REPEAT_ID, false, true)),
        "This has no radio behind it."
    );
    assert_eq!(refused(state.start_radio(false, "song", "v", false, false)), "no metadata client");
    assert_eq!(
        refused(state.start_radio(false, "genre", "g", false, true)),
        "unknown radio kind: genre"
    );
    match state.start_radio(false, "song", "v", false, true) {
        RadioAsk::Fetch(s) => {
            assert_eq!(s.video_id.as_deref(), Some("v"));
            assert_eq!(s.playlist_id, "RDAMVMv");
        },
        _ => panic!("a song's radio can be fetched"),
    }
    match state.start_radio(false, "playlist", "VLPL1", false, true) {
        RadioAsk::Fetch(s) => {
            assert!(s.video_id.is_none());
            assert_eq!(s.playlist_id, "RDAMPLPL1");
        },
        _ => panic!("a playlist's radio can be fetched"),
    }
    assert!(matches!(state.start_radio(false, "album", "a", false, true), RadioAsk::Album));
    assert!(matches!(state.start_radio(false, "artist", "a", false, true), RadioAsk::Artist));

    assert_eq!(album_radio(Some("OLAK1".into())).ok().unwrap().playlist_id, "RDAMPLOLAK1");
    assert_eq!(album_radio(None).err().unwrap(), "This album has no radio.");
    assert_eq!(artist_radio(Some("RDEM1".into()), None).ok().unwrap().playlist_id, "RDEM1");
    let top = artist_radio(None, Some("v".into())).ok().unwrap();
    assert_eq!((top.video_id.as_deref(), top.playlist_id.as_str()), (Some("v"), "RDAMVMv"));
    assert_eq!(artist_radio(None, None).err().unwrap(), "This artist has no radio.");
    assert_eq!(title_for(Some("Name".into())).as_deref(), Some("Name Radio"));
    assert_eq!(title_for(None), None);
}

#[test]
fn a_dead_radio_escalates() {
    let source = |video: Option<&str>| RadioSource {
        video_id: video.map(Into::into),
        playlist_id: "RD1".into(),
    };
    match first_page(songs(&["a", "b"]), &source(None)) {
        FirstPage::Found(items, seed) => assert_eq!((items.len(), seed.as_str()), (2, "RD1")),
        _ => panic!("the page is alive"),
    }
    assert!(matches!(first_page(songs(&["a"]), &source(Some("a"))), FirstPage::Escalate));
    match first_page(songs(&["a"]), &source(None)) {
        FirstPage::Dead(why) => assert_eq!(why, "YouTube has no radio for this."),
        _ => panic!("there is nothing to escalate on"),
    }
    let mix = |n: usize| Some(("RDmix".to_owned(), songs(&["m1", "m2"][..n])));
    let (items, seed) = escalated("a", songs(&["a", "b", "c"]), mix(2)).ok().unwrap();
    assert_eq!((items.len(), seed.as_str()), (2, "RDmix"));
    let (items, seed) = escalated("a", songs(&["a", "b", "c"]), mix(1)).ok().unwrap();
    assert_eq!((items.len(), seed.as_str()), (3, "RDAMVMa"));
    assert!(escalated("a", songs(&["a", "b"]), None).is_ok());
    assert_eq!(
        escalated("a", songs(&["a"]), mix(1)).err().unwrap(),
        "YouTube has no radio for this."
    );
}

#[test]
fn a_radio_on_the_playing_song_goes_behind_it() {
    let mut state = playing(&["a", "b"], 0);
    state.queue.lookahead_loaded = Some(1);
    let done = state.open_radio(
        false,
        false,
        songs(&["a", "r"]),
        "RDAMVMa".into(),
        Some("A Radio".into()),
        Some("a".into()),
    );
    assert_eq!(
        done,
        [
            Action::ClearPlaylist,
            Action::EmitQueue,
            Action::PersistQueue,
            Action::Prime(0),
            Action::BroadcastQueue,
        ]
    );
    assert_eq!(ids(&state), ["a", "r"]);
    assert_eq!(state.generation, 0);
    assert!(state.queue.radio);

    // Nothing is loaded, or it is another song: the radio is played, at the song it is on.
    let done = state.open_radio(
        false,
        false,
        songs(&["x", "s", "y"]),
        "RDAMVMs".into(),
        None,
        Some("s".into()),
    );
    assert_eq!(done, [Action::Start(1), Action::MarkRadio]);
    assert_eq!((state.queue.current, state.queue.radio), (1, false));
    assert_eq!(state.queue.radio_seed.as_deref(), Some("RDAMVMs"));
    state.mark_radio();
    assert!(state.queue.radio);
}

#[test]
fn a_play_counts_once_past_its_threshold() {
    let mut state = playing(&["a"], 0);
    state.queue.playback_url = Some("url".into());
    state.queue.cpn = "nonce".into();
    let on = TickFacts { passed: true, local: false, registers: true };
    let early = state.on_position(1, 100, TickFacts { passed: false, ..on });
    assert!(early.played.is_none() && early.ping.is_none());
    assert!(early.persist && early.push);
    let tick = state.on_position(2, 101, on);
    assert_eq!(tick.played.unwrap().video_id, "a");
    assert_eq!(tick.ping, Some(("url".to_owned(), "nonce".to_owned())));
    // Five seconds between writes, one between pushes.
    assert!(!tick.persist && tick.push);
    let again = state.on_position(3, 101, on);
    assert!(again.played.is_none() && again.ping.is_none());
    assert!(!again.persist && !again.push);
    assert!(state.on_position(4, 105, on).persist);
    assert_eq!(state.current_position(), 4);
    // A clock that went back writes nothing.
    assert!(!state.on_position(5, 50, on).persist);

    // A file on disk is not counted, and nothing is registered unless it may be.
    let mut state = playing(&["a"], 0);
    state.queue.playback_url = Some("url".into());
    let tick =
        state.on_position(1, 1, TickFacts { passed: true, local: true, registers: false });
    assert!(tick.played.is_none() && tick.ping.is_none());
    assert!(state.queue.history_pinged);
}

#[test]
fn lengths_and_announcements_reach_the_state() {
    let mut state = playing(&["a"], 0);
    state.on_duration(Some(7));
    state.on_duration(None);
    assert_eq!(state.queue.duration, 7);
    state.media_set_playing(true);
    assert!(state.is_playing);
    state.last_media_push = 9;
    state.track_announced();
    assert_eq!(state.last_media_push, 0);
}

#[test]
fn a_saved_queue_is_restored_paused() {
    let mut state = playing(&["a", "b", "c"], 2);
    state.queue.played_from = 1;
    state.queue.repeat = RepeatMode::One;
    state.queue.shuffle_orig = Some(songs(&["c", "b", "a"]));
    state.queue.radio_seed = Some("RD".into());
    state.queue.source_name = Some("List".into());
    state.queue.radio = true;
    let saved = state.saved_queue();

    let mut fresh = AppState::new();
    fresh.is_playing = true;
    let done = fresh.restore_queue(saved, Some(42));
    assert_eq!(
        done,
        [
            Action::LoopFile(true),
            Action::ReportPlaying(false),
            Action::Announce,
            Action::EmitPaused,
            Action::EmitQueue,
        ]
    );
    assert_eq!(ids(&fresh), ["a", "b", "c"]);
    assert_eq!((fresh.queue.current, fresh.queue.played_from), (2, 1));
    assert_eq!(fresh.queue.repeat, RepeatMode::One);
    assert_eq!(fresh.queue.shuffle_orig.as_ref().unwrap()[0].video_id, "c");
    assert_eq!(fresh.queue.radio_seed.as_deref(), Some("RD"));
    assert_eq!(fresh.queue.source_name.as_deref(), Some("List"));
    assert!(fresh.queue.radio && !fresh.is_playing);
    assert_eq!(fresh.pending_seek, Some(("c".to_owned(), 42)));
}

#[test]
fn an_old_or_damaged_record_restores_what_it_has() {
    let record = r#"{"current": 7, "radioSeed": "RD", "radio": true, "sourceName": 3}"#;
    let saved = SavedQueue::from_record(record, songs(&["a", "b"]), None, None);
    assert_eq!((saved.current, saved.played_from), (Some(7), None));
    assert_eq!(saved.radio_seed.as_deref(), Some("RD"));
    assert_eq!(saved.source_name, None);
    assert_eq!(saved.radio, Some(true));
    let mut state = AppState::new();
    state.restore_queue(saved, None);
    assert_eq!((state.queue.current, state.queue.played_from), (1, 1));
    assert_eq!(state.queue.repeat, RepeatMode::Off);
    assert!(state.pending_seek.is_none());

    let saved = SavedQueue::from_record("not json", vec![], None, None);
    assert_eq!((saved.current, saved.radio), (None, None));
    let mut state = playing(&["x"], 0);
    assert_eq!(state.restore_queue(saved, Some(1)), []);
    assert_eq!(ids(&state), ["x"]);
}

#[test]
fn the_windows_are_shown_the_state() {
    let mut state = playing(&["a", "b"], 1);
    state.queue.source_name = Some("List".into());
    state.latest_position = 5;
    state.queue.duration = 6;
    let q = state.queue_snapshot();
    assert_eq!((q.items.len(), q.current_index, q.played_from), (2, 1, 0));
    assert!(!q.shuffle);
    assert_eq!(q.source_name.as_deref(), Some("List"));
    let p = state.playback_snapshot(&settings(&[("volume", "35")]));
    assert_eq!(p.now.unwrap().video_id, "b");
    assert_eq!((p.paused, p.position, p.duration, p.volume), (true, 5, 6, 35));
    assert_eq!(cover_for(&Some("/a.png".into())).as_deref(), Some("file:///a.png"));
    assert_eq!(cover_for(&Some("https://a".into())).as_deref(), Some("https://a"));
    assert_eq!(cover_for(&None), None);
}

#[test]
fn a_stored_volume_is_a_number_up_to_a_hundred() {
    for (stored, level) in
        [("0", 0), ("100", 100), ("+7", 7), ("101", 100), ("-1", 100), ("4.5", 100), ("", 100)]
    {
        assert_eq!(saved_volume(&settings(&[("volume", stored)])), level);
    }
    assert_eq!(saved_volume(&Db::new()), 100);
    // What was stored last counts.
    assert_eq!(saved_volume(&settings(&[("volume", "10"), ("volume", "20")])), 20);
    assert_eq!(Db::new().get_setting("volume"), None);
}

#[test]
fn settings_mean_what_they_say() {
    let empty = Db::new();
    assert_eq!(quality(&empty), AudioQuality::High);
    assert_eq!(quality(&settings(&[("quality", "LOW")])), AudioQuality::Low);
    assert_eq!(quality(&settings(&[("quality", "AUTO")])), AudioQuality::Auto);
    assert!(history_enabled(&empty) && autoplay_enabled(&empty));
    assert!(!history_enabled(&settings(&[("enable_history", "false")])));
    assert!(!autoplay_enabled(&settings(&[("autoplay", "false")])));
    assert!(!prevents_duplicates(&empty));
    assert!(prevents_duplicates(&settings(&[("prevent_duplicates", "true")])));

    let stored = settings(&[("disabled_stream_clients", " IOS, ,ANDROID ")]);
    let set = disabled_clients(None, &stored);
    assert!(set.contains("IOS") && set.contains("ANDROID") && !set.contains(""));
    let set = disabled_clients(Some("WEB".into()), &stored);
    assert!(set.contains("WEB") && !set.contains("IOS"));
}

#[test]
fn cached_streams_keep_their_expiry() {
    assert_eq!(cache_deadline(1_000), 1_060);
    let row = CachedStream {
        url: "u".into(),
        itag: 251,
        expires_at: 5_000,
        loudness_db: Some(3),
    };
    let data = from_cache("v", row, 1_000);
    assert_eq!((data.video_id.as_str(), data.stream_url.as_str()), ("v", "u"));
    assert_eq!((data.expires_in_seconds, data.stream_client.as_str()), (4_000, "cache"));
    assert!(data.playback_url.is_none() && data.headers.is_empty());
    let kept = to_cache(&data, 2_000).unwrap();
    assert_eq!((kept.expires_at, kept.loudness_db), (6_000, Some(3)));
    let stale = PlaybackData { expires_in_seconds: -5, ..data };
    assert_eq!(to_cache(&stale, 2_000).unwrap().expires_at, 2_000);
    let odd = PlaybackData { stream_client: "rustypipe".into(), ..stale };
    assert!(to_cache(&odd, 2_000).is_none());
}
