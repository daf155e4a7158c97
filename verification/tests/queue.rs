use limusic::duration::{format_duration, parse_duration_ms};
use limusic::edit::append_page;
use limusic::order::{
    drop_duplicates, guest_insert_index, ids_of, merge_radio, next_index, unshuffled,
    upcoming_queued, IdSet, RepeatMode,
};
use limusic::queue::{enqueue_at, splice_radio_into, QueueState};
use limusic::radio::{is_mix, radio_seed_for};
use limusic::shuffle::{shuffle_new_queue, shuffle_upcoming};
use limusic::song::{backfill_metadata, ArtistRun, SongItem};

fn song(id: &str, by: Option<&str>) -> SongItem {
    SongItem {
        video_id: id.into(),
        title: id.into(),
        artists: String::new(),
        artist_id: None,
        artist_runs: Vec::new(),
        album: None,
        album_id: None,
        duration: None,
        play_count: None,
        thumbnail: None,
        set_video_id: None,
        rating: None,
        queued: by.is_some(),
        queued_end: false,
        queued_from: None,
        queued_by: by.map(Into::into),
        autoplay: false,
        is_video: false,
        explicit: false,
    }
}

fn id_list(items: &[SongItem]) -> Vec<String> {
    items.iter().map(|i| i.video_id.clone()).collect()
}

fn id_set(ids: &[&str]) -> IdSet {
    let mut set = IdSet::new();
    for id in ids {
        set.insert((*id).to_owned());
    }
    set
}

#[test]
fn durations_round_trip_past_an_hour() {
    assert_eq!(format_duration(191_000), "3:11");
    assert_eq!(format_duration(5_468_000), "1:31:08");
    // The parser is the inverse for both shapes (queue rows persist the string).
    assert_eq!(parse_duration_ms(Some("1:31:08")), 5_468_000);
    assert_eq!(parse_duration_ms(Some("3:11")), 191_000);
}

// The repair every entry path goes through: an artist that is missing (album rows), or that is a
// whole display subtitle.
#[test]
fn player_response_repairs_a_missing_or_bogus_artist() {
    let with = |artists: &str, runs: Vec<&str>| SongItem {
        artists: artists.into(),
        artist_runs: runs
            .into_iter()
            .map(|t| ArtistRun { text: t.into(), id: Some("UCstale".into()) })
            .collect(),
        ..song("v", None)
    };

    // No artist (an album track): YouTube's own author.
    let mut it = with("", vec![]);
    backfill_metadata(&mut it, None, Some("Delara"));
    assert_eq!(it.artists, "Delara");

    // A display subtitle that was parsed as the artist is replaced, and the links that pointed at
    // the old text go with it.
    for bogus in
        ["Miley Cyrus • Plastic Hearts • 2020", "late night slow • 29M views", "Song • Dua Lipa"]
    {
        let mut it = with(bogus, vec![bogus]);
        backfill_metadata(&mut it, None, Some("Dua Lipa"));
        assert_eq!(it.artists, "Dua Lipa", "{bogus} should have been replaced");
        assert!(it.artist_runs.is_empty(), "{bogus}: stale links must not survive the swap");
    }

    // A real artist line is never second-guessed, links included. Collabs use "&" and ",".
    let mut it = with("Nicki Minaj, Ice Spice & Aqua", vec!["Nicki Minaj", " & ", "Aqua"]);
    backfill_metadata(&mut it, None, Some("Nicki Minaj"));
    assert_eq!(it.artists, "Nicki Minaj, Ice Spice & Aqua");
    assert_eq!(it.artist_runs.len(), 3);

    // Nothing to repair with: as it is.
    for author in [None, Some(""), Some("   ")] {
        let mut it = with("", vec![]);
        backfill_metadata(&mut it, None, author);
        assert_eq!(it.artists, "");
    }
}

#[test]
fn player_response_fills_only_a_missing_duration() {
    let mut it = song("v", None);
    backfill_metadata(&mut it, Some("191"), None);
    assert_eq!(it.duration.as_deref(), Some("3:11"));
    // A duration the row already carried wins: it's the length of the cut YouTube listed.
    let mut it = SongItem { duration: Some("3:02".into()), ..song("v", None) };
    backfill_metadata(&mut it, Some("191"), None);
    assert_eq!(it.duration.as_deref(), Some("3:02"));
    // Junk from the player response can't blank an existing one.
    let mut it = song("v", None);
    backfill_metadata(&mut it, Some("not-a-number"), None);
    assert_eq!(it.duration, None);
}

#[test]
fn guest_adds_stack_fifo_after_current() {
    let solo = |id: &str| SongItem { queued: true, ..song(id, None) };
    // Host playlist [A*, B, C] (playing A): manual add goes right after current, not the end.
    let items = vec![song("a", None), song("b", None), song("c", None)];
    assert_eq!(guest_insert_index(&items, 0), 1);
    // A guest track already up next: the new one queues behind it (FIFO), before B.
    let items = vec![song("a", None), song("g1", Some("kim")), song("b", None)];
    assert_eq!(guest_insert_index(&items, 0), 2);
    // Solo adds (no name, `queued`) form the same FIFO block: the next add lands behind them.
    let items = vec![song("a", None), solo("s1"), song("b", None)];
    assert_eq!(guest_insert_index(&items, 0), 2);
    // Current is the last item: append.
    let items = vec![song("a", None)];
    assert_eq!(guest_insert_index(&items, 0), 1);
    // Empty queue (nothing playing yet): index 0.
    assert_eq!(guest_insert_index(&[], 0), 0);
}

// "Start radio" on the song that's already playing: the track keeps playing, the tail is replaced,
// and the manual adds the user made are not collateral damage.
#[test]
fn radio_replaces_the_tail_but_keeps_history_and_manual_adds() {
    let mut q = QueueState {
        // played, playing, a manual add, then two tracks of the old context
        items: vec![
            song("done", None),
            song("now", None),
            song("mine", Some("me")),
            song("old1", None),
            song("old2", None),
        ],
        current: 1,
        ..QueueState::default()
    };
    // The radio's first page leads with the seed song: it must not be queued a second time. Nor
    // may it re-offer what's still in the queue. A track from the replaced tail is fair game.
    let page = vec![
        song("now", None),
        song("r1", None),
        song("done", None),
        song("mine", None),
        song("old1", None),
    ];
    splice_radio_into(&mut q, page, "RDAMVMnow".into(), Some("Now Radio".into()));

    assert_eq!(id_list(&q.items), ["done", "now", "mine", "r1", "old1"]);
    assert_eq!(q.current, 1); // nothing moved under the playing track
    assert_eq!(q.radio_seed.as_deref(), Some("RDAMVMnow"));
    assert_eq!(q.source_name.as_deref(), Some("Now Radio"));
    // Radio tracks are the queue, not autoplay filler.
    assert!(q.items.iter().all(|i| !i.autoplay));
}

#[test]
fn radio_started_under_shuffle_stays_shuffled_and_restorable() {
    let mut items = vec![song("now", None)];
    let mut q = QueueState {
        shuffle_orig: Some(items.clone()),
        items: std::mem::take(&mut items),
        current: 0,
        ..QueueState::default()
    };
    let page: Vec<_> = (0..50).map(|i| song(&format!("r{i}"), None)).collect();
    splice_radio_into(&mut q, page, "RDAMVMnow".into(), None);

    assert_eq!(q.items[0].video_id, "now"); // the playing track never moves
    // Un-shuffle has the whole radio to restore, not just what was there before it started.
    let orig = q.shuffle_orig.as_ref().unwrap();
    assert_eq!(orig.len(), 51);
    let mut a: Vec<_> = orig.iter().map(|i| i.video_id.clone()).collect();
    let mut b: Vec<_> = q.items.iter().map(|i| i.video_id.clone()).collect();
    a.sort();
    b.sort();
    assert_eq!(a, b); // nothing lost, nothing duplicated
}

#[test]
fn next_index_wraps_only_on_repeat_all() {
    assert_eq!(next_index(3, 2, RepeatMode::Off), None);
    assert_eq!(next_index(3, 2, RepeatMode::All), Some(0));
    assert_eq!(next_index(3, 2, RepeatMode::One), None); // the player loops the file itself
    assert_eq!(next_index(3, 0, RepeatMode::Off), Some(1));
    assert_eq!(next_index(0, 0, RepeatMode::All), None);
    assert_eq!(next_index(1, 0, RepeatMode::All), Some(0)); // single-item wrap
}

// The background playlist walk: a page that lands mid-playback has to reach the *unplayed* tail,
// without moving the track already handed to the player for the gapless advance.
#[test]
fn appended_page_mixes_into_the_tail_but_leaves_the_primed_slot() {
    let page = || (0..100).map(|i| song(&format!("p{i}"), None)).collect::<Vec<_>>();
    let mut tail_positions = Vec::new();

    for _ in 0..20 {
        let items = vec![song("a", None), song("b", None), song("c", None)];
        let mut q = QueueState {
            shuffle_orig: Some(items.clone()),
            items,
            current: 0,
            lookahead_loaded: Some(1), // "b" is already loaded into the player
            ..QueueState::default()
        };
        append_page(&mut q, page(), true);

        assert_eq!(q.items.len(), 103);
        assert_eq!(q.items[0].video_id, "a"); // playing
        assert_eq!(q.items[1].video_id, "b"); // primed gapless slot, pinned
        // Un-shuffle restores the whole playlist, including pages that arrived after playback
        // started.
        assert_eq!(id_list(q.shuffle_orig.as_ref().unwrap()).len(), 103);
        assert_eq!(id_list(q.shuffle_orig.as_ref().unwrap())[..3], ["a", "b", "c"]);
        let mut sorted = id_list(&q.items);
        sorted.sort();
        let mut expected = id_list(q.shuffle_orig.as_ref().unwrap());
        expected.sort();
        assert_eq!(sorted, expected); // nothing lost, nothing duplicated

        tail_positions.push(q.items.iter().position(|i| i.video_id == "c").unwrap());
    }
    // Without the re-shuffle the page would sit behind "c" and it would land at index 2 every
    // time. (Staying at 2 in all 20 runs by chance is (1/101)^20.)
    assert!(tail_positions.iter().any(|&p| p != 2), "page was appended, not mixed in");
}

#[test]
fn appended_page_keeps_order_when_shuffle_is_off() {
    let mut q = QueueState {
        items: vec![song("a", None), song("b", None)],
        current: 0,
        ..QueueState::default()
    };
    append_page(&mut q, vec![song("c", None), song("d", None)], true);
    let ids: Vec<_> = q.items.iter().map(|i| i.video_id.as_str()).collect();
    assert_eq!(ids, ["a", "b", "c", "d"]);
    assert!(q.shuffle_orig.is_none());
}

// The rest of an added playlist joins the block its first page went into, not the tail of the
// queue. Order kept even under shuffle.
#[test]
fn appended_page_joins_the_add_to_queue_block_it_belongs_to() {
    let added = |id: &str| SongItem { queued_end: true, ..song(id, None) };
    let items = vec![song("a", None), added("x1"), song("b", None)];
    let mut q = QueueState {
        shuffle_orig: Some(items.clone()),
        items,
        current: 0,
        ..QueueState::default()
    };
    append_page(&mut q, vec![added("x2"), added("x3")], false);
    let ids: Vec<_> = q.items.iter().map(|i| i.video_id.as_str()).collect();
    assert_eq!(ids, ["a", "x1", "x2", "x3", "b"]);
    // Still on the snapshot, so un-shuffle keeps them.
    assert_eq!(q.shuffle_orig.as_ref().unwrap().len(), 5);
}

// The played run is `played_from..current`, and only moving the pointer backwards may extend it:
// forward jumps mean those tracks really were passed over.
#[test]
fn the_played_run_follows_the_pointer_backwards_only() {
    let mut q = QueueState {
        items: vec![song("a", None), song("b", None), song("c", None), song("d", None)],
        current: 1,
        played_from: 1,
        ..QueueState::default()
    };
    q.seek_to(3); // jumped over "c", so it counts: heard or not, it's behind the playing track
    assert_eq!((q.played_from, q.current), (1, 3));
    q.seek_to(0); // back to the top: nothing is behind it any more
    assert_eq!((q.played_from, q.current), (0, 0));
}

// A duplicate sitting *before* the playing track: removing it renumbers the queue, so `current`
// has to follow its own song or the insert lands one slot off.
#[test]
fn dropping_a_duplicate_before_the_current_track_moves_the_current_index() {
    let mut items = vec![song("dup", None), song("a", None), song("b", None), song("dup", None)];
    let mut current = 1; // playing "a"
    let mut played_from = 0; // "dup" was heard, then "a" started
    let ids = id_set(&["dup"]);
    assert!(drop_duplicates(&mut items, &mut current, &mut played_from, &ids));

    let left: Vec<_> = items.iter().map(|i| i.video_id.as_str()).collect();
    assert_eq!(left, ["a", "b"]);
    assert_eq!(current, 0); // still playing "a"
    assert_eq!(played_from, 0); // its one played track went with it; the run is empty, not stale
    assert_eq!(guest_insert_index(&items, current), 1); // the add lands right after it

    // The playing track is exempt: "play next" on the current song is a repeat gesture.
    let mut items = vec![song("a", None), song("b", None)];
    let mut current = 0;
    let mut played_from = 0;
    assert!(!drop_duplicates(&mut items, &mut current, &mut played_from, &id_set(&["a"])));
    assert_eq!(items.len(), 2);
}

// "Add to queue" lands at the back of the manual block, ahead of the context.
#[test]
fn add_to_queue_goes_behind_the_manual_block_but_ahead_of_the_context() {
    let queued = |id: &str| SongItem { queued: true, ..song(id, None) };
    let added = |id: &str| SongItem { queued_end: true, ..song(id, None) };

    // Plain playlist queue: straight behind the playing track.
    let q = QueueState {
        items: vec![song("a", None), song("b", None), song("c", None)],
        current: 0,
        ..QueueState::default()
    };
    assert_eq!(enqueue_at(&q), 1);

    // Behind a waiting "Play next" block and behind earlier adds, never inside either.
    let q = QueueState {
        items: vec![song("a", None), queued("mine"), added("x1"), song("b", None)],
        current: 0,
        ..QueueState::default()
    };
    assert_eq!(enqueue_at(&q), 3);

    // A radio is no different: the add is heard next instead of after an endless feed.
    let q = QueueState {
        items: vec![song("r1", None), song("r2", None), song("r3", None)],
        current: 0,
        radio: true,
        ..QueueState::default()
    };
    assert_eq!(enqueue_at(&q), 1);

    // Nothing after the playing track: appended, not out of bounds.
    let q = QueueState { items: vec![song("a", None)], current: 0, ..QueueState::default() };
    assert_eq!(enqueue_at(&q), 1);
}

#[test]
fn mixes_are_not_walked() {
    assert!(is_mix(Some("VLRDCLAK5uy_abc"))); // a mix as the playlist page sees it
    assert!(is_mix(Some("RDAMVMxyz")));
    assert!(!is_mix(Some("VLPL123")));
    assert!(!is_mix(Some("VLOLAK5uy_abc")));
    assert!(!is_mix(None));
}

#[test]
fn unshuffle_restores_order_and_current() {
    let orig = vec![song("a", None), song("b", None), song("c", None), song("d", None)];
    // Shuffle played "c" first: nothing upcoming has been heard, plain restore.
    let (items, idx) = unshuffled(orig.clone(), &id_set(&["c"]), "c", 9);
    assert_eq!(id_list(&items), ["a", "b", "c", "d"]);
    assert_eq!(idx, 2);
    // A full shuffled pass ending on "c": "d" already played, so it must not come back as up-next;
    // "a"/"b" stay behind the playing track as hidden history.
    let (items, idx) = unshuffled(orig.clone(), &id_set(&["a", "b", "c", "d"]), "c", 9);
    assert_eq!(id_list(&items), ["a", "b", "c"]);
    assert_eq!(idx, 2);
    // Partial pass: only the heard ones are dropped from upcoming, order otherwise intact.
    let (items, idx) = unshuffled(orig.clone(), &id_set(&["a", "c"]), "a", 9);
    assert_eq!(id_list(&items), ["a", "b", "d"]);
    assert_eq!(idx, 0);
    // Playing id absent from the snapshot: fallback index, clamped to len-1.
    let (_, idx) = unshuffled(orig, &IdSet::new(), "zz", 9);
    assert_eq!(idx, 3);

    // "Play next" adds are appended to the snapshot as they're made, so a plain restore would drop
    // them behind the whole playlist. They belong right after the playing track.
    let with_adds = vec![
        song("a", None),
        song("b", None),
        song("c", None),
        SongItem { queued: true, ..song("mine1", None) },
        SongItem { queued: true, ..song("mine2", None) },
    ];
    let (items, idx) = unshuffled(with_adds, &id_set(&["a"]), "a", 9);
    assert_eq!(id_list(&items), ["a", "mine1", "mine2", "b", "c"]);
    assert_eq!(idx, 0);
}

#[test]
fn shuffle_preserves_prefix_and_multiset() {
    let ids: Vec<String> = (0..10).map(|i| format!("t{i}")).collect();
    let mut items: Vec<_> = ids.iter().map(|id| song(id, None)).collect();
    shuffle_upcoming(&mut items, 2);
    // The playing track and the already-played prefix stay put…
    for (i, id) in ids.iter().take(3).enumerate() {
        assert_eq!(&items[i].video_id, id);
    }
    // …and the whole queue is a permutation (nothing lost, nothing duplicated).
    let mut got: Vec<_> = items.iter().map(|i| i.video_id.clone()).collect();
    got.sort();
    let mut want = ids.clone();
    want.sort();
    assert_eq!(got, want);
}

#[test]
fn new_queue_shuffle_plays_clicked_track_first() {
    let ids: Vec<String> = (0..10).map(|i| format!("t{i}")).collect();
    let mut items: Vec<_> = ids.iter().map(|id| song(id, None)).collect();
    let cur = shuffle_new_queue(&mut items, 7);
    assert_eq!(cur, 0);
    assert_eq!(items[0].video_id, "t7"); // the clicked track plays first…
    let mut got: Vec<_> = items.iter().map(|i| i.video_id.clone()).collect();
    got.sort();
    let mut want = ids.clone();
    want.sort();
    assert_eq!(got, want); // …and the rest is a permutation of everything else
    // Degenerate cases: empty and single-item queues don't panic.
    let mut empty: Vec<SongItem> = vec![];
    assert_eq!(shuffle_new_queue(&mut empty, 3), 0);
    let mut one = vec![song("only", None)];
    assert_eq!(shuffle_new_queue(&mut one, 5), 0);
    assert_eq!(one[0].video_id, "only");
}

#[test]
fn manual_adds_survive_context_switch() {
    let solo = |id: &str| SongItem { queued: true, ..song(id, None) };
    // Playing B (index 1); Q1/Q2 are unplayed manual adds, Q0 already played: only the unplayed
    // ones carry into a new queue.
    let items = vec![solo("q0"), song("b", None), solo("q1"), song("c", None), solo("q2")];
    let carried = upcoming_queued(&items, 1);
    let ids: Vec<_> = carried.iter().map(|i| i.video_id.as_str()).collect();
    assert_eq!(ids, ["q1", "q2"]);
    // Nothing queued upcoming: nothing carried.
    assert!(upcoming_queued(&[song("a", None)], 0).is_empty());
}

#[test]
fn shuffle_leaves_manual_queue_block_in_place() {
    let solo = |id: &str| SongItem { queued: true, ..song(id, None) };
    let mut items = vec![song("now", None), solo("q1"), solo("q2")];
    items.extend((0..8).map(|i| song(&format!("t{i}"), None)));
    shuffle_upcoming(&mut items, 0);
    // The manual "Next in queue" block still plays next, in order.
    assert_eq!(items[1].video_id, "q1");
    assert_eq!(items[2].video_id, "q2");
    // Everything is still a permutation (nothing lost).
    assert_eq!(items.len(), 11);
}

// A whole album queued with "Play next" is a set of tracks the user shuffles like any other: the
// block keeps its place at the front, its own tracks get randomized. Songs queued one at a time
// keep the order they were queued in.
#[test]
fn shuffle_randomizes_a_play_next_album_but_not_loose_adds() {
    let solo = |id: &str| SongItem { queued: true, ..song(id, None) };
    let from = |id: &str, name: &str| SongItem {
        queued: true,
        queued_from: Some(name.into()),
        ..song(id, None)
    };
    let mut moved = false;
    for _ in 0..20 {
        let mut items = vec![song("now", None), solo("q1"), solo("q2")];
        items.extend((0..12).map(|i| from(&format!("a{i}"), "Album")));
        items.extend((0..4).map(|i| song(&format!("t{i}"), None)));
        shuffle_upcoming(&mut items, 0);
        // The loose adds stay where they were, in order, ahead of the album block.
        assert_eq!(items[1].video_id, "q1");
        assert_eq!(items[2].video_id, "q2");
        // The album block stays a block; it just plays in a different order inside it.
        let block: Vec<_> = items[3..15].iter().map(|i| i.video_id.clone()).collect();
        assert!(block.iter().all(|id| id.starts_with('a')), "the block kept its place");
        moved |= block != (0..12).map(|i| format!("a{i}")).collect::<Vec<_>>();
        let mut sorted = block.clone();
        sorted.sort();
        sorted.dedup();
        assert_eq!(sorted.len(), 12, "nothing lost or duplicated");
    }
    assert!(moved, "the album block was never shuffled");
}

#[test]
fn shuffle_keeps_autoplay_after_queue_tracks() {
    let auto = |id: &str| SongItem { autoplay: true, ..song(id, None) };
    // Playing index 0; upcoming = 4 playlist tracks + 4 autoplay tracks.
    let mut items = vec![song("now", None)];
    items.extend((0..4).map(|i| song(&format!("p{i}"), None)));
    items.extend((0..4).map(|i| auto(&format!("a{i}"))));
    shuffle_upcoming(&mut items, 0);
    // Every playlist track still comes before every autoplay track.
    let flags: Vec<bool> = items[1..].iter().map(|i| i.autoplay).collect();
    assert_eq!(flags, [false, false, false, false, true, true, true, true]);
    assert_eq!(items.len(), 9);
}

#[test]
fn radio_seed_from_source() {
    // Playlist browseIds are VL-prefixed: stripped before building the radio id.
    // A mix is already a radio playlist: it seeds autoplay as itself, not wrapped again.
    assert_eq!(radio_seed_for(Some("VLRDCLAK5uy_x".into())).as_deref(), Some("RDCLAK5uy_x"));
    assert_eq!(radio_seed_for(Some("VLPL123".into())).as_deref(), Some("RDAMPLPL123"));
    // Album audio playlist ids come bare.
    assert_eq!(radio_seed_for(Some("OLAK5uy_x".into())).as_deref(), Some("RDAMPLOLAK5uy_x"));
    // No source (single song / artist top-songs): no pinned seed.
    assert_eq!(radio_seed_for(None), None);
}

#[test]
fn autoplay_merge_dedupes_and_caps() {
    let mut items = vec![song("a", None), song("b", None)];
    let existing = ids_of(&items);
    // "a" is already queued, "c" appears twice in the radio result: one copy survives.
    let fresh =
        vec![song("a", None), song("c", None), song("c", None), song("d", None), song("e", None)];
    let added = merge_radio(&mut items, fresh, existing, 2);
    assert_eq!(added, 2); // cap honored: c + d, e cut off
    let ids: Vec<_> = items.iter().map(|i| i.video_id.as_str()).collect();
    assert_eq!(ids, ["a", "b", "c", "d"]);
    // Appended tracks are marked autoplay; originals aren't.
    assert!(items[2].autoplay && items[3].autoplay);
    assert!(!items[0].autoplay && !items[1].autoplay);
    // Nothing new in the radio result: 0, queue untouched (playback then stops as before).
    let existing = id_set(&["a", "b"]);
    assert_eq!(merge_radio(&mut items.clone(), vec![song("a", None)], existing, 20), 0);
}

#[test]
fn adds_of_either_kind_are_first_in_first_out() {
    let queued = |id: &str| SongItem { queued: true, ..song(id, None) };
    let added = |id: &str| SongItem { queued_end: true, ..song(id, None) };
    let mut items = vec![song("a", None), queued("n1"), added("q1"), song("b", None)];
    assert_eq!(guest_insert_index(&items, 0), 2);
    items.insert(2, queued("n2"));
    assert_eq!(guest_insert_index(&items, 0), 3);
    let mut q = QueueState { items, current: 0, ..QueueState::default() };
    assert_eq!(enqueue_at(&q), 4);
    q.items.insert(4, added("q2"));
    assert_eq!(enqueue_at(&q), 5);
}

#[test]
fn lengths_in_any_other_shape_read_as_nothing() {
    assert_eq!(parse_duration_ms(None), 0);
    for bad in ["", "3:xx", "xx:30", "1:02:", "1::02", "live"] {
        assert_eq!(parse_duration_ms(Some(bad)), 0);
    }
    assert_eq!(parse_duration_ms(Some("45")), 45_000);
    assert_eq!(parse_duration_ms(Some(" 1 : 05 ")), 65_000);
    assert_eq!(parse_duration_ms(Some("1:2:3:4")), 0);
    assert_eq!(format_duration(59_999), "0:59");
    assert_eq!(format_duration(3_600_000), "1:00:00");
    assert_eq!(format_duration(0), "0:00");
}
