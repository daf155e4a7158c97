//! What the windows are shown of the playback state, and what is saved of the queue.

use crate::json;
use crate::order::RepeatMode;
use crate::queue;
use crate::queue::QueueState;
use crate::queue::QueueView;
use crate::settings;
use crate::settings::Db;
use crate::shuffle;
use crate::song;
use crate::song::SongItem;
use crate::song::SongView;
use crate::state::Action;
use crate::state::AppState;
use crate::state::AppView;
use crate::text;
use vstd::prelude::*;

verus! {

broadcast use crate::song::group_songs;

/// The queue as the windows are shown it.
pub struct QueueSnapshot {
    pub items: Vec<SongItem>,
    pub current_index: usize,
    pub played_from: usize,
    pub shuffle: bool,
    pub repeat: RepeatMode,
    pub source_name: Option<String>,
}

/// What a window that opened mid-playback has missed. Position and length are held as the bits of
/// the number of seconds.
pub struct PlaybackSnapshot {
    pub now: Option<SongItem>,
    pub paused: bool,
    pub position: u64,
    pub duration: u64,
    pub volume: i64,
}

/// The cover that the system is given: a file on disk becomes an address.
pub open spec fn cover_address(thumbnail: Option<Seq<char>>) -> Option<Seq<char>> {
    match thumbnail {
        Some(t) => Some(
            if text::has_prefix(t, "/"@) {
                "file://"@ + t
            } else {
                t
            },
        ),
        None => None,
    }
}

/// The cover that the system is given: a file on disk becomes an address.
pub fn cover_for(thumbnail: &Option<String>) -> (r: Option<String>)
    ensures
        text::opt_text(r) == cover_address(text::opt_text(*thumbnail)),
{
    match thumbnail {
        Some(t) => if text::starts_with(t.as_str(), "/") {
            Some(text::joined("file://", t.as_str()))
        } else {
            Some(t.clone())
        },
        None => None,
    }
}

impl AppState {
    /// The queue as the windows are shown it.
    pub fn queue_snapshot(&self) -> (r: QueueSnapshot)
        ensures
            song::songs(r.items@) == self@.queue.items,
            r.current_index == self@.queue.current,
            r.played_from == self@.queue.played_from,
            r.shuffle == (self@.queue.shuffle_orig is Some),
            r.repeat == self@.queue.repeat,
            text::opt_text(r.source_name) == self@.queue.source_name,
    {
        QueueSnapshot {
            items: song::copy_songs(&self.queue.items),
            current_index: self.queue.current,
            played_from: self.queue.played_from,
            shuffle: self.queue.shuffle_orig.is_some(),
            repeat: self.queue.repeat,
            source_name: text::copy_opt(&self.queue.source_name),
        }
    }

    /// What a window that opened mid-playback has missed.
    pub fn playback_snapshot(&self, db: &Db) -> (r: PlaybackSnapshot)
        ensures
            song::opt_song(r.now) == self@.queue.playing(),
            r.paused == !self@.is_playing,
            r.position == self@.latest_position,
            r.duration == self@.queue.duration,
            r.volume == settings::volume_of(settings::setting(db@, "volume"@)),
    {
        PlaybackSnapshot {
            now: self.queue.current_item(),
            paused: !self.is_playing,
            position: self.latest_position,
            duration: self.queue.duration,
            volume: settings::saved_volume(db),
        }
    }
}

// --- saving the queue ---------------------------------------------------------------------

/// A saved queue. What an older one lacks is absent.
pub struct SavedQueue {
    pub items: Vec<SongItem>,
    pub current: Option<u64>,
    pub played_from: Option<u64>,
    pub repeat: Option<RepeatMode>,
    pub shuffle_orig: Option<Vec<SongItem>>,
    pub radio_seed: Option<String>,
    pub source_name: Option<String>,
    pub radio: Option<bool>,
}

/// What a [`SavedQueue`] holds.
#[verifier::ext_equal]
pub struct SavedView {
    pub items: Seq<SongView>,
    pub current: Option<u64>,
    pub played_from: Option<u64>,
    pub repeat: Option<RepeatMode>,
    pub shuffle_orig: Option<Seq<SongView>>,
    pub radio_seed: Option<Seq<char>>,
    pub source_name: Option<Seq<char>>,
    pub radio: Option<bool>,
}

impl View for SavedQueue {
    type V = SavedView;

    open spec fn view(&self) -> SavedView {
        SavedView {
            items: song::songs(self.items@),
            current: self.current,
            played_from: self.played_from,
            repeat: self.repeat,
            shuffle_orig: queue::opt_songs(self.shuffle_orig),
            radio_seed: text::opt_text(self.radio_seed),
            source_name: text::opt_text(self.source_name),
            radio: self.radio,
        }
    }
}

/// The saved queue that a record reads as. Its lists and its repeat mode have been read already.
pub open spec fn read_saved(
    record: Seq<char>,
    items: Seq<SongView>,
    repeat: Option<RepeatMode>,
    shuffle_orig: Option<Seq<SongView>>,
) -> SavedView {
    SavedView {
        items,
        current: json::json_number(record, "current"@),
        played_from: json::json_number(record, "playedFrom"@),
        repeat,
        shuffle_orig,
        radio_seed: json::json_text(record, "radioSeed"@),
        source_name: json::json_text(record, "sourceName"@),
        radio: json::json_flag(record, "radio"@),
    }
}

impl SavedQueue {
    /// The saved queue that a record reads as. `items`, `repeat` and `shuffle_orig` are what the
    /// record holds under those names, where that can be read. Whatever else an older record lacks
    /// is absent.
    pub fn from_record(
        record: &str,
        items: Vec<SongItem>,
        repeat: Option<RepeatMode>,
        shuffle_orig: Option<Vec<SongItem>>,
    ) -> (r: Self)
        ensures
            r@ == read_saved(
                record@,
                song::songs(items@),
                repeat,
                queue::opt_songs(shuffle_orig),
            ),
    {
        SavedQueue {
            items,
            current: json::json_number_at(record, "current"),
            played_from: json::json_number_at(record, "playedFrom"),
            repeat,
            shuffle_orig,
            radio_seed: json::json_text_at(record, "radioSeed"),
            source_name: json::json_text_at(record, "sourceName"),
            radio: json::json_flag_at(record, "radio"),
        }
    }
}

/// What is saved of a queue.
pub open spec fn saved(q: QueueView) -> SavedView {
    SavedView {
        items: q.items,
        current: Some(q.current as u64),
        played_from: Some(q.played_from as u64),
        repeat: Some(q.repeat),
        shuffle_orig: q.shuffle_orig,
        radio_seed: q.radio_seed,
        source_name: q.source_name,
        radio: Some(q.radio),
    }
}

/// The index that a saved queue was at, kept within the list.
pub open spec fn saved_index(s: SavedView) -> int {
    shuffle::clicked(
        s.items.len() as int,
        match s.current {
            Some(i) => (i as usize) as int,
            None => 0,
        },
    )
}

/// The start of the played run of a saved queue. One that was saved without it has none.
pub open spec fn saved_run(s: SavedView) -> int {
    let current = saved_index(s);
    let from = match s.played_from {
        Some(i) => (i as usize) as int,
        None => current,
    };
    if from < current {
        from
    } else {
        current
    }
}

/// The queue once a saved one has been put into it.
pub open spec fn with_saved(q: QueueView, s: SavedView) -> QueueView {
    QueueView {
        items: s.items,
        current: saved_index(s),
        played_from: saved_run(s),
        repeat: match s.repeat {
            Some(mode) => mode,
            None => RepeatMode::Off,
        },
        shuffle_orig: s.shuffle_orig,
        radio_seed: s.radio_seed,
        source_name: s.source_name,
        radio: match s.radio {
            Some(on) => on,
            None => false,
        },
        ..q
    }
}

/// The actions that follow a restored queue: the track is announced, but nothing plays.
pub open spec fn restored_actions(repeat: RepeatMode) -> Seq<Action> {
    (if repeat == RepeatMode::One {
        seq![Action::LoopFile(true)]
    } else {
        seq![]
    }) + seq![
        Action::ReportPlaying(false),
        Action::Announce,
        Action::EmitPaused,
        Action::EmitQueue,
    ]
}

/// The state once a saved queue has been restored. `position` is where its track was.
pub open spec fn restored_state(a: AppView, s: SavedView, position: Option<u64>) -> AppView {
    if s.items.len() == 0 {
        a
    } else {
        AppView {
            queue: with_saved(a.queue, s),
            pending_seek: match position {
                Some(p) => Some((s.items[saved_index(s)].video_id, p)),
                None => a.pending_seek,
            },
            is_playing: false,
            last_media_push: 0,
            ..a
        }
    }
}

impl AppState {
    /// What is saved of the queue.
    pub fn saved_queue(&self) -> (r: SavedQueue)
        ensures
            r@ == saved(self@.queue),
    {
        let r = SavedQueue {
            items: song::copy_songs(&self.queue.items),
            current: Some(self.queue.current as u64),
            played_from: Some(self.queue.played_from as u64),
            repeat: Some(self.queue.repeat),
            shuffle_orig: match &self.queue.shuffle_orig {
                Some(orig) => Some(song::copy_songs(orig)),
                None => None,
            },
            radio_seed: text::copy_opt(&self.queue.radio_seed),
            source_name: text::copy_opt(&self.queue.source_name),
            radio: Some(self.queue.radio),
        };
        assert(r@ =~= saved(self@.queue));
        r
    }

    /// Restores the queue of the last session, paused. `position` is where its track was, a
    /// positive number of seconds; it is applied when that track is next loaded.
    pub fn restore_queue(&mut self, saved: SavedQueue, position: Option<u64>) -> (r: Vec<Action>)
        ensures
            final(self)@ == restored_state(old(self)@, saved@, position),
            r@ == if saved@.items.len() == 0 {
                seq![]
            } else {
                restored_actions(final(self)@.queue.repeat)
            },
            saved@.items.len() > 0 ==> final(self)@.queue.valid(),
    {
        let ghost before = self@;
        let ghost given = saved@;
        let mut r: Vec<Action> = Vec::new();
        let n: usize = saved.items.len();
        if n == 0 {
            return r;
        }
        let at: usize = match saved.current {
            Some(i) => i as usize,
            None => 0,
        };
        let current: usize = if at < n {
            at
        } else {
            n - 1
        };
        let from: usize = match saved.played_from {
            Some(i) => i as usize,
            None => current,
        };
        let played_from: usize = if from < current {
            from
        } else {
            current
        };
        let repeat = match saved.repeat {
            Some(mode) => mode,
            None => RepeatMode::Off,
        };
        match position {
            Some(p) => {
                assert(given.items[current as int] == saved.items@[current as int]@);
                self.pending_seek = Some((saved.items[current].video_id.clone(), p));
            },
            None => {},
        }
        self.queue.items = saved.items;
        self.queue.current = current;
        self.queue.played_from = played_from;
        self.queue.repeat = repeat;
        self.queue.shuffle_orig = saved.shuffle_orig;
        self.queue.radio_seed = saved.radio_seed;
        self.queue.source_name = saved.source_name;
        self.queue.radio = match saved.radio {
            Some(on) => on,
            None => false,
        };
        self.is_playing = false;
        self.last_media_push = 0;
        match repeat {
            RepeatMode::One => {
                r.push(Action::LoopFile(true));
            },
            _ => {},
        }
        r.push(Action::ReportPlaying(false));
        r.push(Action::Announce);
        r.push(Action::EmitPaused);
        r.push(Action::EmitQueue);
        assert(self.queue@ =~= with_saved(before.queue, given));
        assert(self@ =~= restored_state(before, given, position));
        assert(r@ =~= restored_actions(repeat));
        r
    }
}

/// A restart gives the queue back: what was saved of it is restored as it was.
pub proof fn law_saved_queue_is_restored(q: QueueState, fresh: QueueView)
    requires
        q@.valid(),
        q@.items.len() > 0,
    ensures
        ({
            let back = with_saved(fresh, saved(q@));
            &&& back.items == q@.items
            &&& back.current == q@.current
            &&& back.played_from == q@.played_from
            &&& back.repeat == q@.repeat
            &&& back.shuffle_orig == q@.shuffle_orig
            &&& back.radio_seed == q@.radio_seed
            &&& back.source_name == q@.source_name
            &&& back.radio == q@.radio
            &&& back.valid()
        }),
{
}

/// However damaged the numbers in a saved queue are, the restored one is in order.
pub proof fn law_restored_queue_is_valid(q: QueueView, s: SavedView)
    requires
        s.items.len() > 0,
    ensures
        with_saved(q, s).valid(),
{
}

/// A restart resumes where it stopped: the restored queue stands paused on the track it was saved
/// on, starts nothing by itself, and the saved position is sought when that very track is loaded.
pub proof fn law_restart_resumes_the_track(a: AppView, q: QueueState, position: Option<u64>)
    requires
        q@.valid(),
        q@.items.len() > 0,
    ensures
        ({
            let s = restored_state(a, saved(q@), position);
            let acts = restored_actions(s.queue.repeat);
            &&& s.queue.playing() == q@.playing()
            &&& !s.is_playing
            &&& s.generation == a.generation
            &&& position is Some ==> s.pending_seek == Some(
                (q@.items[q@.current].video_id, position->0),
            )
            &&& position is None ==> s.pending_seek == a.pending_seek
            &&& acts.contains(Action::EmitPaused)
            &&& acts.contains(Action::ReportPlaying(false))
            &&& acts.contains(Action::Announce)
            &&& acts.contains(Action::LoopFile(true)) == (q@.repeat == RepeatMode::One)
            &&& forall|g: u64| !acts.contains(Action::Start(g))
            &&& !acts.contains(Action::Play)
        }),
{
    let s = restored_state(a, saved(q@), position);
    let acts = restored_actions(s.queue.repeat);
    let k = if s.queue.repeat == RepeatMode::One {
        1int
    } else {
        0int
    };
    assert(acts[k] == Action::ReportPlaying(false));
    assert(acts[k + 1] == Action::Announce);
    assert(acts[k + 2] == Action::EmitPaused);
    if k == 1 {
        assert(acts[0] == Action::LoopFile(true));
    }
}

/// A saved queue that says nothing of its place stands on its first track with nothing heard, and
/// one that points behind its list stands on the last. An empty one restores nothing.
pub proof fn law_damaged_places_are_kept_within(a: AppView, s: SavedView, position: Option<u64>)
    ensures
        s.items.len() == 0 ==> restored_state(a, s, position) == a,
        s.items.len() > 0 && s.current is None ==> with_saved(a.queue, s).current == 0,
        s.current matches Some(i) ==> i < s.items.len() && i <= usize::MAX ==> with_saved(
            a.queue,
            s,
        ).current == i,
        s.current matches Some(i) ==> 0 < s.items.len() <= i <= usize::MAX ==> with_saved(
            a.queue,
            s,
        ).current == s.items.len() - 1,
        s.items.len() > 0 && s.played_from is None ==> with_saved(a.queue, s).played_from
            == with_saved(a.queue, s).current,
        s.repeat is None ==> with_saved(a.queue, s).repeat == RepeatMode::Off,
        s.radio is None ==> !with_saved(a.queue, s).radio,
        with_saved(a.queue, s).items == s.items,
        with_saved(a.queue, s).shuffle_orig == s.shuffle_orig,
{
}

/// A cover on disk is handed out as a file address, and any other as it is.
pub proof fn law_covers_are_addresses(t: Seq<char>)
    ensures
        cover_address(None) is None,
        t.len() > 0 && t[0] == '/' ==> cover_address(Some(t)) == Some("file://"@ + t),
        t.len() == 0 || t[0] != '/' ==> cover_address(Some(t)) == Some(t),
{
    reveal_strlit("/");
    if t.len() > 0 {
        if t[0] == '/' {
            assert(t.take(1) =~= "/"@);
        }
        if t.take(1) == "/"@ {
            assert(t.take(1)[0] == t[0]);
        }
    }
}

/// What a record holds under a name is what is read for it, each name for its own field.
pub proof fn law_records_are_read_by_name(
    record: Seq<char>,
    items: Seq<SongView>,
    repeat: Option<RepeatMode>,
    shuffle_orig: Option<Seq<SongView>>,
)
    ensures
        ({
            let s = read_saved(record, items, repeat, shuffle_orig);
            &&& s.items == items
            &&& s.repeat == repeat
            &&& s.shuffle_orig == shuffle_orig
            &&& s.current == json::json_number(record, "current"@)
            &&& s.played_from == json::json_number(record, "playedFrom"@)
            &&& s.radio_seed == json::json_text(record, "radioSeed"@)
            &&& s.source_name == json::json_text(record, "sourceName"@)
            &&& s.radio == json::json_flag(record, "radio"@)
        }),
{
}

/// Saving a queue and restoring it into any session gives it back, paused on its track, with the
/// position waiting for that track.
pub proof fn law_saving_and_restoring(
    s: &AppState,
    record: SavedQueue,
    t: &mut AppState,
    position: Option<u64>,
    r: Vec<Action>,
)
    requires
        s@.queue.valid(),
        s@.queue.items.len() > 0,
        call_ensures(AppState::saved_queue, (s,), record),
        call_ensures(AppState::restore_queue, (t, record, position), r),
    ensures
        final(t)@.queue.items == s@.queue.items,
        final(t)@.queue.current == s@.queue.current,
        final(t)@.queue.played_from == s@.queue.played_from,
        final(t)@.queue.repeat == s@.queue.repeat,
        final(t)@.queue.shuffle_orig == s@.queue.shuffle_orig,
        final(t)@.queue.radio_seed == s@.queue.radio_seed,
        final(t)@.queue.source_name == s@.queue.source_name,
        final(t)@.queue.radio == s@.queue.radio,
        !final(t)@.is_playing,
        position is Some ==> final(t)@.pending_seek == Some(
            (s@.queue.items[s@.queue.current].video_id, position->0),
        ),
        forall|g: u64| !r@.contains(Action::Start(g)),
        r@.contains(Action::EmitPaused),
{
    law_saved_queue_is_restored(s.queue, old(t)@.queue);
    law_restart_resumes_the_track(old(t)@, s.queue, position);
}

/// What the windows are shown is the state: the queue and its modes, the playing track, whether it
/// plays, where it is, and the stored volume.
pub proof fn law_windows_see_the_state(
    s: &AppState,
    db: &Db,
    q: QueueSnapshot,
    p: PlaybackSnapshot,
)
    requires
        s@.queue.valid(),
        call_ensures(AppState::queue_snapshot, (s,), q),
        call_ensures(AppState::playback_snapshot, (s, db), p),
    ensures
        song::songs(q.items@) == s@.queue.items,
        q.current_index == s@.queue.current,
        q.played_from == s@.queue.played_from,
        q.shuffle == s@.queue.shuffle_orig is Some,
        q.repeat == s@.queue.repeat,
        s@.queue.items.len() > 0 ==> p.now is Some && p.now->0@ == s@.queue.items[s@.queue.current],
        s@.queue.items.len() == 0 ==> p.now is None,
        p.paused == !s@.is_playing,
        p.position == s@.latest_position,
        p.duration == s@.queue.duration,
        0 <= p.volume <= 100,
{
    settings::law_volume_reads_back(0, settings::setting(db@, "volume"@));
}

} // verus!
