//! The playback manager: what each command and each player event does to the state, and what is
//! then to be done outside.
//!
//! Nothing here waits or talks to anyone. A function takes what it has to know of the outside as
//! arguments, changes the state, and answers the actions to perform, in order.

use crate::order;
use crate::order::RepeatMode;
use crate::playback;
use crate::queue;
use crate::queue::QueueState;
use crate::queue::QueueView;
use crate::text;
use vstd::prelude::*;

verus! {

broadcast use crate::song::group_songs;

/// The state of the playback manager. Positions are held as the bits of the number of seconds.
pub struct AppState {
    pub queue: QueueState,
    /// Bumped on every explicit play, so that work begun for an earlier one discards itself.
    pub generation: u64,
    /// A resume position and the id of the track that it belongs to. The next load uses it up.
    pub pending_seek: Option<(String, u64)>,
    pub is_playing: bool,
    pub latest_position: u64,
    /// The second of the last write of the position, and of its last push to the system.
    pub last_pos_persist: u64,
    pub last_media_push: u64,
}

/// What an [`AppState`] holds.
#[verifier::ext_equal]
pub struct AppView {
    pub queue: QueueView,
    pub generation: u64,
    pub pending_seek: Option<(Seq<char>, u64)>,
    pub is_playing: bool,
    pub latest_position: u64,
    pub last_pos_persist: u64,
    pub last_media_push: u64,
}

/// The view of an optional resume position.
pub open spec fn opt_seek(s: Option<(String, u64)>) -> Option<(Seq<char>, u64)> {
    match s {
        Some(p) => Some((p.0@, p.1)),
        None => None,
    }
}

impl View for AppState {
    type V = AppView;

    open spec fn view(&self) -> AppView {
        AppView {
            queue: self.queue@,
            generation: self.generation,
            pending_seek: opt_seek(self.pending_seek),
            is_playing: self.is_playing,
            latest_position: self.latest_position,
            last_pos_persist: self.last_pos_persist,
            last_media_push: self.last_media_push,
        }
    }
}

/// Something to do outside.
#[derive(Clone, Copy, Debug, PartialEq, Eq)]
pub enum Action {
    /// Tell a guest that the host controls playback.
    GuestHint,
    /// Drop what the player holds behind the current entry.
    ClearPlaylist,
    /// Announce the queue to the windows.
    EmitQueue,
    /// Save the queue.
    PersistQueue,
    /// Announce the upcoming tracks to the room.
    BroadcastQueue,
    /// Announce the current track to the room, as playing from its start.
    BroadcastTrack,
    /// Prime the next track, under this generation.
    Prime(u64),
    /// Extend a queue that is nearly out, under this generation.
    Extend(u64),
    /// The same, in the background.
    ExtendSoon(u64),
    /// Prime the next track and then extend a queue that is nearly out, under this generation, in
    /// the background.
    PrimeAndExtendSoon(u64),
    /// Extend the queue under this generation, in the background, then go on with
    /// [`AppState::after_extension`].
    ExtendOrStop(u64),
    /// Extend the queue under this generation, then go on with
    /// [`AppState::next_after_extension`].
    ExtendThenNext(u64),
    /// Load the current track under this generation and, where that works, prime the next.
    Start(u64),
    /// Go on with [`AppState::mark_radio`].
    MarkRadio,
    /// Toggle the player's pause flag.
    Toggle,
    /// Make the player loop the file, or stop doing so.
    LoopFile(bool),
    /// Apply this loudness gain, or none.
    SetGain(Option<u64>),
    /// Start the player.
    Play,
    /// Seek to this position.
    Seek(u64),
    /// Announce the current track as playing.
    Announce,
    /// Announce to the windows that playback is paused.
    EmitPaused,
    /// Tell the system whether playback runs.
    ReportPlaying(bool),
    /// Tell the user that a track is gone from the disk.
    NoticeMissing,
    /// Tell the user that a track was skipped.
    NoticeSkipped,
    /// Tell the user that the current track failed.
    ShowError,
}

/// The state that a session starts from.
pub open spec fn initial() -> AppView {
    AppView {
        queue: queue::empty_queue(),
        generation: 0,
        pending_seek: None,
        is_playing: false,
        latest_position: 0,
        last_pos_persist: 0,
        last_media_push: 0,
    }
}

/// The next generation.
pub open spec fn next_generation(a: AppView) -> u64 {
    (a.generation + 1) as u64
}

impl AppState {
    /// The state that a session starts from: an empty queue, nothing playing.
    pub fn new() -> (r: Self)
        ensures
            r@ == initial(),
            r@.queue.valid(),
    {
        AppState {
            queue: QueueState::default(),
            generation: 0,
            pending_seek: None,
            is_playing: false,
            latest_position: 0,
            last_pos_persist: 0,
            last_media_push: 0,
        }
    }

    /// Begins a new generation.
    pub(crate) fn bump(&mut self) -> (r: u64)
        requires
            old(self).generation < u64::MAX,
        ensures
            r == next_generation(old(self)@),
            final(self)@ == (AppView { generation: r, ..old(self)@ }),
            final(self).queue == old(self).queue,
    {
        self.generation = self.generation + 1;
        self.generation
    }

    /// Whether work begun under this generation still counts.
    pub fn is_current(&self, gen: u64) -> (r: bool)
        ensures
            r == (self@.generation == gen),
    {
        self.generation == gen
    }
}

/// The actions that clear the player's primed entry, where that is needed.
pub open spec fn clear_if(clear: bool) -> Seq<Action> {
    if clear {
        seq![Action::ClearPlaylist]
    } else {
        seq![]
    }
}

/// The actions that follow an edit of the queue.
pub open spec fn edit_actions(clear: bool, prime: bool, gen: u64) -> Seq<Action> {
    clear_if(clear) + seq![Action::EmitQueue, Action::PersistQueue] + (if prime {
        seq![Action::Prime(gen)]
    } else {
        seq![]
    }) + seq![Action::BroadcastQueue]
}

/// The actions that follow an edit of the queue.
pub(crate) fn after_edit(clear: bool, prime: bool, gen: u64) -> (r: Vec<Action>)
    ensures
        r@ == edit_actions(clear, prime, gen),
{
    let mut r: Vec<Action> = Vec::new();
    if clear {
        r.push(Action::ClearPlaylist);
    }
    r.push(Action::EmitQueue);
    r.push(Action::PersistQueue);
    if prime {
        r.push(Action::Prime(gen));
    }
    r.push(Action::BroadcastQueue);
    assert(r@ =~= edit_actions(clear, prime, gen));
    r
}

// --- moving through the queue -------------------------------------------------------------

/// What a jump to a queue index does. A guest is only told that the host controls playback. An
/// index outside the queue still supersedes whatever is being loaded.
pub open spec fn jump(a: AppView, guest: bool, index: int) -> (AppView, Seq<Action>) {
    if guest {
        (a, seq![Action::GuestHint])
    } else {
        let g = next_generation(a);
        if index >= a.queue.items.len() {
            (AppView { generation: g, ..a }, seq![])
        } else {
            (
                AppView {
                    generation: g,
                    queue: QueueView {
                        lookahead_loaded: None,
                        ..queue::seeked(a.queue, index)
                    },
                    ..a
                },
                seq![Action::Start(g)],
            )
        }
    }
}

/// What the play/pause button does: it starts a queue that nothing is loaded from, and toggles
/// the player otherwise.
pub open spec fn resumed(a: AppView, guest: bool, idle: bool) -> (AppView, Seq<Action>) {
    if guest {
        (a, seq![])
    } else if idle && a.queue.items.len() > 0 {
        jump(a, false, a.queue.current)
    } else {
        (a, seq![Action::Toggle])
    }
}

/// The index that a manual skip goes to. It escapes a repeat-one loop: with any repeat on, the
/// queue wraps.
pub open spec fn skip_target(q: QueueView) -> Option<int> {
    order::next_of(
        q.items.len() as int,
        q.current,
        if q.repeat == RepeatMode::One {
            RepeatMode::All
        } else {
            q.repeat
        },
    )
}

/// What a manual skip does. At the tail of a queue without repeat it asks for a continuation.
pub open spec fn skipped_next(a: AppView, guest: bool) -> (AppView, Seq<Action>) {
    match skip_target(a.queue) {
        Some(i) => jump(a, guest, i),
        None => (a, seq![Action::ExtendThenNext(a.generation)]),
    }
}

/// The index that a manual skip back goes to.
pub open spec fn back_target(q: QueueView) -> int {
    if q.current > 0 {
        q.current - 1
    } else {
        0
    }
}

impl AppState {
    /// Jumps to a queue index.
    pub fn play_index(&mut self, guest: bool, index: usize) -> (r: Vec<Action>)
        requires
            !guest ==> old(self).generation < u64::MAX,
        ensures
            (final(self)@, r@) == jump(old(self)@, guest, index as int),
    {
        let ghost before = self@;
        let mut r: Vec<Action> = Vec::new();
        if guest {
            r.push(Action::GuestHint);
        } else {
            let g: u64 = self.bump();
            if index < self.queue.items.len() {
                self.queue.seek_to(index);
                self.queue.lookahead_loaded = None;
                r.push(Action::Start(g));
            }
        }
        assert(self@ =~= jump(before, guest, index as int).0);
        assert(r@ =~= jump(before, guest, index as int).1);
        r
    }

    /// The play/pause button. It also starts a queue that was restored or has run out.
    pub fn resume_or_toggle(&mut self, guest: bool, idle: bool) -> (r: Vec<Action>)
        requires
            !guest ==> old(self).generation < u64::MAX,
        ensures
            (final(self)@, r@) == resumed(old(self)@, guest, idle),
    {
        let mut r: Vec<Action> = Vec::new();
        if guest {
            return r;
        }
        if idle && self.queue.items.len() > 0 {
            let cur: usize = self.queue.current;
            return self.play_index(false, cur);
        }
        r.push(Action::Toggle);
        assert(r@ =~= seq![Action::Toggle]);
        r
    }

    /// Skips to the next track.
    pub fn next_in_queue(&mut self, guest: bool) -> (r: Vec<Action>)
        requires
            !guest ==> old(self).generation < u64::MAX,
        ensures
            (final(self)@, r@) == skipped_next(old(self)@, guest),
    {
        let repeat = match self.queue.repeat {
            RepeatMode::One => RepeatMode::All,
            other => other,
        };
        match order::next_index(self.queue.items.len(), self.queue.current, repeat) {
            Some(i) => self.play_index(guest, i),
            None => {
                let mut r: Vec<Action> = Vec::new();
                r.push(Action::ExtendThenNext(self.generation));
                assert(r@ =~= seq![Action::ExtendThenNext(self.generation)]);
                r
            },
        }
    }

    /// Goes on with a skip at the tail, once the queue has been extended by `added` tracks. Where
    /// none came there is no next track, and nothing happens.
    pub fn next_after_extension(&mut self, guest: bool, added: usize) -> (r: Vec<Action>)
        requires
            !guest ==> old(self).generation < u64::MAX,
            old(self).queue.current < usize::MAX,
        ensures
            (final(self)@, r@) == if added > 0 {
                jump(old(self)@, guest, old(self)@.queue.current + 1)
            } else {
                (old(self)@, seq![])
            },
    {
        if added > 0 {
            let next: usize = self.queue.current + 1;
            self.play_index(guest, next)
        } else {
            Vec::new()
        }
    }

    /// Skips back to the track before.
    pub fn prev_in_queue(&mut self, guest: bool) -> (r: Vec<Action>)
        requires
            !guest ==> old(self).generation < u64::MAX,
        ensures
            (final(self)@, r@) == jump(old(self)@, guest, back_target(old(self)@.queue)),
    {
        let i: usize = if self.queue.current > 0 {
            self.queue.current - 1
        } else {
            0
        };
        self.play_index(guest, i)
    }
}

// --- track ends and failures --------------------------------------------------------------

/// What the end of a track does. A guest follows the host. At the tail autoplay is asked for.
/// Where the next track was primed and the player has gone on into it, the pointer and what is
/// known of the track follow; otherwise the next track is loaded explicitly.
pub open spec fn track_ended(
    a: AppView,
    guest: bool,
    idle: bool,
    cpn: Seq<char>,
) -> (AppView, Seq<Action>) {
    let g = next_generation(a);
    if guest {
        (a, seq![])
    } else {
        match a.queue.next() {
            None => (AppView { generation: g, ..a }, seq![Action::ExtendOrStop(g)]),
            Some(next) => {
                let q = queue::seeked(a.queue, next);
                if a.queue.lookahead_loaded != Some(next) || idle {
                    (
                        AppView {
                            generation: g,
                            queue: QueueView { lookahead_loaded: None, ..q },
                            ..a
                        },
                        seq![Action::Start(g)],
                    )
                } else {
                    (
                        AppView { queue: playback::advanced(q, cpn), last_media_push: 0, ..a },
                        gapless_actions(a.queue.lookahead_gain, a.generation),
                    )
                }
            },
        }
    }
}

/// The actions that follow a gapless advance.
pub open spec fn gapless_actions(gain: Option<Option<u64>>, gen: u64) -> Seq<Action> {
    (match gain {
        Some(g) => seq![Action::SetGain(g)],
        None => seq![],
    }) + seq![
        Action::Announce,
        Action::EmitQueue,
        Action::PersistQueue,
        Action::BroadcastTrack,
        Action::PrimeAndExtendSoon(gen),
    ]
}

/// What happens once a queue that had run out has been extended, or not: the first new track
/// plays, or playback stops.
pub open spec fn extension_done(a: AppView, added: int, gen: u64) -> (AppView, Seq<Action>) {
    if added > 0 {
        (
            AppView {
                queue: QueueView {
                    current: a.queue.current + 1,
                    lookahead_loaded: None,
                    ..a.queue
                },
                ..a
            },
            seq![Action::Start(gen)],
        )
    } else {
        (
            AppView { is_playing: false, ..a },
            seq![Action::EmitPaused, Action::ReportPlaying(false)],
        )
    }
}

/// What a playback failure asks for.
pub struct Failure {
    /// The track whose cached stream is to be evicted.
    pub evict: Option<String>,
    /// Whether to remember that the main client's stream of that track failed.
    pub mark: bool,
    /// Whether the track is tried once more.
    pub retried: bool,
    pub actions: Vec<Action>,
}

/// Whether the current track, which failed, gets another try: the main client or the cache served
/// it, and it has not had one yet.
pub open spec fn retries(q: QueueView, main_client: Seq<char>) -> bool {
    &&& q.playing() is Some
    &&& q.current_client is Some
    &&& q.current_client == Some(main_client) || q.current_client == Some("cache"@)
    &&& q.retried != Some(q.items[q.current].video_id)
}

/// What a playback failure does to the state: the track is tried once more, or it counts as
/// ended.
pub open spec fn track_failed(
    a: AppView,
    main_client: Seq<char>,
    guest: bool,
    idle: bool,
    cpn: Seq<char>,
) -> (AppView, Seq<Action>) {
    if retries(a.queue, main_client) {
        let g = next_generation(a);
        (
            AppView {
                generation: g,
                queue: QueueView {
                    retried: Some(a.queue.items[a.queue.current].video_id),
                    lookahead_loaded: None,
                    ..a.queue
                },
                ..a
            },
            seq![Action::Start(g)],
        )
    } else {
        track_ended(a, guest, idle, cpn)
    }
}

impl AppState {
    /// A track ended. `idle` says whether the player has nothing loaded, `cpn` is the nonce of
    /// the play that would begin.
    pub fn on_track_ended(&mut self, guest: bool, idle: bool, cpn: String) -> (r: Vec<Action>)
        requires
            !guest ==> old(self).generation < u64::MAX,
        ensures
            (final(self)@, r@) == track_ended(old(self)@, guest, idle, cpn@),
    {
        let ghost before = self@;
        let mut r: Vec<Action> = Vec::new();
        if guest {
            return r;
        }
        match self.queue.next() {
            None => {
                let g: u64 = self.bump();
                r.push(Action::ExtendOrStop(g));
            },
            Some(next) => {
                let primed: bool = match self.queue.lookahead_loaded {
                    Some(i) => i == next,
                    None => false,
                };
                self.queue.seek_to(next);
                if !primed || idle {
                    let g: u64 = self.bump();
                    self.queue.lookahead_loaded = None;
                    r.push(Action::Start(g));
                } else {
                    match self.queue.advance(cpn) {
                        Some(gain) => {
                            r.push(Action::SetGain(gain));
                        },
                        None => {},
                    }
                    self.last_media_push = 0;
                    r.push(Action::Announce);
                    r.push(Action::EmitQueue);
                    r.push(Action::PersistQueue);
                    r.push(Action::BroadcastTrack);
                    r.push(Action::PrimeAndExtendSoon(self.generation));
                }
            },
        }
        assert(self@ =~= track_ended(before, guest, idle, cpn@).0);
        assert(r@ =~= track_ended(before, guest, idle, cpn@).1);
        r
    }

    /// Goes on after the end of the queue, once it has been extended by `added` tracks.
    pub fn after_extension(&mut self, added: usize, gen: u64) -> (r: Vec<Action>)
        requires
            old(self).queue.current < usize::MAX,
        ensures
            (final(self)@, r@) == extension_done(old(self)@, added as int, gen),
    {
        let ghost before = self@;
        let mut r: Vec<Action> = Vec::new();
        if added > 0 {
            self.queue.current = self.queue.current + 1;
            self.queue.lookahead_loaded = None;
            r.push(Action::Start(gen));
        } else {
            self.is_playing = false;
            r.push(Action::EmitPaused);
            r.push(Action::ReportPlaying(false));
        }
        assert(self@ =~= extension_done(before, added as int, gen).0);
        assert(r@ =~= extension_done(before, added as int, gen).1);
        r
    }

    /// A track died in the player. Whatever served it, its cached stream is evicted; one that the
    /// main client served is remembered as failed. The track is tried once more where that may
    /// help, else it counts as ended.
    pub fn on_track_failed(
        &mut self,
        main_client: &str,
        guest: bool,
        idle: bool,
        cpn: String,
    ) -> (r: Failure)
        requires
            old(self).generation < u64::MAX,
        ensures
            (final(self)@, r.actions@) == track_failed(
                old(self)@,
                main_client@,
                guest,
                idle,
                cpn@,
            ),
            r.retried == retries(old(self)@.queue, main_client@),
            text::opt_text(r.evict) == if old(self)@.queue.current_client is Some {
                queue::id_at(old(self)@.queue.items, old(self)@.queue.current)
            } else {
                None
            },
            r.mark == (r.evict is Some && old(self)@.queue.current_client == Some(main_client@)),
    {
        let ghost before = self@;
        let cur: usize = self.queue.current;
        let video = self.queue.id_at(cur);
        let client = text::copy_opt(&self.queue.current_client);
        match (video, client) {
            (Some(vid), Some(c)) => {
                let main: bool = text::same(c.as_str(), main_client);
                let again: bool = (main || text::same(c.as_str(), "cache")) && !text::is_text(
                    &self.queue.retried,
                    vid.as_str(),
                );
                let actions = if again {
                    self.queue.retried = Some(vid.clone());
                    self.queue.lookahead_loaded = None;
                    let g: u64 = self.bump();
                    let mut list: Vec<Action> = Vec::new();
                    list.push(Action::Start(g));
                    assert(list@ =~= seq![Action::Start(g)]);
                    list
                } else {
                    self.on_track_ended(guest, idle, cpn)
                };
                assert(self@ =~= track_failed(before, main_client@, guest, idle, cpn@).0);
                Failure { evict: Some(vid), mark: main, retried: again, actions }
            },
            _ => {
                let actions = self.on_track_ended(guest, idle, cpn);
                Failure { evict: None, mark: false, retried: false, actions }
            },
        }
    }
}

// --- what the transport keeps -------------------------------------------------------------

/// Whatever the user and the player do, the pointer stays within the queue, or at its start where
/// it is empty, and nothing ahead of it counts as played.
pub proof fn law_transport_keeps_the_queue_valid(
    a: AppView,
    guest: bool,
    idle: bool,
    index: int,
    main_client: Seq<char>,
    cpn: Seq<char>,
)
    requires
        a.queue.valid(),
        index >= 0,
    ensures
        jump(a, guest, index).0.queue.valid(),
        resumed(a, guest, idle).0.queue.valid(),
        skipped_next(a, guest).0.queue.valid(),
        jump(a, guest, back_target(a.queue)).0.queue.valid(),
        track_ended(a, guest, idle, cpn).0.queue.valid(),
        track_failed(a, main_client, guest, idle, cpn).0.queue.valid(),
{
}

/// A queue that had run out goes on with the first track that came: the one behind the track that
/// ended.
pub proof fn law_extension_goes_on_with_the_first_new_track(a: AppView, added: int, gen: u64)
    requires
        a.queue.valid(),
        added > 0,
        a.queue.current + 1 < a.queue.items.len(),
    ensures
        extension_done(a, added, gen).0.queue.valid(),
        extension_done(a, added, gen).0.queue.playing() == Some(
            a.queue.items[a.queue.current + 1],
        ),
{
}

/// Every load begins a generation of its own, so that whatever was under way before it discards
/// itself.
pub proof fn law_loads_supersede(
    a: AppView,
    guest: bool,
    idle: bool,
    index: int,
    main_client: Seq<char>,
    cpn: Seq<char>,
    g: u64,
)
    requires
        a.generation < u64::MAX,
    ensures
        jump(a, guest, index).1.contains(Action::Start(g)) ==> g == a.generation + 1 && jump(
            a,
            guest,
            index,
        ).0.generation == g,
        track_ended(a, guest, idle, cpn).1.contains(Action::Start(g)) ==> g == a.generation + 1
            && track_ended(a, guest, idle, cpn).0.generation == g,
        track_failed(a, main_client, guest, idle, cpn).1.contains(Action::Start(g)) ==> g
            == a.generation + 1 && track_failed(a, main_client, guest, idle, cpn).0.generation
            == g,
{
    let j = jump(a, guest, index).1;
    if j.contains(Action::Start(g)) {
        let k = j.index_of(Action::Start(g));
        assert(j[k] == Action::Start(g));
    }
    let e = track_ended(a, guest, idle, cpn).1;
    if e.contains(Action::Start(g)) {
        let k = e.index_of(Action::Start(g));
        assert(e[k] == Action::Start(g));
    }
    let f = track_failed(a, main_client, guest, idle, cpn).1;
    if f.contains(Action::Start(g)) {
        let k = f.index_of(Action::Start(g));
        assert(f[k] == Action::Start(g));
    }
}

/// A track that fails is tried once more and no further: in the state that the retry leaves, the
/// same failure gets no other.
pub proof fn law_one_retry_for_a_track(
    a: AppView,
    main_client: Seq<char>,
    guest: bool,
    idle: bool,
    cpn: Seq<char>,
)
    requires
        retries(a.queue, main_client),
    ensures
        !retries(track_failed(a, main_client, guest, idle, cpn).0.queue, main_client),
{
}

/// A guest's own player never moves the queue.
pub proof fn law_guests_follow(
    a: AppView,
    idle: bool,
    index: int,
    cpn: Seq<char>,
)
    ensures
        jump(a, true, index).0 == a,
        resumed(a, true, idle) == (a, Seq::<Action>::empty()),
        skipped_next(a, true).0 == a,
        track_ended(a, true, idle, cpn) == (a, Seq::<Action>::empty()),
{
}

// --- what the transport is for ------------------------------------------------------------

/// The play/pause button never changes what is current: the queue, the pointer, the played run and
/// a pending resume position stay, whether it starts the player or toggles it. It loads exactly
/// where the player has nothing loaded and there is something to load.
pub proof fn law_play_pause_keeps_the_place(a: AppView, guest: bool, idle: bool)
    requires
        a.queue.valid(),
        a.generation < u64::MAX,
    ensures
        ({
            let (s, acts) = resumed(a, guest, idle);
            let loads = !guest && idle && a.queue.items.len() > 0;
            &&& s.queue.items == a.queue.items
            &&& s.queue.current == a.queue.current
            &&& s.queue.played_from == a.queue.played_from
            &&& s.queue.playing() == a.queue.playing()
            &&& s.queue.shuffle_orig == a.queue.shuffle_orig
            &&& s.queue.repeat == a.queue.repeat
            &&& s.pending_seek == a.pending_seek
            &&& loads ==> s.generation == a.generation + 1 && acts == seq![
                Action::Start((a.generation + 1) as u64),
            ]
            &&& !loads ==> s == a && forall|g: u64| !acts.contains(Action::Start(g))
            &&& acts.contains(Action::Toggle) == (!guest && !loads)
        }),
{
    let (s, acts) = resumed(a, guest, idle);
    let loads = !guest && idle && a.queue.items.len() > 0;
    if !guest && !loads {
        assert(acts[0] == Action::Toggle);
    }
    if loads {
        assert(s.queue.items[s.queue.current] == a.queue.items[a.queue.current]);
    }
}

/// A jump lands on the very track that was asked for and loads it. Jumping forward counts what was
/// passed over as played, and jumping back counts nothing that is then ahead. Nothing else of the
/// queue changes, and outside the queue nothing moves at all.
pub proof fn law_jump_lands_on_the_track(a: AppView, index: int)
    requires
        a.queue.valid(),
        a.generation < u64::MAX,
        0 <= index,
    ensures
        ({
            let (s, acts) = jump(a, false, index);
            &&& s.generation == a.generation + 1
            &&& index < a.queue.items.len() ==> {
                &&& s.queue.current == index
                &&& s.queue.playing() == Some(a.queue.items[index])
                &&& s.queue.lookahead_loaded is None
                &&& s.queue.played_from == if a.queue.played_from <= index {
                    a.queue.played_from
                } else {
                    index
                }
                &&& acts == seq![Action::Start((a.generation + 1) as u64)]
                &&& s == AppView {
                    generation: s.generation,
                    queue: QueueView {
                        current: s.queue.current,
                        played_from: s.queue.played_from,
                        lookahead_loaded: s.queue.lookahead_loaded,
                        ..a.queue
                    },
                    ..a
                }
            }
            &&& index >= a.queue.items.len() ==> acts.len() == 0 && s.queue == a.queue
            &&& jump(a, true, index) == (a, seq![Action::GuestHint])
        }),
{
}

/// Skipping goes to the track behind the current one. From the last track any repeat leads back to
/// the first; without one nothing moves, and a continuation is asked for.
pub proof fn law_skip_goes_to_the_following_track(a: AppView)
    requires
        a.queue.valid(),
        a.queue.items.len() > 0,
        a.generation < u64::MAX,
    ensures
        ({
            let (s, acts) = skipped_next(a, false);
            let n = a.queue.items.len();
            let last = a.queue.current + 1 == n;
            &&& s.queue.items == a.queue.items
            &&& !last ==> s.queue.current == a.queue.current + 1
            &&& last && a.queue.repeat != RepeatMode::Off ==> s.queue.current == 0
            &&& !(last && a.queue.repeat == RepeatMode::Off) ==> acts == seq![
                Action::Start((a.generation + 1) as u64),
            ] && s.generation == a.generation + 1
            &&& last && a.queue.repeat == RepeatMode::Off ==> s == a && acts == seq![
                Action::ExtendThenNext(a.generation),
            ]
            &&& !(last && a.queue.repeat == RepeatMode::Off) ==> (s, acts) == jump(
                a,
                false,
                s.queue.current,
            )
        }),
{
}

/// In an empty queue nothing can be played: a skip and the end of a track ask for a continuation, a
/// jump loads nothing, and the play/pause button only toggles the player. The queue stays empty.
pub proof fn law_empty_queue_plays_nothing(
    a: AppView,
    index: int,
    idle: bool,
    cpn: Seq<char>,
)
    requires
        a.queue.items.len() == 0,
        a.generation < u64::MAX,
        0 <= index,
    ensures
        ({
            let g = (a.generation + 1) as u64;
            &&& jump(a, false, index) == (AppView { generation: g, ..a }, Seq::<Action>::empty())
            &&& skipped_next(a, false) == (a, seq![Action::ExtendThenNext(a.generation)])
            &&& track_ended(a, false, idle, cpn) == (
                AppView { generation: g, ..a },
                seq![Action::ExtendOrStop(g)],
            )
            &&& resumed(a, false, idle) == (a, seq![Action::Toggle])
        }),
{
}

/// Skipping back goes one track back, and at the first track starts it over. It undoes a skip that
/// did not wrap.
pub proof fn law_back_undoes_a_skip(a: AppView)
    requires
        a.queue.valid(),
        a.queue.items.len() > 0,
        a.generation < u64::MAX - 1,
    ensures
        0 <= back_target(a.queue) < a.queue.items.len(),
        a.queue.current > 0 ==> back_target(a.queue) + 1 == a.queue.current,
        a.queue.current == 0 ==> back_target(a.queue) == 0,
        a.queue.current + 1 < a.queue.items.len() ==> {
            let s = skipped_next(a, false).0;
            let back = jump(s, false, back_target(s.queue)).0;
            &&& back.queue.current == a.queue.current
            &&& back.queue.playing() == a.queue.playing()
            &&& back.queue.played_from == a.queue.played_from
        },
{
}

/// The end of a track moves on to the one behind it; from the last one repeat-all leads back to
/// the first. Otherwise the pointer stays and a continuation is asked for. The list and its modes
/// never change, and nothing stays primed behind a move.
pub proof fn law_track_end_moves_on_by_one(a: AppView, idle: bool, cpn: Seq<char>)
    requires
        a.queue.valid(),
        a.queue.items.len() > 0,
        a.generation < u64::MAX,
    ensures
        ({
            let (s, acts) = track_ended(a, false, idle, cpn);
            let last = a.queue.current + 1 == a.queue.items.len();
            let wraps = last && a.queue.repeat == RepeatMode::All;
            let g = (a.generation + 1) as u64;
            &&& s.queue.items == a.queue.items
            &&& s.queue.repeat == a.queue.repeat
            &&& s.queue.shuffle_orig == a.queue.shuffle_orig
            &&& !last ==> s.queue.current == a.queue.current + 1
            &&& wraps ==> s.queue.current == 0 && s.queue.played_from == 0
            &&& !last ==> s.queue.played_from == a.queue.played_from
            &&& !last || wraps ==> s.queue.lookahead_loaded is None
            &&& last && !wraps ==> s == AppView { generation: g, ..a } && acts == seq![
                Action::ExtendOrStop(g),
            ]
        }),
{
}

/// The player's own move into the next track is believed only where that very track was primed and
/// the player is not idle; then nothing is loaded, the recorded gain is applied before the track is
/// announced, and what was known of the primed track is known of the current one. In every other
/// case the next track is loaded under a new generation. Outside the queue only the clock of the
/// system's pushes is touched.
pub proof fn law_gapless_only_into_the_primed_track(a: AppView, idle: bool, cpn: Seq<char>)
    requires
        a.queue.valid(),
        a.queue.items.len() > 0,
        a.generation < u64::MAX,
        a.queue.current + 1 < a.queue.items.len() || a.queue.repeat == RepeatMode::All,
    ensures
        ({
            let (s, acts) = track_ended(a, false, idle, cpn);
            let next = if a.queue.current + 1 < a.queue.items.len() {
                a.queue.current + 1
            } else {
                0
            };
            let gapless = a.queue.lookahead_loaded == Some(next) && !idle;
            let g = (a.generation + 1) as u64;
            &&& s.queue.current == next
            &&& s == AppView {
                queue: s.queue,
                generation: s.generation,
                last_media_push: s.last_media_push,
                ..a
            }
            &&& !gapless ==> acts == seq![Action::Start(g)] && s.generation == g
                && s.last_media_push == a.last_media_push && s.queue == QueueView {
                current: s.queue.current,
                played_from: s.queue.played_from,
                lookahead_loaded: None,
                ..a.queue
            }
            &&& gapless ==> {
                &&& s.generation == a.generation
                &&& s.last_media_push == 0
                &&& forall|x: u64| !acts.contains(Action::Start(x))
                &&& acts.contains(Action::Announce)
                &&& acts.contains(Action::BroadcastTrack)
                &&& acts.contains(Action::EmitQueue)
                &&& acts.contains(Action::PersistQueue)
                &&& acts.contains(Action::PrimeAndExtendSoon(a.generation))
                &&& a.queue.lookahead_gain matches Some(gain) ==> acts[0] == Action::SetGain(gain)
                &&& a.queue.lookahead_gain is None ==> acts[0] == Action::Announce
                &&& s.queue.current_client == a.queue.lookahead_client
                &&& s.queue.playback_url == a.queue.lookahead_playback_url
                &&& s.queue.cpn == cpn
                &&& !s.queue.history_pinged
                &&& s.queue.duration == 0
                &&& s.queue.lookahead_gain is None
                &&& s.queue.lookahead_client is None
                &&& s.queue.lookahead_playback_url is None
                &&& s.queue.retried == a.queue.retried
            }
        }),
{
    let (s, acts) = track_ended(a, false, idle, cpn);
    let next = if a.queue.current + 1 < a.queue.items.len() {
        a.queue.current + 1
    } else {
        0
    };
    if a.queue.lookahead_loaded == Some(next) && !idle {
        let k = if a.queue.lookahead_gain is Some {
            1int
        } else {
            0int
        };
        assert(acts[k] == Action::Announce);
        assert(acts[k + 1] == Action::EmitQueue);
        assert(acts[k + 2] == Action::PersistQueue);
        assert(acts[k + 3] == Action::BroadcastTrack);
        assert(acts[k + 4] == Action::PrimeAndExtendSoon(a.generation));
    }
}

/// A queue that could not be continued stops: nothing is loaded, the windows and the system hear
/// of the pause, and the queue stays as it is. One that was continued plays on, under the
/// generation it was continued under.
pub proof fn law_the_end_stops_or_goes_on(a: AppView, added: int, gen: u64)
    requires
        added >= 0,
    ensures
        ({
            let (s, acts) = extension_done(a, added, gen);
            &&& s == AppView { queue: s.queue, is_playing: s.is_playing, ..a }
            &&& s.queue == QueueView {
                current: s.queue.current,
                lookahead_loaded: s.queue.lookahead_loaded,
                ..a.queue
            }
            &&& added == 0 ==> s.queue == a.queue && !s.is_playing && acts.contains(
                Action::EmitPaused,
            ) && acts.contains(Action::ReportPlaying(false)) && forall|g: u64|
                !acts.contains(Action::Start(g))
            &&& added > 0 ==> s.queue.current == a.queue.current + 1 && acts == seq![
                Action::Start(gen),
            ] && s.queue.lookahead_loaded is None && s.is_playing == a.is_playing
        }),
{
    let acts = extension_done(a, added, gen).1;
    if added == 0 {
        assert(acts[0] == Action::EmitPaused);
        assert(acts[1] == Action::ReportPlaying(false));
    }
}

/// The first failure of a track that the main client or the cache served is tried again, on the
/// same track; whatever any other client served, and whatever failed before, is not. What is not
/// tried again has ended.
pub proof fn law_failures_are_retried_by_who_served(
    a: AppView,
    main_client: Seq<char>,
    guest: bool,
    idle: bool,
    cpn: Seq<char>,
)
    requires
        a.queue.valid(),
        a.queue.items.len() > 0,
        a.generation < u64::MAX,
    ensures
        ({
            let (s, acts) = track_failed(a, main_client, guest, idle, cpn);
            let id = a.queue.items[a.queue.current].video_id;
            let served = a.queue.current_client == Some(main_client) || a.queue.current_client
                == Some("cache"@);
            let again = served && a.queue.retried != Some(id);
            &&& again ==> {
                &&& s.queue.current == a.queue.current
                &&& s.queue.items == a.queue.items
                &&& s.queue.played_from == a.queue.played_from
                &&& s.queue.retried == Some(id)
                &&& s.queue.lookahead_loaded is None
                &&& acts == seq![Action::Start((a.generation + 1) as u64)]
                &&& s.generation == a.generation + 1
                &&& s == AppView {
                    generation: s.generation,
                    queue: QueueView { retried: Some(id), lookahead_loaded: None, ..a.queue },
                    ..a
                }
            }
            &&& !again ==> (s, acts) == track_ended(a, guest, idle, cpn)
        }),
{
}

/// An edit of the queue is shown, saved and told to the room, and never starts anything. The
/// player's entry is cleared, first of all, exactly where it is stale.
pub proof fn law_an_edit_tells_everyone(clear: bool, prime: bool, gen: u64)
    ensures
        edit_actions(clear, prime, gen).contains(Action::EmitQueue),
        edit_actions(clear, prime, gen).contains(Action::PersistQueue),
        edit_actions(clear, prime, gen).contains(Action::BroadcastQueue),
        edit_actions(clear, prime, gen).contains(Action::Prime(gen)) == prime,
        edit_actions(clear, prime, gen).contains(Action::ClearPlaylist) == clear,
        clear ==> edit_actions(clear, prime, gen)[0] == Action::ClearPlaylist,
        forall|g: u64| !edit_actions(clear, prime, gen).contains(Action::Start(g)),
        forall|g: u64| g != gen ==> !edit_actions(clear, prime, gen).contains(Action::Prime(g)),
{
    let acts = edit_actions(clear, prime, gen);
    let k = if clear {
        1int
    } else {
        0int
    };
    assert(clear ==> acts[0] == Action::ClearPlaylist);
    assert(acts[k] == Action::EmitQueue);
    assert(acts[k + 1] == Action::PersistQueue);
    assert(prime ==> acts[k + 2] == Action::Prime(gen));
    assert(acts[acts.len() - 1] == Action::BroadcastQueue);
}

/// A session starts silent: nothing is queued, plays, repeats, is shuffled or waits to be resumed.
pub proof fn law_session_starts_silent()
    ensures
        initial().queue.items.len() == 0,
        initial().queue.current == 0,
        initial().queue.repeat == RepeatMode::Off,
        initial().queue.shuffle_orig is None,
        initial().queue.lookahead_loaded is None,
        initial().queue.radio_seed is None,
        !initial().queue.radio,
        !initial().is_playing,
        initial().pending_seek is None,
        initial().latest_position == 0,
{
}

// --- the same, of the calls themselves ----------------------------------------------------

/// Whatever a press of play/pause returns, the place in the queue is what it was.
pub proof fn law_pressing_play_keeps_the_place(
    s: &mut AppState,
    guest: bool,
    idle: bool,
    r: Vec<Action>,
)
    requires
        old(s)@.queue.valid(),
        old(s)@.generation < u64::MAX,
        call_ensures(AppState::resume_or_toggle, (s, guest, idle), r),
    ensures
        final(s)@.queue.items == old(s)@.queue.items,
        final(s)@.queue.current == old(s)@.queue.current,
        final(s)@.queue.played_from == old(s)@.queue.played_from,
        final(s)@.pending_seek == old(s)@.pending_seek,
        !guest && idle && old(s)@.queue.items.len() > 0 ==> r@ == seq![
            Action::Start((old(s)@.generation + 1) as u64),
        ],
        !guest && !(idle && old(s)@.queue.items.len() > 0) ==> r@ == seq![Action::Toggle],
        guest ==> final(s)@ == old(s)@ && r@.len() == 0,
{
    law_play_pause_keeps_the_place(old(s)@, guest, idle);
}

/// A jump plays the track that was asked for. For a guest it does nothing but say so.
pub proof fn law_jumping_plays_that_track(
    s: &mut AppState,
    guest: bool,
    index: usize,
    r: Vec<Action>,
)
    requires
        old(s)@.queue.valid(),
        old(s)@.generation < u64::MAX,
        call_ensures(AppState::play_index, (s, guest, index), r),
    ensures
        final(s)@.queue.items == old(s)@.queue.items,
        guest ==> final(s)@ == old(s)@ && r@ == seq![Action::GuestHint],
        !guest ==> final(s)@.generation == old(s)@.generation + 1,
        !guest && index < old(s)@.queue.items.len() ==> final(s)@.queue.current == index && r@
            == seq![Action::Start((old(s)@.generation + 1) as u64)],
        !guest && index >= old(s)@.queue.items.len() ==> final(s)@.queue == old(s)@.queue
            && r@.len() == 0,
{
    law_jump_lands_on_the_track(old(s)@, index as int);
}

/// A skip and a skip back return to the track, unless the skip wrapped.
pub proof fn law_skipping_and_back(
    s: &mut AppState,
    r: Vec<Action>,
    t: &mut AppState,
    back: Vec<Action>,
)
    requires
        old(s)@.queue.valid(),
        old(s)@.queue.items.len() > 0,
        old(s)@.generation < u64::MAX - 1,
        call_ensures(AppState::next_in_queue, (s, false), r),
        old(t)@ == final(s)@,
        call_ensures(AppState::prev_in_queue, (t, false), back),
    ensures
        ({
            let q = old(s)@.queue;
            let n = q.items.len();
            &&& q.current + 1 < n ==> final(s)@.queue.current == q.current + 1
                && final(t)@.queue.current == q.current && final(t)@.queue.playing()
                == q.playing()
            &&& q.current + 1 == n && q.repeat != RepeatMode::Off
                ==> final(s)@.queue.current == 0 && final(t)@.queue.current == 0
            &&& q.current + 1 == n && q.repeat == RepeatMode::Off ==> final(s)@ == old(s)@ && r@
                == seq![Action::ExtendThenNext(old(s)@.generation)]
            &&& final(t)@.queue.items == q.items
        }),
{
    let a = old(s)@;
    law_skip_goes_to_the_following_track(a);
    law_back_undoes_a_skip(a);
}

/// A track that ended is followed by the next one; a continuation is asked for at the end of a queue
/// that does not start over.
pub proof fn law_ending_moves_on(
    s: &mut AppState,
    guest: bool,
    idle: bool,
    cpn: String,
    r: Vec<Action>,
)
    requires
        old(s)@.queue.valid(),
        old(s)@.queue.items.len() > 0,
        old(s)@.generation < u64::MAX,
        call_ensures(AppState::on_track_ended, (s, guest, idle, cpn), r),
    ensures
        ({
            let q = old(s)@.queue;
            let last = q.current + 1 == q.items.len();
            let primed = q.lookahead_loaded == Some(q.current + 1);
            let g = (old(s)@.generation + 1) as u64;
            &&& guest ==> final(s)@ == old(s)@ && r@.len() == 0
            &&& final(s)@.queue.items == q.items
            &&& !guest && !last ==> final(s)@.queue.current == q.current + 1
            &&& !guest && !last && primed && !idle ==> final(s)@.generation == old(s)@.generation
                && forall|x: u64| !r@.contains(Action::Start(x))
            &&& !guest && !last && !(primed && !idle) ==> r@ == seq![Action::Start(g)]
            &&& !guest && last && q.repeat == RepeatMode::All ==> final(s)@.queue.current == 0
            &&& !guest && last && q.repeat != RepeatMode::All ==> final(s)@.queue == q && r@ == seq![
                Action::ExtendOrStop(g),
            ]
        }),
{
    let a = old(s)@;
    if !guest {
        law_track_end_moves_on_by_one(a, idle, cpn@);
        if a.queue.current + 1 < a.queue.items.len() {
            law_gapless_only_into_the_primed_track(a, idle, cpn@);
        }
    }
}

/// A queue that was continued goes on behind the track that it ended on, or stops where nothing
/// came, both at its end and in a skip.
pub proof fn law_continuing_goes_on(
    s: &mut AppState,
    added: usize,
    gen: u64,
    r: Vec<Action>,
    t: &mut AppState,
    guest: bool,
    skipped: Vec<Action>,
)
    requires
        old(s)@.queue.valid(),
        old(s)@.generation < u64::MAX,
        old(s)@.queue.current + added < old(s)@.queue.items.len(),
        call_ensures(AppState::after_extension, (s, added, gen), r),
        old(t)@ == old(s)@,
        call_ensures(AppState::next_after_extension, (t, guest, added), skipped),
    ensures
        added == 0 ==> final(s)@.queue == old(s)@.queue && !final(s)@.is_playing && r@ == seq![
            Action::EmitPaused,
            Action::ReportPlaying(false),
        ],
        added > 0 ==> final(s)@.queue.current == old(s)@.queue.current + 1 && r@ == seq![
            Action::Start(gen),
        ],
        added == 0 || guest ==> final(t)@ == old(t)@,
        added > 0 && !guest ==> final(t)@.queue.current == old(t)@.queue.current + 1 && skipped@
            == seq![Action::Start((old(t)@.generation + 1) as u64)],
{
    law_the_end_stops_or_goes_on(old(s)@, added as int, gen);
    law_jump_lands_on_the_track(old(t)@, old(t)@.queue.current + 1);
}

/// A track that died evicts its own stream, is remembered against the main client exactly where
/// that served it, and gets at most the one more try.
pub proof fn law_failing_evicts_and_retries_once(
    s: &mut AppState,
    main_client: &str,
    guest: bool,
    idle: bool,
    cpn: String,
    r: Failure,
)
    requires
        old(s)@.queue.valid(),
        old(s)@.queue.items.len() > 0,
        old(s)@.generation < u64::MAX,
        call_ensures(AppState::on_track_failed, (s, main_client, guest, idle, cpn), r),
    ensures
        ({
            let q = old(s)@.queue;
            let id = q.items[q.current].video_id;
            let main = q.current_client == Some(main_client@);
            let served = main || q.current_client == Some("cache"@);
            &&& q.current_client is Some ==> r.evict is Some && r.evict->0@ == id
            &&& q.current_client is None ==> r.evict is None
            &&& r.mark == main
            &&& r.retried == (served && q.retried != Some(id))
            &&& r.retried ==> final(s)@.queue.current == q.current && final(s)@.queue.retried
                == Some(id) && r.actions@ == seq![
                Action::Start((old(s)@.generation + 1) as u64),
            ]
        }),
{
    law_failures_are_retried_by_who_served(old(s)@, main_client@, guest, idle, cpn@);
}

} // verus!
