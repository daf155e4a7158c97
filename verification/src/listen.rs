//! Listening together: what a host tells the room, and how a guest follows it.

use crate::commands;
use crate::order;
use crate::queue;
use crate::queue::QueueView;
use crate::song;
use crate::song::SongItem;
use crate::song::Track;
use crate::song::TrackView;
use crate::state;
use crate::state::Action;
use crate::state::AppState;
use crate::state::AppView;
use crate::text;
use vstd::prelude::*;

verus! {

broadcast use crate::song::group_songs;

/// How many upcoming tracks the room is told, at most.
pub const ROOM_WINDOW: usize = 50;

/// How far a guest may be off before the position is corrected, in milliseconds.
pub const DRIFT_MS: i64 = 2000;

// --- what the host tells ------------------------------------------------------------------

/// What a message to the room is about.
#[derive(Clone, Copy, Debug, PartialEq, Eq)]
pub enum PlaybackKind {
    ChangeTrack,
    SyncQueue,
    Play,
    Pause,
    Seek,
}

/// A message to the room.
pub struct Playback {
    pub kind: PlaybackKind,
    pub track: Option<Track>,
    pub position_ms: i64,
    pub playing: bool,
    pub queue: Option<Vec<Track>>,
}

/// What a [`Playback`] holds.
pub struct PlaybackView {
    pub kind: PlaybackKind,
    pub track: Option<TrackView>,
    pub position_ms: i64,
    pub playing: bool,
    pub queue: Option<Seq<TrackView>>,
}

impl View for Playback {
    type V = PlaybackView;

    open spec fn view(&self) -> PlaybackView {
        PlaybackView {
            kind: self.kind,
            track: match self.track {
                Some(t) => Some(t@),
                None => None,
            },
            position_ms: self.position_ms,
            playing: self.playing,
            queue: match self.queue {
                Some(q) => Some(song::tracks(q@)),
                None => None,
            },
        }
    }
}

/// The view of an optional message.
pub open spec fn opt_playback(p: Option<Playback>) -> Option<PlaybackView> {
    match p {
        Some(x) => Some(x@),
        None => None,
    }
}

/// A message that names nothing but a position.
pub open spec fn message_at(kind: PlaybackKind, position_ms: i64, playing: bool) -> PlaybackView {
    PlaybackView { kind, track: None, position_ms, playing, queue: None }
}

impl Playback {
    /// A message that names nothing but a position.
    pub fn at(kind: PlaybackKind, position_ms: i64) -> (r: Self)
        ensures
            r@ == message_at(kind, position_ms, false),
    {
        Playback { kind, track: None, position_ms, playing: false, queue: None }
    }
}

/// Where the upcoming tracks that the room is told end.
pub open spec fn window_end(q: QueueView) -> int {
    if order::boundary(q.items, q.current) + ROOM_WINDOW < q.items.len() {
        order::boundary(q.items, q.current) + ROOM_WINDOW
    } else {
        q.items.len() as int
    }
}

/// The upcoming tracks that the room is told.
pub open spec fn room_queue(q: QueueView) -> Seq<TrackView> {
    song::wire_all(q.items.subrange(order::boundary(q.items, q.current), window_end(q)))
}

/// Whether the upcoming tracks that the room is told can be put on the wire.
pub open spec fn can_tell_upcoming(q: QueueView) -> bool {
    song::all_wirable(q.items, order::boundary(q.items, q.current), window_end(q))
}

/// Whether the current track can be put on the wire too.
pub open spec fn can_tell(q: QueueView) -> bool {
    &&& q.playing() is Some ==> song::wirable(q.items[q.current])
    &&& can_tell_upcoming(q)
}

/// The message that announces the current track and what is upcoming.
pub open spec fn track_message(
    q: QueueView,
    position_ms: i64,
    playing: bool,
) -> Option<PlaybackView> {
    match q.playing() {
        Some(s) => Some(
            PlaybackView {
                kind: PlaybackKind::ChangeTrack,
                track: Some(song::wire(s)),
                position_ms,
                playing,
                queue: Some(room_queue(q)),
            },
        ),
        None => None,
    }
}

impl AppState {
    /// The upcoming tracks that the room is told: their bounds in the queue.
    fn window(&self) -> (r: (usize, usize))
        ensures
            r.0 == order::boundary(self@.queue.items, self@.queue.current),
            r.1 == window_end(self@.queue),
            r.0 <= r.1 <= self.queue.items@.len(),
    {
        let n: usize = self.queue.items.len();
        let from: usize = if self.queue.current < n {
            self.queue.current + 1
        } else {
            n
        };
        let to: usize = if n - from > ROOM_WINDOW {
            from + ROOM_WINDOW
        } else {
            n
        };
        (from, to)
    }

    /// Whether the upcoming tracks that the room is told can be put on the wire.
    pub fn can_tell_queue(&self) -> (r: bool)
        ensures
            r == can_tell_upcoming(self@.queue),
    {
        let (from, to) = self.window();
        song::wirable_between(&self.queue.items, from, to)
    }

    /// Whether the current track can be put on the wire too.
    pub fn can_tell_track(&self) -> (r: bool)
        ensures
            r == can_tell(self@.queue),
    {
        let cur: usize = self.queue.current;
        if cur < self.queue.items.len() && !song::is_wirable(&self.queue.items[cur]) {
            return false;
        }
        self.can_tell_queue()
    }

    /// The host's message that announces the current track. Nobody else sends one.
    pub fn broadcast_current_track(&self, host: bool, position_ms: i64, playing: bool) -> (r: Option<
        Playback,
    >)
        requires
            host ==> can_tell(self@.queue),
        ensures
            opt_playback(r) == if host {
                track_message(self@.queue, position_ms, playing)
            } else {
                None
            },
    {
        let cur: usize = self.queue.current;
        if !host || cur >= self.queue.items.len() {
            return None;
        }
        let (from, to) = self.window();
        assert(self@.queue.items[cur as int] == self.queue.items@[cur as int]@);
        Some(
            Playback {
                kind: PlaybackKind::ChangeTrack,
                track: Some(song::song_to_track(&self.queue.items[cur])),
                position_ms,
                playing,
                queue: Some(song::wire_between(&self.queue.items, from, to)),
            },
        )
    }

    /// The host's message that announces what is upcoming. Nobody else sends one.
    pub fn broadcast_queue(&self, host: bool) -> (r: Option<Playback>)
        requires
            host ==> can_tell_upcoming(self@.queue),
        ensures
            opt_playback(r) == if host {
                Some(
                    PlaybackView {
                        kind: PlaybackKind::SyncQueue,
                        track: None,
                        position_ms: 0,
                        playing: false,
                        queue: Some(room_queue(self@.queue)),
                    },
                )
            } else {
                None
            },
    {
        if !host {
            return None;
        }
        let (from, to) = self.window();
        Some(
            Playback {
                kind: PlaybackKind::SyncQueue,
                track: None,
                position_ms: 0,
                playing: false,
                queue: Some(song::wire_between(&self.queue.items, from, to)),
            },
        )
    }

    /// The host's message that playback runs or is paused, at this position. Nobody else sends
    /// one.
    pub fn lt_on_play_state(&self, host: bool, playing: bool, position_ms: i64) -> (r: Option<
        Playback,
    >)
        ensures
            opt_playback(r) == if host {
                Some(
                    message_at(
                        if playing {
                            PlaybackKind::Play
                        } else {
                            PlaybackKind::Pause
                        },
                        position_ms,
                        playing,
                    ),
                )
            } else {
                None
            },
    {
        if !host {
            return None;
        }
        let mut p = Playback::at(
            if playing {
                PlaybackKind::Play
            } else {
                PlaybackKind::Pause
            },
            position_ms,
        );
        p.playing = playing;
        Some(p)
    }

    /// A seek by the user to this position. `None` for a guest, whose timeline the host controls;
    /// else the seek happens, and a host sends the message that comes with it.
    pub fn user_seek(&self, guest: bool, host: bool, position_ms: i64) -> (r: Option<
        Option<Playback>,
    >)
        ensures
            r is None == guest,
            r matches Some(p) ==> opt_playback(p) == if host {
                Some(message_at(PlaybackKind::Seek, position_ms, false))
            } else {
                None
            },
    {
        if guest {
            None
        } else if host {
            Some(Some(Playback::at(PlaybackKind::Seek, position_ms)))
        } else {
            Some(None)
        }
    }
}

/// What the room is told of the queue: the tracks behind the playing one, in order, and no more
/// than the window holds.
pub proof fn law_room_hears_the_next_tracks(q: QueueView, i: int)
    requires
        q.valid(),
        0 <= i < ROOM_WINDOW,
        q.current + 1 + i < q.items.len(),
    ensures
        room_queue(q).len() <= ROOM_WINDOW,
        i < room_queue(q).len(),
        room_queue(q)[i] == song::wire(q.items[q.current + 1 + i]),
{
}

// --- how a guest follows ------------------------------------------------------------------

/// The state of a room.
pub struct RoomState {
    pub current_track: Option<Track>,
    pub position_ms: i64,
    pub is_playing: bool,
    pub queue: Vec<Track>,
}

/// A command from the room.
pub enum SyncCommand {
    /// We host the room: tell it what plays.
    HostSeed,
    /// We are no longer led.
    Release,
    ApplyState(RoomState),
    ChangeTrack { track: Track, position_ms: i64, playing: bool, queue: Vec<Track> },
    Play { position_ms: i64, server_time_ms: i64 },
    Pause { position_ms: i64 },
    Seek { position_ms: i64 },
    SyncQueue { queue: Vec<Track> },
    GuestAdd { track: Track },
}

/// What a command has to know of the outside: our role, the player, and the clock.
#[derive(Clone, Copy, Debug, PartialEq, Eq)]
pub struct SyncFacts {
    pub guest: bool,
    pub host: bool,
    pub idle: bool,
    pub dedupe: bool,
    /// Where the player is, in milliseconds.
    pub player_ms: i64,
    pub now_ms: i64,
}

/// A track to load for a guest.
pub struct GuestLoad {
    pub generation: u64,
    pub video_id: String,
    pub position_ms: i64,
    pub playing: bool,
}

/// What a command asks for.
pub enum SyncStep {
    Nothing,
    /// Send this to the room.
    Tell(Playback),
    /// The right track is loaded: correct its position and play state.
    Align { position_ms: i64, playing: bool },
    /// Load this track.
    Load(GuestLoad),
    /// Seek, where a position is given, then play.
    Play(Option<i64>),
    /// Seek, where a position is given, then pause.
    Pause(Option<i64>),
    Seek(i64),
    Perform(Vec<Action>),
}

/// The queue of a guest: the host's track and what is upcoming there. Nothing of a former queue
/// of the guest's own is left.
pub open spec fn guest_queue(
    q: QueueView,
    track: TrackView,
    upcoming: Seq<TrackView>,
) -> QueueView {
    QueueView {
        items: seq![song::unwired(track)] + song::unwired_all(upcoming),
        current: 0,
        played_from: 0,
        lookahead_loaded: None,
        shuffle_orig: None,
        radio_seed: None,
        source_name: None,
        ..q
    }
}

/// The queue of a guest with what is upcoming replaced by the host's.
pub open spec fn mirrored(q: QueueView, upcoming: Seq<TrackView>) -> QueueView {
    QueueView {
        items: order::through(q.items, q.current) + song::unwired_all(upcoming),
        ..q
    }
}

/// Where the host is by now: the position that was sent, and the time that has passed since.
pub open spec fn live_position(position_ms: int, server_time_ms: int, now_ms: int) -> int {
    if server_time_ms > 0 && now_ms > server_time_ms {
        position_ms + (now_ms - server_time_ms)
    } else {
        position_ms
    }
}

/// The position to correct to, where the player is off by more than it may be.
pub open spec fn correction(player_ms: int, target: int) -> Option<int> {
    if player_ms - target > DRIFT_MS || target - player_ms > DRIFT_MS {
        Some(target)
    } else {
        None
    }
}

/// The view of an optional position.
pub open spec fn opt_ms(ms: Option<i64>) -> Option<int> {
    match ms {
        Some(x) => Some(x as int),
        None => None,
    }
}

/// Whether a number fits where milliseconds are kept.
pub open spec fn ms_fits(n: int) -> bool {
    i64::MIN <= n <= i64::MAX
}

/// Whether the arithmetic on the positions of a command stays within range.
pub open spec fn sync_fits(cmd: SyncCommand, facts: SyncFacts) -> bool {
    match cmd {
        SyncCommand::Play { position_ms, server_time_ms } => {
            let target = live_position(
                position_ms as int,
                server_time_ms as int,
                facts.now_ms as int,
            );
            &&& server_time_ms > 0 ==> ms_fits(facts.now_ms - server_time_ms)
            &&& ms_fits(target)
            &&& ms_fits(facts.player_ms - target)
            &&& facts.player_ms - target != i64::MIN
        },
        SyncCommand::Pause { position_ms } => {
            &&& ms_fits(facts.player_ms - position_ms)
            &&& facts.player_ms - position_ms != i64::MIN
        },
        _ => true,
    }
}

/// The position to correct to, where the player is off by more than it may be.
fn corrected(player_ms: i64, target: i64) -> (r: Option<i64>)
    requires
        ms_fits(player_ms - target),
        player_ms - target != i64::MIN,
    ensures
        opt_ms(r) == correction(player_ms as int, target as int),
{
    let off: i64 = player_ms - target;
    if off > DRIFT_MS || off < -DRIFT_MS {
        Some(target)
    } else {
        None
    }
}

/// Whether the current track is the one with this id, and the player has it loaded.
pub open spec fn has_loaded(q: QueueView, id: Seq<char>, idle: bool) -> bool {
    queue::id_at(q.items, q.current) == Some(id) && !idle
}

/// Whether `r` and `after` are what loading the host's track comes to.
pub open spec fn is_guest_load(
    before: AppView,
    after: AppView,
    r: SyncStep,
    track: TrackView,
    position_ms: i64,
    playing: bool,
    upcoming: Seq<TrackView>,
) -> bool {
    &&& after == AppView {
        generation: state::next_generation(before),
        queue: guest_queue(before.queue, track, upcoming),
        ..before
    }
    &&& r matches SyncStep::Load(load) && load.generation == after.generation
        && load.video_id@ == track.id && load.position_ms == position_ms && load.playing
        == playing
}

/// Whether `r` and `after` are what a command comes to.
pub open spec fn is_synced(
    before: AppView,
    after: AppView,
    r: SyncStep,
    cmd: SyncCommand,
    facts: SyncFacts,
) -> bool {
    match cmd {
        SyncCommand::HostSeed => {
            let message = track_message(before.queue, facts.player_ms, before.is_playing);
            &&& after == before
            &&& if facts.host && message is Some {
                r matches SyncStep::Tell(p) && p@ == message->0
            } else {
                r is Nothing
            }
        },
        SyncCommand::Release => after == before && r is Nothing,
        SyncCommand::ApplyState(room) => match room.current_track {
            None => after == before && r is Nothing,
            Some(track) => if has_loaded(before.queue, track.id@, facts.idle) {
                &&& after == AppView {
                    queue: mirrored(before.queue, song::tracks(room.queue@)),
                    ..before
                }
                &&& r matches SyncStep::Align { position_ms, playing } && position_ms
                    == room.position_ms && playing == room.is_playing
            } else {
                is_guest_load(
                    before,
                    after,
                    r,
                    track@,
                    room.position_ms,
                    room.is_playing,
                    song::tracks(room.queue@),
                )
            },
        },
        SyncCommand::ChangeTrack { track, position_ms, playing, queue } => is_guest_load(
            before,
            after,
            r,
            track@,
            position_ms,
            playing,
            song::tracks(queue@),
        ),
        SyncCommand::Play { position_ms, server_time_ms } => after == before && (
        r matches SyncStep::Play(seek) && opt_ms(seek) == correction(
            facts.player_ms as int,
            live_position(position_ms as int, server_time_ms as int, facts.now_ms as int),
        )),
        SyncCommand::Pause { position_ms } => after == before && (
        r matches SyncStep::Pause(seek) && opt_ms(seek) == correction(
            facts.player_ms as int,
            position_ms as int,
        )),
        SyncCommand::Seek { position_ms } => after == before && (
        r matches SyncStep::Seek(target) && target == position_ms),
        SyncCommand::SyncQueue { queue } => {
            &&& after == AppView {
                queue: mirrored(before.queue, song::tracks(queue@)),
                ..before
            }
            &&& r matches SyncStep::Perform(actions) && actions@ == seq![Action::EmitQueue]
        },
        SyncCommand::GuestAdd { track } => r matches SyncStep::Perform(actions)
            && commands::is_inserted(
            before,
            after,
            actions@,
            seq![song::unwired(track@)],
            true,
            None,
            facts.dedupe,
            facts.guest,
        ),
    }
}

impl AppState {
    /// Installs the host's queue, for the track that is then to be loaded.
    fn follow(
        &mut self,
        track: Track,
        position_ms: i64,
        playing: bool,
        upcoming: &Vec<Track>,
    ) -> (r: SyncStep)
        requires
            old(self).generation < u64::MAX,
        ensures
            is_guest_load(
                old(self)@,
                final(self)@,
                r,
                track@,
                position_ms,
                playing,
                song::tracks(upcoming@),
            ),
    {
        let ghost before = self@;
        let g: u64 = self.bump();
        let mut items: Vec<SongItem> = Vec::new();
        items.push(song::track_to_song(&track));
        let more = song::tracks_to_songs(upcoming);
        song::append_songs(&mut items, more);
        assert(song::songs(items@) =~= seq![song::unwired(track@)] + song::unwired_all(
            song::tracks(upcoming@),
        ));
        self.queue.items = items;
        self.queue.current = 0;
        self.queue.played_from = 0;
        self.queue.lookahead_loaded = None;
        self.queue.shuffle_orig = None;
        self.queue.radio_seed = None;
        self.queue.source_name = None;
        assert(self.queue@ =~= guest_queue(before.queue, track@, song::tracks(upcoming@)));
        SyncStep::Load(GuestLoad { generation: g, video_id: track.id, position_ms, playing })
    }

    /// Mirrors the host's upcoming tracks behind the current one.
    fn mirror(&mut self, upcoming: &Vec<Track>)
        ensures
            final(self)@ == (AppView {
                queue: mirrored(old(self)@.queue, song::tracks(upcoming@)),
                ..old(self)@
            }),
    {
        let ghost before = self@;
        let n: usize = self.queue.items.len();
        let keep: usize = if self.queue.current < n {
            self.queue.current + 1
        } else {
            n
        };
        self.queue.items.truncate(keep);
        assert(song::songs(self.queue.items@) =~= order::through(
            before.queue.items,
            before.queue.current,
        ));
        let more = song::tracks_to_songs(upcoming);
        song::append_songs(&mut self.queue.items, more);
        assert(self@ =~= (AppView {
            queue: mirrored(before.queue, song::tracks(upcoming@)),
            ..before
        }));
    }

    /// Applies a command from the room.
    pub fn apply_sync(&mut self, cmd: SyncCommand, facts: SyncFacts) -> (r: SyncStep)
        requires
            cmd is ApplyState || cmd is ChangeTrack || cmd is GuestAdd ==> old(self).generation
                < u64::MAX,
            sync_fits(cmd, facts),
            cmd is HostSeed && facts.host ==> can_tell(old(self)@.queue),
        ensures
            is_synced(old(self)@, final(self)@, r, cmd, facts),
    {
        match cmd {
            SyncCommand::HostSeed => {
                match self.broadcast_current_track(
                    facts.host,
                    facts.player_ms,
                    self.is_playing,
                ) {
                    Some(p) => SyncStep::Tell(p),
                    None => SyncStep::Nothing,
                }
            },
            SyncCommand::Release => SyncStep::Nothing,
            SyncCommand::ApplyState(room) => match room.current_track {
                None => SyncStep::Nothing,
                Some(track) => {
                    let here = self.queue.id_at(self.queue.current);
                    if text::is_text(&here, track.id.as_str()) && !facts.idle {
                        self.mirror(&room.queue);
                        SyncStep::Align {
                            position_ms: room.position_ms,
                            playing: room.is_playing,
                        }
                    } else {
                        self.follow(track, room.position_ms, room.is_playing, &room.queue)
                    }
                },
            },
            SyncCommand::ChangeTrack { track, position_ms, playing, queue } => {
                self.follow(track, position_ms, playing, &queue)
            },
            SyncCommand::Play { position_ms, server_time_ms } => {
                let target: i64 = if server_time_ms > 0 && facts.now_ms > server_time_ms {
                    position_ms + (facts.now_ms - server_time_ms)
                } else {
                    position_ms
                };
                SyncStep::Play(corrected(facts.player_ms, target))
            },
            SyncCommand::Pause { position_ms } => {
                SyncStep::Pause(corrected(facts.player_ms, position_ms))
            },
            SyncCommand::Seek { position_ms } => SyncStep::Seek(position_ms),
            SyncCommand::SyncQueue { queue } => {
                self.mirror(&queue);
                let mut actions: Vec<Action> = Vec::new();
                actions.push(Action::EmitQueue);
                assert(actions@ =~= seq![Action::EmitQueue]);
                SyncStep::Perform(actions)
            },
            SyncCommand::GuestAdd { track } => {
                SyncStep::Perform(self.lt_enqueue_track(track, facts.dedupe, facts.guest))
            },
        }
    }
}

/// The position to load a guest's track at: while the host plays on, the time that the load took
/// is added.
pub fn load_position(position_ms: i64, playing: bool, elapsed_ms: i64) -> (r: i64)
    requires
        playing ==> ms_fits(position_ms + elapsed_ms),
    ensures
        r == if playing {
            position_ms + elapsed_ms
        } else {
            position_ms as int
        },
{
    if playing {
        position_ms + elapsed_ms
    } else {
        position_ms
    }
}

/// A guest sees what the host announced: the announced track plays, and the announced tracks are
/// what is upcoming, up to what the wire carries.
pub proof fn law_guest_mirrors_the_host(host: QueueView, guest: QueueView)
    requires
        host.valid(),
        host.items.len() > 0,
        can_tell(host),
    ensures
        ({
            let seen = guest_queue(guest, song::wire(host.items[host.current]), room_queue(host));
            &&& seen.valid()
            &&& seen.items[0].video_id == host.items[host.current].video_id
            &&& seen.items.len() == 1 + room_queue(host).len()
            &&& forall|i: int|
                1 <= i < seen.items.len() ==> #[trigger] seen.items[i].video_id
                    == host.items[host.current + i].video_id
        }),
{
}

/// Following the host's upcoming tracks never touches the track that a guest is hearing.
pub proof fn law_mirror_keeps_the_playing_track(q: QueueView, upcoming: Seq<TrackView>)
    requires
        q.valid(),
        q.items.len() > 0,
    ensures
        mirrored(q, upcoming).valid(),
        mirrored(q, upcoming).playing() == q.playing(),
        order::upcoming(mirrored(q, upcoming).items, q.current) == song::unwired_all(upcoming),
{
    assert(order::upcoming(mirrored(q, upcoming).items, q.current) =~= song::unwired_all(
        upcoming,
    ));
}

/// A guest follows the host to the letter. A change of track always loads the host's track, at the
/// host's position and in the host's play state, under a new generation, and that track is then
/// the current one.
pub proof fn law_guest_plays_as_the_host(
    before: AppView,
    after: AppView,
    r: SyncStep,
    track: Track,
    position_ms: i64,
    playing: bool,
    queue: Vec<Track>,
    facts: SyncFacts,
)
    requires
        before.generation < u64::MAX,
        is_synced(
            before,
            after,
            r,
            SyncCommand::ChangeTrack { track, position_ms, playing, queue },
            facts,
        ),
    ensures
        r is Load,
        r matches SyncStep::Load(load) ==> {
            &&& load.playing == playing
            &&& load.position_ms == position_ms
            &&& load.video_id@ == track.id@
            &&& load.generation == before.generation + 1
        },
        after.generation == before.generation + 1,
        after.queue.current == 0,
        after.queue.items.len() == 1 + queue@.len(),
        after.queue.items[0].video_id == track.id@,
        forall|i: int|
            0 <= i < queue@.len() ==> (#[trigger] after.queue.items[i + 1]).video_id
                == queue@[i].id@,
        after.queue.shuffle_orig is None,
        after.queue.radio_seed is None,
        after.queue.source_name is None,
        after.queue.lookahead_loaded is None,
        after.queue.repeat == before.queue.repeat,
        after.is_playing == before.is_playing,
        after.pending_seek == before.pending_seek,
{
    assert forall|i: int| 0 <= i < queue@.len() implies (
    #[trigger] after.queue.items[i + 1]).video_id == queue@[i].id@ by {
        assert(after.queue.items[i + 1] == song::unwired_all(song::tracks(queue@))[i]);
    }
}

/// Joining a room brings a guest to where the room is. A track that the player already holds is
/// only aligned, and plays on under its generation; any other is loaded. Either way the position
/// and the play state are the room's, the room's track is the current one, and the room's queue is
/// what is upcoming.
pub proof fn law_guest_joins_where_the_room_is(
    before: AppView,
    after: AppView,
    r: SyncStep,
    room: RoomState,
    facts: SyncFacts,
)
    requires
        before.queue.valid(),
        before.generation < u64::MAX,
        is_synced(before, after, r, SyncCommand::ApplyState(room), facts),
    ensures
        room.current_track is None ==> after == before && r is Nothing,
        room.current_track matches Some(track) ==> {
            let here = before.queue.items.len() > 0 && before.queue.items[before.queue.current]
                .video_id == track.id@ && !facts.idle;
            &&& here ==> (r matches SyncStep::Align { position_ms, playing } && position_ms
                == room.position_ms && playing == room.is_playing)
            &&& here ==> after.generation == before.generation && after.queue.playing()
                == before.queue.playing()
            &&& !here ==> (r matches SyncStep::Load(load) && load.position_ms == room.position_ms
                && load.playing == room.is_playing && load.video_id@ == track.id@
                && load.generation == after.generation)
            &&& !here ==> after.generation == before.generation + 1
            &&& after.queue.items[after.queue.current].video_id == track.id@
            &&& after.queue.items.len() == after.queue.current + 1 + room.queue@.len()
            &&& forall|i: int|
                0 <= i < room.queue@.len() ==> (#[trigger] after.queue.items[after.queue.current
                    + 1 + i]).video_id == room.queue@[i].id@
        },
{
    if let Some(track) = room.current_track {
        let here = before.queue.items.len() > 0 && before.queue.items[before.queue.current].video_id
            == track.id@ && !facts.idle;
        assert(here == has_loaded(before.queue, track.id@, facts.idle));
        let more = song::unwired_all(song::tracks(room.queue@));
        assert forall|i: int| 0 <= i < room.queue@.len() implies (
        #[trigger] after.queue.items[after.queue.current + 1 + i]).video_id == room.queue@[i].id@ by {
            assert(after.queue.items[after.queue.current + 1 + i] == more[i]);
        }
    }
}

/// Play, pause and seek do what they say: each asks for its own step and leaves our own state
/// alone. A seek goes to the given position. A pause moves the player only where it is off by more
/// than the tolerated drift, and then to the given position; a play likewise, to the position plus
/// the time that has passed since it was sent, which is never behind the position.
pub proof fn law_room_commands_do_what_they_say(
    before: AppView,
    after: AppView,
    r: SyncStep,
    cmd: SyncCommand,
    facts: SyncFacts,
)
    requires
        is_synced(before, after, r, cmd, facts),
    ensures
        cmd matches SyncCommand::Seek { position_ms } ==> after == before && r == SyncStep::Seek(
            position_ms,
        ),
        cmd matches SyncCommand::Pause { position_ms } ==> after == before && r is Pause && {
            let off = if facts.player_ms > position_ms {
                facts.player_ms - position_ms
            } else {
                position_ms - facts.player_ms
            };
            r == if off > 2000 {
                SyncStep::Pause(Some(position_ms))
            } else {
                SyncStep::Pause(None)
            }
        },
        cmd matches SyncCommand::Play { position_ms, server_time_ms } ==> after == before && r is Play
            && {
            let passed = if server_time_ms > 0 && facts.now_ms > server_time_ms {
                facts.now_ms - server_time_ms
            } else {
                0
            };
            let target = position_ms + passed;
            let off = if facts.player_ms > target {
                facts.player_ms - target
            } else {
                target - facts.player_ms
            };
            &&& passed >= 0
            &&& off <= 2000 ==> r == SyncStep::Play(None)
            &&& off > 2000 ==> (r matches SyncStep::Play(seek) && seek is Some && seek->0 == target)
        },
        cmd is Release ==> after == before && r is Nothing,
        cmd matches SyncCommand::SyncQueue { queue } ==> {
            &&& after.generation == before.generation
            &&& after.queue.current == before.queue.current
            &&& after.is_playing == before.is_playing
            &&& r matches SyncStep::Perform(actions) && forall|g: u64|
                !actions@.contains(Action::Start(g))
        },
{
}

/// Only the host announces, and what it announces is what plays: the current track, the given
/// position and play state, and the tracks behind the current one, as many as the window holds.
pub proof fn law_host_announces_what_plays(q: QueueView, position_ms: i64, playing: bool)
    requires
        q.valid(),
    ensures
        q.items.len() == 0 ==> track_message(q, position_ms, playing) is None,
        q.items.len() > 0 ==> (track_message(q, position_ms, playing) matches Some(m) && {
            let left = q.items.len() - (q.current + 1);
            &&& m.kind == PlaybackKind::ChangeTrack
            &&& m.track matches Some(t) && t.id == q.items[q.current].video_id && t.title
                == q.items[q.current].title
            &&& m.position_ms == position_ms
            &&& m.playing == playing
            &&& m.queue matches Some(list) && list.len() == (if left < 50 {
                left
            } else {
                50
            }) && forall|i: int|
                0 <= i < list.len() ==> (#[trigger] list[i]).id == q.items[q.current + 1 + i].video_id
        }),
{
}

/// A host that is asked what plays tells its current track, where its player is, and whether it
/// plays. A guest or someone outside a room tells nothing.
pub proof fn law_seeding_the_room_tells_the_truth(
    before: AppView,
    after: AppView,
    r: SyncStep,
    facts: SyncFacts,
)
    requires
        before.queue.valid(),
        is_synced(before, after, r, SyncCommand::HostSeed, facts),
    ensures
        after == before,
        !facts.host || before.queue.items.len() == 0 ==> r is Nothing,
        facts.host && before.queue.items.len() > 0 ==> (r matches SyncStep::Tell(p) && {
            &&& p.kind == PlaybackKind::ChangeTrack
            &&& p.position_ms == facts.player_ms
            &&& p.playing == before.is_playing
            &&& p@.track matches Some(t) && t.id
                == before.queue.items[before.queue.current].video_id
        }),
{
    if facts.host && before.queue.items.len() > 0 {
        assert(before.queue.playing() is Some);
        if let SyncStep::Tell(p) = r {
            assert(p@ == track_message(before.queue, facts.player_ms, before.is_playing)->0);
        }
    }
}

/// A message about a position carries that position and play state, and neither a track nor a
/// queue.
pub proof fn law_message_names_its_position(kind: PlaybackKind, position_ms: i64, playing: bool)
    ensures
        message_at(kind, position_ms, playing).kind == kind,
        message_at(kind, position_ms, playing).position_ms == position_ms,
        message_at(kind, position_ms, playing).playing == playing,
        message_at(kind, position_ms, playing).track is None,
        message_at(kind, position_ms, playing).queue is None,
{
}

/// A track that a guest of our room suggested becomes a "Play next" of our queue: it keeps its
/// identity and who suggested it, only earlier "Play next" adds play before it, and what is
/// playing plays on.
pub proof fn law_suggestion_plays_next(
    before: AppView,
    after: AppView,
    r: SyncStep,
    track: Track,
    facts: SyncFacts,
)
    requires
        before.queue.valid(),
        before.queue.items.len() > 0,
        is_synced(before, after, r, SyncCommand::GuestAdd { track }, facts),
    ensures
        exists|at: int|
            {
                &&& after.queue.current < at < after.queue.items.len()
                &&& (#[trigger] after.queue.items[at]).video_id == track.id@
                &&& after.queue.items[at].title == track.title@
                &&& after.queue.items[at].queued_by == track@.queued_by
                &&& after.queue.items[at].queued
                &&& forall|i: int|
                    after.queue.current < i < at ==> (#[trigger] after.queue.items[i]).queued
            },
        after.queue.playing() == before.queue.playing(),
        after.generation == before.generation,
        r matches SyncStep::Perform(actions) && forall|g: u64|
            !actions@.contains(Action::Start(g)),
{
    if let SyncStep::Perform(actions) = r {
        let items = seq![song::unwired(track@)];
        let (block, at) = commands::law_queued_tracks_play_before_the_context(
            before,
            after,
            actions@,
            items,
            true,
            None,
            facts.dedupe,
            facts.guest,
        );
        assert(after.queue.items.subrange(at, at + 1)[0] == block[0]);
        assert(after.queue.items[at] == block[0]);
    }
}

// --- the same, of the calls themselves ----------------------------------------------------

/// However a guest is told of the host's track, what it loads is that track, at the host's position
/// and in the host's play state.
pub proof fn law_following_plays_as_the_host(
    s: &mut AppState,
    cmd: SyncCommand,
    facts: SyncFacts,
    r: SyncStep,
)
    requires
        old(s)@.queue.valid(),
        old(s)@.generation < u64::MAX,
        call_ensures(AppState::apply_sync, (s, cmd, facts), r),
    ensures
        cmd matches SyncCommand::ChangeTrack { track, position_ms, playing, queue } ==> (
        r matches SyncStep::Load(load) && load.video_id@ == track.id@ && load.position_ms
            == position_ms && load.playing == playing && load.generation == final(s)@.generation
            && final(s)@.queue.items[0].video_id == track.id@),
        cmd matches SyncCommand::ApplyState(room) ==> {
            &&& r matches SyncStep::Load(load) ==> load.position_ms == room.position_ms
                && load.playing == room.is_playing && room.current_track is Some
                && load.video_id@ == room.current_track->0.id@
            &&& r matches SyncStep::Align { position_ms, playing } ==> position_ms
                == room.position_ms && playing == room.is_playing
            &&& room.current_track is Some ==> (r is Load || r is Align)
                && final(s)@.queue.items[final(s)@.queue.current].video_id
                == room.current_track->0.id@
        },
        cmd matches SyncCommand::Seek { position_ms } ==> r == SyncStep::Seek(position_ms),
        cmd is Play ==> r is Play && final(s)@ == old(s)@,
        cmd is Pause ==> r is Pause && final(s)@ == old(s)@,
        cmd is Release ==> r is Nothing && final(s)@ == old(s)@,
        cmd is HostSeed && facts.host && old(s)@.queue.items.len() > 0 ==> (
        r matches SyncStep::Tell(p) && p.playing == old(s)@.is_playing && p.position_ms
            == facts.player_ms),
{
    match cmd {
        SyncCommand::ChangeTrack { track, position_ms, playing, queue } => {
            law_guest_plays_as_the_host(
                old(s)@,
                final(s)@,
                r,
                track,
                position_ms,
                playing,
                queue,
                facts,
            );
        },
        SyncCommand::ApplyState(room) => {
            law_guest_joins_where_the_room_is(old(s)@, final(s)@, r, room, facts);
        },
        SyncCommand::HostSeed => {
            law_seeding_the_room_tells_the_truth(old(s)@, final(s)@, r, facts);
        },
        _ => {
            law_room_commands_do_what_they_say(old(s)@, final(s)@, r, cmd, facts);
        },
    }
}

/// Only a host sends anything, and a play, a pause or a seek is sent as that, with its position.
pub proof fn law_only_the_host_speaks(
    s: &AppState,
    guest: bool,
    host: bool,
    playing: bool,
    position_ms: i64,
    told: Option<Playback>,
    sought: Option<Option<Playback>>,
    queue: Option<Playback>,
    track: Option<Playback>,
)
    requires
        call_ensures(AppState::lt_on_play_state, (s, host, playing, position_ms), told),
        call_ensures(AppState::user_seek, (s, guest, host, position_ms), sought),
        call_ensures(AppState::broadcast_queue, (s, host), queue),
        call_ensures(AppState::broadcast_current_track, (s, host, position_ms, playing), track),
    ensures
        told is Some == host,
        told matches Some(p) ==> p.position_ms == position_ms && p.playing == playing && p.kind
            == if playing {
            PlaybackKind::Play
        } else {
            PlaybackKind::Pause
        },
        sought is None == guest,
        sought matches Some(m) ==> m is Some == host,
        sought matches Some(Some(p)) ==> p.kind == PlaybackKind::Seek && p.position_ms
            == position_ms,
        queue is Some == host,
        queue matches Some(p) ==> p.kind == PlaybackKind::SyncQueue,
        !host ==> track is None,
        track matches Some(p) ==> p.kind == PlaybackKind::ChangeTrack && p.position_ms
            == position_ms && p.playing == playing,
{
    if let Some(p) = told {
        assert(opt_playback(told) == Some(p@));
    }
    if let Some(Some(p)) = sought {
        assert(opt_playback(Some(p)) == Some(p@));
    }
    if let Some(p) = queue {
        assert(opt_playback(queue) == Some(p@));
    }
    if let Some(p) = track {
        assert(opt_playback(track) == Some(p@));
    }
}

/// A track that took time to load starts where the host is by then: ahead by that time while the
/// host plays, and where it was while the host is paused.
pub proof fn law_loading_catches_up(position_ms: i64, elapsed_ms: i64, playing: i64, paused: i64)
    requires
        call_ensures(load_position, (position_ms, true, elapsed_ms), playing),
        call_ensures(load_position, (position_ms, false, elapsed_ms), paused),
    ensures
        playing == position_ms + elapsed_ms,
        paused == position_ms,
{
}

} // verus!
