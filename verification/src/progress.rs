//! The position within the current track: resuming, counting plays, and what the system shows.

use crate::queue;
use crate::queue::QueueView;
use crate::song;
use crate::song::SongItem;
use crate::state::AppState;
use crate::state::AppView;
use vstd::prelude::*;

verus! {

/// How many seconds pass between two writes of the position, at least.
pub const PERSIST_SECS: u64 = 5;

/// How many seconds pass between two pushes of the position to the system, at least.
pub const PUSH_SECS: u64 = 1;

/// Whether a throttled write is due: at least `every` seconds have passed since the last one.
pub open spec fn due(now: int, last: int, every: int) -> bool {
    now - last >= every
}

/// The state once a position has been recorded at the second `now`.
pub open spec fn position_recorded(a: AppView, position: u64, now: u64) -> AppView {
    AppView {
        latest_position: position,
        last_pos_persist: if due(now as int, a.last_pos_persist as int, PERSIST_SECS as int) {
            now
        } else {
            a.last_pos_persist
        },
        last_media_push: if due(now as int, a.last_media_push as int, PUSH_SECS as int) {
            now
        } else {
            a.last_media_push
        },
        ..a
    }
}

/// Whether this tick counts the play: the threshold is passed, and the play has not been counted.
pub open spec fn counts(q: QueueView, passed: bool) -> bool {
    passed && !q.history_pinged
}

/// What a position tick asks for.
pub struct Tick {
    /// Whether to write the position.
    pub persist: bool,
    /// Whether to push the position to the system.
    pub push: bool,
    /// The track whose play is to be counted here.
    pub played: Option<SongItem>,
    /// Where to register the play, and under which nonce.
    pub ping: Option<(String, String)>,
}

/// Where the current play is registered, and under which nonce: nowhere without an address.
pub open spec fn ping_for(q: QueueView) -> Option<(Seq<char>, Seq<char>)> {
    match q.playback_url {
        Some(url) => Some((url, q.cpn)),
        None => None,
    }
}

/// The view of an optional address and nonce.
pub open spec fn ping_view(p: Option<(String, String)>) -> Option<(Seq<char>, Seq<char>)> {
    match p {
        Some(x) => Some((x.0@, x.1@)),
        None => None,
    }
}

/// What a tick may know of the outside: whether the position has passed the threshold of a play,
/// whether the current track is a file on disk, and whether plays are registered with YouTube at
/// all.
#[derive(Clone, Copy, Debug, PartialEq, Eq)]
pub struct TickFacts {
    pub passed: bool,
    pub local: bool,
    pub registers: bool,
}

impl AppState {
    /// Records a position. Answers whether to write it, and whether to push it to the system.
    fn record_position(&mut self, position: u64, now: u64) -> (r: (bool, bool))
        ensures
            final(self)@ == position_recorded(old(self)@, position, now),
            final(self).queue == old(self).queue,
            r.0 == due(now as int, old(self)@.last_pos_persist as int, PERSIST_SECS as int),
            r.1 == due(now as int, old(self)@.last_media_push as int, PUSH_SECS as int),
    {
        self.latest_position = position;
        let persist: bool = now >= self.last_pos_persist && now - self.last_pos_persist
            >= PERSIST_SECS;
        if persist {
            self.last_pos_persist = now;
        }
        let push: bool = now >= self.last_media_push && now - self.last_media_push >= PUSH_SECS;
        if push {
            self.last_media_push = now;
        }
        (persist, push)
    }

    /// A position tick from the player at the second `now`. Once the current track has passed the
    /// threshold its play is counted, exactly once: here, unless it is a file on disk, and with
    /// YouTube, where plays are registered and there is an address to register it at.
    pub fn on_position(&mut self, position: u64, now: u64, facts: TickFacts) -> (r: Tick)
        ensures
            final(self)@ == ({
                let a = position_recorded(old(self)@, position, now);
                AppView {
                    queue: QueueView {
                        history_pinged: old(self)@.queue.history_pinged || facts.passed,
                        ..old(self)@.queue
                    },
                    ..a
                }
            }),
            r.persist == due(
                now as int,
                old(self)@.last_pos_persist as int,
                PERSIST_SECS as int,
            ),
            r.push == due(now as int, old(self)@.last_media_push as int, PUSH_SECS as int),
            song::opt_song(r.played) == if counts(old(self)@.queue, facts.passed)
                && !facts.local {
                old(self)@.queue.playing()
            } else {
                None
            },
            ping_view(r.ping) == if counts(old(self)@.queue, facts.passed) && facts.registers {
                ping_for(old(self)@.queue)
            } else {
                None
            },
    {
        let (persist, push) = self.record_position(position, now);
        if !facts.passed || self.queue.history_pinged {
            return Tick { persist, push, played: None, ping: None };
        }
        self.queue.history_pinged = true;
        let ping = if facts.registers {
            match &self.queue.playback_url {
                Some(url) => Some((url.clone(), self.queue.cpn.clone())),
                None => None,
            }
        } else {
            None
        };
        let played = if facts.local {
            None
        } else {
            self.queue.current_item()
        };
        Tick { persist, push, played, ping }
    }

    /// The player reported the length of the current track. `seconds` is `None` where it is no
    /// length: not a finite, positive number.
    pub fn on_duration(&mut self, seconds: Option<u64>)
        ensures
            final(self)@ == match seconds {
                Some(secs) => AppView {
                    queue: QueueView { duration: secs, ..old(self)@.queue },
                    ..old(self)@
                },
                None => old(self)@,
            },
    {
        match seconds {
            Some(secs) => {
                self.queue.duration = secs;
            },
            None => {},
        }
    }

    /// The latest position that the player reported, which is also what a flush writes.
    pub fn current_position(&self) -> (r: u64)
        ensures
            r == self@.latest_position,
    {
        self.latest_position
    }

    /// Playback runs, or no longer does.
    pub fn media_set_playing(&mut self, playing: bool)
        ensures
            final(self)@ == (AppView { is_playing: playing, ..old(self)@ }),
    {
        self.is_playing = playing;
    }

    /// A new track was announced: the next position is pushed to the system at once.
    pub fn track_announced(&mut self)
        ensures
            final(self)@ == (AppView { last_media_push: 0, ..old(self)@ }),
    {
        self.last_media_push = 0;
    }
}

/// A play is counted exactly once: a tick that counts leaves a state in which no tick does, and
/// only the start of another play lifts that.
pub proof fn law_a_play_counts_once(q: QueueView, passed: bool, later: bool)
    requires
        counts(q, passed),
    ensures
        !counts(QueueView { history_pinged: q.history_pinged || passed, ..q }, later),
        forall|client: Option<Seq<char>>, url: Option<Seq<char>>, cpn: Seq<char>|
            counts(#[trigger] crate::playback::fresh_play(q, client, url, cpn), true),
{
}

/// Two writes of the position are never closer than their interval.
pub proof fn law_positions_are_throttled(a: AppView, position: u64, now: u64, later: u64)
    requires
        due(now as int, a.last_pos_persist as int, PERSIST_SECS as int),
        due(
            later as int,
            position_recorded(a, position, now).last_pos_persist as int,
            PERSIST_SECS as int,
        ),
    ensures
        later >= now + PERSIST_SECS,
{
}

/// Every tick records the position, and touches neither the queue nor what plays. The clocks of the
/// writes and pushes move to the tick exactly where one is due, at five seconds and at one, and
/// never back.
pub proof fn law_every_tick_records_the_position(a: AppView, position: u64, now: u64)
    ensures
        ({
            let s = position_recorded(a, position, now);
            &&& s.latest_position == position
            &&& s.queue == a.queue
            &&& s.generation == a.generation
            &&& s.is_playing == a.is_playing
            &&& s.pending_seek == a.pending_seek
            &&& s.last_pos_persist == if now >= a.last_pos_persist + 5 {
                now
            } else {
                a.last_pos_persist
            }
            &&& s.last_media_push == if now >= a.last_media_push + 1 {
                now
            } else {
                a.last_media_push
            }
        }),
{
}

/// A play counts at the first tick that passes the threshold and at no other, and is registered
/// under its own address and nonce.
pub proof fn law_plays_count_past_the_threshold(q: QueueView, passed: bool)
    ensures
        counts(q, passed) ==> passed && !q.history_pinged,
        passed && !q.history_pinged ==> counts(q, passed),
        q.playback_url is None ==> ping_for(q) is None,
        q.playback_url is Some ==> ping_for(q) == Some((q.playback_url->0, q.cpn)),
{
}

/// Of two ticks that pass the threshold in a row, the first counts the play, here and where it is
/// registered, and the second does not. Each records its own position.
pub proof fn law_ticking_counts_once(
    s: &mut AppState,
    position: u64,
    now: u64,
    facts: TickFacts,
    first: Tick,
    t: &mut AppState,
    later: u64,
    then: u64,
    again: TickFacts,
    second: Tick,
)
    requires
        call_ensures(AppState::on_position, (s, position, now, facts), first),
        old(t)@ == final(s)@,
        call_ensures(AppState::on_position, (t, later, then, again), second),
    ensures
        final(s)@.latest_position == position,
        final(t)@.latest_position == later,
        facts.passed && !old(s)@.queue.history_pinged ==> {
            &&& !facts.local ==> song::opt_song(first.played) == old(s)@.queue.playing()
            &&& facts.local ==> first.played is None
            &&& facts.registers && old(s)@.queue.playback_url is Some ==> first.ping is Some
                && Some((first.ping->0).0@) == old(s)@.queue.playback_url && (first.ping->0).1@
                == old(s)@.queue.cpn
            &&& !facts.registers ==> first.ping is None
        },
        !facts.passed || old(s)@.queue.history_pinged ==> first.played is None && first.ping is None,
        facts.passed ==> second.played is None && second.ping is None,
        first.persist == (now >= old(s)@.last_pos_persist + 5),
        first.push == (now >= old(s)@.last_media_push + 1),
        first.persist && second.persist ==> then >= now + 5,
        final(s)@.queue.items == old(s)@.queue.items,
        final(s)@.queue.current == old(s)@.queue.current,
{
}

} // verus!
