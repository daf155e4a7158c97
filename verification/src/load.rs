//! Loading the current track, priming the next one, and extending a queue that is nearly out.

use crate::edit;
use crate::order;
use crate::order::IdSet;
use crate::order::RepeatMode;
use crate::playback;
use crate::playback::PlaybackData;
use crate::queue;
use crate::queue::QueueView;
use crate::song;
use crate::song::SongItem;
use crate::song::SongView;
use crate::state;
use crate::state::Action;
use crate::state::AppState;
use crate::state::AppView;
use crate::text;
use vstd::prelude::*;

verus! {

broadcast use crate::song::group_songs;

/// How many tracks autoplay adds at once, at most.
pub const AUTOPLAY_BATCH: usize = 20;

/// How many upcoming tracks one attempt to prime may drop, at most, so that an outage cannot eat
/// the queue.
pub const PRIME_ATTEMPTS: usize = 3;

// --- the current track --------------------------------------------------------------------

/// Why a track could not be resolved.
#[derive(Clone, Copy, Debug, PartialEq, Eq)]
pub enum Unresolved {
    /// It is a local file that is gone from the disk.
    Missing,
    /// Anything else, which may pass.
    Other,
}

/// What a failed attempt to load the current track does: a deleted file leaves the queue, any
/// other track is skipped over, and the attempt goes on with the track the pointer then stands
/// on. Where there is none it ends.
pub open spec fn start_failure(a: AppView, why: Unresolved) -> (AppView, Seq<Action>) {
    match why {
        Unresolved::Missing => (
            AppView { queue: playback::without_missing(a.queue), ..a },
            seq![
                Action::EmitQueue,
                Action::PersistQueue,
                Action::BroadcastQueue,
                Action::NoticeMissing,
            ],
        ),
        Unresolved::Other => (
            AppView { queue: playback::skipped(a.queue), ..a },
            if playback::can_skip(a.queue) {
                seq![Action::NoticeSkipped, Action::EmitQueue]
            } else {
                seq![Action::ShowError]
            },
        ),
    }
}

/// The notice for a track that is gone from the disk.
pub fn missing_notice(title: &str) -> (r: String)
    ensures
        r@ == title@ + " is no longer on your disk"@,
{
    text::joined(title, " is no longer on your disk")
}

/// The notice for a track that was skipped because nothing could play it.
pub fn skip_notice(title: &str) -> (r: String)
    ensures
        r@ == "Skipped (unavailable): "@ + title@,
{
    text::joined("Skipped (unavailable): ", title)
}

/// The position to resume a track at: the pending one, where it was saved for that track.
pub open spec fn resume_at(pending: Option<(Seq<char>, u64)>, video_id: Seq<char>) -> Option<u64> {
    match pending {
        Some(p) => if p.0 == video_id {
            Some(p.1)
        } else {
            None
        },
        None => None,
    }
}

/// The actions that follow a load.
pub open spec fn loaded_actions(resume: Option<u64>, gen: u64) -> Seq<Action> {
    seq![Action::Play] + (match resume {
        Some(pos) => seq![Action::Seek(pos)],
        None => seq![],
    }) + seq![
        Action::Announce,
        Action::ReportPlaying(true),
        Action::EmitQueue,
        Action::PersistQueue,
        Action::BroadcastTrack,
        Action::ExtendSoon(gen),
    ]
}

/// The state once the current track has been loaded: a resume position is used up whichever
/// track it was for.
pub open spec fn started(
    a: AppView,
    video_id: Seq<char>,
    data: PlaybackData,
    cpn: Seq<char>,
) -> AppView {
    AppView {
        queue: playback::loaded(a.queue, video_id, data, cpn),
        pending_seek: None,
        is_playing: true,
        last_media_push: 0,
        ..a
    }
}

impl AppState {
    /// The track to load under this generation: the current one, unless the generation has passed
    /// or the queue has no current track.
    pub fn start_item(&self, gen: u64) -> (r: Option<SongItem>)
        ensures
            song::opt_song(r) == if self@.generation == gen {
                self@.queue.playing()
            } else {
                None
            },
    {
        if self.generation == gen {
            self.queue.current_item()
        } else {
            None
        }
    }

    /// The current track could not be resolved. Answers the actions, and whether to go on with
    /// the track that the pointer now stands on. A generation that has passed changes nothing and
    /// ends the attempt.
    pub fn start_failed(&mut self, gen: u64, why: Unresolved) -> (r: (Vec<Action>, bool))
        ensures
            old(self)@.generation != gen ==> final(self)@ == old(self)@ && r.0@.len() == 0
                && !r.1,
            old(self)@.generation == gen ==> (final(self)@, r.0@) == start_failure(
                old(self)@,
                why,
            ),
            old(self)@.generation == gen ==> r.1 == playback::can_skip(old(self)@.queue),
            old(self)@.queue.valid() ==> final(self)@.queue.valid(),
    {
        let ghost before = self@;
        let mut list: Vec<Action> = Vec::new();
        if self.generation != gen {
            return (list, false);
        }
        let again: bool = match why {
            Unresolved::Missing => {
                let exhausted: bool = self.queue.drop_missing();
                list.push(Action::EmitQueue);
                list.push(Action::PersistQueue);
                list.push(Action::BroadcastQueue);
                list.push(Action::NoticeMissing);
                !exhausted
            },
            Unresolved::Other => {
                if self.queue.skip_unplayable() {
                    list.push(Action::NoticeSkipped);
                    list.push(Action::EmitQueue);
                    true
                } else {
                    list.push(Action::ShowError);
                    false
                }
            },
        };
        assert(self@ =~= start_failure(before, why).0);
        assert(list@ =~= start_failure(before, why).1);
        (list, again)
    }

    /// The current track, `item`, has been loaded from a stream. Answers the track with what came
    /// with the stream filled in, and the actions.
    pub fn start_loaded(
        &mut self,
        gen: u64,
        item: SongItem,
        data: &PlaybackData,
        cpn: String,
    ) -> (r: (SongItem, Vec<Action>))
        requires
            playback::repair_fits(old(self)@.queue.items, old(self)@.queue.current, *data),
            item.duration is None ==> song::reported_fits(text::opt_text(data.duration)),
        ensures
            final(self)@ == started(old(self)@, item@.video_id, *data, cpn@),
            r.0@ == song::repaired(
                item@,
                text::opt_text(data.duration),
                text::opt_text(data.artists),
            ),
            r.1@ == loaded_actions(resume_at(old(self)@.pending_seek, item@.video_id), gen),
    {
        let ghost before = self@;
        let mut list: Vec<Action> = Vec::new();
        list.push(Action::Play);
        match self.pending_seek.take() {
            Some((vid, pos)) => {
                if text::same(vid.as_str(), item.video_id.as_str()) {
                    list.push(Action::Seek(pos));
                }
            },
            None => {},
        }
        let mut item = item;
        self.queue.set_loaded(item.video_id.as_str(), data, cpn);
        song::backfill_metadata(
            &mut item,
            text::as_opt_str(&data.duration),
            text::as_opt_str(&data.artists),
        );
        self.is_playing = true;
        self.last_media_push = 0;
        list.push(Action::Announce);
        list.push(Action::ReportPlaying(true));
        list.push(Action::EmitQueue);
        list.push(Action::PersistQueue);
        list.push(Action::BroadcastTrack);
        list.push(Action::ExtendSoon(gen));
        assert(list@ =~= loaded_actions(resume_at(before.pending_seek, item@.video_id), gen));
        (item, list)
    }
}

/// A resume position is applied at most once, and only to the track it was saved for.
pub proof fn law_resume_is_used_once(
    a: AppView,
    video_id: Seq<char>,
    data: PlaybackData,
    cpn: Seq<char>,
    later: Seq<char>,
)
    ensures
        resume_at(started(a, video_id, data, cpn).pending_seek, later) is None,
        resume_at(a.pending_seek, video_id) is Some ==> a.pending_seek == Some(
            (video_id, resume_at(a.pending_seek, video_id)->0),
        ),
{
}

// --- the primed track ---------------------------------------------------------------------

/// The index to prime: the one that plays next, unless it is primed already. While one track
/// repeats there is none, for the player loops the file.
pub open spec fn prime_index(q: QueueView) -> Option<int> {
    match q.next() {
        Some(i) => if q.repeat == RepeatMode::One || q.lookahead_loaded == Some(i) {
            None
        } else {
            Some(i)
        },
        None => None,
    }
}

/// A track to prime.
pub struct PrimeTarget {
    pub index: usize,
    pub video_id: String,
    pub title: String,
}

/// One run of priming: the generation that it belongs to, and how many tracks it may still fail
/// on.
#[derive(Clone, Copy, Debug, PartialEq, Eq)]
pub struct Priming {
    pub generation: u64,
    pub left: usize,
}

impl Priming {
    /// A run that begins.
    pub fn new(generation: u64) -> (r: Self)
        ensures
            r == (Priming { generation, left: PRIME_ATTEMPTS }),
    {
        Priming { generation, left: PRIME_ATTEMPTS }
    }
}

impl AppState {
    /// What to prime next in a run, if anything: nothing once its attempts are used up.
    pub fn prime_target(&self, run: &Priming) -> (r: Option<PrimeTarget>)
        ensures
            r is Some == (run.left > 0 && prime_index(self@.queue) is Some),
            r matches Some(t) ==> Some(t.index as int) == prime_index(self@.queue) && t.index
                < self@.queue.items.len() && t.video_id@ == self@.queue.items[t.index as int].video_id
                && t.title@ == self@.queue.items[t.index as int].title,
    {
        let one: bool = match self.queue.repeat {
            RepeatMode::One => true,
            _ => false,
        };
        if one || run.left == 0 {
            return None;
        }
        match self.queue.next() {
            Some(i) => {
                let primed: bool = match self.queue.lookahead_loaded {
                    Some(k) => k == i,
                    None => false,
                };
                if primed || i >= self.queue.items.len() {
                    None
                } else {
                    let item = &self.queue.items[i];
                    Some(
                        PrimeTarget {
                            index: i,
                            video_id: item.video_id.clone(),
                            title: item.title.clone(),
                        },
                    )
                }
            },
            None => None,
        }
    }

    /// Whether the stream that was resolved for a track may be handed to the player as the primed
    /// one.
    pub fn may_prime(&self, gen: u64, index: usize, video_id: &str) -> (r: bool)
        ensures
            r == (self@.generation == gen && playback::can_prime(
                self@.queue,
                index as int,
                video_id@,
            )),
    {
        self.generation == gen && self.queue.primable(index, video_id)
    }

    /// Records the primed track. `gain` is its loudness gain.
    pub fn lookahead_primed(&mut self, index: usize, data: &PlaybackData, gain: Option<u64>)
        requires
            playback::repair_fits(old(self)@.queue.items, index as int, *data),
        ensures
            final(self)@ == (AppView {
                queue: playback::with_primed(old(self)@.queue, index as int, *data, gain),
                ..old(self)@
            }),
    {
        self.queue.set_primed(index, data, gain);
    }

    /// The track to prime could not be resolved. It is dropped, where the run has attempts left,
    /// its generation still counts and the slot still holds the track, so that playback does not
    /// stall on it later. Answers the actions, or `None` where the run ends.
    pub fn prime_failed(&mut self, run: &mut Priming, guest: bool, target: &PrimeTarget) -> (r:
        Option<Vec<Action>>)
        ensures
            (final(self)@, *final(run)) == prime_failure(
                old(self)@,
                *old(run),
                guest,
                target.index as int,
                target.video_id@,
            ),
            r is Some == drops(
                old(self)@,
                *old(run),
                target.index as int,
                target.video_id@,
            ),
            r matches Some(actions) ==> actions@ == (if !guest && edit::removable(
                old(self)@.queue,
                target.index as int,
            ) {
                let primed = old(self)@.queue.lookahead_loaded == Some(target.index as int);
                state::edit_actions(primed, primed, old(run).generation)
            } else {
                seq![]
            }).push(Action::NoticeSkipped),
    {
        if run.left == 0 || self.generation != run.generation || target.index
            >= self.queue.items.len() || !text::same(
            self.queue.items[target.index].video_id.as_str(),
            target.video_id.as_str(),
        ) {
            run.left = 0;
            return None;
        }
        run.left = run.left - 1;
        let mut actions = self.remove_from_queue(guest, target.index);
        actions.push(Action::NoticeSkipped);
        Some(actions)
    }
}

/// Whether an upcoming track that could not be resolved is dropped: the run has attempts left, its
/// generation still counts, and the slot still holds that track.
pub open spec fn drops(a: AppView, run: Priming, index: int, video_id: Seq<char>) -> bool {
    &&& run.left > 0
    &&& a.generation == run.generation
    &&& queue::id_at(a.queue.items, index) == Some(video_id)
}

/// What a failure to resolve the track to prime leaves of the state and of the run. A failure uses
/// up an attempt; one that meets another generation, or another track in the slot, ends the run.
pub open spec fn prime_failure(
    a: AppView,
    run: Priming,
    guest: bool,
    index: int,
    video_id: Seq<char>,
) -> (AppView, Priming) {
    if drops(a, run, index, video_id) {
        (
            if guest {
                a
            } else {
                AppView { queue: edit::without(a.queue, index), ..a }
            },
            Priming { left: (run.left - 1) as usize, ..run },
        )
    } else {
        (a, Priming { left: 0, ..run })
    }
}

/// A failure of a run: the state that it met, and the track that could not be resolved.
pub struct PrimeFailure {
    pub state: AppView,
    pub guest: bool,
    pub index: int,
    pub video_id: Seq<char>,
}

/// How many tracks the failures of a run take out of the queue, whatever else happens to the state
/// between them.
pub open spec fn dropped_in_run(run: Priming, failures: Seq<PrimeFailure>) -> int
    decreases failures.len(),
{
    if failures.len() == 0 {
        0
    } else {
        let f = failures[0];
        let (after, rest) = prime_failure(f.state, run, f.guest, f.index, f.video_id);
        f.state.queue.items.len() - after.queue.items.len() + dropped_in_run(
            rest,
            failures.skip(1),
        )
    }
}

/// A run drops no more tracks than it has attempts left, so that an outage cannot eat the queue.
pub proof fn law_a_run_drops_at_most_its_attempts(run: Priming, failures: Seq<PrimeFailure>)
    ensures
        0 <= dropped_in_run(run, failures) <= run.left,
        run.left == PRIME_ATTEMPTS ==> dropped_in_run(run, failures) <= 3,
    decreases failures.len(),
{
    if failures.len() > 0 {
        let f = failures[0];
        let (after, rest) = prime_failure(f.state, run, f.guest, f.index, f.video_id);
        law_a_run_drops_at_most_its_attempts(rest, failures.skip(1));
    }
}

/// While one track repeats nothing is primed, and leaving that mode primes again.
pub proof fn law_repeat_one_primes_nothing(q: QueueView, mode: RepeatMode)
    requires
        q.repeat == RepeatMode::One,
        q.lookahead_loaded is None,
        mode != RepeatMode::One,
    ensures
        prime_index(q) is None,
        prime_index(QueueView { repeat: mode, ..q }) == (QueueView { repeat: mode, ..q }).next(),
{
}

/// Priming what is to be primed, once it may be, leaves the queue primed with what plays next.
pub proof fn law_priming_primes_what_plays_next(
    q: QueueView,
    data: PlaybackData,
    gain: Option<u64>,
)
    requires
        prime_index(q) is Some,
    ensures
        playback::with_primed(q, prime_index(q)->0, data, gain).primed(),
        playback::with_primed(q, prime_index(q)->0, data, gain).next() == q.next(),
        prime_index(playback::with_primed(q, prime_index(q)->0, data, gain)) is None,
{
}

// --- autoplay -----------------------------------------------------------------------------

/// The radio that continues a queue: the one it was started from, else that of its last track.
pub open spec fn autoplay_seed(q: QueueView) -> Seq<char> {
    match q.radio_seed {
        Some(seed) => seed,
        None => "RDAMVM"@ + q.items.last().video_id,
    }
}

/// Whether a queue is to be extended: autoplay is on, we are not a guest, repeat is off, at most
/// two tracks are left with the playing one, and there is something to continue from.
pub open spec fn extends(q: QueueView, autoplay: bool, guest: bool, last_local: bool) -> bool {
    &&& autoplay
    &&& !guest
    &&& q.repeat == RepeatMode::Off
    &&& q.items.len() > 0
    &&& q.items.len() - q.current <= 2
    &&& q.radio_seed is Some || !last_local
}

/// What to ask a radio for.
pub struct Extension {
    pub last_video: String,
    pub seed: String,
    pub existing: IdSet,
}

/// What a radio's answer does to the state.
pub open spec fn extended(
    a: AppView,
    gen: u64,
    fresh: Seq<SongView>,
    existing: Set<Seq<char>>,
) -> AppView {
    if a.generation == gen {
        AppView {
            queue: QueueView {
                items: a.queue.items + order::continuation(
                    existing,
                    fresh,
                    AUTOPLAY_BATCH as int,
                ),
                ..a.queue
            },
            ..a
        }
    } else {
        a
    }
}

impl AppState {
    /// The id of the last track, if there is one.
    pub fn last_video(&self) -> (r: Option<String>)
        ensures
            text::opt_text(r) == queue::id_at(self@.queue.items, self@.queue.items.len() - 1),
    {
        let n: usize = self.queue.items.len();
        if n > 0 {
            Some(self.queue.items[n - 1].video_id.clone())
        } else {
            None
        }
    }

    /// What to ask a radio for, where the queue is nearly out and is to be continued.
    /// `last_local` says whether the last track is a file on disk.
    pub fn extension(&self, autoplay: bool, guest: bool, last_local: bool) -> (r: Option<
        Extension,
    >)
        ensures
            r is Some == extends(self@.queue, autoplay, guest, last_local),
            r matches Some(e) ==> e.last_video@ == self@.queue.items.last().video_id && e.seed@
                == autoplay_seed(self@.queue) && e.existing@ == order::id_set(self@.queue.items),
    {
        let n: usize = self.queue.items.len();
        let near: bool = self.queue.current >= n || n - self.queue.current <= 2;
        let off: bool = match self.queue.repeat {
            RepeatMode::Off => true,
            _ => false,
        };
        if !autoplay || guest || !off || n == 0 || !near {
            return None;
        }
        let last = self.queue.items[n - 1].video_id.clone();
        assert(self@.queue.items.last() == self.queue.items@[n - 1]@);
        let seed = match &self.queue.radio_seed {
            Some(s) => s.clone(),
            None => {
                if last_local {
                    return None;
                }
                text::joined("RDAMVM", last.as_str())
            },
        };
        Some(Extension { last_video: last, seed, existing: order::ids_of(&self.queue.items) })
    }

    /// Takes a radio's answer in. Answers how many tracks were added, and the actions.
    pub fn extend(&mut self, gen: u64, fresh: Vec<SongItem>, existing: IdSet) -> (r: (
        usize,
        Vec<Action>,
    ))
        ensures
            final(self)@ == extended(old(self)@, gen, song::songs(fresh@), existing@),
            r.0 == final(self)@.queue.items.len() - old(self)@.queue.items.len(),
            r.1@ == if r.0 > 0 {
                seq![
                    Action::EmitQueue,
                    Action::PersistQueue,
                    Action::BroadcastQueue,
                    Action::Prime(gen),
                ]
            } else {
                seq![]
            },
            old(self)@.queue.valid() && old(self)@.queue.items.len() > 0
                ==> final(self)@.queue.valid(),
    {
        let ghost before = self@;
        let mut list: Vec<Action> = Vec::new();
        if self.generation != gen {
            return (0, list);
        }
        let ghost given = song::songs(fresh@);
        let ghost known = existing@;
        let added: usize = order::merge_radio(
            &mut self.queue.items,
            fresh,
            existing,
            AUTOPLAY_BATCH,
        );
        if added > 0 {
            list.push(Action::EmitQueue);
            list.push(Action::PersistQueue);
            list.push(Action::BroadcastQueue);
            list.push(Action::Prime(gen));
        }
        assert(self@ =~= extended(before, gen, given, known));
        (added, list)
    }
}

/// Autoplay never touches a primed track: what plays next stays what plays next.
pub proof fn law_autoplay_leaves_the_primed_track(
    a: AppView,
    gen: u64,
    fresh: Seq<SongView>,
    existing: Set<Seq<char>>,
)
    requires
        a.queue.valid(),
        a.queue.primed(),
        a.queue.lookahead_loaded is Some,
        a.queue.repeat == RepeatMode::Off,
    ensures
        ({
            let after = extended(a, gen, fresh, existing).queue;
            &&& after.primed()
            &&& after.lookahead_loaded == a.queue.lookahead_loaded
            &&& queue::track_at(after.items, after.lookahead_loaded->0) == queue::track_at(
                a.queue.items,
                a.queue.lookahead_loaded->0,
            )
        }),
{
}

/// Autoplay only appends: what was in the queue stays, where it was. It adds at most a batch, marks
/// each added track as filler, and adds no track that was in the queue and none twice.
pub proof fn law_autoplay_appends_new_filler(
    a: AppView,
    gen: u64,
    fresh: Seq<SongView>,
)
    ensures
        ({
            let after = extended(a, gen, fresh, order::id_set(a.queue.items)).queue.items;
            let n = a.queue.items.len() as int;
            &&& n <= after.len() <= n + AUTOPLAY_BATCH
            &&& after.take(n) == a.queue.items
            &&& forall|i: int|
                n <= i < after.len() ==> (#[trigger] after[i]).autoplay && !order::id_set(
                    a.queue.items,
                ).contains(after[i].video_id)
            &&& forall|i: int, j: int|
                n <= i < j < after.len() ==> #[trigger] after[i].video_id
                    != #[trigger] after[j].video_id
        }),
{
    let seen = order::id_set(a.queue.items);
    let list = order::novel(seen, fresh);
    let few = order::at_most(list, AUTOPLAY_BATCH as int);
    let n = a.queue.items.len() as int;
    let after = extended(a, gen, fresh, seen).queue.items;
    order::lemma_novel_is_distinct(seen, fresh);
    if a.generation == gen {
        assert(after == a.queue.items + order::all_filler(few));
        assert forall|i: int| n <= i < after.len() implies (#[trigger] after[i]).autoplay
            && !seen.contains(after[i].video_id) by {
            assert(after[i] == order::as_filler(list[i - n]));
            assert(list.contains(list[i - n]));
            order::lemma_novel_is_new(seen, fresh, list[i - n]);
        }
        assert forall|i: int, j: int|
            n <= i < j < after.len() implies #[trigger] after[i].video_id
            != #[trigger] after[j].video_id by {
            assert(order::ids(list)[i - n] != order::ids(list)[j - n]);
        }
    }
    assert(after.take(n) =~= a.queue.items);
}

// --- what loading and extending are for ---------------------------------------------------

/// A track that cannot be loaded never stops the queue while another follows it: a file that is
/// gone leaves the list, and any other track is passed over; either way the one that followed it
/// is then the current one, and no other track is touched. At the end of the list a file that is
/// gone leaves the track in front of it current, and any other failure changes nothing and shows
/// as an error.
pub proof fn law_failed_load_goes_on_with_the_next(a: AppView, why: Unresolved)
    requires
        a.queue.valid(),
        a.queue.items.len() > 0,
    ensures
        ({
            let (s, acts) = start_failure(a, why);
            let cur = a.queue.current;
            let follows = cur + 1 < a.queue.items.len();
            &&& s == AppView { queue: s.queue, ..a }
            &&& follows ==> s.queue.playing() == Some(a.queue.items[cur + 1])
                && s.queue.lookahead_loaded is None
            &&& why is Missing ==> s.queue.items == a.queue.items.remove(cur) && acts.contains(
                Action::NoticeMissing,
            ) && acts.contains(Action::PersistQueue) && acts.contains(Action::BroadcastQueue)
            &&& why is Missing && !follows && cur > 0 ==> s.queue.playing() == Some(
                a.queue.items[cur - 1],
            )
            &&& why is Other ==> s.queue.items == a.queue.items
            &&& why is Other && !follows ==> s == a && acts == seq![Action::ShowError]
            &&& why is Other && follows ==> acts.contains(Action::NoticeSkipped) && !acts.contains(
                Action::ShowError,
            )
            &&& s.queue.played_from == if a.queue.played_from <= s.queue.current {
                a.queue.played_from
            } else {
                s.queue.current
            }
            &&& s.queue.repeat == a.queue.repeat
            &&& s.queue.shuffle_orig == a.queue.shuffle_orig
        }),
{
    let (s, acts) = start_failure(a, why);
    if why is Missing {
        assert(acts[1] == Action::PersistQueue);
        assert(acts[2] == Action::BroadcastQueue);
        assert(acts[3] == Action::NoticeMissing);
    } else if a.queue.current + 1 < a.queue.items.len() {
        assert(acts[0] == Action::NoticeSkipped);
    }
}

/// A load plays, and first of all that. A pending position is sought exactly where it was saved for
/// the loaded track; then the track is announced, reported, saved and told to the room, and a
/// continuation is looked for.
pub proof fn law_load_plays_and_resumes(a: AppView, video_id: Seq<char>, gen: u64)
    ensures
        ({
            let acts = loaded_actions(resume_at(a.pending_seek, video_id), gen);
            &&& acts[0] == Action::Play
            &&& forall|p: u64|
                acts.contains(Action::Seek(p)) == (a.pending_seek == Some((video_id, p)))
            &&& acts.contains(Action::Announce)
            &&& acts.contains(Action::ReportPlaying(true))
            &&& acts.contains(Action::PersistQueue)
            &&& acts.contains(Action::BroadcastTrack)
            &&& acts.contains(Action::ExtendSoon(gen))
            &&& forall|g: u64| !acts.contains(Action::Start(g))
        }),
{
    let resume = resume_at(a.pending_seek, video_id);
    let acts = loaded_actions(resume, gen);
    let k = if resume is Some {
        2int
    } else {
        1int
    };
    assert(acts[k] == Action::Announce);
    assert(acts[k + 1] == Action::ReportPlaying(true));
    assert(acts[k + 3] == Action::PersistQueue);
    assert(acts[k + 4] == Action::BroadcastTrack);
    assert(acts[k + 5] == Action::ExtendSoon(gen));
    if resume is Some {
        assert(acts[1] == Action::Seek(resume->0));
    }
}

/// A load leaves the pointer and every other track alone. What is known of the play is the
/// stream's: its client, its address and its nonce; it has not been counted, and its length is not
/// known yet. A loaded track keeps its id.
pub proof fn law_load_records_the_stream(
    a: AppView,
    video_id: Seq<char>,
    data: PlaybackData,
    cpn: Seq<char>,
)
    ensures
        ({
            let s = started(a, video_id, data, cpn);
            &&& s.is_playing
            &&& s.pending_seek is None
            &&& s.generation == a.generation
            &&& s.queue.current == a.queue.current
            &&& s.queue.played_from == a.queue.played_from
            &&& s.queue.items.len() == a.queue.items.len()
            &&& forall|i: int|
                0 <= i < a.queue.items.len() && i != a.queue.current ==> #[trigger] s.queue.items[i]
                    == a.queue.items[i]
            &&& forall|i: int|
                0 <= i < a.queue.items.len() ==> #[trigger] s.queue.items[i].video_id
                    == a.queue.items[i].video_id
            &&& 0 <= a.queue.current < a.queue.items.len() ==> s.queue.items[a.queue.current]
                == if a.queue.items[a.queue.current].video_id == video_id {
                song::repaired(
                    a.queue.items[a.queue.current],
                    text::opt_text(data.duration),
                    text::opt_text(data.artists),
                )
            } else {
                a.queue.items[a.queue.current]
            }
            &&& s.queue.current_client == Some(data.stream_client@)
            &&& s.queue.playback_url == text::opt_text(data.playback_url)
            &&& s.queue.cpn == cpn
            &&& !s.queue.history_pinged
            &&& s.queue.duration == 0
            &&& s.queue.lookahead_loaded == a.queue.lookahead_loaded
            &&& s.queue.shuffle_orig == a.queue.shuffle_orig
            &&& s.queue.repeat == a.queue.repeat
        }),
{
}

/// What is primed is the track behind the current one, or the first one behind the last with
/// repeat-all. A slot that is primed, or that holds another track by now, is not primed again; and
/// priming moves nothing.
pub proof fn law_priming_follows_the_queue(
    q: QueueView,
    index: int,
    video_id: Seq<char>,
    data: PlaybackData,
    gain: Option<u64>,
)
    requires
        q.valid(),
        q.items.len() > 0,
    ensures
        q.repeat == RepeatMode::One ==> prime_index(q) is None,
        q.repeat != RepeatMode::One && q.lookahead_loaded is None && q.current + 1 < q.items.len()
            ==> prime_index(q) == Some(q.current + 1),
        q.repeat == RepeatMode::All && q.lookahead_loaded is None && q.current + 1 == q.items.len()
            ==> prime_index(q) == Some(0int),
        q.repeat == RepeatMode::Off && q.current + 1 == q.items.len() ==> prime_index(q) is None,
        prime_index(q) is Some ==> prime_index(q) != q.lookahead_loaded,
        playback::can_prime(q, index, video_id) ==> 0 <= index < q.items.len()
            && q.items[index].video_id == video_id && q.lookahead_loaded != Some(index),
        0 <= index < q.items.len() && q.lookahead_loaded != Some(index) ==> playback::can_prime(
            q,
            index,
            q.items[index].video_id,
        ),
        !playback::can_prime(playback::with_primed(q, index, data, gain), index, video_id),
        ({
            let after = playback::with_primed(q, index, data, gain);
            &&& after.current == q.current
            &&& after.items.len() == q.items.len()
            &&& forall|i: int|
                0 <= i < q.items.len() ==> #[trigger] after.items[i].video_id == q.items[i].video_id
            &&& forall|i: int|
                0 <= i < q.items.len() && i != index ==> #[trigger] after.items[i] == q.items[i]
            &&& 0 <= index < q.items.len() ==> after.items[index] == song::repaired(
                q.items[index],
                text::opt_text(data.duration),
                text::opt_text(data.artists),
            )
            &&& after.lookahead_loaded == Some(index)
            &&& after.lookahead_gain == Some(gain)
            &&& after.lookahead_client == Some(data.stream_client@)
            &&& after.lookahead_playback_url == text::opt_text(data.playback_url)
            &&& after.current_client == q.current_client
            &&& after.playback_url == q.playback_url
            &&& after.cpn == q.cpn
        }),
{
}

/// An upcoming track that cannot be primed is taken out alone, and only by someone who owns the
/// queue, under its own generation, while the slot still holds it. In every other case the queue is
/// left alone; and the playing track always is.
pub proof fn law_unprimable_track_leaves_alone(
    a: AppView,
    run: Priming,
    guest: bool,
    index: int,
    video_id: Seq<char>,
)
    requires
        a.queue.valid(),
    ensures
        ({
            let (s, rest) = prime_failure(a, run, guest, index, video_id);
            let its = run.left > 0 && a.generation == run.generation && 0 <= index
                < a.queue.items.len() && a.queue.items[index].video_id == video_id;
            &&& s.queue.playing() == a.queue.playing()
            &&& s == AppView { queue: s.queue, ..a }
            &&& its && !guest && index != a.queue.current ==> s.queue.items
                == a.queue.items.remove(index)
            &&& !its || guest || index == a.queue.current ==> s == a
            &&& its ==> rest.left == run.left - 1
            &&& !its ==> rest.left == 0
            &&& rest.generation == run.generation
        }),
{
}

/// Autoplay steps in exactly near the end: where it is on, we lead, nothing repeats, the current
/// track is the last or the one before it, and there is a radio, which a file on disk alone has
/// not.
pub proof fn law_autoplay_steps_in_near_the_end(
    q: QueueView,
    autoplay: bool,
    guest: bool,
    last_local: bool,
)
    requires
        q.valid(),
    ensures
        extends(q, autoplay, guest, last_local) ==> autoplay && !guest && q.repeat
            == RepeatMode::Off && q.items.len() > 0 && q.current + 2 >= q.items.len(),
        autoplay && !guest && q.repeat == RepeatMode::Off && q.items.len() > 0 && q.current + 2
            >= q.items.len() ==> extends(q, autoplay, guest, last_local) == (q.radio_seed is Some
            || !last_local),
        q.radio_seed is Some ==> autoplay_seed(q) == q.radio_seed->0,
        q.radio_seed is None && q.items.len() > 0 ==> autoplay_seed(q) == "RDAMVM"@ + q.items[
            q.items.len() - 1].video_id,
{
}

/// A continuation brings all that is new, up to twenty tracks, behind everything that is there. One
/// that arrives under another generation changes nothing, and the pointer never moves.
pub proof fn law_continuation_brings_what_is_new(a: AppView, gen: u64, fresh: Seq<SongView>, k: int)
    requires
        0 <= k < fresh.len(),
    ensures
        ({
            let s = extended(a, gen, fresh, order::id_set(a.queue.items));
            &&& a.generation != gen ==> s == a
            &&& s == AppView { queue: QueueView { items: s.queue.items, ..a.queue }, ..a }
            &&& s.queue.items.len() <= a.queue.items.len() + 20
            &&& a.generation == gen && s.queue.items.len() < a.queue.items.len() + 20
                ==> order::ids(s.queue.items).contains(fresh[k].video_id)
        }),
{
    let seen = order::id_set(a.queue.items);
    let s = extended(a, gen, fresh, seen);
    let n = a.queue.items.len() as int;
    order::law_autoplay_takes_the_first_new_tracks(seen, fresh, AUTOPLAY_BATCH as int);
    if a.generation == gen && s.queue.items.len() < n + 20 {
        let more = order::continuation(seen, fresh, AUTOPLAY_BATCH as int);
        let id = fresh[k].video_id;
        if seen.contains(id) {
            let j = order::ids(a.queue.items).index_of(id);
            assert(s.queue.items[j] == a.queue.items[j]);
            assert(order::ids(s.queue.items)[j] == id);
        } else {
            let j = order::law_radio_brings_everything_new(seen, fresh, k);
            assert(s.queue.items[n + j] == more[j]);
            assert(order::ids(s.queue.items)[n + j] == id);
        }
    }
}

// --- the same, of the calls themselves ----------------------------------------------------

/// Work that was begun under another generation loads nothing and changes nothing. Under its own,
/// the current track is what is loaded, and a failure goes on with the track behind it exactly
/// where there is one.
pub proof fn law_starting_is_for_one_generation(
    s: &mut AppState,
    gen: u64,
    item: Option<SongItem>,
    why: Unresolved,
    r: (Vec<Action>, bool),
)
    requires
        old(s)@.queue.valid(),
        old(s)@.queue.items.len() > 0,
        call_ensures(AppState::start_item, (old(s), gen), item),
        call_ensures(AppState::start_failed, (s, gen, why), r),
    ensures
        ({
            let q = old(s)@.queue;
            let follows = q.current + 1 < q.items.len();
            &&& old(s)@.generation != gen ==> item is None && final(s)@ == old(s)@ && !r.1
                && r.0@.len() == 0
            &&& old(s)@.generation == gen ==> item is Some && item->0@ == q.items[q.current]
            &&& old(s)@.generation == gen ==> r.1 == follows
            &&& old(s)@.generation == gen && follows ==> final(s)@.queue.playing() == Some(
                q.items[q.current + 1],
            )
            &&& final(s)@.generation == old(s)@.generation
        }),
{
    law_failed_load_goes_on_with_the_next(old(s)@, why);
}

/// A loaded track plays, resumes exactly where a position was saved for it, and is not resumed
/// again.
pub proof fn law_loading_plays_and_resumes_once(
    s: &mut AppState,
    gen: u64,
    item: SongItem,
    data: &PlaybackData,
    cpn: String,
    r: (SongItem, Vec<Action>),
)
    requires
        call_ensures(AppState::start_loaded, (s, gen, item, data, cpn), r),
    ensures
        final(s)@.is_playing,
        final(s)@.pending_seek is None,
        final(s)@.queue.current == old(s)@.queue.current,
        final(s)@.queue.current_client == Some(data.stream_client@),
        final(s)@.queue.cpn == cpn@,
        !final(s)@.queue.history_pinged,
        (r.0@).video_id == item.video_id@,
        r.1@[0] == Action::Play,
        forall|p: u64|
            r.1@.contains(Action::Seek(p)) == (old(s)@.pending_seek == Some((item.video_id@, p))),
        r.1@.contains(Action::Announce),
        r.1@.contains(Action::BroadcastTrack),
{
    law_load_plays_and_resumes(old(s)@, item@.video_id, gen);
    law_load_records_the_stream(old(s)@, item@.video_id, *data, cpn@);
}

/// What is to be primed is what plays next, under its own id; it is handed to the player only while
/// it is still in its slot and its generation still counts.
pub proof fn law_priming_targets_what_plays_next(
    s: &AppState,
    run: &Priming,
    target: Option<PrimeTarget>,
    gen: u64,
    index: usize,
    video_id: &str,
    may: bool,
)
    requires
        s@.queue.valid(),
        s@.queue.items.len() > 0,
        call_ensures(AppState::prime_target, (s, run), target),
        call_ensures(AppState::may_prime, (s, gen, index, video_id), may),
    ensures
        target matches Some(t) ==> {
            &&& run.left > 0
            &&& s@.queue.repeat != RepeatMode::One
            &&& t.index == (if s@.queue.current + 1 < s@.queue.items.len() {
                s@.queue.current + 1
            } else {
                0
            })
            &&& t.video_id@ == s@.queue.items[t.index as int].video_id
            &&& s@.queue.lookahead_loaded != Some(t.index as int)
        },
        run.left > 0 && s@.queue.repeat != RepeatMode::One && s@.queue.lookahead_loaded is None
            && s@.queue.current + 1 < s@.queue.items.len() ==> target is Some,
        may == (s@.generation == gen && index < s@.queue.items.len()
            && s@.queue.items[index as int].video_id == video_id@ && s@.queue.lookahead_loaded
            != Some(index as int)),
{
}

/// A continuation is asked for near the end alone, by the radio of the queue or else that of its last
/// track, and with everything that is there already.
pub proof fn law_continuations_are_asked_for_near_the_end(
    s: &AppState,
    autoplay: bool,
    guest: bool,
    last_local: bool,
    ask: Option<Extension>,
)
    requires
        s@.queue.valid(),
        s@.queue.items.len() > 0,
        call_ensures(AppState::extension, (s, autoplay, guest, last_local), ask),
    ensures
        ({
            let q = s@.queue;
            let n = q.items.len();
            &&& ask is Some == (autoplay && !guest && q.repeat == RepeatMode::Off && q.current + 2
                >= n && (q.radio_seed is Some || !last_local))
            &&& ask matches Some(e) ==> {
                &&& e.last_video@ == q.items[n - 1].video_id
                &&& q.radio_seed is Some ==> Some(e.seed@) == q.radio_seed
                &&& q.radio_seed is None ==> e.seed@ == "RDAMVM"@ + q.items[n - 1].video_id
                &&& e.existing@ == order::id_set(q.items)
            }
        }),
{
    law_autoplay_steps_in_near_the_end(s@.queue, autoplay, guest, last_local);
}

/// A continuation brings at most twenty tracks, behind everything that is there and marked as
/// filler. One that brings any is shown, saved, told to the room and primed from; one for another
/// generation brings none.
pub proof fn law_continuations_are_appended(
    s: &mut AppState,
    gen: u64,
    fresh: Vec<SongItem>,
    existing: IdSet,
    r: (usize, Vec<Action>),
)
    requires
        existing@ == order::id_set(old(s)@.queue.items),
        call_ensures(AppState::extend, (s, gen, fresh, existing), r),
    ensures
        ({
            let q = old(s)@.queue;
            let after = final(s)@.queue;
            let n = q.items.len();
            &&& old(s)@.generation != gen ==> final(s)@ == old(s)@ && r.0 == 0
            &&& after.items.len() == n + r.0
            &&& r.0 <= 20
            &&& after.items.take(n as int) == q.items
            &&& forall|i: int| n <= i < after.items.len() ==> (#[trigger] after.items[i]).autoplay
            &&& after.current == q.current
        }),
        r.0 == 0 ==> r.1@.len() == 0,
        r.0 > 0 ==> r.1@.contains(Action::EmitQueue) && r.1@.contains(Action::PersistQueue)
            && r.1@.contains(Action::BroadcastQueue) && r.1@.contains(Action::Prime(gen)),
{
    let given = song::songs(fresh@);
    law_autoplay_appends_new_filler(old(s)@, gen, given);
    assert(final(s)@.queue == extended(old(s)@, gen, given, existing@).queue);
    if r.0 > 0 {
        assert(r.1@[0] == Action::EmitQueue);
        assert(r.1@[1] == Action::PersistQueue);
        assert(r.1@[2] == Action::BroadcastQueue);
        assert(r.1@[3] == Action::Prime(gen));
    }
}

} // verus!
