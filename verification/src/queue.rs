//! The play queue: its tracks, its play pointer, and every edit the player makes to it.

use crate::order;
use crate::order::IdSet;
use crate::order::Keep;
use crate::order::RepeatMode;
use crate::shuffle;
use crate::song;
use crate::song::SongItem;
use crate::song::SongView;
use crate::text;
use vstd::prelude::*;

verus! {

broadcast use crate::song::group_songs;

/// The queue and what is known of the track that plays from it. Lengths and gains are held as
/// the bits of the number that the player deals in.
pub struct QueueState {
    pub items: Vec<SongItem>,
    pub current: usize,
    /// Start of the previously-played run: `items[played_from..current]` is what has actually
    /// been heard, or skipped past, in this queue.
    pub played_from: usize,
    /// The order before shuffling. It is there exactly while shuffle is on.
    pub shuffle_orig: Option<Vec<SongItem>>,
    pub repeat: RepeatMode,
    /// The radio that continues this queue; without one, autoplay seeds from the last track.
    pub radio_seed: Option<String>,
    /// What the queue was started from, for display.
    pub source_name: Option<String>,
    /// Every upcoming track was generated by a radio.
    pub radio: bool,
    /// The queue index already handed to the player for a gapless transition.
    pub lookahead_loaded: Option<usize>,
    /// Which client served the track that is loaded.
    pub current_client: Option<String>,
    /// Which client served the primed track.
    pub lookahead_client: Option<String>,
    /// The loudness gain of the primed track; the inner value is absent where it needs none.
    pub lookahead_gain: Option<Option<u64>>,
    /// Where to report the current play, and the primed one.
    pub playback_url: Option<String>,
    pub lookahead_playback_url: Option<String>,
    /// The nonce of the current play.
    pub cpn: String,
    /// Whether the current play has been counted.
    pub history_pinged: bool,
    /// The length of the current track in seconds, 0 until the player reports it.
    pub duration: u64,
    /// The last track that was resolved again after a playback failure.
    pub retried: Option<String>,
}

/// What a [`QueueState`] holds.
#[verifier::ext_equal]
pub struct QueueView {
    pub items: Seq<SongView>,
    pub current: int,
    pub played_from: int,
    pub shuffle_orig: Option<Seq<SongView>>,
    pub repeat: RepeatMode,
    pub radio_seed: Option<Seq<char>>,
    pub source_name: Option<Seq<char>>,
    pub radio: bool,
    pub lookahead_loaded: Option<int>,
    pub current_client: Option<Seq<char>>,
    pub lookahead_client: Option<Seq<char>>,
    pub lookahead_gain: Option<Option<u64>>,
    pub playback_url: Option<Seq<char>>,
    pub lookahead_playback_url: Option<Seq<char>>,
    pub cpn: Seq<char>,
    pub history_pinged: bool,
    pub duration: u64,
    pub retried: Option<Seq<char>>,
}

/// The view of an optional list of tracks.
pub open spec fn opt_songs(v: Option<Vec<SongItem>>) -> Option<Seq<SongView>> {
    match v {
        Some(w) => Some(song::songs(w@)),
        None => None,
    }
}

impl View for QueueState {
    type V = QueueView;

    open spec fn view(&self) -> QueueView {
        QueueView {
            items: song::songs(self.items@),
            current: self.current as int,
            played_from: self.played_from as int,
            shuffle_orig: opt_songs(self.shuffle_orig),
            repeat: self.repeat,
            radio_seed: text::opt_text(self.radio_seed),
            source_name: text::opt_text(self.source_name),
            radio: self.radio,
            lookahead_loaded: order::opt_index(self.lookahead_loaded),
            current_client: text::opt_text(self.current_client),
            lookahead_client: text::opt_text(self.lookahead_client),
            lookahead_gain: self.lookahead_gain,
            playback_url: text::opt_text(self.playback_url),
            lookahead_playback_url: text::opt_text(self.lookahead_playback_url),
            cpn: self.cpn@,
            history_pinged: self.history_pinged,
            duration: self.duration,
            retried: text::opt_text(self.retried),
        }
    }
}

impl QueueView {
    /// The play pointer is within the list, or at 0 where the list is empty, and the played run
    /// ends at it.
    pub open spec fn valid(self) -> bool {
        &&& 0 <= self.played_from <= self.current
        &&& self.items.len() == 0 ==> self.current == 0
        &&& self.items.len() > 0 ==> self.current < self.items.len()
    }

    /// The index that plays next.
    pub open spec fn next(self) -> Option<int> {
        order::next_of(self.items.len() as int, self.current, self.repeat)
    }

    /// What the player holds for a gapless transition, if anything, is what plays next.
    pub open spec fn primed(self) -> bool {
        self.lookahead_loaded is Some ==> self.lookahead_loaded == self.next()
    }

    /// The track that is playing.
    pub open spec fn playing(self) -> Option<SongView> {
        track_at(self.items, self.current)
    }
}

/// The track at an index, where there is one.
pub open spec fn track_at(items: Seq<SongView>, i: int) -> Option<SongView> {
    if 0 <= i < items.len() {
        Some(items[i])
    } else {
        None
    }
}

/// The id of the track at an index, where there is one.
pub open spec fn id_at(items: Seq<SongView>, i: int) -> Option<Seq<char>> {
    if 0 <= i < items.len() {
        Some(items[i].video_id)
    } else {
        None
    }
}

/// The empty queue.
pub open spec fn empty_queue() -> QueueView {
    QueueView {
        items: Seq::empty(),
        current: 0,
        played_from: 0,
        shuffle_orig: None,
        repeat: RepeatMode::Off,
        radio_seed: None,
        source_name: None,
        radio: false,
        lookahead_loaded: None,
        current_client: None,
        lookahead_client: None,
        lookahead_gain: None,
        playback_url: None,
        lookahead_playback_url: None,
        cpn: Seq::empty(),
        history_pinged: false,
        duration: 0,
        retried: None,
    }
}

impl Default for QueueState {
    fn default() -> (r: Self)
        ensures
            r@ == empty_queue(),
            r@.valid(),
    {
        let r = QueueState {
            items: Vec::new(),
            current: 0,
            played_from: 0,
            shuffle_orig: None,
            repeat: RepeatMode::Off,
            radio_seed: None,
            source_name: None,
            radio: false,
            lookahead_loaded: None,
            current_client: None,
            lookahead_client: None,
            lookahead_gain: None,
            playback_url: None,
            lookahead_playback_url: None,
            cpn: String::new(),
            history_pinged: false,
            duration: 0,
            retried: None,
        };
        assert(r@ =~= empty_queue());
        r
    }
}

// --- the play pointer ---------------------------------------------------------------------

/// The queue with its pointer moved to `index`. Jumping forward counts everything passed over
/// as played; going back drags the start of the played run along.
pub open spec fn seeked(q: QueueView, index: int) -> QueueView {
    QueueView {
        current: index,
        played_from: if q.played_from < index {
            q.played_from
        } else {
            index
        },
        ..q
    }
}

impl QueueState {
    /// Moves the play pointer within the same queue.
    pub fn seek_to(&mut self, index: usize)
        ensures
            final(self)@ == seeked(old(self)@, index as int),
    {
        self.current = index;
        if self.played_from > index {
            self.played_from = index;
        }
    }

    /// The index that plays next, if any.
    pub fn next(&self) -> (r: Option<usize>)
        ensures
            order::opt_index(r) == self@.next(),
    {
        order::next_index(self.items.len(), self.current, self.repeat)
    }

    /// The id of the track at an index, if there is one.
    pub fn id_at(&self, i: usize) -> (r: Option<String>)
        ensures
            text::opt_text(r) == id_at(self@.items, i as int),
    {
        if i < self.items.len() {
            Some(self.items[i].video_id.clone())
        } else {
            None
        }
    }

    /// The id of the track behind the playing one, if there is one.
    pub fn next_id(&self) -> (r: Option<String>)
        ensures
            text::opt_text(r) == id_at(self@.items, self@.current + 1),
    {
        if self.current < self.items.len() {
            self.id_at(self.current + 1)
        } else {
            None
        }
    }

    /// A copy of the playing track, if there is one.
    pub fn current_item(&self) -> (r: Option<SongItem>)
        ensures
            song::opt_song(r) == self@.playing(),
    {
        if self.current < self.items.len() {
            Some(self.items[self.current].clone())
        } else {
            None
        }
    }
}

/// Nothing shows as played while it sits ahead of the playing track, however the pointer moves.
pub proof fn law_seek_keeps_the_run_behind(q: QueueView, index: int)
    requires
        q.valid(),
        0 <= index < q.items.len(),
    ensures
        seeked(q, index).valid(),
        seeked(q, index).played_from <= q.played_from,
        index >= q.played_from ==> seeked(q, index).played_from == q.played_from,
{
}

/// Where an "Add to queue" lands: at the back of the manual block.
pub fn enqueue_at(q: &QueueState) -> (r: usize)
    ensures
        r == order::add_slot(q@.items, q@.current),
        r <= q.items@.len(),
{
    order::enqueue_index(&q.items, q.current)
}

// --- starting a queue ---------------------------------------------------------------------

/// A queue of one track, followed by the manual adds that were still waiting.
pub open spec fn song_queue(q: QueueView, seed: SongView, local: bool) -> QueueView {
    let items = seq![seed] + order::carried(q.items, q.current);
    QueueView {
        items,
        current: 0,
        played_from: 0,
        lookahead_loaded: None,
        radio_seed: None,
        radio: false,
        source_name: if local {
            None
        } else {
            Some(seed.title + " Radio"@)
        },
        shuffle_orig: if q.shuffle_orig is Some {
            Some(items)
        } else {
            None
        },
        ..q
    }
}

/// A queue of the given tracks with the pointer on `current`: `order` is the order they play
/// in, and the manual adds that were still waiting follow the playing track.
pub open spec fn tracks_queue(
    q: QueueView,
    items: Seq<SongView>,
    order: Seq<SongView>,
    current: int,
    source_id: Option<Seq<char>>,
    source_name: Option<Seq<char>>,
    shuffled: bool,
) -> QueueView {
    QueueView {
        items: order::spliced(order, current + 1, order::carried(q.items, q.current)),
        current,
        played_from: current,
        lookahead_loaded: None,
        radio_seed: crate::radio::seed_for(source_id),
        source_name,
        radio: false,
        shuffle_orig: if shuffled {
            Some(items)
        } else {
            q.shuffle_orig
        },
        ..q
    }
}

/// The index that a list is opened at: the clicked one, kept within the list.
pub open spec fn is_opened_at(len: int, start: Option<int>, shuffled: bool, at: int) -> bool {
    match start {
        Some(i) => at == shuffle::clicked(len, i),
        None => if shuffled {
            0 <= at < len
        } else {
            at == 0
        },
    }
}

/// Whether `after` is the queue that playing a list leaves. With shuffle on, the track it opens
/// at plays first and everything else follows shuffled; otherwise the list keeps its order and
/// the pointer stands on that track.
pub open spec fn plays_tracks(
    before: QueueView,
    after: QueueView,
    items: Seq<SongView>,
    start: int,
    source_id: Option<Seq<char>>,
    source_name: Option<Seq<char>>,
    shuffled: bool,
) -> bool {
    if shuffled {
        exists|order: Seq<SongView>| #[trigger]
            shuffle::is_fresh_shuffle(items, order, start) && after == tracks_queue(
                before,
                items,
                order,
                0,
                source_id,
                source_name,
                true,
            )
    } else {
        after == tracks_queue(before, items, items, start, source_id, source_name, false)
    }
}

impl QueueState {
    /// Starts a fresh queue from one track. The manual adds that were still waiting follow it.
    pub fn start_song(&mut self, seed: SongItem, local: bool)
        ensures
            final(self)@ == song_queue(old(self)@, seed@, local),
            final(self)@.valid(),
    {
        let carried = order::upcoming_queued(self.items.as_slice(), self.current);
        self.source_name = if local {
            None
        } else {
            Some(text::joined(seed.title.as_str(), " Radio"))
        };
        let ghost given = seed@;
        let mut items: Vec<SongItem> = Vec::new();
        items.push(seed);
        song::append_songs(&mut items, carried);
        assert(song::songs(items@) =~= seq![given] + song::songs(carried@));
        self.items = items;
        self.current = 0;
        self.played_from = 0;
        self.lookahead_loaded = None;
        self.radio_seed = None;
        self.radio = false;
        if self.shuffle_orig.is_some() {
            self.shuffle_orig = Some(song::copy_songs(&self.items));
        }
        assert(self@ =~= song_queue(old(self)@, given, local));
    }

    /// Replaces the queue by a list, opened at the index `start`.
    pub fn install_tracks(
        &mut self,
        items: Vec<SongItem>,
        start: usize,
        source_id: Option<String>,
        source_name: Option<String>,
        shuffled: bool,
    )
        requires
            start < items@.len(),
            old(self).shuffle_orig is Some ==> shuffled,
        ensures
            plays_tracks(
                old(self)@,
                final(self)@,
                song::songs(items@),
                start as int,
                text::opt_text(source_id),
                text::opt_text(source_name),
                shuffled,
            ),
            final(self)@.valid(),
            final(self)@.playing() == Some(items@[start as int]@),
    {
        let ghost given = song::songs(items@);
        let carried = order::upcoming_queued(self.items.as_slice(), self.current);
        self.items = items;
        self.current = start;
        self.lookahead_loaded = None;
        self.radio_seed = crate::radio::radio_seed_for(source_id);
        self.source_name = source_name;
        self.radio = false;
        if shuffled {
            self.shuffle_orig = Some(song::copy_songs(&self.items));
            self.current = shuffle::shuffle_new_queue(&mut self.items, start);
        }
        let ghost order = song::songs(self.items@);
        proof {
            if shuffled {
                shuffle::law_fresh_shuffle_starts_with_the_click(given, order, start as int);
            }
        }
        self.played_from = self.current;
        assert(self.current < self.items@.len());
        let at: usize = if self.current < self.items.len() { self.current + 1 } else { 0 };
        order::splice(&mut self.items, at, carried);
        assert(self@ =~= tracks_queue(
            old(self)@,
            given,
            order,
            self.current as int,
            text::opt_text(source_id),
            text::opt_text(source_name),
            shuffled,
        ));
    }

    /// Appends the radio of the song that just started, and shuffles it in where shuffle is on.
    pub fn hydrate(&mut self, video_id: &str, fresh: Vec<SongItem>)
        ensures
            is_hydrated(old(self)@, final(self)@, video_id@, song::songs(fresh@)),
            old(self)@.valid() && old(self)@.items.len() > 0 ==> final(self)@.valid()
                && final(self)@.playing() == old(self)@.playing(),
    {
        let mut set = IdSet::new();
        let _ = set.insert(video_id.to_owned());
        let mut more = fresh;
        let ghost all = song::songs(more@);
        order::retain_from(&mut more, 0, Keep::Outside(&set));
        assert(all.skip(0) =~= all);
        assert(set@ =~= set![video_id@]);
        assert(song::songs(more@) =~= all.filter(order::outside(set![video_id@])));
        song::append_songs(&mut self.items, more);
        if self.shuffle_orig.is_some() {
            self.shuffle_orig = Some(song::copy_songs(&self.items));
            let cur: usize = self.current;
            shuffle::shuffle_upcoming(&mut self.items, cur);
        }
        proof {
            let base = old(self)@.items + all.filter(order::outside(set![video_id@]));
            assert(self@ =~= reshuffled(old(self)@, base, self@.items));
            if old(self)@.valid() && old(self)@.items.len() > 0 {
                lemma_list_keeps_the_pointer(old(self)@, self@, base);
            }
        }
    }
}

/// The queue with the list `base`: in that order where shuffle is off; where it is on, in the
/// order `order`, with `base` as the order to come back to.
pub open spec fn reshuffled(
    q: QueueView,
    base: Seq<SongView>,
    order: Seq<SongView>,
) -> QueueView {
    QueueView {
        items: order,
        shuffle_orig: if q.shuffle_orig is Some {
            Some(base)
        } else {
            None
        },
        ..q
    }
}

/// Whether `after` is `before` with the list `base`, shuffled behind the playing track where
/// shuffle is on.
pub open spec fn takes_list(before: QueueView, after: QueueView, base: Seq<SongView>) -> bool {
    &&& after == reshuffled(before, base, after.items)
    &&& before.shuffle_orig is None ==> after.items == base
    &&& before.shuffle_orig is Some ==> shuffle::is_shuffle(base, after.items, before.current)
}

/// A list that starts with the one before it, through the playing track, leaves that playing.
proof fn lemma_list_keeps_the_pointer(before: QueueView, after: QueueView, base: Seq<SongView>)
    requires
        before.valid(),
        before.items.len() > 0,
        before.current < base.len(),
        base[before.current] == before.items[before.current],
        takes_list(before, after, base),
    ensures
        after.valid(),
        after.playing() == before.playing(),
{
    if before.shuffle_orig is Some {
        shuffle::law_shuffle_is_a_permutation(base, after.items, before.current);
        let at = order::boundary(base, before.current);
        assert(after.items.take(at)[before.current] == base.take(at)[before.current]);
    }
}

/// Whether `after` is the queue once a song's radio has been appended to it: every track of the
/// radio but the song itself.
pub open spec fn is_hydrated(
    before: QueueView,
    after: QueueView,
    video_id: Seq<char>,
    fresh: Seq<SongView>,
) -> bool {
    takes_list(before, after, before.items + fresh.filter(order::outside(set![video_id])))
}

// --- radio behind the playing track -------------------------------------------------------

/// The list that a radio leaves behind the playing track: the history, the playing track and
/// the waiting manual adds, then the radio's tracks that are not among those.
pub open spec fn radio_list(q: QueueView, page: Seq<SongView>) -> Seq<SongView> {
    let kept = order::through(q.items, q.current) + order::carried(q.items, q.current);
    kept + order::novel(order::id_set(kept), page)
}

/// Whether `after` is `before` once a radio has been put behind the playing track.
pub open spec fn is_radio_spliced(
    before: QueueView,
    after: QueueView,
    page: Seq<SongView>,
    seed: Seq<char>,
    title: Option<Seq<char>>,
) -> bool {
    takes_list(
        QueueView { radio_seed: Some(seed), source_name: title, radio: true, ..before },
        after,
        radio_list(before, page),
    )
}

/// Replaces everything after the playing track by a radio, keeping the history, the current
/// song and any unplayed manual adds. A track that is kept is not queued a second time. Where
/// shuffle is on, the new order becomes the one to come back to and what is upcoming is
/// shuffled.
pub fn splice_radio_into(
    q: &mut QueueState,
    items: Vec<SongItem>,
    seed: String,
    title: Option<String>,
)
    ensures
        is_radio_spliced(
            old(q)@,
            final(q)@,
            song::songs(items@),
            seed@,
            text::opt_text(title),
        ),
        old(q)@.valid() && old(q)@.items.len() > 0 ==> final(q)@.valid() && final(q)@.playing()
            == old(q)@.playing(),
{
    let ghost before = q@;
    let carried = order::upcoming_queued(q.items.as_slice(), q.current);
    let keep: usize = if q.current < q.items.len() { q.current + 1 } else { q.items.len() };
    q.items.truncate(keep);
    assert(song::songs(q.items@) =~= order::through(before.items, before.current));
    song::append_songs(&mut q.items, carried);
    let seen = order::ids_of(&q.items);
    order::append_novel(&mut q.items, seen, items);
    q.radio_seed = Some(seed);
    q.source_name = title;
    q.radio = true;
    let ghost base = song::songs(q.items@);
    assert(base =~= radio_list(before, song::songs(items@)));
    if q.shuffle_orig.is_some() {
        q.shuffle_orig = Some(song::copy_songs(&q.items));
        let cur: usize = q.current;
        shuffle::shuffle_upcoming(&mut q.items, cur);
    }
    assert(q@ =~= reshuffled(
        QueueView {
            radio_seed: Some(seed@),
            source_name: text::opt_text(title),
            radio: true,
            ..before
        },
        base,
        q@.items,
    ));
    proof {
        if before.valid() && before.items.len() > 0 {
            let named = QueueView {
                radio_seed: Some(seed@),
                source_name: text::opt_text(title),
                radio: true,
                ..before
            };
            lemma_list_keeps_the_pointer(named, q@, base);
        }
    }
}

/// A radio never moves the playing track nor what was in front of it and keeps every waiting
/// manual add. Of its own tracks none is among those already, and none comes twice.
pub proof fn law_radio_keeps_history_and_adds(q: QueueView, page: Seq<SongView>)
    requires
        q.valid(),
        q.items.len() > 0,
    ensures
        order::through(radio_list(q, page), q.current) == order::through(q.items, q.current),
        forall|i: int|
            order::boundary(q.items, q.current) <= i < q.items.len() && song::manual(
                #[trigger] q.items[i],
            ) ==> radio_list(q, page).contains(q.items[i]),
        forall|s: SongView| #[trigger]
            order::novel(
                order::id_set(
                    order::through(q.items, q.current) + order::carried(q.items, q.current),
                ),
                page,
            ).contains(s) ==> !order::id_set(
                order::through(q.items, q.current) + order::carried(q.items, q.current),
            ).contains(s.video_id),
        order::ids(
            order::novel(
                order::id_set(
                    order::through(q.items, q.current) + order::carried(q.items, q.current),
                ),
                page,
            ),
        ).no_duplicates(),
{
    let head = order::through(q.items, q.current);
    let adds = order::carried(q.items, q.current);
    let kept = head + adds;
    let seen = order::id_set(kept);
    let list = radio_list(q, page);
    assert(order::boundary(list, q.current) == q.current + 1);
    assert(list.take(q.current + 1) =~= head);
    order::lemma_novel_is_distinct(seen, page);
    assert forall|i: int|
        order::boundary(q.items, q.current) <= i < q.items.len() && song::manual(
            #[trigger] q.items[i],
        ) implies list.contains(q.items[i]) by {
        let up = order::upcoming(q.items, q.current);
        let at = order::boundary(q.items, q.current);
        assert(up[i - at] == q.items[i]);
        up.lemma_filter_contains(order::by_hand(), i - at);
        let k = adds.index_of(q.items[i]);
        assert(list[head.len() + k] == q.items[i]);
    }
    assert forall|s: SongView| #[trigger]
        order::novel(seen, page).contains(s) implies !seen.contains(s.video_id) by {
        order::lemma_novel_is_new(seen, page, s);
    }
}

} // verus!
