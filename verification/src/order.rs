//! Rules over a list of tracks and a play pointer: what comes next, where an add lands, which
//! rows a move, a radio or an un-shuffle keeps.

use crate::song;
use crate::song::SongItem;
use crate::song::SongView;
use vstd::hash_set::StringHashSet;
use vstd::prelude::*;

verus! {

broadcast use crate::song::group_songs;

// --- repeat -------------------------------------------------------------------------------

/// What the queue does at its end.
#[derive(Clone, Copy, Debug, PartialEq, Eq, Structural)]
pub enum RepeatMode {
    Off,
    All,
    One,
}

impl Default for RepeatMode {
    fn default() -> (r: Self)
        ensures
            r == RepeatMode::Off,
    {
        RepeatMode::Off
    }
}

/// The index that plays after `current`: the one behind it; at the tail the first one with
/// repeat-all, and none otherwise (repeat-one loops inside the player, so the queue never
/// advances).
pub open spec fn next_of(len: int, current: int, repeat: RepeatMode) -> Option<int> {
    if len == 0 {
        None
    } else if current + 1 < len {
        Some(current + 1)
    } else if repeat == RepeatMode::All {
        Some(0)
    } else {
        None
    }
}

/// The view of an optional index.
pub open spec fn opt_index(i: Option<usize>) -> Option<int> {
    match i {
        Some(n) => Some(n as int),
        None => None,
    }
}

/// The queue index that plays after `current`, honouring the repeat-all wrap.
pub fn next_index(len: usize, current: usize, repeat: RepeatMode) -> (r: Option<usize>)
    ensures
        opt_index(r) == next_of(len as int, current as int, repeat),
{
    if len == 0 {
        return None;
    }
    if current < len - 1 {
        Some(current + 1)
    } else if repeat == RepeatMode::All {
        Some(0)
    } else {
        None
    }
}

// --- sets of ids --------------------------------------------------------------------------

/// A set of video ids.
pub struct IdSet {
    ids: StringHashSet,
}

impl View for IdSet {
    type V = Set<Seq<char>>;

    closed spec fn view(&self) -> Set<Seq<char>> {
        self.ids@
    }
}

impl IdSet {
    /// The empty set.
    pub fn new() -> (r: Self)
        ensures
            r@ == Set::<Seq<char>>::empty(),
    {
        IdSet { ids: StringHashSet::new() }
    }

    /// Adds an id. Answers whether it was new.
    pub fn insert(&mut self, id: String) -> (r: bool)
        ensures
            final(self)@ == old(self)@.insert(id@),
            r == !old(self)@.contains(id@),
    {
        self.ids.insert(id)
    }

    /// Whether the set holds an id.
    pub fn contains(&self, id: &str) -> (r: bool)
        ensures
            r == self@.contains(id@),
    {
        self.ids.contains(id)
    }
}

/// The ids of a list of tracks.
pub open spec fn ids(items: Seq<SongView>) -> Seq<Seq<char>> {
    Seq::new(items.len(), |i: int| items[i].video_id)
}

/// The set of the ids of a list of tracks.
pub open spec fn id_set(items: Seq<SongView>) -> Set<Seq<char>> {
    ids(items).to_set()
}

/// One more track adds its id.
pub proof fn lemma_id_set_push(items: Seq<SongView>, s: SongView)
    ensures
        id_set(items.push(s)) == id_set(items).insert(s.video_id),
{
    assert(ids(items.push(s)) =~= ids(items).push(s.video_id));
    assert forall|x: Seq<char>| #[trigger]
        ids(items).push(s.video_id).contains(x) == (ids(items).contains(x) || x == s.video_id) by {
        if ids(items).contains(x) {
            let i = ids(items).index_of(x);
            assert(ids(items).push(s.video_id)[i] == x);
        }
        if x == s.video_id {
            assert(ids(items).push(s.video_id)[items.len() as int] == x);
        }
    }
    assert(id_set(items.push(s)) =~= id_set(items).insert(s.video_id));
}

/// The set of the ids of `items[..n]`.
pub fn ids_of_first(items: &Vec<SongItem>, n: usize) -> (r: IdSet)
    requires
        n <= items@.len(),
    ensures
        r@ == id_set(song::songs(items@).take(n as int)),
{
    let mut out = IdSet::new();
    let ghost all = song::songs(items@);
    assert(ids(all.take(0)).to_set() =~= Set::<Seq<char>>::empty());
    for i in 0..n
        invariant
            n <= items@.len(),
            all == song::songs(items@),
            out@ == id_set(all.take(i as int)),
    {
        proof {
            assert(all.take(i + 1) =~= all.take(i as int).push(items@[i as int]@));
            lemma_id_set_push(all.take(i as int), items@[i as int]@);
        }
        let _ = out.insert(items[i].video_id.clone());
    }
    out
}

/// The set of the ids of a list of tracks.
pub fn ids_of(items: &Vec<SongItem>) -> (r: IdSet)
    ensures
        r@ == id_set(song::songs(items@)),
{
    let out = ids_of_first(items, items.len());
    assert(song::songs(items@).take(items@.len() as int) =~= song::songs(items@));
    out
}

// --- the play pointer splits the queue ----------------------------------------------------

/// Where the upcoming tracks start: right behind the playing one, within the list.
pub open spec fn boundary(items: Seq<SongView>, current: int) -> int {
    if current + 1 < items.len() {
        current + 1
    } else {
        items.len() as int
    }
}

/// The tracks through the playing one.
pub open spec fn through(items: Seq<SongView>, current: int) -> Seq<SongView> {
    items.take(boundary(items, current))
}

/// The tracks behind the playing one.
pub open spec fn upcoming(items: Seq<SongView>, current: int) -> Seq<SongView> {
    items.skip(boundary(items, current))
}

/// Picks the tracks that were queued by hand.
pub open spec fn by_hand() -> spec_fn(SongView) -> bool {
    |s: SongView| song::manual(s)
}

/// Picks the tracks that were not queued by hand.
pub open spec fn not_by_hand() -> spec_fn(SongView) -> bool {
    |s: SongView| !song::manual(s)
}

/// Picks the "Play next" adds.
pub open spec fn play_next_adds() -> spec_fn(SongView) -> bool {
    |s: SongView| s.queued
}

/// Picks the tracks whose id is not in `set`.
pub open spec fn outside(set: Set<Seq<char>>) -> spec_fn(SongView) -> bool {
    |s: SongView| !set.contains(s.video_id)
}

/// Where the run of tracks that satisfy `pred`, starting at `at`, ends.
pub open spec fn run_end(
    items: Seq<SongView>,
    at: int,
    pred: spec_fn(SongView) -> bool,
) -> int
    decreases items.len() - at,
{
    if 0 <= at < items.len() && pred(items[at]) {
        run_end(items, at + 1, pred)
    } else {
        at
    }
}

/// A run holds only tracks that satisfy `pred`, and stops at the first that does not.
pub proof fn lemma_run_end(items: Seq<SongView>, at: int, pred: spec_fn(SongView) -> bool)
    requires
        0 <= at <= items.len(),
    ensures
        at <= run_end(items, at, pred) <= items.len(),
        forall|k: int| at <= k < run_end(items, at, pred) ==> pred(#[trigger] items[k]),
        run_end(items, at, pred) < items.len() ==> !pred(items[run_end(items, at, pred)]),
    decreases items.len() - at,
{
    if at < items.len() && pred(items[at]) {
        lemma_run_end(items, at + 1, pred);
    }
}

/// The index that these facts single out is the end of the run.
pub proof fn lemma_run_end_unique(
    items: Seq<SongView>,
    at: int,
    end: int,
    pred: spec_fn(SongView) -> bool,
)
    requires
        0 <= at <= end <= items.len(),
        forall|k: int| at <= k < end ==> pred(#[trigger] items[k]),
        end < items.len() ==> !pred(items[end]),
    ensures
        run_end(items, at, pred) == end,
    decreases end - at,
{
    if at < end {
        assert(pred(items[at]));
        lemma_run_end_unique(items, at + 1, end, pred);
    }
}

/// Where a "Play next" add lands: behind the playing track and the earlier "Play next" adds.
pub open spec fn play_next_slot(items: Seq<SongView>, current: int) -> int {
    run_end(items, boundary(items, current), play_next_adds())
}

/// Where an "Add to queue" add lands: behind the playing track and the whole block of adds.
pub open spec fn add_slot(items: Seq<SongView>, current: int) -> int {
    run_end(items, boundary(items, current), by_hand())
}

/// Where a "Play next" track goes: right after the current song, behind any earlier "Play next"
/// adds, ahead of anything added with "Add to queue" and of the upcoming playlist.
pub fn guest_insert_index(items: &[SongItem], current: usize) -> (r: usize)
    ensures
        r == play_next_slot(song::songs(items@), current as int),
        r <= items@.len(),
{
    let ghost all = song::songs(items@);
    let start: usize = if current < items.len() { current + 1 } else { items.len() };
    let mut at: usize = start;
    while at < items.len() && items[at].queued
        invariant
            all == song::songs(items@),
            start <= at <= items@.len(),
            forall|k: int| start <= k < at ==> play_next_adds()(#[trigger] all[k]),
        decreases items@.len() - at,
    {
        at = at + 1;
    }
    proof {
        lemma_run_end_unique(all, start as int, at as int, play_next_adds());
    }
    at
}

/// Where an "Add to queue" lands: at the back of the manual block, so it plays after everything
/// already queued by hand and before the playing context, its radio and autoplay's filler.
pub fn enqueue_index(items: &Vec<SongItem>, current: usize) -> (r: usize)
    ensures
        r == add_slot(song::songs(items@), current as int),
        r <= items@.len(),
{
    let ghost all = song::songs(items@);
    let start: usize = if current < items.len() { current + 1 } else { items.len() };
    let mut at: usize = start;
    while at < items.len() && (items[at].queued || items[at].queued_end)
        invariant
            all == song::songs(items@),
            start <= at <= items@.len(),
            forall|k: int| start <= k < at ==> by_hand()(#[trigger] all[k]),
        decreases items@.len() - at,
    {
        at = at + 1;
    }
    proof {
        lemma_run_end_unique(all, start as int, at as int, by_hand());
    }
    at
}

/// Every "Play next" add waits ahead of the slot of an "Add to queue" add.
pub proof fn law_play_next_precedes_add(items: Seq<SongView>, current: int)
    requires
        0 <= current,
    ensures
        boundary(items, current) <= play_next_slot(items, current) <= add_slot(items, current)
            <= items.len(),
{
    let start = boundary(items, current);
    lemma_run_end(items, start, play_next_adds());
    lemma_run_end(items, start, by_hand());
    let next = play_next_slot(items, current);
    let add = add_slot(items, current);
    if add < next {
        assert(play_next_adds()(items[add]));
        assert(!by_hand()(items[add]));
    }
}

/// The list with `block` put in at `at`.
pub open spec fn spliced(items: Seq<SongView>, at: int, block: Seq<SongView>) -> Seq<SongView> {
    items.take(at) + block + items.skip(at)
}

/// Puts `block` into the list at `at`.
pub fn splice(items: &mut Vec<SongItem>, at: usize, block: Vec<SongItem>)
    requires
        at <= old(items)@.len(),
    ensures
        song::songs(final(items)@) == spliced(
            song::songs(old(items)@),
            at as int,
            song::songs(block@),
        ),
{
    let ghost all = song::songs(items@);
    let tail = items.split_off(at);
    song::append_songs(items, block);
    song::append_songs(items, tail);
    assert(song::songs(items@) =~= spliced(all, at as int, song::songs(block@)));
}

/// Putting a block into a run at its end makes the run longer by that block.
proof fn lemma_run_grows(
    items: Seq<SongView>,
    at: int,
    block: Seq<SongView>,
    pred: spec_fn(SongView) -> bool,
)
    requires
        0 <= at <= items.len(),
        forall|i: int| 0 <= i < block.len() ==> pred(#[trigger] block[i]),
    ensures
        run_end(spliced(items, run_end(items, at, pred), block), at, pred) == run_end(
            items,
            at,
            pred,
        ) + block.len(),
{
    lemma_run_end(items, at, pred);
    let end = run_end(items, at, pred);
    let longer = spliced(items, end, block);
    assert forall|k: int| at <= k < end + block.len() implies pred(#[trigger] longer[k]) by {
        if k < end {
            assert(longer[k] == items[k]);
        } else {
            assert(longer[k] == block[k - end]);
        }
    }
    if end + block.len() < longer.len() {
        assert(longer[end + block.len()] == items[end]);
    }
    lemma_run_end_unique(longer, at, end + block.len(), pred);
}

/// Adds of either kind are first in, first out: what is added next lands right behind what was
/// added last.
pub proof fn law_adds_are_first_in_first_out(
    items: Seq<SongView>,
    current: int,
    block: Seq<SongView>,
)
    requires
        0 <= current < items.len(),
    ensures
        (forall|i: int| 0 <= i < block.len() ==> (#[trigger] block[i]).queued) ==> play_next_slot(
            spliced(items, play_next_slot(items, current), block),
            current,
        ) == play_next_slot(items, current) + block.len(),
        (forall|i: int| 0 <= i < block.len() ==> song::manual(#[trigger] block[i])) ==> add_slot(
            spliced(items, add_slot(items, current), block),
            current,
        ) == add_slot(items, current) + block.len(),
{
    lemma_run_end(items, current + 1, play_next_adds());
    lemma_run_end(items, current + 1, by_hand());
    if forall|i: int| 0 <= i < block.len() ==> (#[trigger] block[i]).queued {
        lemma_run_grows(items, current + 1, block, play_next_adds());
    }
    if forall|i: int| 0 <= i < block.len() ==> song::manual(#[trigger] block[i]) {
        lemma_run_grows(items, current + 1, block, by_hand());
    }
}

/// The unplayed manual adds: they are carried into a new queue on a context switch.
pub open spec fn carried(items: Seq<SongView>, current: int) -> Seq<SongView> {
    upcoming(items, current).filter(by_hand())
}

/// The unplayed manual adds (behind `current`, either gesture), in order.
pub fn upcoming_queued(items: &[SongItem], current: usize) -> (r: Vec<SongItem>)
    ensures
        song::songs(r@) == carried(song::songs(items@), current as int),
{
    let ghost all = song::songs(items@);
    let start: usize = if current < items.len() { current + 1 } else { items.len() };
    let ghost tail = upcoming(all, current as int);
    let mut out: Vec<SongItem> = Vec::new();
    assert(tail.take(0) =~= Seq::<SongView>::empty());
    reveal(Seq::filter);
    for i in start..items.len()
        invariant
            all == song::songs(items@),
            start <= items@.len(),
            tail == all.skip(start as int),
            song::songs(out@) == tail.take(i - start).filter(by_hand()),
    {
        proof {
            tail.take(i - start).lemma_filter_push(items@[i as int]@, by_hand());
            assert(tail.take(i - start + 1) =~= tail.take(i - start).push(items@[i as int]@));
        }
        if items[i].queued || items[i].queued_end {
            let song = items[i].clone();
            out.push(song);
        }
    }
    assert(tail.take(tail.len() as int) =~= tail);
    out
}

// --- keeping a part of a list -------------------------------------------------------------

/// Picks the tracks that are not a waiting manual add of an id in `set`.
pub open spec fn not_waiting(set: Set<Seq<char>>) -> spec_fn(SongView) -> bool {
    |s: SongView| !(song::manual(s) && set.contains(s.video_id))
}

/// Picks the tracks whose id is in `set`.
pub open spec fn within(set: Set<Seq<char>>) -> spec_fn(SongView) -> bool {
    |s: SongView| set.contains(s.video_id)
}

/// Which rows of a list to keep.
pub enum Keep<'a> {
    /// Everything that was queued by hand.
    ByHand,
    /// Everything that was not queued by hand.
    NotByHand,
    /// Everything but the manual adds of these ids.
    NotWaiting(&'a IdSet),
    /// Everything but these ids.
    Outside(&'a IdSet),
    /// Only these ids.
    Within(&'a IdSet),
}

impl<'a> Keep<'a> {
    /// The tracks that the rule keeps.
    pub open spec fn picks(self) -> spec_fn(SongView) -> bool {
        match self {
            Keep::ByHand => by_hand(),
            Keep::NotByHand => not_by_hand(),
            Keep::NotWaiting(set) => not_waiting(set@),
            Keep::Outside(set) => outside(set@),
            Keep::Within(set) => within(set@),
        }
    }

    /// Whether the rule keeps a track.
    pub fn keeps(&self, s: &SongItem) -> (r: bool)
        ensures
            r == self.picks()(s@),
    {
        match self {
            Keep::ByHand => s.queued || s.queued_end,
            Keep::NotByHand => !(s.queued || s.queued_end),
            Keep::NotWaiting(set) => !((s.queued || s.queued_end) && set.contains(
                s.video_id.as_str(),
            )),
            Keep::Outside(set) => !set.contains(s.video_id.as_str()),
            Keep::Within(set) => set.contains(s.video_id.as_str()),
        }
    }
}

/// Keeps of the tracks from `from` on those that the rule picks, in order; what stands in front
/// stays as it is.
pub fn retain_from(items: &mut Vec<SongItem>, from: usize, rule: Keep)
    requires
        from <= old(items)@.len(),
    ensures
        song::songs(final(items)@) == song::songs(old(items)@).take(from as int) + song::songs(
            old(items)@,
        ).skip(from as int).filter(rule.picks()),
{
    let ghost all = song::songs(items@);
    let tail = items.split_off(from);
    let ghost rest = song::songs(tail@);
    let ghost front = song::songs(items@);
    assert(rest =~= all.skip(from as int));
    assert(front =~= all.take(from as int));
    let ghost given = tail@;
    reveal(Seq::filter);
    assert(rest.take(0) =~= Seq::<SongView>::empty());
    assert(song::songs(items@) =~= front + rest.take(0).filter(rule.picks()));
    for s in it: tail
        invariant
            it.seq() == given,
            rest == song::songs(given),
            song::songs(items@) == front + rest.take(it.index()).filter(rule.picks()),
    {
        proof {
            rest.take(it.index()).lemma_filter_push(s@, rule.picks());
            assert(rest.take(it.index() + 1) =~= rest.take(it.index()).push(s@));
        }
        if rule.keeps(&s) {
            let ghost kept = rest.take(it.index()).filter(rule.picks());
            items.push(s);
            assert((front + kept).push(s@) =~= front + kept.push(s@));
        }
    }
    assert(rest.take(rest.len() as int) =~= rest);
}

/// How many of the first `n` tracks have an id in `set`.
fn count_first(items: &Vec<SongItem>, n: usize, set: &IdSet) -> (r: usize)
    requires
        n <= items@.len(),
    ensures
        r == n - song::songs(items@).take(n as int).filter(outside(set@)).len(),
        r <= n,
{
    let ghost all = song::songs(items@);
    let mut count: usize = 0;
    reveal(Seq::filter);
    assert(all.take(0) =~= Seq::<SongView>::empty());
    for i in 0..n
        invariant
            n <= items@.len(),
            all == song::songs(items@),
            count <= i,
            count == i - all.take(i as int).filter(outside(set@)).len(),
    {
        proof {
            all.take(i as int).lemma_filter_push(items@[i as int]@, outside(set@));
            assert(all.take(i + 1) =~= all.take(i as int).push(items@[i as int]@));
        }
        if set.contains(items[i].video_id.as_str()) {
            count = count + 1;
        }
    }
    count
}

// --- dropping duplicates ------------------------------------------------------------------

/// The queue without the tracks of `set`, except for the playing one.
pub open spec fn deduped(
    items: Seq<SongView>,
    current: int,
    set: Set<Seq<char>>,
) -> Seq<SongView> {
    if current < items.len() {
        items.take(current).filter(outside(set)).push(items[current]) + items.skip(
            current + 1,
        ).filter(outside(set))
    } else {
        items.filter(outside(set))
    }
}

/// How many of the first `n` tracks have an id in `set`.
pub open spec fn dropped_before(items: Seq<SongView>, n: int, set: Set<Seq<char>>) -> int {
    let front = if n < items.len() { items.take(n) } else { items };
    front.len() - front.filter(outside(set)).len()
}

/// The playing track survives the removal of duplicates, the pointer follows it down, and the
/// played run still ends at it: of what was in the run, what is left of it is still the run.
pub proof fn law_dedupe_follows_the_playing_track(
    items: Seq<SongView>,
    current: int,
    played_from: int,
    set: Set<Seq<char>>,
)
    requires
        0 <= played_from <= current < items.len(),
    ensures
        0 <= played_from - dropped_before(items, played_from, set) <= current - dropped_before(
            items,
            current,
            set,
        ) < deduped(items, current, set).len(),
        deduped(items, current, set)[current - dropped_before(items, current, set)]
            == items[current],
        deduped(items, current, set).subrange(
            played_from - dropped_before(items, played_from, set),
            current - dropped_before(items, current, set),
        ) == items.subrange(played_from, current).filter(outside(set)),
{
    let front = items.take(played_from);
    let run = items.subrange(played_from, current);
    assert(items.take(current) =~= front + run);
    Seq::filter_distributes_over_add(front, run, outside(set));
    let kept = front.filter(outside(set)) + run.filter(outside(set));
    assert(deduped(items, current, set).subrange(
        front.filter(outside(set)).len() as int,
        kept.len() as int,
    ) =~= run.filter(outside(set)));
}

/// No copy of a dropped id is left but the playing track itself.
pub proof fn law_dedupe_leaves_no_copy(
    items: Seq<SongView>,
    current: int,
    set: Set<Seq<char>>,
    k: int,
)
    requires
        0 <= current,
        0 <= k < deduped(items, current, set).len(),
        set.contains(deduped(items, current, set)[k].video_id),
    ensures
        current < items.len(),
        k == current - dropped_before(items, current, set),
{
    let list = deduped(items, current, set);
    if current < items.len() {
        let a = items.take(current).filter(outside(set));
        let b = items.skip(current + 1).filter(outside(set));
        if k < a.len() {
            items.take(current).lemma_filter_pred(outside(set), k);
        } else if k > a.len() {
            items.skip(current + 1).lemma_filter_pred(outside(set), k - a.len() - 1);
        }
    } else {
        items.lemma_filter_pred(outside(set), k);
    }
}

/// Drops every copy of `set` already in the queue, so that a manual add moves the track instead
/// of duplicating it. The playing track is never dropped, and `current` follows its own track
/// down; the start of the played run follows what was in front of it. Answers whether anything
/// went.
pub fn drop_duplicates(
    items: &mut Vec<SongItem>,
    current: &mut usize,
    played_from: &mut usize,
    set: &IdSet,
) -> (r: bool)
    ensures
        song::songs(final(items)@) == deduped(
            song::songs(old(items)@),
            *old(current) as int,
            set@,
        ),
        *final(current) == *old(current) - dropped_before(
            song::songs(old(items)@),
            *old(current) as int,
            set@,
        ),
        *final(played_from) == *old(played_from) - dropped_before(
            song::songs(old(items)@),
            if *old(played_from) < *old(current) {
                *old(played_from) as int
            } else {
                *old(current) as int
            },
            set@,
        ),
        r == (final(items)@.len() != old(items)@.len()),
{
    let ghost all = song::songs(items@);
    let before: usize = items.len();
    let cur: usize = *current;
    let from: usize = if *played_from < cur { *played_from } else { cur };
    let front: usize = if cur < before { cur } else { before };
    let run: usize = if from < before { from } else { before };
    let gone: usize = count_first(items, front, set);
    let run_gone: usize = count_first(items, run, set);
    assert(front == before ==> all.take(front as int) =~= all);
    assert(run == before ==> all.take(run as int) =~= all);
    if cur < before {
        let mut tail = items.split_off(cur + 1);
        let playing = items.pop();
        assert(playing is Some);
        let ghost head = song::songs(items@);
        assert(head =~= all.take(cur as int));
        retain_from(items, 0, Keep::Outside(set));
        assert(head.skip(0) =~= head);
        assert(song::songs(items@) =~= all.take(cur as int).filter(outside(set@)));
        if let Some(s) = playing {
            items.push(s);
        }
        let ghost rest = song::songs(tail@);
        retain_from(&mut tail, 0, Keep::Outside(set));
        assert(rest.skip(0) =~= rest);
        assert(rest =~= all.skip(cur + 1));
        assert(song::songs(tail@) =~= all.skip(cur + 1).filter(outside(set@)));
        song::append_songs(items, tail);
    } else {
        retain_from(items, 0, Keep::Outside(set));
        assert(all.skip(0) =~= all);
        assert(song::songs(items@) =~= all.filter(outside(set@)));
    }
    *current = cur - gone;
    *played_from = *played_from - run_gone;
    items.len() != before
}

// --- radio --------------------------------------------------------------------------------

/// The tracks of `list` whose id is neither in `seen` nor that of an earlier track of `list`.
pub open spec fn novel(seen: Set<Seq<char>>, list: Seq<SongView>) -> Seq<SongView>
    decreases list.len(),
{
    if list.len() == 0 {
        Seq::empty()
    } else {
        let before = novel(seen, list.drop_last());
        if seen.contains(list.last().video_id) || ids(list.drop_last()).contains(
            list.last().video_id,
        ) {
            before
        } else {
            before.push(list.last())
        }
    }
}

/// What is new is in the list, and its id was not seen.
pub proof fn lemma_novel_is_new(seen: Set<Seq<char>>, list: Seq<SongView>, s: SongView)
    requires
        novel(seen, list).contains(s),
    ensures
        !seen.contains(s.video_id),
        list.contains(s),
    decreases list.len(),
{
    let i = novel(seen, list).index_of(s);
    let before = novel(seen, list.drop_last());
    if i < before.len() && before[i] == s {
        lemma_novel_is_new(seen, list.drop_last(), s);
        let j = list.drop_last().index_of(s);
        assert(list[j] == s);
    } else {
        assert(list[list.len() - 1] == s);
    }
}

/// Nothing new occurs twice.
pub proof fn lemma_novel_is_distinct(seen: Set<Seq<char>>, list: Seq<SongView>)
    ensures
        ids(novel(seen, list)).no_duplicates(),
    decreases list.len(),
{
    if list.len() > 0 {
        let before = novel(seen, list.drop_last());
        lemma_novel_is_distinct(seen, list.drop_last());
        let whole = novel(seen, list);
        assert forall|i: int, j: int| 0 <= i < j < whole.len() implies ids(whole)[i] != ids(
            whole,
        )[j] by {
            if j < before.len() {
                assert(ids(before)[i] != ids(before)[j]);
            } else {
                let s = before[i];
                assert(before.contains(s));
                lemma_novel_is_new(seen, list.drop_last(), s);
                let k = list.drop_last().index_of(s);
                assert(ids(list.drop_last())[k] == s.video_id);
            }
        }
    }
}

/// Appends the tracks of `list` that `seen` does not hold yet, each id once.
pub fn append_novel(items: &mut Vec<SongItem>, seen: IdSet, list: Vec<SongItem>)
    ensures
        song::songs(final(items)@) == song::songs(old(items)@) + novel(
            seen@,
            song::songs(list@),
        ),
{
    let mut known = seen;
    let ghost front = song::songs(items@);
    let ghost given = list@;
    let ghost all = song::songs(list@);
    assert(all.take(0) =~= Seq::<SongView>::empty());
    assert(ids(all.take(0)).to_set() =~= Set::<Seq<char>>::empty());
    assert(known@ =~= seen@.union(id_set(all.take(0))));
    assert(front =~= front + novel(seen@, all.take(0)));
    for s in it: list
        invariant
            it.seq() == given,
            all == song::songs(given),
            known@ == seen@.union(id_set(all.take(it.index()))),
            song::songs(items@) == front + novel(seen@, all.take(it.index())),
    {
        let ghost k = it.index();
        proof {
            assert(all.take(k + 1) =~= all.take(k).push(s@));
            assert(all.take(k + 1).drop_last() =~= all.take(k));
            lemma_id_set_push(all.take(k), s@);
            assert(seen@.union(id_set(all.take(k + 1))) =~= seen@.union(id_set(all.take(k))).insert(
                s@.video_id,
            ));
        }
        if known.insert(s.video_id.clone()) {
            let ghost kept = novel(seen@, all.take(k));
            items.push(s);
            assert((front + kept).push(s@) =~= front + kept.push(s@));
        }
    }
    assert(all.take(all.len() as int) =~= all);
}

/// A track marked as autoplay filler.
pub open spec fn as_filler(s: SongView) -> SongView {
    SongView { autoplay: true, ..s }
}

/// The tracks of a list, each marked as autoplay filler.
pub open spec fn all_filler(list: Seq<SongView>) -> Seq<SongView> {
    Seq::new(list.len(), |i: int| as_filler(list[i]))
}

/// The first `cap` tracks of a list.
pub open spec fn at_most(list: Seq<SongView>, cap: int) -> Seq<SongView> {
    if list.len() <= cap {
        list
    } else {
        list.take(cap)
    }
}

/// What autoplay appends: the tracks that are new to the queue, at most `cap` of them, marked.
pub open spec fn continuation(
    existing: Set<Seq<char>>,
    fresh: Seq<SongView>,
    cap: int,
) -> Seq<SongView> {
    all_filler(at_most(novel(existing, fresh), cap))
}

/// Appends radio-continuation tracks to the queue: each id once and none that is in `existing`,
/// at most `cap` of them, each marked as autoplay filler. Answers how many were appended.
pub fn merge_radio(
    items: &mut Vec<SongItem>,
    fresh: Vec<SongItem>,
    existing: IdSet,
    cap: usize,
) -> (r: usize)
    ensures
        song::songs(final(items)@) == song::songs(old(items)@) + continuation(
            existing@,
            song::songs(fresh@),
            cap as int,
        ),
        r == continuation(existing@, song::songs(fresh@), cap as int).len(),
{
    let mut known = existing;
    let ghost seen = existing@;
    let ghost front = song::songs(items@);
    let ghost given = fresh@;
    let ghost all = song::songs(fresh@);
    let mut added: usize = 0;
    assert(all.take(0) =~= Seq::<SongView>::empty());
    assert(ids(all.take(0)).to_set() =~= Set::<Seq<char>>::empty());
    assert(known@ =~= seen.union(id_set(all.take(0))));
    assert(front =~= front + all_filler(at_most(novel(seen, all.take(0)), cap as int)));
    for item in it: fresh
        invariant
            it.seq() == given,
            all == song::songs(given),
            added <= cap,
            added < cap ==> known@ == seen.union(id_set(all.take(it.index()))),
            added == at_most(novel(seen, all.take(it.index())), cap as int).len(),
            song::songs(items@) == front + all_filler(
                at_most(novel(seen, all.take(it.index())), cap as int),
            ),
    {
        let mut s = item;
        let ghost k = it.index();
        let ghost kept = novel(seen, all.take(k));
        let ghost was = s@;
        proof {
            assert(all.take(k + 1) =~= all.take(k).push(s@));
            assert(all.take(k + 1).drop_last() =~= all.take(k));
            lemma_id_set_push(all.take(k), s@);
            assert(seen.union(id_set(all.take(k + 1))) =~= seen.union(id_set(all.take(k))).insert(
                s@.video_id,
            ));
            assert(kept.len() >= cap ==> at_most(kept.push(was), cap as int) =~= at_most(
                kept,
                cap as int,
            ));
        }
        if added < cap && known.insert(s.video_id.clone()) {
            s.autoplay = true;
            assert(s@ =~= as_filler(was));
            items.push(s);
            added = added + 1;
            assert((front + all_filler(kept)).push(as_filler(was)) =~= front + all_filler(
                kept.push(was),
            ));
        }
    }
    assert(all.take(all.len() as int) =~= all);
    added
}

// --- un-shuffling -------------------------------------------------------------------------

/// Where the playing track stands in the restored order: at its first copy there; at the
/// fallback, kept within the list, where it has none.
pub open spec fn restored_index(orig: Seq<SongView>, playing: Seq<char>, fallback: int) -> int {
    match ids(orig).index_of_first(playing) {
        Some(i) => i,
        None => if orig.len() == 0 {
            0
        } else if fallback < orig.len() {
            fallback
        } else {
            orig.len() - 1
        },
    }
}

/// The restored order: the snapshot through the playing track, then what is still unheard of
/// the rest, the manual adds first.
pub open spec fn restored(
    orig: Seq<SongView>,
    heard: Set<Seq<char>>,
    index: int,
) -> Seq<SongView> {
    let rest = upcoming(orig, index).filter(outside(heard));
    through(orig, index) + rest.filter(by_hand()) + rest.filter(not_by_hand())
}

/// The index of the first track with this id.
pub fn position(items: &Vec<SongItem>, id: &str) -> (r: Option<usize>)
    ensures
        opt_index(r) == ids(song::songs(items@)).index_of_first(id@),
{
    let ghost list = ids(song::songs(items@));
    for i in 0..items.len()
        invariant
            list == ids(song::songs(items@)),
            forall|j: int| 0 <= j < i ==> list[j] != id@,
    {
        assert(list[i as int] == items@[i as int].video_id@);
        if crate::text::same(items[i].video_id.as_str(), id) {
            proof {
                list.index_of_first_ensures(id@);
                assert(list.contains(id@));
            }
            return Some(i);
        }
    }
    proof {
        list.index_of_first_ensures(id@);
    }
    None
}

/// Un-shuffles: restores the snapshot, finds the playing track in it, then drops from what is
/// still upcoming anything that the shuffle already played. Heard tracks behind the playing one
/// stay. The manual adds go back to the boundary, in order, ahead of the rest.
pub fn unshuffled(
    orig: Vec<SongItem>,
    heard: &IdSet,
    playing_id: &str,
    fallback: usize,
) -> (r: (Vec<SongItem>, usize))
    ensures
        r.1 == restored_index(song::songs(orig@), playing_id@, fallback as int),
        song::songs(r.0@) == restored(song::songs(orig@), heard@, r.1 as int),
{
    let ghost all = song::songs(orig@);
    let idx: usize = match position(&orig, playing_id) {
        Some(i) => i,
        None => if orig.len() == 0 {
            0
        } else if fallback < orig.len() {
            fallback
        } else {
            orig.len() - 1
        },
    };
    proof {
        ids(all).index_of_first_ensures(playing_id@);
        assert(ids(all).len() == orig@.len());
        assert(idx < orig@.len() || idx == 0);
    }
    let mut items = orig;
    let at: usize = if idx < items.len() { idx + 1 } else { items.len() };
    let mut queued = items.split_off(at);
    let ghost tail = song::songs(queued@);
    assert(song::songs(items@) =~= through(all, idx as int));
    assert(tail =~= upcoming(all, idx as int));
    retain_from(&mut queued, 0, Keep::Outside(heard));
    let ghost unheard = tail.filter(outside(heard@));
    assert(tail.skip(0) =~= tail);
    assert(song::songs(queued@) =~= unheard);
    let mut rest = song::copy_songs(&queued);
    retain_from(&mut queued, 0, Keep::ByHand);
    retain_from(&mut rest, 0, Keep::NotByHand);
    assert(unheard.skip(0) =~= unheard);
    assert(song::songs(queued@) =~= unheard.filter(by_hand()));
    assert(song::songs(rest@) =~= unheard.filter(not_by_hand()));
    song::append_songs(&mut items, queued);
    song::append_songs(&mut items, rest);
    (items, idx)
}

// --- what these rules are for -------------------------------------------------------------

/// What plays next is the track behind the current one. Behind the last one nothing plays, except
/// that repeat-all starts over; repeating one track never moves on by itself at the end.
pub proof fn law_next_is_the_following_track(len: int, current: int, repeat: RepeatMode)
    requires
        0 <= current < len,
    ensures
        current + 1 < len ==> next_of(len, current, repeat) == Some(current + 1),
        current + 1 == len ==> next_of(len, current, repeat) == match repeat {
            RepeatMode::All => Some(0int),
            _ => None,
        },
        next_of(0, current, repeat) is None,
{
}

/// Everything of a list whose id was not seen is new, under the first copy of its id, and what is
/// new keeps the order of the list. Answers where the track with the id of `list[k]` stands.
pub proof fn law_radio_brings_everything_new(
    seen: Set<Seq<char>>,
    list: Seq<SongView>,
    k: int,
) -> (j: int)
    requires
        0 <= k < list.len(),
        !seen.contains(list[k].video_id),
    ensures
        0 <= j < novel(seen, list).len(),
        novel(seen, list)[j].video_id == list[k].video_id,
        (forall|i: int| 0 <= i < k ==> #[trigger] list[i].video_id != list[k].video_id) ==> novel(
            seen,
            list,
        )[j] == list[k],
    decreases list.len(),
{
    let front = list.drop_last();
    let before = novel(seen, front);
    if k < front.len() {
        let j = law_radio_brings_everything_new(seen, front, k);
        assert(novel(seen, list)[j] == before[j]);
        if forall|i: int| 0 <= i < k ==> #[trigger] list[i].video_id != list[k].video_id {
            assert forall|i: int| 0 <= i < k implies #[trigger] front[i].video_id
                != front[k].video_id by {
                assert(list[i].video_id != list[k].video_id);
            }
        }
        j
    } else if ids(front).contains(list[k].video_id) {
        let m = ids(front).index_of(list[k].video_id);
        let j = law_radio_brings_everything_new(seen, front, m);
        assert(novel(seen, list)[j] == before[j]);
        assert(list[m].video_id == list[k].video_id);
        j
    } else {
        before.len() as int
    }
}

/// The new tracks come in the order of the list: of two of them, the one whose id comes first in
/// the list comes first.
pub proof fn law_new_tracks_keep_their_order(seen: Set<Seq<char>>, list: Seq<SongView>)
    ensures
        novel(seen, list) == list.filter(outside(seen)) || exists|i: int, j: int|
            0 <= i < j < list.len() && #[trigger] list[i].video_id
                == #[trigger] list[j].video_id,
    decreases list.len(),
{
    reveal(Seq::filter);
    if list.len() > 0 {
        let front = list.drop_last();
        law_new_tracks_keep_their_order(seen, front);
        if novel(seen, front) == front.filter(outside(seen)) {
            if ids(front).contains(list.last().video_id) {
                let i = ids(front).index_of(list.last().video_id);
                assert(list[i].video_id == list[list.len() - 1].video_id);
            }
        } else {
            let (i, j) = choose|i: int, j: int|
                0 <= i < j < front.len() && #[trigger] front[i].video_id
                    == #[trigger] front[j].video_id;
            assert(list[i].video_id == list[j].video_id);
        }
    }
}

/// What autoplay appends are the first new tracks of the continuation: all of them where they are
/// no more than the bound, and the bound's number where they are. Each is marked as filler and is
/// otherwise as it came.
pub proof fn law_autoplay_takes_the_first_new_tracks(
    existing: Set<Seq<char>>,
    fresh: Seq<SongView>,
    cap: int,
)
    requires
        0 <= cap,
    ensures
        ({
            let more = continuation(existing, fresh, cap);
            let new = novel(existing, fresh);
            &&& more.len() == if new.len() <= cap {
                new.len() as int
            } else {
                cap
            }
            &&& forall|i: int|
                0 <= i < more.len() ==> {
                    &&& (#[trigger] more[i]).autoplay
                    &&& SongView { autoplay: new[i].autoplay, ..more[i] } == new[i]
                }
        }),
{
}

} // verus!
