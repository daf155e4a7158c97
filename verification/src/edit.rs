//! Edits of a queue that is already playing: pages, manual adds, removals, moves, shuffle.

use crate::order;
use crate::order::IdSet;
use crate::order::Keep;
use crate::queue;
use crate::queue::QueueState;
use crate::queue::QueueView;
use crate::shuffle;
use crate::song;
use crate::song::SongItem;
use crate::song::SongView;
use crate::text;
use vstd::prelude::*;

verus! {

broadcast use crate::song::group_songs;

// --- the primed track ---------------------------------------------------------------------

/// The queue without a primed track that is no longer what plays next.
pub open spec fn retargeted(q: QueueView) -> QueueView {
    if q.lookahead_loaded is Some && q.lookahead_loaded != q.next() {
        QueueView { lookahead_loaded: None, ..q }
    } else {
        q
    }
}

/// Whether two optional indices are the same.
fn same_index(a: Option<usize>, b: Option<usize>) -> (r: bool)
    ensures
        r == (order::opt_index(a) == order::opt_index(b)),
{
    match (a, b) {
        (Some(x), Some(y)) => x == y,
        (None, None) => true,
        _ => false,
    }
}

impl QueueState {
    /// Forgets the primed track where it is no longer what plays next. Answers whether it did,
    /// in which case the player holds an entry to clear.
    pub fn retarget_lookahead(&mut self) -> (r: bool)
        ensures
            final(self)@ == retargeted(old(self)@),
            r == (old(self)@.lookahead_loaded is Some && old(self)@.lookahead_loaded
                != old(self)@.next()),
    {
        if self.lookahead_loaded.is_some() && !same_index(self.lookahead_loaded, self.next()) {
            self.lookahead_loaded = None;
            assert(self@ =~= retargeted(old(self)@));
            true
        } else {
            false
        }
    }

    /// Forgets the primed track. Answers whether there was one.
    pub fn drop_lookahead(&mut self) -> (r: bool)
        ensures
            final(self)@ == (QueueView { lookahead_loaded: None, ..old(self)@ }),
            r == (old(self)@.lookahead_loaded is Some),
    {
        let had: bool = self.lookahead_loaded.is_some();
        self.lookahead_loaded = None;
        assert(self@ =~= (QueueView { lookahead_loaded: None, ..old(self)@ }));
        had
    }
}

// --- pages of a playlist ------------------------------------------------------------------

/// The order to come back to, with more tracks behind it.
pub open spec fn grown(
    orig: Option<Seq<SongView>>,
    more: Seq<SongView>,
) -> Option<Seq<SongView>> {
    match orig {
        Some(list) => Some(list + more),
        None => None,
    }
}

/// Where the unplayed tail starts: behind the primed track where one waits ahead, else behind
/// the playing one.
pub open spec fn pivot(q: QueueView) -> int {
    match q.lookahead_loaded {
        Some(i) => if i > q.current {
            i
        } else {
            q.current
        },
        None => q.current,
    }
}

/// Whether `after` is `before` once a page has been added to it.
pub open spec fn is_page_appended(
    before: QueueView,
    after: QueueView,
    page: Seq<SongView>,
    playing: bool,
) -> bool {
    &&& after == QueueView {
        items: after.items,
        shuffle_orig: grown(before.shuffle_orig, page),
        ..before
    }
    &&& if !playing {
        after.items == order::spliced(
            before.items,
            order::add_slot(before.items, before.current),
            page,
        )
    } else if before.shuffle_orig is Some {
        shuffle::is_shuffle(before.items + page, after.items, pivot(before))
    } else {
        after.items == before.items + page
    }
}

/// Adds a page of a playlist to a queue that is already playing. The page goes onto the order to
/// come back to as well. A page of the playing list goes to the tail and, with shuffle on, is
/// mixed through what is unplayed behind the primed track; a page of a list that was added by
/// hand joins the manual block and keeps its order.
pub fn append_page(q: &mut QueueState, page: Vec<SongItem>, playing: bool)
    ensures
        is_page_appended(old(q)@, final(q)@, song::songs(page@), playing),
        old(q)@.valid() && old(q)@.items.len() > 0 ==> final(q)@.valid(),
{
    let ghost before = q@;
    let ghost given = song::songs(page@);
    let copy = song::copy_songs(&page);
    match &mut q.shuffle_orig {
        Some(orig) => {
            song::append_songs(orig, copy);
        },
        None => {},
    }
    if playing {
        song::append_songs(&mut q.items, page);
        if q.shuffle_orig.is_some() {
            let p: usize = match q.lookahead_loaded {
                Some(i) => if i > q.current {
                    i
                } else {
                    q.current
                },
                None => q.current,
            };
            shuffle::shuffle_upcoming(&mut q.items, p);
        }
    } else {
        let at: usize = queue::enqueue_at(q);
        order::splice(&mut q.items, at, page);
    }
    assert(q@ =~= (QueueView {
        items: q@.items,
        shuffle_orig: grown(before.shuffle_orig, given),
        ..before
    }));
}

/// A page of the playing list leaves everything through the primed track where it is, so what
/// the player plays next is still what the queue says is next; and nothing is lost or doubled.
pub proof fn law_page_leaves_the_primed_slot(
    before: QueueView,
    after: QueueView,
    page: Seq<SongView>,
)
    requires
        before.valid(),
        is_page_appended(before, after, page, true),
        before.lookahead_loaded is Some ==> 0 <= before.lookahead_loaded->0 < before.items.len(),
        before.items.len() > 0,
    ensures
        after.items.take(pivot(before) + 1) == before.items.take(pivot(before) + 1),
        shuffle::same_songs(after.items, before.items + page),
{
    let base = before.items + page;
    let p = pivot(before);
    if before.shuffle_orig is Some {
        shuffle::law_shuffle_is_a_permutation(base, after.items, p);
        assert(order::boundary(base, p) == p + 1);
        assert(base.take(p + 1) =~= before.items.take(p + 1));
    } else {
        assert(base.take(p + 1) =~= before.items.take(p + 1));
    }
}

// --- manual adds --------------------------------------------------------------------------

/// A track marked as queued by hand.
pub open spec fn marked(s: SongView, next: bool, from: Option<Seq<char>>) -> SongView {
    SongView { queued: next, queued_end: !next, queued_from: from, ..s }
}

/// The tracks of a list, each marked as queued by hand.
pub open spec fn all_marked(
    list: Seq<SongView>,
    next: bool,
    from: Option<Seq<char>>,
) -> Seq<SongView> {
    Seq::new(list.len(), |i: int| marked(list[i], next, from))
}

/// Marks tracks as queued by hand: with "Play next", or with "Add to queue".
pub fn mark_queued(items: &mut Vec<SongItem>, next: bool, from: &Option<String>)
    ensures
        song::songs(final(items)@) == all_marked(
            song::songs(old(items)@),
            next,
            text::opt_text(*from),
        ),
{
    let ghost all = song::songs(items@);
    let ghost done = all_marked(all, next, text::opt_text(*from));
    let n: usize = items.len();
    for i in 0..n
        invariant
            n == items@.len(),
            n == all.len(),
            done == all_marked(all, next, text::opt_text(*from)),
            song::songs(items@) == done.take(i as int) + all.skip(i as int),
    {
        let ghost was = song::songs(items@);
        assert(was[i as int] == all[i as int]);
        items[i].queued = next;
        items[i].queued_end = !next;
        items[i].queued_from = text::copy_opt(from);
        assert(items@[i as int]@ =~= done[i as int]);
        assert(song::songs(items@) =~= was.update(i as int, done[i as int]));
        assert(song::songs(items@) =~= done.take(i + 1) + all.skip(i + 1));
    }
    assert(song::songs(items@) =~= done);
}

/// The queue without the copies that an add of the ids `set` moves: with `dedupe` every copy but
/// the playing track, and always the copies waiting in the manual block. Where any went, what is
/// no longer in the queue leaves the order to come back to as well.
pub open spec fn swept(q: QueueView, set: Set<Seq<char>>, dedupe: bool) -> QueueView {
    let items = if dedupe {
        order::deduped(q.items, q.current, set)
    } else {
        q.items
    };
    let current = if dedupe {
        q.current - order::dropped_before(q.items, q.current, set)
    } else {
        q.current
    };
    let run = if q.played_from < q.current {
        q.played_from
    } else {
        q.current
    };
    let left = order::through(items, current) + order::upcoming(items, current).filter(
        order::not_waiting(set),
    );
    QueueView {
        items: left,
        current,
        played_from: if dedupe {
            q.played_from - order::dropped_before(q.items, run, set)
        } else {
            q.played_from
        },
        shuffle_orig: if left.len() == q.items.len() {
            q.shuffle_orig
        } else {
            match q.shuffle_orig {
                Some(orig) => Some(orig.filter(order::within(order::id_set(left)))),
                None => None,
            }
        },
        ..q
    }
}

/// Where a manual add lands in a queue.
pub open spec fn slot(q: QueueView, next: bool) -> int {
    if next {
        order::play_next_slot(q.items, q.current)
    } else {
        order::add_slot(q.items, q.current)
    }
}

/// The queue once a manual add has been made. `adds` are the marked tracks in the order they
/// were given, `block` the order they play in. The primed track is forgotten where what plays
/// next has moved or is another track.
pub open spec fn with_adds(
    q: QueueView,
    set: Set<Seq<char>>,
    adds: Seq<SongView>,
    block: Seq<SongView>,
    next: bool,
    dedupe: bool,
) -> QueueView {
    let left = swept(q, set, dedupe);
    let items = order::spliced(left.items, slot(left, next), block);
    let stale = {
        ||| left.items.len() != q.items.len()
        ||| q.lookahead_loaded != order::next_of(items.len() as int, left.current, q.repeat)
        ||| queue::id_at(q.items, q.current + 1) != queue::id_at(items, left.current + 1)
    };
    QueueView {
        items,
        shuffle_orig: grown(left.shuffle_orig, adds),
        lookahead_loaded: if stale {
            None
        } else {
            q.lookahead_loaded
        },
        ..left
    }
}

/// Whether `block` is an order in which a manual add may play: the order it was made in, except
/// that what came from an album or playlist is shuffled while shuffle is on.
pub open spec fn is_add_order(
    q: QueueView,
    adds: Seq<SongView>,
    block: Seq<SongView>,
    from: Option<Seq<char>>,
) -> bool {
    if q.shuffle_orig is Some && from is Some {
        shuffle::same_songs(adds, block)
    } else {
        block == adds
    }
}

impl QueueState {
    /// Takes out the copies that an add of the ids `set` moves. Answers whether any went.
    fn sweep_copies(&mut self, set: &IdSet, dedupe: bool) -> (r: bool)
        ensures
            final(self)@ == swept(old(self)@, set@, dedupe),
            r == (final(self)@.items.len() != old(self)@.items.len()),
    {
        let ghost before = self@;
        let n: usize = self.items.len();
        if dedupe {
            let _ = order::drop_duplicates(
                &mut self.items,
                &mut self.current,
                &mut self.played_from,
                set,
            );
        }
        let at: usize = if self.current < self.items.len() {
            self.current + 1
        } else {
            self.items.len()
        };
        order::retain_from(&mut self.items, at, Keep::NotWaiting(set));
        let removed: bool = self.items.len() != n;
        let kept = order::ids_of(&self.items);
        if removed {
            match &mut self.shuffle_orig {
                Some(orig) => {
                    let ghost was = song::songs(orig@);
                    order::retain_from(orig, 0, Keep::Within(&kept));
                    assert(was.skip(0) =~= was);
                    assert(song::songs(orig@) =~= was.filter(order::within(kept@)));
                },
                None => {},
            }
        }
        assert(self@ =~= swept(before, set@, dedupe));
        removed
    }

    /// Makes a manual add whose tracks play in the order `block`. Answers whether the player
    /// holds a primed entry to clear.
    pub fn insert_block(
        &mut self,
        set: &IdSet,
        adds: Vec<SongItem>,
        block: Vec<SongItem>,
        next: bool,
        dedupe: bool,
    ) -> (r: bool)
        ensures
            final(self)@ == with_adds(
                old(self)@,
                set@,
                song::songs(adds@),
                song::songs(block@),
                next,
                dedupe,
            ),
            r == (old(self)@.lookahead_loaded is Some && final(self)@.lookahead_loaded is None),
    {
        let ghost before = self@;
        let ghost given = song::songs(adds@);
        let ghost order = song::songs(block@);
        let was = self.next_id();
        let removed: bool = self.sweep_copies(set, dedupe);
        let ghost left = self@;
        let at: usize = if next {
            order::guest_insert_index(self.items.as_slice(), self.current)
        } else {
            order::enqueue_index(&self.items, self.current)
        };
        match &mut self.shuffle_orig {
            Some(orig) => {
                song::append_songs(orig, adds);
            },
            None => {},
        }
        order::splice(&mut self.items, at, block);
        let now = self.next_id();
        let stale: bool = self.lookahead_loaded.is_some() && (removed || !same_index(
            self.lookahead_loaded,
            self.next(),
        ) || !text::same_opt(&was, &now));
        if stale {
            self.lookahead_loaded = None;
        }
        assert(self@ =~= with_adds(before, set@, given, order, next, dedupe));
        stale
    }

    /// Makes a manual add: splices a block of tracks into the queue, marked as queued by hand.
    /// "Play next" goes to the front of the manual block, behind earlier ones; "Add to queue"
    /// goes to its back. Answers whether the player holds a primed entry to clear.
    pub fn insert_adds(
        &mut self,
        items: Vec<SongItem>,
        next: bool,
        from: Option<String>,
        dedupe: bool,
    ) -> (r: bool)
        ensures
            exists|block: Seq<SongView>| #[trigger]
                is_add_order(
                    old(self)@,
                    all_marked(song::songs(items@), next, text::opt_text(from)),
                    block,
                    text::opt_text(from),
                ) && final(self)@ == with_adds(
                    old(self)@,
                    order::id_set(song::songs(items@)),
                    all_marked(song::songs(items@), next, text::opt_text(from)),
                    block,
                    next,
                    dedupe,
                ),
            r == (old(self)@.lookahead_loaded is Some && final(self)@.lookahead_loaded is None),
    {
        let set = order::ids_of(&items);
        let mut adds = items;
        mark_queued(&mut adds, next, &from);
        let mut block = song::copy_songs(&adds);
        if self.shuffle_orig.is_some() && from.is_some() {
            let n: usize = block.len();
            let ghost was = song::songs(block@);
            shuffle::shuffle_between(&mut block, 0, n);
            assert(was.subrange(0, n as int) =~= was);
            assert(song::songs(block@).subrange(0, n as int) =~= song::songs(block@));
        }
        assert(is_add_order(
            self@,
            all_marked(song::songs(items@), next, text::opt_text(from)),
            song::songs(block@),
            text::opt_text(from),
        ));
        self.insert_block(&set, adds, block, next, dedupe)
    }
}

// --- removing, moving, clearing -----------------------------------------------------------

/// Whether the track at an index can be taken out: it is there and is not the playing one.
pub open spec fn removable(q: QueueView, index: int) -> bool {
    0 <= index < q.items.len() && index != q.current
}

/// The queue without the track at an index. The pointer, the played run and the primed index
/// follow their own tracks; a primed track that is taken out is forgotten.
pub open spec fn without(q: QueueView, index: int) -> QueueView {
    if removable(q, index) {
        QueueView {
            items: q.items.remove(index),
            current: if index < q.current {
                q.current - 1
            } else {
                q.current
            },
            played_from: if index < q.current && index < q.played_from {
                q.played_from - 1
            } else {
                q.played_from
            },
            lookahead_loaded: match q.lookahead_loaded {
                Some(i) => if i == index {
                    None
                } else if i > index {
                    Some(i - 1)
                } else {
                    Some(i)
                },
                None => None,
            },
            ..q
        }
    } else {
        q
    }
}

/// An index of a drag, clamped past the playing track.
pub open spec fn clamped(q: QueueView, index: int) -> int {
    if index > q.current {
        index
    } else {
        q.current + 1
    }
}

/// Whether a drag from one index to another moves anything: clamped past the playing track, both
/// are within the queue, and differ.
pub open spec fn movable(q: QueueView, from: int, to: int) -> bool {
    &&& clamped(q, from) < q.items.len()
    &&& clamped(q, to) < q.items.len()
    &&& clamped(q, from) != clamped(q, to)
}

/// The list with the track at `from` taken out and put in at `to`.
pub open spec fn rearranged(items: Seq<SongView>, from: int, to: int) -> Seq<SongView> {
    items.remove(from).insert(to, items[from])
}

/// The queue once a track has been dragged, each index clamped past the playing track. The primed
/// track is forgotten where what plays next is another one.
pub open spec fn moved(q: QueueView, from: int, to: int) -> QueueView {
    if movable(q, from, to) {
        let items = rearranged(q.items, clamped(q, from), clamped(q, to));
        let stale = q.lookahead_loaded != order::next_of(items.len() as int, q.current, q.repeat)
            || queue::id_at(q.items, q.current + 1) != queue::id_at(items, q.current + 1);
        QueueView {
            items,
            lookahead_loaded: if stale {
                None
            } else {
                q.lookahead_loaded
            },
            ..q
        }
    } else {
        q
    }
}

/// The list without the manual adds that are upcoming.
pub open spec fn unqueued(q: QueueView) -> Seq<SongView> {
    order::through(q.items, q.current) + order::upcoming(q.items, q.current).filter(
        order::not_by_hand(),
    )
}

/// The queue without the manual adds that are upcoming. Where there were none, nothing changes.
pub open spec fn cleared(q: QueueView) -> QueueView {
    if unqueued(q).len() == q.items.len() {
        q
    } else {
        QueueView { items: unqueued(q), lookahead_loaded: None, ..q }
    }
}

impl QueueState {
    /// Takes the track at an index out. `None` where it cannot be; else whether it was the
    /// primed one, which the player then still holds.
    pub fn remove_at(&mut self, index: usize) -> (r: Option<bool>)
        ensures
            final(self)@ == without(old(self)@, index as int),
            r is Some == removable(old(self)@, index as int),
            r is Some ==> r->0 == (old(self)@.lookahead_loaded == Some(index as int)),
    {
        let ghost before = self@;
        if index >= self.items.len() || index == self.current {
            return None;
        }
        let _ = self.items.remove(index);
        if index < self.current {
            self.current = self.current - 1;
            if index < self.played_from {
                self.played_from = self.played_from - 1;
            }
        }
        let stale: bool = match self.lookahead_loaded {
            Some(i) => {
                if i == index {
                    self.lookahead_loaded = None;
                    true
                } else {
                    if i > index {
                        self.lookahead_loaded = Some(i - 1);
                    }
                    false
                }
            },
            None => false,
        };
        assert(self@ =~= without(before, index as int));
        Some(stale)
    }

    /// Drags the upcoming track at `from` to the upcoming place `to`, each clamped past the playing
    /// track. `None` where nothing moves; else whether the player holds a primed entry to clear.
    pub fn drag(&mut self, from: usize, to: usize) -> (r: Option<bool>)
        ensures
            final(self)@ == moved(old(self)@, from as int, to as int),
            r is Some == movable(old(self)@, from as int, to as int),
            r is Some ==> r->0 == (old(self)@.lookahead_loaded is Some
                && final(self)@.lookahead_loaded is None),
    {
        let ghost before = self@;
        let n: usize = self.items.len();
        if self.current >= n {
            return None;
        }
        let first: usize = self.current + 1;
        let a: usize = if from > first {
            from
        } else {
            first
        };
        let b: usize = if to > first {
            to
        } else {
            first
        };
        if a >= n || b >= n || a == b {
            return None;
        }
        let was = self.next_id();
        let item = self.items.remove(a);
        self.items.insert(b, item);
        assert(song::songs(self.items@) =~= rearranged(before.items, a as int, b as int));
        let now = self.next_id();
        let stale: bool = self.lookahead_loaded.is_some() && (!same_index(
            self.lookahead_loaded,
            self.next(),
        ) || !text::same_opt(&was, &now));
        if stale {
            self.lookahead_loaded = None;
        }
        assert(self@ =~= moved(before, from as int, to as int));
        Some(stale)
    }

    /// Takes out every upcoming track that was queued by hand. `None` where there was none;
    /// else whether the player holds a primed entry to clear.
    pub fn clear_adds(&mut self) -> (r: Option<bool>)
        ensures
            final(self)@ == cleared(old(self)@),
            r is Some == (unqueued(old(self)@).len() != old(self)@.items.len()),
            r is Some ==> r->0 == (old(self)@.lookahead_loaded is Some),
    {
        let ghost before = self@;
        let n: usize = self.items.len();
        let at: usize = if self.current < n {
            self.current + 1
        } else {
            n
        };
        order::retain_from(&mut self.items, at, Keep::NotByHand);
        assert(song::songs(self.items@) =~= unqueued(before));
        if self.items.len() == n {
            proof {
                lemma_whole_filter(
                    order::upcoming(before.items, before.current),
                    order::not_by_hand(),
                );
                assert(unqueued(before) =~= before.items);
                assert(self@ =~= before);
            }
            return None;
        }
        let had: bool = self.drop_lookahead();
        assert(self@ =~= cleared(before));
        Some(had)
    }
}

/// A filter that drops nothing keeps the list as it is.
pub proof fn lemma_whole_filter(list: Seq<SongView>, pred: spec_fn(SongView) -> bool)
    requires
        list.filter(pred).len() == list.len(),
    ensures
        list.filter(pred) == list,
    decreases list.len(),
{
    reveal(Seq::filter);
    if list.len() > 0 {
        list.drop_last().lemma_filter_len(pred);
        lemma_whole_filter(list.drop_last(), pred);
        assert(list =~= list.drop_last().push(list.last()));
    }
}

// --- shuffle on and off -------------------------------------------------------------------

/// Whether `after` is `before` with shuffle switched. Switched off, the snapshot comes back
/// around the playing track, without what has been heard since. Switched on, the order is
/// remembered and what is upcoming is shuffled. An empty queue stays as it is.
pub open spec fn is_toggled(before: QueueView, after: QueueView) -> bool {
    if before.items.len() == 0 {
        after == before
    } else {
        match before.shuffle_orig {
            Some(orig) => {
                let index = order::restored_index(
                    orig,
                    before.items[before.current].video_id,
                    before.current,
                );
                after == QueueView {
                    items: order::restored(
                        orig,
                        order::id_set(order::through(before.items, before.current)),
                        index,
                    ),
                    current: index,
                    played_from: index,
                    shuffle_orig: None,
                    lookahead_loaded: None,
                    ..before
                }
            },
            None => {
                &&& after == QueueView {
                    items: after.items,
                    shuffle_orig: Some(before.items),
                    lookahead_loaded: None,
                    ..before
                }
                &&& shuffle::is_shuffle(before.items, after.items, before.current)
            },
        }
    }
}

impl QueueState {
    /// Switches shuffle. Answers whether the player holds a primed entry to clear.
    pub fn flip_shuffle(&mut self) -> (r: bool)
        requires
            old(self).items@.len() > 0 && old(self).shuffle_orig is Some ==> old(self).current
                < old(self).items@.len(),
        ensures
            is_toggled(old(self)@, final(self)@),
            r == (old(self)@.items.len() > 0 && old(self)@.lookahead_loaded is Some),
    {
        let ghost before = self@;
        if self.items.len() == 0 {
            return false;
        }
        match self.shuffle_orig.take() {
            Some(orig) => {
                let playing = self.items[self.current].video_id.clone();
                let heard = order::ids_of_first(&self.items, self.current + 1);
                assert(before.items.take(before.current + 1) =~= order::through(
                    before.items,
                    before.current,
                ));
                let (items, idx) = order::unshuffled(orig, &heard, playing.as_str(), self.current);
                self.items = items;
                self.current = idx;
                self.played_from = idx;
            },
            None => {
                self.shuffle_orig = Some(song::copy_songs(&self.items));
                let cur: usize = self.current;
                shuffle::shuffle_upcoming(&mut self.items, cur);
            },
        }
        let had: bool = self.drop_lookahead();
        proof {
            match before.shuffle_orig {
                Some(orig) => {
                    let index = order::restored_index(
                        orig,
                        before.items[before.current].video_id,
                        before.current,
                    );
                    assert(self@ =~= (QueueView {
                        items: order::restored(
                            orig,
                            order::id_set(order::through(before.items, before.current)),
                            index,
                        ),
                        current: index,
                        played_from: index,
                        shuffle_orig: None,
                        lookahead_loaded: None,
                        ..before
                    }));
                },
                None => {
                    assert(self@ =~= (QueueView {
                        items: self@.items,
                        shuffle_orig: Some(before.items),
                        lookahead_loaded: None,
                        ..before
                    }));
                },
            }
        }
        had
    }
}

/// A filter that every track passes keeps the list as it is.
pub proof fn lemma_filter_all(list: Seq<SongView>, pred: spec_fn(SongView) -> bool)
    requires
        forall|i: int| 0 <= i < list.len() ==> pred(#[trigger] list[i]),
    ensures
        list.filter(pred) == list,
    decreases list.len(),
{
    reveal(Seq::filter);
    if list.len() > 0 {
        assert forall|i: int| 0 <= i < list.drop_last().len() implies pred(
            #[trigger] list.drop_last()[i],
        ) by {
            assert(list.drop_last()[i] == list[i]);
        }
        lemma_filter_all(list.drop_last(), pred);
        assert(list =~= list.drop_last().push(list.last()));
    }
}

/// A filter that no track passes leaves nothing.
pub proof fn lemma_filter_none(list: Seq<SongView>, pred: spec_fn(SongView) -> bool)
    requires
        forall|i: int| 0 <= i < list.len() ==> !pred(#[trigger] list[i]),
    ensures
        list.filter(pred) == Seq::<SongView>::empty(),
    decreases list.len(),
{
    reveal(Seq::filter);
    if list.len() > 0 {
        assert forall|i: int| 0 <= i < list.drop_last().len() implies !pred(
            #[trigger] list.drop_last()[i],
        ) by {
            assert(list.drop_last()[i] == list[i]);
        }
        lemma_filter_none(list.drop_last(), pred);
    }
}

/// Switching shuffle off never interrupts: the playing track stays the playing one where the
/// snapshot holds it, nothing that was heard is offered again, and every manual add comes before
/// the rest of what is upcoming.
pub proof fn law_unshuffle_keeps_the_playing_track(before: QueueView, after: QueueView)
    requires
        before.valid(),
        before.items.len() > 0,
        before.shuffle_orig is Some,
        is_toggled(before, after),
    ensures
        after.valid(),
        order::ids(before.shuffle_orig->0).contains(before.items[before.current].video_id)
            ==> after.current < after.items.len() && after.items[after.current].video_id
            == before.items[before.current].video_id,
        forall|i: int, j: int|
            0 <= i <= before.current && after.current < j < after.items.len()
                ==> #[trigger] after.items[j].video_id != #[trigger] before.items[i].video_id,
        forall|i: int, j: int|
            after.current < i < j < after.items.len() && song::manual(#[trigger] after.items[j])
                ==> song::manual(#[trigger] after.items[i]),
{
    let orig = before.shuffle_orig->0;
    let playing = before.items[before.current].video_id;
    let heard = order::id_set(order::through(before.items, before.current));
    let index = order::restored_index(orig, playing, before.current);
    order::ids(orig).index_of_first_ensures(playing);
    let head = order::through(orig, index);
    let tail = order::upcoming(orig, index).filter(order::outside(heard));
    let adds = tail.filter(order::by_hand());
    let rest = tail.filter(order::not_by_hand());
    assert(after.items =~= head + adds + rest);
    assert(orig.len() > 0 ==> head.len() == index + 1);
    assert forall|j: int| after.current < j < after.items.len() implies !heard.contains(
        (#[trigger] after.items[j]).video_id,
    ) by {
        let s = after.items[j];
        if j < head.len() + adds.len() {
            let k = j - head.len();
            assert(adds[k] == s);
            tail.lemma_filter_contains_rev(order::by_hand(), s);
        } else {
            let k = j - head.len() - adds.len();
            assert(rest[k] == s);
            tail.lemma_filter_contains_rev(order::not_by_hand(), s);
        }
        assert(tail.contains(s));
        let k = tail.index_of(s);
        order::upcoming(orig, index).lemma_filter_pred(order::outside(heard), k);
    }
    assert forall|i: int, j: int|
        0 <= i <= before.current && after.current < j
            < after.items.len() implies #[trigger] after.items[j].video_id
        != #[trigger] before.items[i].video_id by {
        let list = order::ids(order::through(before.items, before.current));
        assert(list[i] == before.items[i].video_id);
        assert(list.contains(before.items[i].video_id));
    }
    assert forall|i: int, j: int|
        after.current < i < j < after.items.len() && song::manual(
            #[trigger] after.items[j],
        ) implies song::manual(#[trigger] after.items[i]) by {
        if j >= head.len() + adds.len() {
            let k = j - head.len() - adds.len();
            assert(rest[k] == after.items[j]);
            tail.lemma_filter_pred(order::not_by_hand(), k);
        }
        let k = i - head.len();
        assert(adds[k] == after.items[i]);
        tail.lemma_filter_pred(order::by_hand(), k);
    }
}

/// Where the manual adds of a list are its first `k` tracks, they are what the filter takes.
proof fn lemma_block_splits(list: Seq<SongView>, k: int)
    requires
        0 <= k <= list.len(),
        forall|i: int| 0 <= i < k ==> song::manual(#[trigger] list[i]),
        forall|i: int| k <= i < list.len() ==> !song::manual(#[trigger] list[i]),
    ensures
        list.filter(order::by_hand()) == list.take(k),
        list.filter(order::not_by_hand()) == list.skip(k),
    decreases list.len(),
{
    reveal(Seq::filter);
    if list.len() > 0 {
        let front = list.drop_last();
        if k < list.len() {
            lemma_block_splits(front, k);
            assert(front.take(k) =~= list.take(k));
            assert(front.skip(k).push(list.last()) =~= list.skip(k));
        } else {
            lemma_block_splits(front, k - 1);
            assert(front.take(k - 1).push(list.last()) =~= list.take(k));
            assert(front.skip(k - 1) =~= list.skip(k));
        }
    } else {
        assert(list.take(k) =~= list);
        assert(list.skip(k) =~= list);
    }
}

/// Where nothing comes twice, nothing that is upcoming has been heard.
proof fn lemma_upcoming_unheard(items: Seq<SongView>, cur: int)
    requires
        0 <= cur < items.len(),
        order::ids(items).no_duplicates(),
    ensures
        order::upcoming(items, cur).filter(
            order::outside(order::id_set(order::through(items, cur))),
        ) == order::upcoming(items, cur),
{
    let head = order::through(items, cur);
    let list = order::ids(items);
    let up = order::upcoming(items, cur);
    let heard = order::id_set(head);
    assert forall|i: int| 0 <= i < up.len() implies order::outside(heard)(#[trigger] up[i]) by {
        if heard.contains(up[i].video_id) {
            let k = order::ids(head).index_of(up[i].video_id);
            assert(list[k] == list[cur + 1 + i]);
        }
    }
    lemma_filter_all(up, order::outside(heard));
}

/// Manual adds that stand in one block come back in front of the rest, as they were.
proof fn lemma_upcoming_splits(items: Seq<SongView>, cur: int)
    requires
        0 <= cur < items.len(),
        forall|i: int|
            order::add_slot(items, cur) <= i < items.len() ==> !song::manual(#[trigger] items[i]),
    ensures
        cur < order::add_slot(items, cur) <= items.len(),
        order::upcoming(items, cur).filter(order::by_hand()) == order::upcoming(items, cur).take(
            order::add_slot(items, cur) - cur - 1,
        ),
        order::upcoming(items, cur).filter(order::not_by_hand()) == order::upcoming(
            items,
            cur,
        ).skip(order::add_slot(items, cur) - cur - 1),
{
    let up = order::upcoming(items, cur);
    let k = order::add_slot(items, cur) - cur - 1;
    order::lemma_run_end(items, cur + 1, order::by_hand());
    assert forall|i: int| 0 <= i < k implies song::manual(#[trigger] up[i]) by {
        assert(order::by_hand()(items[cur + 1 + i]));
    }
    assert forall|i: int| k <= i < up.len() implies !song::manual(#[trigger] up[i]) by {
        assert(up[i] == items[cur + 1 + i]);
    }
    lemma_block_splits(up, k);
}

/// The three parts of a list make it up.
proof fn lemma_three_parts(list: Seq<SongView>, a: int, k: int)
    requires
        0 <= a <= a + k <= list.len(),
        0 <= k,
    ensures
        list.take(a) + list.skip(a).take(k) + list.skip(a).skip(k) == list,
{
    assert(list.take(a) + list.skip(a).take(k) + list.skip(a).skip(k) =~= list);
}

/// Shuffle on and straight off again gives the queue back, where no track is in it twice and the
/// manual adds stand in one block.
pub proof fn law_shuffle_undone(before: QueueView, shuffled: QueueView, after: QueueView)
    requires
        before.valid(),
        before.items.len() > 0,
        before.shuffle_orig is None,
        order::ids(before.items).no_duplicates(),
        forall|i: int|
            order::add_slot(before.items, before.current) <= i < before.items.len()
                ==> !song::manual(#[trigger] before.items[i]),
        is_toggled(before, shuffled),
        is_toggled(shuffled, after),
    ensures
        after == (QueueView {
            played_from: before.current,
            lookahead_loaded: None,
            ..before
        }),
{
    let items = before.items;
    let cur = before.current;
    shuffle::law_shuffle_is_a_permutation(items, shuffled.items, cur);
    let head = order::through(items, cur);
    assert(order::through(shuffled.items, cur) =~= head);
    assert(shuffled.items[cur] == order::through(shuffled.items, cur)[cur]);
    let list = order::ids(items);
    let playing = items[cur].video_id;
    list.index_of_first_ensures(playing);
    assert(list[cur] == playing);
    assert(order::restored_index(items, playing, cur) == cur);
    lemma_upcoming_unheard(items, cur);
    lemma_upcoming_splits(items, cur);
    lemma_three_parts(items, cur + 1, order::add_slot(items, cur) - cur - 1);
}

// --- what the edits keep ------------------------------------------------------------------

/// Taking a track out never touches the playing one, and a primed track stays the primed one
/// and what plays next.
pub proof fn law_remove_keeps_playing_and_primed(q: QueueView, index: int)
    requires
        q.valid(),
        removable(q, index),
    ensures
        without(q, index).valid(),
        without(q, index).playing() == q.playing(),
        q.primed() ==> without(q, index).primed(),
        q.primed() && without(q, index).lookahead_loaded is Some ==> queue::track_at(
            without(q, index).items,
            without(q, index).lookahead_loaded->0,
        ) == queue::track_at(q.items, q.lookahead_loaded->0),
{
}

/// A drag only rearranges what is upcoming: the playing track and everything in front of it stay,
/// no track is lost or doubled, and a track that stays primed is still what plays next.
pub proof fn law_move_rearranges_the_upcoming(q: QueueView, from: int, to: int)
    requires
        q.valid(),
        movable(q, from, to),
    ensures
        moved(q, from, to).valid(),
        order::through(moved(q, from, to).items, q.current) == order::through(q.items, q.current),
        shuffle::same_songs(q.items, moved(q, from, to).items),
        moved(q, from, to).items[clamped(q, to)] == q.items[clamped(q, from)],
        q.primed() ==> moved(q, from, to).primed(),
        q.primed() && moved(q, from, to).lookahead_loaded is Some ==> queue::id_at(
            moved(q, from, to).items,
            moved(q, from, to).lookahead_loaded->0,
        ) == queue::id_at(q.items, q.lookahead_loaded->0),
{
    let a = clamped(q, from);
    let b = clamped(q, to);
    let rest = q.items.remove(a);
    let items = rearranged(q.items, a, b);
    assert(order::through(items, q.current) =~= order::through(q.items, q.current));
    broadcast use vstd::seq_lib::group_to_multiset_ensures;
    assert(rest.insert(b, q.items[a]).remove(b) =~= rest);
    assert(q.items.to_multiset() =~= items.to_multiset());
}

/// Clearing leaves the playing track and the history, takes every upcoming manual add, and keeps
/// every other upcoming track in its order.
pub proof fn law_clear_takes_only_the_adds(q: QueueView)
    requires
        q.valid(),
        q.items.len() > 0,
    ensures
        cleared(q).valid(),
        order::through(cleared(q).items, q.current) == order::through(q.items, q.current),
        order::upcoming(cleared(q).items, q.current) == order::upcoming(
            q.items,
            q.current,
        ).filter(order::not_by_hand()),
        order::carried(cleared(q).items, q.current).len() == 0,
{
    let up = order::upcoming(q.items, q.current);
    let head = order::through(q.items, q.current);
    let kept = up.filter(order::not_by_hand());
    if unqueued(q).len() == q.items.len() {
        lemma_whole_filter(up, order::not_by_hand());
        assert(unqueued(q) =~= q.items);
    }
    let items = cleared(q).items;
    assert(items == head + kept);
    assert(order::through(items, q.current) =~= head);
    assert(order::upcoming(items, q.current) =~= kept);
    assert forall|i: int| 0 <= i < kept.len() implies !order::by_hand()(#[trigger] kept[i]) by {
        up.lemma_filter_pred(order::not_by_hand(), i);
    }
    lemma_filter_none(kept, order::by_hand());
}

/// Sweeping leaves the playing track playing and no copy waiting in the manual block.
proof fn lemma_swept(q: QueueView, set: Set<Seq<char>>, dedupe: bool)
    requires
        q.valid(),
        q.items.len() > 0,
    ensures
        swept(q, set, dedupe).valid(),
        swept(q, set, dedupe).items.len() > 0,
        swept(q, set, dedupe).playing() == q.playing(),
        forall|i: int|
            swept(q, set, dedupe).current < i < swept(q, set, dedupe).items.len()
                ==> order::not_waiting(set)(#[trigger] swept(q, set, dedupe).items[i]),
{
    let left = swept(q, set, dedupe);
    if dedupe {
        order::law_dedupe_follows_the_playing_track(q.items, q.current, q.played_from, set);
    }
    let items = if dedupe {
        order::deduped(q.items, q.current, set)
    } else {
        q.items
    };
    let up = order::upcoming(items, left.current);
    assert forall|i: int| left.current < i < left.items.len() implies order::not_waiting(set)(
        #[trigger] left.items[i],
    ) by {
        up.lemma_filter_pred(order::not_waiting(set), i - left.current - 1);
    }
}

/// A manual add never interrupts: the playing track stays the playing one. The added tracks
/// stand together in the manual block, and a copy that was waiting there has been moved, not
/// doubled.
pub proof fn law_add_moves_and_never_interrupts(
    q: QueueView,
    set: Set<Seq<char>>,
    adds: Seq<SongView>,
    block: Seq<SongView>,
    next: bool,
    dedupe: bool,
)
    requires
        q.valid(),
        q.items.len() > 0,
    ensures
        with_adds(q, set, adds, block, next, dedupe).valid(),
        with_adds(q, set, adds, block, next, dedupe).playing() == q.playing(),
        ({
            let left = swept(q, set, dedupe);
            let after = with_adds(q, set, adds, block, next, dedupe);
            let at = slot(left, next);
            &&& after.current < at <= after.items.len() - block.len()
            &&& after.items.subrange(at, at + block.len()) == block
            &&& forall|i: int|
                after.current < i < after.items.len() && !(at <= i < at + block.len())
                    && song::manual(#[trigger] after.items[i]) ==> !set.contains(
                    after.items[i].video_id,
                )
        }),
{
    lemma_swept(q, set, dedupe);
    let left = swept(q, set, dedupe);
    let after = with_adds(q, set, adds, block, next, dedupe);
    let at = slot(left, next);
    order::lemma_run_end(
        left.items,
        left.current + 1,
        if next {
            order::play_next_adds()
        } else {
            order::by_hand()
        },
    );
    assert(after.items =~= left.items.take(at) + block + left.items.skip(at));
    assert(after.items.subrange(at, at + block.len()) =~= block);
    assert forall|i: int|
        after.current < i < after.items.len() && !(at <= i < at + block.len()) && song::manual(
            #[trigger] after.items[i],
        ) implies !set.contains(after.items[i].video_id) by {
        let k = if i < at {
            i
        } else {
            i - block.len()
        };
        assert(after.items[i] == left.items[k]);
        assert(order::not_waiting(set)(left.items[k]));
    }
}

/// After a manual add, a track that is still primed is what plays next, and is the song that the
/// player holds.
pub proof fn law_add_keeps_only_a_true_primed_track(
    q: QueueView,
    set: Set<Seq<char>>,
    adds: Seq<SongView>,
    block: Seq<SongView>,
    next: bool,
    dedupe: bool,
)
    requires
        q.valid(),
        q.items.len() > 0,
        q.primed(),
        block.len() > 0,
    ensures
        with_adds(q, set, adds, block, next, dedupe).primed(),
        with_adds(q, set, adds, block, next, dedupe).lookahead_loaded is Some ==> queue::id_at(
            with_adds(q, set, adds, block, next, dedupe).items,
            with_adds(q, set, adds, block, next, dedupe).lookahead_loaded->0,
        ) == queue::id_at(q.items, q.lookahead_loaded->0),
{
    law_add_moves_and_never_interrupts(q, set, adds, block, next, dedupe);
}

/// With duplicates prevented, an add leaves no other copy of what was added anywhere in the queue,
/// but for the playing track.
pub proof fn law_deduping_add_leaves_no_other_copy(
    q: QueueView,
    set: Set<Seq<char>>,
    adds: Seq<SongView>,
    block: Seq<SongView>,
    next: bool,
    i: int,
)
    requires
        q.valid(),
        q.items.len() > 0,
        0 <= i < with_adds(q, set, adds, block, next, true).items.len(),
        i != with_adds(q, set, adds, block, next, true).current,
        !(slot(swept(q, set, true), next) <= i < slot(swept(q, set, true), next) + block.len()),
    ensures
        !set.contains(with_adds(q, set, adds, block, next, true).items[i].video_id),
{
    law_add_moves_and_never_interrupts(q, set, adds, block, next, true);
    order::law_dedupe_follows_the_playing_track(q.items, q.current, q.played_from, set);
    lemma_swept(q, set, true);
    let left = swept(q, set, true);
    let after = with_adds(q, set, adds, block, next, true);
    let at = slot(left, next);
    order::lemma_run_end(
        left.items,
        left.current + 1,
        if next {
            order::play_next_adds()
        } else {
            order::by_hand()
        },
    );
    let k = if i < at {
        i
    } else {
        i - block.len()
    };
    assert(after.items[i] == left.items[k]);
    let items = order::deduped(q.items, q.current, set);
    let up = order::upcoming(items, left.current);
    let s = left.items[k];
    if set.contains(s.video_id) {
        if k <= left.current {
            assert(s == items[k]);
            order::law_dedupe_leaves_no_copy(q.items, q.current, set, k);
        } else {
            let kept = up.filter(order::not_waiting(set));
            assert(kept[k - left.current - 1] == s);
            assert(kept.contains(s));
            up.lemma_filter_contains_rev(order::not_waiting(set), s);
            let j = up.index_of(s);
            assert(items[left.current + 1 + j] == s);
            order::law_dedupe_leaves_no_copy(q.items, q.current, set, left.current + 1 + j);
        }
    }
}

/// What was queued by hand while shuffle was on is still upcoming when it goes off, unless it has
/// been heard.
pub proof fn law_adds_survive_unshuffling(
    q: QueueView,
    set: Set<Seq<char>>,
    adds: Seq<SongView>,
    block: Seq<SongView>,
    next: bool,
    dedupe: bool,
    after: QueueView,
    k: int,
)
    requires
        q.valid(),
        q.items.len() > 0,
        q.shuffle_orig is Some,
        order::ids(q.shuffle_orig->0).contains(q.items[q.current].video_id),
        is_toggled(with_adds(q, set, adds, block, next, dedupe), after),
        0 <= k < adds.len(),
        song::manual(adds[k]),
        !order::id_set(
            order::through(
                with_adds(q, set, adds, block, next, dedupe).items,
                with_adds(q, set, adds, block, next, dedupe).current,
            ),
        ).contains(adds[k].video_id),
    ensures
        order::carried(after.items, after.current).contains(adds[k]),
{
    law_add_moves_and_never_interrupts(q, set, adds, block, next, dedupe);
    lemma_swept(q, set, dedupe);
    let left = swept(q, set, dedupe);
    let mid = with_adds(q, set, adds, block, next, dedupe);
    let playing = q.items[q.current].video_id;
    assert(mid.items[mid.current] == q.items[q.current]);
    let front = left.shuffle_orig->0;
    let orig = mid.shuffle_orig->0;
    lemma_playing_stays_in_the_snapshot(q, set, dedupe);
    assert(orig == front + adds);
    let heard = order::id_set(order::through(mid.items, mid.current));
    order::ids(orig).index_of_first_ensures(playing);
    let f = order::ids(front).index_of(playing);
    assert(order::ids(orig)[f] == playing);
    assert(order::ids(orig).contains(playing));
    let index = order::restored_index(orig, playing, mid.current);
    assert(index <= f);
    let up = order::upcoming(orig, index);
    let j = front.len() + k - (index + 1);
    assert(up[j] == adds[k]);
    assert(order::outside(heard)(up[j]));
    up.lemma_filter_contains(order::outside(heard), j);
    let rest = up.filter(order::outside(heard));
    let r = rest.index_of(adds[k]);
    assert(order::by_hand()(rest[r]));
    rest.lemma_filter_contains(order::by_hand(), r);
    let block2 = rest.filter(order::by_hand());
    let b = block2.index_of(adds[k]);
    let head = order::through(orig, index);
    assert(after.items[head.len() + b] == adds[k]);
    let tail = order::upcoming(after.items, after.current);
    assert(tail[b] == adds[k]);
    tail.lemma_filter_contains(order::by_hand(), b);
}

/// Sweeping never takes the playing track out of the order to come back to.
proof fn lemma_playing_stays_in_the_snapshot(q: QueueView, set: Set<Seq<char>>, dedupe: bool)
    requires
        q.valid(),
        q.items.len() > 0,
        q.shuffle_orig is Some,
        order::ids(q.shuffle_orig->0).contains(q.items[q.current].video_id),
    ensures
        swept(q, set, dedupe).shuffle_orig is Some,
        order::ids(swept(q, set, dedupe).shuffle_orig->0).contains(q.items[q.current].video_id),
{
    lemma_swept(q, set, dedupe);
    let left = swept(q, set, dedupe);
    let orig = q.shuffle_orig->0;
    let playing = q.items[q.current].video_id;
    let k = order::ids(orig).index_of(playing);
    if left.items.len() != q.items.len() {
        let kept = order::id_set(left.items);
        assert(order::ids(left.items)[left.current] == playing);
        assert(kept.contains(playing));
        assert(order::within(kept)(orig[k]));
        orig.lemma_filter_contains(order::within(kept), k);
        let list = orig.filter(order::within(kept));
        let f = list.index_of(orig[k]);
        assert(order::ids(list)[f] == playing);
    }
}

// --- where an add lands, and what it leaves alone -----------------------------------------

/// Whether `block` stands in the queue at `at` the way a manual add does: behind the playing track
/// and behind manual adds alone ("Play next" adds, for a "Play next"), with no more of those right
/// behind it.
pub open spec fn stands_at(after: QueueView, block: Seq<SongView>, at: int, next: bool) -> bool {
    let end = at + block.len();
    &&& after.current < at
    &&& end <= after.items.len()
    &&& after.items.subrange(at, end) == block
    &&& forall|i: int|
        after.current < i < at ==> (#[trigger] after.items[i]).queued || (!next
            && after.items[i].queued_end)
    &&& end < after.items.len() ==> !after.items[end].queued && (next
        || !after.items[end].queued_end)
}

/// The list without the `n` tracks at `at`.
pub open spec fn taken_out(items: Seq<SongView>, at: int, n: int) -> Seq<SongView> {
    items.take(at) + items.skip(at + n)
}

/// A filter behind a weaker one is the filter alone.
pub proof fn lemma_filter_twice(
    list: Seq<SongView>,
    weak: spec_fn(SongView) -> bool,
    strong: spec_fn(SongView) -> bool,
)
    requires
        forall|s: SongView| #[trigger] strong(s) ==> weak(s),
    ensures
        list.filter(weak).filter(strong) == list.filter(strong),
    decreases list.len(),
{
    reveal(Seq::filter);
    if list.len() > 0 {
        let front = list.drop_last();
        lemma_filter_twice(front, weak, strong);
        front.filter(weak).lemma_filter_push(list.last(), strong);
    }
}

/// Sweeping takes out nothing but tracks of `set`, and keeps the rest in order.
proof fn lemma_swept_keeps_the_rest(q: QueueView, set: Set<Seq<char>>, dedupe: bool)
    requires
        q.valid(),
        q.items.len() > 0,
    ensures
        swept(q, set, dedupe).items.filter(order::outside(set)) == q.items.filter(
            order::outside(set),
        ),
{
    let keep = order::outside(set);
    let left = swept(q, set, dedupe);
    lemma_swept(q, set, dedupe);
    let items = if dedupe {
        order::deduped(q.items, q.current, set)
    } else {
        q.items
    };
    if dedupe {
        order::law_dedupe_follows_the_playing_track(q.items, q.current, q.played_from, set);
        lemma_deduped_keeps_the_rest(q.items, q.current, set);
    }
    let head = order::through(items, left.current);
    let up = order::upcoming(items, left.current);
    lemma_filter_twice(up, order::not_waiting(set), keep);
    Seq::filter_distributes_over_add(head, up.filter(order::not_waiting(set)), keep);
    Seq::filter_distributes_over_add(head, up, keep);
    assert(head + up =~= items);
}

/// Dropping duplicates takes out nothing but tracks of `set`, and keeps the rest in order.
proof fn lemma_deduped_keeps_the_rest(items: Seq<SongView>, current: int, set: Set<Seq<char>>)
    requires
        0 <= current < items.len(),
    ensures
        order::deduped(items, current, set).filter(order::outside(set)) == items.filter(
            order::outside(set),
        ),
{
    let keep = order::outside(set);
    let a = items.take(current);
    let m = seq![items[current]];
    let b = items.skip(current + 1);
    lemma_filter_twice(a, keep, keep);
    lemma_filter_twice(b, keep, keep);
    Seq::filter_distributes_over_add(a + m, b, keep);
    Seq::filter_distributes_over_add(a, m, keep);
    assert(a + m + b =~= items);
    let ka = a.filter(keep);
    let kb = b.filter(keep);
    Seq::filter_distributes_over_add(ka + m, kb, keep);
    Seq::filter_distributes_over_add(ka, m, keep);
    assert(ka + m + kb =~= order::deduped(items, current, set));
}

/// What was added is nowhere else among the waiting adds, nor anywhere else but in the playing track
/// where duplicates are prevented.
proof fn lemma_adds_are_moved(
    q: QueueView,
    set: Set<Seq<char>>,
    adds: Seq<SongView>,
    block: Seq<SongView>,
    next: bool,
    dedupe: bool,
)
    requires
        q.valid(),
        q.items.len() > 0,
    ensures
        ({
            let after = with_adds(q, set, adds, block, next, dedupe);
            let at = slot(swept(q, set, dedupe), next);
            forall|i: int|
                0 <= i < after.items.len() && i != after.current && !(at <= i < at + block.len())
                    && (dedupe || (i > after.current && (after.items[i].queued
                    || after.items[i].queued_end))) ==> !set.contains(
                    (#[trigger] after.items[i]).video_id,
                )
        }),
{
    let after = with_adds(q, set, adds, block, next, dedupe);
    let at = slot(swept(q, set, dedupe), next);
    law_add_moves_and_never_interrupts(q, set, adds, block, next, dedupe);
    assert forall|i: int|
        0 <= i < after.items.len() && i != after.current && !(at <= i < at + block.len()) && (dedupe
            || (i > after.current && (after.items[i].queued
            || after.items[i].queued_end))) implies !set.contains(
        (#[trigger] after.items[i]).video_id,
    ) by {
        if dedupe {
            law_deduping_add_leaves_no_other_copy(q, set, adds, block, next, i);
        }
    }
}

/// A manual add plays before anything that was not queued by hand: between the playing track and
/// the block stand only manual adds. A "Play next" block waits behind the earlier "Play next" adds
/// alone, an "Add to queue" block at the back of all adds. Whatever was not itself added is still
/// there, in its order, and the playing track plays on.
#[verifier::rlimit(30)]
pub proof fn law_adds_play_before_the_context(
    q: QueueView,
    set: Set<Seq<char>>,
    adds: Seq<SongView>,
    block: Seq<SongView>,
    next: bool,
    dedupe: bool,
) -> (at: int)
    requires
        q.valid(),
        q.items.len() > 0,
    ensures
        ({
            let after = with_adds(q, set, adds, block, next, dedupe);
            let rest = taken_out(after.items, at, block.len() as int);
            &&& stands_at(after, block, at, next)
            &&& after.playing() == Some(q.items[q.current])
            &&& rest.filter(|s: SongView| !set.contains(s.video_id)) == q.items.filter(
                |s: SongView| !set.contains(s.video_id),
            )
            &&& !dedupe ==> {
                &&& after.current == q.current
                &&& after.played_from == q.played_from
                &&& rest.take(q.current + 1) == q.items.take(q.current + 1)
                &&& rest.skip(q.current + 1) == q.items.skip(q.current + 1).filter(
                    |s: SongView| !((s.queued || s.queued_end) && set.contains(s.video_id)),
                )
            }
            &&& q.shuffle_orig is None ==> after.shuffle_orig is None
            &&& q.shuffle_orig matches Some(was) ==> {
                let kept = if rest.len() == q.items.len() {
                    was
                } else {
                    was.filter(
                        |s: SongView|
                            exists|i: int|
                                0 <= i < rest.len() && #[trigger] rest[i].video_id == s.video_id,
                    )
                };
                after.shuffle_orig == Some(kept + adds)
            }
            &&& after.items.subrange(after.played_from, after.current) == if dedupe {
                q.items.subrange(q.played_from, q.current).filter(
                    |s: SongView| !set.contains(s.video_id),
                )
            } else {
                q.items.subrange(q.played_from, q.current)
            }
            &&& q.lookahead_loaded is Some && rest.len() == q.items.len() && after.next()
                == q.lookahead_loaded && queue::id_at(after.items, after.current + 1)
                == queue::id_at(q.items, q.current + 1) ==> after.lookahead_loaded
                == q.lookahead_loaded
            &&& after.lookahead_loaded is None || after.lookahead_loaded == q.lookahead_loaded
            &&& forall|i: int|
                0 <= i < after.items.len() && i != after.current && !(at <= i < at + block.len())
                    && (dedupe || (i > after.current && (after.items[i].queued
                    || after.items[i].queued_end))) ==> !set.contains(
                    (#[trigger] after.items[i]).video_id,
                )
            &&& after == QueueView {
                items: after.items,
                current: after.current,
                played_from: after.played_from,
                shuffle_orig: after.shuffle_orig,
                lookahead_loaded: after.lookahead_loaded,
                ..q
            }
        }),
{
    lemma_swept(q, set, dedupe);
    lemma_swept_keeps_the_rest(q, set, dedupe);
    let left = swept(q, set, dedupe);
    let after = with_adds(q, set, adds, block, next, dedupe);
    let at = slot(left, next);
    let pred = if next {
        order::play_next_adds()
    } else {
        order::by_hand()
    };
    order::lemma_run_end(left.items, left.current + 1, pred);
    assert(after.items =~= left.items.take(at) + block + left.items.skip(at));
    assert(after.items.subrange(at, at + block.len()) =~= block);
    assert forall|i: int| after.current < i < at implies (#[trigger] after.items[i]).queued || (
    !next && after.items[i].queued_end) by {
        assert(after.items[i] == left.items[i]);
        assert(pred(left.items[i]));
    }
    let end = at + block.len();
    if end < after.items.len() {
        assert(after.items[end] == left.items[at]);
        assert(!pred(left.items[at]));
    }
    let rest = taken_out(after.items, at, block.len() as int);
    assert(rest =~= left.items);
    assert(order::outside(set) =~= (|s: SongView| !set.contains(s.video_id)));
    if !dedupe {
        assert(order::not_waiting(set) =~= (|s: SongView|
            !((s.queued || s.queued_end) && set.contains(s.video_id))));
        assert(rest.take(q.current + 1) =~= q.items.take(q.current + 1));
        assert(rest.skip(q.current + 1) =~= q.items.skip(q.current + 1).filter(
            order::not_waiting(set),
        ));
    }
    lemma_adds_are_moved(q, set, adds, block, next, dedupe);
    lemma_swept_run(q, set, dedupe);
    assert(after.items.subrange(after.played_from, after.current) =~= left.items.subrange(
        left.played_from,
        left.current,
    ));
    lemma_ids_within(left.items);
    assert(order::within(order::id_set(left.items)) =~= (|s: SongView|
        exists|i: int|
            0 <= i < rest.len() && #[trigger] rest[i].video_id == s.video_id));
    at
}

/// The ids of a list are those of its tracks.
proof fn lemma_ids_within(list: Seq<SongView>)
    ensures
        forall|s: SongView| #[trigger]
            order::id_set(list).contains(s.video_id) == exists|i: int|
                0 <= i < list.len() && #[trigger] list[i].video_id == s.video_id,
{
    assert forall|s: SongView| #[trigger]
        order::id_set(list).contains(s.video_id) == exists|i: int|
            0 <= i < list.len() && #[trigger] list[i].video_id == s.video_id by {
        if order::id_set(list).contains(s.video_id) {
            let i = order::ids(list).index_of(s.video_id);
            assert(list[i].video_id == s.video_id);
        }
        if exists|i: int| 0 <= i < list.len() && #[trigger] list[i].video_id == s.video_id {
            let i = choose|i: int|
                0 <= i < list.len() && #[trigger] list[i].video_id == s.video_id;
            assert(order::ids(list)[i] == s.video_id);
        }
    }
}

/// Sweeping leaves of what was heard what it does not move.
proof fn lemma_swept_run(q: QueueView, set: Set<Seq<char>>, dedupe: bool)
    requires
        q.valid(),
        q.items.len() > 0,
    ensures
        ({
            let left = swept(q, set, dedupe);
            left.items.subrange(left.played_from, left.current) == if dedupe {
                q.items.subrange(q.played_from, q.current).filter(order::outside(set))
            } else {
                q.items.subrange(q.played_from, q.current)
            }
        }),
{
    let left = swept(q, set, dedupe);
    lemma_swept(q, set, dedupe);
    if dedupe {
        order::law_dedupe_follows_the_playing_track(q.items, q.current, q.played_from, set);
        let items = order::deduped(q.items, q.current, set);
        assert(left.items.subrange(left.played_from, left.current) =~= items.subrange(
            left.played_from,
            left.current,
        ));
    } else {
        assert(left.items.subrange(left.played_from, left.current) =~= q.items.subrange(
            q.played_from,
            q.current,
        ));
    }
}

/// Marking an add changes its marks and nothing else: every track is marked with the one gesture,
/// and no track is lost, doubled or moved.
pub proof fn law_marks_name_the_gesture(list: Seq<SongView>, next: bool, from: Option<Seq<char>>)
    ensures
        all_marked(list, next, from).len() == list.len(),
        forall|i: int|
            0 <= i < list.len() ==> {
                let m = #[trigger] all_marked(list, next, from)[i];
                &&& m.queued == next
                &&& m.queued_end == !next
                &&& m.queued_from == from
                &&& SongView {
                    queued: list[i].queued,
                    queued_end: list[i].queued_end,
                    queued_from: list[i].queued_from,
                    ..m
                } == list[i]
            },
{
}

/// An add plays in the order it was made in, whatever the shuffle; only what came from an album or
/// a playlist is shuffled with shuffle on, and then nothing of it is lost.
pub proof fn law_adds_keep_their_order(
    q: QueueView,
    adds: Seq<SongView>,
    block: Seq<SongView>,
    from: Option<Seq<char>>,
)
    requires
        is_add_order(q, adds, block, from),
    ensures
        q.shuffle_orig is None || from is None ==> block == adds,
        block.len() == adds.len(),
        block.to_multiset() == adds.to_multiset(),
{
    broadcast use vstd::seq_lib::group_to_multiset_ensures;

    assert(block.len() == block.to_multiset().len());
    assert(adds.len() == adds.to_multiset().len());
}

/// A page of a list that was added by hand joins the manual block: only manual adds stand between
/// it and the playing track, it keeps its order, and nothing else moves. A page of the playing
/// list, with shuffle off, goes to the tail as it is.
pub proof fn law_page_goes_where_its_list_is(
    before: QueueView,
    after: QueueView,
    page: Seq<SongView>,
    playing: bool,
)
    requires
        before.valid(),
        before.items.len() > 0,
        is_page_appended(before, after, page, playing),
    ensures
        after.current == before.current,
        after.played_from == before.played_from,
        after.items.take(before.current + 1) == before.items.take(before.current + 1),
        after.items.len() == before.items.len() + page.len(),
        after.lookahead_loaded == before.lookahead_loaded,
        playing ==> (before.lookahead_loaded matches Some(i) ==> 0 <= i < before.items.len()
            ==> after.items.take(i + 1) == before.items.take(i + 1)),
        !playing ==> exists|at: int|
            {
                &&& #[trigger] stands_at(after, page, at, false)
                &&& taken_out(after.items, at, page.len() as int) == before.items
            },
        playing && before.shuffle_orig is None ==> after.items == before.items + page
            && after.shuffle_orig is None,
        before.shuffle_orig is Some ==> after.shuffle_orig == Some(
            before.shuffle_orig->0 + page,
        ),
{
    let base = before.items + page;
    if !playing {
        let at = order::add_slot(before.items, before.current);
        order::lemma_run_end(before.items, before.current + 1, order::by_hand());
        assert(after.items.subrange(at, at + page.len()) =~= page);
        assert forall|i: int| after.current < i < at implies (#[trigger] after.items[i]).queued
            || after.items[i].queued_end by {
            assert(after.items[i] == before.items[i]);
            assert(order::by_hand()(before.items[i]));
        }
        let end = at + page.len();
        if end < after.items.len() {
            assert(after.items[end] == before.items[at]);
            assert(!order::by_hand()(before.items[at]));
        }
        assert(stands_at(after, page, at, false));
        assert(taken_out(after.items, at, page.len() as int) =~= before.items);
        assert(after.items.take(before.current + 1) =~= before.items.take(before.current + 1));
    } else if before.shuffle_orig is Some {
        let p = pivot(before);
        assert(p >= before.current);
        shuffle::law_shuffle_is_a_permutation(base, after.items, p);
        let b = order::boundary(base, p);
        assert(after.items.take(b) == base.take(b));
        assert(after.items.take(b).take(before.current + 1) =~= after.items.take(
            before.current + 1,
        ));
        assert(base.take(b).take(before.current + 1) =~= before.items.take(before.current + 1));
        if let Some(i) = before.lookahead_loaded {
            if 0 <= i < before.items.len() {
                assert(after.items.take(b).take(i + 1) =~= after.items.take(i + 1));
                assert(base.take(b).take(i + 1) =~= before.items.take(i + 1));
            }
        }
        broadcast use vstd::seq_lib::group_to_multiset_ensures;

        assert(base.len() == base.to_multiset().len());
        assert(after.items.len() == after.items.to_multiset().len());
    } else {
        assert(after.items.take(before.current + 1) =~= before.items.take(before.current + 1));
        if let Some(i) = before.lookahead_loaded {
            if 0 <= i < before.items.len() {
                assert(after.items.take(i + 1) =~= before.items.take(i + 1));
            }
        }
    }
}

// --- what an edit does --------------------------------------------------------------------

/// Taking a track out takes that one track and no other: put back where it stood, the list is what
/// it was. The playing track and what is not there cannot be taken out. What was heard stays what
/// was heard, but for the track itself.
pub proof fn law_remove_takes_that_track(q: QueueView, index: int)
    requires
        q.valid(),
    ensures
        ({
            let after = without(q, index);
            let there = 0 <= index < q.items.len() && index != q.current;
            &&& !there ==> after == q
            &&& there ==> {
                &&& after.items.len() + 1 == q.items.len()
                &&& after.items.insert(index, q.items[index]) == q.items
                &&& after.items[after.current] == q.items[q.current]
                &&& after.items.subrange(after.played_from, after.current) == if q.played_from
                    <= index < q.current {
                    q.items.subrange(q.played_from, q.current).remove(index - q.played_from)
                } else {
                    q.items.subrange(q.played_from, q.current)
                }
                &&& q.lookahead_loaded == Some(index) ==> after.lookahead_loaded is None
                &&& q.lookahead_loaded is Some && q.lookahead_loaded != Some(index)
                    ==> after.lookahead_loaded is Some && queue::track_at(
                    after.items,
                    after.lookahead_loaded->0,
                ) == queue::track_at(q.items, q.lookahead_loaded->0)
                &&& after == QueueView {
                    items: after.items,
                    current: after.current,
                    played_from: after.played_from,
                    lookahead_loaded: after.lookahead_loaded,
                    ..q
                }
            }
        }),
{
    let after = without(q, index);
    if 0 <= index < q.items.len() && index != q.current {
        assert(after.items.insert(index, q.items[index]) =~= q.items);
        let run = q.items.subrange(q.played_from, q.current);
        if q.played_from <= index < q.current {
            assert(after.items.subrange(after.played_from, after.current) =~= run.remove(
                index - q.played_from,
            ));
        } else {
            assert(after.items.subrange(after.played_from, after.current) =~= run);
        }
    }
}

/// A drag takes one upcoming track and puts it in at another upcoming place; every other track
/// keeps its order. An index at or in front of the playing track counts as the first upcoming one.
/// Dragged back, the list is what it was.
pub proof fn law_move_takes_one_track(q: QueueView, from: int, to: int)
    requires
        q.valid(),
        0 <= from,
        0 <= to,
    ensures
        ({
            let n = q.items.len();
            let first = q.current + 1;
            let a = if from < first {
                first
            } else {
                from
            };
            let b = if to < first {
                first
            } else {
                to
            };
            let moves = a < n && b < n && a != b;
            let after = moved(q, from, to);
            &&& !moves ==> after == q
            &&& moves ==> {
                &&& after.items.len() == n
                &&& after.items[b] == q.items[a]
                &&& after.items.remove(b) == q.items.remove(a)
                &&& after.items.take(first) == q.items.take(first)
                &&& moved(after, to, from).items == q.items
                &&& q.primed() && q.lookahead_loaded is Some ==> after.lookahead_loaded == if q.current
                    + 1 == n || after.items[first].video_id == q.items[first].video_id {
                    q.lookahead_loaded
                } else {
                    None
                }
                &&& after == QueueView {
                    items: after.items,
                    lookahead_loaded: after.lookahead_loaded,
                    ..q
                }
            }
        }),
{
    let n = q.items.len();
    let first = q.current + 1;
    let a = if from < first {
        first
    } else {
        from
    };
    let b = if to < first {
        first
    } else {
        to
    };
    let after = moved(q, from, to);
    if a < n && b < n && a != b {
        let rest = q.items.remove(a);
        assert(after.items == rest.insert(b, q.items[a]));
        assert(rest.insert(b, q.items[a]).remove(b) =~= rest);
        assert(after.items.take(first) =~= q.items.take(first));
        assert(rest.insert(a, q.items[a]) =~= q.items);
        assert(moved(after, to, from).items == after.items.remove(b).insert(a, after.items[b]));
    }
}

/// Clearing takes out exactly the upcoming tracks that were queued by hand, with either gesture.
/// The rest of what is upcoming keeps its order, and everything through the playing track stays,
/// adds that have been heard among it.
pub proof fn law_clear_leaves_the_context(q: QueueView)
    requires
        q.valid(),
        q.items.len() > 0,
    ensures
        ({
            let after = cleared(q);
            &&& after.items.take(q.current + 1) == q.items.take(q.current + 1)
            &&& after.items.skip(q.current + 1) == q.items.skip(q.current + 1).filter(
                |s: SongView| !s.queued && !s.queued_end,
            )
            &&& after == QueueView {
                items: after.items,
                lookahead_loaded: after.lookahead_loaded,
                ..q
            }
            &&& after.items == q.items ==> after == q
            &&& after.items != q.items ==> after.lookahead_loaded is None
        }),
{
    law_clear_takes_only_the_adds(q);
    assert(order::not_by_hand() =~= (|s: SongView| !s.queued && !s.queued_end));
    let after = cleared(q);
    assert(after.items.take(q.current + 1) =~= order::through(after.items, q.current));
    assert(q.items.take(q.current + 1) =~= order::through(q.items, q.current));
    assert(after.items.skip(q.current + 1) =~= order::upcoming(after.items, q.current));
    assert(q.items.skip(q.current + 1) =~= order::upcoming(q.items, q.current));
    if unqueued(q).len() != q.items.len() {
        assert(after.items.len() != q.items.len());
    }
}

/// Switching shuffle on remembers the order as it was, keeps everything through the playing track,
/// and loses nothing. Whatever the player held is forgotten.
pub proof fn law_shuffle_on_remembers_the_order(before: QueueView, after: QueueView)
    requires
        before.valid(),
        before.items.len() > 0,
        before.shuffle_orig is None,
        is_toggled(before, after),
    ensures
        after.shuffle_orig == Some(before.items),
        after.current == before.current,
        after.played_from == before.played_from,
        after.items.take(before.current + 1) == before.items.take(before.current + 1),
        after.items.to_multiset() == before.items.to_multiset(),
        after.lookahead_loaded is None,
        after.repeat == before.repeat,
        after.radio_seed == before.radio_seed,
        after.source_name == before.source_name,
{
    shuffle::law_shuffle_is_a_permutation(before.items, after.items, before.current);
    assert(order::boundary(before.items, before.current) == before.current + 1);
}

/// Switching shuffle off gives the remembered order back through the playing track. Of what stands
/// behind it there, everything that has not been heard is upcoming again, the manual adds first
/// and each part in its order.
pub proof fn law_unshuffle_loses_nothing_unheard(before: QueueView, after: QueueView)
    requires
        before.valid(),
        before.items.len() > 0,
        before.shuffle_orig is Some,
        is_toggled(before, after),
    ensures
        ({
            let orig = before.shuffle_orig->0;
            let heard = |s: SongView|
                exists|i: int|
                    0 <= i <= before.current && #[trigger] before.items[i].video_id == s.video_id;
            let up = after.items.skip(after.current + 1);
            let rest = orig.skip(after.current + 1);
            &&& after.shuffle_orig is None
            &&& after.lookahead_loaded is None
            &&& after.played_from == after.current
            &&& orig.len() == 0 ==> after.items.len() == 0 && after.current == 0
            &&& forall|k: int|
                0 <= k < after.current && k < orig.len() && (exists|j: int|
                    0 <= j < orig.len() && #[trigger] orig[j].video_id
                        == before.items[before.current].video_id) ==> #[trigger] orig[k].video_id
                    != before.items[before.current].video_id
            &&& orig.len() > 0 && (forall|j: int|
                0 <= j < orig.len() ==> #[trigger] orig[j].video_id
                    != before.items[before.current].video_id) ==> after.current
                == if before.current < orig.len() {
                before.current
            } else {
                orig.len() - 1
            }
            &&& orig.len() > 0 ==> {
                &&& after.items.take(after.current + 1) == orig.take(after.current + 1)
                &&& up == rest.filter(|s: SongView| !heard(s)).filter(
                    |s: SongView| s.queued || s.queued_end,
                ) + rest.filter(|s: SongView| !heard(s)).filter(
                    |s: SongView| !(s.queued || s.queued_end),
                )
            }
        }),
{
    let orig = before.shuffle_orig->0;
    let heard = |s: SongView|
        exists|i: int| 0 <= i <= before.current && #[trigger] before.items[i].video_id
            == s.video_id;
    let head = order::through(before.items, before.current);
    let set = order::id_set(head);
    assert forall|s: SongView| #[trigger] set.contains(s.video_id) == heard(s) by {
        if set.contains(s.video_id) {
            let i = order::ids(head).index_of(s.video_id);
            assert(before.items[i].video_id == s.video_id);
        }
        if heard(s) {
            let i = choose|i: int|
                0 <= i <= before.current && #[trigger] before.items[i].video_id == s.video_id;
            assert(order::ids(head)[i] == s.video_id);
        }
    }
    assert(order::outside(set) =~= (|s: SongView| !heard(s)));
    assert(order::by_hand() =~= (|s: SongView| s.queued || s.queued_end));
    assert(order::not_by_hand() =~= (|s: SongView| !(s.queued || s.queued_end)));
    let playing = before.items[before.current].video_id;
    order::ids(orig).index_of_first_ensures(playing);
    if orig.len() == 0 {
        reveal(Seq::filter);
        let rest = order::upcoming(orig, 0);
        assert(rest =~= Seq::<SongView>::empty());
        assert(rest.filter(order::outside(set)) =~= rest);
    }
    if exists|j: int| 0 <= j < orig.len() && #[trigger] orig[j].video_id == playing {
        let j = choose|j: int| 0 <= j < orig.len() && #[trigger] orig[j].video_id == playing;
        assert(order::ids(orig)[j] == playing);
        assert forall|k: int| 0 <= k < after.current && k < orig.len() implies #[trigger]
            orig[k].video_id != playing by {
            assert(order::ids(orig)[k] != playing);
        }
    } else {
        assert(!order::ids(orig).contains(playing)) by {
            if order::ids(orig).contains(playing) {
                let j = order::ids(orig).index_of(playing);
                assert(orig[j].video_id == playing);
            }
        }
    }
    if orig.len() > 0 {
        let index = after.current;
        assert(order::boundary(orig, index) == index + 1);
        let rest = order::upcoming(orig, index).filter(order::outside(set));
        let adds = rest.filter(order::by_hand());
        let others = rest.filter(order::not_by_hand());
        assert(after.items =~= orig.take(index + 1) + adds + others);
        assert(after.items.take(index + 1) =~= orig.take(index + 1));
        assert(after.items.skip(index + 1) =~= adds + others);
    }
}

/// What is left primed after any change is what plays next, and a track that still plays next stays
/// primed.
pub proof fn law_retargeting_drops_only_a_stale_track(q: QueueView)
    ensures
        retargeted(q).primed(),
        q.primed() ==> retargeted(q) == q,
        !q.primed() ==> retargeted(q) == (QueueView { lookahead_loaded: None, ..q }),
{
}

// --- the same, of the calls themselves ----------------------------------------------------

/// A block that is added stands in front of everything that was not queued by hand.
pub proof fn law_adding_a_block_lands_in_front(
    q: &mut QueueState,
    set: &IdSet,
    adds: Vec<SongItem>,
    block: Vec<SongItem>,
    next: bool,
    dedupe: bool,
    r: bool,
)
    requires
        old(q)@.valid(),
        old(q)@.items.len() > 0,
        call_ensures(QueueState::insert_block, (q, set, adds, block, next, dedupe), r),
    ensures
        exists|at: int| #[trigger] stands_at(final(q)@, song::songs(block@), at, next),
        final(q)@.playing() == old(q)@.playing(),
        r == (old(q)@.lookahead_loaded is Some && final(q)@.lookahead_loaded is None),
{
    let at = law_adds_play_before_the_context(
        old(q)@,
        set@,
        song::songs(adds@),
        song::songs(block@),
        next,
        dedupe,
    );
    assert(stands_at(final(q)@, song::songs(block@), at, next));
}

/// A drag takes the one track and leaves the order of the others.
pub proof fn law_dragging_keeps_the_others(
    q: &mut QueueState,
    from: usize,
    to: usize,
    r: Option<bool>,
)
    requires
        old(q)@.valid(),
        call_ensures(QueueState::drag, (q, from, to), r),
    ensures
        ({
            let first = old(q)@.current + 1;
            let a = if from < first {
                first
            } else {
                from as int
            };
            let b = if to < first {
                first
            } else {
                to as int
            };
            let n = old(q)@.items.len();
            &&& r is Some == (a < n && b < n && a != b)
            &&& r is Some ==> final(q)@.items[b] == old(q)@.items[a]
            &&& r is Some ==> final(q)@.items.remove(b) == old(q)@.items.remove(a)
            &&& r is None ==> final(q)@ == old(q)@
        }),
{
    law_move_takes_one_track(old(q)@, from as int, to as int);
}

/// A page goes to the tail of the list that plays, or into the block of adds that it belongs to.
pub proof fn law_appending_a_page(
    q: &mut QueueState,
    page: Vec<SongItem>,
    playing: bool,
)
    requires
        old(q)@.valid(),
        old(q)@.items.len() > 0,
        call_ensures(append_page, (q, page, playing), ()),
    ensures
        final(q)@.current == old(q)@.current,
        final(q)@.items.take(old(q)@.current + 1) == old(q)@.items.take(old(q)@.current + 1),
        playing && old(q)@.shuffle_orig is None ==> final(q)@.items == old(q)@.items + song::songs(
            page@,
        ),
        !playing ==> exists|at: int| #[trigger]
            stands_at(final(q)@, song::songs(page@), at, false),
{
    law_page_goes_where_its_list_is(old(q)@, final(q)@, song::songs(page@), playing);
    if !playing {
        let at = choose|at: int|
            {
                &&& #[trigger] stands_at(final(q)@, song::songs(page@), at, false)
                &&& taken_out(final(q)@.items, at, song::songs(page@).len() as int)
                    == old(q)@.items
            };
        assert(stands_at(final(q)@, song::songs(page@), at, false));
    }
}

} // verus!
