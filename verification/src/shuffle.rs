//! Shuffling what is still to come, without moving what the user pinned.

use crate::order;
use crate::song;
use crate::song::SongItem;
use crate::song::SongView;
use crate::text;
use rand::seq::SliceRandom;
use vstd::prelude::*;

verus! {

broadcast use crate::song::group_songs;

// --- chance -------------------------------------------------------------------------------

/// `rand::seq::SliceRandom::shuffle` on `items[from..to]` with the thread's generator: it swaps
/// tracks of that stretch among themselves, so the stretch holds the same tracks afterwards,
/// each as often as before, and nothing outside it changes. Which order comes out is chance.
#[verifier::external_body]
pub(crate) fn shuffle_between(items: &mut Vec<SongItem>, from: usize, to: usize)
    requires
        from <= to <= old(items)@.len(),
    ensures
        final(items)@.len() == old(items)@.len(),
        song::songs(final(items)@).take(from as int) == song::songs(old(items)@).take(
            from as int,
        ),
        song::songs(final(items)@).skip(to as int) == song::songs(old(items)@).skip(to as int),
        song::songs(final(items)@).subrange(from as int, to as int).to_multiset() == song::songs(
            old(items)@,
        ).subrange(from as int, to as int).to_multiset(),
{
    items[from..to].shuffle(&mut rand::thread_rng());
}

/// `rand::Rng::gen_range` over `0..n` with the thread's generator: some index below `n`, by
/// chance. It panics on an empty range.
#[verifier::external_body]
pub(crate) fn random_below(n: usize) -> (r: usize)
    requires
        n > 0,
    ensures
        r < n,
{
    rand::Rng::gen_range(&mut rand::thread_rng(), 0..n)
}

// --- what a shuffle may do ----------------------------------------------------------------

/// Whether two lists hold the same tracks, each as often.
pub open spec fn same_songs(a: Seq<SongView>, b: Seq<SongView>) -> bool {
    a.to_multiset() == b.to_multiset()
}

/// Picks autoplay filler.
pub open spec fn filler() -> spec_fn(SongView) -> bool {
    |s: SongView| s.autoplay
}

/// Picks everything but autoplay filler.
pub open spec fn not_filler() -> spec_fn(SongView) -> bool {
    |s: SongView| !s.autoplay
}

/// Whether no autoplay filler stands ahead of another track.
pub open spec fn fillers_last(list: Seq<SongView>) -> bool {
    forall|i: int, j: int|
        0 <= i < j < list.len() && (#[trigger] list[i]).autoplay ==> (#[trigger] list[j]).autoplay
}

/// Whether `items[i..e]` is one whole run, within the block `items[a..stop]`, of tracks that came
/// from the same album or playlist.
pub open spec fn is_source_run(items: Seq<SongView>, a: int, stop: int, i: int, e: int) -> bool {
    &&& a <= i < e <= stop
    &&& items[i].queued_from is Some
    &&& forall|k: int| i <= k < e ==> (#[trigger] items[k]).queued_from == items[i].queued_from
    &&& i > a ==> items[i - 1].queued_from != items[i].queued_from
    &&& e < stop ==> items[e].queued_from != items[i].queued_from
}

/// Whether a pinned block was shuffled run by run: what was queued one at a time stays at its
/// index, and each run from one album or playlist is reordered within its own stretch.
pub open spec fn block_shuffled(
    before: Seq<SongView>,
    after: Seq<SongView>,
    a: int,
    stop: int,
) -> bool {
    &&& forall|k: int|
        a <= k < stop && (#[trigger] before[k]).queued_from is None ==> after[k] == before[k]
    &&& forall|i: int, e: int| #[trigger]
        is_source_run(before, a, stop, i, e) ==> same_songs(
            before.subrange(i, e),
            after.subrange(i, e),
        )
}

/// Whether `after` is a shuffle of what comes behind `current` in `before`. Everything through
/// the playing track stays. The block of manual adds behind it stays in place, and only its
/// album and playlist runs are reordered, each within itself. The rest is in any order that
/// keeps autoplay filler behind everything else.
pub open spec fn is_shuffle(
    before: Seq<SongView>,
    after: Seq<SongView>,
    current: int,
) -> bool {
    let at = order::boundary(before, current);
    let stop = order::add_slot(before, current);
    &&& after.len() == before.len()
    &&& after.take(at) == before.take(at)
    &&& block_shuffled(before, after, at, stop)
    &&& same_songs(before.skip(stop), after.skip(stop))
    &&& fillers_last(after.skip(stop))
}

// --- facts about multisets ----------------------------------------------------------------

/// A list split in two by a test holds the same tracks.
proof fn lemma_split_same_songs(list: Seq<SongView>)
    ensures
        same_songs(list, list.filter(not_filler()) + list.filter(filler())),
    decreases list.len(),
{
    broadcast use vstd::seq_lib::group_to_multiset_ensures;

    reveal(Seq::filter);
    let a = list.filter(not_filler());
    let b = list.filter(filler());
    vstd::seq_lib::lemma_multiset_commutative(a, b);
    if list.len() > 0 {
        let head = list.drop_last();
        lemma_split_same_songs(head);
        let ha = head.filter(not_filler());
        let hb = head.filter(filler());
        vstd::seq_lib::lemma_multiset_commutative(ha, hb);
        assert(list =~= head.push(list.last()));
        if list.last().autoplay {
            assert(a =~= ha);
            assert(b =~= hb.push(list.last()));
        } else {
            assert(a =~= ha.push(list.last()));
            assert(b =~= hb);
        }
        assert(list.to_multiset() =~= (a + b).to_multiset());
    } else {
        assert(list =~= a + b);
    }
}

/// A list with its filler moved behind the rest has its filler behind the rest.
proof fn lemma_split_fillers_last(list: Seq<SongView>)
    ensures
        fillers_last(list.filter(not_filler()) + list.filter(filler())),
{
    let a = list.filter(not_filler());
    let b = list.filter(filler());
    let whole = a + b;
    assert forall|i: int, j: int|
        0 <= i < j < whole.len() && (#[trigger] whole[i]).autoplay implies (
    #[trigger] whole[j]).autoplay by {
        if i < a.len() {
            list.lemma_filter_pred(not_filler(), i);
        }
        list.lemma_filter_pred(filler(), j - a.len());
    }
}

// --- shuffling ----------------------------------------------------------------------------

/// Moves the autoplay filler of `items[start..]` behind the other tracks there. Both sections
/// keep the order they are in.
pub fn settle_fillers(items: &mut Vec<SongItem>, start: usize)
    requires
        start <= old(items)@.len(),
    ensures
        song::songs(final(items)@) == song::songs(old(items)@).take(start as int) + song::songs(
            old(items)@,
        ).skip(start as int).filter(not_filler()) + song::songs(old(items)@).skip(
            start as int,
        ).filter(filler()),
{
    let ghost all = song::songs(items@);
    let tail = items.split_off(start);
    let ghost front = song::songs(items@);
    let ghost rest = song::songs(tail@);
    let ghost given = tail@;
    assert(front =~= all.take(start as int));
    assert(rest =~= all.skip(start as int));
    let mut fillers: Vec<SongItem> = Vec::new();
    reveal(Seq::filter);
    assert(rest.take(0) =~= Seq::<SongView>::empty());
    assert(song::songs(items@) =~= front + rest.take(0).filter(not_filler()));
    assert(song::songs(fillers@) =~= rest.take(0).filter(filler()));
    for s in it: tail
        invariant
            it.seq() == given,
            rest == song::songs(given),
            song::songs(items@) == front + rest.take(it.index()).filter(not_filler()),
            song::songs(fillers@) == rest.take(it.index()).filter(filler()),
    {
        let ghost k = it.index();
        proof {
            rest.take(k).lemma_filter_push(s@, not_filler());
            rest.take(k).lemma_filter_push(s@, filler());
            assert(rest.take(k + 1) =~= rest.take(k).push(s@));
        }
        if s.autoplay {
            fillers.push(s);
        } else {
            let ghost kept = rest.take(k).filter(not_filler());
            items.push(s);
            assert((front + kept).push(s@) =~= front + kept.push(s@));
        }
    }
    assert(rest.take(rest.len() as int) =~= rest);
    song::append_songs(items, fillers);
}

/// Shuffles the upcoming items only. The playing track and everything in front of it stay put,
/// and the leading run of manually queued tracks keeps its spot; within it, each run that came
/// from one album or playlist is reordered, and what was queued one at a time keeps its order.
/// Autoplay tracks stay behind the remaining queue tracks.
pub fn shuffle_upcoming(items: &mut Vec<SongItem>, current: usize)
    ensures
        is_shuffle(song::songs(old(items)@), song::songs(final(items)@), current as int),
{
    let ghost all = song::songs(items@);
    let at: usize = if current < items.len() { current + 1 } else { items.len() };
    let stop: usize = order::enqueue_index(items, current);
    proof {
        order::lemma_run_end(all, at as int, order::by_hand());
    }
    let mut i: usize = at;
    while i < stop
        invariant
            at <= i <= stop <= items@.len(),
            items@.len() == all.len(),
            song::songs(items@).take(at as int) == all.take(at as int),
            song::songs(items@).skip(i as int) == all.skip(i as int),
            i > at && i < stop && all[i as int].queued_from is Some ==> all[i - 1].queued_from
                != all[i as int].queued_from,
            forall|k: int|
                at <= k < i && (#[trigger] all[k]).queued_from is None ==> song::songs(items@)[k]
                    == all[k],
            forall|r: int, e: int| #[trigger]
                is_source_run(all, at as int, stop as int, r, e) && e <= i ==> same_songs(
                    all.subrange(r, e),
                    song::songs(items@).subrange(r, e),
                ),
        decreases stop - i,
    {
        let ghost now = song::songs(items@);
        assert forall|k: int| i <= k < all.len() implies #[trigger] now[k] == all[k] by {
            assert(now.skip(i as int)[k - i] == all.skip(i as int)[k - i]);
        }
        if items[i].queued_from.is_none() {
            assert(now[i as int].queued_from is None);
            assert forall|r: int, e: int| #[trigger]
                is_source_run(all, at as int, stop as int, r, e) && e <= i + 1 implies same_songs(
                all.subrange(r, e),
                now.subrange(r, e),
            ) by {
                if e == i + 1 {
                    assert(all[i as int].queued_from == all[r].queued_from);
                }
            }
            assert(now.skip(i + 1) =~= all.skip(i + 1));
            i = i + 1;
        } else {
            let mut end: usize = i + 1;
            assert(now[i as int].queued_from is Some);
            while end < stop && text::same_opt(&items[end].queued_from, &items[i].queued_from)
                invariant
                    i < end <= stop <= items@.len(),
                    now == song::songs(items@),
                    forall|k: int|
                        i <= k < end ==> (#[trigger] now[k]).queued_from
                            == now[i as int].queued_from,
                decreases stop - end,
            {
                assert(now[end as int].queued_from == now[i as int].queued_from);
                end = end + 1;
            }
            assert(end < stop ==> now[end as int].queued_from != now[i as int].queued_from);
            shuffle_between(items, i, end);
            let ghost next = song::songs(items@);
            proof {
                assert forall|k: int| 0 <= k < i implies #[trigger] next[k] == now[k] by {
                    assert(next.take(i as int)[k] == now.take(i as int)[k]);
                }
                assert forall|k: int| end <= k < all.len() implies #[trigger] next[k]
                    == all[k] by {
                    assert(next.skip(end as int)[k - end] == now.skip(end as int)[k - end]);
                }
                assert(next.skip(end as int) =~= all.skip(end as int));
                assert(next.take(at as int) =~= all.take(at as int)) by {
                    assert forall|k: int| 0 <= k < at implies next[k] == all[k] by {
                        assert(now.take(at as int)[k] == all.take(at as int)[k]);
                    }
                }
                assert forall|r: int, e: int| #[trigger]
                    is_source_run(all, at as int, stop as int, r, e) && e
                        <= end implies same_songs(all.subrange(r, e), next.subrange(r, e)) by {
                    if e <= i {
                        assert(next.subrange(r, e) =~= now.subrange(r, e));
                    } else {
                        if r < i {
                            assert(all[i - 1].queued_from == all[r].queued_from);
                            assert(all[i as int].queued_from == all[r].queued_from);
                        }
                        if r > i {
                            assert(now[r - 1].queued_from == now[r].queued_from);
                        }
                        assert(r == i);
                        if e < end {
                            assert(now[e].queued_from == now[i as int].queued_from);
                        }
                        assert(all.subrange(r, e) =~= now.subrange(r, e));
                    }
                }
                assert forall|k: int|
                    at <= k < end && (#[trigger] all[k]).queued_from is None implies next[k]
                    == all[k] by {
                    if k >= i {
                        assert(now[k].queued_from == now[i as int].queued_from);
                    }
                }
                if end < stop {
                    assert(all[end - 1].queued_from == all[i as int].queued_from) by {
                        assert(now[end - 1].queued_from == now[i as int].queued_from);
                    }
                }
            }
            i = end;
        }
    }
    let ghost blocked = song::songs(items@);
    if stop < items.len() {
        let n: usize = items.len();
        shuffle_between(items, stop, n);
        let ghost mixed = song::songs(items@);
        settle_fillers(items, stop);
        let ghost done = song::songs(items@);
        proof {
            let tail = mixed.skip(stop as int);
            lemma_split_same_songs(tail);
            lemma_split_fillers_last(tail);
            assert(tail =~= mixed.subrange(stop as int, n as int));
            assert(all.skip(stop as int) =~= blocked.subrange(stop as int, n as int));
            let settled = tail.filter(not_filler()) + tail.filter(filler());
            vstd::seq_lib::to_multiset_len(settled);
            vstd::seq_lib::to_multiset_len(tail);
            assert(settled.len() == tail.len());
            assert(done =~= mixed.take(stop as int) + settled);
            assert(done.skip(stop as int) =~= settled);
            assert forall|k: int| 0 <= k < stop implies #[trigger] done[k] == blocked[k] by {
                assert(mixed.take(stop as int)[k] == blocked.take(stop as int)[k]);
            }
            assert(done.take(at as int) =~= blocked.take(at as int));
            assert forall|r: int, e: int| #[trigger]
                is_source_run(all, at as int, stop as int, r, e) implies same_songs(
                all.subrange(r, e),
                done.subrange(r, e),
            ) by {
                assert(done.subrange(r, e) =~= blocked.subrange(r, e));
            }
        }
    } else {
        assert(all.skip(stop as int) =~= blocked.skip(stop as int));
        assert(fillers_last(blocked.skip(stop as int)));
    }
}

// --- a fresh queue ------------------------------------------------------------------------

/// The list with the tracks at `i` and `j` exchanged.
pub open spec fn swapped(items: Seq<SongView>, i: int, j: int) -> Seq<SongView> {
    items.update(i, items[j]).update(j, items[i])
}

/// The clicked index, kept within the list.
pub open spec fn clicked(len: int, start: int) -> int {
    if start < len {
        start
    } else {
        len - 1
    }
}

/// Whether `after` is a fresh queue shuffled around the clicked track: that track plays first,
/// and everything else follows as a shuffle leaves it.
pub open spec fn is_fresh_shuffle(
    before: Seq<SongView>,
    after: Seq<SongView>,
    start: int,
) -> bool {
    if before.len() == 0 {
        after == before
    } else {
        is_shuffle(swapped(before, 0, clicked(before.len() as int, start)), after, 0)
    }
}

/// Shuffles a fresh queue around the clicked track: it plays first, everything else follows in
/// random order. Answers the new current index, which is always 0.
pub fn shuffle_new_queue(items: &mut Vec<SongItem>, start: usize) -> (r: usize)
    ensures
        r == 0,
        is_fresh_shuffle(song::songs(old(items)@), song::songs(final(items)@), start as int),
{
    if !items.is_empty() {
        let ghost all = song::songs(items@);
        let k: usize = if start < items.len() { start } else { items.len() - 1 };
        if k > 0 {
            let picked = items.remove(k);
            let first = items.remove(0);
            items.insert(0, picked);
            items.insert(k, first);
        }
        assert(song::songs(items@) =~= swapped(all, 0, k as int));
        shuffle_upcoming(items, 0);
    }
    0
}

// --- laws ---------------------------------------------------------------------------------

/// Where the run of tracks from `from` that starts in front of `i` ends, within the block.
spec fn source_end(items: Seq<SongView>, i: int, stop: int, from: Option<Seq<char>>) -> int
    decreases stop - i,
{
    if 0 <= i < stop && items[i].queued_from == from {
        source_end(items, i + 1, stop, from)
    } else {
        i
    }
}

proof fn lemma_source_end(items: Seq<SongView>, i: int, stop: int, from: Option<Seq<char>>)
    requires
        0 <= i <= stop <= items.len(),
    ensures
        i <= source_end(items, i, stop, from) <= stop,
        forall|k: int|
            i <= k < source_end(items, i, stop, from) ==> (#[trigger] items[k]).queued_from == from,
        source_end(items, i, stop, from) < stop ==> items[source_end(
            items,
            i,
            stop,
            from,
        )].queued_from != from,
    decreases stop - i,
{
    if i < stop && items[i].queued_from == from {
        lemma_source_end(items, i + 1, stop, from);
    }
}

/// From a run boundary on, a shuffled block holds the same tracks.
proof fn lemma_block_same_songs(
    before: Seq<SongView>,
    after: Seq<SongView>,
    a: int,
    i: int,
    stop: int,
)
    requires
        0 <= a <= i <= stop <= before.len(),
        after.len() == before.len(),
        block_shuffled(before, after, a, stop),
        a < i < stop && before[i].queued_from is Some ==> before[i - 1].queued_from
            != before[i].queued_from,
    ensures
        same_songs(before.subrange(i, stop), after.subrange(i, stop)),
    decreases stop - i,
{
    if i < stop {
        let e = if before[i].queued_from is None {
            i + 1
        } else {
            lemma_source_end(before, i + 1, stop, before[i].queued_from);
            source_end(before, i + 1, stop, before[i].queued_from)
        };
        if before[i].queued_from is None {
            assert(before.subrange(i, e) =~= after.subrange(i, e));
        } else {
            assert(is_source_run(before, a, stop, i, e));
            assert(before[e - 1].queued_from == before[i].queued_from);
        }
        lemma_block_same_songs(before, after, a, e, stop);
        vstd::seq_lib::lemma_multiset_commutative(
            before.subrange(i, e),
            before.subrange(e, stop),
        );
        vstd::seq_lib::lemma_multiset_commutative(after.subrange(i, e), after.subrange(e, stop));
        assert(before.subrange(i, stop) =~= before.subrange(i, e) + before.subrange(e, stop));
        assert(after.subrange(i, stop) =~= after.subrange(i, e) + after.subrange(e, stop));
    } else {
        assert(before.subrange(i, stop) =~= after.subrange(i, stop));
    }
}

/// A shuffle loses nothing and doubles nothing, and moves nothing through the playing track.
pub proof fn law_shuffle_is_a_permutation(
    before: Seq<SongView>,
    after: Seq<SongView>,
    current: int,
)
    requires
        0 <= current,
        is_shuffle(before, after, current),
    ensures
        same_songs(before, after),
        order::through(after, current) == order::through(before, current),
{
    let at = order::boundary(before, current);
    let stop = order::add_slot(before, current);
    order::lemma_run_end(before, at, order::by_hand());
    lemma_block_same_songs(before, after, at, at, stop);
    let b1 = before.take(at);
    let b2 = before.subrange(at, stop);
    let b3 = before.skip(stop);
    let a2 = after.subrange(at, stop);
    let a3 = after.skip(stop);
    vstd::seq_lib::lemma_multiset_commutative(b1, b2);
    vstd::seq_lib::lemma_multiset_commutative(b1 + b2, b3);
    vstd::seq_lib::lemma_multiset_commutative(b1, a2);
    vstd::seq_lib::lemma_multiset_commutative(b1 + a2, a3);
    assert(before =~= b1 + b2 + b3);
    assert(after =~= after.take(at) + a2 + a3);
}

/// A track queued by hand on its own keeps its place in the block of adds whatever the shuffle,
/// and the block as a whole holds the same tracks at the same place.
pub proof fn law_shuffle_keeps_the_manual_block(
    before: Seq<SongView>,
    after: Seq<SongView>,
    current: int,
)
    requires
        0 <= current,
        is_shuffle(before, after, current),
    ensures
        forall|k: int|
            order::boundary(before, current) <= k < order::add_slot(before, current) && (
            #[trigger] before[k]).queued_from is None ==> after[k] == before[k],
        same_songs(
            before.subrange(order::boundary(before, current), order::add_slot(before, current)),
            after.subrange(order::boundary(before, current), order::add_slot(before, current)),
        ),
{
    let at = order::boundary(before, current);
    let stop = order::add_slot(before, current);
    order::lemma_run_end(before, at, order::by_hand());
    lemma_block_same_songs(before, after, at, at, stop);
}

/// Behind the block of adds, a shuffle never promotes autoplay filler ahead of a queue track.
pub proof fn law_shuffle_keeps_filler_last(
    before: Seq<SongView>,
    after: Seq<SongView>,
    current: int,
    i: int,
    j: int,
)
    requires
        0 <= current,
        is_shuffle(before, after, current),
        order::add_slot(before, current) <= i < j < after.len(),
        after[i].autoplay,
    ensures
        after[j].autoplay,
{
    let stop = order::add_slot(before, current);
    order::lemma_run_end(before, order::boundary(before, current), order::by_hand());
    assert(after.skip(stop)[i - stop].autoplay);
    assert(after.skip(stop)[j - stop].autoplay);
}

/// In a freshly shuffled queue the clicked track plays first and nothing is lost or doubled.
pub proof fn law_fresh_shuffle_starts_with_the_click(
    before: Seq<SongView>,
    after: Seq<SongView>,
    start: int,
)
    requires
        0 <= start,
        before.len() > 0,
        is_fresh_shuffle(before, after, start),
    ensures
        after[0] == before[clicked(before.len() as int, start)],
        same_songs(before, after),
{
    broadcast use vstd::seq_lib::group_to_multiset_ensures;

    let k = clicked(before.len() as int, start);
    let turned = swapped(before, 0, k);
    law_shuffle_is_a_permutation(turned, after, 0);
    assert(after.take(1)[0] == turned.take(1)[0]);
    vstd::seq_lib::to_multiset_update(before, 0, before[k]);
    vstd::seq_lib::to_multiset_update(before.update(0, before[k]), k, before[0]);
    assert(turned.to_multiset() =~= before.to_multiset());
}

/// What a shuffle may move, track by track. Everything through the playing track stays at its
/// index, and so does what was queued by hand one at a time, as long as only adds stand in front
/// of it. The adds stay together in front: `stop` is where they end. Behind them nothing that
/// autoplay appended comes before a track that it did not.
pub proof fn law_shuffle_moves_only_the_rest(
    before: Seq<SongView>,
    after: Seq<SongView>,
    current: int,
    stop: int,
)
    requires
        0 <= current < stop <= before.len(),
        is_shuffle(before, after, current),
        forall|k: int|
            current < k < stop ==> (#[trigger] before[k]).queued || before[k].queued_end,
        stop < before.len() ==> !before[stop].queued && !before[stop].queued_end,
    ensures
        after.len() == before.len(),
        after.to_multiset() == before.to_multiset(),
        forall|k: int| 0 <= k <= current ==> #[trigger] after[k] == before[k],
        forall|k: int|
            current < k < stop && (#[trigger] before[k]).queued_from is None ==> after[k]
                == before[k],
        forall|k: int|
            current < k < stop ==> (#[trigger] after[k]).queued_from == before[k].queued_from,
        after.subrange(current + 1, stop).to_multiset() == before.subrange(
            current + 1,
            stop,
        ).to_multiset(),
        after.skip(stop).to_multiset() == before.skip(stop).to_multiset(),
        forall|i: int, j: int|
            stop <= i < j < after.len() && (#[trigger] after[i]).autoplay ==> (
            #[trigger] after[j]).autoplay,
{
    let at = order::boundary(before, current);
    assert(at == current + 1);
    assert forall|k: int| at <= k < stop implies order::by_hand()(#[trigger] before[k]) by {}
    order::lemma_run_end_unique(before, at, stop, order::by_hand());
    law_shuffle_is_a_permutation(before, after, current);
    law_shuffle_keeps_the_manual_block(before, after, current);
    assert forall|k: int| 0 <= k <= current implies #[trigger] after[k] == before[k] by {
        assert(after.take(at)[k] == before.take(at)[k]);
    }
    assert forall|i: int, j: int|
        stop <= i < j < after.len() && (#[trigger] after[i]).autoplay implies (
    #[trigger] after[j]).autoplay by {
        law_shuffle_keeps_filler_last(before, after, current, i, j);
    }
    assert forall|k: int| current < k < stop implies (#[trigger] after[k]).queued_from
        == before[k].queued_from by {
        lemma_runs_stay_in_place(before, after, at, stop, k);
    }
}

/// Where the run that holds `k` starts, within the block.
proof fn lemma_source_start(items: Seq<SongView>, a: int, k: int) -> (i: int)
    requires
        0 <= a <= k < items.len(),
    ensures
        a <= i <= k,
        forall|m: int| i <= m <= k ==> (#[trigger] items[m]).queued_from == items[k].queued_from,
        i > a ==> items[i - 1].queued_from != items[k].queued_from,
    decreases k - a,
{
    if k > a && items[k - 1].queued_from == items[k].queued_from {
        lemma_source_start(items, a, k - 1)
    } else {
        k
    }
}

/// A track of a shuffled block comes from where the track that stood there came from.
proof fn lemma_runs_stay_in_place(
    before: Seq<SongView>,
    after: Seq<SongView>,
    a: int,
    stop: int,
    k: int,
)
    requires
        0 <= a <= k < stop <= before.len(),
        after.len() == before.len(),
        block_shuffled(before, after, a, stop),
    ensures
        after[k].queued_from == before[k].queued_from,
{
    broadcast use vstd::seq_lib::group_to_multiset_ensures;

    if before[k].queued_from is Some {
        let from = before[k].queued_from;
        let i = lemma_source_start(before, a, k);
        lemma_source_end(before, k, stop, from);
        let e = source_end(before, k, stop, from);
        assert(before[i].queued_from == from);
        assert(e > k);
        assert forall|m: int| i <= m < e implies (#[trigger] before[m]).queued_from
            == before[i].queued_from by {}
        assert(is_source_run(before, a, stop, i, e));
        let x = before.subrange(i, e);
        let y = after.subrange(i, e);
        assert(y[k - i] == after[k]);
        assert(y.contains(after[k]));
        assert(y.to_multiset().contains(after[k]));
        assert(x.contains(after[k]));
        let j = x.index_of(after[k]);
        assert(before[i + j] == after[k]);
    }
}

/// A freshly shuffled queue opens with the clicked track, or with the last one where the click lies
/// behind the list.
pub proof fn law_fresh_shuffle_opens_at_the_index(
    before: Seq<SongView>,
    after: Seq<SongView>,
    start: int,
)
    requires
        0 <= start,
        before.len() > 0,
        is_fresh_shuffle(before, after, start),
    ensures
        after.len() == before.len(),
        start < before.len() ==> after[0] == before[start],
        start >= before.len() ==> after[0] == before.last(),
        after.to_multiset() == before.to_multiset(),
{
    law_fresh_shuffle_starts_with_the_click(before, after, start);
}

/// Shuffling moves nothing through the playing track and loses nothing.
pub proof fn law_shuffling_moves_only_the_upcoming(items: &mut Vec<SongItem>, current: usize)
    requires
        current < old(items)@.len(),
        call_ensures(shuffle_upcoming, (items, current), ()),
    ensures
        final(items)@.len() == old(items)@.len(),
        song::songs(final(items)@).to_multiset() == song::songs(old(items)@).to_multiset(),
        forall|k: int|
            0 <= k <= current ==> (#[trigger] final(items)@[k])@ == old(items)@[k]@,
{
    let a = song::songs(old(items)@);
    let b = song::songs(final(items)@);
    law_shuffle_is_a_permutation(a, b, current as int);
    let at = order::boundary(a, current as int);
    assert(b.len() == a.len());
    assert forall|k: int| 0 <= k <= current implies (#[trigger] final(items)@[k])@
        == old(items)@[k]@ by {
        assert(b.take(at)[k] == a.take(at)[k]);
        assert(b[k] == final(items)@[k]@);
        assert(a[k] == old(items)@[k]@);
    }
}

} // verus!
