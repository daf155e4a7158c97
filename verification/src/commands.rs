//! The user's commands on the queue: playing, queueing, editing, shuffle and repeat.

use crate::edit;
use crate::order;
use crate::order::RepeatMode;
use crate::queue;
use crate::queue::QueueView;
use crate::radio;
use crate::shuffle;
use crate::song;
use crate::song::SongItem;
use crate::song::SongView;
use crate::song::Track;
use crate::state;
use crate::state::Action;
use crate::state::AppState;
use crate::state::AppView;
use crate::text;
use vstd::prelude::*;

verus! {

broadcast use crate::song::group_songs;

/// How many pages of a playlist are walked, at most, so that one that keeps handing out tokens
/// cannot be walked forever.
pub const MAX_PAGES: u64 = 50;

// --- shuffle and repeat -------------------------------------------------------------------

impl AppState {
    /// Switches shuffle on the current queue. A guest is only told that the host controls
    /// playback.
    pub fn toggle_shuffle(&mut self, guest: bool) -> (r: Vec<Action>)
        requires
            !guest && old(self).queue.items@.len() > 0 && old(self).queue.shuffle_orig is Some
                ==> old(self).queue.current < old(self).queue.items@.len(),
        ensures
            final(self)@ == (AppView { queue: final(self)@.queue, ..old(self)@ }),
            guest ==> final(self)@ == old(self)@ && r@ == seq![Action::GuestHint],
            !guest ==> edit::is_toggled(old(self)@.queue, final(self)@.queue),
            !guest && old(self)@.queue.items.len() == 0 ==> r@.len() == 0,
            !guest && old(self)@.queue.items.len() > 0 ==> r@ == state::clear_if(
                old(self)@.queue.lookahead_loaded is Some,
            ) + seq![
                Action::EmitQueue,
                Action::PersistQueue,
                Action::Prime(old(self)@.generation),
                Action::Extend(old(self)@.generation),
                Action::BroadcastQueue,
            ],
    {
        let ghost before = self@;
        let mut r: Vec<Action> = Vec::new();
        if guest {
            r.push(Action::GuestHint);
            assert(r@ =~= seq![Action::GuestHint]);
            return r;
        }
        if self.queue.items.len() == 0 {
            return r;
        }
        if self.queue.flip_shuffle() {
            r.push(Action::ClearPlaylist);
        }
        r.push(Action::EmitQueue);
        r.push(Action::PersistQueue);
        r.push(Action::Prime(self.generation));
        r.push(Action::Extend(self.generation));
        r.push(Action::BroadcastQueue);
        assert(r@ =~= state::clear_if(before.queue.lookahead_loaded is Some) + seq![
            Action::EmitQueue,
            Action::PersistQueue,
            Action::Prime(before.generation),
            Action::Extend(before.generation),
            Action::BroadcastQueue,
        ]);
        r
    }

    /// Sets the repeat mode. Repeating one track is left to the player, which loops the file.
    pub fn set_repeat(&mut self, guest: bool, mode: RepeatMode) -> (r: Vec<Action>)
        ensures
            guest ==> final(self)@ == old(self)@ && r@ == seq![Action::GuestHint],
            !guest ==> final(self)@ == (AppView {
                queue: QueueView { repeat: mode, ..old(self)@.queue },
                ..old(self)@
            }),
            !guest ==> r@ == seq![
                Action::LoopFile(mode == RepeatMode::One),
                Action::EmitQueue,
                Action::PersistQueue,
                Action::Prime(old(self)@.generation),
            ],
    {
        let ghost before = self@;
        let mut r: Vec<Action> = Vec::new();
        if guest {
            r.push(Action::GuestHint);
            assert(r@ =~= seq![Action::GuestHint]);
            return r;
        }
        self.queue.repeat = mode;
        let one: bool = match mode {
            RepeatMode::One => true,
            _ => false,
        };
        r.push(Action::LoopFile(one));
        r.push(Action::EmitQueue);
        r.push(Action::PersistQueue);
        r.push(Action::Prime(self.generation));
        assert(r@ =~= seq![
            Action::LoopFile(mode == RepeatMode::One),
            Action::EmitQueue,
            Action::PersistQueue,
            Action::Prime(before.generation),
        ]);
        r
    }
}

// --- editing ------------------------------------------------------------------------------

impl AppState {
    /// Takes a track that is not playing out of the queue. Guests can remove nothing.
    pub fn remove_from_queue(&mut self, guest: bool, index: usize) -> (r: Vec<Action>)
        ensures
            guest ==> final(self)@ == old(self)@,
            !guest ==> final(self)@ == (AppView {
                queue: edit::without(old(self)@.queue, index as int),
                ..old(self)@
            }),
            r@ == if !guest && edit::removable(old(self)@.queue, index as int) {
                let primed = old(self)@.queue.lookahead_loaded == Some(index as int);
                state::edit_actions(primed, primed, old(self)@.generation)
            } else {
                seq![]
            },
    {
        if guest {
            return Vec::new();
        }
        match self.queue.remove_at(index) {
            Some(stale) => state::after_edit(stale, stale, self.generation),
            None => Vec::new(),
        }
    }

    /// Drags an upcoming track to another upcoming place. An index that is not past the playing
    /// track counts as the first that is. Guests own no queue.
    pub fn move_in_queue(&mut self, guest: bool, from: usize, to: usize) -> (r: Vec<Action>)
        ensures
            guest ==> final(self)@ == old(self)@,
            !guest ==> final(self)@ == (AppView {
                queue: edit::moved(old(self)@.queue, from as int, to as int),
                ..old(self)@
            }),
            r@ == if !guest && edit::movable(old(self)@.queue, from as int, to as int) {
                let stale = old(self)@.queue.lookahead_loaded is Some
                    && final(self)@.queue.lookahead_loaded is None;
                state::edit_actions(stale, stale, old(self)@.generation)
            } else {
                seq![]
            },
    {
        if guest {
            return Vec::new();
        }
        match self.queue.drag(from, to) {
            Some(stale) => state::after_edit(stale, stale, self.generation),
            None => Vec::new(),
        }
    }

    /// Takes out every upcoming track that was queued by hand. Guests can clear nothing.
    pub fn clear_queued(&mut self, guest: bool) -> (r: Vec<Action>)
        ensures
            guest ==> final(self)@ == old(self)@,
            !guest ==> final(self)@ == (AppView {
                queue: edit::cleared(old(self)@.queue),
                ..old(self)@
            }),
            r@ == if !guest && edit::unqueued(old(self)@.queue).len()
                != old(self)@.queue.items.len() {
                state::edit_actions(
                    old(self)@.queue.lookahead_loaded is Some,
                    true,
                    old(self)@.generation,
                )
            } else {
                seq![]
            },
    {
        if guest {
            return Vec::new();
        }
        match self.queue.clear_adds() {
            Some(had) => state::after_edit(had, true, self.generation),
            None => Vec::new(),
        }
    }
}

// --- walking a playlist -------------------------------------------------------------------

/// Which queue the pages of a walk join: the one that plays, or a block that was added by hand,
/// under the name it came from.
pub enum Fill {
    Playing,
    Queued(Option<String>),
}

/// What a [`Fill`] holds.
pub enum FillView {
    Playing,
    Queued(Option<Seq<char>>),
}

impl View for Fill {
    type V = FillView;

    open spec fn view(&self) -> FillView {
        match *self {
            Fill::Playing => FillView::Playing,
            Fill::Queued(from) => FillView::Queued(text::opt_text(from)),
        }
    }
}

/// A walk through the rest of a playlist: the generation that it belongs to, the token of its next
/// page, and how many pages it has added.
pub struct Walk {
    pub generation: u64,
    pub token: String,
    pub fill: Fill,
    pub pages: u64,
}

/// What a [`Walk`] holds.
pub struct WalkView {
    pub generation: u64,
    pub token: Seq<char>,
    pub fill: FillView,
    pub pages: u64,
}

impl View for Walk {
    type V = WalkView;

    open spec fn view(&self) -> WalkView {
        WalkView {
            generation: self.generation,
            token: self.token@,
            fill: self.fill@,
            pages: self.pages,
        }
    }
}

/// The view of an optional walk.
pub open spec fn opt_walk(w: Option<Walk>) -> Option<WalkView> {
    match w {
        Some(x) => Some(x@),
        None => None,
    }
}

/// The walk that a continuation token starts.
pub open spec fn walk_from(
    generation: u64,
    token: Option<Seq<char>>,
    fill: FillView,
) -> Option<WalkView> {
    match token {
        Some(t) => Some(WalkView { generation, token: t, fill, pages: 0 }),
        None => None,
    }
}

/// A page as it joins the queue: the rest of an added playlist carries the same markers as its
/// first page.
pub open spec fn filled(page: Seq<SongView>, fill: FillView) -> Seq<SongView> {
    match fill {
        FillView::Playing => page,
        FillView::Queued(from) => Seq::new(
            page.len(),
            |i: int| SongView { queued_end: true, queued_from: from, ..page[i] },
        ),
    }
}

/// Whether the walk goes on behind a page: it has a next one, and the bound is not reached.
pub open spec fn walks_on(walk: WalkView, continuation: Option<Seq<char>>) -> bool {
    continuation is Some && walk.pages + 1 < MAX_PAGES
}

/// The actions at the end of a walk that added anything.
pub open spec fn walked_actions(pages: int) -> Seq<Action> {
    if pages > 0 {
        seq![Action::PersistQueue, Action::BroadcastQueue]
    } else {
        seq![]
    }
}

/// The actions behind a page of a walk.
pub open spec fn page_actions(clear: bool, gen: u64, more: bool) -> Seq<Action> {
    state::clear_if(clear) + seq![Action::EmitQueue, Action::Prime(gen)] + (if more {
        seq![]
    } else {
        seq![Action::PersistQueue, Action::BroadcastQueue]
    })
}

/// Whether `after` is `before` with a page of a walk in it, and a primed track that no longer is
/// what plays next forgotten.
pub open spec fn takes_page(
    before: QueueView,
    after: QueueView,
    page: Seq<SongView>,
    fill: FillView,
) -> bool {
    exists|mid: QueueView| #[trigger]
        edit::is_page_appended(before, mid, filled(page, fill), fill is Playing) && after
            == edit::retargeted(mid)
}

/// Whether a page joins the queue: it was fetched, it holds something, and the walk's generation
/// still counts.
pub open spec fn joins(a: AppView, walk: WalkView, page: Option<Seq<SongView>>) -> bool {
    page is Some && page->0.len() > 0 && a.generation == walk.generation
}

/// Marks the tracks of a page as the rest of an added playlist.
fn mark_page(items: &mut Vec<SongItem>, from: &Option<String>)
    ensures
        song::songs(final(items)@) == filled(
            song::songs(old(items)@),
            FillView::Queued(text::opt_text(*from)),
        ),
{
    let ghost all = song::songs(items@);
    let ghost done = filled(all, FillView::Queued(text::opt_text(*from)));
    let n: usize = items.len();
    for i in 0..n
        invariant
            n == items@.len(),
            n == all.len(),
            done == filled(all, FillView::Queued(text::opt_text(*from))),
            song::songs(items@) == done.take(i as int) + all.skip(i as int),
    {
        let ghost was = song::songs(items@);
        assert(was[i as int] == all[i as int]);
        items[i].queued_end = true;
        items[i].queued_from = text::copy_opt(from);
        assert(items@[i as int]@ =~= done[i as int]);
        assert(song::songs(items@) =~= was.update(i as int, done[i as int]));
        assert(song::songs(items@) =~= done.take(i + 1) + all.skip(i + 1));
    }
    assert(song::songs(items@) =~= done);
}

impl AppState {
    /// Takes the next page of a walk in. `page` is `None` where it could not be fetched, and
    /// `continuation` is the token behind it. Answers the actions, and whether to fetch another
    /// page. A page that fails or is empty ends the walk; one that arrives under another generation
    /// ends it without a trace.
    pub fn fill_page(
        &mut self,
        walk: &mut Walk,
        page: Option<Vec<SongItem>>,
        continuation: Option<String>,
    ) -> (r: (Vec<Action>, bool))
        requires
            old(walk).pages < MAX_PAGES,
        ensures
            joins(old(self)@, old(walk)@, queue::opt_songs(page)) ==> {
                &&& final(self)@ == AppView { queue: final(self)@.queue, ..old(self)@ }
                &&& takes_page(
                    old(self)@.queue,
                    final(self)@.queue,
                    queue::opt_songs(page)->0,
                    old(walk)@.fill,
                )
                &&& r.1 == walks_on(old(walk)@, text::opt_text(continuation))
                &&& r.0@ == page_actions(
                    old(self)@.queue.lookahead_loaded is Some
                        && final(self)@.queue.lookahead_loaded is None,
                    old(walk)@.generation,
                    r.1,
                )
                &&& final(walk)@ == WalkView {
                    token: if r.1 {
                        text::opt_text(continuation)->0
                    } else {
                        old(walk)@.token
                    },
                    pages: (old(walk)@.pages + 1) as u64,
                    ..old(walk)@
                }
            },
            !joins(old(self)@, old(walk)@, queue::opt_songs(page)) ==> {
                &&& final(self)@ == old(self)@
                &&& final(walk)@ == old(walk)@
                &&& !r.1
                &&& r.0@ == if page is Some && old(self)@.generation != old(walk)@.generation {
                    seq![]
                } else {
                    walked_actions(old(walk)@.pages as int)
                }
            },
            r.1 ==> final(walk).pages < MAX_PAGES,
    {
        let ghost before = self@;
        let ghost first = walk@;
        let mut list: Vec<Action> = Vec::new();
        let fetched = page.is_some();
        let mut items = match page {
            Some(items) => items,
            None => Vec::new(),
        };
        if fetched && self.generation != walk.generation {
            return (list, false);
        }
        if !fetched || items.len() == 0 {
            if walk.pages > 0 {
                list.push(Action::PersistQueue);
                list.push(Action::BroadcastQueue);
            }
            assert(list@ =~= walked_actions(walk.pages as int));
            return (list, false);
        }
        let ghost given = song::songs(items@);
        let playing: bool = match &walk.fill {
            Fill::Playing => true,
            Fill::Queued(from) => {
                mark_page(&mut items, from);
                false
            },
        };
        assert(song::songs(items@) =~= filled(given, walk@.fill));
        edit::append_page(&mut self.queue, items, playing);
        let ghost mid = self.queue@;
        assert(edit::is_page_appended(
            before.queue,
            mid,
            filled(given, walk@.fill),
            walk@.fill is Playing,
        ));
        let clear: bool = self.queue.retarget_lookahead();
        if clear {
            list.push(Action::ClearPlaylist);
        }
        list.push(Action::EmitQueue);
        list.push(Action::Prime(walk.generation));
        walk.pages = walk.pages + 1;
        let more: bool = match continuation {
            Some(next) => {
                if walk.pages < MAX_PAGES {
                    walk.token = next;
                    true
                } else {
                    false
                }
            },
            None => false,
        };
        if !more {
            list.push(Action::PersistQueue);
            list.push(Action::BroadcastQueue);
        }
        assert(list@ =~= page_actions(clear, walk@.generation, more));
        assert(self@ =~= (AppView { queue: self@.queue, ..before }));
        (list, more)
    }
}

// --- queueing by hand ---------------------------------------------------------------------

/// Whether `after` is `before` once tracks have been queued by hand, and `actions` what follows.
/// An add to an empty queue is the whole queue and starts it.
pub open spec fn is_inserted(
    before: AppView,
    after: AppView,
    actions: Seq<Action>,
    items: Seq<SongView>,
    next: bool,
    from: Option<Seq<char>>,
    dedupe: bool,
    guest: bool,
) -> bool {
    if items.len() == 0 {
        after == before && actions.len() == 0
    } else {
        exists|block: Seq<SongView>| #[trigger]
            edit::is_add_order(
                before.queue,
                edit::all_marked(items, next, from),
                block,
                from,
            ) && inserted(
                before,
                items,
                edit::all_marked(items, next, from),
                block,
                next,
                dedupe,
                guest,
            ) == (after, actions)
    }
}

/// The state once the marked tracks `adds` have been queued in the order `block`, and what
/// follows.
pub open spec fn inserted(
    before: AppView,
    items: Seq<SongView>,
    adds: Seq<SongView>,
    block: Seq<SongView>,
    next: bool,
    dedupe: bool,
    guest: bool,
) -> (AppView, Seq<Action>) {
    let q = edit::with_adds(before.queue, order::id_set(items), adds, block, next, dedupe);
    let a = AppView { queue: q, ..before };
    let clear = before.queue.lookahead_loaded is Some && q.lookahead_loaded is None;
    if before.queue.items.len() == 0 {
        let jumped = state::jump(a, guest, 0);
        (jumped.0, state::clear_if(clear) + jumped.1 + seq![Action::BroadcastQueue])
    } else {
        (a, state::edit_actions(clear, true, before.generation))
    }
}

/// The tracks of a list, each with the name of who queued it.
pub open spec fn stamped(list: Seq<SongView>, by: Seq<char>) -> Seq<SongView> {
    Seq::new(list.len(), |i: int| SongView { queued_by: Some(by), ..list[i] })
}

/// The tracks as they are queued: in a room, the host's adds carry the host's name.
pub open spec fn signed_adds(
    list: Seq<SongView>,
    host: bool,
    username: Option<Seq<char>>,
) -> Seq<SongView> {
    if host {
        stamped(
            list,
            match username {
                Some(name) => name,
                None => "Host"@,
            },
        )
    } else {
        list
    }
}

/// Who is queueing: a guest of a room, its host, or someone outside any.
pub struct Role {
    pub guest: bool,
    pub host: bool,
    pub username: Option<String>,
}

/// What queueing came to.
pub enum Enqueued {
    /// There was nothing to queue.
    Nothing,
    /// A guest owns no queue: these go to the host as suggestions, in order.
    Suggest(Vec<Track>),
    /// The tracks were queued. The rest of their playlist is to be walked, where it has one.
    Done(Vec<Action>, Option<Walk>),
}

/// Writes the name of who queued them on the tracks of a list.
fn stamp(items: &mut Vec<SongItem>, by: &str)
    ensures
        song::songs(final(items)@) == stamped(song::songs(old(items)@), by@),
{
    let ghost all = song::songs(items@);
    let ghost done = stamped(all, by@);
    let n: usize = items.len();
    for i in 0..n
        invariant
            n == items@.len(),
            n == all.len(),
            done == stamped(all, by@),
            song::songs(items@) == done.take(i as int) + all.skip(i as int),
    {
        let ghost was = song::songs(items@);
        assert(was[i as int] == all[i as int]);
        items[i].queued_by = Some(by.to_owned());
        assert(items@[i as int]@ =~= done[i as int]);
        assert(song::songs(items@) =~= was.update(i as int, done[i as int]));
        assert(song::songs(items@) =~= done.take(i + 1) + all.skip(i + 1));
    }
    assert(song::songs(items@) =~= done);
}

impl AppState {
    /// Queues tracks by hand: at the front of the manual block, behind earlier ones ("Play
    /// next"), or at its back ("Add to queue"). With `dedupe` every copy that is in the queue is
    /// moved rather than doubled.
    pub fn insert_queued(
        &mut self,
        items: Vec<SongItem>,
        next: bool,
        from: Option<String>,
        dedupe: bool,
        guest: bool,
    ) -> (r: Vec<Action>)
        requires
            !guest ==> old(self).generation < u64::MAX,
        ensures
            is_inserted(
                old(self)@,
                final(self)@,
                r@,
                song::songs(items@),
                next,
                text::opt_text(from),
                dedupe,
                guest,
            ),
    {
        let ghost before = self@;
        if items.len() == 0 {
            return Vec::new();
        }
        let ghost given = song::songs(items@);
        let ghost source = text::opt_text(from);
        let was_empty: bool = self.queue.items.len() == 0;
        let clear: bool = self.queue.insert_adds(items, next, from, dedupe);
        let ghost adds = edit::all_marked(given, next, source);
        let ghost block = choose|block: Seq<SongView>| #[trigger]
            edit::is_add_order(before.queue, adds, block, source) && self.queue@
                == edit::with_adds(
                before.queue,
                order::id_set(given),
                adds,
                block,
                next,
                dedupe,
            );
        let ghost mid = self@;
        assert(mid =~= (AppView { queue: self.queue@, ..before }));
        let mut r: Vec<Action> = Vec::new();
        if was_empty {
            if clear {
                r.push(Action::ClearPlaylist);
            }
            let mut jumped = self.play_index(guest, 0);
            let ghost then = jumped@;
            r.append(&mut jumped);
            r.push(Action::BroadcastQueue);
            assert(r@ =~= state::clear_if(clear) + then + seq![Action::BroadcastQueue]);
        } else {
            r = state::after_edit(clear, true, self.generation);
        }
        assert(inserted(before, given, adds, block, next, dedupe, guest) == (self@, r@));
        r
    }

    /// Queues tracks by hand, as whoever is queueing.
    fn enqueue(
        &mut self,
        items: Vec<SongItem>,
        next: bool,
        from: Option<String>,
        continuation: Option<String>,
        dedupe: bool,
        role: &Role,
    ) -> (r: Enqueued)
        requires
            !role.guest ==> old(self).generation < u64::MAX,
            role.guest ==> song::all_wirable(song::songs(items@), 0, items@.len() as int),
        ensures
            is_enqueued(
                old(self)@,
                final(self)@,
                r,
                song::songs(items@),
                next,
                text::opt_text(from),
                text::opt_text(continuation),
                dedupe,
                *role,
            ),
    {
        let ghost given = song::songs(items@);
        if items.len() == 0 {
            return Enqueued::Nothing;
        }
        if role.guest {
            let n: usize = items.len();
            assert(given.subrange(0, n as int) =~= given);
            return Enqueued::Suggest(song::wire_between(&items, 0, n));
        }
        let mut items = items;
        if role.host {
            match &role.username {
                Some(name) => {
                    stamp(&mut items, name.as_str());
                },
                None => {
                    stamp(&mut items, "Host");
                },
            }
        }
        assert(song::songs(items@) =~= signed_adds(
            given,
            role.host,
            text::opt_text(role.username),
        ));
        let block_name = text::copy_opt(&from);
        let actions = self.insert_queued(items, next, from, dedupe, false);
        let walk = match continuation {
            Some(token) => Some(
                Walk {
                    generation: self.generation,
                    token,
                    fill: Fill::Queued(block_name),
                    pages: 0,
                },
            ),
            None => None,
        };
        Enqueued::Done(actions, walk)
    }

    /// "Play next": the tracks land right after the current song, behind earlier manual adds.
    /// `from` is the album or playlist that they came from.
    pub fn play_next(
        &mut self,
        items: Vec<SongItem>,
        from: Option<String>,
        dedupe: bool,
        role: &Role,
    ) -> (r: Enqueued)
        requires
            !role.guest ==> old(self).generation < u64::MAX,
            role.guest ==> song::all_wirable(song::songs(items@), 0, items@.len() as int),
        ensures
            is_enqueued(
                old(self)@,
                final(self)@,
                r,
                song::songs(items@),
                true,
                text::opt_text(from),
                None,
                dedupe,
                *role,
            ),
    {
        self.enqueue(items, true, from, None, dedupe, role)
    }

    /// "Add to queue": the tracks go at the back of the manual block, ahead of the playing context.
    /// `continuation` is the token of the next page, whose tracks are walked in behind them.
    pub fn add_to_queue(
        &mut self,
        items: Vec<SongItem>,
        from: Option<String>,
        continuation: Option<String>,
        dedupe: bool,
        role: &Role,
    ) -> (r: Enqueued)
        requires
            !role.guest ==> old(self).generation < u64::MAX,
            role.guest ==> song::all_wirable(song::songs(items@), 0, items@.len() as int),
        ensures
            is_enqueued(
                old(self)@,
                final(self)@,
                r,
                song::songs(items@),
                false,
                text::opt_text(from),
                text::opt_text(continuation),
                dedupe,
                *role,
            ),
    {
        self.enqueue(items, false, from, continuation, dedupe, role)
    }

    /// Adds a track that a guest of the room suggested, as a "Play next".
    pub fn lt_enqueue_track(&mut self, track: Track, dedupe: bool, guest: bool) -> (r: Vec<Action>)
        requires
            !guest ==> old(self).generation < u64::MAX,
        ensures
            is_inserted(
                old(self)@,
                final(self)@,
                r@,
                seq![song::unwired(track@)],
                true,
                None,
                dedupe,
                guest,
            ),
    {
        let mut items: Vec<SongItem> = Vec::new();
        items.push(song::track_to_song(&track));
        assert(song::songs(items@) =~= seq![song::unwired(track@)]);
        self.insert_queued(items, true, None, dedupe, guest)
    }
}

/// Whether `r` and `after` are what queueing comes to.
pub open spec fn is_enqueued(
    before: AppView,
    after: AppView,
    r: Enqueued,
    items: Seq<SongView>,
    next: bool,
    from: Option<Seq<char>>,
    continuation: Option<Seq<char>>,
    dedupe: bool,
    role: Role,
) -> bool {
    if items.len() == 0 {
        after == before && r is Nothing
    } else if role.guest {
        after == before && (r matches Enqueued::Suggest(list) && song::tracks(list@)
            == song::wire_all(items))
    } else {
        r matches Enqueued::Done(actions, walk) && is_inserted(
            before,
            after,
            actions@,
            signed_adds(items, role.host, text::opt_text(role.username)),
            next,
            from,
            dedupe,
            false,
        ) && opt_walk(walk) == walk_from(
            after.generation,
            continuation,
            FillView::Queued(from),
        )
    }
}

// --- starting a queue ---------------------------------------------------------------------

/// What a click on a song came to.
pub enum SongStart {
    /// A guest follows the host: the song goes to the host as a suggestion.
    Suggest(Track),
    /// The song is to be loaded under this generation. Where that works, its radio is to be
    /// fetched and handed to [`AppState::hydrate_song`]; a file on disk has none, and only the next
    /// track is primed.
    Start(u64, Option<String>),
}

impl AppState {
    /// Starts a fresh queue from one track. `local` says whether it is a file on disk.
    pub fn play_song(&mut self, guest: bool, seed: SongItem, local: bool) -> (r: SongStart)
        requires
            !guest ==> old(self).generation < u64::MAX,
            guest ==> song::wirable(seed@),
        ensures
            guest ==> final(self)@ == old(self)@ && (r matches SongStart::Suggest(t) && t@
                == song::wire(seed@)),
            !guest ==> final(self)@ == (AppView {
                generation: state::next_generation(old(self)@),
                queue: queue::song_queue(old(self)@.queue, seed@, local),
                ..old(self)@
            }),
            !guest ==> (r matches SongStart::Start(g, radio) && g == state::next_generation(
                old(self)@,
            ) && text::opt_text(radio) == if local {
                None
            } else {
                Some("RDAMVM"@ + seed@.video_id)
            }),
    {
        if guest {
            return SongStart::Suggest(song::song_to_track(&seed));
        }
        let g: u64 = self.bump();
        let radio = if local {
            None
        } else {
            Some(text::joined("RDAMVM", seed.video_id.as_str()))
        };
        self.queue.start_song(seed, local);
        SongStart::Start(g, radio)
    }

    /// Takes in the radio of the song that was started. `fresh` is `None` where it could not be
    /// fetched, which is no reason not to go on.
    pub fn hydrate_song(
        &mut self,
        gen: u64,
        video_id: &str,
        fresh: Option<Vec<SongItem>>,
    ) -> (r: Vec<Action>)
        ensures
            fresh is None ==> final(self)@ == old(self)@ && r@ == seq![Action::Prime(gen)],
            fresh is Some && old(self)@.generation != gen ==> final(self)@ == old(self)@
                && r@.len() == 0,
            fresh is Some && old(self)@.generation == gen ==> {
                &&& final(self)@ == AppView { queue: final(self)@.queue, ..old(self)@ }
                &&& queue::is_hydrated(
                    old(self)@.queue,
                    final(self)@.queue,
                    video_id@,
                    queue::opt_songs(fresh)->0,
                )
                &&& r@ == seq![Action::EmitQueue, Action::Prime(gen)]
            },
    {
        let ghost before = self@;
        let mut r: Vec<Action> = Vec::new();
        match fresh {
            Some(items) => {
                if self.generation != gen {
                    return r;
                }
                self.queue.hydrate(video_id, items);
                r.push(Action::EmitQueue);
                r.push(Action::Prime(gen));
                assert(r@ =~= seq![Action::EmitQueue, Action::Prime(gen)]);
                assert(self@ =~= (AppView { queue: self@.queue, ..before }));
            },
            None => {
                r.push(Action::Prime(gen));
                assert(r@ =~= seq![Action::Prime(gen)]);
            },
        }
        r
    }
}

/// A list to play, and where it came from.
pub struct Listing {
    pub items: Vec<SongItem>,
    /// The clicked track; without one, the list is just played.
    pub start: Option<usize>,
    /// The id of the playlist or album, whose radio continues the queue.
    pub source_id: Option<String>,
    pub source_name: Option<String>,
    /// Whether shuffle is to be turned on.
    pub shuffle: bool,
    /// The token of the list's next page.
    pub continuation: Option<String>,
}

/// Whether `after` is the queue that playing a list leaves, with shuffle on or off.
pub open spec fn opens_list(
    before: QueueView,
    after: QueueView,
    list: Listing,
    shuffled: bool,
) -> bool {
    exists|at: int| #[trigger]
        queue::is_opened_at(
            list.items@.len() as int,
            order::opt_index(list.start),
            shuffled,
            at,
        ) && queue::plays_tracks(
            before,
            after,
            song::songs(list.items@),
            at,
            text::opt_text(list.source_id),
            text::opt_text(list.source_name),
            shuffled,
        )
}

/// Whether `after`, `actions` and `walk` are what playing a list comes to. A mix is not walked.
pub open spec fn is_list_played(
    before: AppView,
    after: AppView,
    actions: Seq<Action>,
    walk: Option<WalkView>,
    list: Listing,
    guest: bool,
) -> bool {
    let items = song::songs(list.items@);
    let shuffled = before.queue.shuffle_orig is Some || list.shuffle;
    let g = state::next_generation(before);
    if items.len() == 0 {
        after == before && actions.len() == 0 && walk is None
    } else if guest {
        after == before && actions == seq![Action::GuestHint] && walk is None
    } else {
        &&& after == AppView { generation: g, queue: after.queue, ..before }
        &&& opens_list(before.queue, after.queue, list, shuffled)
        &&& actions == seq![Action::Start(g)]
        &&& walk == walk_from(
            g,
            if list.source_id is Some && radio::mix_id(list.source_id->0@) {
                None
            } else {
                text::opt_text(list.continuation)
            },
            FillView::Playing,
        )
    }
}

impl AppState {
    /// Plays a list of tracks. Unplayed manual adds follow the track it opens at, ahead of the
    /// list. Shuffle is kept where it was on. The rest of a long list is walked in the background.
    pub fn play_tracks(&mut self, guest: bool, list: Listing) -> (r: (Vec<Action>, Option<Walk>))
        requires
            !guest ==> old(self).generation < u64::MAX,
        ensures
            is_list_played(old(self)@, final(self)@, r.0@, opt_walk(r.1), list, guest),
            !guest && list.items@.len() > 0 ==> final(self)@.queue.valid(),
            !guest && list.items@.len() > 0 ==> final(self)@.queue.source_name == text::opt_text(
                list.source_name,
            ),
            !guest ==> (list.start matches Some(i) ==> i < list.items@.len()
                ==> final(self)@.queue.playing() == Some(list.items@[i as int]@)),
    {
        let ghost before = self@;
        let ghost given = list;
        let n: usize = list.items.len();
        let mut actions: Vec<Action> = Vec::new();
        if n == 0 {
            return (actions, None);
        }
        if guest {
            actions.push(Action::GuestHint);
            assert(actions@ =~= seq![Action::GuestHint]);
            return (actions, None);
        }
        let mix: bool = radio::is_mix(text::as_opt_str(&list.source_id));
        let g: u64 = self.bump();
        let shuffled: bool = self.queue.shuffle_orig.is_some() || list.shuffle;
        let start: usize = match list.start {
            Some(i) => if i < n {
                i
            } else {
                n - 1
            },
            None => if shuffled {
                shuffle::random_below(n)
            } else {
                0
            },
        };
        assert(queue::is_opened_at(
            n as int,
            order::opt_index(list.start),
            shuffled,
            start as int,
        ));
        self.queue.install_tracks(
            list.items,
            start,
            list.source_id,
            list.source_name,
            shuffled,
        );
        let walk = match list.continuation {
            Some(token) => if mix {
                None
            } else {
                Some(Walk { generation: g, token, fill: Fill::Playing, pages: 0 })
            },
            None => None,
        };
        actions.push(Action::Start(g));
        assert(actions@ =~= seq![Action::Start(g)]);
        assert(self@ =~= (AppView { generation: g, queue: self@.queue, ..before }));
        (actions, walk)
    }
}

/// Switching what plays never loses what the user lined up: every unplayed manual add follows the
/// track that the new queue opens at.
pub proof fn law_manual_adds_survive_a_new_list(
    before: AppView,
    after: AppView,
    actions: Seq<Action>,
    walk: Option<WalkView>,
    list: Listing,
)
    requires
        list.items@.len() > 0,
        is_list_played(before, after, actions, walk, list, false),
    ensures
        after.queue.current + 1 + order::carried(before.queue.items, before.queue.current).len()
            <= after.queue.items.len(),
        after.queue.items.subrange(
            after.queue.current + 1,
            after.queue.current + 1 + order::carried(
                before.queue.items,
                before.queue.current,
            ).len(),
        ) == order::carried(before.queue.items, before.queue.current),
{
    let items = song::songs(list.items@);
    let shuffled = before.queue.shuffle_orig is Some || list.shuffle;
    let at = choose|at: int| #[trigger]
        queue::is_opened_at(items.len() as int, order::opt_index(list.start), shuffled, at)
            && queue::plays_tracks(
            before.queue,
            after.queue,
            items,
            at,
            text::opt_text(list.source_id),
            text::opt_text(list.source_name),
            shuffled,
        );
    let carried = order::carried(before.queue.items, before.queue.current);
    let (order, cur) = if shuffled {
        let order = choose|order: Seq<SongView>| #[trigger]
            shuffle::is_fresh_shuffle(items, order, at) && after.queue == queue::tracks_queue(
                before.queue,
                items,
                order,
                0,
                text::opt_text(list.source_id),
                text::opt_text(list.source_name),
                true,
            );
        shuffle::law_fresh_shuffle_starts_with_the_click(items, order, at);
        (order, 0int)
    } else {
        (items, at)
    };
    assert(after.queue.items == order::spliced(order, cur + 1, carried));
    assert(after.queue.items.subrange(cur + 1, cur + 1 + carried.len()) =~= carried);
}

/// The manual adds survive a click on a single song as well: they follow it.
pub proof fn law_manual_adds_survive_a_new_song(q: QueueView, seed: SongView, local: bool)
    ensures
        queue::song_queue(q, seed, local).items.skip(1) == order::carried(q.items, q.current),
        queue::song_queue(q, seed, local).playing() == Some(seed),
{
    assert(queue::song_queue(q, seed, local).items.skip(1) =~= order::carried(
        q.items,
        q.current,
    ));
}

/// An add to an empty queue is the whole queue, and starts playing at its first track.
pub proof fn law_first_add_starts_the_queue(
    before: AppView,
    items: Seq<SongView>,
    adds: Seq<SongView>,
    block: Seq<SongView>,
    next: bool,
    dedupe: bool,
)
    requires
        before.queue.valid(),
        before.queue.items.len() == 0,
        block.len() > 0,
    ensures
        ({
            let (after, actions) = inserted(before, items, adds, block, next, dedupe, false);
            &&& after.queue.valid()
            &&& after.queue.items == block
            &&& after.queue.playing() == Some(block[0])
            &&& actions.contains(Action::Start(state::next_generation(before)))
        }),
{
    let set = order::id_set(items);
    let left = edit::swept(before.queue, set, dedupe);
    let none = Seq::<SongView>::empty();
    assert(before.queue.items =~= none);
    assert(none.filter(order::outside(set)) =~= none) by {
        reveal(Seq::filter);
    }
    assert(none.filter(order::not_waiting(set)) =~= none) by {
        reveal(Seq::filter);
    }
    assert(none.take(0) =~= none);
    assert(none.skip(0) =~= none);
    assert(left.items =~= none);
    let (after, actions) = inserted(before, items, adds, block, next, dedupe, false);
    assert(after.queue.items =~= block);
    let g = state::next_generation(before);
    let clear = before.queue.lookahead_loaded is Some && edit::with_adds(
        before.queue,
        set,
        adds,
        block,
        next,
        dedupe,
    ).lookahead_loaded is None;
    assert(actions[state::clear_if(clear).len() as int] == Action::Start(g));
}

// --- what queueing and playing are for ----------------------------------------------------

/// Tracks that are queued by hand play before anything that was not, and never interrupt: the
/// playing track plays on under its generation, the tracks stand together behind it with only
/// earlier adds in between ("Play next" ones, for a "Play next"), each carries the mark of its
/// gesture and its source, and everyone is told. A copy that was waiting among the adds has been
/// moved, not doubled, and so has every other copy where duplicates are prevented. Loose tracks keep the order they were queued in;
/// so does everything that was not itself queued.
pub proof fn law_queued_tracks_play_before_the_context(
    before: AppView,
    after: AppView,
    actions: Seq<Action>,
    items: Seq<SongView>,
    next: bool,
    from: Option<Seq<char>>,
    dedupe: bool,
    guest: bool,
) -> (r: (Seq<SongView>, int))
    requires
        before.queue.valid(),
        before.queue.items.len() > 0,
        items.len() > 0,
        is_inserted(before, after, actions, items, next, from, dedupe, guest),
    ensures
        ({
            let (block, at) = r;
            let added = |s: SongView|
                exists|k: int| 0 <= k < items.len() && #[trigger] items[k].video_id == s.video_id;
            &&& edit::stands_at(after.queue, block, at, next)
            &&& block.len() == items.len()
            &&& forall|i: int|
                0 <= i < block.len() ==> {
                    &&& (#[trigger] block[i]).queued == next
                    &&& block[i].queued_end == !next
                    &&& block[i].queued_from == from
                    &&& added(block[i])
                }
            &&& before.queue.shuffle_orig is None || from is None ==> forall|i: int|
                0 <= i < block.len() ==> {
                    &&& (#[trigger] block[i]).video_id == items[i].video_id
                    &&& block[i].title == items[i].title
                    &&& block[i].queued_by == items[i].queued_by
                }
            &&& forall|i: int|
                0 <= i < after.queue.items.len() && i != after.queue.current && !(at <= i < at
                    + block.len()) && (dedupe || (i > after.queue.current && (
                after.queue.items[i].queued || after.queue.items[i].queued_end))) ==> !added(
                    #[trigger] after.queue.items[i],
                )
            &&& edit::taken_out(after.queue.items, at, block.len() as int).filter(
                |s: SongView| !added(s),
            ) == before.queue.items.filter(|s: SongView| !added(s))
            &&& after.queue.playing() == before.queue.playing()
            &&& after == AppView { queue: after.queue, ..before }
            &&& forall|g: u64| !actions.contains(Action::Start(g))
            &&& actions.contains(Action::EmitQueue)
            &&& actions.contains(Action::PersistQueue)
            &&& actions.contains(Action::Prime(before.generation))
            &&& actions.contains(Action::BroadcastQueue)
            &&& actions.contains(Action::ClearPlaylist) == (before.queue.lookahead_loaded is Some
                && after.queue.lookahead_loaded is None)
        }),
{
    broadcast use vstd::seq_lib::group_to_multiset_ensures;

    let adds = edit::all_marked(items, next, from);
    let block = choose|block: Seq<SongView>| #[trigger]
        edit::is_add_order(before.queue, adds, block, from) && inserted(
            before,
            items,
            adds,
            block,
            next,
            dedupe,
            guest,
        ) == (after, actions);
    let set = order::id_set(items);
    edit::law_adds_keep_their_order(before.queue, adds, block, from);
    let at = edit::law_adds_play_before_the_context(before.queue, set, adds, block, next, dedupe);
    let added = |s: SongView|
        exists|k: int| 0 <= k < items.len() && #[trigger] items[k].video_id == s.video_id;
    assert forall|s: SongView| #[trigger] set.contains(s.video_id) == added(s) by {
        if set.contains(s.video_id) {
            let k = order::ids(items).index_of(s.video_id);
            assert(items[k].video_id == s.video_id);
        }
        if added(s) {
            let k = choose|k: int|
                0 <= k < items.len() && #[trigger] items[k].video_id == s.video_id;
            assert(order::ids(items)[k] == s.video_id);
        }
    }
    assert((|s: SongView| !set.contains(s.video_id)) =~= (|s: SongView| !added(s)));
    assert forall|i: int|
        0 <= i < after.queue.items.len() && i != after.queue.current && !(at <= i < at
            + block.len()) && (dedupe || (i > after.queue.current && (after.queue.items[i].queued
            || after.queue.items[i].queued_end))) implies !added(
        #[trigger] after.queue.items[i],
    ) by {
        assert(!set.contains(after.queue.items[i].video_id));
    }
    assert forall|i: int| 0 <= i < block.len() implies {
        &&& (#[trigger] block[i]).queued == next
        &&& block[i].queued_end == !next
        &&& block[i].queued_from == from
        &&& added(block[i])
    } by {
        assert(block.to_multiset().contains(block[i])) by {
            assert(block.contains(block[i]));
        }
        assert(adds.contains(block[i]));
        let k = adds.index_of(block[i]);
        assert(items[k].video_id == block[i].video_id);
    }
    let clear = before.queue.lookahead_loaded is Some && after.queue.lookahead_loaded is None;
    state::law_an_edit_tells_everyone(clear, true, before.generation);
    (block, at)
}

/// A guest changes nothing by queueing: the tracks go to the host instead, all of them and in
/// order. Queueing nothing is nothing.
pub proof fn law_guests_only_suggest(
    before: AppView,
    after: AppView,
    r: Enqueued,
    items: Seq<SongView>,
    next: bool,
    from: Option<Seq<char>>,
    continuation: Option<Seq<char>>,
    dedupe: bool,
    role: Role,
)
    requires
        is_enqueued(before, after, r, items, next, from, continuation, dedupe, role),
    ensures
        items.len() == 0 ==> after == before && r is Nothing,
        items.len() > 0 && role.guest ==> after == before && (r matches Enqueued::Suggest(list)
            && list@.len() == items.len() && forall|i: int|
            0 <= i < items.len() ==> (#[trigger] list@[i]).id@ == items[i].video_id),
        items.len() > 0 && !role.guest ==> r is Done,
        r matches Enqueued::Done(_, walk) ==> {
            &&& walk is Some == continuation is Some
            &&& walk matches Some(w) ==> {
                &&& w.token@ == continuation->0
                &&& w.generation == after.generation
                &&& w.pages == 0
                &&& w.fill@ == FillView::Queued(from)
            }
        },
{
    if items.len() > 0 && role.guest {
        if let Enqueued::Suggest(list) = r {
            assert(song::tracks(list@).len() == list@.len());
            assert forall|i: int| 0 <= i < items.len() implies (#[trigger] list@[i]).id@
                == items[i].video_id by {
                assert(song::tracks(list@)[i] == song::wire_all(items)[i]);
                assert(song::tracks(list@)[i] == list@[i]@);
            }
        }
    }
}

/// In a room the host's adds carry the host's name, and elsewhere nothing is written on an add.
pub proof fn law_adds_are_signed_by_the_host(
    list: Seq<SongView>,
    host: bool,
    username: Option<Seq<char>>,
)
    ensures
        signed_adds(list, host, username).len() == list.len(),
        !host ==> signed_adds(list, host, username) == list,
        forall|i: int|
            0 <= i < list.len() ==> {
                let s = #[trigger] signed_adds(list, host, username)[i];
                &&& SongView { queued_by: list[i].queued_by, ..s } == list[i]
                &&& host && username is Some ==> s.queued_by == username
                &&& host && username is None ==> s.queued_by == Some("Host"@)
            },
{
}

/// A page that is walked in keeps its tracks and their order. The rest of an added playlist carries
/// the mark of an "Add to queue" and its source, as its first page did; the rest of a playing list
/// is as it came.
pub proof fn law_pages_are_marked_as_their_list(page: Seq<SongView>, fill: FillView)
    ensures
        filled(page, fill).len() == page.len(),
        fill is Playing ==> filled(page, fill) == page,
        fill matches FillView::Queued(from) ==> forall|i: int|
            0 <= i < page.len() ==> {
                let s = #[trigger] filled(page, fill)[i];
                &&& s.queued_end
                &&& s.queued_from == from
                &&& SongView { queued_end: page[i].queued_end, queued_from: page[i].queued_from, ..s }
                    == page[i]
            },
{
}

/// A page that joins the queue never interrupts, loses nothing, and leaves primed only what plays
/// next. A page of an added playlist stands behind adds alone; one of the playing list, with
/// shuffle off, at the tail.
pub proof fn law_walked_pages_never_interrupt(
    before: QueueView,
    after: QueueView,
    page: Seq<SongView>,
    fill: FillView,
)
    requires
        before.valid(),
        before.items.len() > 0,
        takes_page(before, after, page, fill),
    ensures
        after.valid(),
        after.playing() == before.playing(),
        after.items.take(before.current + 1) == before.items.take(before.current + 1),
        after.items.len() == before.items.len() + page.len(),
        after.primed(),
        before.primed() && before.lookahead_loaded is Some && after.lookahead_loaded is Some
            ==> after.lookahead_loaded == before.lookahead_loaded,
        fill is Queued ==> exists|at: int|
            {
                &&& #[trigger] edit::stands_at(after, filled(page, fill), at, false)
                &&& edit::taken_out(after.items, at, page.len() as int) == before.items
            },
        fill is Playing && before.shuffle_orig is None ==> after.items == before.items + page,
{
    let mid = choose|mid: QueueView| #[trigger]
        edit::is_page_appended(before, mid, filled(page, fill), fill is Playing) && after
            == edit::retargeted(mid);
    edit::law_page_goes_where_its_list_is(before, mid, filled(page, fill), fill is Playing);
    assert(after.items == mid.items && after.current == mid.current);
    assert(after.items.take(before.current + 1)[before.current] == before.items.take(
        before.current + 1,
    )[before.current]);
    if fill is Queued {
        let at = choose|at: int|
            {
                &&& #[trigger] edit::stands_at(mid, filled(page, fill), at, false)
                &&& edit::taken_out(mid.items, at, filled(page, fill).len() as int)
                    == before.items
            };
        assert(edit::stands_at(after, filled(page, fill), at, false));
    }
}

/// A walk of a playlist ends: it goes on only while there is a next page, and never past fifty.
pub proof fn law_walk_is_bounded(walk: WalkView, continuation: Option<Seq<char>>)
    ensures
        walks_on(walk, continuation) ==> continuation is Some && walk.pages < 49,
        continuation is Some && walk.pages < 49 ==> walks_on(walk, continuation),
{
}

/// A list that is played opens at the clicked track (the last one, for a click behind the list; the
/// first one, for none and without shuffle), which is what plays and is loaded under a new
/// generation. The manual adds that waited follow it, in their order. Without them the queue is
/// the list: in its order with shuffle off; with shuffle on in any order that starts with the
/// click, and the list is what comes back. The rest of the list is walked unless it is a mix.
pub proof fn law_list_opens_at_the_click(
    before: AppView,
    after: AppView,
    actions: Seq<Action>,
    walk: Option<WalkView>,
    list: Listing,
)
    requires
        before.queue.valid(),
        before.generation < u64::MAX,
        list.items@.len() > 0,
        is_list_played(before, after, actions, walk, list, false),
    ensures
        ({
            let items = song::songs(list.items@);
            let shuffled = before.queue.shuffle_orig is Some || list.shuffle;
            let waiting = if before.queue.items.len() > 0 {
                before.queue.items.skip(before.queue.current + 1).filter(
                    |s: SongView| s.queued || s.queued_end,
                )
            } else {
                Seq::empty()
            };
            let q = after.queue;
            let n = waiting.len() as int;
            let rest = edit::taken_out(q.items, q.current + 1, n);
            &&& after.generation == before.generation + 1
            &&& actions == seq![Action::Start((before.generation + 1) as u64)]
            &&& q.valid()
            &&& q.played_from == q.current
            &&& q.lookahead_loaded is None
            &&& !q.radio
            &&& q.source_name == text::opt_text(list.source_name)
            &&& q.repeat == before.queue.repeat
            &&& list.start matches Some(i) ==> q.playing() == Some(
                if i < items.len() {
                    items[i as int]
                } else {
                    items.last()
                },
            )
            &&& list.start is None && !shuffled ==> q.playing() == Some(items[0])
            &&& q.current + 1 + n <= q.items.len()
            &&& q.items.subrange(q.current + 1, q.current + 1 + n) == waiting
            &&& !shuffled ==> rest == items && (before.queue.shuffle_orig is None
                ==> q.shuffle_orig is None)
            &&& shuffled ==> q.current == 0 && rest.to_multiset() == items.to_multiset()
                && q.shuffle_orig == Some(items)
            &&& walk is Some ==> walk->0.generation == after.generation && walk->0.fill is Playing
                && walk->0.pages == 0 && Some(walk->0.token) == text::opt_text(list.continuation)
            &&& list.source_id is None ==> walk is Some == list.continuation is Some
                && q.radio_seed is None
            &&& list.source_id matches Some(id) ==> walk is Some == (list.continuation is Some
                && !radio::mix_id(id@)) && q.radio_seed == radio::seed_for(Some(id@))
            &&& list.start is None ==> q.playing() is Some && items.contains(q.playing()->0)
        }),
{
    let items = song::songs(list.items@);
    let shuffled = before.queue.shuffle_orig is Some || list.shuffle;
    let at = choose|at: int| #[trigger]
        queue::is_opened_at(items.len() as int, order::opt_index(list.start), shuffled, at)
            && queue::plays_tracks(
            before.queue,
            after.queue,
            items,
            at,
            text::opt_text(list.source_id),
            text::opt_text(list.source_name),
            shuffled,
        );
    let carried = order::carried(before.queue.items, before.queue.current);
    let (order, cur) = if shuffled {
        let order = choose|order: Seq<SongView>| #[trigger]
            shuffle::is_fresh_shuffle(items, order, at) && after.queue == queue::tracks_queue(
                before.queue,
                items,
                order,
                0,
                text::opt_text(list.source_id),
                text::opt_text(list.source_name),
                true,
            );
        shuffle::law_fresh_shuffle_starts_with_the_click(items, order, at);
        shuffle::law_fresh_shuffle_opens_at_the_index(items, order, at);
        (order, 0int)
    } else {
        (items, at)
    };
    let q = after.queue;
    assert(q.items == order::spliced(order, cur + 1, carried));
    assert(q.items.subrange(cur + 1, cur + 1 + carried.len()) =~= carried);
    assert(edit::taken_out(q.items, cur + 1, carried.len() as int) =~= order);
    lemma_carried(before.queue);
}

/// What is carried into a new queue are the unplayed adds of either gesture.
proof fn lemma_carried(q: QueueView)
    requires
        q.valid(),
    ensures
        q.items.len() == 0 ==> order::carried(q.items, q.current) == Seq::<SongView>::empty(),
        q.items.len() > 0 ==> order::carried(q.items, q.current) == q.items.skip(
            q.current + 1,
        ).filter(|s: SongView| s.queued || s.queued_end),
{
    assert(order::by_hand() =~= (|s: SongView| s.queued || s.queued_end));
    if q.items.len() == 0 {
        assert(order::upcoming(q.items, q.current) =~= Seq::<SongView>::empty());
        reveal(Seq::filter);
    } else {
        assert(order::boundary(q.items, q.current) == q.current + 1);
    }
}

/// A song that is clicked plays at once, on its own queue: the adds that waited follow it, in their
/// order and alone. Nothing of the queue before continues it, and shuffle stays as it was.
pub proof fn law_song_starts_its_own_queue(q: QueueView, seed: SongView, local: bool)
    requires
        q.valid(),
    ensures
        ({
            let after = queue::song_queue(q, seed, local);
            &&& after.valid()
            &&& after.current == 0
            &&& after.played_from == 0
            &&& after.items[0] == seed
            &&& q.items.len() == 0 ==> after.items.len() == 1
            &&& q.items.len() > 0 ==> after.items.skip(1) == q.items.skip(q.current + 1).filter(
                |s: SongView| s.queued || s.queued_end,
            )
            &&& after.lookahead_loaded is None
            &&& after.radio_seed is None
            &&& !after.radio
            &&& local ==> after.source_name is None
            &&& !local ==> after.source_name == Some(seed.title + " Radio"@)
            &&& q.shuffle_orig is None ==> after.shuffle_orig is None
            &&& q.shuffle_orig is Some ==> after.shuffle_orig == Some(after.items)
            &&& after.repeat == q.repeat
        }),
{
    lemma_carried(q);
    let after = queue::song_queue(q, seed, local);
    assert(after.items.skip(1) =~= order::carried(q.items, q.current));
}

/// The radio of a song that just started follows it without the song itself, whole and, with
/// shuffle off, in its order. The song plays on.
pub proof fn law_hydration_appends_the_radio(
    before: QueueView,
    after: QueueView,
    video_id: Seq<char>,
    fresh: Seq<SongView>,
)
    requires
        before.valid(),
        before.items.len() > 0,
        queue::is_hydrated(before, after, video_id, fresh),
    ensures
        ({
            let more = fresh.filter(|s: SongView| s.video_id != video_id);
            &&& after.items.take(before.current + 1) == before.items.take(before.current + 1)
            &&& after.current == before.current
            &&& after.items.to_multiset() == (before.items + more).to_multiset()
            &&& before.shuffle_orig is None ==> after.items == before.items + more
                && after.shuffle_orig is None
            &&& before.shuffle_orig is Some ==> after.shuffle_orig == Some(before.items + more)
            &&& after == QueueView {
                items: after.items,
                shuffle_orig: after.shuffle_orig,
                ..before
            }
        }),
{
    let more = fresh.filter(|s: SongView| s.video_id != video_id);
    assert(order::outside(set![video_id]) =~= (|s: SongView| s.video_id != video_id));
    let base = before.items + more;
    assert(base.take(before.current + 1) =~= before.items.take(before.current + 1));
    if before.shuffle_orig is Some {
        shuffle::law_shuffle_is_a_permutation(base, after.items, before.current);
        assert(order::boundary(base, before.current) == before.current + 1);
    }
}

/// Two lists of the same tracks that start alike end in the same tracks.
proof fn lemma_same_tail(a: Seq<SongView>, b: Seq<SongView>, k: int)
    requires
        0 <= k <= a.len(),
        k <= b.len(),
        a.take(k) == b.take(k),
        a.to_multiset() == b.to_multiset(),
    ensures
        a.skip(k).to_multiset() == b.skip(k).to_multiset(),
{
    vstd::seq_lib::lemma_multiset_commutative(a.take(k), a.skip(k));
    vstd::seq_lib::lemma_multiset_commutative(b.take(k), b.skip(k));
    assert(a =~= a.take(k) + a.skip(k));
    assert(b =~= b.take(k) + b.skip(k));
    let front = a.take(k).to_multiset();
    assert(a.skip(k).to_multiset() =~= b.skip(k).to_multiset()) by {
        assert forall|s: SongView| #[trigger]
            a.skip(k).to_multiset().count(s) == b.skip(k).to_multiset().count(s) by {
            assert(a.to_multiset().count(s) == front.count(s) + a.skip(k).to_multiset().count(s));
            assert(b.to_multiset().count(s) == front.count(s) + b.skip(k).to_multiset().count(s));
        }
    }
}

/// A radio that is put behind the playing track leaves the history and the playing track alone,
/// keeps the adds that waited in front of it, and brings every track of the page that is not there
/// yet, once. It is a radio queue then, under its seed and title.
pub proof fn law_radio_goes_behind_the_playing_track(
    before: QueueView,
    after: QueueView,
    page: Seq<SongView>,
    seed: Seq<char>,
    title: Option<Seq<char>>,
)
    requires
        before.valid(),
        before.items.len() > 0,
        radio::is_spliced(before, after, page, seed, title),
    ensures
        after.valid(),
        after.current == before.current,
        after.played_from == before.played_from,
        after.items.take(before.current + 1) == before.items.take(before.current + 1),
        after.radio,
        after.radio_seed == Some(seed),
        after.source_name == title,
        after.lookahead_loaded is None,
        after.repeat == before.repeat,
        forall|k: int|
            0 <= k < page.len() ==> order::ids(after.items).contains(#[trigger] page[k].video_id),
        forall|i: int|
            before.current < i < before.items.len() && ((#[trigger] before.items[i]).queued
                || before.items[i].queued_end) ==> after.items.contains(before.items[i]),
        forall|i: int|
            before.current < i < after.items.len() ==> page.contains(#[trigger] after.items[i])
                || exists|k: int|
                before.current < k < before.items.len() && after.items[i]
                    == #[trigger] before.items[k] && (before.items[k].queued
                    || before.items[k].queued_end),
        before.shuffle_orig is None ==> after.shuffle_orig is None && {
            let waiting = before.items.skip(before.current + 1).filter(
                |s: SongView| s.queued || s.queued_end,
            );
            after.items.skip(before.current + 1).take(waiting.len() as int) == waiting
        },
        before.shuffle_orig is Some ==> after.shuffle_orig is Some
            && after.shuffle_orig->0.to_multiset() == after.items.to_multiset(),
{
    broadcast use vstd::seq_lib::group_to_multiset_ensures;

    let mid = choose|mid: QueueView| #[trigger]
        queue::is_radio_spliced(before, mid, page, seed, title) && after == QueueView {
            lookahead_loaded: None,
            ..mid
        };
    let base = queue::radio_list(before, page);
    queue::law_radio_keeps_history_and_adds(before, page);
    let head = order::through(before.items, before.current);
    let adds = order::carried(before.items, before.current);
    let kept = head + adds;
    let seen = order::id_set(kept);
    assert(order::boundary(base, before.current) == before.current + 1);
    if before.shuffle_orig is Some {
        shuffle::law_shuffle_is_a_permutation(base, after.items, before.current);
    }
    assert(after.items.to_multiset() == base.to_multiset());
    assert(after.items.len() == base.len()) by {
        assert(after.items.len() == after.items.to_multiset().len());
        assert(base.len() == base.to_multiset().len());
    }
    assert(order::through(after.items, before.current) == head);
    assert(after.items.take(before.current + 1) =~= before.items.take(before.current + 1));
    assert forall|s: SongView| base.contains(s) implies #[trigger] after.items.contains(s) by {
        assert(base.to_multiset().contains(s));
        assert(after.items.to_multiset().contains(s));
    }
    assert forall|k: int| 0 <= k < page.len() implies order::ids(after.items).contains(
        #[trigger] page[k].video_id,
    ) by {
        let id = page[k].video_id;
        let s = if seen.contains(id) {
            let j = order::ids(kept).index_of(id);
            assert(base[j] == kept[j]);
            kept[j]
        } else {
            let fresh = order::novel(seen, page);
            let j = order::law_radio_brings_everything_new(seen, page, k);
            assert(base[kept.len() + j] == fresh[j]);
            fresh[j]
        };
        assert(base.contains(s));
        assert(after.items.contains(s));
        let i = after.items.index_of(s);
        assert(order::ids(after.items)[i] == id);
    }
    assert forall|i: int|
        before.current < i < before.items.len() && ((#[trigger] before.items[i]).queued
            || before.items[i].queued_end) implies after.items.contains(before.items[i]) by {
        assert(base.contains(before.items[i]));
    }
    lemma_carried(before);
    assert(after.items.skip(before.current + 1).to_multiset() == base.skip(
        before.current + 1,
    ).to_multiset()) by {
        lemma_same_tail(after.items, base, before.current + 1);
    }
    assert forall|i: int| before.current < i < after.items.len() implies page.contains(
        #[trigger] after.items[i],
    ) || exists|k: int|
        before.current < k < before.items.len() && after.items[i] == #[trigger] before.items[k] && (
        before.items[k].queued || before.items[k].queued_end) by {
        let s = after.items[i];
        let at = before.current + 1;
        assert(after.items.skip(at)[i - at] == s);
        assert(after.items.skip(at).contains(s));
        assert(after.items.skip(at).to_multiset().contains(s));
        assert(base.skip(at).contains(s));
        let j = base.skip(at).index_of(s);
        if j < adds.len() {
            assert(adds[j] == s);
            assert(adds.contains(s));
            let up = before.items.skip(at);
            let hand = |s: SongView| s.queued || s.queued_end;
            assert(up.filter(hand).contains(s));
            up.lemma_filter_contains_rev(hand, s);
            up.lemma_filter_pred(hand, j);
            let m = up.index_of(s);
            assert(before.items[at + m] == s);
        } else {
            let fresh = order::novel(seen, page);
            assert(fresh[j - adds.len()] == s);
            assert(fresh.contains(s));
            order::lemma_novel_is_new(seen, page, s);
        }
    }
    if before.shuffle_orig is None {
        assert(after.items == base);
        assert(after.items.skip(before.current + 1).take(adds.len() as int) =~= adds);
    }
}

/// A page of a walk is shown and primed as it arrives; the queue is saved and told to the room when
/// the walk ends, and only then. A stale entry of the player is cleared first.
pub proof fn law_walks_save_at_their_end(clear: bool, gen: u64, more: bool, pages: int)
    requires
        pages >= 0,
    ensures
        ({
            let acts = page_actions(clear, gen, more);
            &&& acts.contains(Action::EmitQueue)
            &&& acts.contains(Action::Prime(gen))
            &&& acts.contains(Action::PersistQueue) == !more
            &&& acts.contains(Action::BroadcastQueue) == !more
            &&& acts.contains(Action::ClearPlaylist) == clear
            &&& clear ==> acts[0] == Action::ClearPlaylist
            &&& forall|g: u64| !acts.contains(Action::Start(g))
        }),
        pages > 0 ==> walked_actions(pages).contains(Action::PersistQueue) && walked_actions(
            pages,
        ).contains(Action::BroadcastQueue),
        pages == 0 ==> walked_actions(pages).len() == 0,
{
    let acts = page_actions(clear, gen, more);
    let k = if clear {
        1int
    } else {
        0int
    };
    assert(clear ==> acts[0] == Action::ClearPlaylist);
    assert(acts[k] == Action::EmitQueue);
    assert(acts[k + 1] == Action::Prime(gen));
    if !more {
        assert(acts[k + 2] == Action::PersistQueue);
        assert(acts[k + 3] == Action::BroadcastQueue);
    }
    if pages > 0 {
        assert(walked_actions(pages)[0] == Action::PersistQueue);
        assert(walked_actions(pages)[1] == Action::BroadcastQueue);
    }
}

/// Only a page that was fetched, holds something and belongs to the generation in force joins the
/// queue.
pub proof fn law_pages_join_under_their_generation(
    a: AppView,
    walk: WalkView,
    page: Option<Seq<SongView>>,
)
    ensures
        a.generation != walk.generation ==> !joins(a, walk, page),
        page is None ==> !joins(a, walk, page),
        page matches Some(list) ==> joins(a, walk, page) == (list.len() > 0 && a.generation
            == walk.generation),
{
}

/// "Play next" and "Add to queue" do what they say for whoever owns the queue, in a room or outside
/// one: the tracks stand behind the playing one in the place and with the mark of the gesture that
/// was made, each one signed where we host, and nothing starts.
pub proof fn law_gestures_do_what_they_say(
    before: AppView,
    after: AppView,
    r: Enqueued,
    items: Seq<SongView>,
    next: bool,
    from: Option<Seq<char>>,
    continuation: Option<Seq<char>>,
    dedupe: bool,
    role: Role,
)
    requires
        before.queue.valid(),
        before.queue.items.len() > 0,
        items.len() > 0,
        !role.guest,
        is_enqueued(before, after, r, items, next, from, continuation, dedupe, role),
    ensures
        exists|block: Seq<SongView>, at: int|
            {
                &&& #[trigger] edit::stands_at(after.queue, block, at, next)
                &&& block.len() == items.len()
                &&& forall|i: int|
                    0 <= i < block.len() ==> {
                        &&& (#[trigger] block[i]).queued == next
                        &&& block[i].queued_end == !next
                        &&& block[i].queued_from == from
                    }
                &&& from is None || before.queue.shuffle_orig is None ==> forall|i: int|
                    0 <= i < block.len() ==> {
                        &&& (#[trigger] block[i]).video_id == items[i].video_id
                        &&& !role.host ==> block[i].queued_by == items[i].queued_by
                        &&& role.host && role.username is Some ==> block[i].queued_by == Some(
                            role.username->0@,
                        )
                    }
            },
        after.queue.playing() == before.queue.playing(),
        after.generation == before.generation,
        r matches Enqueued::Done(actions, _) ==> forall|g: u64|
            !actions@.contains(Action::Start(g)),
{
    if let Enqueued::Done(actions, _) = r {
        let signed = signed_adds(items, role.host, text::opt_text(role.username));
        law_adds_are_signed_by_the_host(items, role.host, text::opt_text(role.username));
        let (block, at) = law_queued_tracks_play_before_the_context(
            before,
            after,
            actions@,
            signed,
            next,
            from,
            dedupe,
            false,
        );
        assert(edit::stands_at(after.queue, block, at, next));
        assert forall|i: int|
            0 <= i < block.len() && (from is None || before.queue.shuffle_orig is None) implies {
            &&& (#[trigger] block[i]).video_id == items[i].video_id
            &&& !role.host ==> block[i].queued_by == items[i].queued_by
            &&& role.host && role.username is Some ==> block[i].queued_by == Some(
                role.username->0@,
            )
        } by {
            let s = signed[i];
            assert(SongView { queued_by: items[i].queued_by, ..s } == items[i]);
        }
    }
}

/// An empty list plays nothing, and a guest's click changes nothing but shows who is in control.
pub proof fn law_lists_that_do_not_play(
    before: AppView,
    after: AppView,
    actions: Seq<Action>,
    walk: Option<WalkView>,
    list: Listing,
    guest: bool,
)
    requires
        is_list_played(before, after, actions, walk, list, guest),
    ensures
        list.items@.len() == 0 ==> after == before && actions.len() == 0 && walk is None,
        list.items@.len() > 0 && guest ==> after == before && actions == seq![Action::GuestHint]
            && walk is None,
        list.items@.len() > 0 && !guest ==> after == (AppView {
            generation: after.generation,
            queue: after.queue,
            ..before
        }),
{
}

// --- the same, of the calls themselves ----------------------------------------------------

/// The repeat mode is the one that was set, and nothing else of the queue changes. The player loops
/// the file exactly for the mode that repeats one track, and what plays next is primed anew. A guest
/// sets nothing.
pub proof fn law_repeat_is_what_was_set(
    s: &mut AppState,
    guest: bool,
    mode: RepeatMode,
    r: Vec<Action>,
)
    requires
        call_ensures(AppState::set_repeat, (s, guest, mode), r),
    ensures
        guest ==> final(s)@ == old(s)@ && r@ == seq![Action::GuestHint],
        !guest ==> {
            &&& final(s)@.queue.repeat == mode
            &&& final(s)@.queue == QueueView { repeat: mode, ..old(s)@.queue }
            &&& final(s)@.generation == old(s)@.generation
            &&& r@.contains(Action::LoopFile(true)) == (mode == RepeatMode::One)
            &&& r@.contains(Action::LoopFile(false)) == (mode != RepeatMode::One)
            &&& r@.contains(Action::EmitQueue)
            &&& r@.contains(Action::PersistQueue)
            &&& r@.contains(Action::Prime(old(s)@.generation))
        },
{
    if !guest {
        assert(r@[0] == Action::LoopFile(mode == RepeatMode::One));
        assert(r@[1] == Action::EmitQueue);
        assert(r@[2] == Action::PersistQueue);
        assert(r@[3] == Action::Prime(old(s)@.generation));
    }
}

/// Switching shuffle never interrupts and tells everyone: the playing track plays on under its
/// generation. A guest switches nothing, and neither does anyone on an empty queue.
pub proof fn law_switching_shuffle_never_interrupts(s: &mut AppState, guest: bool, r: Vec<Action>)
    requires
        old(s)@.queue.valid(),
        old(s)@.queue.shuffle_orig is Some && old(s)@.queue.items.len() > 0 ==> order::ids(
            old(s)@.queue.shuffle_orig->0,
        ).contains(old(s)@.queue.items[old(s)@.queue.current].video_id),
        call_ensures(AppState::toggle_shuffle, (s, guest), r),
    ensures
        guest ==> final(s)@ == old(s)@ && r@ == seq![Action::GuestHint],
        old(s)@.queue.items.len() == 0 ==> final(s)@ == old(s)@,
        final(s)@.generation == old(s)@.generation,
        !guest && old(s)@.queue.items.len() > 0 ==> {
            &&& final(s)@.queue.shuffle_orig is Some == old(s)@.queue.shuffle_orig is None
            &&& final(s)@.queue.playing() is Some
            &&& final(s)@.queue.playing()->0.video_id
                == old(s)@.queue.items[old(s)@.queue.current].video_id
            &&& final(s)@.queue.lookahead_loaded is None
            &&& r@.contains(Action::ClearPlaylist) == (old(s)@.queue.lookahead_loaded is Some)
            &&& r@.contains(Action::EmitQueue)
            &&& r@.contains(Action::PersistQueue)
            &&& r@.contains(Action::Prime(old(s)@.generation))
            &&& r@.contains(Action::BroadcastQueue)
            &&& forall|g: u64| !r@.contains(Action::Start(g))
        },
{
    let q = old(s)@.queue;
    if !guest && q.items.len() > 0 {
        let after = final(s)@.queue;
        let k = if q.lookahead_loaded is Some {
            1int
        } else {
            0int
        };
        assert(k == 1 ==> r@[0] == Action::ClearPlaylist);
        assert(r@[k] == Action::EmitQueue);
        assert(r@[k + 1] == Action::PersistQueue);
        assert(r@[k + 2] == Action::Prime(old(s)@.generation));
        assert(r@[k + 4] == Action::BroadcastQueue);
        if q.shuffle_orig is Some {
            edit::law_unshuffle_keeps_the_playing_track(q, after);
        } else {
            edit::law_shuffle_on_remembers_the_order(q, after);
            assert(after.items.take(q.current + 1)[q.current] == q.items.take(q.current + 1)[
                q.current]);
            assert(after.items.len() == q.items.len());
        }
    }
}

/// A removal takes out the one track at the index, unless it is the playing one, and everyone is
/// told. A guest removes nothing.
pub proof fn law_removing_takes_that_track(
    s: &mut AppState,
    guest: bool,
    index: usize,
    r: Vec<Action>,
)
    requires
        old(s)@.queue.valid(),
        call_ensures(AppState::remove_from_queue, (s, guest, index), r),
    ensures
        ({
            let q = old(s)@.queue;
            let takes = !guest && index < q.items.len() && index != q.current;
            &&& takes ==> final(s)@.queue.items == q.items.remove(index as int)
            &&& takes ==> r@.contains(Action::EmitQueue) && r@.contains(Action::PersistQueue)
                && r@.contains(Action::BroadcastQueue)
            &&& takes ==> r@.contains(Action::ClearPlaylist) == (q.lookahead_loaded == Some(
                index as int,
            ))
            &&& !takes ==> final(s)@ == old(s)@ && r@.len() == 0
            &&& final(s)@.queue.playing() == q.playing()
            &&& final(s)@.generation == old(s)@.generation
        }),
{
    let q = old(s)@.queue;
    edit::law_remove_takes_that_track(q, index as int);
    let primed = q.lookahead_loaded == Some(index as int);
    state::law_an_edit_tells_everyone(primed, primed, old(s)@.generation);
}

/// A drag moves one upcoming track to another upcoming place, and the rest keeps its order. A guest
/// moves nothing.
pub proof fn law_dragging_moves_one_track(
    s: &mut AppState,
    guest: bool,
    from: usize,
    to: usize,
    r: Vec<Action>,
)
    requires
        old(s)@.queue.valid(),
        call_ensures(AppState::move_in_queue, (s, guest, from, to), r),
    ensures
        ({
            let q = old(s)@.queue;
            let first = q.current + 1;
            let a = if from < first {
                first
            } else {
                from as int
            };
            let b = if to < first {
                first
            } else {
                to as int
            };
            let moves = !guest && a < q.items.len() && b < q.items.len() && a != b;
            &&& moves ==> final(s)@.queue.items[b] == q.items[a]
            &&& moves ==> final(s)@.queue.items.remove(b) == q.items.remove(a)
            &&& moves ==> final(s)@.queue.items.len() == q.items.len()
            &&& moves ==> r@.contains(Action::EmitQueue) && r@.contains(Action::PersistQueue)
                && r@.contains(Action::BroadcastQueue)
            &&& !moves ==> final(s)@ == old(s)@ && r@.len() == 0
            &&& final(s)@.queue.current == q.current
            &&& final(s)@.generation == old(s)@.generation
        }),
{
    let q = old(s)@.queue;
    edit::law_move_takes_one_track(q, from as int, to as int);
    let stale = q.lookahead_loaded is Some && final(s)@.queue.lookahead_loaded is None;
    state::law_an_edit_tells_everyone(stale, stale, old(s)@.generation);
}

/// Clearing takes out exactly the upcoming adds. A guest clears nothing.
pub proof fn law_clearing_takes_the_adds(s: &mut AppState, guest: bool, r: Vec<Action>)
    requires
        old(s)@.queue.valid(),
        old(s)@.queue.items.len() > 0,
        call_ensures(AppState::clear_queued, (s, guest), r),
    ensures
        ({
            let q = old(s)@.queue;
            &&& guest ==> final(s)@ == old(s)@ && r@.len() == 0
            &&& final(s)@.queue.items.take(q.current + 1) == q.items.take(q.current + 1)
            &&& !guest ==> final(s)@.queue.items.skip(q.current + 1) == q.items.skip(
                q.current + 1,
            ).filter(|x: SongView| !x.queued && !x.queued_end)
            &&& final(s)@.queue.current == q.current
            &&& final(s)@.generation == old(s)@.generation
        }),
{
    edit::law_clear_leaves_the_context(old(s)@.queue);
}

/// A click on a song plays it, on a queue of its own with the adds that waited behind it, and asks
/// for the radio of that very song; a file on disk has none. A guest's click is a suggestion.
pub proof fn law_clicking_a_song_plays_it(
    s: &mut AppState,
    guest: bool,
    seed: SongItem,
    local: bool,
    r: SongStart,
)
    requires
        old(s)@.queue.valid(),
        old(s)@.generation < u64::MAX,
        call_ensures(AppState::play_song, (s, guest, seed, local), r),
    ensures
        guest ==> final(s)@ == old(s)@ && (r matches SongStart::Suggest(t) && t.id@
            == seed.video_id@),
        !guest ==> final(s)@.queue.playing() == Some(seed@),
        !guest ==> final(s)@.generation == old(s)@.generation + 1,
        !guest ==> (r matches SongStart::Start(g, radio) && g == final(s)@.generation && (local
            ==> radio is None) && (!local ==> radio is Some && radio->0@ == "RDAMVM"@
            + seed.video_id@)),
        !guest && old(s)@.queue.items.len() > 0 ==> final(s)@.queue.items.skip(1)
            == old(s)@.queue.items.skip(old(s)@.queue.current + 1).filter(
            |x: SongView| x.queued || x.queued_end,
        ),
{
    law_song_starts_its_own_queue(old(s)@.queue, seed@, local);
    if guest {
        if let SongStart::Suggest(t) = r {
            assert(t@.id == seed@.video_id);
        }
    }
}

/// The radio of a song joins its queue only under the generation that asked for it.
pub proof fn law_late_radios_are_dropped(
    s: &mut AppState,
    gen: u64,
    video_id: &str,
    fresh: Option<Vec<SongItem>>,
    r: Vec<Action>,
)
    requires
        old(s)@.queue.valid(),
        old(s)@.queue.items.len() > 0,
        call_ensures(AppState::hydrate_song, (s, gen, video_id, fresh), r),
    ensures
        old(s)@.generation != gen || fresh is None ==> final(s)@ == old(s)@,
        final(s)@.queue.current == old(s)@.queue.current,
        final(s)@.queue.items.take(old(s)@.queue.current + 1) == old(s)@.queue.items.take(
            old(s)@.queue.current + 1,
        ),
        final(s)@.generation == old(s)@.generation,
        old(s)@.generation == gen && fresh is Some && old(s)@.queue.shuffle_orig is None
            ==> final(s)@.queue.items == old(s)@.queue.items + song::songs(fresh->0@).filter(
            |x: SongView| x.video_id != video_id@,
        ),
        forall|g: u64| !r@.contains(Action::Start(g)),
{
    if old(s)@.generation == gen && fresh is Some {
        law_hydration_appends_the_radio(
            old(s)@.queue,
            final(s)@.queue,
            video_id@,
            song::songs(fresh->0@),
        );
    }
}

/// A page never joins a queue that it was not fetched for, never interrupts, and keeps the walk
/// within fifty pages.
pub proof fn law_walking_stays_within_its_queue(
    s: &mut AppState,
    walk: &mut Walk,
    page: Option<Vec<SongItem>>,
    continuation: Option<String>,
    r: (Vec<Action>, bool),
)
    requires
        old(s)@.queue.valid(),
        old(s)@.queue.items.len() > 0,
        old(walk).pages < MAX_PAGES,
        call_ensures(AppState::fill_page, (s, walk, page, continuation), r),
    ensures
        ({
            let took = page is Some && page->0@.len() > 0 && old(s)@.generation == old(
                walk,
            ).generation;
            &&& !took ==> final(s)@ == old(s)@ && !r.1
            &&& took ==> final(s)@.queue.items.len() == old(s)@.queue.items.len() + page->0@.len()
            &&& took ==> final(walk).pages == old(walk).pages + 1
            &&& took ==> r.1 == (continuation is Some && old(walk).pages < 49)
            &&& r.1 ==> final(walk).token@ == continuation->0@
            &&& final(s)@.queue.playing() == old(s)@.queue.playing()
            &&& final(s)@.generation == old(s)@.generation
            &&& forall|g: u64| !(r.0@).contains(Action::Start(g))
        }),
{
    let q = old(s)@.queue;
    let list = queue::opt_songs(page);
    let took = page is Some && page->0@.len() > 0 && old(s)@.generation == old(walk).generation;
    if took {
        law_walked_pages_never_interrupt(q, final(s)@.queue, list->0, old(walk)@.fill);
        law_walk_is_bounded(old(walk)@, text::opt_text(continuation));
        let clear = q.lookahead_loaded is Some && final(s)@.queue.lookahead_loaded is None;
        law_walks_save_at_their_end(clear, old(walk)@.generation, r.1, 0);
    } else {
        law_walks_save_at_their_end(false, 0, true, old(walk)@.pages as int);
    }
}

/// "Play next" puts its tracks in front of everything but earlier "Play next" adds, and "Add to
/// queue" in front of everything that was not queued by hand; neither interrupts. A guest's tracks
/// go to the host, in order.
pub proof fn law_queueing_lands_in_front_of_the_context(
    s: &mut AppState,
    items: Vec<SongItem>,
    from: Option<String>,
    continuation: Option<String>,
    dedupe: bool,
    role: &Role,
    r: Enqueued,
    next: bool,
)
    requires
        old(s)@.queue.valid(),
        old(s)@.queue.items.len() > 0,
        items@.len() > 0,
        next ==> call_ensures(AppState::play_next, (s, items, from, dedupe, role), r),
        !next ==> call_ensures(
            AppState::add_to_queue,
            (s, items, from, continuation, dedupe, role),
            r,
        ),
    ensures
        role.guest ==> final(s)@ == old(s)@ && (r matches Enqueued::Suggest(list) && list@.len()
            == items@.len() && forall|i: int|
            0 <= i < items@.len() ==> (#[trigger] list@[i]).id@ == items@[i].video_id@),
        !role.guest ==> r is Done,
        !role.guest ==> exists|block: Seq<SongView>, at: int|
            {
                &&& #[trigger] edit::stands_at(final(s)@.queue, block, at, next)
                &&& block.len() == items@.len()
                &&& forall|i: int|
                    0 <= i < block.len() ==> (#[trigger] block[i]).queued == next
                        && block[i].queued_end == !next
                &&& from is None ==> forall|i: int|
                    0 <= i < block.len() ==> (#[trigger] block[i]).video_id == items@[i].video_id@
            },
        final(s)@.queue.playing() == old(s)@.queue.playing(),
        final(s)@.generation == old(s)@.generation,
        !next && !role.guest ==> (r matches Enqueued::Done(_, walk) && walk is Some
            == continuation is Some),
{
    let given = song::songs(items@);
    let token = if next {
        None
    } else {
        text::opt_text(continuation)
    };
    law_guests_only_suggest(
        old(s)@,
        final(s)@,
        r,
        given,
        next,
        text::opt_text(from),
        token,
        dedupe,
        *role,
    );
    if !role.guest {
        law_gestures_do_what_they_say(
            old(s)@,
            final(s)@,
            r,
            given,
            next,
            text::opt_text(from),
            token,
            dedupe,
            *role,
        );
    } else {
        if let Enqueued::Suggest(list) = r {
            assert forall|i: int| 0 <= i < items@.len() implies (#[trigger] list@[i]).id@
                == items@[i].video_id@ by {
                assert(given[i] == items@[i]@);
            }
        }
    }
}

/// A list that is clicked plays the clicked track, and a walk of its rest belongs to that play. A
/// guest's click plays nothing.
pub proof fn law_clicking_a_list_plays_the_click(
    s: &mut AppState,
    guest: bool,
    list: Listing,
    r: (Vec<Action>, Option<Walk>),
)
    requires
        old(s)@.queue.valid(),
        old(s)@.generation < u64::MAX,
        list.items@.len() > 0,
        call_ensures(AppState::play_tracks, (s, guest, list), r),
    ensures
        guest ==> final(s)@ == old(s)@ && r.1 is None,
        !guest ==> {
            &&& final(s)@.generation == old(s)@.generation + 1
            &&& (r.0@) == seq![Action::Start(final(s)@.generation)]
            &&& list.start matches Some(i) ==> final(s)@.queue.playing() == Some(
                if i < list.items@.len() {
                    list.items@[i as int]@
                } else {
                    list.items@[list.items@.len() - 1]@
                },
            )
            &&& list.start is None && !list.shuffle && old(s)@.queue.shuffle_orig is None
                ==> final(s)@.queue.playing() == Some(list.items@[0]@)
            &&& final(s)@.queue.shuffle_orig is Some == (list.shuffle
                || old(s)@.queue.shuffle_orig is Some)
            &&& r.1 is Some ==> r.1->0.generation == final(s)@.generation && r.1->0.token@
                == list.continuation->0@
        },
{
    if !guest {
        law_list_opens_at_the_click(old(s)@, final(s)@, r.0@, opt_walk(r.1), list);
        let items = song::songs(list.items@);
        assert(items.last() == list.items@[list.items@.len() - 1]@);
        assert(items[0] == list.items@[0]@);
        if let Some(w) = r.1 {
            assert(opt_walk(r.1) == Some(w@));
        }
    }
}

} // verus!
