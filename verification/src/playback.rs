//! Streams: how one is found for a track, and what a load, a primed track, a gapless advance or
//! a failure does to the queue.

use crate::queue;
use crate::queue::QueueState;
use crate::queue::QueueView;
use crate::song;
use crate::song::SongItem;
use crate::song::SongView;
use crate::text;
use vstd::prelude::*;

verus! {

broadcast use crate::song::group_songs;

// --- streams ------------------------------------------------------------------------------

/// How long a cached stream must still be good for when it is picked, in seconds. One that
/// expires while it is loading fails in the player.
pub const CACHE_MARGIN_SECS: i64 = 60;

/// A stream for a track, and what came with it. The loudness is held as the bits of the number.
pub struct PlaybackData {
    pub video_id: String,
    pub stream_url: String,
    pub itag: i64,
    pub headers: Vec<(String, String)>,
    pub expires_in_seconds: i64,
    pub loudness_db: Option<u64>,
    pub playback_url: Option<String>,
    pub title: Option<String>,
    pub artists: Option<String>,
    pub duration: Option<String>,
    pub thumbnail: Option<String>,
    pub stream_client: String,
}

/// A row of the stream cache.
pub struct CachedStream {
    pub url: String,
    pub itag: i64,
    pub expires_at: i64,
    pub loudness_db: Option<u64>,
}

/// Whether a stream made from a cache row is the right one: the row's address for the time it
/// has left, served by the cache, and nothing else known of the track.
pub open spec fn is_from_cache(
    d: PlaybackData,
    video_id: Seq<char>,
    row: CachedStream,
    now: int,
) -> bool {
    &&& d.video_id@ == video_id
    &&& d.stream_url@ == row.url@
    &&& d.itag == row.itag
    &&& d.headers@.len() == 0
    &&& d.expires_in_seconds == row.expires_at - now
    &&& d.loudness_db == row.loudness_db
    &&& d.playback_url is None
    &&& d.title is None
    &&& d.artists is None
    &&& d.duration is None
    &&& d.thumbnail is None
    &&& d.stream_client@ == "cache"@
}

/// The moment that a cached stream must still be good at to be picked now.
pub fn cache_deadline(now: i64) -> (r: i64)
    requires
        now <= i64::MAX - CACHE_MARGIN_SECS,
    ensures
        r == now + CACHE_MARGIN_SECS,
{
    now + CACHE_MARGIN_SECS
}

/// The stream that a cache row stands for.
pub fn from_cache(video_id: &str, row: CachedStream, now: i64) -> (r: PlaybackData)
    requires
        i64::MIN <= row.expires_at - now <= i64::MAX,
    ensures
        is_from_cache(r, video_id@, row, now as int),
{
    PlaybackData {
        video_id: video_id.to_owned(),
        stream_url: row.url,
        itag: row.itag,
        headers: Vec::new(),
        expires_in_seconds: row.expires_at - now,
        loudness_db: row.loudness_db,
        playback_url: None,
        title: None,
        artists: None,
        duration: None,
        thumbnail: None,
        stream_client: "cache".to_owned(),
    }
}

/// The moment that a stream expires: now, where it says it already has.
pub open spec fn expiry(now: int, expires_in: int) -> int {
    if expires_in > 0 {
        now + expires_in
    } else {
        now
    }
}

/// The row that a freshly found stream leaves in the cache: none for one that `rustypipe` served,
/// whose addresses the player cannot load again.
pub fn to_cache(data: &PlaybackData, now: i64) -> (r: Option<CachedStream>)
    requires
        expiry(now as int, data.expires_in_seconds as int) <= i64::MAX,
    ensures
        r is None == (data.stream_client@ == "rustypipe"@),
        r matches Some(row) ==> row.url@ == data.stream_url@ && row.itag == data.itag
            && row.expires_at == expiry(now as int, data.expires_in_seconds as int)
            && row.loudness_db == data.loudness_db,
{
    if text::same(data.stream_client.as_str(), "rustypipe") {
        None
    } else {
        let left: i64 = if data.expires_in_seconds > 0 {
            data.expires_in_seconds
        } else {
            0
        };
        Some(
            CachedStream {
                url: data.stream_url.clone(),
                itag: data.itag,
                expires_at: now + left,
                loudness_db: data.loudness_db,
            },
        )
    }
}

/// A cached stream is handed out with the time it has left: whenever that happens, it ends when it
/// was to end, and one that has ended ends now.
pub proof fn law_cache_keeps_the_expiry(found: int, now: int, expires_in: int)
    requires
        expires_in > 0,
        found <= now,
    ensures
        expiry(now, expiry(found, expires_in) - now) == if now < found + expires_in {
            found + expires_in
        } else {
            now
        },
{
}

// --- what playing does to the queue -------------------------------------------------------

/// The queue with the history state of a track that just started.
pub open spec fn fresh_play(
    q: QueueView,
    client: Option<Seq<char>>,
    url: Option<Seq<char>>,
    cpn: Seq<char>,
) -> QueueView {
    QueueView {
        current_client: client,
        playback_url: url,
        cpn,
        history_pinged: false,
        duration: 0,
        ..q
    }
}

/// The list with the track at an index repaired from what came with its stream.
pub open spec fn repaired_at(
    items: Seq<SongView>,
    i: int,
    length: Option<Seq<char>>,
    author: Option<Seq<char>>,
) -> Seq<SongView> {
    if 0 <= i < items.len() {
        items.update(i, song::repaired(items[i], length, author))
    } else {
        items
    }
}

/// Whether the length that came with a stream can be written out for the track at an index: it
/// is needed only where the track has none.
pub open spec fn repair_fits(items: Seq<SongView>, i: int, data: PlaybackData) -> bool {
    0 <= i < items.len() && items[i].duration is None ==> song::reported_fits(
        text::opt_text(data.duration),
    )
}

/// The queue once its current track has been loaded from a stream. The queue's own copy is
/// repaired too, where it is still the track that was loaded.
pub open spec fn loaded(
    q: QueueView,
    video_id: Seq<char>,
    data: PlaybackData,
    cpn: Seq<char>,
) -> QueueView {
    let q2 = fresh_play(q, Some(data.stream_client@), text::opt_text(data.playback_url), cpn);
    if queue::id_at(q.items, q.current) == Some(video_id) {
        QueueView {
            items: repaired_at(
                q.items,
                q.current,
                text::opt_text(data.duration),
                text::opt_text(data.artists),
            ),
            ..q2
        }
    } else {
        q2
    }
}

/// Whether a stream for the track at `i` can still be handed to the player as the primed one: the
/// slot still holds that track and is not primed already.
pub open spec fn can_prime(q: QueueView, i: int, video_id: Seq<char>) -> bool {
    queue::id_at(q.items, i) == Some(video_id) && q.lookahead_loaded != Some(i)
}

/// The queue once the track at `i` has been handed to the player.
pub open spec fn with_primed(
    q: QueueView,
    i: int,
    data: PlaybackData,
    gain: Option<u64>,
) -> QueueView {
    QueueView {
        items: repaired_at(
            q.items,
            i,
            text::opt_text(data.duration),
            text::opt_text(data.artists),
        ),
        lookahead_loaded: Some(i),
        lookahead_client: Some(data.stream_client@),
        lookahead_gain: Some(gain),
        lookahead_playback_url: text::opt_text(data.playback_url),
        ..q
    }
}

/// The queue once the player has advanced into the primed track by itself. What was known of the
/// primed track is now known of the current one, and nothing is primed beyond it.
pub open spec fn advanced(q: QueueView, cpn: Seq<char>) -> QueueView {
    fresh_play(
        QueueView {
            lookahead_gain: None,
            lookahead_loaded: None,
            lookahead_client: None,
            lookahead_playback_url: None,
            ..q
        },
        q.lookahead_client,
        q.lookahead_playback_url,
        cpn,
    )
}

/// The queue once its current track has turned out to be gone from the disk. It leaves; the
/// pointer then stands on what followed it, or on the last track where nothing did.
pub open spec fn without_missing(q: QueueView) -> QueueView {
    let items = if 0 <= q.current < q.items.len() {
        q.items.remove(q.current)
    } else {
        q.items
    };
    let left = QueueView { items, lookahead_loaded: None, ..q };
    if q.current >= items.len() {
        queue::seeked(
            left,
            if items.len() == 0 {
                0
            } else {
                items.len() - 1
            },
        )
    } else {
        left
    }
}

/// Whether a track that cannot be played has another behind it to skip to. Repeat does not count.
pub open spec fn can_skip(q: QueueView) -> bool {
    q.current + 1 < q.items.len()
}

/// The queue with its unplayable current track skipped over, where one can be.
pub open spec fn skipped(q: QueueView) -> QueueView {
    if can_skip(q) {
        QueueView { current: q.current + 1, lookahead_loaded: None, ..q }
    } else {
        q
    }
}

impl QueueState {
    /// Records that the current track, with the id `video_id`, has been loaded from a stream.
    pub fn set_loaded(&mut self, video_id: &str, data: &PlaybackData, cpn: String)
        requires
            repair_fits(old(self)@.items, old(self)@.current, *data),
        ensures
            final(self)@ == loaded(old(self)@, video_id@, *data, cpn@),
    {
        let ghost before = self@;
        self.current_client = Some(data.stream_client.clone());
        self.playback_url = text::copy_opt(&data.playback_url);
        self.cpn = cpn;
        self.history_pinged = false;
        self.duration = 0;
        if self.current < self.items.len() && text::same(
            self.items[self.current].video_id.as_str(),
            video_id,
        ) {
            let cur: usize = self.current;
            repair_at(&mut self.items, cur, data);
        }
        assert(self@ =~= loaded(before, video_id@, *data, cpn@));
    }

    /// Whether a stream for the track at `i` can still be handed to the player.
    pub fn primable(&self, i: usize, video_id: &str) -> (r: bool)
        ensures
            r == can_prime(self@, i as int, video_id@),
    {
        if i < self.items.len() && text::same(self.items[i].video_id.as_str(), video_id) {
            match self.lookahead_loaded {
                Some(k) => k != i,
                None => true,
            }
        } else {
            false
        }
    }

    /// Records that the track at `i` has been handed to the player.
    pub fn set_primed(&mut self, i: usize, data: &PlaybackData, gain: Option<u64>)
        requires
            repair_fits(old(self)@.items, i as int, *data),
        ensures
            final(self)@ == with_primed(old(self)@, i as int, *data, gain),
    {
        let ghost before = self@;
        self.lookahead_loaded = Some(i);
        self.lookahead_client = Some(data.stream_client.clone());
        self.lookahead_gain = Some(gain);
        self.lookahead_playback_url = text::copy_opt(&data.playback_url);
        if i < self.items.len() {
            repair_at(&mut self.items, i, data);
        }
        assert(self@ =~= with_primed(before, i as int, *data, gain));
    }

    /// Records that the player has advanced into the primed track. Answers the gain to apply, if
    /// one was recorded.
    pub fn advance(&mut self, cpn: String) -> (r: Option<Option<u64>>)
        ensures
            final(self)@ == advanced(old(self)@, cpn@),
            r == old(self)@.lookahead_gain,
    {
        let ghost before = self@;
        let gain = self.lookahead_gain.take();
        self.lookahead_loaded = None;
        self.current_client = self.lookahead_client.take();
        self.playback_url = self.lookahead_playback_url.take();
        self.cpn = cpn;
        self.history_pinged = false;
        self.duration = 0;
        assert(self@ =~= advanced(before, cpn@));
        gain
    }

    /// Takes out the current track, which is gone from the disk. Answers whether nothing is left
    /// behind it to play.
    pub fn drop_missing(&mut self) -> (r: bool)
        ensures
            final(self)@ == without_missing(old(self)@),
            r == (old(self)@.current + 1 >= old(self)@.items.len()),
            old(self)@.valid() ==> final(self)@.valid(),
    {
        let ghost before = self@;
        if self.current < self.items.len() {
            let cur: usize = self.current;
            let _ = self.items.remove(cur);
        }
        self.lookahead_loaded = None;
        let exhausted: bool = self.current >= self.items.len();
        if exhausted {
            let last: usize = if self.items.len() == 0 {
                0
            } else {
                self.items.len() - 1
            };
            self.seek_to(last);
        }
        assert(self@ =~= without_missing(before));
        exhausted
    }

    /// Skips over the current track, which cannot be played. Answers whether there was another
    /// behind it.
    pub fn skip_unplayable(&mut self) -> (r: bool)
        ensures
            final(self)@ == skipped(old(self)@),
            r == can_skip(old(self)@),
            old(self)@.valid() ==> final(self)@.valid(),
    {
        let ghost before = self@;
        if self.current < self.items.len() && self.current + 1 < self.items.len() {
            self.current = self.current + 1;
            self.lookahead_loaded = None;
            assert(self@ =~= skipped(before));
            true
        } else {
            assert(self@ =~= skipped(before));
            false
        }
    }
}

/// Repairs the track at an index from what came with its stream.
fn repair_at(items: &mut Vec<SongItem>, i: usize, data: &PlaybackData)
    requires
        i < old(items)@.len(),
        repair_fits(song::songs(old(items)@), i as int, *data),
    ensures
        song::songs(final(items)@) == repaired_at(
            song::songs(old(items)@),
            i as int,
            text::opt_text(data.duration),
            text::opt_text(data.artists),
        ),
{
    let ghost before = song::songs(items@);
    let mut item = items[i].clone();
    song::backfill_metadata(
        &mut item,
        text::as_opt_str(&data.duration),
        text::as_opt_str(&data.artists),
    );
    items.set(i, item);
    assert(song::songs(items@) =~= repaired_at(
        before,
        i as int,
        text::opt_text(data.duration),
        text::opt_text(data.artists),
    ));
}

/// Skipping over unplayable tracks ends: each skip leaves fewer tracks behind the pointer, and a
/// deleted file leaves fewer tracks in the list.
pub proof fn law_skipping_ends(q: QueueView)
    requires
        q.valid(),
    ensures
        can_skip(q) ==> 0 <= skipped(q).items.len() - skipped(q).current < q.items.len()
            - q.current,
        q.items.len() > 0 ==> without_missing(q).items.len() == q.items.len() - 1,
{
}

/// A gapless advance gives the new track exactly what was recorded when it was primed.
pub proof fn law_advance_promotes_the_primed_track(
    q: QueueView,
    i: int,
    data: PlaybackData,
    gain: Option<u64>,
    cpn: Seq<char>,
)
    requires
        q.valid(),
        q.next() == Some(i),
    ensures
        ({
            let after = advanced(queue::seeked(with_primed(q, i, data, gain), i), cpn);
            &&& after.valid()
            &&& after.current == i
            &&& after.current_client == Some(data.stream_client@)
            &&& after.playback_url == text::opt_text(data.playback_url)
            &&& after.cpn == cpn
            &&& !after.history_pinged
            &&& after.lookahead_loaded is None
            &&& after.playing() == Some(
                song::repaired(
                    q.items[i],
                    text::opt_text(data.duration),
                    text::opt_text(data.artists),
                ),
            )
        }),
{
}

/// A stream that is cached and picked again is the stream that was found: the same address in the
/// same format and loudness, for exactly the time that is left of it, and served by the cache.
pub proof fn law_cached_stream_is_the_found_one(
    found: PlaybackData,
    row: CachedStream,
    video_id: Seq<char>,
    picked: PlaybackData,
    then: int,
    now: int,
)
    requires
        found.expires_in_seconds > 0,
        row.url@ == found.stream_url@,
        row.itag == found.itag,
        row.expires_at == expiry(then, found.expires_in_seconds as int),
        row.loudness_db == found.loudness_db,
        is_from_cache(picked, video_id, row, now),
    ensures
        picked.video_id@ == video_id,
        picked.stream_url@ == found.stream_url@,
        picked.itag == found.itag,
        picked.loudness_db == found.loudness_db,
        picked.expires_in_seconds + now == found.expires_in_seconds + then,
        picked.stream_client@ == "cache"@,
        picked.playback_url is None,
{
}

/// A row that is picked by its deadline is still good for a minute.
pub proof fn law_picked_stream_lasts_a_minute(
    row: CachedStream,
    video_id: Seq<char>,
    picked: PlaybackData,
    now: int,
)
    requires
        row.expires_at > now + CACHE_MARGIN_SECS,
        is_from_cache(picked, video_id, row, now),
    ensures
        picked.expires_in_seconds > 60,
{
}

/// An advance into the primed track moves what was known of it over and nothing else: the list, the
/// pointer and the modes stay, and nothing is left primed.
pub proof fn law_advance_changes_no_track(q: QueueView, cpn: Seq<char>)
    ensures
        ({
            let after = advanced(q, cpn);
            &&& after.items == q.items
            &&& after.current == q.current
            &&& after.played_from == q.played_from
            &&& after.current_client == q.lookahead_client
            &&& after.playback_url == q.lookahead_playback_url
            &&& after.cpn == cpn
            &&& !after.history_pinged
            &&& after.duration == 0
            &&& after.lookahead_loaded is None
            &&& after.lookahead_client is None
            &&& after.lookahead_gain is None
            &&& after.lookahead_playback_url is None
            &&& after.retried == q.retried
            &&& after.repeat == q.repeat
            &&& after.shuffle_orig == q.shuffle_orig
        }),
{
}

/// Writing a stream to the cache and picking its row later gives the stream back: the same address,
/// format and loudness, until the very moment that it was good to. What `rustypipe` served is never
/// cached, and anything else always is.
pub proof fn law_cache_gives_the_stream_back(
    found: &PlaybackData,
    then: i64,
    cached: Option<CachedStream>,
    video_id: &str,
    now: i64,
    picked: PlaybackData,
)
    requires
        found.expires_in_seconds > 0,
        call_ensures(to_cache, (found, then), cached),
        cached is Some ==> call_ensures(from_cache, (video_id, cached->0, now), picked),
    ensures
        cached is None == (found.stream_client@ == "rustypipe"@),
        cached is Some ==> {
            &&& picked.video_id@ == video_id@
            &&& picked.stream_url@ == found.stream_url@
            &&& picked.itag == found.itag
            &&& picked.loudness_db == found.loudness_db
            &&& now + picked.expires_in_seconds == then + found.expires_in_seconds
            &&& picked.stream_client@ == "cache"@
        },
{
}

} // verus!
