//! Tracks: the queue's own row, and the shape that travels in a listening session.

use crate::duration;
use crate::text;
use vstd::prelude::*;

verus! {

/// One linked name in an artist line.
#[derive(Debug)]
pub struct ArtistRun {
    pub text: String,
    pub id: Option<String>,
}

/// A track as the queue holds it.
#[derive(Debug)]
pub struct SongItem {
    pub video_id: String,
    pub title: String,
    pub artists: String,
    pub artist_id: Option<String>,
    /// Per-artist links; rendered in place of `artists` where there are any.
    pub artist_runs: Vec<ArtistRun>,
    pub album: Option<String>,
    pub album_id: Option<String>,
    pub duration: Option<String>,
    pub play_count: Option<String>,
    pub thumbnail: Option<String>,
    pub set_video_id: Option<String>,
    pub rating: Option<String>,
    /// Who queued the track, in a session.
    pub queued_by: Option<String>,
    /// Queued by hand with "Play next".
    pub queued: bool,
    /// Queued by hand with "Add to queue".
    pub queued_end: bool,
    /// The album or playlist that a hand-queued block came from.
    pub queued_from: Option<String>,
    /// Appended by autoplay behind the queue that was asked for.
    pub autoplay: bool,
    pub is_video: bool,
    pub explicit: bool,
}

/// A track on the wire of a listening session.
#[derive(Debug)]
pub struct Track {
    pub id: String,
    pub title: String,
    pub artist: String,
    pub thumbnail: Option<String>,
    pub duration_ms: i64,
    pub queued_by: Option<String>,
}

// --- views --------------------------------------------------------------------------------

/// What an [`ArtistRun`] holds.
#[verifier::ext_equal]
pub struct RunView {
    pub text: Seq<char>,
    pub id: Option<Seq<char>>,
}

/// What a [`SongItem`] holds.
#[verifier::ext_equal]
pub struct SongView {
    pub video_id: Seq<char>,
    pub title: Seq<char>,
    pub artists: Seq<char>,
    pub artist_id: Option<Seq<char>>,
    pub artist_runs: Seq<RunView>,
    pub album: Option<Seq<char>>,
    pub album_id: Option<Seq<char>>,
    pub duration: Option<Seq<char>>,
    pub play_count: Option<Seq<char>>,
    pub thumbnail: Option<Seq<char>>,
    pub set_video_id: Option<Seq<char>>,
    pub rating: Option<Seq<char>>,
    pub queued_by: Option<Seq<char>>,
    pub queued: bool,
    pub queued_end: bool,
    pub queued_from: Option<Seq<char>>,
    pub autoplay: bool,
    pub is_video: bool,
    pub explicit: bool,
}

/// What a [`Track`] holds.
#[verifier::ext_equal]
pub struct TrackView {
    pub id: Seq<char>,
    pub title: Seq<char>,
    pub artist: Seq<char>,
    pub thumbnail: Option<Seq<char>>,
    pub duration_ms: int,
    pub queued_by: Option<Seq<char>>,
}

impl View for ArtistRun {
    type V = RunView;

    open spec fn view(&self) -> RunView {
        RunView { text: self.text@, id: text::opt_text(self.id) }
    }
}

/// The views of a list of runs.
pub open spec fn runs(v: Seq<ArtistRun>) -> Seq<RunView> {
    Seq::new(v.len(), |i: int| v[i]@)
}

impl View for SongItem {
    type V = SongView;

    open spec fn view(&self) -> SongView {
        SongView {
            video_id: self.video_id@,
            title: self.title@,
            artists: self.artists@,
            artist_id: text::opt_text(self.artist_id),
            artist_runs: runs(self.artist_runs@),
            album: text::opt_text(self.album),
            album_id: text::opt_text(self.album_id),
            duration: text::opt_text(self.duration),
            play_count: text::opt_text(self.play_count),
            thumbnail: text::opt_text(self.thumbnail),
            set_video_id: text::opt_text(self.set_video_id),
            rating: text::opt_text(self.rating),
            queued_by: text::opt_text(self.queued_by),
            queued: self.queued,
            queued_end: self.queued_end,
            queued_from: text::opt_text(self.queued_from),
            autoplay: self.autoplay,
            is_video: self.is_video,
            explicit: self.explicit,
        }
    }
}

impl View for Track {
    type V = TrackView;

    open spec fn view(&self) -> TrackView {
        TrackView {
            id: self.id@,
            title: self.title@,
            artist: self.artist@,
            thumbnail: text::opt_text(self.thumbnail),
            duration_ms: self.duration_ms as int,
            queued_by: text::opt_text(self.queued_by),
        }
    }
}

/// The views of a list of tracks.
pub open spec fn songs(v: Seq<SongItem>) -> Seq<SongView> {
    Seq::new(v.len(), |i: int| v[i]@)
}

/// The views of a list of session tracks.
pub open spec fn tracks(v: Seq<Track>) -> Seq<TrackView> {
    Seq::new(v.len(), |i: int| v[i]@)
}

/// Appending a track appends its view.
pub broadcast proof fn lemma_songs_push(v: Seq<SongItem>, x: SongItem)
    ensures
        #[trigger] songs(v.push(x)) == songs(v).push(x@),
{
    assert(songs(v.push(x)) =~= songs(v).push(x@));
}

/// The views of a concatenation.
pub broadcast proof fn lemma_songs_add(v: Seq<SongItem>, w: Seq<SongItem>)
    ensures
        #[trigger] songs(v + w) == songs(v) + songs(w),
{
    assert(songs(v + w) =~= songs(v) + songs(w));
}

/// The views of a stretch.
pub broadcast proof fn lemma_songs_subrange(v: Seq<SongItem>, from: int, to: int)
    requires
        0 <= from <= to <= v.len(),
    ensures
        #[trigger] songs(v.subrange(from, to)) == songs(v).subrange(from, to),
{
    assert(songs(v.subrange(from, to)) =~= songs(v).subrange(from, to));
}

/// Removing a track removes its view.
pub broadcast proof fn lemma_songs_remove(v: Seq<SongItem>, i: int)
    requires
        0 <= i < v.len(),
    ensures
        #[trigger] songs(v.remove(i)) == songs(v).remove(i),
{
    assert(songs(v.remove(i)) =~= songs(v).remove(i));
}

/// Inserting a track inserts its view.
pub broadcast proof fn lemma_songs_insert(v: Seq<SongItem>, i: int, x: SongItem)
    requires
        0 <= i <= v.len(),
    ensures
        #[trigger] songs(v.insert(i, x)) == songs(v).insert(i, x@),
{
    assert(songs(v.insert(i, x)) =~= songs(v).insert(i, x@));
}

/// Replacing a track replaces its view.
pub broadcast proof fn lemma_songs_update(v: Seq<SongItem>, i: int, x: SongItem)
    requires
        0 <= i < v.len(),
    ensures
        #[trigger] songs(v.update(i, x)) == songs(v).update(i, x@),
{
    assert(songs(v.update(i, x)) =~= songs(v).update(i, x@));
}

pub broadcast group group_songs {
    lemma_songs_push,
    lemma_songs_add,
    lemma_songs_subrange,
    lemma_songs_remove,
    lemma_songs_insert,
    lemma_songs_update,
}

/// The view of an optional track.
pub open spec fn opt_song(s: Option<SongItem>) -> Option<SongView> {
    match s {
        Some(t) => Some(t@),
        None => None,
    }
}

/// Whether a track was queued by hand, with either gesture.
pub open spec fn manual(s: SongView) -> bool {
    s.queued || s.queued_end
}

// --- copies -------------------------------------------------------------------------------

impl Clone for ArtistRun {
    fn clone(&self) -> (r: Self)
        ensures
            r@ == self@,
    {
        ArtistRun { text: self.text.clone(), id: text::copy_opt(&self.id) }
    }
}

impl Clone for SongItem {
    fn clone(&self) -> (r: Self)
        ensures
            r@ == self@,
    {
        let mut artist_runs: Vec<ArtistRun> = Vec::new();
        for i in 0..self.artist_runs.len()
            invariant
                runs(artist_runs@) == runs(self.artist_runs@).take(i as int),
        {
            let run = self.artist_runs[i].clone();
            let ghost before = artist_runs@;
            artist_runs.push(run);
            assert(runs(artist_runs@) =~= runs(before).push(run@));
            assert(runs(artist_runs@) =~= runs(self.artist_runs@).take(i + 1));
        }
        let r = SongItem {
            video_id: self.video_id.clone(),
            title: self.title.clone(),
            artists: self.artists.clone(),
            artist_id: text::copy_opt(&self.artist_id),
            artist_runs,
            album: text::copy_opt(&self.album),
            album_id: text::copy_opt(&self.album_id),
            duration: text::copy_opt(&self.duration),
            play_count: text::copy_opt(&self.play_count),
            thumbnail: text::copy_opt(&self.thumbnail),
            set_video_id: text::copy_opt(&self.set_video_id),
            rating: text::copy_opt(&self.rating),
            queued_by: text::copy_opt(&self.queued_by),
            queued: self.queued,
            queued_end: self.queued_end,
            queued_from: text::copy_opt(&self.queued_from),
            autoplay: self.autoplay,
            is_video: self.is_video,
            explicit: self.explicit,
        };
        assert(r@ =~= self@);
        r
    }
}

/// A copy of the tracks `items[from..to]`.
pub fn copy_between(items: &Vec<SongItem>, from: usize, to: usize) -> (r: Vec<SongItem>)
    requires
        from <= to <= items@.len(),
    ensures
        songs(r@) == songs(items@).subrange(from as int, to as int),
{
    let mut out: Vec<SongItem> = Vec::new();
    for i in from..to
        invariant
            from <= to <= items@.len(),
            songs(out@) == songs(items@).subrange(from as int, i as int),
    {
        broadcast use group_songs;

        let song = items[i].clone();
        out.push(song);
        assert(songs(out@) =~= songs(items@).subrange(from as int, i + 1));
    }
    out
}

/// A copy of a list of tracks.
pub fn copy_songs(items: &Vec<SongItem>) -> (r: Vec<SongItem>)
    ensures
        songs(r@) == songs(items@),
{
    let out = copy_between(items, 0, items.len());
    assert(songs(out@) =~= songs(items@));
    out
}

/// Moves `more` behind the tracks of `items`.
pub fn append_songs(items: &mut Vec<SongItem>, more: Vec<SongItem>)
    ensures
        songs(final(items)@) == songs(old(items)@) + songs(more@),
{
    broadcast use group_songs;

    let mut tail = more;
    items.append(&mut tail);
}

// --- the session shape --------------------------------------------------------------------

/// A queue row in the session's wire shape.
pub open spec fn wire(s: SongView) -> TrackView {
    TrackView {
        id: s.video_id,
        title: s.title,
        artist: s.artists,
        thumbnail: s.thumbnail,
        duration_ms: duration::length_ms(s.duration),
        queued_by: s.queued_by,
    }
}

/// A session track as a queue row: what the wire does not carry is absent.
pub open spec fn unwired(t: TrackView) -> SongView {
    SongView {
        video_id: t.id,
        title: t.title,
        artists: t.artist,
        artist_id: None,
        artist_runs: Seq::empty(),
        album: None,
        album_id: None,
        duration: if t.duration_ms > 0 {
            Some(duration::length_text(t.duration_ms))
        } else {
            None
        },
        play_count: None,
        thumbnail: t.thumbnail,
        set_video_id: None,
        rating: None,
        queued_by: t.queued_by,
        queued: false,
        queued_end: false,
        queued_from: None,
        autoplay: false,
        is_video: false,
        explicit: false,
    }
}

/// Whether a track's length can go on the wire in 64-bit milliseconds.
pub open spec fn wirable(s: SongView) -> bool {
    duration::length_fits(s.duration)
}

/// Whether a track's length can go on the wire.
pub fn is_wirable(s: &SongItem) -> (r: bool)
    ensures
        r == wirable(s@),
{
    duration::duration_fits(text::as_opt_str(&s.duration))
}

/// Puts a queue row into the session's wire shape.
pub fn song_to_track(s: &SongItem) -> (r: Track)
    requires
        wirable(s@),
    ensures
        r@ == wire(s@),
{
    Track {
        id: s.video_id.clone(),
        title: s.title.clone(),
        artist: s.artists.clone(),
        thumbnail: text::copy_opt(&s.thumbnail),
        duration_ms: duration::parse_duration_ms(text::as_opt_str(&s.duration)),
        queued_by: text::copy_opt(&s.queued_by),
    }
}

/// Makes a queue row of a session track.
pub fn track_to_song(t: &Track) -> (r: SongItem)
    ensures
        r@ == unwired(t@),
{
    let r = SongItem {
        video_id: t.id.clone(),
        title: t.title.clone(),
        artists: t.artist.clone(),
        artist_id: None,
        artist_runs: Vec::new(),
        album: None,
        album_id: None,
        duration: if t.duration_ms > 0 {
            Some(duration::format_duration(t.duration_ms))
        } else {
            None
        },
        play_count: None,
        thumbnail: text::copy_opt(&t.thumbnail),
        set_video_id: None,
        rating: None,
        queued_by: text::copy_opt(&t.queued_by),
        queued: false,
        queued_end: false,
        queued_from: None,
        autoplay: false,
        is_video: false,
        explicit: false,
    };
    assert(r@ =~= unwired(t@));
    r
}

/// The queue rows of a list of session tracks.
pub open spec fn unwired_all(list: Seq<TrackView>) -> Seq<SongView> {
    Seq::new(list.len(), |i: int| unwired(list[i]))
}

/// Makes queue rows of session tracks.
pub fn tracks_to_songs(list: &Vec<Track>) -> (r: Vec<SongItem>)
    ensures
        songs(r@) == unwired_all(tracks(list@)),
{
    let mut out: Vec<SongItem> = Vec::new();
    for i in 0..list.len()
        invariant
            songs(out@) == unwired_all(tracks(list@)).take(i as int),
    {
        broadcast use group_songs;

        let song = track_to_song(&list[i]);
        out.push(song);
        assert(songs(out@) =~= unwired_all(tracks(list@)).take(i + 1));
    }
    assert(unwired_all(tracks(list@)).take(list@.len() as int) =~= unwired_all(tracks(list@)));
    out
}

/// The wire shape of a list of queue rows.
pub open spec fn wire_all(list: Seq<SongView>) -> Seq<TrackView> {
    Seq::new(list.len(), |i: int| wire(list[i]))
}

/// A track that went over the wire keeps its identity and its whole seconds; anything that is
/// not a positive length arrives as no length at all. Going over it again changes nothing more.
pub proof fn law_wire_round_trip(t: TrackView)
    requires
        duration::fits(t.duration_ms),
    ensures
        wirable(unwired(t)),
        wire(unwired(t)).id == t.id,
        wire(unwired(t)).title == t.title,
        wire(unwired(t)).artist == t.artist,
        wire(unwired(t)).thumbnail == t.thumbnail,
        wire(unwired(t)).queued_by == t.queued_by,
        wire(unwired(t)).duration_ms == (if t.duration_ms > 0 {
            t.duration_ms - t.duration_ms % 1000
        } else {
            0
        }),
        wire(unwired(wire(unwired(t)))) == wire(unwired(t)),
{
    let once = wire(unwired(t));
    duration::law_length_round_trip(t.duration_ms);
    if t.duration_ms > 0 {
        assert(duration::remainder(t.duration_ms, 1000) == t.duration_ms % 1000);
        duration::law_length_round_trip(once.duration_ms);
        assert(duration::remainder(once.duration_ms, 1000) == 0);
    }
    assert(wire(unwired(once)) =~= once);
}

// --- repairing a row ----------------------------------------------------------------------

/// The length that a player response's `lengthSeconds` writes, where it writes a number.
pub open spec fn reported_length(seconds: Option<Seq<char>>) -> Option<Seq<char>> {
    match seconds {
        Some(s) => match text::numeral(text::trimmed(s)) {
            Some(n) => Some(duration::length_text(n * 1000)),
            None => None,
        },
        None => None,
    }
}

/// Whether `lengthSeconds`, where it is a number, fits in 64-bit milliseconds.
pub open spec fn reported_fits(seconds: Option<Seq<char>>) -> bool {
    seconds is Some ==> (text::numeral(text::trimmed(seconds->0)) is Some ==> duration::fits(
        text::numeral(text::trimmed(seconds->0))->0 * 1000,
    ))
}

/// Whether an artist line is no artist line: it is blank, or a whole display subtitle.
pub open spec fn bogus_artists(artists: Seq<char>) -> bool {
    text::trimmed(artists).len() == 0 || artists.contains('•')
}

/// A row after the player response has been held against it. A length that is there stays. A
/// bogus artist line gives way to the author, and its links go with it; a real one stays.
pub open spec fn repaired(
    s: SongView,
    seconds: Option<Seq<char>>,
    author: Option<Seq<char>>,
) -> SongView {
    let timed = if s.duration is None {
        SongView { duration: reported_length(seconds), ..s }
    } else {
        s
    };
    if author is Some && text::trimmed(author->0).len() > 0 && bogus_artists(s.artists) {
        SongView { artists: text::trimmed(author->0), artist_runs: Seq::empty(), ..timed }
    } else {
        timed
    }
}

/// Whether [`backfill_metadata`] can be called with this `lengthSeconds`.
pub fn length_seconds_fits(length_seconds: Option<&str>) -> (r: bool)
    ensures
        r == reported_fits(text::opt_str(length_seconds)),
{
    match length_seconds {
        Some(s) => match text::parse_i64(&text::trim_chars(&text::chars_of(s))) {
            Some(n) => -9_223_372_036_854_775 <= n && n <= 9_223_372_036_854_775,
            None => true,
        },
        None => true,
    }
}

/// Repairs a queue row from the player response: fills a missing length from `lengthSeconds`,
/// and replaces an artist line that is missing or is a display subtitle by the author. The
/// links belong to the line that was replaced, so they go with it.
pub fn backfill_metadata(item: &mut SongItem, length_seconds: Option<&str>, author: Option<&str>)
    requires
        old(item).duration is None ==> reported_fits(text::opt_str(length_seconds)),
    ensures
        final(item)@ == repaired(old(item)@, text::opt_str(length_seconds), text::opt_str(author)),
{
    if item.duration.is_none() {
        if let Some(s) = length_seconds {
            if let Some(secs) = text::parse_i64(&text::trim_chars(&text::chars_of(s))) {
                item.duration = Some(duration::format_duration(secs * 1000));
            }
        }
    }
    if let Some(a) = author {
        let name = text::trim(a);
        if !name.as_str().is_empty() {
            let line = text::trim(item.artists.as_str());
            if line.as_str().is_empty() || text::has_char(item.artists.as_str(), '•') {
                item.artists = name;
                item.artist_runs = Vec::new();
            }
        }
    }
    assert(item@ =~= repaired(old(item)@, text::opt_str(length_seconds), text::opt_str(author)));
}

/// A repair never touches a length that is there, nor an artist line that is a real one, and
/// repairing twice from one response changes nothing more.
pub proof fn law_repair_is_conservative(
    s: SongView,
    seconds: Option<Seq<char>>,
    author: Option<Seq<char>>,
)
    ensures
        s.duration is Some ==> repaired(s, seconds, author).duration == s.duration,
        !bogus_artists(s.artists) ==> {
            &&& repaired(s, seconds, author).artists == s.artists
            &&& repaired(s, seconds, author).artist_runs == s.artist_runs
        },
        repaired(s, seconds, author).video_id == s.video_id,
        repaired(repaired(s, seconds, author), seconds, author) == repaired(s, seconds, author),
{
    assert(repaired(repaired(s, seconds, author), seconds, author) =~= repaired(
        s,
        seconds,
        author,
    ));
}

// --- stretches of a list on the wire --------------------------------------------------------

/// Whether every track from `from` up to `to` can be put on the wire.
pub open spec fn all_wirable(list: Seq<SongView>, from: int, to: int) -> bool {
    forall|i: int| from <= i < to ==> wirable(#[trigger] list[i])
}

/// Whether every track from `from` up to `to` can be put on the wire.
pub fn wirable_between(items: &Vec<SongItem>, from: usize, to: usize) -> (r: bool)
    requires
        from <= to <= items@.len(),
    ensures
        r == all_wirable(songs(items@), from as int, to as int),
{
    for i in from..to
        invariant
            from <= to <= items@.len(),
            all_wirable(songs(items@), from as int, i as int),
    {
        assert(songs(items@)[i as int] == items@[i as int]@);
        if !is_wirable(&items[i]) {
            return false;
        }
    }
    true
}

/// The tracks from `from` up to `to` as they go over the wire.
pub fn wire_between(items: &Vec<SongItem>, from: usize, to: usize) -> (r: Vec<Track>)
    requires
        from <= to <= items@.len(),
        all_wirable(songs(items@), from as int, to as int),
    ensures
        tracks(r@) == wire_all(songs(items@).subrange(from as int, to as int)),
{
    let mut out: Vec<Track> = Vec::new();
    let ghost all = songs(items@);
    for i in from..to
        invariant
            from <= to <= items@.len(),
            all == songs(items@),
            all_wirable(all, from as int, to as int),
            tracks(out@) == wire_all(all.subrange(from as int, i as int)),
    {
        assert(all[i as int] == items@[i as int]@);
        let t = song_to_track(&items[i]);
        let ghost was = out@;
        out.push(t);
        assert(tracks(out@) =~= tracks(was).push(t@));
        assert(wire_all(all.subrange(from as int, i + 1)) =~= wire_all(
            all.subrange(from as int, i as int),
        ).push(wire(all[i as int])));
    }
    out
}

/// What goes over the wire is the track: its id, its names, its cover, who queued it, and its
/// length in milliseconds.
pub proof fn law_wire_carries_the_track(s: SongView)
    ensures
        wire(s).id == s.video_id,
        wire(s).title == s.title,
        wire(s).artist == s.artists,
        wire(s).thumbnail == s.thumbnail,
        wire(s).queued_by == s.queued_by,
        wire(s).duration_ms == duration::length_ms(s.duration),
        s.duration is None ==> wire(s).duration_ms == 0,
{
}

/// A track that arrives is no add of ours: it carries no mark of a queue, and a length only where
/// one was sent.
pub proof fn law_arrived_tracks_are_unmarked(t: TrackView)
    ensures
        unwired(t).video_id == t.id,
        unwired(t).title == t.title,
        unwired(t).artists == t.artist,
        unwired(t).thumbnail == t.thumbnail,
        unwired(t).queued_by == t.queued_by,
        !unwired(t).queued,
        !unwired(t).queued_end,
        unwired(t).queued_from is None,
        !unwired(t).autoplay,
        unwired(t).artist_runs.len() == 0,
        unwired(t).duration is Some == (t.duration_ms > 0),
{
}

/// A repair fills in what was missing: a row without a length gets the one that was reported, to
/// the second, and a row whose artist line is blank or a subtitle gets the author, without links.
/// Nothing but the length, the artist line and its links ever changes.
pub proof fn law_repair_fills_what_is_missing(
    s: SongView,
    seconds: Option<Seq<char>>,
    author: Option<Seq<char>>,
)
    ensures
        ({
            let r = repaired(s, seconds, author);
            let blank = text::trimmed(s.artists).len() == 0 || s.artists.contains('•');
            &&& SongView {
                duration: s.duration,
                artists: s.artists,
                artist_runs: s.artist_runs,
                ..r
            } == s
            &&& s.duration is None && seconds is None ==> r.duration is None
            &&& s.duration is None ==> (seconds matches Some(t) ==> {
                &&& text::numeral(text::trimmed(t)) is None ==> r.duration is None
                &&& text::numeral(text::trimmed(t)) matches Some(n) ==> duration::fits(n * 1000)
                    ==> r.duration is Some && duration::length_ms(r.duration) == n * 1000
            })
            &&& blank ==> (author matches Some(a) ==> text::trimmed(a).len() > 0 ==> r.artists
                == text::trimmed(a) && r.artist_runs.len() == 0)
            &&& !blank || author is None || text::trimmed(author->0).len() == 0 ==> r.artists
                == s.artists && r.artist_runs == s.artist_runs
        }),
{
    if s.duration is None && seconds is Some {
        if let Some(n) = text::numeral(text::trimmed(seconds->0)) {
            if duration::fits(n * 1000) {
                duration::law_length_round_trip(n * 1000);
                assert(duration::remainder(n * 1000, 1000) == 0);
            }
        }
    }
}

/// A row that goes over the wire and comes back is the same track, and no longer an add.
pub proof fn law_sending_and_receiving_a_track(s: &SongItem, t: Track, back: SongItem)
    requires
        call_ensures(song_to_track, (s,), t),
        call_ensures(track_to_song, (&t,), back),
    ensures
        back.video_id@ == s.video_id@,
        back.title@ == s.title@,
        back.artists@ == s.artists@,
        back@.thumbnail == s@.thumbnail,
        back@.queued_by == s@.queued_by,
        !back.queued,
        !back.queued_end,
{
    assert(back@ == unwired(wire(s@)));
    assert(back@.video_id == back.video_id@ && back@.title == back.title@ && back@.artists
        == back.artists@);
}

/// A row that is repaired keeps what is there and gets what is missing.
pub proof fn law_repairing_a_row(
    item: &mut SongItem,
    length_seconds: Option<&str>,
    author: Option<&str>,
)
    requires
        call_ensures(backfill_metadata, (item, length_seconds, author), ()),
    ensures
        final(item)@.video_id == old(item)@.video_id,
        old(item)@.duration is Some ==> final(item)@.duration == old(item)@.duration,
        ({
            let blank = text::trimmed(old(item)@.artists).len() == 0
                || old(item)@.artists.contains('•');
            &&& !blank ==> final(item)@.artists == old(item)@.artists
            &&& blank && author is Some && text::trimmed(author->0@).len() > 0
                ==> final(item)@.artists == text::trimmed(author->0@)
        }),
{
    law_repair_fills_what_is_missing(
        old(item)@,
        text::opt_str(length_seconds),
        text::opt_str(author),
    );
}

} // verus!
