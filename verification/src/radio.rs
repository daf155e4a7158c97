//! Radios are playlist ids: which id continues which source.

use crate::commands;
use crate::commands::Listing;
use crate::order;
use crate::queue;
use crate::queue::QueueView;
use crate::song;
use crate::song::SongItem;
use crate::song::SongView;
use crate::state;
use crate::state::Action;
use crate::state::AppState;
use crate::state::AppView;
use crate::text;
use vstd::prelude::*;

verus! {

/// The id of the On Repeat list, which is built here from the local play counts. YouTube has never
/// heard of it.
pub const ON_REPEAT_ID: &'static str = "LIMUSIC_ON_REPEAT";

/// How far back On Repeat looks, in seconds.
pub const ON_REPEAT_WINDOW_SECS: i64 = 30 * 24 * 60 * 60;

/// How many songs On Repeat holds.
pub const ON_REPEAT_LIMIT: usize = 20;

/// Whether an id, without the prefix of a playlist page, names a generated mix.
pub open spec fn mix_id(id: Seq<char>) -> bool {
    text::has_prefix(text::without_prefix(id, "VL"@), "RD"@)
}

/// The radio that continues a source: a mix continues as itself, a playlist or album by the
/// radio that is keyed on it. Without a source there is none.
pub open spec fn seed_for(source_id: Option<Seq<char>>) -> Option<Seq<char>> {
    match source_id {
        Some(id) => Some(
            if mix_id(id) {
                text::without_prefix(id, "VL"@)
            } else {
                "RDAMPL"@ + text::without_prefix(id, "VL"@)
            },
        ),
        None => None,
    }
}

/// The autoplay radio seed for a queue source. Playlist and album pages pass their playlist id,
/// with or without the prefix of a playlist page.
pub fn radio_seed_for(source_id: Option<String>) -> (r: Option<String>)
    ensures
        text::opt_text(r) == seed_for(text::opt_text(source_id)),
{
    match source_id {
        Some(id) => {
            let bare = text::strip_prefix(id.as_str(), "VL");
            if text::starts_with(bare.as_str(), "RD") {
                Some(bare)
            } else {
                Some(text::joined("RDAMPL", bare.as_str()))
            }
        },
        None => None,
    }
}

/// Whether a source is a mix: a generated, effectively endless feed whose pages are not worth
/// walking, since autoplay already tops the queue up from its tail.
pub fn is_mix(source_id: Option<&str>) -> (r: bool)
    ensures
        r == (source_id is Some && mix_id(source_id->0@)),
{
    match source_id {
        Some(id) => {
            let bare = text::strip_prefix(id, "VL");
            text::starts_with(bare.as_str(), "RD")
        },
        None => false,
    }
}

// --- starting a radio ---------------------------------------------------------------------

/// The radio of one song.
pub open spec fn song_radio(video_id: Seq<char>) -> Seq<char> {
    "RDAMVM"@ + video_id
}

/// A radio to ask for: its playlist id, and the song that it is seeded on, if it is one song.
pub struct RadioSource {
    pub video_id: Option<String>,
    pub playlist_id: String,
}

/// What "start radio" begins with.
pub enum RadioAsk {
    /// A guest is told that the host controls playback.
    Hint,
    /// There is no such radio, and why.
    Refused(String),
    /// This radio is to be fetched.
    Fetch(RadioSource),
    /// The album's page has to be fetched, for [`album_radio`].
    Album,
    /// The artist's page has to be fetched, for [`artist_radio`].
    Artist,
}

/// Whether `r` is what "start radio" begins with. `own` says that the id stands for something on
/// disk, which like On Repeat has no radio at YouTube. `client` says whether there is a client to
/// ask with.
pub open spec fn is_radio_ask(
    r: RadioAsk,
    guest: bool,
    kind: Seq<char>,
    id: Seq<char>,
    own: bool,
    client: bool,
) -> bool {
    if guest {
        r is Hint
    } else if own || id == ON_REPEAT_ID@ {
        r matches RadioAsk::Refused(why) && why@ == "This has no radio behind it."@
    } else if !client {
        r matches RadioAsk::Refused(why) && why@ == "no metadata client"@
    } else if kind == "song"@ {
        r matches RadioAsk::Fetch(s) && s.video_id is Some && s.video_id->0@ == id
            && s.playlist_id@ == song_radio(id)
    } else if kind == "playlist"@ {
        r matches RadioAsk::Fetch(s) && s.video_id is None && Some(s.playlist_id@) == seed_for(
            Some(id),
        )
    } else if kind == "album"@ {
        r is Album
    } else if kind == "artist"@ {
        r is Artist
    } else {
        r matches RadioAsk::Refused(why) && why@ == "unknown radio kind: "@ + kind
    }
}

impl AppState {
    /// Begins a radio on a song, an artist, an album or a playlist.
    pub fn start_radio(
        &self,
        guest: bool,
        kind: &str,
        id: &str,
        own: bool,
        client: bool,
    ) -> (r: RadioAsk)
        ensures
            is_radio_ask(r, guest, kind@, id@, own, client),
    {
        if guest {
            return RadioAsk::Hint;
        }
        if own || text::same(id, ON_REPEAT_ID) {
            return RadioAsk::Refused("This has no radio behind it.".to_owned());
        }
        if !client {
            return RadioAsk::Refused("no metadata client".to_owned());
        }
        if text::same(kind, "song") {
            RadioAsk::Fetch(
                RadioSource { video_id: Some(id.to_owned()), playlist_id: text::joined("RDAMVM", id) },
            )
        } else if text::same(kind, "playlist") {
            RadioAsk::Fetch(RadioSource { video_id: None, playlist_id: playlist_seed(id.to_owned()) })
        } else if text::same(kind, "album") {
            RadioAsk::Album
        } else if text::same(kind, "artist") {
            RadioAsk::Artist
        } else {
            RadioAsk::Refused(text::joined("unknown radio kind: ", kind))
        }
    }
}

/// The radio of a playlist or album.
fn playlist_seed(id: String) -> (r: String)
    ensures
        Some(r@) == seed_for(Some(id@)),
{
    match radio_seed_for(Some(id)) {
        Some(seed) => seed,
        None => String::new(),
    }
}

/// The radio of an album: that of the audio playlist that its page names.
pub fn album_radio(playlist_id: Option<String>) -> (r: Result<RadioSource, String>)
    ensures
        match (r, playlist_id) {
            (Ok(s), Some(id)) => s.video_id is None && Some(s.playlist_id@) == seed_for(
                Some(id@),
            ),
            (Err(why), None) => why@ == "This album has no radio."@,
            _ => false,
        },
{
    match playlist_id {
        Some(id) => Ok(RadioSource { video_id: None, playlist_id: playlist_seed(id) }),
        None => Err("This album has no radio.".to_owned()),
    }
}

/// The radio of an artist: the one that the page names, else that of the artist's top song.
pub fn artist_radio(radio_playlist_id: Option<String>, top_song: Option<String>) -> (r: Result<
    RadioSource,
    String,
>)
    ensures
        match (radio_playlist_id, top_song) {
            (Some(id), _) => r matches Ok(s) && s.video_id is None && s.playlist_id@ == id@,
            (None, Some(top)) => r matches Ok(s) && s.video_id is Some && s.video_id->0@ == top@
                && s.playlist_id@ == song_radio(top@),
            (None, None) => r matches Err(why) && why@ == "This artist has no radio."@,
        },
{
    match radio_playlist_id {
        Some(id) => Ok(RadioSource { video_id: None, playlist_id: id }),
        None => match top_song {
            Some(top) => {
                let playlist_id = text::joined("RDAMVM", top.as_str());
                Ok(RadioSource { video_id: Some(top), playlist_id })
            },
            None => Err("This artist has no radio.".to_owned()),
        },
    }
}

/// What the first page of a radio comes to.
pub enum FirstPage {
    /// The radio's tracks, and the id that they came from.
    Found(Vec<SongItem>, String),
    /// The page is dead. The song itself is to be asked what mix it belongs to.
    Escalate,
    /// There is no such radio.
    Dead(String),
}

/// What the first page of a radio comes to. A page with nothing but the seed on it is a dead one.
pub fn first_page(items: Vec<SongItem>, source: &RadioSource) -> (r: FirstPage)
    ensures
        if items@.len() > 1 {
            r matches FirstPage::Found(found, seed) && found == items && seed@
                == source.playlist_id@
        } else if source.video_id is Some {
            r is Escalate
        } else {
            r matches FirstPage::Dead(why) && why@ == "YouTube has no radio for this."@
        },
{
    if items.len() > 1 {
        FirstPage::Found(items, source.playlist_id.clone())
    } else if source.video_id.is_some() {
        FirstPage::Escalate
    } else {
        FirstPage::Dead("YouTube has no radio for this.".to_owned())
    }
}

/// What an escalated radio comes to: the mix that the song belongs to, else what the song alone
/// brought, else nothing. `mix` is that mix's id and page, where the song named one.
pub fn escalated(video_id: &str, bare: Vec<SongItem>, mix: Option<(String, Vec<SongItem>)>) -> (r:
    Result<(Vec<SongItem>, String), String>)
    ensures
        if mix is Some && (mix->0).1@.len() > 1 {
            r matches Ok(found) && found.0 == (mix->0).1 && found.1@ == (mix->0).0@
        } else if bare@.len() > 1 {
            r matches Ok(found) && found.0 == bare && found.1@ == song_radio(video_id@)
        } else {
            r matches Err(why) && why@ == "YouTube has no radio for this."@
        },
{
    match mix {
        Some((id, items)) => {
            if items.len() > 1 {
                return Ok((items, id));
            }
        },
        None => {},
    }
    if bare.len() > 1 {
        Ok((bare, text::joined("RDAMVM", video_id)))
    } else {
        Err("YouTube has no radio for this.".to_owned())
    }
}

/// The name of a radio's queue.
pub open spec fn radio_title(name: Option<Seq<char>>) -> Option<Seq<char>> {
    match name {
        Some(n) => Some(n + " Radio"@),
        None => None,
    }
}

/// The name of a radio's queue.
pub fn title_for(name: Option<String>) -> (r: Option<String>)
    ensures
        text::opt_text(r) == radio_title(text::opt_text(name)),
{
    match name {
        Some(n) => Some(text::joined(n.as_str(), " Radio")),
        None => None,
    }
}

/// Whether a radio goes behind the track that is playing, which then plays on: it is a radio on
/// that very song, and the player has it loaded.
pub open spec fn goes_behind(q: QueueView, video_id: Option<Seq<char>>, idle: bool) -> bool {
    video_id is Some && queue::id_at(q.items, q.current) == video_id && !idle
}

/// The index that a radio opens at: the song that it is on, where the page holds it.
pub open spec fn opening(items: Seq<SongView>, video_id: Option<Seq<char>>) -> int {
    match video_id {
        Some(v) => match order::ids(items).index_of_first(v) {
            Some(i) => i,
            None => 0,
        },
        None => 0,
    }
}

/// The list that a radio is played as.
pub open spec fn radio_listing(
    items: Vec<SongItem>,
    seed: String,
    title: Option<String>,
    start: usize,
) -> Listing {
    Listing {
        items,
        start: Some(start),
        source_id: Some(seed),
        source_name: title,
        shuffle: false,
        continuation: None,
    }
}

/// Whether `after` is `before` with a radio put behind the playing track. Whatever was primed
/// belongs to the queue before.
pub open spec fn is_spliced(
    before: QueueView,
    after: QueueView,
    page: Seq<SongView>,
    seed: Seq<char>,
    title: Option<Seq<char>>,
) -> bool {
    exists|mid: QueueView| #[trigger]
        queue::is_radio_spliced(before, mid, page, seed, title) && after == QueueView {
            lookahead_loaded: None,
            ..mid
        }
}

impl AppState {
    /// Plays a radio whose first page has arrived. Where it is on the song that is playing, it
    /// goes behind that song; otherwise it is played as a list, and then marked as a radio.
    pub fn open_radio(
        &mut self,
        guest: bool,
        idle: bool,
        items: Vec<SongItem>,
        seed: String,
        title: Option<String>,
        video_id: Option<String>,
    ) -> (r: Vec<Action>)
        requires
            !guest ==> old(self).generation < u64::MAX,
        ensures
            goes_behind(old(self)@.queue, text::opt_text(video_id), idle) ==> {
                &&& final(self)@ == AppView { queue: final(self)@.queue, ..old(self)@ }
                &&& is_spliced(
                    old(self)@.queue,
                    final(self)@.queue,
                    song::songs(items@),
                    seed@,
                    text::opt_text(title),
                )
                &&& r@ == state::edit_actions(
                    old(self)@.queue.lookahead_loaded is Some,
                    true,
                    old(self)@.generation,
                )
            },
            !goes_behind(old(self)@.queue, text::opt_text(video_id), idle) ==> {
                &&& r@.len() > 0
                &&& r@.last() == Action::MarkRadio
                &&& commands::is_list_played(
                    old(self)@,
                    final(self)@,
                    r@.drop_last(),
                    None,
                    radio_listing(
                        items,
                        seed,
                        title,
                        opening(song::songs(items@), text::opt_text(video_id)) as usize,
                    ),
                    guest,
                )
            },
            idle && !guest && items@.len() > 0 ==> final(self)@.generation
                == old(self)@.generation + 1 && r@.contains(
                Action::Start((old(self)@.generation + 1) as u64),
            ),
            !guest && items@.len() > 0 && final(self)@.generation == old(self)@.generation ==> !idle,
            !idle && video_id is Some && old(self)@.queue.valid() && old(self)@.queue.items.len()
                > 0 && old(self)@.queue.items[old(self)@.queue.current].video_id == video_id->0@
                ==> {
                &&& final(self)@.generation == old(self)@.generation
                &&& final(self)@.queue.playing() == old(self)@.queue.playing()
                &&& final(self)@.queue.radio
                &&& final(self)@.queue.radio_seed == Some(seed@)
                &&& forall|g: u64| !r@.contains(Action::Start(g))
            },
            !guest && old(self)@.queue.valid() && items@.len() > 0 ==> final(self)@.queue.valid()
                && final(self)@.queue.source_name == text::opt_text(title),
            !guest && old(self)@.queue.valid() && video_id is Some && (exists|k: int|
                0 <= k < items@.len() && #[trigger] items@[k].video_id@ == video_id->0@)
                ==> final(self)@.queue.playing() is Some
                && final(self)@.queue.playing()->0.video_id == video_id->0@,
            !guest && video_id is None && items@.len() > 0 ==> final(self)@.queue.playing()
                == Some(items@[0]@),
            idle && !guest && items@.len() > 0 ==> final(self)@.queue.radio_seed == seed_for(
                Some(seed@),
            ),
    {
        let ghost before = self@;
        let ghost page = song::songs(items@);
        let here = self.queue.id_at(self.queue.current);
        if video_id.is_some() && text::same_opt(&here, &video_id) && !idle {
            queue::splice_radio_into(&mut self.queue, items, seed, title);
            let ghost mid = self.queue@;
            let had: bool = self.queue.drop_lookahead();
            assert(queue::is_radio_spliced(
                before.queue,
                mid,
                page,
                seed@,
                text::opt_text(title),
            ));
            assert(self@ =~= (AppView { queue: self@.queue, ..before }));
            proof {
                state::law_an_edit_tells_everyone(had, true, self.generation);
            }
            return state::after_edit(had, true, self.generation);
        }
        let start: usize = match &video_id {
            Some(v) => match order::position(&items, v.as_str()) {
                Some(i) => i,
                None => 0,
            },
            None => 0,
        };
        let ghost list = radio_listing(items, seed, title, start);
        let (mut actions, _) = self.play_tracks(
            guest,
            Listing {
                items,
                start: Some(start),
                source_id: Some(seed),
                source_name: title,
                shuffle: false,
                continuation: None,
            },
        );
        let ghost listed = actions@;
        actions.push(Action::MarkRadio);
        assert(actions@.drop_last() =~= listed);
        proof {
            if !guest && page.len() > 0 {
                assert(actions@[0] == Action::Start((before.generation + 1) as u64));
                if video_id is Some {
                    order::ids(page).index_of_first_ensures(video_id->0@);
                    if exists|k: int|
                        0 <= k < page.len() && #[trigger] items@[k].video_id@ == video_id->0@ {
                        let k = choose|k: int|
                            0 <= k < page.len() && #[trigger] items@[k].video_id@ == video_id->0@;
                        assert(order::ids(page)[k] == video_id->0@);
                        assert(order::ids(page)[start as int] == video_id->0@);
                    }
                }
            }
        }
        actions
    }

    /// Marks the queue as a radio.
    pub fn mark_radio(&mut self)
        ensures
            final(self)@ == (AppView {
                queue: QueueView { radio: true, ..old(self)@.queue },
                ..old(self)@
            }),
    {
        self.queue.radio = true;
    }
}

/// A source is a mix exactly where its id starts with `RD`, behind the prefix of a playlist page
/// where it has one.
pub proof fn law_mixes_are_told_by_their_id(id: Seq<char>)
    ensures
        ({
            let bare = if id.len() >= 2 && id[0] == 'V' && id[1] == 'L' {
                id.skip(2)
            } else {
                id
            };
            mix_id(id) == (bare.len() >= 2 && bare[0] == 'R' && bare[1] == 'D')
        }),
{
    reveal_strlit("VL");
    reveal_strlit("RD");
    if id.len() >= 2 {
        assert((id.take(2) == "VL"@) == (id[0] == 'V' && id[1] == 'L')) by {
            if id[0] == 'V' && id[1] == 'L' {
                assert(id.take(2) =~= "VL"@);
            }
            if id.take(2) == "VL"@ {
                assert(id.take(2)[0] == id[0] && id.take(2)[1] == id[1]);
            }
        }
    }
    let bare = text::without_prefix(id, "VL"@);
    if bare.len() >= 2 {
        assert((bare.take(2) == "RD"@) == (bare[0] == 'R' && bare[1] == 'D')) by {
            if bare[0] == 'R' && bare[1] == 'D' {
                assert(bare.take(2) =~= "RD"@);
            }
            if bare.take(2) == "RD"@ {
                assert(bare.take(2)[0] == bare[0] && bare.take(2)[1] == bare[1]);
            }
        }
    }
}

/// The radio that continues a source is always a mix, a mix continues as itself, and the radio of a
/// radio is that radio. A source without an id has none. Different playlists have different radios.
pub proof fn law_seeds_are_radios(id: Seq<char>, other: Seq<char>)
    ensures
        seed_for(None) is None,
        seed_for(Some(id)) is Some,
        seed_for(Some(id))->0.len() >= 2,
        seed_for(Some(id))->0[0] == 'R',
        seed_for(Some(id))->0[1] == 'D',
        mix_id(seed_for(Some(id))->0),
        seed_for(seed_for(Some(id))) == seed_for(Some(id)),
        id.len() >= 2 && id[0] == 'R' && id[1] == 'D' ==> seed_for(Some(id)) == Some(id),
        !mix_id(id) && !(id.len() >= 2 && id[0] == 'V' && id[1] == 'L') ==> seed_for(Some(id))
            == Some("RDAMPL"@ + id),
        !mix_id(id) && !mix_id(other) && seed_for(Some(id)) == seed_for(Some(other))
            ==> text::without_prefix(id, "VL"@) == text::without_prefix(other, "VL"@),
{
    reveal_strlit("VL");
    reveal_strlit("RD");
    reveal_strlit("RDAMPL");
    let seed = seed_for(Some(id))->0;
    law_mixes_are_told_by_their_id(id);
    law_mixes_are_told_by_their_id(seed);
    let bare = text::without_prefix(id, "VL"@);
    if mix_id(id) {
        assert(bare.take(2)[0] == bare[0] && bare.take(2)[1] == bare[1]);
    }
    assert(seed[0] == 'R' && seed[1] == 'D');
    assert(!text::has_prefix(seed, "VL"@)) by {
        if seed.take(2) == "VL"@ {
            assert(seed.take(2)[0] == 'V');
        }
    }
    if id.len() >= 2 && id[0] == 'R' && id[1] == 'D' {
        assert(!text::has_prefix(id, "VL"@)) by {
            if id.take(2) == "VL"@ {
                assert(id.take(2)[0] == 'V');
            }
        }
    }
    if !mix_id(id) && !(id.len() >= 2 && id[0] == 'V' && id[1] == 'L') {
        if text::has_prefix(id, "VL"@) {
            assert(id.take(2)[0] == id[0] && id.take(2)[1] == id[1]);
        }
        assert(bare == id);
    }
    if !mix_id(id) && !mix_id(other) && seed_for(Some(id)) == seed_for(Some(other)) {
        let b = text::without_prefix(other, "VL"@);
        assert(("RDAMPL"@ + bare).skip(6) =~= bare);
        assert(("RDAMPL"@ + b).skip(6) =~= b);
    }
}

/// Only a guest is turned away with a hint, and what is on disk has no radio whatever it is asked
/// as. A song's radio is its own and opens on it; a playlist's is the one that continues the
/// playlist when it ends.
pub proof fn law_radio_asks(
    r: RadioAsk,
    guest: bool,
    kind: Seq<char>,
    id: Seq<char>,
    own: bool,
    client: bool,
)
    requires
        is_radio_ask(r, guest, kind, id, own, client),
    ensures
        r is Hint == guest,
        !guest && own ==> r is Refused,
        !guest && !client ==> r is Refused,
        r matches RadioAsk::Fetch(s) ==> {
            &&& !own && client
            &&& kind == "song"@ || kind == "playlist"@
            &&& s.video_id matches Some(v) ==> v@ == id && s.playlist_id@ == "RDAMVM"@ + id && kind
                == "song"@
            &&& s.video_id is None ==> Some(s.playlist_id@) == seed_for(Some(id)) && kind
                == "playlist"@
        },
        !guest && !own && client && id != ON_REPEAT_ID@ ==> {
            &&& kind == "song"@ || kind == "playlist"@ ==> r is Fetch
            &&& kind == "album"@ ==> r is Album
            &&& kind == "artist"@ ==> r is Artist
        },
{
    reveal_strlit("song");
    reveal_strlit("playlist");
    reveal_strlit("album");
    reveal_strlit("artist");
    assert("song"@.len() == 4 && "playlist"@.len() == 8 && "album"@.len() == 5 && "artist"@.len()
        == 6);
}

/// A radio is named after what it is a radio of, and has no name where that has none.
pub proof fn law_radios_are_named_after_their_source(name: Option<Seq<char>>)
    ensures
        name is None ==> radio_title(name) is None,
        name matches Some(n) ==> radio_title(name) == Some(n + " Radio"@),
{
}

// --- the same, of the calls themselves ----------------------------------------------------

/// A radio is never opened silently: a player that is idle loads it under a new generation, and
/// only the radio of the song that is already playing goes behind that song. It opens on the song
/// it was asked for wherever its page holds it.
pub proof fn law_opening_a_radio_plays(
    s: &mut AppState,
    idle: bool,
    items: Vec<SongItem>,
    seed: String,
    title: Option<String>,
    video_id: Option<String>,
    r: Vec<Action>,
)
    requires
        old(s)@.queue.valid(),
        old(s)@.generation < u64::MAX,
        items@.len() > 0,
        call_ensures(AppState::open_radio, (s, false, idle, items, seed, title, video_id), r),
    ensures
        ({
            let q = old(s)@.queue;
            let here = video_id is Some && q.items.len() > 0 && q.items[q.current].video_id
                == video_id->0@ && !idle;
            &&& idle ==> !here
            &&& here ==> final(s)@.generation == old(s)@.generation && final(s)@.queue.playing()
                == q.playing()
            &&& !here ==> final(s)@.generation == old(s)@.generation + 1 && r@ == seq![
                Action::Start((old(s)@.generation + 1) as u64),
                Action::MarkRadio,
            ]
            &&& final(s)@.queue.source_name == text::opt_text(title)
            &&& video_id is None ==> final(s)@.queue.playing() == Some(items@[0]@)
            &&& video_id is Some && (exists|k: int|
                0 <= k < items@.len() && #[trigger] items@[k].video_id@ == video_id->0@)
                ==> final(s)@.queue.playing() is Some
                && final(s)@.queue.playing()->0.video_id == video_id->0@
        }),
{
    let q = old(s)@.queue;
    let here = video_id is Some && q.items.len() > 0 && q.items[q.current].video_id
        == video_id->0@ && !idle;
    assert(here == goes_behind(q, text::opt_text(video_id), idle));
    if !here {
        let g = (old(s)@.generation + 1) as u64;
        let front = r@.drop_last();
        assert(front == seq![Action::Start(g)]);
        assert(r@ =~= front.push(r@.last()));
        assert(r@ =~= seq![Action::Start(g), Action::MarkRadio]);
    }
}

/// The first page of a radio is used where it holds more than its seed. A song whose own page is
/// dead is asked for its mix, whose page is used before what the song alone brought; and only where
/// none of them holds more than its seed is there no radio.
pub proof fn law_dead_pages_escalate(
    items: Vec<SongItem>,
    source: &RadioSource,
    first: FirstPage,
    video_id: &str,
    bare: Vec<SongItem>,
    mix: Option<(String, Vec<SongItem>)>,
    r: Result<(Vec<SongItem>, String), String>,
)
    requires
        call_ensures(first_page, (items, source), first),
        call_ensures(escalated, (video_id, bare, mix), r),
    ensures
        items@.len() >= 2 ==> (first matches FirstPage::Found(found, seed) && found == items
            && seed@ == source.playlist_id@),
        items@.len() < 2 && source.video_id is Some ==> first is Escalate,
        items@.len() < 2 && source.video_id is None ==> first is Dead,
        mix matches Some(m) ==> m.1@.len() >= 2 ==> (r matches Ok(found) && found.0 == m.1
            && found.1@ == m.0@),
        (mix is None || (mix->0).1@.len() < 2) && bare@.len() >= 2 ==> (r matches Ok(found)
            && found.0 == bare && found.1@ == "RDAMVM"@ + video_id@),
        (mix is None || (mix->0).1@.len() < 2) && bare@.len() < 2 ==> r is Err,
{
}

/// An album's radio is that of its audio playlist. An artist's is the one on the page, or else that
/// of the top song, which it then opens on.
pub proof fn law_pages_name_their_radio(
    playlist_id: Option<String>,
    album: Result<RadioSource, String>,
    radio_playlist_id: Option<String>,
    top_song: Option<String>,
    artist: Result<RadioSource, String>,
)
    requires
        call_ensures(album_radio, (playlist_id,), album),
        call_ensures(artist_radio, (radio_playlist_id, top_song), artist),
    ensures
        album is Ok == playlist_id is Some,
        album matches Ok(s) ==> s.video_id is None && Some(s.playlist_id@) == seed_for(
            Some(playlist_id->0@),
        ),
        artist is Ok == (radio_playlist_id is Some || top_song is Some),
        artist matches Ok(s) ==> {
            &&& radio_playlist_id matches Some(id) ==> s.playlist_id@ == id@ && s.video_id is None
            &&& radio_playlist_id is None ==> s.playlist_id@ == "RDAMVM"@ + top_song->0@
                && s.video_id is Some && s.video_id->0@ == top_song->0@
        },
{
}

} // verus!
