//! The stored settings, and what the ones that steer playback mean.

use crate::order::IdSet;
use crate::text;
use vstd::prelude::*;

verus! {

/// The settings as they are stored: texts under names. A name that comes twice means its last
/// text.
pub struct Db {
    entries: Vec<(String, String)>,
}

/// The settings that a list of entries makes up.
pub open spec fn settings_of(entries: Seq<(String, String)>) -> Map<Seq<char>, Seq<char>>
    decreases entries.len(),
{
    if entries.len() == 0 {
        Map::empty()
    } else {
        settings_of(entries.drop_last()).insert(entries.last().0@, entries.last().1@)
    }
}

impl View for Db {
    type V = Map<Seq<char>, Seq<char>>;

    closed spec fn view(&self) -> Map<Seq<char>, Seq<char>> {
        settings_of(self.entries@)
    }
}

/// The text under a name, if there is one.
pub open spec fn setting(db: Map<Seq<char>, Seq<char>>, key: Seq<char>) -> Option<Seq<char>> {
    if db.contains_key(key) {
        Some(db[key])
    } else {
        None
    }
}

impl Db {
    /// No settings.
    pub fn new() -> (r: Self)
        ensures
            r@ == Map::<Seq<char>, Seq<char>>::empty(),
    {
        Db { entries: Vec::new() }
    }

    /// Stores a text under a name.
    pub fn set_setting(&mut self, key: &str, value: &str)
        ensures
            final(self)@ == old(self)@.insert(key@, value@),
    {
        let ghost was = self.entries@;
        let entry = (key.to_owned(), value.to_owned());
        self.entries.push(entry);
        assert(self.entries@.drop_last() =~= was);
    }

    /// The text under a name, if there is one.
    pub fn get_setting(&self, key: &str) -> (r: Option<String>)
        ensures
            text::opt_text(r) == setting(self@, key@),
    {
        let mut i: usize = self.entries.len();
        assert(self.entries@.take(i as int) =~= self.entries@);
        while i > 0
            invariant
                i <= self.entries@.len(),
                setting(settings_of(self.entries@.take(i as int)), key@) == setting(self@, key@),
            decreases i,
        {
            let ghost rest = self.entries@.take(i as int);
            i = i - 1;
            assert(rest.drop_last() =~= self.entries@.take(i as int));
            if text::same(self.entries[i].0.as_str(), key) {
                return Some(self.entries[i].1.clone());
            }
        }
        None
    }

    /// Whether a name holds exactly this text.
    fn is_set(&self, key: &str, value: &str) -> (r: bool)
        ensures
            r == (setting(self@, key@) == Some(value@)),
    {
        text::is_text(&self.get_setting(key), value)
    }
}

/// What was stored last under a name is what is read back, and other names are left alone.
pub proof fn law_settings_read_back(
    db: Map<Seq<char>, Seq<char>>,
    key: Seq<char>,
    value: Seq<char>,
    other: Seq<char>,
)
    ensures
        setting(db.insert(key, value), key) == Some(value),
        other != key ==> setting(db.insert(key, value), other) == setting(db, other),
{
}

// --- playback settings --------------------------------------------------------------------

/// The volume that a stored text means: a whole number from 0 to 100, and 100 for anything else.
pub open spec fn volume_of(stored: Option<Seq<char>>) -> int {
    match stored {
        Some(s) => match text::numeral(s) {
            Some(v) => if 0 <= v <= 100 {
                v
            } else {
                100
            },
            None => 100,
        },
        None => 100,
    }
}

/// The level to come up at: what the user left the slider on last run.
pub fn saved_volume(db: &Db) -> (r: i64)
    ensures
        r == volume_of(setting(db@, "volume"@)),
        0 <= r <= 100,
{
    match db.get_setting("volume") {
        Some(s) => match text::parse_i64(&text::chars_of(s.as_str())) {
            Some(v) => if 0 <= v && v <= 100 {
                v
            } else {
                100
            },
            None => 100,
        },
        None => 100,
    }
}

/// The audio quality to ask for.
#[derive(Clone, Copy, Debug, PartialEq, Eq)]
pub enum AudioQuality {
    Low,
    Auto,
    High,
}

/// The quality that the settings ask for; high where they say nothing else.
pub fn quality(db: &Db) -> (r: AudioQuality)
    ensures
        r == if setting(db@, "quality"@) == Some("LOW"@) {
            AudioQuality::Low
        } else if setting(db@, "quality"@) == Some("AUTO"@) {
            AudioQuality::Auto
        } else {
            AudioQuality::High
        },
{
    if db.is_set("quality", "LOW") {
        AudioQuality::Low
    } else if db.is_set("quality", "AUTO") {
        AudioQuality::Auto
    } else {
        AudioQuality::High
    }
}

/// The names in a list of pieces: each without the white space around it, the empty ones left
/// out.
pub open spec fn names_in(pieces: Seq<Seq<char>>) -> Set<Seq<char>>
    decreases pieces.len(),
{
    if pieces.len() == 0 {
        Set::empty()
    } else {
        let name = text::trimmed(pieces.last());
        if name.len() == 0 {
            names_in(pieces.drop_last())
        } else {
            names_in(pieces.drop_last()).insert(name)
        }
    }
}

/// The text that lists the disabled clients: the environment's, where it has one, else the
/// setting.
pub open spec fn disabled_list(
    environment: Option<Seq<char>>,
    stored: Option<Seq<char>>,
) -> Seq<char> {
    match environment {
        Some(s) => s,
        None => match stored {
            Some(s) => s,
            None => Seq::empty(),
        },
    }
}

/// The stream clients that are disabled: a list with commas, from the environment or the settings.
pub fn disabled_clients(environment: Option<String>, db: &Db) -> (r: IdSet)
    ensures
        r@ == names_in(
            text::pieces(
                disabled_list(
                    text::opt_text(environment),
                    setting(db@, "disabled_stream_clients"@),
                ),
                ',',
            ),
        ),
{
    let raw = match environment {
        Some(s) => s,
        None => match db.get_setting("disabled_stream_clients") {
            Some(s) => s,
            None => String::new(),
        },
    };
    let parts = text::split(raw.as_str(), ',');
    let ghost all = text::views(parts@);
    let mut out = IdSet::new();
    assert(all.take(0) =~= Seq::<Seq<char>>::empty());
    for i in 0..parts.len()
        invariant
            all == text::views(parts@),
            out@ == names_in(all.take(i as int)),
    {
        assert(all.take(i + 1).drop_last() =~= all.take(i as int));
        assert(all.take(i + 1).last() == parts@[i as int]@);
        let name = text::trim_chars(&parts[i]);
        if name.len() > 0 {
            let _ = out.insert(text::string_of(&name));
        }
    }
    assert(all.take(all.len() as int) =~= all);
    out
}

/// Whether plays are registered with YouTube. Only an explicit `"false"` turns it off.
pub fn history_enabled(db: &Db) -> (r: bool)
    ensures
        r == (setting(db@, "enable_history"@) != Some("false"@)),
{
    !db.is_set("enable_history", "false")
}

/// Whether autoplay is on. Only an explicit `"false"` turns it off.
pub fn autoplay_enabled(db: &Db) -> (r: bool)
    ensures
        r == (setting(db@, "autoplay"@) != Some("false"@)),
{
    !db.is_set("autoplay", "false")
}

/// Whether a manual add moves the copies that are in the queue. Only `"true"` turns it on.
pub fn prevents_duplicates(db: &Db) -> (r: bool)
    ensures
        r == (setting(db@, "prevent_duplicates"@) == Some("true"@)),
{
    db.is_set("prevent_duplicates", "true")
}

/// Whether a login waits for the user to pick a channel.
pub fn auth_selection_pending(db: &Db) -> (r: bool)
    ensures
        r == (setting(db@, "account_selection_pending"@) == Some("true"@)),
{
    db.is_set("account_selection_pending", "true")
}

/// A volume that was stored is the volume that comes back, and whatever else is stored comes back
/// as a hundred.
pub proof fn law_volume_reads_back(v: int, stored: Option<Seq<char>>)
    ensures
        0 <= v <= 100 ==> volume_of(Some(text::integer_text(v))) == v,
        0 <= volume_of(stored) <= 100,
        stored is None ==> volume_of(stored) == 100,
        stored matches Some(s) ==> (text::numeral(s) is None || text::numeral(s)->0 < 0
            || text::numeral(s)->0 > 100) ==> volume_of(stored) == 100,
{
    if 0 <= v <= 100 {
        text::lemma_integer_text(v);
    }
}

/// The names in a list are its pieces without the white space around them, all but the empty ones.
pub proof fn law_names_are_the_trimmed_pieces(pieces: Seq<Seq<char>>, name: Seq<char>)
    ensures
        names_in(pieces).contains(name) == (name.len() > 0 && exists|i: int|
            0 <= i < pieces.len() && text::trimmed(#[trigger] pieces[i]) == name),
    decreases pieces.len(),
{
    if pieces.len() > 0 {
        let front = pieces.drop_last();
        law_names_are_the_trimmed_pieces(front, name);
        if exists|i: int| 0 <= i < front.len() && text::trimmed(#[trigger] front[i]) == name {
            let i = choose|i: int|
                0 <= i < front.len() && text::trimmed(#[trigger] front[i]) == name;
            assert(text::trimmed(pieces[i]) == name);
        }
        if exists|i: int| 0 <= i < pieces.len() && text::trimmed(#[trigger] pieces[i]) == name {
            let i = choose|i: int|
                0 <= i < pieces.len() && text::trimmed(#[trigger] pieces[i]) == name;
            if i < front.len() {
                assert(text::trimmed(front[i]) == name);
            }
        }
        assert(text::trimmed(pieces[pieces.len() - 1]) == text::trimmed(pieces.last()));
    }
}

/// The environment's list of clients stands before the stored one.
pub proof fn law_environment_overrides_the_setting(
    environment: Option<Seq<char>>,
    stored: Option<Seq<char>>,
)
    ensures
        environment is Some ==> disabled_list(environment, stored) == environment->0,
        environment is None && stored is Some ==> disabled_list(environment, stored) == stored->0,
        environment is None && stored is None ==> disabled_list(environment, stored).len() == 0,
{
}

/// A setting that is stored is read back by what it means: the flags by their own word and nothing
/// else, the quality by its two names and high otherwise.
pub proof fn law_flags_are_read_by_their_word(
    db: &Db,
    history: bool,
    autoplay: bool,
    duplicates: bool,
    pending: bool,
    level: AudioQuality,
)
    requires
        call_ensures(history_enabled, (db,), history),
        call_ensures(autoplay_enabled, (db,), autoplay),
        call_ensures(prevents_duplicates, (db,), duplicates),
        call_ensures(auth_selection_pending, (db,), pending),
        call_ensures(quality, (db,), level),
    ensures
        history == (setting(db@, "enable_history"@) != Some("false"@)),
        autoplay == (setting(db@, "autoplay"@) != Some("false"@)),
        duplicates == (setting(db@, "prevent_duplicates"@) == Some("true"@)),
        pending == (setting(db@, "account_selection_pending"@) == Some("true"@)),
        level == AudioQuality::Low ==> setting(db@, "quality"@) == Some("LOW"@),
        level == AudioQuality::Auto ==> setting(db@, "quality"@) == Some("AUTO"@),
        setting(db@, "quality"@) == Some("LOW"@) ==> level == AudioQuality::Low,
        setting(db@, "quality"@) == Some("AUTO"@) ==> level == AudioQuality::Auto,
        setting(db@, "quality"@) is None ==> level == AudioQuality::High,
{
    reveal_strlit("LOW");
    reveal_strlit("AUTO");
    assert("LOW"@.len() != "AUTO"@.len());
}

/// A volume that is written under its name is the level that the player comes up at.
pub proof fn law_volume_survives_a_restart(db: &mut Db, text: &str, v: int, level: i64)
    requires
        0 <= v <= 100,
        text@ == text::integer_text(v),
        call_ensures(Db::set_setting, (db, "volume", text), ()),
        call_ensures(saved_volume, (final(db),), level),
    ensures
        level == v,
{
    law_volume_reads_back(v, None);
}

} // verus!
