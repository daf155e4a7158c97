//! The YouTube identity that requests act as: what is stored of it, and what is shown of it.

use crate::json;
use crate::settings;
use crate::settings::Db;
use crate::state::AppState;
use crate::text;
use std::collections::hash_map::DefaultHasher;
use std::hash::Hasher;
use vstd::prelude::*;
use vstd::std_specs::hash::DefaultHasherAdditionalSpecFns;

verus! {

// --- hashing ------------------------------------------------------------------------------

/// The writes to a hasher that std's `Hash` makes of a text.
pub uninterp spec fn text_writes(text: Seq<char>) -> Seq<Seq<u8>>;

/// `std::hash::Hash::hash` of a text: it feeds the hasher some writes, which depend on the text
/// alone, behind those that it was fed before. Which writes they are is not stated.
#[verifier::external_body]
fn feed_text(hasher: &mut DefaultHasher, text: &str)
    ensures
        final(hasher)@ == old(hasher)@ + text_writes(text@),
{
    std::hash::Hash::hash(text, hasher)
}

// --- identities ---------------------------------------------------------------------------

/// What YouTube says of the account that a session is signed in with.
pub struct AccountInfo {
    pub name: Option<String>,
    pub handle: Option<String>,
    pub email: Option<String>,
    pub thumbnail: Option<String>,
    pub channel_id: Option<String>,
    pub data_sync_id: Option<String>,
    pub visitor_data: Option<String>,
}

/// An identity that a session can act as.
pub struct AccountIdentity {
    pub name: String,
    pub handle: Option<String>,
    pub email: Option<String>,
    pub thumbnail: Option<String>,
    pub channel_id: Option<String>,
    pub data_sync_id: String,
    pub is_selected: bool,
}

/// The stored choice of an identity. `data_sync_id` is what requests act as; everything beside it
/// belongs to that same identity.
pub struct SelectedIdentity {
    pub data_sync_id: Option<String>,
    pub name: Option<String>,
    pub handle: Option<String>,
    pub email: Option<String>,
    pub thumbnail: Option<String>,
    pub channel_id: Option<String>,
    pub has_multiple_identities: bool,
}

/// What an [`AccountInfo`] holds.
pub struct InfoView {
    pub name: Option<Seq<char>>,
    pub handle: Option<Seq<char>>,
    pub email: Option<Seq<char>>,
    pub thumbnail: Option<Seq<char>>,
    pub channel_id: Option<Seq<char>>,
    pub data_sync_id: Option<Seq<char>>,
    pub visitor_data: Option<Seq<char>>,
}

/// What an [`AccountIdentity`] holds.
pub struct IdentityView {
    pub name: Seq<char>,
    pub handle: Option<Seq<char>>,
    pub email: Option<Seq<char>>,
    pub thumbnail: Option<Seq<char>>,
    pub channel_id: Option<Seq<char>>,
    pub data_sync_id: Seq<char>,
    pub is_selected: bool,
}

/// What a [`SelectedIdentity`] holds.
pub struct SelectedView {
    pub data_sync_id: Option<Seq<char>>,
    pub name: Option<Seq<char>>,
    pub handle: Option<Seq<char>>,
    pub email: Option<Seq<char>>,
    pub thumbnail: Option<Seq<char>>,
    pub channel_id: Option<Seq<char>>,
    pub has_multiple_identities: bool,
}

impl View for AccountInfo {
    type V = InfoView;

    open spec fn view(&self) -> InfoView {
        InfoView {
            name: text::opt_text(self.name),
            handle: text::opt_text(self.handle),
            email: text::opt_text(self.email),
            thumbnail: text::opt_text(self.thumbnail),
            channel_id: text::opt_text(self.channel_id),
            data_sync_id: text::opt_text(self.data_sync_id),
            visitor_data: text::opt_text(self.visitor_data),
        }
    }
}

impl View for AccountIdentity {
    type V = IdentityView;

    open spec fn view(&self) -> IdentityView {
        IdentityView {
            name: self.name@,
            handle: text::opt_text(self.handle),
            email: text::opt_text(self.email),
            thumbnail: text::opt_text(self.thumbnail),
            channel_id: text::opt_text(self.channel_id),
            data_sync_id: self.data_sync_id@,
            is_selected: self.is_selected,
        }
    }
}

impl View for SelectedIdentity {
    type V = SelectedView;

    open spec fn view(&self) -> SelectedView {
        SelectedView {
            data_sync_id: text::opt_text(self.data_sync_id),
            name: text::opt_text(self.name),
            handle: text::opt_text(self.handle),
            email: text::opt_text(self.email),
            thumbnail: text::opt_text(self.thumbnail),
            channel_id: text::opt_text(self.channel_id),
            has_multiple_identities: self.has_multiple_identities,
        }
    }
}

/// The views of a list of identities.
pub open spec fn identities(v: Seq<AccountIdentity>) -> Seq<IdentityView> {
    Seq::new(v.len(), |i: int| v[i]@)
}

/// The view of an optional stored choice.
pub open spec fn opt_selected(s: Option<SelectedIdentity>) -> Option<SelectedView> {
    match s {
        Some(x) => Some(x@),
        None => None,
    }
}

/// The first of two optional texts that is there.
pub open spec fn either(a: Option<Seq<char>>, b: Option<Seq<char>>) -> Option<Seq<char>> {
    if a is Some {
        a
    } else {
        b
    }
}

/// The first of two optional texts that is there.
fn first_of(a: Option<String>, b: &Option<String>) -> (r: Option<String>)
    ensures
        text::opt_text(r) == either(text::opt_text(a), text::opt_text(*b)),
{
    match a {
        Some(s) => Some(s),
        None => text::copy_opt(b),
    }
}

/// The choice that an account's own header makes.
pub open spec fn chosen_from_info(info: InfoView, multiple: bool) -> SelectedView {
    SelectedView {
        data_sync_id: info.data_sync_id,
        name: info.name,
        handle: info.handle,
        email: info.email,
        thumbnail: info.thumbnail,
        channel_id: info.channel_id,
        has_multiple_identities: multiple,
    }
}

/// The choice of an identity: acting as it, with its fresh header where that says something.
pub open spec fn chosen_from_identity(
    identity: IdentityView,
    fresh: InfoView,
    multiple: bool,
) -> SelectedView {
    SelectedView {
        data_sync_id: Some(identity.data_sync_id),
        name: either(fresh.name, Some(identity.name)),
        handle: either(fresh.handle, identity.handle),
        email: either(fresh.email, identity.email),
        thumbnail: either(fresh.thumbnail, identity.thumbnail),
        channel_id: either(fresh.channel_id, identity.channel_id),
        has_multiple_identities: multiple,
    }
}

impl SelectedIdentity {
    /// The choice that an account's own header makes: none where it has no name.
    pub fn from_account_info(info: AccountInfo, multiple: bool) -> (r: Option<Self>)
        ensures
            opt_selected(r) == if info.name is Some {
                Some(chosen_from_info(info@, multiple))
            } else {
                None
            },
    {
        if info.name.is_none() {
            return None;
        }
        Some(
            SelectedIdentity {
                data_sync_id: info.data_sync_id,
                name: info.name,
                handle: info.handle,
                email: info.email,
                thumbnail: info.thumbnail,
                channel_id: info.channel_id,
                has_multiple_identities: multiple,
            },
        )
    }

    /// The choice of an identity, with what its fresh header says.
    pub fn from_identity(identity: &AccountIdentity, refreshed: AccountInfo, multiple: bool) -> (r:
        Self)
        ensures
            r@ == chosen_from_identity(identity@, refreshed@, multiple),
    {
        SelectedIdentity {
            data_sync_id: Some(identity.data_sync_id.clone()),
            name: match refreshed.name {
                Some(n) => Some(n),
                None => Some(identity.name.clone()),
            },
            handle: first_of(refreshed.handle, &identity.handle),
            email: first_of(refreshed.email, &identity.email),
            thumbnail: first_of(refreshed.thumbnail, &identity.thumbnail),
            channel_id: first_of(refreshed.channel_id, &identity.channel_id),
            has_multiple_identities: multiple,
        }
    }

    /// The stored choice as an identity: none where it does not say what to act as.
    pub fn as_account_identity(&self) -> (r: Option<AccountIdentity>)
        ensures
            r is Some == (self.data_sync_id is Some),
            r matches Some(i) ==> i@ == as_identity(self@),
    {
        match &self.data_sync_id {
            Some(id) => Some(
                AccountIdentity {
                    name: match &self.name {
                        Some(n) => n.clone(),
                        None => String::new(),
                    },
                    handle: text::copy_opt(&self.handle),
                    email: text::copy_opt(&self.email),
                    thumbnail: text::copy_opt(&self.thumbnail),
                    channel_id: text::copy_opt(&self.channel_id),
                    data_sync_id: id.clone(),
                    is_selected: false,
                },
            ),
            None => None,
        }
    }
}

/// A stored choice as an identity.
pub open spec fn as_identity(s: SelectedView) -> IdentityView {
    IdentityView {
        name: match s.name {
            Some(n) => n,
            None => Seq::empty(),
        },
        handle: s.handle,
        email: s.email,
        thumbnail: s.thumbnail,
        channel_id: s.channel_id,
        data_sync_id: s.data_sync_id->0,
        is_selected: false,
    }
}

// --- what is stored -----------------------------------------------------------------------

/// A text that is there and is not empty.
pub open spec fn filled_text(s: Option<Seq<char>>) -> Option<Seq<char>> {
    match s {
        Some(t) => if t.len() == 0 {
            None
        } else {
            Some(t)
        },
        None => None,
    }
}

/// A text that is there and is not empty.
fn filled(s: Option<String>) -> (r: Option<String>)
    ensures
        text::opt_text(r) == filled_text(text::opt_text(s)),
{
    match s {
        Some(t) => if text::chars_of(t.as_str()).len() == 0 {
            None
        } else {
            Some(t)
        },
        None => None,
    }
}

/// What an older account record says of the account, field by field.
pub struct LegacyAccount {
    pub name: Option<String>,
    pub handle: Option<String>,
    pub email: Option<String>,
    pub thumbnail: Option<String>,
    pub channel_id: Option<String>,
    pub can_switch: Option<bool>,
}

/// The choice that an older account record stands for. Empty fields count as absent. One from
/// before the switcher says nothing of other channels, and then there may be some.
pub open spec fn legacy_choice(
    account: LegacyAccount,
    data_sync_id: Option<Seq<char>>,
) -> SelectedView {
    SelectedView {
        data_sync_id: filled_text(data_sync_id),
        name: filled_text(text::opt_text(account.name)),
        handle: filled_text(text::opt_text(account.handle)),
        email: filled_text(text::opt_text(account.email)),
        thumbnail: filled_text(text::opt_text(account.thumbnail)),
        channel_id: filled_text(text::opt_text(account.channel_id)),
        has_multiple_identities: match account.can_switch {
            Some(flag) => flag,
            None => true,
        },
    }
}

/// The choice that an older account record stands for.
pub fn from_legacy(account: LegacyAccount, data_sync_id: Option<String>) -> (r: SelectedIdentity)
    ensures
        r@ == legacy_choice(account, text::opt_text(data_sync_id)),
{
    SelectedIdentity {
        data_sync_id: filled(data_sync_id),
        name: filled(account.name),
        handle: filled(account.handle),
        email: filled(account.email),
        thumbnail: filled(account.thumbnail),
        channel_id: filled(account.channel_id),
        has_multiple_identities: match account.can_switch {
            Some(flag) => flag,
            None => true,
        },
    }
}

/// Whether a stored choice says anything.
pub open spec fn says_something(s: SelectedView) -> bool {
    s.name is Some || s.data_sync_id is Some
}

/// The choice that the older account record of the settings stands for, where they hold one.
pub open spec fn legacy_stored(db: Map<Seq<char>, Seq<char>>) -> Option<SelectedView> {
    match settings::setting(db, "account_json"@) {
        Some(record) => if json::is_json(record) {
            Some(
                SelectedView {
                    data_sync_id: filled_text(settings::setting(db, "data_sync_id"@)),
                    name: filled_text(json::json_text(record, "name"@)),
                    handle: filled_text(json::json_text(record, "handle"@)),
                    email: filled_text(json::json_text(record, "email"@)),
                    thumbnail: filled_text(json::json_text(record, "thumbnail"@)),
                    channel_id: filled_text(json::json_text(record, "channelId"@)),
                    has_multiple_identities: match json::json_flag(record, "canSwitch"@) {
                        Some(flag) => flag,
                        None => true,
                    },
                },
            )
        } else {
            None
        },
        None => None,
    }
}

/// The stored choice: the canonical record, where it says anything, else the older one.
pub open spec fn stored_choice(
    db: Map<Seq<char>, Seq<char>>,
    canonical: Option<SelectedView>,
) -> Option<SelectedView> {
    match canonical {
        Some(s) => if says_something(s) {
            Some(s)
        } else {
            legacy_stored(db)
        },
        None => legacy_stored(db),
    }
}

/// The stored choice. `canonical` is what the setting `selected_identity_json` reads as, where it
/// is there and can be read.
pub fn selected_identity_from_db(db: &Db, canonical: Option<SelectedIdentity>) -> (r: Option<
    SelectedIdentity,
>)
    ensures
        opt_selected(r) == stored_choice(db@, opt_selected(canonical)),
{
    match canonical {
        Some(s) => {
            if s.name.is_some() || s.data_sync_id.is_some() {
                return Some(s);
            }
        },
        None => {},
    }
    match db.get_setting("account_json") {
        Some(record) => {
            if !json::reads_as_json(record.as_str()) {
                return None;
            }
            let account = LegacyAccount {
                name: json::json_text_at(record.as_str(), "name"),
                handle: json::json_text_at(record.as_str(), "handle"),
                email: json::json_text_at(record.as_str(), "email"),
                thumbnail: json::json_text_at(record.as_str(), "thumbnail"),
                channel_id: json::json_text_at(record.as_str(), "channelId"),
                can_switch: json::json_flag_at(record.as_str(), "canSwitch"),
            };
            Some(from_legacy(account, db.get_setting("data_sync_id")))
        },
        None => None,
    }
}

/// What requests act as: what the stored choice says, else the older setting.
pub open spec fn acting_as(
    choice: Option<SelectedView>,
    stored: Option<Seq<char>>,
) -> Option<Seq<char>> {
    either(
        match choice {
            Some(s) => s.data_sync_id,
            None => None,
        },
        filled_text(stored),
    )
}

/// What requests act as, given the stored choice.
pub fn data_sync_id_of(choice: &Option<SelectedIdentity>, db: &Db) -> (r: Option<String>)
    ensures
        text::opt_text(r) == acting_as(
            opt_selected(*choice),
            settings::setting(db@, "data_sync_id"@),
        ),
{
    match choice {
        Some(s) => {
            if s.data_sync_id.is_some() {
                return text::copy_opt(&s.data_sync_id);
            }
        },
        None => {},
    }
    filled(db.get_setting("data_sync_id"))
}

/// What requests act as when the application starts.
pub fn persisted_data_sync_id(db: &Db, canonical: Option<SelectedIdentity>) -> (r: Option<String>)
    ensures
        text::opt_text(r) == acting_as(
            stored_choice(db@, opt_selected(canonical)),
            settings::setting(db@, "data_sync_id"@),
        ),
{
    let choice = selected_identity_from_db(db, canonical);
    data_sync_id_of(&choice, db)
}

// --- what is shown ------------------------------------------------------------------------

/// The account as the windows are shown it.
pub enum Account {
    /// The login waits for the user to pick a channel.
    SelectionRequired,
    /// The chosen identity.
    Chosen(AccountDetails),
    /// Nothing is known but whether anyone is signed in.
    Bare(bool),
}

/// The chosen identity as the windows are shown it.
pub struct AccountDetails {
    pub signed_in: bool,
    pub name: Option<String>,
    pub handle: Option<String>,
    pub email: Option<String>,
    pub thumbnail: Option<String>,
    pub channel_id: Option<String>,
    pub can_switch: bool,
}

/// Whether `d` shows the choice `s`.
pub open spec fn shows_choice(d: AccountDetails, s: SelectedView, signed_in: bool) -> bool {
    &&& d.signed_in == signed_in
    &&& text::opt_text(d.name) == s.name
    &&& text::opt_text(d.handle) == s.handle
    &&& text::opt_text(d.email) == s.email
    &&& text::opt_text(d.thumbnail) == s.thumbnail
    &&& text::opt_text(d.channel_id) == s.channel_id
    &&& d.can_switch == s.has_multiple_identities
}

impl SelectedIdentity {
    /// The choice as the windows are shown it. What requests act as never leaves.
    pub fn account_details(&self, signed_in: bool) -> (r: AccountDetails)
        ensures
            shows_choice(r, self@, signed_in),
    {
        AccountDetails {
            signed_in,
            name: text::copy_opt(&self.name),
            handle: text::copy_opt(&self.handle),
            email: text::copy_opt(&self.email),
            thumbnail: text::copy_opt(&self.thumbnail),
            channel_id: text::copy_opt(&self.channel_id),
            can_switch: self.has_multiple_identities,
        }
    }
}

/// Whether `r` is the account to show.
pub open spec fn is_account(
    r: Account,
    db: Map<Seq<char>, Seq<char>>,
    canonical: Option<SelectedView>,
    logged_in: bool,
) -> bool {
    if settings::setting(db, "account_selection_pending"@) == Some("true"@) && logged_in {
        r is SelectionRequired
    } else {
        match stored_choice(db, canonical) {
            Some(s) => r matches Account::Chosen(d) && shows_choice(d, s, logged_in),
            None => r matches Account::Bare(signed_in) && signed_in == logged_in,
        }
    }
}

impl AppState {
    /// The account as the windows are shown it. `canonical` is what the setting
    /// `selected_identity_json` reads as.
    pub fn account_snapshot(
        &self,
        db: &Db,
        canonical: Option<SelectedIdentity>,
        logged_in: bool,
    ) -> (r: Account)
        ensures
            is_account(r, db@, opt_selected(canonical), logged_in),
    {
        if settings::auth_selection_pending(db) && logged_in {
            return Account::SelectionRequired;
        }
        match selected_identity_from_db(db, canonical) {
            Some(s) => Account::Chosen(s.account_details(logged_in)),
            None => Account::Bare(logged_in),
        }
    }
}

/// The selector that stands for an identity in the windows: the hash of what requests act as, in
/// sixteen hexadecimal digits.
pub open spec fn selection_key(data_sync_id: Seq<char>) -> Seq<char> {
    "identity-"@ + text::hex_text(
        DefaultHasher::spec_finish(
            text_writes("limusic-account-identity-v1"@) + text_writes(data_sync_id),
        ) as int,
        16,
    )
}

/// The selector that stands for an identity in the windows.
pub fn identity_selection_key(data_sync_id: &str) -> (r: String)
    ensures
        r@ == selection_key(data_sync_id@),
{
    let mut hasher = DefaultHasher::new();
    feed_text(&mut hasher, "limusic-account-identity-v1");
    feed_text(&mut hasher, data_sync_id);
    assert(hasher@ =~= text_writes("limusic-account-identity-v1"@) + text_writes(data_sync_id@));
    let mut key = "identity-".to_owned();
    text::push_hex(&mut key, hasher.finish(), 16);
    key
}

/// An identity as a row of the account picker.
pub struct IdentitySnapshot {
    pub selection_key: String,
    pub name: String,
    pub handle: Option<String>,
    pub email: Option<String>,
    pub thumbnail: Option<String>,
    pub channel_id: Option<String>,
    pub selected: bool,
}

/// Whether `row` shows the identity `i`.
pub open spec fn shows_identity(row: IdentitySnapshot, i: IdentityView, selected: bool) -> bool {
    &&& row.selection_key@ == selection_key(i.data_sync_id)
    &&& row.name@ == i.name
    &&& text::opt_text(row.handle) == i.handle
    &&& text::opt_text(row.email) == i.email
    &&& text::opt_text(row.thumbnail) == i.thumbnail
    &&& text::opt_text(row.channel_id) == i.channel_id
    &&& row.selected == selected
}

/// Whether an identity shows as the selected one: while a pick is pending none does; else the one
/// that requests act as, and YouTube's own mark only where they act as none.
pub open spec fn shows_selected(
    i: IdentityView,
    acting: Option<Seq<char>>,
    pending: bool,
) -> bool {
    !pending && match acting {
        Some(id) => id == i.data_sync_id,
        None => i.is_selected,
    }
}

/// An identity as a row of the account picker.
pub fn identity_snapshot(identity: &AccountIdentity, selected: bool) -> (r: IdentitySnapshot)
    ensures
        shows_identity(r, identity@, selected),
{
    IdentitySnapshot {
        selection_key: identity_selection_key(identity.data_sync_id.as_str()),
        name: identity.name.clone(),
        handle: text::copy_opt(&identity.handle),
        email: text::copy_opt(&identity.email),
        thumbnail: text::copy_opt(&identity.thumbnail),
        channel_id: text::copy_opt(&identity.channel_id),
        selected,
    }
}

/// The rows of the account picker.
pub fn identity_rows(
    list: &Vec<AccountIdentity>,
    acting: &Option<String>,
    pending: bool,
) -> (r: Vec<IdentitySnapshot>)
    ensures
        r@.len() == list@.len(),
        forall|k: int|
            0 <= k < r@.len() ==> shows_identity(
                #[trigger] r@[k],
                list@[k]@,
                shows_selected(list@[k]@, text::opt_text(*acting), pending),
            ),
{
    let mut rows: Vec<IdentitySnapshot> = Vec::new();
    for i in 0..list.len()
        invariant
            rows@.len() == i,
            forall|k: int|
                0 <= k < i ==> shows_identity(
                    #[trigger] rows@[k],
                    list@[k]@,
                    shows_selected(list@[k]@, text::opt_text(*acting), pending),
                ),
    {
        let identity = &list[i];
        let selected: bool = !pending && match acting {
            Some(id) => text::same(id.as_str(), identity.data_sync_id.as_str()),
            None => identity.is_selected,
        };
        rows.push(identity_snapshot(identity, selected));
    }
    rows
}

/// A stored choice that says what to act as survives being read back as an identity and chosen
/// again without fresh news.
pub proof fn law_choice_survives_reactivation(s: SelectedView, fresh: InfoView)
    requires
        s.data_sync_id is Some,
        fresh.name is Some,
        fresh.handle is None,
        fresh.email is None,
        fresh.thumbnail is None,
        fresh.channel_id is None,
    ensures
        chosen_from_identity(as_identity(s), fresh, s.has_multiple_identities) == (SelectedView {
            name: fresh.name,
            ..s
        }),
{
}

/// Choosing an identity means acting as it, whatever its header says; what is shown of it is the
/// fresh header's where that says something, and what was known of it elsewhere.
pub proof fn law_choice_acts_as_the_identity(
    identity: IdentityView,
    fresh: InfoView,
    multiple: bool,
)
    ensures
        ({
            let c = chosen_from_identity(identity, fresh, multiple);
            &&& c.data_sync_id == Some(identity.data_sync_id)
            &&& c.has_multiple_identities == multiple
            &&& fresh.name is Some ==> c.name == fresh.name
            &&& fresh.name is None ==> c.name == Some(identity.name)
            &&& fresh.handle is Some ==> c.handle == fresh.handle
            &&& fresh.handle is None ==> c.handle == identity.handle
            &&& fresh.email is Some ==> c.email == fresh.email
            &&& fresh.email is None ==> c.email == identity.email
            &&& fresh.thumbnail is Some ==> c.thumbnail == fresh.thumbnail
            &&& fresh.thumbnail is None ==> c.thumbnail == identity.thumbnail
            &&& fresh.channel_id is Some ==> c.channel_id == fresh.channel_id
            &&& fresh.channel_id is None ==> c.channel_id == identity.channel_id
        }),
{
}

/// The account's own choice is the account, field by field.
pub proof fn law_own_choice_is_the_account(info: InfoView, multiple: bool)
    ensures
        ({
            let c = chosen_from_info(info, multiple);
            &&& c.data_sync_id == info.data_sync_id
            &&& c.name == info.name
            &&& c.handle == info.handle
            &&& c.email == info.email
            &&& c.thumbnail == info.thumbnail
            &&& c.channel_id == info.channel_id
            &&& c.has_multiple_identities == multiple
        }),
{
}

/// A stored choice that names a channel or says what to act as is the choice. Only without one does
/// the older record count, and only where it can be read; what it holds empty counts as absent.
pub proof fn law_canonical_choice_wins(
    db: Map<Seq<char>, Seq<char>>,
    canonical: Option<SelectedView>,
)
    ensures
        canonical matches Some(s) ==> s.name is Some || s.data_sync_id is Some ==> stored_choice(
            db,
            canonical,
        ) == canonical,
        canonical is None || (canonical->0.name is None && canonical->0.data_sync_id is None) ==> {
            let record = settings::setting(db, "account_json"@);
            let c = stored_choice(db, canonical);
            &&& c is Some == (record is Some && json::is_json(record->0))
            &&& c matches Some(s) ==> {
                &&& s.data_sync_id is Some ==> s.data_sync_id->0.len() > 0 && settings::setting(
                    db,
                    "data_sync_id"@,
                ) == s.data_sync_id
                &&& s.name is Some ==> s.name->0.len() > 0 && json::json_text(record->0, "name"@)
                    == s.name
                &&& s.handle is Some ==> json::json_text(record->0, "handle"@) == s.handle
                &&& s.email is Some ==> json::json_text(record->0, "email"@) == s.email
                &&& s.thumbnail is Some ==> json::json_text(record->0, "thumbnail"@) == s.thumbnail
                &&& s.channel_id is Some ==> json::json_text(record->0, "channelId"@)
                    == s.channel_id
                &&& s.has_multiple_identities == (json::json_flag(record->0, "canSwitch"@) != Some(
                    false,
                ))
            }
        },
{
}

/// Requests act as what the choice says; without that, as what the older setting says, where it
/// says anything; else as none. They never act as an empty id of the older setting.
pub proof fn law_requests_act_as_the_choice(
    choice: Option<SelectedView>,
    stored: Option<Seq<char>>,
)
    ensures
        choice is Some && choice->0.data_sync_id is Some ==> acting_as(choice, stored)
            == choice->0.data_sync_id,
        choice is None || choice->0.data_sync_id is None ==> {
            &&& stored is Some && stored->0.len() > 0 ==> acting_as(choice, stored) == stored
            &&& stored is None || stored->0.len() == 0 ==> acting_as(choice, stored) is None
        },
{
}

/// A login that waits for a pick shows as that, and as nothing else, for as long as someone is
/// logged in. Otherwise the stored choice is shown, with whether anyone is signed in.
pub proof fn law_account_shows_the_choice(
    r: Account,
    db: Map<Seq<char>, Seq<char>>,
    canonical: Option<SelectedView>,
    logged_in: bool,
)
    requires
        is_account(r, db, canonical, logged_in),
    ensures
        r is SelectionRequired == (logged_in && settings::setting(
            db,
            "account_selection_pending"@,
        ) == Some("true"@)),
        r matches Account::Chosen(d) ==> d.signed_in == logged_in && (stored_choice(
            db,
            canonical,
        ) matches Some(s) && text::opt_text(d.name) == s.name && text::opt_text(d.handle)
            == s.handle && text::opt_text(d.email) == s.email && text::opt_text(d.thumbnail)
            == s.thumbnail && text::opt_text(d.channel_id) == s.channel_id && d.can_switch
            == s.has_multiple_identities),
        r matches Account::Bare(signed_in) ==> signed_in == logged_in && stored_choice(
            db,
            canonical,
        ) is None,
{
}

/// Of the rows of a picker, the selected ones all act as one id: the one that requests act as. While
/// a pick is pending there is none, and YouTube's own mark counts only where requests act as none.
pub proof fn law_one_identity_shows_as_selected(
    i: IdentityView,
    j: IdentityView,
    acting: Option<Seq<char>>,
    pending: bool,
)
    ensures
        pending ==> !shows_selected(i, acting, pending),
        !pending && acting is Some ==> shows_selected(i, acting, pending) == (Some(i.data_sync_id)
            == acting),
        !pending && acting is None ==> shows_selected(i, acting, pending) == i.is_selected,
        acting is Some && shows_selected(i, acting, pending) && shows_selected(j, acting, pending)
            ==> i.data_sync_id == j.data_sync_id,
{
}

/// A selector is made of sixteen digits behind its prefix, and of nothing that requests act as.
pub proof fn law_selectors_are_sixteen_digits(id: Seq<char>)
    ensures
        selection_key(id).len() == "identity-"@.len() + 16,
        selection_key(id).take("identity-"@.len() as int) == "identity-"@,
        forall|k: int|
            "identity-"@.len() <= k < selection_key(id).len() ==> '0' <= #[trigger] selection_key(
                id,
            )[k] <= '9' || 'a' <= selection_key(id)[k] <= 'f',
{
    let h = DefaultHasher::spec_finish(
        text_writes("limusic-account-identity-v1"@) + text_writes(id),
    ) as int;
    reveal_with_fuel(text::hex_span, 17);
    assert(0 <= h < text::hex_span(16));
    text::law_hex_tells_numbers_apart(h, h, 16);
    let key = selection_key(id);
    let p = "identity-"@.len() as int;
    assert(key.take(p) =~= "identity-"@);
    assert forall|k: int| p <= k < key.len() implies '0' <= #[trigger] key[k] <= '9' || 'a' <= key[k]
        <= 'f' by {
        assert(key[k] == text::hex_text(h, 16)[k - p]);
    }
}

/// A row of the picker shows its identity under the selector of that identity.
pub proof fn law_rows_show_their_identity(row: IdentitySnapshot, i: IdentityView, selected: bool)
    requires
        shows_identity(row, i, selected),
    ensures
        row.selection_key@ == selection_key(i.data_sync_id),
        row.name@ == i.name,
        text::opt_text(row.handle) == i.handle,
        text::opt_text(row.email) == i.email,
        text::opt_text(row.thumbnail) == i.thumbnail,
        text::opt_text(row.channel_id) == i.channel_id,
        row.selected == selected,
{
}

} // verus!
