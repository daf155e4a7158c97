//! Signing in and switching channels: which identity a login ends up acting as, and what is put
//! back where it fails.

use crate::identity;
use crate::identity::AccountIdentity;
use crate::identity::AccountInfo;
use crate::identity::IdentitySnapshot;
use crate::identity::IdentityView;
use crate::identity::InfoView;
use crate::identity::SelectedIdentity;
use crate::identity::SelectedView;
use crate::settings;
use crate::settings::Db;
use crate::state::AppState;
use crate::text;
use vstd::prelude::*;

verus! {

/// How a sign-in ended.
#[derive(Clone, Copy, Debug, PartialEq, Eq)]
pub enum SignInOutcome {
    Complete,
    SelectionRequired,
}

/// What the transport signs requests with: the session cookie, and the identity to act as.
pub struct Auth {
    pub cookie: Option<String>,
    pub data_sync_id: Option<String>,
}

/// What an [`Auth`] holds.
pub struct AuthView {
    pub cookie: Option<Seq<char>>,
    pub data_sync_id: Option<Seq<char>>,
}

impl View for Auth {
    type V = AuthView;

    open spec fn view(&self) -> AuthView {
        AuthView {
            cookie: text::opt_text(self.cookie),
            data_sync_id: text::opt_text(self.data_sync_id),
        }
    }
}

impl Clone for Auth {
    fn clone(&self) -> (r: Self)
        ensures
            r@ == self@,
    {
        Auth {
            cookie: text::copy_opt(&self.cookie),
            data_sync_id: text::copy_opt(&self.data_sync_id),
        }
    }
}

/// A sign-in that has begun: the cookie it tries, what was in force before it, and the stored
/// choice of an identity.
pub struct SignIn {
    pub cookie: String,
    pub previous: Auth,
    pub persisted: Option<SelectedIdentity>,
    pub persisted_id: Option<String>,
}

/// What a [`SignIn`] holds.
pub struct SignInView {
    pub cookie: Seq<char>,
    pub previous: AuthView,
    pub persisted: Option<SelectedView>,
    pub persisted_id: Option<Seq<char>>,
}

impl View for SignIn {
    type V = SignInView;

    open spec fn view(&self) -> SignInView {
        SignInView {
            cookie: self.cookie@,
            previous: self.previous@,
            persisted: identity::opt_selected(self.persisted),
            persisted_id: text::opt_text(self.persisted_id),
        }
    }
}

/// A sign-in that was refused: what the transport goes back to, and why.
pub struct Refusal {
    pub transport: Auth,
    pub error: String,
}

/// How a sign-in goes on once the identities are known.
pub enum SignInPlan {
    /// Save this choice, with the visitor data that came along.
    Save(SelectedIdentity, Option<String>),
    /// Act as this identity, once YouTube confirms it. The flag says whether there are others.
    Activate(AccountIdentity, bool),
    /// Let the user pick, with the visitor data that came along.
    AskUser(Option<String>),
}

/// The ids that a list of identities acts as.
pub open spec fn sync_ids(list: Seq<IdentityView>) -> Seq<Seq<char>> {
    Seq::new(list.len(), |i: int| list[i].data_sync_id)
}

/// The index of the identity that the stored choice names, if the list holds it.
pub open spec fn known(list: Seq<IdentityView>, id: Option<Seq<char>>) -> Option<int> {
    match id {
        Some(x) => sync_ids(list).index_of_first(x),
        None => None,
    }
}

/// The identity that a stored choice stands for where no list confirms it: what was stored of it,
/// or nothing but its id.
pub open spec fn remembered(s: SignInView) -> IdentityView {
    if s.persisted is Some && (s.persisted->0).data_sync_id is Some {
        identity::as_identity(s.persisted->0)
    } else {
        IdentityView {
            name: Seq::empty(),
            handle: None,
            email: None,
            thumbnail: None,
            channel_id: None,
            data_sync_id: s.persisted_id->0,
            is_selected: false,
        }
    }
}

/// Whether `r` is how a sign-in goes on. A stored choice that the list confirms wins. Where there
/// is no list at all, the stored choice is tried directly. Otherwise one channel or none goes
/// ahead as the account itself, and several are put to the user.
pub open spec fn is_plan(
    r: SignInPlan,
    s: SignInView,
    active: InfoView,
    list: Seq<IdentityView>,
) -> bool {
    match known(list, s.persisted_id) {
        Some(i) => if list.len() == 1 {
            r matches SignInPlan::Save(choice, visitor) && choice@
                == identity::chosen_from_identity(list[i], active, false) && text::opt_text(
                visitor,
            ) == active.visitor_data
        } else {
            r matches SignInPlan::Activate(identity, multiple) && identity@ == list[i]
                && multiple
        },
        None => if list.len() == 0 && s.persisted_id is Some {
            r matches SignInPlan::Activate(identity, multiple) && identity@ == remembered(s)
                && multiple == (s.persisted is Some
                && (s.persisted->0).has_multiple_identities)
        } else if list.len() > 1 {
            r matches SignInPlan::AskUser(visitor) && text::opt_text(visitor)
                == active.visitor_data
        } else {
            r matches SignInPlan::Save(choice, visitor) && choice@ == identity::chosen_from_info(
                active,
                false,
            ) && text::opt_text(visitor) == active.visitor_data
        },
    }
}

impl AccountIdentity {
    /// A copy of the identity.
    fn copied(&self) -> (r: Self)
        ensures
            r@ == self@,
    {
        AccountIdentity {
            name: self.name.clone(),
            handle: text::copy_opt(&self.handle),
            email: text::copy_opt(&self.email),
            thumbnail: text::copy_opt(&self.thumbnail),
            channel_id: text::copy_opt(&self.channel_id),
            data_sync_id: self.data_sync_id.clone(),
            is_selected: self.is_selected,
        }
    }
}

/// The index of the first identity that acts as this id.
fn find_sync_id(list: &Vec<AccountIdentity>, id: &str) -> (r: Option<usize>)
    ensures
        crate::order::opt_index(r) == sync_ids(identity::identities(list@)).index_of_first(id@),
{
    let ghost all = sync_ids(identity::identities(list@));
    for i in 0..list.len()
        invariant
            all == sync_ids(identity::identities(list@)),
            forall|j: int| 0 <= j < i ==> all[j] != id@,
    {
        assert(all[i as int] == list@[i as int].data_sync_id@);
        if text::same(list[i].data_sync_id.as_str(), id) {
            proof {
                all.index_of_first_ensures(id@);
                assert(all.contains(id@));
            }
            return Some(i);
        }
    }
    proof {
        all.index_of_first_ensures(id@);
    }
    None
}

impl SignIn {
    /// What the transport uses while the identities are found out: the new cookie, acting as none.
    pub fn discovery(&self) -> (r: Auth)
        ensures
            r@ == (AuthView { cookie: Some(self@.cookie), data_sync_id: None }),
    {
        Auth { cookie: Some(self.cookie.clone()), data_sync_id: None }
    }

    /// The account menu answered, or failed. A session without a name did not authenticate.
    pub fn menu(&self, answer: Result<AccountInfo, String>) -> (r: Result<AccountInfo, Refusal>)
        ensures
            match answer {
                Ok(info) => if info.name is Some {
                    r matches Ok(active) && active == info
                } else {
                    r matches Err(no) && no.transport@ == self@.previous && no.error@
                        == "That session didn't authenticate — sign in again."@
                },
                Err(e) => r matches Err(no) && no.transport@ == self@.previous && no.error@
                    == "Sign-in failed: "@ + e@,
            },
    {
        match answer {
            Ok(info) => {
                if info.name.is_some() {
                    Ok(info)
                } else {
                    Err(
                        Refusal {
                            transport: self.previous.clone(),
                            error: "That session didn't authenticate — sign in again.".to_owned(),
                        },
                    )
                }
            },
            Err(e) => Err(
                Refusal {
                    transport: self.previous.clone(),
                    error: text::joined("Sign-in failed: ", e.as_str()),
                },
            ),
        }
    }

    /// How to go on. `active` is the account that the menu named, `list` the identities that the
    /// session can act as; it is empty where they could not be found out.
    pub fn plan(&self, active: AccountInfo, list: &Vec<AccountIdentity>) -> (r: SignInPlan)
        requires
            active.name is Some,
        ensures
            is_plan(r, self@, active@, identity::identities(list@)),
    {
        let n: usize = list.len();
        let visitor = text::copy_opt(&active.visitor_data);
        let ghost all = identity::identities(list@);
        proof {
            if self@.persisted_id is Some {
                sync_ids(all).index_of_first_ensures(self@.persisted_id->0);
            }
        }
        match &self.persisted_id {
            Some(id) => {
                match find_sync_id(list, id.as_str()) {
                    Some(i) => {
                        assert(all[i as int] == list@[i as int]@);
                        if n == 1 {
                            return SignInPlan::Save(
                                SelectedIdentity::from_identity(&list[i], active, false),
                                visitor,
                            );
                        }
                        return SignInPlan::Activate(list[i].copied(), true);
                    },
                    None => {},
                }
                if n == 0 {
                    let (stored, multiple) = match &self.persisted {
                        Some(saved) => (saved.as_account_identity(), saved.has_multiple_identities),
                        None => (None, false),
                    };
                    let identity = match stored {
                        Some(identity) => identity,
                        None => AccountIdentity {
                            name: String::new(),
                            handle: None,
                            email: None,
                            thumbnail: None,
                            channel_id: None,
                            data_sync_id: id.clone(),
                            is_selected: false,
                        },
                    };
                    return SignInPlan::Activate(identity, multiple);
                }
            },
            None => {},
        }
        if n > 1 {
            return SignInPlan::AskUser(visitor);
        }
        SignInPlan::Save(SelectedIdentity::from_account_info(active, false).unwrap(), visitor)
    }

    /// What a failure behind the menu puts back: the transport, and the stored session cookie,
    /// which is deleted where there was none.
    pub fn rollback(&self) -> (r: (Auth, Option<String>))
        ensures
            r.0@ == self@.previous,
            text::opt_text(r.1) == self@.previous.cookie,
    {
        (self.previous.clone(), text::copy_opt(&self.previous.cookie))
    }
}

impl SignInPlan {
    /// How the sign-in ends, where the plan works out.
    pub fn outcome(&self) -> (r: SignInOutcome)
        ensures
            r == if self is AskUser {
                SignInOutcome::SelectionRequired
            } else {
                SignInOutcome::Complete
            },
    {
        match self {
            SignInPlan::AskUser(_) => SignInOutcome::SelectionRequired,
            _ => SignInOutcome::Complete,
        }
    }
}

/// YouTube's answer for an identity that is to be activated. Answers the choice to save and the
/// visitor data that came along.
pub fn confirm_identity(
    identity: &AccountIdentity,
    answer: Result<AccountInfo, String>,
    multiple: bool,
) -> (r: Result<(SelectedIdentity, Option<String>), String>)
    ensures
        match answer {
            Ok(info) => if info.name is Some {
                r matches Ok(done) && done.0@ == identity::chosen_from_identity(
                    identity@,
                    info@,
                    multiple,
                ) && text::opt_text(done.1) == info@.visitor_data
            } else {
                r matches Err(why) && why@
                    == "YouTube did not confirm that channel. Try signing in again."@
            },
            Err(e) => r matches Err(why) && why@ == "Couldn't switch YouTube channel: "@ + e@,
        },
{
    match answer {
        Ok(info) => {
            if info.name.is_none() {
                return Err(
                    "YouTube did not confirm that channel. Try signing in again.".to_owned(),
                );
            }
            let visitor = text::copy_opt(&info.visitor_data);
            Ok((SelectedIdentity::from_identity(identity, info, multiple), visitor))
        },
        Err(e) => Err(text::joined("Couldn't switch YouTube channel: ", e.as_str())),
    }
}

/// What the transport uses once a choice has been saved under its session. Without a session there
/// is nothing to save it under.
pub fn auth_for(auth: Auth, choice: &SelectedIdentity) -> (r: Result<Auth, String>)
    ensures
        if auth.cookie is Some {
            r matches Ok(next) && next@ == AuthView {
                cookie: auth@.cookie,
                data_sync_id: choice@.data_sync_id,
            }
        } else {
            r matches Err(why) && why@
                == "The YouTube session expired before the channel could be saved."@
        },
{
    if auth.cookie.is_none() {
        return Err("The YouTube session expired before the channel could be saved.".to_owned());
    }
    Ok(Auth { cookie: auth.cookie, data_sync_id: text::copy_opt(&choice.data_sync_id) })
}

/// The error where a choice could not be written.
pub fn save_error(why: &str) -> (r: String)
    ensures
        r@ == "Couldn't save the selected YouTube channel: "@ + why@,
{
    text::joined("Couldn't save the selected YouTube channel: ", why)
}

/// The selectors of a list of identities.
pub open spec fn keys(list: Seq<IdentityView>) -> Seq<Seq<char>> {
    Seq::new(list.len(), |i: int| identity::selection_key(list[i].data_sync_id))
}

impl AppState {
    /// Begins a sign-in with a captured cookie. `has_session` says whether the cookie, without the
    /// white space around it, holds a session; `previous` is what the transport uses now,
    /// `persisted` the stored choice of an identity.
    pub fn sign_in(
        &self,
        cookie: &str,
        has_session: bool,
        previous: Auth,
        persisted: Option<SelectedIdentity>,
        db: &Db,
    ) -> (r: Result<SignIn, String>)
        ensures
            if has_session {
                r matches Ok(s) && s@ == SignInView {
                    cookie: text::trimmed(cookie@),
                    previous: previous@,
                    persisted: identity::opt_selected(persisted),
                    persisted_id: identity::acting_as(
                        identity::opt_selected(persisted),
                        settings::setting(db@, "data_sync_id"@),
                    ),
                }
            } else {
                r matches Err(why) && why@
                    == "Sign-in didn't complete — try signing in again."@
            },
    {
        if !has_session {
            return Err("Sign-in didn't complete — try signing in again.".to_owned());
        }
        let persisted_id = identity::data_sync_id_of(&persisted, db);
        Ok(SignIn { cookie: text::trim(cookie), previous, persisted, persisted_id })
    }

    /// Whether channels can be listed and switched, and if not, why.
    pub fn may_switch(&self, logged_in: bool, client: bool) -> (r: Result<(), String>)
        ensures
            if !logged_in {
                r matches Err(why) && why@ == "Sign in before switching channels."@
            } else if !client {
                r matches Err(why) && why@ == "metadata client missing"@
            } else {
                r is Ok
            },
    {
        if !logged_in {
            Err("Sign in before switching channels.".to_owned())
        } else if !client {
            Err("metadata client missing".to_owned())
        } else {
            Ok(())
        }
    }

    /// The rows of the account picker. While a login waits for a pick, none shows as selected.
    pub fn account_identities(
        &self,
        list: &Vec<AccountIdentity>,
        acting: &Option<String>,
        db: &Db,
    ) -> (r: Vec<IdentitySnapshot>)
        ensures
            r@.len() == list@.len(),
            forall|k: int|
                0 <= k < r@.len() ==> identity::shows_identity(
                    #[trigger] r@[k],
                    list@[k]@,
                    identity::shows_selected(
                        list@[k]@,
                        text::opt_text(*acting),
                        settings::setting(db@, "account_selection_pending"@) == Some("true"@),
                    ),
                ),
    {
        identity::identity_rows(list, acting, settings::auth_selection_pending(db))
    }

    /// The identity that a selector stands for in a fresh list, and whether there are others.
    pub fn switch_account(&self, list: &Vec<AccountIdentity>, selection_key: &str) -> (r: Result<
        (AccountIdentity, bool),
        String,
    >)
        ensures
            match keys(identity::identities(list@)).index_of_first(selection_key@) {
                Some(i) => r matches Ok(found) && found.0@ == identity::identities(list@)[i]
                    && found.1 == (list@.len() > 1),
                None => r matches Err(why) && why@
                    == "That YouTube channel is no longer available. Refresh the list and try again."@,
            },
    {
        let ghost all = keys(identity::identities(list@));
        for i in 0..list.len()
            invariant
                all == keys(identity::identities(list@)),
                forall|j: int| 0 <= j < i ==> all[j] != selection_key@,
        {
            let key = identity::identity_selection_key(list[i].data_sync_id.as_str());
            assert(all[i as int] == key@);
            if text::same(key.as_str(), selection_key) {
                proof {
                    all.index_of_first_ensures(selection_key@);
                    assert(all.contains(selection_key@));
                }
                return Ok((list[i].copied(), list.len() > 1));
            }
        }
        proof {
            all.index_of_first_ensures(selection_key@);
        }
        Err(
            "That YouTube channel is no longer available. Refresh the list and try again.".to_owned(),
        )
    }

    /// What the transport uses once signed out.
    pub fn sign_out(&self) -> (r: Auth)
        ensures
            r@ == (AuthView { cookie: None, data_sync_id: None }),
    {
        Auth { cookie: None, data_sync_id: None }
    }
}

// --- what a sign-in keeps -----------------------------------------------------------------

/// A stored channel that the new session can act as stays the channel, whatever YouTube's own
/// default is: the plan saves or activates that very id.
pub proof fn law_stored_channel_wins(
    r: SignInPlan,
    s: SignInView,
    active: InfoView,
    list: Seq<IdentityView>,
)
    requires
        is_plan(r, s, active, list),
        s.persisted_id is Some,
        sync_ids(list).contains(s.persisted_id->0),
    ensures
        match r {
            SignInPlan::Save(choice, _) => choice@.data_sync_id == s.persisted_id,
            SignInPlan::Activate(identity, _) => Some(identity@.data_sync_id) == s.persisted_id,
            SignInPlan::AskUser(_) => false,
        },
{
    sync_ids(list).index_of_first_ensures(s.persisted_id->0);
}

/// A list that came back without the stored channel means another account: the stored id is not
/// forced onto it.
pub proof fn law_foreign_account_drops_the_stored_channel(
    r: SignInPlan,
    s: SignInView,
    active: InfoView,
    list: Seq<IdentityView>,
)
    requires
        is_plan(r, s, active, list),
        list.len() > 0,
        s.persisted_id is Some ==> !sync_ids(list).contains(s.persisted_id->0),
    ensures
        !(r is Activate),
        r is AskUser == (list.len() > 1),
        r matches SignInPlan::Save(choice, _) ==> choice@ == identity::chosen_from_info(
            active,
            false,
        ),
{
    if s.persisted_id is Some {
        sync_ids(list).index_of_first_ensures(s.persisted_id->0);
    }
}

/// Losing the list does not swap a stored channel for YouTube's default: that channel is
/// revalidated, or the login fails.
pub proof fn law_lost_list_revalidates_the_stored_channel(
    r: SignInPlan,
    s: SignInView,
    active: InfoView,
)
    requires
        is_plan(r, s, active, Seq::empty()),
        s.persisted_id is Some,
        s.persisted is Some && (s.persisted->0).data_sync_id is Some ==> (
        s.persisted->0).data_sync_id == s.persisted_id,
    ensures
        r matches SignInPlan::Activate(identity, _) && Some(identity@.data_sync_id)
            == s.persisted_id,
{
    sync_ids(Seq::empty()).index_of_first_ensures(s.persisted_id->0);
}

/// How a sign-in goes on, by what is known. A first login with one channel or none goes ahead as the
/// account itself; one with several asks, and never picks by itself. A stored channel that the list
/// confirms is saved at once where it is the only one, and activated with the others known where it
/// is not. The visitor data that came along is never lost.
pub proof fn law_sign_in_goes_on(
    r: SignInPlan,
    s: SignInView,
    active: InfoView,
    list: Seq<IdentityView>,
)
    requires
        is_plan(r, s, active, list),
    ensures
        s.persisted_id is None && list.len() > 1 ==> r is AskUser,
        s.persisted_id is None && list.len() <= 1 ==> (r matches SignInPlan::Save(choice, _)
            && choice@.data_sync_id == active.data_sync_id && choice@.name == active.name
            && !choice@.has_multiple_identities),
        r is AskUser ==> list.len() > 1,
        r matches SignInPlan::Save(choice, visitor) ==> {
            &&& text::opt_text(visitor) == active.visitor_data
            &&& !choice@.has_multiple_identities
            &&& list.len() <= 1
        },
        r matches SignInPlan::AskUser(visitor) ==> text::opt_text(visitor) == active.visitor_data,
        r matches SignInPlan::Activate(identity, multiple) ==> {
            &&& s.persisted_id is Some
            &&& list.len() > 0 ==> multiple && list.len() > 1 && Some(identity@.data_sync_id)
                == s.persisted_id && list.contains(identity@)
            &&& list.len() == 0 ==> multiple == (s.persisted is Some
                && s.persisted->0.has_multiple_identities)
        },
        list.len() == 1 && s.persisted_id == Some(list[0].data_sync_id) ==> (
        r matches SignInPlan::Save(choice, _) && choice@.data_sync_id == Some(
            list[0].data_sync_id,
        )),
{
    if s.persisted_id is Some {
        sync_ids(list).index_of_first_ensures(s.persisted_id->0);
        if list.len() == 1 && s.persisted_id == Some(list[0].data_sync_id) {
            assert(sync_ids(list)[0] == s.persisted_id->0);
            assert(sync_ids(list).contains(s.persisted_id->0));
        }
    }
}

/// A stored channel without a list to confirm it is tried as what was stored of it, and as nothing
/// but its id where nothing was.
pub proof fn law_remembered_channel_is_the_stored_one(s: SignInView)
    requires
        s.persisted_id is Some,
    ensures
        !remembered(s).is_selected,
        s.persisted is Some && s.persisted->0.data_sync_id is Some ==> {
            &&& Some(remembered(s).data_sync_id) == s.persisted->0.data_sync_id
            &&& s.persisted->0.name is Some ==> Some(remembered(s).name) == s.persisted->0.name
            &&& remembered(s).handle == s.persisted->0.handle
            &&& remembered(s).channel_id == s.persisted->0.channel_id
        },
        s.persisted is None ==> Some(remembered(s).data_sync_id) == s.persisted_id
            && remembered(s).name.len() == 0 && remembered(s).channel_id is None,
{
}

/// A selector finds the first identity that it stands for, and none where it stands for none of
/// them.
pub proof fn law_selectors_find_their_identity(list: Seq<IdentityView>, key: Seq<char>)
    ensures
        match keys(list).index_of_first(key) {
            Some(i) => 0 <= i < list.len() && identity::selection_key(list[i].data_sync_id) == key,
            None => forall|i: int|
                0 <= i < list.len() ==> identity::selection_key(
                    (#[trigger] list[i]).data_sync_id,
                ) != key,
        },
        forall|i: int|
            0 <= i < list.len() && (forall|j: int|
                0 <= j < i ==> identity::selection_key((#[trigger] list[j]).data_sync_id)
                    != identity::selection_key(list[i].data_sync_id)) ==> keys(list).index_of_first(
                identity::selection_key((#[trigger] list[i]).data_sync_id),
            ) == Some(i),
{
    let all = keys(list);
    all.index_of_first_ensures(key);
    if all.index_of_first(key) is None {
        assert forall|i: int| 0 <= i < list.len() implies identity::selection_key(
            (#[trigger] list[i]).data_sync_id,
        ) != key by {
            assert(all[i] != key) by {
                if all[i] == key {
                    assert(all.contains(key));
                }
            }
        }
    }
    assert forall|i: int|
        0 <= i < list.len() && (forall|j: int|
            0 <= j < i ==> identity::selection_key((#[trigger] list[j]).data_sync_id)
                != identity::selection_key(list[i].data_sync_id)) implies all.index_of_first(
        identity::selection_key((#[trigger] list[i]).data_sync_id),
    ) == Some(i) by {
        let k = identity::selection_key(list[i].data_sync_id);
        all.index_of_first_ensures(k);
        assert(all[i] == k);
        assert(all.contains(k));
        let m = all.index_of_first(k)->0;
        if m < i {
            assert(all[m] == identity::selection_key(list[m].data_sync_id));
        }
    }
}

// --- the same, of the calls themselves ----------------------------------------------------

/// A sign-in that fails, at the menu or behind it, leaves the transport and the session as they
/// were. While it finds out who it is, it uses the new cookie and acts as none.
pub proof fn law_failed_sign_in_puts_everything_back(
    s: &SignIn,
    tried: Auth,
    answer: Result<AccountInfo, String>,
    r: Result<AccountInfo, Refusal>,
    back: (Auth, Option<String>),
)
    requires
        call_ensures(SignIn::discovery, (s,), tried),
        call_ensures(SignIn::menu, (s, answer), r),
        call_ensures(SignIn::rollback, (s,), back),
    ensures
        tried@.cookie == Some(s@.cookie),
        tried@.data_sync_id is None,
        r is Ok == (answer is Ok && answer->Ok_0.name is Some),
        r matches Ok(info) ==> answer == Ok::<AccountInfo, String>(info),
        r matches Err(no) ==> no.transport@ == s@.previous,
        back.0@ == s@.previous,
        text::opt_text(back.1) == s@.previous.cookie,
{
}

/// A sign-in is begun with the cookie that was captured, without the space around it, and
/// remembers what was in force and which channel was chosen. Without a session in the cookie it
/// does not begin.
pub proof fn law_sign_in_remembers_what_was_in_force(
    a: &AppState,
    cookie: &str,
    has_session: bool,
    previous: Auth,
    persisted: Option<SelectedIdentity>,
    db: &Db,
    r: Result<SignIn, String>,
)
    requires
        call_ensures(AppState::sign_in, (a, cookie, has_session, previous, persisted, db), r),
    ensures
        r is Ok == has_session,
        r matches Ok(s) ==> {
            &&& s@.cookie == text::trimmed(cookie@)
            &&& s@.previous == previous@
            &&& s@.persisted == identity::opt_selected(persisted)
            &&& persisted is Some && persisted->0@.data_sync_id is Some ==> s@.persisted_id
                == persisted->0@.data_sync_id
        },
{
}

/// Activating an identity ends in acting as that identity, under the session that is in force, or in
/// an error: where YouTube does not confirm it, or where the session is gone. Signed out, there is
/// neither.
pub proof fn law_activation_acts_as_that_identity(
    identity: &AccountIdentity,
    answer: Result<AccountInfo, String>,
    multiple: bool,
    done: Result<(SelectedIdentity, Option<String>), String>,
    auth: Auth,
    choice: &SelectedIdentity,
    next: Result<Auth, String>,
    a: &AppState,
    out: Auth,
)
    requires
        call_ensures(confirm_identity, (identity, answer, multiple), done),
        call_ensures(auth_for, (auth, choice), next),
        call_ensures(AppState::sign_out, (a,), out),
    ensures
        done is Ok == (answer is Ok && answer->Ok_0.name is Some),
        done matches Ok(d) ==> {
            &&& d.0@.data_sync_id == Some(identity.data_sync_id@)
            &&& d.0@.name == text::opt_text(answer->Ok_0.name)
            &&& d.0@.has_multiple_identities == multiple
            &&& text::opt_text(d.1) == text::opt_text(answer->Ok_0.visitor_data)
        },
        next is Ok == auth.cookie is Some,
        next matches Ok(n) ==> n@.cookie == auth@.cookie && n@.data_sync_id
            == choice@.data_sync_id,
        out@.cookie is None,
        out@.data_sync_id is None,
{
}

/// Switching goes to the identity that the selector stands for, and says whether there are others;
/// a selector that stands for none of them is refused. Only someone signed in, with a client, may
/// switch.
pub proof fn law_switching_goes_to_the_selected_identity(
    a: &AppState,
    list: &Vec<AccountIdentity>,
    selection_key: &str,
    r: Result<(AccountIdentity, bool), String>,
    logged_in: bool,
    client: bool,
    may: Result<(), String>,
)
    requires
        call_ensures(AppState::switch_account, (a, list, selection_key), r),
        call_ensures(AppState::may_switch, (a, logged_in, client), may),
    ensures
        may is Ok == (logged_in && client),
        r matches Ok(found) ==> {
            &&& identity::selection_key(found.0.data_sync_id@) == selection_key@
            &&& identity::identities(list@).contains(found.0@)
            &&& found.1 == (list@.len() > 1)
        },
        r is Err ==> forall|i: int|
            0 <= i < list@.len() ==> identity::selection_key((#[trigger] list@[i]).data_sync_id@)
                != selection_key@,
{
    let all = identity::identities(list@);
    law_selectors_find_their_identity(all, selection_key@);
    if r is Err {
        assert forall|i: int| 0 <= i < list@.len() implies identity::selection_key(
            (#[trigger] list@[i]).data_sync_id@,
        ) != selection_key@ by {
            assert(all[i].data_sync_id == list@[i].data_sync_id@);
        }
    }
}

/// A sign-in asks the user exactly where its plan is to ask.
pub proof fn law_outcome_follows_the_plan(plan: &SignInPlan, r: SignInOutcome)
    requires
        call_ensures(SignInPlan::outcome, (plan,), r),
    ensures
        r == SignInOutcome::SelectionRequired <==> plan is AskUser,
{
}

/// The rows of the picker are the identities, in order; none is selected while a pick is pending,
/// and the one that requests act as otherwise.
pub proof fn law_picker_rows_are_the_identities(
    a: &AppState,
    list: &Vec<AccountIdentity>,
    acting: &Option<String>,
    db: &Db,
    r: Vec<IdentitySnapshot>,
)
    requires
        call_ensures(AppState::account_identities, (a, list, acting, db), r),
    ensures
        r@.len() == list@.len(),
        forall|k: int|
            0 <= k < r@.len() ==> {
                let pending = settings::setting(db@, "account_selection_pending"@) == Some(
                    "true"@,
                );
                &&& (#[trigger] r@[k]).name@ == list@[k].name@
                &&& r@[k].selection_key@ == identity::selection_key(list@[k].data_sync_id@)
                &&& pending ==> !r@[k].selected
                &&& !pending && acting is Some ==> r@[k].selected == (acting->0@
                    == list@[k].data_sync_id@)
                &&& !pending && acting is None ==> r@[k].selected == list@[k].is_selected
            },
{
}

} // verus!
