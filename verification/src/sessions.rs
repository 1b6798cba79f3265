//! Sessions in memory: which token stands for which user.

use crate::names::NameMap;
use crate::text::{copy_text, same_text};
use vstd::prelude::*;

verus! {

/// The tokens that are valid now, each with the user it stands for. A user has
/// at most one of them.
#[derive(Debug)]
pub struct AuthStore {
    sessions: NameMap<String>,
}

/// What a user is told when a second session is refused.
pub const ALREADY_LOGGED_IN: &'static str = "utente già loggato da altra sessione";

/// The session table: token to user.
pub type Sessions = Map<Seq<char>, Seq<char>>;

/// No user has two tokens.
pub open spec fn single_session(m: Sessions) -> bool {
    forall|a: Seq<char>, b: Seq<char>| #[trigger]
        m.dom().contains(a) && #[trigger] m.dom().contains(b) && m[a] == m[b] ==> a == b
}

/// Some token stands for `user`.
pub open spec fn logged_in(m: Sessions, user: Seq<char>) -> bool {
    exists|t: Seq<char>| #[trigger] m.dom().contains(t) && m[t] == user
}

/// The tokens that stand for `user`.
pub open spec fn tokens_of(m: Sessions, user: Seq<char>) -> Set<Seq<char>> {
    Set::new(|t: Seq<char>| m.dom().contains(t) && m[t] == user)
}

/// The table without the tokens of `user`.
pub open spec fn without_user(m: Sessions, user: Seq<char>) -> Sessions {
    m.remove_keys(tokens_of(m, user))
}

/// The user that `token` stands for, if it is valid.
pub open spec fn user_of(m: Sessions, token: Seq<char>) -> Option<Seq<char>> {
    if m.dom().contains(token) {
        Some(m[token])
    } else {
        None
    }
}

impl AuthStore {
    pub closed spec fn view(&self) -> Sessions {
        self.sessions@.map_values(|u: String| u@)
    }

    /// No token occurs twice, and no user has two.
    pub closed spec fn wf(&self) -> bool {
        self.sessions.wf() && single_session(self@)
    }

    /// In a sound store no user has two tokens.
    pub proof fn lemma_single_session(&self)
        requires
            self.wf(),
        ensures
            single_session(self@),
    {
    }

    /// A store with no session.
    pub fn new() -> (store: Self)
        ensures
            store.wf(),
            store@ == Sessions::empty(),
    {
        let store = AuthStore { sessions: NameMap::new() };
        assert(store@ =~= Sessions::empty());
        store
    }
}

impl Default for AuthStore {
    fn default() -> (store: Self)
        ensures
            store.wf(),
            store@ == Sessions::empty(),
    {
        AuthStore::new()
    }
}

/// Takes the tokens of a user out, and tells how many they were.
pub fn invalidate_user_sessions(store: &mut AuthStore, username: &str) -> (n: usize)
    requires
        old(store).wf(),
    ensures
        final(store).wf(),
        final(store)@ == without_user(old(store)@, username@),
        n == tokens_of(old(store)@, username@).len(),
        n == (if logged_in(old(store)@, username@) {
            1int
        } else {
            0int
        }),
{
    let ghost before = store@;
    match store.sessions.name_of(username) {
        Some(token) => {
            store.sessions.remove(token.as_str());
            proof {
                assert(before.dom().contains(token@) && before[token@] == username@);
                assert(tokens_of(before, username@) =~= Set::empty().insert(token@));
                assert(store@ =~= without_user(before, username@));
            }
            1
        },
        None => {
            proof {
                assert forall|t: Seq<char>| #[trigger] before.dom().contains(t) implies before[t]
                    != username@ by {
                    assert(store.sessions@.dom().contains(t));
                }
                assert(tokens_of(before, username@) =~= Set::empty());
                assert(store@ =~= without_user(before, username@));
            }
            0
        },
    }
}

fn put(store: &mut AuthStore, username: &str, token: &str)
    requires
        old(store).wf(),
        !logged_in(old(store)@, username@),
    ensures
        final(store).wf(),
        final(store)@ == old(store)@.insert(token@, username@),
{
    let ghost before = store@;
    store.sessions.insert(token, copy_text(username));
    assert(store@ =~= before.insert(token@, username@));
}

/// Gives a user a token, in place of those that the user had.
pub fn insert_token(store: &mut AuthStore, username: &str, token: &str)
    requires
        old(store).wf(),
    ensures
        final(store).wf(),
        final(store)@ == without_user(old(store)@, username@).insert(token@, username@),
{
    let _ = invalidate_user_sessions(store, username);
    put(store, username, token);
}

/// Gives a user a token, unless a session of that user is active: then nothing
/// changes and the refusal is told.
pub fn try_insert_token(store: &mut AuthStore, username: &str, token: &str) -> (r: Result<
    (),
    String,
>)
    requires
        old(store).wf(),
    ensures
        final(store).wf(),
        match r {
            Ok(_) => !logged_in(old(store)@, username@) && final(store)@ == old(store)@.insert(
                token@,
                username@,
            ),
            Err(e) => logged_in(old(store)@, username@) && final(store)@ == old(store)@ && e@
                == ALREADY_LOGGED_IN@,
        },
{
    if is_logged_in(store, username) {
        return Err(copy_text(ALREADY_LOGGED_IN));
    }
    put(store, username, token);
    Ok(())
}

/// The user that a token stands for.
pub fn get_user_by_token(store: &AuthStore, token: &str) -> (user: Option<String>)
    requires
        store.wf(),
    ensures
        match user {
            Some(u) => user_of(store@, token@) == Some(u@),
            None => user_of(store@, token@) is None,
        },
{
    match store.sessions.get(token) {
        Some(u) => Some(copy_text(u.as_str())),
        None => None,
    }
}

/// Takes one token out.
pub fn invalidate_token(store: &mut AuthStore, token: &str)
    requires
        old(store).wf(),
    ensures
        final(store).wf(),
        final(store)@ == old(store)@.remove(token@),
{
    let ghost before = store@;
    store.sessions.remove(token);
    assert(store@ =~= before.remove(token@));
}

/// Whether some session of a user is active.
pub fn is_logged_in(store: &AuthStore, username: &str) -> (b: bool)
    requires
        store.wf(),
    ensures
        b == logged_in(store@, username@),
{
    match store.sessions.name_of(username) {
        Some(token) => {
            assert(store@.dom().contains(token@) && store@[token@] == username@);
            true
        },
        None => {
            assert forall|t: Seq<char>| #[trigger] store@.dom().contains(t) implies store@[t]
                != username@ by {
                assert(store.sessions@.dom().contains(t));
            }
            false
        },
    }
}

/// Ends every session.
pub fn clear_sessions(store: &mut AuthStore)
    ensures
        final(store).wf(),
        final(store)@ == Sessions::empty(),
{
    store.sessions.clear();
    assert(store@ =~= Sessions::empty());
}

/// The user that a token stands for, when it is the user of the connection that
/// presents it.
pub open spec fn authorised(m: Sessions, user: Option<Seq<char>>, token: Seq<char>) -> Option<
    Seq<char>,
> {
    match (user_of(m, token), user) {
        (Some(u), Some(me)) => if u == me {
            Some(u)
        } else {
            None
        },
        _ => None,
    }
}

/// Checks a token against the sessions and against the user of the connection.
pub fn validate_token(store: &AuthStore, token: &str, user: &Option<String>) -> (who: Option<
    String,
>)
    requires
        store.wf(),
    ensures
        match who {
            Some(u) => authorised(
                store@,
                crate::text::text_view(*user),
                token@,
            ) == Some(u@),
            None => authorised(store@, crate::text::text_view(*user), token@) is None,
        },
{
    match get_user_by_token(store, token) {
        None => None,
        Some(u) => match user {
            None => None,
            Some(me) => if same_text(u.as_str(), me.as_str()) {
                Some(u)
            } else {
                None
            },
        },
    }
}

/// After the sessions of a user are taken out, the user is not logged in and no
/// token stands for them; every other token stands for whom it stood for.
pub proof fn law_invalidated_user_is_out(m: Sessions, user: Seq<char>)
    ensures
        !logged_in(without_user(m, user), user),
        forall|t: Seq<char>|
            user_of(m, t) != Some(user) ==> #[trigger] user_of(without_user(m, user), t) == user_of(
                m,
                t,
            ),
        forall|t: Seq<char>| #[trigger] user_of(without_user(m, user), t) != Some(user),
{
}

/// A fresh session is found again by its token, logs its user in, and leaves
/// the sessions of other users alone.
pub proof fn law_inserted_token_is_found(m: Sessions, user: Seq<char>, token: Seq<char>)
    ensures
        user_of(without_user(m, user).insert(token, user), token) == Some(user),
        logged_in(without_user(m, user).insert(token, user), user),
        tokens_of(without_user(m, user).insert(token, user), user) == Set::empty().insert(token),
        forall|t: Seq<char>|
            t != token && user_of(m, t) != Some(user) ==> #[trigger] user_of(
                without_user(m, user).insert(token, user),
                t,
            ) == user_of(m, t),
{
    let after = without_user(m, user).insert(token, user);
    assert(after.dom().contains(token));
    assert(tokens_of(after, user) =~= Set::empty().insert(token));
}

/// Of two attempts to open a session for one user, with no session ending in
/// between, the second is refused, whatever the tokens.
pub proof fn law_second_login_is_refused(m: Sessions, user: Seq<char>, token: Seq<char>)
    ensures
        logged_in(m.insert(token, user), user),
{
    assert(m.insert(token, user).dom().contains(token));
}

/// Every way to change the sessions keeps them to one per user.
pub proof fn law_single_session_is_kept(m: Sessions, user: Seq<char>, token: Seq<char>)
    requires
        single_session(m),
    ensures
        single_session(without_user(m, user)),
        single_session(without_user(m, user).insert(token, user)),
        !logged_in(m, user) ==> single_session(m.insert(token, user)),
        single_session(m.remove(token)),
        single_session(Sessions::empty()),
{
}

/// What the sessions say: whom a token stands for, whether some token stands for
/// a user, and whether a token is good on the connection of a user.
pub proof fn law_sessions_are_what_they_list(
    m: Sessions,
    user: Seq<char>,
    token: Seq<char>,
    here: Option<Seq<char>>,
)
    ensures
        user_of(m, token) == Some(user) <==> m.dom().contains(token) && m[token] == user,
        user_of(m, token) is None <==> !m.dom().contains(token),
        logged_in(m, user) <==> exists|t: Seq<char>| #[trigger]
            m.dom().contains(t) && m[t] == user,
        authorised(m, here, token) == Some(user) <==> m.dom().contains(token) && m[token] == user
            && here == Some(user),
        authorised(m, here, token) is None <==> !m.dom().contains(token) || here != Some(m[token]),
        tokens_of(m, user).contains(token) <==> m.dom().contains(token) && m[token] == user,
        without_user(m, user).dom().contains(token) <==> m.dom().contains(token) && m[token]
            != user,
        m.dom().contains(token) && m[token] != user ==> without_user(m, user)[token] == m[token],
        single_session(m) <==> forall|a: Seq<char>, b: Seq<char>|
            a != b && #[trigger] m.dom().contains(a) && #[trigger] m.dom().contains(b) ==> m[a]
                != m[b],
{
}

}
