use vstd::prelude::*;
use std::collections::HashMap;
use crate::text::copy_str;

verus! {

broadcast use vstd::std_specs::hash::group_hash_axioms;

/// Where a user of the podcast app stands in the Telegram login: what is
/// awaited, what was entered, and the login's client and tokens (`C`, `T`,
/// `P`: the client, the login token and the password token).
pub struct AuthStages<C, T, P> {
    pub awaiting_phone_number: bool,
    pub awaiting_passcode: bool,
    pub awaiting_2fa: bool,
    pub phone_number: Option<String>,
    pub passcode: Option<String>,
    pub two_fa: Option<String>,
    pub client: Option<C>,
    pub token: Option<T>,
    pub password_token: Option<P>,
    pub authorized: bool,
    pub unauthorized: bool,
}

/// A login that has not started: nothing awaited, entered or held.
pub open spec fn blank_stages<C, T, P>() -> AuthStages<C, T, P> {
    AuthStages {
        awaiting_phone_number: false,
        awaiting_passcode: false,
        awaiting_2fa: false,
        phone_number: None,
        passcode: None,
        two_fa: None,
        client: None,
        token: None,
        password_token: None,
        authorized: false,
        unauthorized: false,
    }
}

/// A login started over: everything cleared but the `unauthorized` mark.
pub open spec fn reset_stages<C, T, P>(s: AuthStages<C, T, P>) -> AuthStages<C, T, P> {
    AuthStages { unauthorized: s.unauthorized, ..blank_stages() }
}

impl<C, T, P> Default for AuthStages<C, T, P> {
    fn default() -> (res: Self)
        ensures
            res == blank_stages::<C, T, P>(),
    {
        AuthStages {
            awaiting_phone_number: false,
            awaiting_passcode: false,
            awaiting_2fa: false,
            phone_number: None,
            passcode: None,
            two_fa: None,
            client: None,
            token: None,
            password_token: None,
            authorized: false,
            unauthorized: false,
        }
    }
}

impl<C, T, P> AuthStages<C, T, P> {
    /// Starts the login over: nothing awaited, entered or held, and not
    /// authorized; the `unauthorized` mark stays.
    pub fn reset(&mut self)
        ensures
            *final(self) == reset_stages(*old(self)),
    {
        self.awaiting_phone_number = false;
        self.awaiting_passcode = false;
        self.awaiting_2fa = false;
        self.phone_number = None;
        self.passcode = None;
        self.two_fa = None;
        self.client = None;
        self.token = None;
        self.password_token = None;
        self.authorized = false;
    }
}

/// The login state of a user after a reset: the user's state (a blank one
/// for a user not seen yet) started over.
pub open spec fn states_after_reset<C, T, P>(
    states: Map<u64, AuthStages<C, T, P>>,
    user_id: u64,
) -> Map<u64, AuthStages<C, T, P>> {
    let current = if states.contains_key(user_id) {
        states[user_id]
    } else {
        blank_stages()
    };
    states.insert(user_id, reset_stages(current))
}

/// Starts the login of user `user_id` over.
pub fn reset_user_state<C, T, P>(states: &mut HashMap<u64, AuthStages<C, T, P>>, user_id: u64)
    ensures
        final(states)@ == states_after_reset(old(states)@, user_id),
{
    let mut current = match states.remove(&user_id) {
        Some(s) => s,
        None => AuthStages::default(),
    };
    current.reset();
    states.insert(user_id, current);
}

/// Starts the login of user `user_id` over and gives the end of the text
/// that tells the user so.
pub fn reset_user_state_with_message<C, T, P>(
    states: &mut HashMap<u64, AuthStages<C, T, P>>,
    user_id: u64,
) -> (res: String)
    ensures
        final(states)@ == states_after_reset(old(states)@, user_id),
        res@ == ". Please restart the application and try again."@,
{
    reset_user_state(states, user_id);
    copy_str(". Please restart the application and try again.")
}

} // verus!
