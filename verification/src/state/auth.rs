//! Login state and the text typed into the login, register and input forms.

use vstd::prelude::*;
use crate::model::User;

verus! {

/// Which field of a form has the focus, or which popup input is open.
#[derive(Debug, Clone, Copy, PartialEq, Eq, Structural)]
pub enum InputMode {
    LoginUsername,
    LoginPassword,
    RegisterUsername,
    RegisterPassword,
    AuthSubmit,
    AuthSwitch,
    NewForumName,
    NewForumDescription,
    NewThreadTitle,
    NewThreadContent,
    NewPostContent,
    UpdatePassword,
}

/// State management for authentication.
#[derive(Debug)]
pub struct AuthState {
    pub current_user: Option<User>,
    pub current_input: String,
    pub password_input: String,
    pub input_mode: Option<InputMode>,
}

impl AuthState {
    /// The state of a new session (see `new`).
    pub open spec fn is_fresh(&self) -> bool {
        &&& self.current_user is None
        &&& self.current_input@ == Seq::<char>::empty()
        &&& self.password_input@ == Seq::<char>::empty()
        &&& self.input_mode == Some(InputMode::LoginUsername)
    }

    /// Logged out, both fields empty, the user name field focused.
    pub fn new() -> (r: AuthState)
        ensures
            r.is_fresh(),
    {
        AuthState {
            current_user: None,
            current_input: String::new(),
            password_input: String::new(),
            input_mode: Some(InputMode::LoginUsername),
        }
    }

    /// Whether a user is logged in.
    pub fn is_logged_in(&self) -> (b: bool)
        ensures
            b == self.current_user is Some,
    {
        self.current_user.is_some()
    }

    /// Records the logged-in user and empties both fields.
    pub fn login(&mut self, user: User)
        ensures
            final(self).current_user == Some(user),
            final(self).current_input@ == Seq::<char>::empty(),
            final(self).password_input@ == Seq::<char>::empty(),
            final(self).input_mode == old(self).input_mode,
    {
        self.current_user = Some(user);
        self.clear_inputs();
    }

    /// Forgets the user, empties both fields and focuses the user name.
    pub fn logout(&mut self)
        ensures
            final(self).current_user is None,
            final(self).current_input@ == Seq::<char>::empty(),
            final(self).password_input@ == Seq::<char>::empty(),
            final(self).input_mode == Some(InputMode::LoginUsername),
    {
        self.current_user = None;
        self.clear_inputs();
        self.input_mode = Some(InputMode::LoginUsername);
    }

    /// Empties both fields.
    pub fn clear_inputs(&mut self)
        ensures
            final(self).current_user == old(self).current_user,
            final(self).current_input@ == Seq::<char>::empty(),
            final(self).password_input@ == Seq::<char>::empty(),
            final(self).input_mode == old(self).input_mode,
    {
        self.current_input = String::new();
        self.password_input = String::new();
    }

    /// Focuses the given field or input and empties both fields.
    pub fn set_input_mode(&mut self, mode: InputMode)
        ensures
            final(self).current_user == old(self).current_user,
            final(self).current_input@ == Seq::<char>::empty(),
            final(self).password_input@ == Seq::<char>::empty(),
            final(self).input_mode == Some(mode),
    {
        self.input_mode = Some(mode);
        self.clear_inputs();
    }
}

impl Default for AuthState {
    fn default() -> (r: AuthState)
        ensures
            r.current_user is None,
            r.current_input@ == Seq::<char>::empty(),
            r.password_input@ == Seq::<char>::empty(),
            r.input_mode == Some(InputMode::LoginUsername),
    {
        AuthState::new()
    }
}

} // verus!
