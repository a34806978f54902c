//! Profile editing and viewing state. The terminal images of avatars and
//! banners belong to the renderer, not to this state.

use vstd::prelude::*;
use crate::model::{copy_opt_string, UserProfile};

verus! {

/// Which field of the profile editor has the focus.
#[derive(Debug, Clone, Copy, PartialEq, Eq, Structural)]
pub enum ProfileEditFocus {
    Bio,
    Url1,
    Url2,
    Url3,
    Location,
    ProfilePic,
    ProfilePicDelete,
    CoverBanner,
    CoverBannerDelete,
    Save,
    Cancel,
}

/// The text of an optional field, or empty text.
pub open spec fn text_or_empty(s: Option<String>) -> Seq<char> {
    match s {
        Some(t) => t@,
        None => Seq::empty(),
    }
}

/// State management for user profile functionality.
#[derive(Debug)]
pub struct ProfileState {
    pub edit_bio: String,
    pub edit_url1: String,
    pub edit_url2: String,
    pub edit_url3: String,
    pub edit_location: String,
    pub edit_profile_pic: String,
    pub edit_cover_banner: String,
    pub profile_edit_focus: ProfileEditFocus,
    pub profile_edit_error: Option<String>,
    pub profile_requested_by_user: bool,
    pub profile_view: Option<UserProfile>,
    pub show_profile_view_popup: bool,
    pub show_user_actions: bool,
    pub user_actions_selected: usize,
    pub user_actions_target: Option<usize>,
}

/// A copy of an optional field's text, or empty text.
fn text_of(s: &Option<String>) -> (r: String)
    ensures
        r@ == text_or_empty(*s),
{
    match s {
        Some(t) => t.clone(),
        None => String::new(),
    }
}

impl ProfileState {
    /// The state of a new session (see `new`).
    pub open spec fn is_fresh(&self) -> bool {
        &&& self.edit_bio@.len() == 0
        &&& self.edit_url1@.len() == 0
        &&& self.edit_url2@.len() == 0
        &&& self.edit_url3@.len() == 0
        &&& self.edit_location@.len() == 0
        &&& self.edit_profile_pic@.len() == 0
        &&& self.edit_cover_banner@.len() == 0
        &&& self.profile_edit_focus == ProfileEditFocus::Bio
        &&& self.profile_edit_error is None
        &&& !self.profile_requested_by_user
        &&& self.profile_view is None
        &&& !self.show_profile_view_popup
        &&& !self.show_user_actions
        &&& self.user_actions_selected == 0
        &&& self.user_actions_target is None
    }

    /// Every field empty, the bio focused, nothing shown.
    pub fn new() -> (r: ProfileState)
        ensures
            r.is_fresh(),
    {
        ProfileState {
            edit_bio: String::new(),
            edit_url1: String::new(),
            edit_url2: String::new(),
            edit_url3: String::new(),
            edit_location: String::new(),
            edit_profile_pic: String::new(),
            edit_cover_banner: String::new(),
            profile_edit_focus: ProfileEditFocus::Bio,
            profile_edit_error: None,
            profile_requested_by_user: false,
            profile_view: None,
            show_profile_view_popup: false,
            show_user_actions: false,
            user_actions_selected: 0,
            user_actions_target: None,
        }
    }

    /// Fills the editor with the profile's fields (empty where a field is
    /// unset) and clears the error.
    pub fn load_profile_for_editing(&mut self, profile: &UserProfile)
        ensures
            final(self).edit_bio@ == text_or_empty(profile.bio),
            final(self).edit_url1@ == text_or_empty(profile.url1),
            final(self).edit_url2@ == text_or_empty(profile.url2),
            final(self).edit_url3@ == text_or_empty(profile.url3),
            final(self).edit_location@ == text_or_empty(profile.location),
            final(self).edit_profile_pic@ == text_or_empty(profile.profile_pic),
            final(self).edit_cover_banner@ == text_or_empty(profile.cover_banner),
            final(self).profile_edit_error is None,
            final(self).profile_edit_focus == old(self).profile_edit_focus,
            final(self).profile_requested_by_user == old(self).profile_requested_by_user,
            final(self).profile_view == old(self).profile_view,
            final(self).show_profile_view_popup == old(self).show_profile_view_popup,
            final(self).show_user_actions == old(self).show_user_actions,
            final(self).user_actions_selected == old(self).user_actions_selected,
            final(self).user_actions_target == old(self).user_actions_target,
    {
        self.edit_bio = text_of(&profile.bio);
        self.edit_url1 = text_of(&profile.url1);
        self.edit_url2 = text_of(&profile.url2);
        self.edit_url3 = text_of(&profile.url3);
        self.edit_location = text_of(&profile.location);
        self.edit_profile_pic = text_of(&profile.profile_pic);
        self.edit_cover_banner = text_of(&profile.cover_banner);
        self.profile_edit_error = None;
    }

    /// Empties the editor, clears the error and focuses the bio.
    pub fn clear_edit_state(&mut self)
        ensures
            final(self).edit_bio@.len() == 0,
            final(self).edit_url1@.len() == 0,
            final(self).edit_url2@.len() == 0,
            final(self).edit_url3@.len() == 0,
            final(self).edit_location@.len() == 0,
            final(self).edit_profile_pic@.len() == 0,
            final(self).edit_cover_banner@.len() == 0,
            final(self).profile_edit_error is None,
            final(self).profile_edit_focus == ProfileEditFocus::Bio,
            final(self).profile_requested_by_user == old(self).profile_requested_by_user,
            final(self).profile_view == old(self).profile_view,
            final(self).show_profile_view_popup == old(self).show_profile_view_popup,
            final(self).show_user_actions == old(self).show_user_actions,
            final(self).user_actions_selected == old(self).user_actions_selected,
            final(self).user_actions_target == old(self).user_actions_target,
    {
        self.edit_bio = String::new();
        self.edit_url1 = String::new();
        self.edit_url2 = String::new();
        self.edit_url3 = String::new();
        self.edit_location = String::new();
        self.edit_profile_pic = String::new();
        self.edit_cover_banner = String::new();
        self.profile_edit_error = None;
        self.profile_edit_focus = ProfileEditFocus::Bio;
    }

    /// Shows the profile in the profile popup.
    pub fn set_profile_for_viewing(&mut self, profile: UserProfile)
        ensures
            *final(self) == (ProfileState {
                profile_view: Some(profile),
                show_profile_view_popup: true,
                ..*old(self)
            }),
    {
        self.profile_view = Some(profile);
        self.show_profile_view_popup = true;
    }

    /// Closes the profile popup and forgets the profile.
    pub fn close_profile_view(&mut self)
        ensures
            *final(self) == (ProfileState {
                profile_view: None,
                show_profile_view_popup: false,
                ..*old(self)
            }),
    {
        self.show_profile_view_popup = false;
        self.profile_view = None;
    }
}

impl UserProfile {
    /// A copy of the profile, equal to it.
    pub fn duplicate(&self) -> (r: UserProfile)
        ensures
            r == *self,
    {
        UserProfile {
            user_id: self.user_id,
            username: self.username.clone(),
            bio: copy_opt_string(&self.bio),
            url1: copy_opt_string(&self.url1),
            url2: copy_opt_string(&self.url2),
            url3: copy_opt_string(&self.url3),
            location: copy_opt_string(&self.location),
            profile_pic: copy_opt_string(&self.profile_pic),
            cover_banner: copy_opt_string(&self.cover_banner),
        }
    }
}

impl Default for ProfileState {
    fn default() -> (r: ProfileState)
        ensures
            r.profile_edit_focus == ProfileEditFocus::Bio,
            r.profile_view is None,
            !r.show_profile_view_popup,
    {
        ProfileState::new()
    }
}

} // verus!
