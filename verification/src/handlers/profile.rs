//! Keys of the profile editor.

use vstd::prelude::*;
use crate::app::{App, Effect, queued, profile_update};
use crate::error::error_text;
use crate::input::{KeyCode, KeyEvent};
use crate::services::image::image_data_problem;
use crate::services::profile::{opt_bytes, profile_data_error, profile_data_ok};
use crate::sound::SoundType;
use crate::state::profile::{ProfileEditFocus, ProfileState};
use crate::state::ui::{AppMode, UiState};
use crate::text::{pop_char, push_char};

verus! {

/// The field after `f` in the editor's order.
pub open spec fn next_focus(f: ProfileEditFocus) -> ProfileEditFocus {
    match f {
        ProfileEditFocus::Bio => ProfileEditFocus::Location,
        ProfileEditFocus::Location => ProfileEditFocus::Url1,
        ProfileEditFocus::Url1 => ProfileEditFocus::Url2,
        ProfileEditFocus::Url2 => ProfileEditFocus::Url3,
        ProfileEditFocus::Url3 => ProfileEditFocus::ProfilePic,
        ProfileEditFocus::ProfilePic => ProfileEditFocus::ProfilePicDelete,
        ProfileEditFocus::ProfilePicDelete => ProfileEditFocus::CoverBanner,
        ProfileEditFocus::CoverBanner => ProfileEditFocus::CoverBannerDelete,
        ProfileEditFocus::CoverBannerDelete => ProfileEditFocus::Save,
        ProfileEditFocus::Save => ProfileEditFocus::Cancel,
        ProfileEditFocus::Cancel => ProfileEditFocus::Bio,
    }
}

/// The field before `f` in the editor's order.
pub open spec fn prev_focus(f: ProfileEditFocus) -> ProfileEditFocus {
    match f {
        ProfileEditFocus::Bio => ProfileEditFocus::Cancel,
        ProfileEditFocus::Location => ProfileEditFocus::Bio,
        ProfileEditFocus::Url1 => ProfileEditFocus::Location,
        ProfileEditFocus::Url2 => ProfileEditFocus::Url1,
        ProfileEditFocus::Url3 => ProfileEditFocus::Url2,
        ProfileEditFocus::ProfilePic => ProfileEditFocus::Url3,
        ProfileEditFocus::ProfilePicDelete => ProfileEditFocus::ProfilePic,
        ProfileEditFocus::CoverBanner => ProfileEditFocus::ProfilePicDelete,
        ProfileEditFocus::CoverBannerDelete => ProfileEditFocus::CoverBanner,
        ProfileEditFocus::Save => ProfileEditFocus::CoverBannerDelete,
        ProfileEditFocus::Cancel => ProfileEditFocus::Save,
    }
}

fn next_focus_of(f: ProfileEditFocus) -> (r: ProfileEditFocus)
    ensures
        r == next_focus(f),
{
    match f {
        ProfileEditFocus::Bio => ProfileEditFocus::Location,
        ProfileEditFocus::Location => ProfileEditFocus::Url1,
        ProfileEditFocus::Url1 => ProfileEditFocus::Url2,
        ProfileEditFocus::Url2 => ProfileEditFocus::Url3,
        ProfileEditFocus::Url3 => ProfileEditFocus::ProfilePic,
        ProfileEditFocus::ProfilePic => ProfileEditFocus::ProfilePicDelete,
        ProfileEditFocus::ProfilePicDelete => ProfileEditFocus::CoverBanner,
        ProfileEditFocus::CoverBanner => ProfileEditFocus::CoverBannerDelete,
        ProfileEditFocus::CoverBannerDelete => ProfileEditFocus::Save,
        ProfileEditFocus::Save => ProfileEditFocus::Cancel,
        ProfileEditFocus::Cancel => ProfileEditFocus::Bio,
    }
}

fn prev_focus_of(f: ProfileEditFocus) -> (r: ProfileEditFocus)
    ensures
        r == prev_focus(f),
{
    match f {
        ProfileEditFocus::Bio => ProfileEditFocus::Cancel,
        ProfileEditFocus::Location => ProfileEditFocus::Bio,
        ProfileEditFocus::Url1 => ProfileEditFocus::Location,
        ProfileEditFocus::Url2 => ProfileEditFocus::Url1,
        ProfileEditFocus::Url3 => ProfileEditFocus::Url2,
        ProfileEditFocus::ProfilePic => ProfileEditFocus::Url3,
        ProfileEditFocus::ProfilePicDelete => ProfileEditFocus::ProfilePic,
        ProfileEditFocus::CoverBanner => ProfileEditFocus::ProfilePicDelete,
        ProfileEditFocus::CoverBannerDelete => ProfileEditFocus::CoverBanner,
        ProfileEditFocus::Save => ProfileEditFocus::CoverBannerDelete,
        ProfileEditFocus::Cancel => ProfileEditFocus::Save,
    }
}

/// The text of the error with which saving the edited profile is refused,
/// if it is.
pub open spec fn save_error(p: ProfileState) -> Option<Seq<char>> {
    if !profile_data_ok(p.edit_bio@, p.edit_url1@, p.edit_url2@, p.edit_url3@, p.edit_location@) {
        Some("Validation error: "@ + profile_data_error(p.edit_bio@, p.edit_url1@, p.edit_url2@, p.edit_url3@, p.edit_location@))
    } else if image_data_problem(p.edit_profile_pic@) is Some {
        Some("Image error: "@ + image_data_problem(p.edit_profile_pic@)->0)
    } else if image_data_problem(p.edit_cover_banner@) is Some {
        Some("Image error: "@ + image_data_problem(p.edit_cover_banner@)->0)
    } else {
        None
    }
}

/// The editor after `f` is applied to the text of the focused field (the
/// buttons have none).
pub open spec fn focused_edited(o: App, n: App, f: spec_fn(Seq<char>) -> Seq<char>) -> bool {
    let p = o.profile;
    match p.profile_edit_focus {
        ProfileEditFocus::Bio => n == (App { profile: ProfileState { edit_bio: n.profile.edit_bio, ..p }, ..o })
            && n.profile.edit_bio@ == f(p.edit_bio@),
        ProfileEditFocus::Url1 => n == (App { profile: ProfileState { edit_url1: n.profile.edit_url1, ..p }, ..o })
            && n.profile.edit_url1@ == f(p.edit_url1@),
        ProfileEditFocus::Url2 => n == (App { profile: ProfileState { edit_url2: n.profile.edit_url2, ..p }, ..o })
            && n.profile.edit_url2@ == f(p.edit_url2@),
        ProfileEditFocus::Url3 => n == (App { profile: ProfileState { edit_url3: n.profile.edit_url3, ..p }, ..o })
            && n.profile.edit_url3@ == f(p.edit_url3@),
        ProfileEditFocus::Location => n == (App { profile: ProfileState { edit_location: n.profile.edit_location, ..p }, ..o })
            && n.profile.edit_location@ == f(p.edit_location@),
        ProfileEditFocus::ProfilePic => n == (App { profile: ProfileState { edit_profile_pic: n.profile.edit_profile_pic, ..p }, ..o })
            && n.profile.edit_profile_pic@ == f(p.edit_profile_pic@),
        ProfileEditFocus::CoverBanner => n == (App { profile: ProfileState { edit_cover_banner: n.profile.edit_cover_banner, ..p }, ..o })
            && n.profile.edit_cover_banner@ == f(p.edit_cover_banner@),
        _ => n == o,
    }
}

/// A key of the profile editor: tab, back-tab and the arrows move the
/// focus; enter saves (a refusal shows its error in the editor with the
/// error sound), cancels, starts a new line of the bio, or empties an image
/// field; escape goes back to the settings; characters and backspace edit
/// the focused field. `pic_file` and `banner_file` are the contents of the
/// files that the image fields name, as `App::save_profile` takes them.
pub open spec fn profile_edit_key(o: App, n: App, key: KeyEvent, pic_file: Option<Seq<u8>>, banner_file: Option<Seq<u8>>) -> bool {
    let p = o.profile;
    match key.code {
        KeyCode::Tab | KeyCode::Down => n == (App { profile: ProfileState { profile_edit_focus: next_focus(p.profile_edit_focus), ..p }, ..o }),
        KeyCode::BackTab | KeyCode::Up => n == (App { profile: ProfileState { profile_edit_focus: prev_focus(p.profile_edit_focus), ..p }, ..o }),
        KeyCode::Enter => match p.profile_edit_focus {
            ProfileEditFocus::Save => match save_error(p) {
                Some(t) => {
                    &&& n == (App { profile: ProfileState { profile_edit_error: n.profile.profile_edit_error, ..p }, effects: n.effects, ..o })
                    &&& crate::app::opt_text(n.profile.profile_edit_error) == Some(t)
                    &&& queued(o, n, seq![Effect::Play(SoundType::Error)])
                },
                None => {
                    &&& n == (App { profile: ProfileState { profile_edit_error: None, ..p }, effects: n.effects, ..o })
                    &&& n.effects@.len() == o.effects@.len() + 1 && n.effects@.drop_last() == o.effects@
                    &&& n.effects@.last() matches Effect::Send(m) && profile_update(p, m, pic_file, banner_file)
                },
            },
            ProfileEditFocus::Cancel => n == (App { ui: UiState { mode: AppMode::Settings, ..o.ui }, ..o }),
            ProfileEditFocus::Bio => n == (App { profile: ProfileState { edit_bio: n.profile.edit_bio, ..p }, ..o })
                && n.profile.edit_bio@ == p.edit_bio@.push('\n'),
            ProfileEditFocus::ProfilePicDelete => n == (App {
                profile: ProfileState { edit_profile_pic: n.profile.edit_profile_pic, profile_edit_focus: ProfileEditFocus::ProfilePic, ..p },
                ..o
            }) && n.profile.edit_profile_pic@.len() == 0,
            ProfileEditFocus::CoverBannerDelete => n == (App {
                profile: ProfileState { edit_cover_banner: n.profile.edit_cover_banner, profile_edit_focus: ProfileEditFocus::CoverBanner, ..p },
                ..o
            }) && n.profile.edit_cover_banner@.len() == 0,
            _ => n == o,
        },
        KeyCode::Esc => n == (App { ui: UiState { mode: AppMode::Settings, ..o.ui }, ..o }),
        KeyCode::Char(c) => focused_edited(o, n, |s: Seq<char>| s.push(c)),
        KeyCode::Backspace => focused_edited(o, n, |s: Seq<char>| if s.len() > 0 { s.drop_last() } else { s }),
        _ => n == o,
    }
}

/// Whether the key saves the profile, so that the front end must read the
/// files that the image fields name before handing the key over.
pub fn key_saves_profile(key: KeyEvent, app: &App) -> (r: bool)
    ensures
        r == (app.ui.mode == AppMode::EditProfile && key.code == KeyCode::Enter
            && app.profile.profile_edit_focus == ProfileEditFocus::Save),
{
    app.ui.mode == AppMode::EditProfile && key.code == KeyCode::Enter && app.profile.profile_edit_focus == ProfileEditFocus::Save
}

/// Handles a key of the profile editor (see `profile_edit_key`).
pub fn handle_profile_edit_input(
    key: KeyEvent,
    app: &mut App,
    profile_pic_file: Option<Vec<u8>>,
    cover_banner_file: Option<Vec<u8>>,
)
    ensures
        profile_edit_key(*old(app), *final(app), key, opt_bytes(profile_pic_file), opt_bytes(cover_banner_file)),
{
    match key.code {
        KeyCode::Tab | KeyCode::Down => {
            app.profile.profile_edit_focus = next_focus_of(app.profile.profile_edit_focus);
        },
        KeyCode::BackTab | KeyCode::Up => {
            app.profile.profile_edit_focus = prev_focus_of(app.profile.profile_edit_focus);
        },
        KeyCode::Enter => match app.profile.profile_edit_focus {
            ProfileEditFocus::Save => {
                match app.save_profile(profile_pic_file, cover_banner_file) {
                    Err(e) => {
                        app.profile.profile_edit_error = Some(e.to_text());
                        app.play(SoundType::Error);
                    },
                    Ok(()) => {},
                }
            },
            ProfileEditFocus::Cancel => app.ui.set_mode(AppMode::Settings),
            ProfileEditFocus::Bio => push_char(&mut app.profile.edit_bio, '\n'),
            ProfileEditFocus::ProfilePicDelete => {
                app.profile.edit_profile_pic = String::new();
                app.profile.profile_edit_focus = ProfileEditFocus::ProfilePic;
            },
            ProfileEditFocus::CoverBannerDelete => {
                app.profile.edit_cover_banner = String::new();
                app.profile.profile_edit_focus = ProfileEditFocus::CoverBanner;
            },
            _ => {},
        },
        KeyCode::Esc => app.ui.set_mode(AppMode::Settings),
        KeyCode::Char(c) => match app.profile.profile_edit_focus {
            ProfileEditFocus::Bio => push_char(&mut app.profile.edit_bio, c),
            ProfileEditFocus::Url1 => push_char(&mut app.profile.edit_url1, c),
            ProfileEditFocus::Url2 => push_char(&mut app.profile.edit_url2, c),
            ProfileEditFocus::Url3 => push_char(&mut app.profile.edit_url3, c),
            ProfileEditFocus::Location => push_char(&mut app.profile.edit_location, c),
            ProfileEditFocus::ProfilePic => push_char(&mut app.profile.edit_profile_pic, c),
            ProfileEditFocus::CoverBanner => push_char(&mut app.profile.edit_cover_banner, c),
            _ => {},
        },
        KeyCode::Backspace => match app.profile.profile_edit_focus {
            ProfileEditFocus::Bio => pop_char(&mut app.profile.edit_bio),
            ProfileEditFocus::Url1 => pop_char(&mut app.profile.edit_url1),
            ProfileEditFocus::Url2 => pop_char(&mut app.profile.edit_url2),
            ProfileEditFocus::Url3 => pop_char(&mut app.profile.edit_url3),
            ProfileEditFocus::Location => pop_char(&mut app.profile.edit_location),
            ProfileEditFocus::ProfilePic => pop_char(&mut app.profile.edit_profile_pic),
            ProfileEditFocus::CoverBanner => pop_char(&mut app.profile.edit_cover_banner),
            _ => {},
        },
        _ => {},
    }
}

} // verus!
