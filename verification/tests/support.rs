use chrono::TimeZone;
use nexus_tui::appearance::{eq_ignore_ascii_case, BackgroundManager, ThemeManager};
use nexus_tui::avatar::{apply_circular_mask, mask_fits, RgbaPixels};
use nexus_tui::input::{KeyCode, KeyEvent, KeyModifiers};
use nexus_tui::model::{Color, User, UserRole, UserStatus};
use nexus_tui::services::chat::ChatService;
use nexus_tui::notify::{preview, preview_fits, safe_file_name, DesktopNotificationService, NotificationUrgency};
use nexus_tui::prefs::{global_prefs, global_prefs_mut, init_global_prefs, GlobalPrefs, GlobalPrefsCell};
use nexus_tui::text::{dedup_string_vec, sort_string_vec, trim_chars};
use nexus_tui::time_format::{
    clock_string, decimal_string, format_date_delimiter, format_date_delimiter_with,
    format_message_timestamp, format_timestamp_with, short_date_string, signed_decimal_string,
    timestamp_in_range, LocalTime,
};

fn strings(v: &[&str]) -> Vec<String> {
    v.iter().map(|s| s.to_string()).collect()
}

// ---------------------------------------------------------------------
// Time texts
// ---------------------------------------------------------------------

#[test]
fn decimal_texts() {
    assert_eq!(decimal_string(0), "0");
    assert_eq!(decimal_string(907), "907");
    assert_eq!(decimal_string(u64::MAX), "18446744073709551615");
    assert_eq!(signed_decimal_string(-42), "-42");
    assert_eq!(signed_decimal_string(i64::MIN), "-9223372036854775808");
}

fn june_16(days: i32, hour: u32, minute: u32) -> LocalTime {
    LocalTime {
        days,
        year: 2025,
        month: 6,
        day: 16,
        hour,
        minute,
        second: 0,
        offset: 0,
        month_name: "June".to_string(),
    }
}

#[test]
fn relative_timestamps() {
    let t = Some(june_16(100, 20, 30));
    assert_eq!(format_timestamp_with(1000, 1000, &t, 100), "just now");
    assert_eq!(format_timestamp_with(1000, 1059, &t, 100), "just now");
    assert_eq!(format_timestamp_with(1000, 1060, &t, 100), "1 minute ago");
    assert_eq!(format_timestamp_with(1000, 1119, &t, 100), "1 minute ago");
    assert_eq!(format_timestamp_with(1000, 1120, &t, 100), "2 minutes ago");
    assert_eq!(format_timestamp_with(1000, 1299, &t, 100), "4 minutes ago");
    assert_eq!(format_timestamp_with(5000, 10, &t, 100), "just now");
    assert_eq!(format_timestamp_with(0, 10, &None, 100), "unknown");
}

#[test]
fn clock_and_date_timestamps() {
    let evening = Some(june_16(100, 21, 39));
    assert_eq!(format_timestamp_with(0, 300, &evening, 100), "9:39 PM");
    assert_eq!(format_timestamp_with(0, 300, &evening, 101), "Yesterday, 9:39 PM");
    assert_eq!(format_timestamp_with(0, 300, &evening, 102), "6/16/25, 9:39 PM");
    let morning = Some(june_16(100, 8, 30));
    assert_eq!(format_timestamp_with(0, 9999, &morning, 130), "6/16/25, 8:30 AM");
    assert_eq!(format_timestamp_with(0, 9999, &Some(june_16(7, 0, 5)), 7), "12:05 AM");
    assert_eq!(format_timestamp_with(0, 9999, &Some(june_16(7, 12, 0)), 7), "12:00 PM");
    let mut old = june_16(7, 23, 59);
    old.year = 2005;
    old.month = 1;
    old.day = 2;
    assert_eq!(format_timestamp_with(0, 9999, &Some(old), 9), "1/2/05, 11:59 PM");
    assert_eq!(clock_string(13, 7), "1:07 PM");
    assert_eq!(short_date_string(12, 31, -1), "12/31/99");
}

#[test]
fn date_delimiters() {
    assert_eq!(format_date_delimiter_with("June", 16, 2025), "June 16th, 2025");
    assert_eq!(format_date_delimiter_with("May", 1, 2024), "May 1st, 2024");
    assert_eq!(format_date_delimiter_with("May", 21, 2024), "May 21st, 2024");
    assert_eq!(format_date_delimiter_with("May", 31, 2024), "May 31st, 2024");
    assert_eq!(format_date_delimiter_with("May", 2, 2024), "May 2nd, 2024");
    assert_eq!(format_date_delimiter_with("May", 22, 2024), "May 22nd, 2024");
    assert_eq!(format_date_delimiter_with("May", 3, 2024), "May 3rd, 2024");
    assert_eq!(format_date_delimiter_with("May", 23, 2024), "May 23rd, 2024");
    assert_eq!(format_date_delimiter_with("May", 11, 2024), "May 11th, 2024");
    assert_eq!(format_date_delimiter_with("May", 12, -44), "May 12th, -44");
}

#[test]
fn local_dates() {
    let ts = 1_700_000_000;
    let day = format_date_delimiter(ts);
    assert!(day == "November 14th, 2023" || day == "November 15th, 2023", "{}", day);
    assert_eq!(format_date_delimiter(i64::MAX), "?");
    assert_eq!(format_message_timestamp(ts, ts + 30), "just now");
    assert_eq!(format_message_timestamp(ts, ts + 120), "2 minutes ago");
    assert_eq!(format_message_timestamp(i64::MIN, ts), "unknown");
    let old = format_message_timestamp(ts, ts + 8 * 86400);
    assert!(old.starts_with("11/14/23, ") || old.starts_with("11/15/23, "), "{}", old);
    assert!(old.ends_with(" AM") || old.ends_with(" PM"), "{}", old);
    assert!(timestamp_in_range(ts));
    assert!(!timestamp_in_range(i64::MAX));
}

// ---------------------------------------------------------------------
// Desktop notifications
// ---------------------------------------------------------------------

#[test]
fn previews_cut_long_text() {
    let short = "a".repeat(100);
    assert_eq!(preview(&short), short);
    let long = "a".repeat(150);
    let p = preview(&long);
    assert_eq!(p, format!("{}...", "a".repeat(97)));
    assert_eq!(p.len(), 100);
    assert!(preview_fits(&long));
    let awkward = format!("{}é{}", "a".repeat(96), "b".repeat(10));
    assert!(!preview_fits(&awkward));
}

#[test]
fn notification_kinds() {
    let n = DesktopNotificationService::show_info_notification("saved");
    assert_eq!(n.title, "Nexus");
    assert_eq!(n.message, "saved");
    assert_eq!(n.urgency, NotificationUrgency::Low);
    let e = DesktopNotificationService::show_error_notification("oops");
    assert_eq!(e.title, "Nexus - Error");
    assert_eq!(e.urgency, NotificationUrgency::Critical);
    let i = DesktopNotificationService::show_server_invite_notification("ann", "Den");
    assert_eq!(i.title, "Server Invite Received");
    assert_eq!(i.message, "ann invited you to join 'Den'");
    let m = DesktopNotificationService::show_mention_notification("ann", "hi @me", Some("data:p"));
    assert_eq!(m.title, "Mentioned by ann");
    assert_eq!(m.message, "hi @me");
    assert_eq!(m.icon_picture, Some(("data:p".to_string(), "ann".to_string())));
    let pic = "data:q".to_string();
    let d = DesktopNotificationService::show_dm_notification("bob", &"z".repeat(120), Some(&pic));
    assert_eq!(d.title, "bob");
    assert_eq!(d.message, format!("{}...", "z".repeat(97)));
    assert_eq!(d.urgency, NotificationUrgency::Normal);
    assert_eq!(d.icon_picture, Some(("data:q".to_string(), "bob".to_string())));
    let plain = DesktopNotificationService::show_notification("t", "m", NotificationUrgency::Normal);
    assert!(plain.icon_path.is_none() && plain.icon_picture.is_none());
    let with_icon = DesktopNotificationService::show_notification_with_icon(
        "t",
        "m",
        NotificationUrgency::Low,
        Some("/tmp/i.png".to_string()),
    );
    assert_eq!(with_icon.icon_path, Some("/tmp/i.png".to_string()));
}

// ---------------------------------------------------------------------
// Themes, backgrounds, preferences
// ---------------------------------------------------------------------

#[test]
fn themes_cycle_and_select_by_name() {
    let mut t = ThemeManager::new();
    assert_eq!(t.get_theme_name(), "Cyberpunk");
    t.cycle_theme();
    assert_eq!(t.get_theme_name(), "Minimal");
    t.cycle_theme();
    assert_eq!(t.current_index, 0);
    t.set_theme_by_name("MINIMAL");
    assert_eq!(t.current_index, 1);
    t.set_theme_by_name("unknown");
    assert_eq!(t.current_index, 1);
    for name in ["Cyberpunk", "Minimal"] {
        t.set_theme_by_name(name);
        assert_eq!(t.get_theme_name(), name);
    }
}

#[test]
fn backgrounds_cycle_and_select_by_name() {
    let mut b = BackgroundManager::new();
    assert_eq!(b.get_background_name(), "Minimal");
    for _ in 0..13 {
        b.cycle_background();
    }
    assert_eq!(b.current_index, 0);
    b.set_background_by_name("matrixrain");
    assert_eq!(b.get_background_name(), "MatrixRain");
    b.current_index = 40;
    assert_eq!(b.get_background_name(), "None");
    let names = [
        "Minimal", "Cyberpunk", "CyberGrid", "FractalGrid", "Geometry", "Geometry2", "HackerGlyphs",
        "MatrixRain", "NeonTunnel", "PlasmaWave", "PulseCircuit", "WireframeEarth", "None",
    ];
    for (i, name) in names.iter().enumerate() {
        b.set_background_by_name(name);
        assert_eq!(b.current_index, i);
    }
}

#[test]
fn ascii_case_insensitive_equality() {
    assert!(eq_ignore_ascii_case("HeLLo", "hello"));
    assert!(!eq_ignore_ascii_case("hello", "hell"));
    assert!(!eq_ignore_ascii_case("É", "é"));
}

#[test]
fn preferences_cell() {
    let d = GlobalPrefs::default_prefs();
    assert!(d.sound_effects_enabled && d.minimal_banner_glitch_enabled && d.desktop_notifications_enabled);
    let custom = GlobalPrefs {
        sound_effects_enabled: false,
        minimal_banner_glitch_enabled: true,
        desktop_notifications_enabled: false,
    };
    assert_eq!(GlobalPrefs::load(Some(custom)), custom);
    assert_eq!(GlobalPrefs::load(None), d);
    let mut cell = GlobalPrefsCell::new();
    assert!(!cell.is_initialized());
    init_global_prefs(&mut cell, custom);
    assert_eq!(*global_prefs(&cell), custom);
    global_prefs_mut(&mut cell).sound_effects_enabled = true;
    assert!(global_prefs(&cell).sound_effects_enabled);
}

#[test]
fn preferences_read_after_init() {
    let loaded = GlobalPrefs {
        sound_effects_enabled: true,
        minimal_banner_glitch_enabled: false,
        desktop_notifications_enabled: false,
    };
    let mut cell = GlobalPrefsCell::new();
    init_global_prefs(&mut cell, loaded);
    assert_eq!(*global_prefs(&cell), loaded);
    init_global_prefs(&mut cell, GlobalPrefs::default_prefs());
    assert_eq!(*global_prefs(&cell), loaded);
}

// ---------------------------------------------------------------------
// Avatars, keys, text helpers
// ---------------------------------------------------------------------

#[test]
fn circular_mask_clears_corners_only() {
    let (w, h) = (4u32, 4u32);
    let mut img = RgbaPixels { width: w, height: h, data: vec![255u8; (4 * w * h) as usize] };
    apply_circular_mask(&mut img);
    let alpha = |x: usize, y: usize, img: &RgbaPixels| img.data[(y * 4 + x) * 4 + 3];
    assert_eq!(alpha(0, 0, &img), 0);
    assert_eq!(alpha(2, 2, &img), 255);
    assert_eq!(alpha(2, 0, &img), 255);
    assert_eq!(img.data[0], 255);
    let once = img.data.clone();
    apply_circular_mask(&mut img);
    assert_eq!(img.data, once);
}

#[test]
fn circular_mask_of_a_wide_image() {
    // 70000 x 1: the circle has diameter 1, so only the centre pixel stays
    let w = 70000u32;
    let mut img = RgbaPixels { width: w, height: 1, data: vec![255u8; 4 * w as usize] };
    assert!(mask_fits(w, 1));
    apply_circular_mask(&mut img);
    let alpha = |x: usize| img.data[x * 4 + 3];
    assert_eq!(alpha(35000), 255);
    assert_eq!(alpha(34999), 0);
    assert_eq!(alpha(35001), 0);
    assert_eq!(alpha(0), 0);
    assert_eq!(alpha(69999), 0);
    assert_eq!(img.data[0], 255);
    assert!(!mask_fits(100000, 100000));
    assert!(mask_fits(0, 4_000_000_000));
}

#[test]
fn key_events() {
    let k = KeyEvent::new(KeyCode::Char('x'));
    assert!(!k.control_only());
    let mut m = KeyModifiers::none();
    m.control = true;
    assert!(KeyEvent::with_modifiers(KeyCode::Char('x'), m).control_only());
    m.shift = true;
    assert!(!KeyEvent::with_modifiers(KeyCode::Char('x'), m).control_only());
}

#[test]
fn sorting_and_dedup_of_strings() {
    let v = strings(&["pear", "apple", "Zoo", "apple", "pea"]);
    let sorted = sort_string_vec(&v);
    assert_eq!(sorted, strings(&["Zoo", "apple", "apple", "pea", "pear"]));
    assert_eq!(dedup_string_vec(&sorted), strings(&["Zoo", "apple", "pea", "pear"]));
    assert!(sort_string_vec(&Vec::new()).is_empty());
}

#[test]
fn mentions_match_unicode_names_ignoring_case() {
    let users = vec![User {
        id: 1,
        username: "ÄbC".to_string(),
        color: Color::Red,
        role: UserRole::User,
        profile_pic: None,
        cover_banner: None,
        status: UserStatus::Away,
    }];
    assert_eq!(ChatService::get_mention_suggestions("hi @äB", &users), vec!["ÄbC".to_string()]);
    assert!(ChatService::get_mention_suggestions("hi @äx", &users).is_empty());
}

#[test]
fn whitespace_list_matches_std() {
    for u in 0u32..0x3100 {
        if let Some(c) = char::from_u32(u) {
            let trimmed = trim_chars(&vec![c]);
            assert_eq!(trimmed.is_empty(), c.is_whitespace(), "{:#x}", u);
        }
    }
}

#[test]
fn icon_file_names_keep_safe_characters() {
    assert_eq!(safe_file_name("jo.hn/../x_y"), "johnx_y");
    assert_eq!(safe_file_name("Zoë 42"), "Zoë42");
    assert_eq!(safe_file_name("abcdefghij_klmnopqrstuvwxyz"), "abcdefghij_klmnopqrs");
    assert_eq!(safe_file_name("../"), "");
}

#[test]
fn local_times_agree_with_chrono() {
    for ts in [1_700_000_000i64, 1_750_062_600, 951_782_400, 0, -86_400 * 365 * 50] {
        let dt = chrono::Local.timestamp_opt(ts, 0).single().unwrap();
        let clock = dt.format("%-I:%M %p").to_string();
        let same_day = format_message_timestamp(ts, ts + 300);
        let later = format_message_timestamp(ts, ts + 400 * 86400);
        let date = dt.format("%-m/%-d/%y").to_string();
        assert!(same_day == clock || same_day == format!("Yesterday, {}", clock), "{} {}", same_day, clock);
        assert_eq!(later, format!("{}, {}", date, clock));
        let day = format_date_delimiter(ts);
        assert!(day.starts_with(&dt.format("%B %-d").to_string()), "{}", day);
        assert!(day.ends_with(&format!(", {}", dt.format("%Y"))), "{}", day);
    }
}
