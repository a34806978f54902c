use nexus_tui::error::AppError;
use nexus_tui::model::{ChannelMessage, Color, DirectMessage, User, UserRole, UserStatus};
use nexus_tui::services::chat::{fallback_name_of, find_exact_emoji, ChatService};
use nexus_tui::services::image::{
    CachedImage, ImageCache, ImageCacheConfig, ImageCacheKey, ImageFormat, ImageService,
};
use nexus_tui::services::message::MessageService;
use nexus_tui::services::profile::ProfileService;
use nexus_tui::state::chat::{ChatState, ChatTarget};

const PNG_1X1: &str = "iVBORw0KGgoAAAANSUhEUgAAAAEAAAABCAYAAAAfFcSJAAAADUlEQVR42mNkYPhfDwAChwGA60e6kgAAAABJRU5ErkJggg==";

fn user(id: u128, name: &str, pic: Option<&str>) -> User {
    User {
        id,
        username: name.to_string(),
        color: Color::Cyan,
        role: UserRole::User,
        profile_pic: pic.map(|p| p.to_string()),
        cover_banner: None,
        status: UserStatus::Connected,
    }
}

fn image(bytes: Vec<u8>, ttl: u64, now: u64) -> CachedImage {
    CachedImage::new_at(bytes, ImageFormat::Png, Some(ttl), now)
}

fn small_config(max_entries: usize, max_mb: usize) -> ImageCacheConfig {
    ImageCacheConfig {
        max_cache_size_mb: max_mb,
        max_entries,
        default_ttl_seconds: 3600,
        cleanup_interval_seconds: 300,
    }
}

// ---------------------------------------------------------------------
// Messages
// ---------------------------------------------------------------------

#[test]
fn validate_message_trims() {
    assert_eq!(MessageService::validate_message("  hello  "), Ok("hello".to_string()));
}

#[test]
fn validate_message_empty() {
    assert_eq!(MessageService::validate_message(""), Err("Message cannot be empty".to_string()));
    assert_eq!(MessageService::validate_message(" \t\n "), Err("Message cannot be empty".to_string()));
}

#[test]
fn validate_message_length_limit_in_bytes() {
    let ok = "a".repeat(2000);
    assert_eq!(MessageService::validate_message(&ok), Ok(ok.clone()));
    let long = "a".repeat(2001);
    assert_eq!(
        MessageService::validate_message(&long),
        Err("Message too long (max 2000 characters)".to_string())
    );
    let wide_ok = "é".repeat(1000);
    assert!(MessageService::validate_message(&wide_ok).is_ok());
    let wide_long = "é".repeat(1001);
    assert!(MessageService::validate_message(&wide_long).is_err());
}

#[test]
fn validated_message_validates_to_itself() {
    let first = MessageService::validate_message("\t  keep me \n").unwrap();
    let second = MessageService::validate_message(&first).unwrap();
    assert_eq!(first, second);
}

#[test]
fn parse_command_with_arguments() {
    let (cmd, args) = MessageService::parse_command("  /Accept now  please ").unwrap();
    assert_eq!(cmd, "accept");
    assert_eq!(args, vec!["now".to_string(), "please".to_string()]);
}

#[test]
fn parse_command_rejects_plain_text_and_bare_slash() {
    assert_eq!(MessageService::parse_command("hello"), None);
    assert_eq!(MessageService::parse_command("/"), None);
    assert_eq!(MessageService::parse_command("/   "), None);
    assert_eq!(MessageService::parse_command(""), None);
}

#[test]
fn parse_command_without_arguments() {
    let (cmd, args) = MessageService::parse_command("/DECLINE").unwrap();
    assert_eq!(cmd, "decline");
    assert!(args.is_empty());
}

#[test]
fn extract_mentions_in_order() {
    assert_eq!(
        MessageService::extract_mentions("hi @alice and @bob_2! mail@x"),
        vec!["alice".to_string(), "bob_2".to_string(), "x".to_string()]
    );
    assert!(MessageService::extract_mentions("no one @ here").is_empty());
}

// ---------------------------------------------------------------------
// Profiles
// ---------------------------------------------------------------------

#[test]
fn profile_data_accepted() {
    assert_eq!(
        ProfileService::validate_profile_data("bio", "", "https://a.b", "http://c.d", "Paris"),
        Ok(())
    );
}

#[test]
fn profile_data_errors_in_order() {
    let long_bio = "b".repeat(501);
    assert_eq!(
        ProfileService::validate_profile_data(&long_bio, "ftp://x", "", "", ""),
        Err("Bio must be 500 characters or less".to_string())
    );
    assert_eq!(
        ProfileService::validate_profile_data("", "ftp://x", "", "", ""),
        Err("URL1 is not valid".to_string())
    );
    assert_eq!(
        ProfileService::validate_profile_data("", "", "www.x", "", ""),
        Err("URL2 is not valid".to_string())
    );
    assert_eq!(
        ProfileService::validate_profile_data("", "", "", "x", ""),
        Err("URL3 is not valid".to_string())
    );
    let long_loc = "l".repeat(101);
    assert_eq!(
        ProfileService::validate_profile_data("", "", "", "", &long_loc),
        Err("Location must be 100 characters or less".to_string())
    );
    let bio_500 = "b".repeat(500);
    let loc_100 = "l".repeat(100);
    assert_eq!(ProfileService::validate_profile_data(&bio_500, "", "", "", &loc_100), Ok(()));
}

#[test]
fn url_validity() {
    assert!(ProfileService::is_valid_url("http://example.com"));
    assert!(ProfileService::is_valid_url("https://example.com"));
    assert!(!ProfileService::is_valid_url("https:/example.com"));
    assert!(!ProfileService::is_valid_url(""));
}

#[test]
fn file_candidate_cases() {
    assert_eq!(ProfileService::file_candidate("  pic.png "), Some("pic.png".to_string()));
    assert_eq!(ProfileService::file_candidate("data:image/png;base64,AQID"), None);
    assert_eq!(ProfileService::file_candidate("http://x/y.png"), None);
    assert_eq!(ProfileService::file_candidate("   "), None);
}

#[test]
fn image_field_values() {
    assert_eq!(ProfileService::file_or_url_to_base64("", None), None);
    assert_eq!(
        ProfileService::file_or_url_to_base64(" data:image/png;base64,AQID ", None),
        Some("data:image/png;base64,AQID".to_string())
    );
    assert_eq!(
        ProfileService::file_or_url_to_base64("https://x/y.png", None),
        Some("https://x/y.png".to_string())
    );
    assert_eq!(
        ProfileService::file_or_url_to_base64("pic.png", Some(vec![1, 2, 3])),
        Some("data:image/png;base64,AQID".to_string())
    );
    assert_eq!(ProfileService::file_or_url_to_base64("pic.png", Some(vec![0u8; 1048577])), None);
    assert_eq!(ProfileService::file_or_url_to_base64("AQID", None), Some("AQID".to_string()));
    assert_eq!(ProfileService::file_or_url_to_base64("not base64!", None), None);
}

// ---------------------------------------------------------------------
// Image data
// ---------------------------------------------------------------------

#[test]
fn decode_image_bytes_cases() {
    assert_eq!(
        ImageService::decode_image_bytes(&Some("data:image/png;base64,AQID".to_string())),
        Some(vec![1, 2, 3])
    );
    assert_eq!(ImageService::decode_image_bytes(&Some("AQID".to_string())), Some(vec![1, 2, 3]));
    assert_eq!(ImageService::decode_image_bytes(&Some("http://x".to_string())), None);
    assert_eq!(ImageService::decode_image_bytes(&Some("%%%".to_string())), None);
    assert_eq!(ImageService::decode_image_bytes(&None), None);
}

#[test]
fn validate_image_data_cases() {
    assert!(ImageService::validate_image_data("").is_ok());
    assert!(ImageService::validate_image_data("   ").is_ok());
    assert!(ImageService::validate_image_data(PNG_1X1).is_ok());
    let with_header = format!("data:image/png;base64,{}", PNG_1X1);
    assert!(ImageService::validate_image_data(&with_header).is_ok());
    match ImageService::validate_image_data("%%%") {
        Err(AppError::Image(m)) => assert_eq!(m, "Failed to decode image data"),
        other => panic!("unexpected {:?}", other),
    }
    match ImageService::validate_image_data("AQID") {
        Err(AppError::Image(m)) => assert!(m.starts_with("Invalid image data: ")),
        other => panic!("unexpected {:?}", other),
    }
}

#[test]
fn detect_formats_from_signatures() {
    assert!(matches!(ImageFormat::detect_from_data(&[0x89, 0x50, 0x4E, 0x47, 0]), ImageFormat::Png));
    assert!(matches!(ImageFormat::detect_from_data(&[0xFF, 0xD8, 0xFF]), ImageFormat::Jpeg));
    assert!(matches!(ImageFormat::detect_from_data(b"GIF89a"), ImageFormat::Gif));
    assert!(matches!(ImageFormat::detect_from_data(b"RIFF\0\0\0\0WEBPVP8 "), ImageFormat::WebP));
    assert!(matches!(ImageFormat::detect_from_data(&[1, 2]), ImageFormat::Png));
    assert!(matches!(ImageFormat::detect_from_data(&[]), ImageFormat::Png));
}

#[test]
fn data_url_formats() {
    match ImageFormat::from_base64_data_url("data:image/jpeg;base64,AQID") {
        Some((ImageFormat::Jpeg, d)) => assert_eq!(d, vec![1, 2, 3]),
        other => panic!("unexpected {:?}", other),
    }
    match ImageFormat::from_base64_data_url("data:image/jpg;base64,AQID") {
        Some((ImageFormat::Jpeg, _)) => {}
        other => panic!("unexpected {:?}", other),
    }
    match ImageFormat::from_base64_data_url("data:image/gif;base64,AQID") {
        Some((ImageFormat::Gif, _)) => {}
        other => panic!("unexpected {:?}", other),
    }
    match ImageFormat::from_base64_data_url("data:image/webp;base64,AQID") {
        Some((ImageFormat::WebP, _)) => {}
        other => panic!("unexpected {:?}", other),
    }
    match ImageFormat::from_base64_data_url("data:text/plain;base64,AQID") {
        Some((ImageFormat::Base64(h), _)) => assert_eq!(h, "data:text/plain;base64"),
        other => panic!("unexpected {:?}", other),
    }
    assert!(ImageFormat::from_base64_data_url("no comma here").is_none());
    assert!(ImageFormat::from_base64_data_url("data:image/png;base64,%%%").is_none());
}

// ---------------------------------------------------------------------
// Cached images and the cache
// ---------------------------------------------------------------------

#[test]
fn cached_image_expiry_and_touch() {
    let mut img = image(vec![1, 2, 3, 4], 10, 100);
    assert_eq!(img.size_bytes, 4);
    assert_eq!(img.access_count, 0);
    assert_eq!(img.last_accessed, 100);
    assert!(!img.is_expired_at(110));
    assert!(img.is_expired_at(111));
    img.touch_at(105);
    assert_eq!(img.access_count, 1);
    assert_eq!(img.last_accessed, 105);
    let default_ttl = CachedImage::new_at(vec![], ImageFormat::Gif, None, 0);
    assert_eq!(default_ttl.ttl_seconds, 3600);
}

#[test]
fn cache_put_then_get_returns_the_image() {
    let mut cache = ImageCache::with_default_config();
    let key = ImageCacheKey::user_avatar(7);
    cache.put(key.duplicate(), image(vec![9, 9], 60, 1000)).unwrap();
    let got = cache.get_at(&key, 1030).unwrap().unwrap();
    assert_eq!(got.data, vec![9, 9]);
    assert_eq!(got.access_count, 1);
    assert_eq!(got.last_accessed, 1030);
    let again = cache.get_at(&key, 1040).unwrap().unwrap();
    assert_eq!(again.access_count, 2);
}

#[test]
fn cache_get_of_expired_image_drops_it() {
    let mut cache = ImageCache::with_default_config();
    let key = ImageCacheKey::server_icon(1);
    cache.put(key.duplicate(), image(vec![1, 2, 3], 10, 0)).unwrap();
    assert!(cache.contains_key_at(&key, 10));
    assert!(!cache.contains_key_at(&key, 11));
    assert!(cache.get_at(&key, 11).unwrap().is_none());
    let st = cache.stats_at(0).unwrap();
    assert_eq!(st.total_entries, 0);
    assert_eq!(st.total_size_bytes, 0);
}

#[test]
fn cache_remove_and_clear() {
    let mut cache = ImageCache::with_default_config();
    let a = ImageCacheKey::custom("a".to_string());
    let b = ImageCacheKey::user_cover_banner(2);
    cache.put(a.duplicate(), image(vec![1], 100, 0)).unwrap();
    cache.put(b.duplicate(), image(vec![1, 2], 100, 0)).unwrap();
    let removed = cache.remove(&a).unwrap().unwrap();
    assert_eq!(removed.data, vec![1]);
    assert!(cache.get_at(&a, 1).unwrap().is_none());
    assert!(cache.remove(&a).unwrap().is_none());
    assert_eq!(cache.stats_at(1).unwrap().total_size_bytes, 2);
    cache.clear().unwrap();
    let st = cache.stats_at(1).unwrap();
    assert_eq!(st.total_entries, 0);
    assert_eq!(st.total_size_bytes, 0);
}

#[test]
fn cache_evicts_least_recently_used() {
    let mut cache = ImageCache::new(small_config(2, 100));
    let a = ImageCacheKey::user_avatar(1);
    let b = ImageCacheKey::user_avatar(2);
    let c = ImageCacheKey::user_avatar(3);
    cache.put(a.duplicate(), image(vec![1], 1000, 10)).unwrap();
    cache.put(b.duplicate(), image(vec![2], 1000, 20)).unwrap();
    // touching `a` makes `b` the least recently used
    assert!(cache.get_at(&a, 30).unwrap().is_some());
    cache.put(c.duplicate(), image(vec![3], 1000, 40)).unwrap();
    assert!(cache.contains_key_at(&a, 50));
    assert!(!cache.contains_key_at(&b, 50));
    assert!(cache.contains_key_at(&c, 50));
    assert_eq!(cache.stats_at(50).unwrap().total_entries, 2);
}

#[test]
fn cache_byte_count_tracks_stored_sizes() {
    // three images of 3, 5 and 7 bytes with room for two: the count is the
    // sum of the sizes held after every store
    let mut cache = ImageCache::new(small_config(2, 100));
    cache.put(ImageCacheKey::user_avatar(1), image(vec![0; 3], 1000, 1)).unwrap();
    assert_eq!(cache.stats_at(1).unwrap().total_size_bytes, 3);
    cache.put(ImageCacheKey::user_avatar(2), image(vec![0; 5], 1000, 2)).unwrap();
    assert_eq!(cache.stats_at(2).unwrap().total_size_bytes, 8);
    cache.put(ImageCacheKey::user_avatar(3), image(vec![0; 7], 1000, 3)).unwrap();
    assert!(!cache.contains_key_at(&ImageCacheKey::user_avatar(1), 3));
    assert_eq!(cache.stats_at(3).unwrap().total_size_bytes, 12);
    assert_eq!(cache.stats_at(3).unwrap().total_entries, 2);
}

#[test]
fn cache_size_limit_evicts_everything_for_an_oversized_image() {
    let mut cache = ImageCache::new(small_config(10, 0));
    let a = ImageCacheKey::user_avatar(1);
    let b = ImageCacheKey::user_avatar(2);
    cache.put(a.duplicate(), image(vec![1, 2], 1000, 0)).unwrap();
    cache.put(b.duplicate(), image(vec![3], 1000, 1)).unwrap();
    assert!(!cache.contains_key_at(&a, 2));
    assert!(cache.contains_key_at(&b, 2));
    assert_eq!(cache.stats_at(2).unwrap().total_entries, 1);
}

#[test]
fn cache_stats_and_cleanup() {
    let mut cache = ImageCache::with_default_config();
    cache.put(ImageCacheKey::user_avatar(1), image(vec![1, 2], 10, 0)).unwrap();
    cache.put(ImageCacheKey::user_avatar(2), image(vec![3], 1000, 0)).unwrap();
    cache.put(ImageCacheKey::custom("x".to_string()), image(vec![4, 5, 6], 5, 0)).unwrap();
    assert!(cache.get_at(&ImageCacheKey::user_avatar(2), 3).unwrap().is_some());
    let st = cache.stats_at(20).unwrap();
    assert_eq!(st.total_entries, 3);
    assert_eq!(st.total_size_bytes, 6);
    assert_eq!(st.expired_entries, 2);
    assert_eq!(st.total_access_count, 1);
    assert_eq!(cache.cleanup_expired_at(20).unwrap(), 2);
    let after = cache.stats_at(20).unwrap();
    assert_eq!(after.total_entries, 1);
    assert_eq!(after.total_size_bytes, 1);
    assert_eq!(after.expired_entries, 0);
    assert_eq!(cache.cleanup_expired_at(20).unwrap(), 0);
}

#[test]
fn cache_keys_compare_by_kind_and_value() {
    assert!(ImageCacheKey::user_avatar(1).same_key(&ImageCacheKey::user_avatar(1)));
    assert!(!ImageCacheKey::user_avatar(1).same_key(&ImageCacheKey::user_cover_banner(1)));
    assert!(!ImageCacheKey::server_icon(1).same_key(&ImageCacheKey::server_banner(1)));
    assert!(ImageCacheKey::custom("k".to_string()).same_key(&ImageCacheKey::custom("k".to_string())));
}

#[test]
fn cache_data_url_processing() {
    let mut cache = ImageCache::with_default_config();
    let key = ImageCacheKey::server_banner(5);
    let img = cache
        .process_and_cache_base64_at(key.duplicate(), "data:image/gif;base64,AQID", Some(50), 7)
        .unwrap();
    assert_eq!(img.data, vec![1, 2, 3]);
    assert!(matches!(img.format, ImageFormat::Gif));
    assert_eq!(img.timestamp_cached, 7);
    assert!(cache.contains_key_at(&key, 57));
    assert_eq!(
        cache.process_and_cache_base64_at(ImageCacheKey::user_avatar(1), "AQID", None, 7).err(),
        Some("Invalid base64 image data".to_string())
    );
}

#[test]
fn default_cache_config() {
    let c = ImageCacheConfig::default_config();
    assert_eq!(c.max_cache_size_mb, 100);
    assert_eq!(c.max_entries, 1000);
    assert_eq!(c.default_ttl_seconds, 3600);
    assert_eq!(c.cleanup_interval_seconds, 300);
}

// ---------------------------------------------------------------------
// Chat service
// ---------------------------------------------------------------------

#[test]
fn mention_suggestions_sorted_and_case_insensitive() {
    let users = vec![user(1, "bob", None), user(2, "Alice", None), user(3, "alex", None), user(4, "carl", None)];
    assert_eq!(
        ChatService::get_mention_suggestions("hello @al", &users),
        vec!["Alice".to_string(), "alex".to_string()]
    );
    assert!(ChatService::get_mention_suggestions("hello @", &users).is_empty());
    assert!(ChatService::get_mention_suggestions("hello", &users).is_empty());
    assert!(ChatService::get_mention_suggestions("@al ", &users).is_empty());
}

#[test]
fn apply_mention_replaces_last_occurrence() {
    assert_eq!(ChatService::apply_mention_suggestion("hi @al", "alice", "al"), "hi @alice ");
    assert_eq!(ChatService::apply_mention_suggestion("@al and @al", "alex", "al"), "@al and @alex ");
    assert_eq!(ChatService::apply_mention_suggestion("nothing", "alice", "al"), "nothing");
}

#[test]
fn emoji_suggestions_are_sorted_distinct_and_few() {
    let s = ChatService::get_emoji_suggestions("I am :smile");
    assert!(!s.is_empty());
    assert!(s.len() <= 10);
    assert!(s.contains(&"😄".to_string()));
    for w in s.windows(2) {
        assert!(w[0] < w[1]);
    }
    let many = ChatService::get_emoji_suggestions(":s");
    assert_eq!(many.len(), 10);
    assert!(ChatService::get_emoji_suggestions("no colon").is_empty());
    assert!(ChatService::get_emoji_suggestions("a :sm1").is_empty());
}

#[test]
fn apply_emoji_replaces_shortcode() {
    assert_eq!(ChatService::apply_emoji_suggestion("great :smi", "😄", "smi"), "great 😄 ");
}

#[test]
fn exact_emoji_match_spans() {
    assert_eq!(
        ChatService::check_for_exact_emoji_match("hey :smile: there"),
        Some(("😄".to_string(), 4, 11))
    );
    assert_eq!(
        ChatService::check_for_exact_emoji_match("é :+1:"),
        Some(("👍".to_string(), 3, 7))
    );
    let (_, ca, cb, ba, bb) = find_exact_emoji("é :+1:").unwrap();
    assert_eq!((ca, cb, ba, bb), (2, 6, 3, 7));
    assert_eq!(ChatService::check_for_exact_emoji_match("no :nosuchemojiname: here"), None);
    assert_eq!(ChatService::check_for_exact_emoji_match("plain"), None);
    assert_eq!(
        ChatService::check_for_exact_emoji_match("a :zz_q: :smile:"),
        Some(("😄".to_string(), 9, 16))
    );
    assert_eq!(
        ChatService::check_for_exact_emoji_match(":nosuchemojiname:smile:"),
        Some(("😄".to_string(), 16, 23))
    );
    assert_eq!(ChatService::check_for_exact_emoji_match("hi :smile: x"), Some(("😄".to_string(), 3, 10)));
    assert_eq!(ChatService::check_for_exact_emoji_match("no code"), None);
}

#[test]
fn fallback_names() {
    assert_eq!(fallback_name_of(0x0123_4567_89ab_cdef_0000_0000_0000_0000), "User#01234567");
    assert_eq!(fallback_name_of(0xABCD_EF01_0000_0000_0000_0000_0000_0000), "User#ABCDEF01");
}

#[test]
fn message_list_for_channel() {
    let mut st = ChatState::new();
    st.channel_userlist = vec![user(1, "ann", Some("data:x"))];
    st.chat_messages = vec![
        ChannelMessage { id: 10, channel_id: 5, sent_by: 1, timestamp: 100, content: "hi".to_string() },
        ChannelMessage {
            id: 11,
            channel_id: 5,
            sent_by: 0xFEDC_BA98_0000_0000_0000_0000_0000_0000,
            timestamp: 200,
            content: "yo".to_string(),
        },
    ];
    st.current_chat_target = Some(ChatTarget::Channel { server_id: 1, channel_id: 5 });
    let lines = ChatService::build_message_list(&st, None);
    assert_eq!(lines.len(), 2);
    assert_eq!(lines[0].author, "ann");
    assert_eq!(lines[0].color, Color::Cyan);
    assert_eq!(lines[0].profile_pic, Some("data:x".to_string()));
    assert_eq!(lines[0].timestamp, Some(100));
    assert_eq!(lines[1].author, "User#FEDCBA98");
    assert_eq!(lines[1].color, Color::Gray);
    assert_eq!(lines[1].profile_pic, None);
    st.current_chat_target = None;
    assert!(ChatService::build_message_list(&st, None).is_empty());
}

#[test]
fn message_list_for_direct_messages() {
    let me = user(1, "me", None);
    let mut st = ChatState::new();
    st.dm_user_list = vec![user(2, "you", None)];
    st.dm_messages = vec![
        DirectMessage { id: 1, from: 1, to: 2, timestamp: 5, content: "a".to_string() },
        DirectMessage { id: 2, from: 2, to: 1, timestamp: 6, content: "b".to_string() },
    ];
    st.current_chat_target = Some(ChatTarget::DM { user_id: 2 });
    let lines = ChatService::build_message_list(&st, Some(&me));
    assert_eq!(lines[0].author, "me");
    assert_eq!(lines[1].author, "you");
    assert_eq!(lines[1].content, "b");
}

#[test]
fn missing_avatars_are_requested_once_each() {
    let service = ChatService::new();
    let mut st = ChatState::new();
    assert!(service.request_missing_avatars(&st).is_none());
    st.channel_userlist = vec![user(1, "a", None), user(2, "b", Some("p")), user(3, "c", None)];
    st.dm_user_list = vec![user(3, "c", None), user(4, "d", None)];
    match service.request_missing_avatars(&st) {
        Some(nexus_tui::model::ClientMessage::GetUserAvatars { user_ids }) => {
            assert_eq!(user_ids, vec![1, 3, 4]);
        }
        other => panic!("unexpected {:?}", other),
    }
    let many: Vec<User> = (0..30u128).map(|i| user(i, "x", None)).collect();
    st.channel_userlist = many;
    match service.request_missing_avatars(&st) {
        Some(nexus_tui::model::ClientMessage::GetUserAvatars { user_ids }) => assert_eq!(user_ids.len(), 20),
        other => panic!("unexpected {:?}", other),
    }
}

#[test]
fn history_fetch_decision() {
    let mut st = ChatState::new();
    st.current_chat_target = Some(ChatTarget::Channel { server_id: 1, channel_id: 5 });
    st.chat_messages = (0..100u128)
        .map(|i| ChannelMessage { id: i, channel_id: 5, sent_by: 1, timestamp: i as i64, content: String::new() })
        .collect();
    st.chat_scroll_offset = 0;
    assert!(!ChatService::should_fetch_more_messages(&st, 20));
    st.chat_scroll_offset = 70;
    assert!(ChatService::should_fetch_more_messages(&st, 20));
    st.chat_scroll_offset = 69;
    assert!(!ChatService::should_fetch_more_messages(&st, 20));
    st.chat_scroll_offset = 95;
    assert!(ChatService::should_fetch_more_messages(&st, 20));
    st.channel_history_complete.insert(5, true);
    assert!(!ChatService::should_fetch_more_messages(&st, 20));
    st.current_chat_target = None;
    assert!(!ChatService::should_fetch_more_messages(&st, 20));
}

#[test]
fn avatar_processing_uses_the_cache() {
    let mut service = ChatService::with_image_cache(ImageCache::with_default_config());
    let u = user(9, "pic", Some("data:image/png;base64,AQID"));
    let first = service.process_user_avatar_at(&u, 100).unwrap();
    assert_eq!(first.data, vec![1, 2, 3]);
    assert_eq!(first.ttl_seconds, 7200);
    let second = service.process_user_avatar_at(&u, 200).unwrap();
    assert_eq!(second.access_count, 1);
    assert_eq!(second.last_accessed, 200);
    let stats = service.get_cache_stats().unwrap();
    assert_eq!(stats.total_entries, 1);
    let no_pic = user(10, "none", None);
    assert!(service.process_user_avatar_at(&no_pic, 100).is_none());
    let mut plain = ChatService::new();
    assert!(plain.process_user_avatar_at(&u, 100).is_none());
    assert!(plain.get_cache_stats().is_none());
    assert!(plain.cleanup_cache().is_none());
}

#[test]
fn batch_avatars_keep_order() {
    let mut service = ChatService::with_image_cache(ImageCache::with_default_config());
    let users = vec![user(1, "a", None), user(2, "b", Some("data:image/png;base64,AQID"))];
    let r = service.batch_process_avatars(&users);
    assert_eq!(r.len(), 2);
    assert_eq!(r[0].0, 1);
    assert!(r[0].1.is_none());
    assert_eq!(r[1].0, 2);
    assert!(r[1].1.is_some());
}

#[test]
fn error_texts() {
    assert_eq!(AppError::Network("down".to_string()).to_text(), "Network error: down");
    assert_eq!(AppError::Validation("bad".to_string()).to_text(), "Validation error: bad");
    assert_eq!(AppError::IO("disk".to_string()).to_text(), "IO error: disk");
    assert_eq!(AppError::Image("pix".to_string()).to_text(), "Image error: pix");
}

#[test]
fn preload_caches_the_pictures_of_the_conversation() {
    let mut service = ChatService::with_image_cache(ImageCache::with_default_config());
    let mut st = ChatState::new();
    st.channel_userlist = vec![
        user(1, "a", Some("data:image/png;base64,AQID")),
        user(2, "b", None),
        user(3, "c", Some("not a data url")),
    ];
    st.dm_user_list = vec![user(4, "d", Some("data:image/png;base64,AQID"))];
    service.preload_conversation_images(&st);
    assert_eq!(service.get_cache_stats().unwrap().total_entries, 0);
    st.current_chat_target = Some(ChatTarget::Channel { server_id: 1, channel_id: 2 });
    service.preload_conversation_images(&st);
    let stats = service.get_cache_stats().unwrap();
    assert_eq!(stats.total_entries, 1);
    assert_eq!(stats.total_size_bytes, 3);
    service.preload_conversation_images(&st);
    assert_eq!(service.get_cache_stats().unwrap().total_entries, 1);
    assert_eq!(service.get_cache_stats().unwrap().total_size_bytes, 3);
    st.current_chat_target = Some(ChatTarget::DM { user_id: 4 });
    service.preload_conversation_images(&st);
    assert_eq!(service.get_cache_stats().unwrap().total_entries, 2);
}
