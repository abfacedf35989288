use now_playing::enumerate::{RetryDecision, RetryPolicy, SubscriptionTracker};
use now_playing::notification::{compose_headline, NotificationRequest};
use now_playing::registry::SourceEntry;
use now_playing::snapshot::{SessionSnapshot, Thumbnail};
use now_playing::toast::{
    extension_for_mime_type, template_for, text_for_element, thumbnail_uri, CodecInfo,
    ExtensionError, ToastTemplate,
};
use now_playing::tray::{command_for_menu_id, menu_items, MenuItemKind};
use now_playing::notifier::Event;

fn request(title: &str, subtitle: &str) -> NotificationRequest {
    let s = SessionSnapshot::new(
        "app.a".to_string(),
        title.to_string(),
        subtitle.to_string(),
        "Artist".to_string(),
        "Album".to_string(),
        None,
    );
    NotificationRequest::from_snapshot(&s)
}

fn strings(v: &[&str]) -> Vec<String> {
    v.iter().map(|s| s.to_string()).collect()
}

#[test]
fn headline_without_subtitle_is_title() {
    assert_eq!(request("Song", "").line_1, "Song");
    assert_eq!(compose_headline(&"".to_string(), &"".to_string()), "");
}

#[test]
fn headline_with_subtitle_uses_en_dash() {
    assert_eq!(request("Song", "Live").line_1, "Song \u{2013} Live");
    assert_eq!(compose_headline(&"".to_string(), &"x".to_string()), " \u{2013} x");
}

#[test]
fn request_lines_are_album_then_artist() {
    let r = request("Song", "");
    assert_eq!(r.source_id, "app.a");
    assert_eq!(r.line_2, "Album");
    assert_eq!(r.line_3, "Artist");
    assert!(r.thumbnail.is_none());
}

#[test]
fn template_follows_thumbnail() {
    let mut r = request("Song", "");
    assert_eq!(template_for(&r), ToastTemplate::Text);
    r.thumbnail = Some(Thumbnail { mime_type: "image/png".to_string(), bytes: vec![] });
    assert_eq!(template_for(&r), ToastTemplate::ImageAndText);
}

#[test]
fn text_elements_take_lines_by_id() {
    let r = request("Song", "Live");
    assert_eq!(text_for_element(&r, "1"), Some("Song \u{2013} Live".to_string()));
    assert_eq!(text_for_element(&r, "2"), Some("Album".to_string()));
    assert_eq!(text_for_element(&r, "3"), Some("Artist".to_string()));
    assert_eq!(text_for_element(&r, "4"), None);
    assert_eq!(text_for_element(&r, "12"), None);
    assert_eq!(text_for_element(&r, ""), None);
}

#[test]
fn thumbnail_uri_prefixes_file_scheme() {
    assert_eq!(thumbnail_uri("C:\\tmp\\thumb.png"), "file:///C:\\tmp\\thumb.png");
    assert_eq!(thumbnail_uri(""), "file:///");
}

#[test]
fn extension_lookup_takes_first_matching_codec() {
    let codecs = vec![
        CodecInfo { mime_types: strings(&["image/bmp"]), extensions: strings(&[".bmp", ".dib"]) },
        CodecInfo { mime_types: strings(&["image/jpeg", "image/jpg"]), extensions: strings(&[".jpeg", ".jpg"]) },
        CodecInfo { mime_types: strings(&["image/jpg"]), extensions: strings(&[".other"]) },
    ];
    assert_eq!(extension_for_mime_type(&codecs, &"image/jpg".to_string()), Ok(".jpeg".to_string()));
    assert_eq!(extension_for_mime_type(&codecs, &"image/bmp".to_string()), Ok(".bmp".to_string()));
    assert_eq!(
        extension_for_mime_type(&codecs, &"image/png".to_string()),
        Err(ExtensionError::UnknownMimeType)
    );
    assert_eq!(extension_for_mime_type(&vec![], &"image/png".to_string()), Err(ExtensionError::UnknownMimeType));
}

#[test]
fn extension_lookup_stops_at_codec_without_extension() {
    let codecs = vec![
        CodecInfo { mime_types: strings(&["image/png"]), extensions: vec![] },
        CodecInfo { mime_types: strings(&["image/png"]), extensions: strings(&[".png"]) },
    ];
    assert_eq!(extension_for_mime_type(&codecs, &"image/png".to_string()), Err(ExtensionError::NoExtension));
}

#[test]
fn menu_lists_sources_then_commands() {
    let entries = vec![SourceEntry::new("app.a".to_string(), true), SourceEntry::new("app.b".to_string(), false)];
    let items = menu_items(&entries);
    assert_eq!(items.len(), 5);
    assert_eq!(items[0].id, 1004);
    assert_eq!(items[0].label, "app.a");
    assert_eq!(items[0].kind, MenuItemKind::Source { checked: true });
    assert_eq!(items[1].id, 1005);
    assert_eq!(items[1].label, "app.b");
    assert_eq!(items[1].kind, MenuItemKind::Source { checked: false });
    assert_eq!(items[2].id, 1003);
    assert_eq!(items[2].kind, MenuItemKind::Separator);
    assert_eq!(items[3].id, 1002);
    assert_eq!(items[3].label, "Clear known");
    assert_eq!(items[4].id, 1001);
    assert_eq!(items[4].label, "Exit");
    assert_eq!(items[4].kind, MenuItemKind::Command);
}

#[test]
fn empty_menu_has_only_commands() {
    let items = menu_items(&vec![]);
    let ids: Vec<usize> = items.iter().map(|i| i.id).collect();
    assert_eq!(ids, vec![1003, 1002, 1001]);
}

#[test]
fn menu_ids_decode_to_events() {
    assert_eq!(command_for_menu_id(1001), Some(Event::Quit));
    assert_eq!(command_for_menu_id(1002), Some(Event::ClearKnown));
    assert_eq!(command_for_menu_id(1003), None);
    assert_eq!(command_for_menu_id(1004), Some(Event::ToggleSource(0)));
    assert_eq!(command_for_menu_id(1010), Some(Event::ToggleSource(6)));
    assert_eq!(command_for_menu_id(0), None);
}

#[test]
fn metadata_retry_gives_up_after_twenty_attempts() {
    let p = RetryPolicy::metadata();
    assert_eq!(p.max_attempts, 20);
    assert_eq!(p.delay_ms, 50);
    assert_eq!(p.after_failure(1), RetryDecision::RetryAfter(50));
    assert_eq!(p.after_failure(19), RetryDecision::RetryAfter(50));
    assert_eq!(p.after_failure(20), RetryDecision::GiveUp);
    assert_eq!(p.after_failure(21), RetryDecision::GiveUp);
}

#[test]
fn each_session_is_subscribed_once() {
    let mut t = SubscriptionTracker::new();
    assert!(t.first_sighting(&"app.a".to_string()));
    assert!(t.first_sighting(&"app.b".to_string()));
    assert!(!t.first_sighting(&"app.a".to_string()));
    assert!(!t.first_sighting(&"app.b".to_string()));
}
