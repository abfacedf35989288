use vstd::prelude::*;

use crate::snapshot::{duplicate_thumbnail, thumbnail_view, SessionSnapshot, SnapshotView, Thumbnail, ThumbnailView};

verus! {

/// How long a notification stays on screen, in milliseconds.
pub const NOTIFICATION_DURATION_MS: u64 = 3000;

/// The three characters between a title and its subtitle: space, en dash, space.
pub open spec fn headline_separator() -> Seq<char> {
    seq![' ', '\u{2013}', ' ']
}

/// The first line of a notification: the title alone when the subtitle is
/// empty, else the title, the separator and the subtitle.
pub open spec fn headline(title: Seq<char>, subtitle: Seq<char>) -> Seq<char> {
    if subtitle.len() == 0 {
        title
    } else {
        title + headline_separator() + subtitle
    }
}

/// Everything a presenter needs to show one notification.
pub struct NotificationRequest {
    pub source_id: String,
    pub line_1: String,
    pub line_2: String,
    pub line_3: String,
    pub thumbnail: Option<Thumbnail>,
    pub duration_ms: u64,
}

/// Mathematical model of a notification request.
pub struct RequestView {
    pub source_id: Seq<char>,
    pub line_1: Seq<char>,
    pub line_2: Seq<char>,
    pub line_3: Seq<char>,
    pub thumbnail: Option<ThumbnailView>,
    pub duration_ms: u64,
}

impl View for NotificationRequest {
    type V = RequestView;

    open spec fn view(&self) -> RequestView {
        RequestView {
            source_id: self.source_id@,
            line_1: self.line_1@,
            line_2: self.line_2@,
            line_3: self.line_3@,
            thumbnail: thumbnail_view(self.thumbnail),
            duration_ms: self.duration_ms,
        }
    }
}

pub open spec fn request_views(s: Seq<NotificationRequest>) -> Seq<RequestView> {
    s.map_values(|r: NotificationRequest| r@)
}

/// The notification a snapshot calls for: headline, then album, then artist.
pub open spec fn request_for(s: SnapshotView) -> RequestView {
    RequestView {
        source_id: s.source_id,
        line_1: headline(s.title, s.subtitle),
        line_2: s.album,
        line_3: s.artist,
        thumbnail: s.thumbnail,
        duration_ms: NOTIFICATION_DURATION_MS,
    }
}

/// The first notification line for `title` and `subtitle`.
pub fn compose_headline(title: &String, subtitle: &String) -> (r: String)
    ensures
        r@ == headline(title@, subtitle@),
{
    if subtitle.as_str().is_empty() {
        title.clone()
    } else {
        let mut line = title.clone();
        line.append(" \u{2013} ");
        line.append(subtitle.as_str());
        proof {
            reveal_strlit(" \u{2013} ");
            assert(line@ =~= title@ + headline_separator() + subtitle@);
        }
        line
    }
}

impl NotificationRequest {
    /// The notification that announces `s`.
    pub fn from_snapshot(s: &SessionSnapshot) -> (r: NotificationRequest)
        ensures
            r@ == request_for(s@),
    {
        NotificationRequest {
            source_id: s.source_id.clone(),
            line_1: compose_headline(&s.title, &s.subtitle),
            line_2: s.album.clone(),
            line_3: s.artist.clone(),
            thumbnail: duplicate_thumbnail(&s.thumbnail),
            duration_ms: NOTIFICATION_DURATION_MS,
        }
    }
}

} // verus!
