use vstd::prelude::*;

verus! {

/// Album art attached to a snapshot: its MIME type and its encoded bytes.
pub struct Thumbnail {
    pub mime_type: String,
    pub bytes: Vec<u8>,
}

/// Mathematical model of a thumbnail.
pub struct ThumbnailView {
    pub mime_type: Seq<char>,
    pub bytes: Seq<u8>,
}

impl View for Thumbnail {
    type V = ThumbnailView;

    open spec fn view(&self) -> ThumbnailView {
        ThumbnailView { mime_type: self.mime_type@, bytes: self.bytes@ }
    }
}

pub open spec fn thumbnail_view(t: Option<Thumbnail>) -> Option<ThumbnailView> {
    match t {
        Some(t) => Some(t@),
        None => None,
    }
}

impl Thumbnail {
    /// A copy holding the same MIME type and the same bytes.
    pub fn duplicate(&self) -> (r: Thumbnail)
        ensures
            r@ == self@,
    {
        let bytes = self.bytes.clone();
        proof {
            assert(bytes@ =~= self.bytes@);
        }
        Thumbnail { mime_type: self.mime_type.clone(), bytes }
    }
}

pub fn duplicate_thumbnail(t: &Option<Thumbnail>) -> (r: Option<Thumbnail>)
    ensures
        thumbnail_view(r) == thumbnail_view(*t),
{
    match t {
        Some(t) => Some(t.duplicate()),
        None => None,
    }
}

/// What one media source displays at one moment.
pub struct SessionSnapshot {
    pub source_id: String,
    pub title: String,
    pub subtitle: String,
    pub artist: String,
    pub album: String,
    pub thumbnail: Option<Thumbnail>,
}

/// Mathematical model of a snapshot.
pub struct SnapshotView {
    pub source_id: Seq<char>,
    pub title: Seq<char>,
    pub subtitle: Seq<char>,
    pub artist: Seq<char>,
    pub album: Seq<char>,
    pub thumbnail: Option<ThumbnailView>,
}

impl View for SessionSnapshot {
    type V = SnapshotView;

    open spec fn view(&self) -> SnapshotView {
        SnapshotView {
            source_id: self.source_id@,
            title: self.title@,
            subtitle: self.subtitle@,
            artist: self.artist@,
            album: self.album@,
            thumbnail: thumbnail_view(self.thumbnail),
        }
    }
}

/// Two snapshots show the same state when every displayed text field agrees;
/// the thumbnail takes no part in it.
pub open spec fn same_state(a: SnapshotView, b: SnapshotView) -> bool {
    &&& a.source_id == b.source_id
    &&& a.title == b.title
    &&& a.subtitle == b.subtitle
    &&& a.artist == b.artist
    &&& a.album == b.album
}

impl SessionSnapshot {
    pub fn new(
        source_id: String,
        title: String,
        subtitle: String,
        artist: String,
        album: String,
        thumbnail: Option<Thumbnail>,
    ) -> (r: SessionSnapshot)
        ensures
            r.source_id@ == source_id@,
            r.title@ == title@,
            r.subtitle@ == subtitle@,
            r.artist@ == artist@,
            r.album@ == album@,
            thumbnail_view(r.thumbnail) == thumbnail_view(thumbnail),
    {
        SessionSnapshot { source_id, title, subtitle, artist, album, thumbnail }
    }

    /// Whether `self` and `other` show the same state (thumbnails ignored).
    pub fn same_state_as(&self, other: &SessionSnapshot) -> (r: bool)
        ensures
            r == same_state(self@, other@),
    {
        self.source_id == other.source_id && self.title == other.title && self.subtitle
            == other.subtitle && self.artist == other.artist && self.album == other.album
    }

    /// A copy with the same view.
    pub fn duplicate(&self) -> (r: SessionSnapshot)
        ensures
            r@ == self@,
    {
        SessionSnapshot {
            source_id: self.source_id.clone(),
            title: self.title.clone(),
            subtitle: self.subtitle.clone(),
            artist: self.artist.clone(),
            album: self.album.clone(),
            thumbnail: duplicate_thumbnail(&self.thumbnail),
        }
    }
}

impl PartialEq for SessionSnapshot {
    fn eq(&self, other: &SessionSnapshot) -> (r: bool) {
        self.same_state_as(other)
    }
}

impl vstd::std_specs::cmp::PartialEqSpecImpl for SessionSnapshot {
    open spec fn obeys_eq_spec() -> bool {
        true
    }

    open spec fn eq_spec(&self, other: &SessionSnapshot) -> bool {
        same_state(self@, other@)
    }
}

} // verus!
