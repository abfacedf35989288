use vstd::prelude::*;

use crate::notification::{NotificationRequest, RequestView};

verus! {

/// The two toast layouts: text only, or an image beside the text.
#[derive(Clone, Copy, Debug, PartialEq, Eq, Structural)]
pub enum ToastTemplate {
    Text,
    ImageAndText,
}

/// The layout for a request: with an image exactly when it carries a thumbnail.
pub fn template_for(req: &NotificationRequest) -> (r: ToastTemplate)
    ensures
        r == (if req.thumbnail is Some {
            ToastTemplate::ImageAndText
        } else {
            ToastTemplate::Text
        }),
{
    match &req.thumbnail {
        Some(_) => ToastTemplate::ImageAndText,
        None => ToastTemplate::Text,
    }
}

/// The text that goes into the template's text element with this `id`:
/// lines one to three for ids "1" to "3", nothing for any other.
pub open spec fn slot_text(req: RequestView, id: Seq<char>) -> Option<Seq<char>> {
    if id == seq!['1'] {
        Some(req.line_1)
    } else if id == seq!['2'] {
        Some(req.line_2)
    } else if id == seq!['3'] {
        Some(req.line_3)
    } else {
        None
    }
}

pub fn text_for_element(req: &NotificationRequest, id: &str) -> (r: Option<String>)
    ensures
        r is Some <==> slot_text(req@, id@) is Some,
        r matches Some(t) ==> Some(t@) == slot_text(req@, id@),
{
    if id.unicode_len() != 1 {
        return None;
    }
    let c = id.get_char(0);
    proof {
        assert(id@ == seq![c]) by {
            assert(id@ =~= seq![c]);
        }
    }
    if c == '1' {
        Some(req.line_1.clone())
    } else if c == '2' {
        Some(req.line_2.clone())
    } else if c == '3' {
        Some(req.line_3.clone())
    } else {
        proof {
            assert(id@[0] != '1' && id@[0] != '2' && id@[0] != '3');
            assert(id@ != seq!['1'] && id@ != seq!['2'] && id@ != seq!['3']) by {
                assert(seq!['1'][0] == '1');
                assert(seq!['2'][0] == '2');
                assert(seq!['3'][0] == '3');
            }
        }
        None
    }
}

/// The `src` of the toast image for a thumbnail stored at `path`.
pub fn thumbnail_uri(path: &str) -> (r: String)
    ensures
        r@ == "file:///"@ + path@,
{
    let mut uri = String::from_str("file:///");
    uri.append(path);
    uri
}

/// What an image codec of the platform reads: its MIME types and its file
/// extensions, most usual first.
pub struct CodecInfo {
    pub mime_types: Vec<String>,
    pub extensions: Vec<String>,
}

pub struct CodecView {
    pub mime_types: Seq<Seq<char>>,
    pub extensions: Seq<Seq<char>>,
}

impl View for CodecInfo {
    type V = CodecView;

    open spec fn view(&self) -> CodecView {
        CodecView {
            mime_types: self.mime_types@.map_values(|s: String| s@),
            extensions: self.extensions@.map_values(|s: String| s@),
        }
    }
}

pub open spec fn codec_views(c: Seq<CodecInfo>) -> Seq<CodecView> {
    c.map_values(|x: CodecInfo| x@)
}

#[derive(Clone, Copy, Debug, PartialEq, Eq, Structural)]
pub enum ExtensionError {
    /// No codec reads this MIME type.
    UnknownMimeType,
    /// The first codec that reads it names no extension.
    NoExtension,
}

pub open spec fn handles(c: CodecView, mime: Seq<char>) -> bool {
    exists|k: int| 0 <= k < c.mime_types.len() && #[trigger] c.mime_types[k] == mime
}

/// The first extension of the first codec that reads `mime`.
pub open spec fn extension_spec(codecs: Seq<CodecView>, mime: Seq<char>) -> Result<
    Seq<char>,
    ExtensionError,
>
    decreases codecs.len(),
{
    if codecs.len() == 0 {
        Err(ExtensionError::UnknownMimeType)
    } else if handles(codecs[0], mime) {
        if codecs[0].extensions.len() > 0 {
            Ok(codecs[0].extensions[0])
        } else {
            Err(ExtensionError::NoExtension)
        }
    } else {
        extension_spec(codecs.drop_first(), mime)
    }
}

fn codec_handles(c: &CodecInfo, mime: &String) -> (r: bool)
    ensures
        r == handles(c@, mime@),
{
    let ghost mv = c@.mime_types;
    let mut k: usize = 0;
    while k < c.mime_types.len()
        invariant
            k <= c.mime_types.len(),
            mv == c@.mime_types,
            forall|j: int| 0 <= j < k ==> #[trigger] mv[j] != mime@,
        decreases c.mime_types.len() - k,
    {
        if c.mime_types[k] == *mime {
            assert(mv[k as int] == mime@);
            return true;
        }
        k += 1;
    }
    false
}

/// The file extension to store a thumbnail of type `mime` under: the first
/// extension of the first codec, in the order given, that reads `mime`.
pub fn extension_for_mime_type(codecs: &Vec<CodecInfo>, mime: &String) -> (r: Result<
    String,
    ExtensionError,
>)
    ensures
        match r {
            Ok(e) => extension_spec(codec_views(codecs@), mime@) == Ok::<Seq<char>, ExtensionError>(
                e@,
            ),
            Err(x) => extension_spec(codec_views(codecs@), mime@) == Err::<Seq<char>, ExtensionError>(
                x,
            ),
        },
{
    let ghost cv = codec_views(codecs@);
    let mut i: usize = 0;
    assert(cv.subrange(0, cv.len() as int) =~= cv);
    while i < codecs.len()
        invariant
            i <= codecs.len(),
            cv == codec_views(codecs@),
            extension_spec(cv, mime@) == extension_spec(cv.subrange(i as int, cv.len() as int), mime@),
        decreases codecs.len() - i,
    {
        let ghost rest = cv.subrange(i as int, cv.len() as int);
        assert(rest[0] == codecs@[i as int]@);
        if codec_handles(&codecs[i], mime) {
            if codecs[i].extensions.len() > 0 {
                return Ok(codecs[i].extensions[0].clone());
            } else {
                return Err(ExtensionError::NoExtension);
            }
        }
        assert(rest.drop_first() =~= cv.subrange(i + 1, cv.len() as int));
        i += 1;
    }
    assert(cv.subrange(i as int, cv.len() as int) =~= Seq::<CodecView>::empty());
    Err(ExtensionError::UnknownMimeType)
}

} // verus!
