//! What a stored mime means: whether a browser shows it, which viewer opens it,
//! which mark a list gives it, and what a download of it is called.
use crate::model::{File, ThumbState};
use crate::text;
use vstd::prelude::*;

verus! {

/// Whether the browser renders a mime on its own.
pub open spec fn shows_itself(mime: Seq<char>) -> bool {
    &&& mime != "image/heic"@
    &&& {
        ||| "image/"@.is_prefix_of(mime)
        ||| "video/"@.is_prefix_of(mime)
        ||| "audio/"@.is_prefix_of(mime)
        ||| mime == "application/pdf"@
        ||| mime == "text/plain"@
    }
}

/// Whether a mime may be shown on this origin at all.
pub open spec fn safe_inline(mime: Seq<char>) -> bool {
    shows_itself(mime) && mime != "image/svg+xml"@ && mime != "text/html"@
}

/// Whether the browser renders this stored mime on its own rather than only
/// offering to save it. `image/heic` is excluded: no engine decodes it.
pub fn renders_inline(mime: &str) -> (r: bool)
    ensures
        r == shows_itself(mime@),
{
    if text::same(mime, "image/heic") {
        return false;
    }
    text::starts_with(mime, "image/") || text::starts_with(mime, "video/") || text::starts_with(
        mime,
        "audio/",
    ) || text::same(mime, "application/pdf") || text::same(mime, "text/plain")
}

/// Whether `inline` disposition is safe for this mime: an uploaded HTML or SVG
/// file stays `attachment` either way, so it is offered to save rather than run
/// on this origin.
pub fn inline_ok(mime: &str) -> (r: bool)
    ensures
        r == safe_inline(mime@),
{
    renders_inline(mime) && !text::same(mime, "image/svg+xml") && !text::same(mime, "text/html")
}

/// What the viewer page shows inline.
#[derive(Clone, Copy, Debug, PartialEq, Eq, Structural)]
pub enum ViewerKind {
    Image,
    Video,
    Audio,
    Pdf,
    Text,
}

/// The viewer that opens a mime.
pub open spec fn viewer_of(mime: Seq<char>) -> Option<ViewerKind> {
    if mime == "image/heic"@ {
        None
    } else if "image/"@.is_prefix_of(mime) {
        Some(ViewerKind::Image)
    } else if "video/"@.is_prefix_of(mime) {
        Some(ViewerKind::Video)
    } else if "audio/"@.is_prefix_of(mime) {
        Some(ViewerKind::Audio)
    } else if mime == "application/pdf"@ {
        Some(ViewerKind::Pdf)
    } else if mime == "text/plain"@ {
        Some(ViewerKind::Text)
    } else {
        None
    }
}

/// The inline viewer for one stored mime, if it has one.
pub fn viewer_kind(mime: &str) -> (r: Option<ViewerKind>)
    ensures
        r == viewer_of(mime@),
{
    if text::same(mime, "image/heic") {
        None
    } else if text::starts_with(mime, "image/") {
        Some(ViewerKind::Image)
    } else if text::starts_with(mime, "video/") {
        Some(ViewerKind::Video)
    } else if text::starts_with(mime, "audio/") {
        Some(ViewerKind::Audio)
    } else if text::same(mime, "application/pdf") {
        Some(ViewerKind::Pdf)
    } else if text::same(mime, "text/plain") {
        Some(ViewerKind::Text)
    } else {
        None
    }
}

/// The mimes with a viewer are the ones the browser renders, and what is safe
/// inline always has one.
pub proof fn law_viewers_open_what_browsers_render(mime: Seq<char>)
    ensures
        viewer_of(mime) is Some <==> shows_itself(mime),
        safe_inline(mime) ==> viewer_of(mime) is Some,
{
}

/// An uploaded page or drawing never runs on this origin.
pub proof fn law_markup_is_never_inline(mime: Seq<char>)
    requires
        mime == "text/html"@ || mime == "image/svg+xml"@,
    ensures
        !safe_inline(mime),
{
}

/// The stored mimes that are bundles of other files.
pub open spec fn is_bundle(mime: Seq<char>) -> bool {
    ||| mime == "application/zip"@
    ||| mime == "application/gzip"@
    ||| mime == "application/x-ole-storage"@
    ||| mime == "application/vnd.ms-excel"@
    ||| text::holds_text(mime, "openxml"@)
    ||| text::holds_text(mime, "opendocument"@)
}

/// The mark a mime wears: its class and its glyph.
pub open spec fn mark_of(mime: Seq<char>) -> (Seq<char>, Seq<char>) {
    if "image/"@.is_prefix_of(mime) {
        ("image"@, "◫"@)
    } else if "video/"@.is_prefix_of(mime) {
        ("video"@, "▶"@)
    } else if "audio/"@.is_prefix_of(mime) {
        ("audio"@, "♫"@)
    } else if mime == "application/pdf"@ {
        ("pdf"@, "☰"@)
    } else if "text/"@.is_prefix_of(mime) {
        ("text"@, "¶"@)
    } else if is_bundle(mime) {
        ("archive"@, "⊞"@)
    } else {
        ("generic"@, "▦"@)
    }
}

/// The stored mimes that are bundles of other files: plain zips, the OOXML and
/// OpenDocument documents, gzip blobs and the legacy OLE container.
pub fn is_archive_mime(mime: &str) -> (r: bool)
    ensures
        r == is_bundle(mime@),
{
    text::same(mime, "application/zip") || text::same(mime, "application/gzip") || text::same(
        mime,
        "application/x-ole-storage",
    ) || text::same(mime, "application/vnd.ms-excel") || text::contains(mime, "openxml")
        || text::contains(mime, "opendocument")
}

/// The chip's modifier class and its glyph, by stored mime: one distinct mark
/// per class.
pub fn chip_mark(mime: &str) -> (r: (&'static str, &'static str))
    ensures
        (r.0@, r.1@) == mark_of(mime@),
{
    if text::starts_with(mime, "image/") {
        ("image", "◫")
    } else if text::starts_with(mime, "video/") {
        ("video", "▶")
    } else if text::starts_with(mime, "audio/") {
        ("audio", "♫")
    } else if text::same(mime, "application/pdf") {
        ("pdf", "☰")
    } else if text::starts_with(mime, "text/") {
        ("text", "¶")
    } else if is_archive_mime(mime) {
        ("archive", "⊞")
    } else {
        ("generic", "▦")
    }
}

/// A list icon: a picture by its address, or a glyph with its class.
#[derive(Debug)]
pub enum Chip {
    Picture(String),
    Glyph { class: &'static str, glyph: &'static str },
}

/// A [`Chip`] as a value.
pub enum ChipModel {
    Picture(Seq<char>),
    Glyph(Seq<char>, Seq<char>),
}

impl View for Chip {
    type V = ChipModel;

    open spec fn view(&self) -> ChipModel {
        match self {
            Chip::Picture(src) => ChipModel::Picture(src@),
            Chip::Glyph { class, glyph } => ChipModel::Glyph(class@, glyph@),
        }
    }
}

/// The glyph of a mime.
pub open spec fn glyph_of(mime: Seq<char>) -> ChipModel {
    ChipModel::Glyph(mark_of(mime).0, mark_of(mime).1)
}

/// The icon of a file whose thumbnail stands at `src`.
pub open spec fn chip_at(file: File, src: Seq<char>) -> ChipModel {
    if file.thumb_state == ThumbState::Ready {
        ChipModel::Picture(src)
    } else {
        glyph_of(file.mime@)
    }
}

/// The icon of a file in a signed-in list.
pub open spec fn entry_chip_of(file: File) -> ChipModel {
    chip_at(file, "/thumb/"@ + file.id@)
}

/// The icon of a file while it is live; once it is trashed its thumbnail
/// answers nobody, so it wears the glyph.
pub open spec fn live_chip_of(file: File) -> ChipModel {
    if file.deleted_at is Some {
        glyph_of(file.mime@)
    } else {
        entry_chip_of(file)
    }
}

/// The glyph of a mime.
pub fn glyph_chip(mime: &str) -> (r: Chip)
    ensures
        r@ == glyph_of(mime@),
{
    let (class, glyph) = chip_mark(mime);
    Chip::Glyph { class, glyph }
}

/// The icon of a file whose thumbnail stands at `src`.
pub fn public_chip(src: &str, file: &File) -> (r: Chip)
    ensures
        r@ == chip_at(*file, src@),
{
    if file.thumb_state == ThumbState::Ready {
        Chip::Picture(src.to_owned())
    } else {
        glyph_chip(&file.mime)
    }
}

/// One file's list icon: the webp thumbnail where one is ready, else a
/// mime-class glyph.
pub fn entry_chip(file: &File) -> (r: Chip)
    ensures
        r@ == entry_chip_of(*file),
{
    public_chip(&text::glue("/thumb/", &file.id), file)
}

/// One shared file's chip: the thumbnail image while the target is live, the
/// mime-class glyph once it is trashed.
pub fn shared_chip(file: &File) -> (r: Chip)
    ensures
        r@ == live_chip_of(*file),
{
    if file.deleted_at.is_some() {
        glyph_chip(&file.mime)
    } else {
        entry_chip(file)
    }
}

/// A trashed file's chip: always the mime-class glyph, never the thumbnail.
pub fn trash_chip(file: &File) -> (r: Chip)
    ensures
        r@ == glyph_of(file.mime@),
{
    glyph_chip(&file.mime)
}

// ---- Names in headers -----------------------------------------------------
/// A character no quoting scheme could turn into a delimiter.
pub open spec fn is_plain_name_char(c: char) -> bool {
    text::is_alnum(c) || c == '.' || c == '_' || c == '-'
}

/// A name in plain ASCII: every other character as an underscore.
pub open spec fn plain_name(name: Seq<char>) -> Seq<char> {
    name.map_values(
        |c: char|
            if is_plain_name_char(c) {
                c
            } else {
                '_'
            },
    )
}

/// A byte that stands for itself in a percent-encoded name.
pub open spec fn is_bare_byte(b: u8) -> bool {
    ||| 0x61 <= b <= 0x7a
    ||| 0x41 <= b <= 0x5a
    ||| 0x30 <= b <= 0x39
    ||| b == 0x2e
    ||| b == 0x5f
    ||| b == 0x7e
    ||| b == 0x2d
}

/// The upper-case hexadecimal digit of `d`.
pub open spec fn upper_digit(d: int) -> char {
    if d < 10 {
        ('0' as u32 + d) as char
    } else {
        ('A' as u32 + (d - 10)) as char
    }
}

/// Bytes percent-encoded.
pub open spec fn percent_encoded(bytes: Seq<u8>) -> Seq<char>
    decreases bytes.len(),
{
    if bytes.len() == 0 {
        Seq::empty()
    } else {
        let head = percent_encoded(bytes.drop_last());
        let b = bytes.last();
        if is_bare_byte(b) {
            head.push(b as char)
        } else {
            head.push('%').push(upper_digit(b as int / 16)).push(upper_digit(b as int % 16))
        }
    }
}

/// The `Content-Disposition` of a download.
pub open spec fn disposition(name: Seq<char>, inline: bool) -> Seq<char> {
    (if inline {
        "inline"@
    } else {
        "attachment"@
    }) + "; filename=\""@ + plain_name(name) + "\"; filename*=UTF-8''"@ + percent_encoded(
        vstd::utf8::encode_utf8(name),
    )
}

/// The ASCII half of a `Content-Disposition` filename: only characters no
/// quoting scheme could turn into a delimiter survive.
pub fn ascii_name(name: &str) -> (r: String)
    ensures
        r@ == plain_name(name@),
{
    let v = text::letters(name);
    let mut out = String::new();
    let mut i: usize = 0;
    while i < v.len()
        invariant
            i <= v.len(),
            out@ == plain_name(v@.take(i as int)),
        decreases v.len() - i,
    {
        let c = v[i];
        if (c >= 'a' && c <= 'z') || (c >= 'A' && c <= 'Z') || (c >= '0' && c <= '9') || c == '.'
            || c == '_' || c == '-' {
            out.push(c);
        } else {
            out.push('_');
        }
        proof {
            assert(out@ =~= plain_name(v@.take(i + 1)));
        }
        i += 1;
    }
    assert(v@.take(i as int) == v@);
    out
}

fn upper_digit_of(d: u8) -> (r: char)
    requires
        d < 16,
    ensures
        r == upper_digit(d as int),
{
    if d < 10 {
        (0x30u8 + d) as char
    } else {
        (0x41u8 + (d - 10)) as char
    }
}

fn encode_name(bytes: &[u8]) -> (r: String)
    ensures
        r@ == percent_encoded(bytes@),
{
    let mut out = String::new();
    let mut i: usize = 0;
    while i < bytes.len()
        invariant
            i <= bytes.len(),
            out@ == percent_encoded(bytes@.take(i as int)),
        decreases bytes.len() - i,
    {
        let b: u8 = bytes[i];
        proof {
            assert(bytes@.take(i + 1).drop_last() == bytes@.take(i as int));
        }
        if (b >= 0x61 && b <= 0x7a) || (b >= 0x41 && b <= 0x5a) || (b >= 0x30 && b <= 0x39) || b
            == 0x2e || b == 0x5f || b == 0x7e || b == 0x2d {
            out.push(b as char);
        } else {
            out.push('%');
            out.push(upper_digit_of(b / 16));
            out.push(upper_digit_of(b % 16));
        }
        i += 1;
    }
    assert(bytes@.take(i as int) == bytes@);
    out
}

/// The `Content-Disposition` for one download. The ASCII fallback keeps only
/// characters no quoting scheme could turn into a delimiter or a control
/// character; `filename*` carries the real name, percent-encoded.
pub fn disposition_of(file_name: &str, inline: bool) -> (r: String)
    ensures
        r@ == disposition(file_name@, inline),
{
    let mut out = if inline {
        "inline".to_owned()
    } else {
        "attachment".to_owned()
    };
    out.append("; filename=\"");
    out.append(&ascii_name(file_name));
    out.append("\"; filename*=UTF-8''");
    out.append(&encode_name(file_name.as_bytes()));
    out
}

/// The fallback name holds no character a quoted header could stumble over,
/// whatever the file is called.
pub proof fn law_fallback_name_is_plain(name: Seq<char>)
    ensures
        plain_name(name).len() == name.len(),
        forall|i: int|
            0 <= i < plain_name(name).len() ==> is_plain_name_char(#[trigger] plain_name(name)[i]),
{
}

/// A name with what a quoted header cannot hold left out, never empty.
pub open spec fn quotable_name(name: Seq<char>) -> Seq<char> {
    let kept = text::keep(name, |c: char| !text::is_control_code(c) && c != '"' && c != '\\');
    if kept.len() == 0 {
        "file"@
    } else {
        kept
    }
}

/// A filename safe for a header: quotes, backslashes and control characters
/// stripped, never empty.
pub fn safe_name(name: &str) -> (r: String)
    ensures
        r@ == quotable_name(name@),
{
    let v = text::letters(name);
    let ghost f = |c: char| !text::is_control_code(c) && c != '"' && c != '\\';
    let mut out = String::new();
    let mut i: usize = 0;
    while i < v.len()
        invariant
            i <= v.len(),
            f == |c: char| !text::is_control_code(c) && c != '"' && c != '\\',
            out@ == text::keep(v@.take(i as int), f),
        decreases v.len() - i,
    {
        let c = v[i];
        proof {
            assert(v@.take(i + 1).drop_last() == v@.take(i as int));
        }
        if !c.is_control() && c != '"' && c != '\\' {
            out.push(c);
        }
        i += 1;
    }
    assert(v@.take(i as int) == v@);
    if out.as_str().unicode_len() == 0 {
        "file".to_owned()
    } else {
        out
    }
}

/// A quotable name is never empty and never closes its own quotes.
pub proof fn law_quotable_name(name: Seq<char>)
    ensures
        quotable_name(name).len() > 0,
        forall|i: int|
            0 <= i < quotable_name(name).len() ==> {
                let c = #[trigger] quotable_name(name)[i];
                c != '"' && c != '\\' && !text::is_control_code(c)
            },
{
    let f = |c: char| !text::is_control_code(c) && c != '"' && c != '\\';
    text::lemma_keep(name, f);
    reveal_strlit("file");
    assert("file"@ =~= seq!['f', 'i', 'l', 'e']);
    let kept = text::keep(name, f);
    if kept.len() > 0 {
        assert forall|i: int| 0 <= i < quotable_name(name).len() implies {
            let c = #[trigger] quotable_name(name)[i];
            c != '"' && c != '\\' && !text::is_control_code(c)
        } by {
            assert(f(kept[i]));
        }
    }
}

} // verus!
