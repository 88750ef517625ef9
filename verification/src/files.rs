//! File bytes, the viewer page, and small uploads.
//!
//! A file's bytes go to its owner, and to a grantee when the grant says so; the
//! thumbnail and the viewer page follow the same visibility. Bytes for another
//! owner's file are not found, never forbidden.
use crate::address;
use crate::address::{back_to, header_or};
use crate::clock;
use crate::drive;
use crate::drive::{plan_for, Redirect};
use crate::guard::Plan;
use crate::media;
use crate::media::{Chip, ViewerKind};
use crate::model::{File, ShareKind, StoreError, User};
use crate::refusal;
use crate::refusal::Refusal;
use crate::sizes;
use crate::text;
use vstd::prelude::*;

verus! {

/// A [`StoreError`] in the files' own words.
pub open spec fn file_words(error: StoreError) -> Refusal {
    match error {
        StoreError::QuotaExceeded => Refusal::QuotaExceeded,
        StoreError::NotFound => Refusal::NotFound,
        StoreError::CrossOwner => Refusal::NotFound,
        StoreError::UploadExpired => Refusal::UploadExpired,
        StoreError::BadChunk => Refusal::BadChunk,
        _ => Refusal::Unavailable,
    }
}

/// A [`StoreError`] in the files' own words. Cross-owner answers
/// [`Refusal::NotFound`], same as a missing id.
pub fn store_refusal(error: StoreError) -> (r: Refusal)
    ensures
        r == file_words(error),
{
    match error {
        StoreError::QuotaExceeded => Refusal::QuotaExceeded,
        StoreError::NotFound => Refusal::NotFound,
        StoreError::CrossOwner => Refusal::NotFound,
        StoreError::UploadExpired => Refusal::UploadExpired,
        StoreError::BadChunk => Refusal::BadChunk,
        _ => Refusal::Unavailable,
    }
}

// ---- Ranges ------------------------------------------------------------------
/// A number that 64 bits hold.
pub open spec fn fits_u64(n: Option<int>) -> Option<int> {
    match n {
        Some(n) => if n <= u64::MAX {
            Some(n)
        } else {
            None
        },
        None => None,
    }
}

/// A single `bytes=` range resolved against `total` bytes: the first and the
/// last byte, or an error where it can be satisfied by none; nothing where the
/// header is not exactly one such range.
pub open spec fn range_in(header: Seq<char>, total: int) -> Option<Result<(int, int), ()>> {
    if !"bytes="@.is_prefix_of(header) {
        None
    } else {
        let spec = header.skip("bytes="@.len() as int);
        if !text::free_of(spec, ',') {
            None
        } else {
            match text::cut_at(spec, '-') {
                None => None,
                Some((first, last)) => if first.len() == 0 {
                    match fits_u64(text::read_unsigned(last)) {
                        None => None,
                        Some(n) => if n == 0 || total == 0 {
                            Some(Err(()))
                        } else {
                            Some(
                                Ok(
                                    (
                                        if n >= total {
                                            0
                                        } else {
                                            total - n
                                        },
                                        total - 1,
                                    ),
                                ),
                            )
                        },
                    }
                } else {
                    match fits_u64(text::read_unsigned(first)) {
                        None => None,
                        Some(start) => if last.len() == 0 {
                            if start >= total {
                                Some(Err(()))
                            } else {
                                Some(Ok((start, total - 1)))
                            }
                        } else {
                            match fits_u64(text::read_unsigned(last)) {
                                None => None,
                                Some(end) => if start > end || start >= total {
                                    Some(Err(()))
                                } else {
                                    Some(
                                        Ok(
                                            (
                                                start,
                                                if end < total {
                                                    end
                                                } else {
                                                    total - 1
                                                },
                                            ),
                                        ),
                                    )
                                },
                            }
                        },
                    }
                },
            }
        }
    }
}

/// A [`parse_range`] answer as a value.
pub open spec fn range_model(r: Option<Result<(u64, u64), ()>>) -> Option<Result<(int, int), ()>> {
    match r {
        Some(Ok((start, end))) => Some(Ok((start as int, end as int))),
        Some(Err(_)) => Some(Err(())),
        None => None,
    }
}

/// A single-range `Range: bytes=...` request resolved against `total` bytes, as
/// `(start, end)` inclusive. `None` for anything that is not exactly one
/// `bytes=` range: the caller falls back to a full answer, which is always a
/// valid one. `Err(())` for an unsatisfiable range.
pub fn parse_range(header: &str, total: u64) -> (r: Option<Result<(u64, u64), ()>>)
    ensures
        range_model(r) == range_in(header@, total as int),
{
    let spec = match text::strip_prefix(header, "bytes=") {
        Some(spec) => spec,
        None => return None,
    };
    if text::has_char(&spec, ',') {
        return None;
    }
    let (first, last) = match text::split_once(&spec, '-') {
        Some((first, last)) => (first, last),
        None => return None,
    };
    proof {
        text::lemma_read_unsigned(first@);
        text::lemma_read_unsigned(last@);
    }
    if first.as_str().unicode_len() == 0 {
        // A suffix range: the last N bytes.
        let suffix: u64 = match text::parse_u64(&last) {
            Some(suffix) => suffix,
            None => return None,
        };
        if suffix == 0 || total == 0 {
            return Some(Err(()));
        }
        let start: u64 = if suffix >= total {
            0
        } else {
            total - suffix
        };
        return Some(Ok((start, total - 1)));
    }
    let start: u64 = match text::parse_u64(&first) {
        Some(start) => start,
        None => return None,
    };
    if last.as_str().unicode_len() == 0 {
        if start >= total {
            return Some(Err(()));
        }
        return Some(Ok((start, total - 1)));
    }
    let end: u64 = match text::parse_u64(&last) {
        Some(end) => end,
        None => return None,
    };
    if start > end || start >= total {
        return Some(Err(()));
    }
    Some(
        Ok(
            (
                start,
                if end < total {
                    end
                } else {
                    total - 1
                },
            ),
        ),
    )
}

/// A range that can be satisfied lies within the bytes there are.
pub proof fn law_range_lies_within(header: Seq<char>, total: int)
    requires
        total >= 0,
    ensures
        match range_in(header, total) {
            Some(Ok((start, end))) => 0 <= start <= end < total,
            _ => true,
        },
{
    if "bytes="@.is_prefix_of(header) {
        match text::cut_at(header.skip("bytes="@.len() as int), '-') {
            Some((first, last)) => {
                text::lemma_read_unsigned(first);
                text::lemma_read_unsigned(last);
            },
            None => {},
        }
    }
}

/// Which bytes answer a request.
#[derive(Clone, Copy, Debug, PartialEq, Eq, Structural)]
pub enum Span {
    /// All of them, as a plain 200.
    Whole,
    /// From the first to the last named, as a 206.
    Part(u64, u64),
    /// None, as a 416.
    Nothing,
}

/// The bytes a `Range` header asks for.
pub open spec fn span_of(range: Option<Seq<char>>, total: int) -> Span {
    match range {
        Some(header) => match range_in(header, total) {
            Some(Ok((start, end))) => Span::Part(start as u64, end as u64),
            Some(Err(_)) => Span::Nothing,
            None => Span::Whole,
        },
        None => Span::Whole,
    }
}

/// The status a span is answered with.
pub open spec fn span_status(span: Span) -> u16 {
    match span {
        Span::Whole => 200,
        Span::Part(_, _) => 206,
        Span::Nothing => 416,
    }
}

/// The `Content-Range` a span is answered with, where it has one.
pub open spec fn content_range(span: Span, total: nat) -> Option<Seq<char>> {
    match span {
        Span::Whole => None,
        Span::Part(start, end) => Some(
            "bytes "@ + text::numeral(start as nat, 10) + "-"@ + text::numeral(end as nat, 10)
                + "/"@ + text::numeral(total, 10),
        ),
        Span::Nothing => Some("bytes */"@ + text::numeral(total, 10)),
    }
}

/// The bytes a `Range` header asks for.
pub fn asked_span(range: Option<&str>, total: u64) -> (r: Span)
    ensures
        r == span_of(text::opt_str(range), total as int),
        match r {
            Span::Part(start, end) => start <= end < total,
            _ => true,
        },
{
    match range {
        Some(header) => {
            proof {
                law_range_lies_within(header@, total as int);
            }
            match parse_range(header, total) {
                Some(Ok((start, end))) => Span::Part(start, end),
                Some(Err(_)) => Span::Nothing,
                None => Span::Whole,
            }
        },
        None => Span::Whole,
    }
}

// ---- Answers -------------------------------------------------------------------
/// One response header.
#[derive(Debug)]
pub struct Header {
    pub name: &'static str,
    pub value: String,
}

/// The headers of a list, as names and values.
pub open spec fn header_texts(headers: Seq<Header>) -> Seq<(Seq<char>, Seq<char>)> {
    headers.map_values(|h: Header| (h.name@, h.value@))
}

/// Puts one more header on a response.
pub fn put_header(headers: &mut Vec<Header>, name: &'static str, value: &str)
    ensures
        header_texts(final(headers)@) == header_texts(old(headers)@).push((name@, value@)),
{
    let ghost before = headers@;
    headers.push(Header { name, value: value.to_owned() });
    assert(header_texts(headers@) =~= header_texts(before).push((name@, value@)));
}

/// How long a write-once response is kept: a year, by this browser alone.
pub open spec fn forever() -> Seq<char> {
    "private, max-age=31536000, immutable"@
}

/// A response made of stored bytes.
#[derive(Debug)]
pub struct ByteReply {
    pub status: u16,
    pub headers: Vec<Header>,
    /// Which of the stored bytes the body holds.
    pub span: Span,
    /// Whether the download is counted.
    pub counts: bool,
}

/// The headers of a download.
pub open spec fn download_headers(
    name: Seq<char>,
    mime: Seq<char>,
    inline: bool,
    span: Span,
    total: nat,
) -> Seq<(Seq<char>, Seq<char>)> {
    let disposition = media::disposition(name, inline);
    let base = seq![
        (
            "content-type"@,
            if address::fits_header(mime) {
                mime
            } else {
                "application/octet-stream"@
            },
        ),
        (
            "content-disposition"@,
            if address::fits_header(disposition) {
                disposition
            } else {
                "attachment"@
            },
        ),
        ("accept-ranges"@, "bytes"@),
        ("cache-control"@, forever()),
    ];
    match content_range(span, total) {
        Some(value) => base.push(("content-range"@, value)),
        None => base,
    }
}

/// Whether a download counts: only a forced one, and of one resumed in pieces
/// only the first.
pub open spec fn download_counts(forced: bool, span: Span) -> bool {
    forced && match span {
        Span::Whole => true,
        Span::Part(start, _) => start == 0,
        Span::Nothing => false,
    }
}

/// The text of a `Content-Range`.
pub fn content_range_text(span: Span, total: u64) -> (r: Option<String>)
    ensures
        text::opt_text(r) == content_range(span, total as nat),
{
    match span {
        Span::Whole => None,
        Span::Part(start, end) => {
            let mut out = text::glue("bytes ", &text::decimal(start));
            out.append("-");
            out.append(&text::decimal(end));
            out.append("/");
            out.append(&text::decimal(total));
            Some(out)
        },
        Span::Nothing => Some(text::glue("bytes */", &text::decimal(total))),
    }
}

/// Whether a reply is the answer to a request for a file's bytes, see
/// [`download_reply`].
pub open spec fn bytes_answered(
    reply: ByteReply,
    file: File,
    forced: bool,
    range: Option<Seq<char>>,
    total: u64,
) -> bool {
    &&& reply.span == span_of(range, total as int)
    &&& match reply.span {
        Span::Part(start, end) => start <= end < total,
        _ => true,
    }
    &&& reply.status == span_status(reply.span)
    &&& reply.counts == download_counts(forced, reply.span)
    &&& header_texts(reply.headers@) == download_headers(
        file.name@,
        file.mime@,
        !forced && media::safe_inline(file.mime@),
        reply.span,
        total as nat,
    )
}

/// The answer to a request for a file's bytes. Only `?dl=1` counts a download:
/// the viewer reads the same bytes inline, and looking is not downloading.
pub fn download_reply(file: &File, forced: bool, range: Option<&str>, total: u64) -> (r: ByteReply)
    ensures
        bytes_answered(
            r,
            *file,
            forced,
            text::opt_str(range),
            total,
        ),
{
    let inline = !forced && media::inline_ok(&file.mime);
    let span = asked_span(range, total);
    let disposition = media::disposition_of(&file.name, inline);
    let mut headers: Vec<Header> = Vec::new();
    put_header(&mut headers, "content-type", header_or(&file.mime, "application/octet-stream"));
    put_header(&mut headers, "content-disposition", header_or(&disposition, "attachment"));
    put_header(&mut headers, "accept-ranges", "bytes");
    put_header(&mut headers, "cache-control", "private, max-age=31536000, immutable");
    if let Some(value) = content_range_text(span, total) {
        put_header(&mut headers, "content-range", &value);
    }
    proof {
        assert(header_texts(headers@) =~= download_headers(
            file.name@,
            file.mime@,
            inline,
            span,
            total as nat,
        ));
    }
    let counts = forced && match span {
        Span::Whole => true,
        Span::Part(start, _) => start == 0,
        Span::Nothing => false,
    };
    let status: u16 = match span {
        Span::Whole => 200,
        Span::Part(_, _) => 206,
        Span::Nothing => 416,
    };
    ByteReply { status, headers, span, counts }
}

// ---- Who may see a file --------------------------------------------------------
/// A lookup of one file.
pub type FileReply = Result<Option<File>, StoreError>;

/// What the store said of a file and of the reader's grants on it, as far as it
/// was asked.
#[derive(Debug)]
pub struct FileFacts {
    pub row: Option<FileReply>,
    /// Whether a live grant opens the file to the reader.
    pub can_see: Option<Result<bool, StoreError>>,
    /// Whether that grant opens the download too.
    pub can_download: Option<Result<bool, StoreError>>,
}

/// A grant check that failed opens nothing.
pub open spec fn granted(answer: Result<bool, StoreError>) -> bool {
    match answer {
        Ok(open) => open,
        Err(_) => false,
    }
}

/// What is known of a reader's way to a file.
#[derive(Clone, Copy, Debug, PartialEq, Eq, Structural)]
pub enum Sight {
    /// Look the file up.
    LookFile,
    /// Ask whether a grant opens it.
    AskGrant,
    /// It opens.
    Open,
    /// It is not there for this reader.
    Missing,
}

/// What is known of a reader's way to a file: its owner may open it, and anyone
/// holding a live grant onto it may. A trashed file opens for nobody.
pub open spec fn sight_of(reader: Seq<char>, facts: FileFacts) -> Sight {
    match facts.row {
        None => Sight::LookFile,
        Some(Ok(Some(file))) => if file.deleted_at is Some {
            Sight::Missing
        } else if file.owner_id@ == reader {
            Sight::Open
        } else {
            match facts.can_see {
                None => Sight::AskGrant,
                Some(answer) => if granted(answer) {
                    Sight::Open
                } else {
                    Sight::Missing
                },
            }
        },
        _ => Sight::Missing,
    }
}

/// The file row this account may open, see [`sight_of`]. "No such file" and
/// "not shared" are one answer.
pub fn visible_file(reader: &str, facts: &FileFacts) -> (r: Sight)
    ensures
        r == sight_of(reader@, *facts),
{
    match &facts.row {
        None => Sight::LookFile,
        Some(Ok(Some(file))) => if file.deleted_at.is_some() {
            Sight::Missing
        } else if text::same(&file.owner_id, reader) {
            Sight::Open
        } else {
            match &facts.can_see {
                None => Sight::AskGrant,
                Some(Ok(true)) => Sight::Open,
                Some(_) => Sight::Missing,
            }
        },
        Some(_) => Sight::Missing,
    }
}

/// What to do next about a request for a file's bytes.
#[derive(Clone, Copy, Debug, PartialEq, Eq, Structural)]
pub enum DownloadStep {
    /// Nobody is signed in: to the front door.
    FrontDoor,
    LookFile,
    /// Ask whether a grant opens the file.
    AskGrant,
    /// Ask whether the grant opens the download.
    AskDownload,
    /// Read the bytes and serve them.
    Serve,
    NotFound,
}

/// What to do next about a request for a file's bytes. A view-only grant opens
/// what may be shown inline, so the viewer has its preview; taking the file
/// away stays the stranger's answer.
pub open spec fn download_after(
    user: Result<User, Refusal>,
    facts: FileFacts,
    forced: bool,
) -> DownloadStep {
    match user {
        Err(_) => DownloadStep::FrontDoor,
        Ok(user) => match sight_of(user.id@, facts) {
            Sight::LookFile => DownloadStep::LookFile,
            Sight::AskGrant => DownloadStep::AskGrant,
            Sight::Missing => DownloadStep::NotFound,
            Sight::Open => {
                let file = facts.row->0->Ok_0->0;
                if file.owner_id@ == user.id@ || (!forced && media::safe_inline(file.mime@)) {
                    DownloadStep::Serve
                } else {
                    match facts.can_download {
                        None => DownloadStep::AskDownload,
                        Some(answer) => if granted(answer) {
                            DownloadStep::Serve
                        } else {
                            DownloadStep::NotFound
                        },
                    }
                }
            },
        },
    }
}

/// What to do next about a request for a file's bytes, see [`download_after`].
pub fn download_step(user: &Result<User, Refusal>, facts: &FileFacts, forced: bool) -> (r:
    DownloadStep)
    ensures
        r == download_after(*user, *facts, forced),
{
    let user = match user {
        Ok(user) => user,
        Err(_) => return DownloadStep::FrontDoor,
    };
    match visible_file(&user.id, facts) {
        Sight::LookFile => DownloadStep::LookFile,
        Sight::AskGrant => DownloadStep::AskGrant,
        Sight::Missing => DownloadStep::NotFound,
        Sight::Open => match &facts.row {
            Some(Ok(Some(file))) => if text::same(&file.owner_id, &user.id) || (!forced
                && media::inline_ok(&file.mime)) {
                DownloadStep::Serve
            } else {
                match &facts.can_download {
                    None => DownloadStep::AskDownload,
                    Some(Ok(true)) => DownloadStep::Serve,
                    Some(_) => DownloadStep::NotFound,
                }
            },
            _ => DownloadStep::NotFound,
        },
    }
}

/// A file that is somebody else's, not shared, or trashed is answered like one
/// that is not there.
pub proof fn law_closed_files_are_not_found(
    user: User,
    file: File,
    facts: FileFacts,
    forced: bool,
)
    requires
        facts.row == Some(Ok::<Option<File>, StoreError>(Some(file))),
        file.deleted_at is Some || (file.owner_id@ != user.id@ && facts.can_see == Some(
            Ok::<bool, StoreError>(false),
        )),
    ensures
        download_after(Ok(user), facts, forced) == download_after(
            Ok(user),
            FileFacts { row: Some(Ok(None)), ..facts },
            forced,
        ),
        download_after(Ok(user), facts, forced) == DownloadStep::NotFound,
{
}

/// A view-only grant previews but never downloads: the forced download is the
/// stranger's answer, the safe preview is served.
pub proof fn law_view_only_previews_but_never_downloads(user: User, file: File, facts: FileFacts)
    requires
        facts.row == Some(Ok::<Option<File>, StoreError>(Some(file))),
        file.deleted_at is None,
        file.owner_id@ != user.id@,
        facts.can_see == Some(Ok::<bool, StoreError>(true)),
        facts.can_download == Some(Ok::<bool, StoreError>(false)),
    ensures
        download_after(Ok(user), facts, true) == DownloadStep::NotFound,
        media::safe_inline(file.mime@) ==> download_after(Ok(user), facts, false)
            == DownloadStep::Serve,
        !media::safe_inline(file.mime@) ==> download_after(Ok(user), facts, false)
            == DownloadStep::NotFound,
{
}

// ---- Thumbnails ----------------------------------------------------------------
/// The FNV-1a hash of a run of bytes.
pub open spec fn fnv_of(bytes: Seq<u8>) -> u64
    decreases bytes.len(),
{
    if bytes.len() == 0 {
        0xcbf29ce484222325
    } else {
        vstd::wrapping::u64_specs::wrapping_mul(
            fnv_of(bytes.drop_last()) ^ (bytes.last() as u64),
            0x100000001b3,
        )
    }
}

/// A cheap, non-cryptographic hash, good enough for an `ETag` on bytes only
/// this server ever writes.
pub fn fnv1a(bytes: &[u8]) -> (r: u64)
    ensures
        r == fnv_of(bytes@),
{
    let mut hash: u64 = 0xcbf29ce484222325;
    let mut i: usize = 0;
    while i < bytes.len()
        invariant
            i <= bytes.len(),
            hash == fnv_of(bytes@.take(i as int)),
        decreases bytes.len() - i,
    {
        proof {
            assert(bytes@.take(i + 1).drop_last() == bytes@.take(i as int));
        }
        hash = (hash ^ (bytes[i] as u64)).wrapping_mul(0x100000001b3);
        i += 1;
    }
    assert(bytes@.take(i as int) == bytes@);
    hash
}

/// The `ETag` of stored bytes.
pub open spec fn etag_of(bytes: Seq<u8>) -> Seq<char> {
    "\""@ + text::numeral(fnv_of(bytes) as nat, 16) + "\""@
}

/// The `ETag` of stored bytes.
pub fn etag(bytes: &[u8]) -> (r: String)
    ensures
        r@ == etag_of(bytes@),
{
    let mut out = text::glue("\"", &text::hexadecimal(fnv1a(bytes)));
    out.append("\"");
    out
}

/// A response that may hold a picture.
#[derive(Debug)]
pub struct PictureReply {
    pub status: u16,
    pub headers: Vec<Header>,
    /// Whether the body holds the picture; else it is empty.
    pub with_body: bool,
}

/// The headers of a thumbnail.
pub open spec fn thumb_headers(bytes: Seq<u8>) -> Seq<(Seq<char>, Seq<char>)> {
    seq![
        ("etag"@, etag_of(bytes)),
        ("cache-control"@, forever()),
        ("content-type"@, "image/webp"@),
    ]
}

/// Whether a reply is the answer to a request for a thumbnail, see
/// [`thumb_reply`].
pub open spec fn thumb_answered(
    reply: PictureReply,
    bytes: Seq<u8>,
    if_none_match: Option<Seq<char>>,
) -> bool {
    &&& header_texts(reply.headers@) == thumb_headers(bytes)
    &&& reply.with_body == (if_none_match != Some(etag_of(bytes)))
    &&& reply.status == if reply.with_body {
        200u16
    } else {
        304u16
    }
}

/// The answer to a request for a thumbnail: the picture, or 304 to a browser
/// that holds it already.
pub fn thumb_reply(bytes: &[u8], if_none_match: Option<&str>) -> (r: PictureReply)
    ensures
        thumb_answered(
            r,
            bytes@,
            text::opt_str(if_none_match),
        ),
{
    let tag = etag(bytes);
    let mut headers: Vec<Header> = Vec::new();
    put_header(&mut headers, "etag", &tag);
    put_header(&mut headers, "cache-control", "private, max-age=31536000, immutable");
    put_header(&mut headers, "content-type", "image/webp");
    assert(header_texts(headers@) =~= thumb_headers(bytes@));
    let held = match if_none_match {
        Some(value) => text::same(value, &tag),
        None => false,
    };
    PictureReply {
        status: if held {
            304
        } else {
            200
        },
        headers,
        with_body: !held,
    }
}

/// What to do next about a request for a thumbnail. A listing shows thumbnails
/// wherever it shows names.
pub open spec fn thumb_after(user: Result<User, Refusal>, facts: FileFacts) -> Sight {
    match user {
        Err(_) => Sight::Missing,
        Ok(user) => sight_of(user.id@, facts),
    }
}

/// What to do next about a request for a thumbnail: the file's own visibility,
/// and nothing for a browser with nobody in it.
pub fn thumb_step(user: &Result<User, Refusal>, facts: &FileFacts) -> (r: Sight)
    ensures
        r == thumb_after(*user, *facts),
{
    match user {
        Err(_) => Sight::Missing,
        Ok(user) => visible_file(&user.id, facts),
    }
}

// ---- The viewer page -----------------------------------------------------------
/// Everything the viewer page shows of a file.
#[derive(Debug)]
pub struct ViewPage {
    pub name: String,
    pub chip: Chip,
    /// The type and the size.
    pub meta: String,
    /// The inline viewer, if the reader gets one.
    pub viewer: Option<ViewerKind>,
    /// Where the viewer reads the bytes.
    pub src: String,
    /// The download link, while the reader may download.
    pub download_href: Option<String>,
    pub size: String,
    pub uploaded: String,
    pub downloads: u64,
}

/// The viewer a reader gets: every one for a reader who may download, and for a
/// view-only reader what is safe inline.
pub open spec fn viewer_for(mime: Seq<char>, may_download: bool) -> Option<ViewerKind> {
    if may_download || media::safe_inline(mime) {
        media::viewer_of(mime)
    } else {
        None
    }
}

/// A file's type and size in words.
pub open spec fn meta_of(file: File) -> Seq<char> {
    file.mime@ + " · "@ + sizes::size_text(file.size_bytes as nat, sizes::binary_units())
}

/// A file's type and size in words.
pub fn meta_line(file: &File) -> (r: String)
    ensures
        r@ == meta_of(*file),
{
    let mut out = text::glue(&file.mime, " · ");
    out.append(&sizes::human_bytes(file.size_bytes));
    out
}

/// Whether a reader may take a file away, see [`may_download`].
pub open spec fn may_take(
    reader: Seq<char>,
    file: File,
    can_download: Result<bool, StoreError>,
) -> bool {
    &&& (file.owner_id@ == reader || granted(can_download))
}

/// Whether a reader may take a file away: its owner may, and a grantee when the
/// grant says so.
pub fn may_download(reader: &str, file: &File, can_download: &Result<bool, StoreError>) -> (r: bool)
    ensures
        r == may_take(reader@, *file, *can_download),
{
    if text::same(&file.owner_id, reader) {
        return true;
    }
    match can_download {
        Ok(open) => *open,
        Err(_) => false,
    }
}

/// Whether a page is the viewer page of a file, see [`view_page`].
pub open spec fn view_shows(
    page: ViewPage,
    file: File,
    may_download: bool,
) -> bool {
    &&& page.name@ == file.name@
    &&& page.chip@ == media::entry_chip_of(file)
    &&& page.meta@ == meta_of(file)
    &&& page.viewer == viewer_for(file.mime@, may_download)
    &&& page.src@ == "/file/"@ + file.id@
    &&& text::opt_text(page.download_href) == if may_download {
        Some("/file/"@ + file.id@ + "?dl=1"@)
    } else {
        None
    }
    &&& page.size@ == sizes::size_text(file.size_bytes as nat, sizes::binary_units())
    &&& page.uploaded@ == clock::day_name(file.created_at@)
    &&& page.downloads == file.download_count
}

/// One file's viewer page: its name, the inline viewer for its kind, a download
/// link while the reader may download, and its details.
pub fn view_page(file: &File, may_download: bool) -> (r: ViewPage)
    ensures
        view_shows(
            r,
            *file,
            may_download,
        ),
{
    let src = text::glue("/file/", &file.id);
    let download_href = if may_download {
        Some(text::glue(&src, "?dl=1"))
    } else {
        None
    };
    ViewPage {
        name: file.name.clone(),
        chip: media::entry_chip(file),
        meta: meta_line(file),
        viewer: if may_download || media::inline_ok(&file.mime) {
            media::viewer_kind(&file.mime)
        } else {
            None
        },
        src,
        download_href,
        size: sizes::human_bytes(file.size_bytes),
        uploaded: file.created_at.day(),
        downloads: file.download_count,
    }
}

// ---- Small uploads -------------------------------------------------------------
/// Back to the folder an upload was posted from.
pub open spec fn folder_address(folder: Option<Seq<char>>, refusal: Option<Refusal>) -> Seq<char> {
    let base = match folder {
        Some(id) => if id.len() > 0 {
            "/drive?folder="@ + id
        } else {
            "/drive"@
        },
        None => "/drive"@,
    };
    match refusal {
        Some(refusal) => base + seq![address::joint(base)] + address::answer_pair(
            refusal::code_of(refusal),
            "upload"@,
        ),
        None => base,
    }
}

/// Back to the folder the upload was posted from, carrying the refusal on the
/// query the way a browser without script reads it.
pub fn back_to_folder(folder: Option<&str>, refusal: Option<Refusal>) -> (r: String)
    ensures
        r@ == folder_address(text::opt_str(folder), refusal),
{
    let base = match folder {
        Some(id) => if id.unicode_len() > 0 {
            text::glue("/drive?folder=", id)
        } else {
            "/drive".to_owned()
        },
        None => "/drive".to_owned(),
    };
    address::answered(&base, "upload", refusal, false)
}

/// One field of the upload form, as it arrives.
#[derive(Debug)]
pub enum FormField {
    /// The destination; nothing where its text could not be read.
    Folder(Option<String>),
    /// A file part: its name, if it carries one, and how many bytes it holds.
    File(Option<String>, u64),
    /// A field of another name.
    Other,
    /// The body broke off.
    Broken,
}

/// The upload form so far: the destination, and the files to keep, each by the
/// position of its field, its name and its size.
#[derive(Debug)]
pub struct UploadForm {
    pub folder: Option<String>,
    pub files: Vec<(usize, String, u64)>,
}

/// The files of a form as values.
pub open spec fn upload_files(files: Seq<(usize, String, u64)>) -> Seq<(int, Seq<char>, int)> {
    files.map_values(|f: (usize, String, u64)| (f.0 as int, f.1@, f.2 as int))
}

/// A field that holds anything.
pub open spec fn filled(raw: Option<Seq<char>>) -> Option<Seq<char>> {
    match raw {
        Some(id) => if id.len() > 0 {
            Some(id)
        } else {
            None
        },
        None => None,
    }
}

/// Whether a file part names a file: only then are its bytes worth reading.
pub fn is_file_part(name: &Option<String>) -> (r: bool)
    ensures
        r == (filled(text::opt_text(*name)) is Some),
{
    match name {
        Some(name) => name.as_str().unicode_len() > 0,
        None => false,
    }
}

/// Whether a form is what hearing a field makes of the one before, and the
/// answer what is then sent, see [`UploadForm::hear`].
pub open spec fn form_heard(
    before: UploadForm,
    at: usize,
    field: FormField,
    after: UploadForm,
    answer: Option<Seq<char>>,
) -> bool {
    &&& match field {
        FormField::Folder(raw) => {
            &&& answer is None
            &&& text::opt_text(after.folder) == filled(text::opt_text(raw))
            &&& after.files == before.files
        },
        FormField::File(name, size) => {
            &&& answer is None
            &&& after.folder == before.folder
            &&& upload_files(after.files@) == match filled(text::opt_text(name)) {
                Some(name) => upload_files(before.files@).push(
                    (at as int, name, size as int),
                ),
                None => upload_files(before.files@),
            }
        },
        FormField::Other => answer is None && after == before,
        FormField::Broken => {
            &&& after == before
            &&& answer == Some(
                folder_address(
                    text::opt_text(before.folder),
                    Some(Refusal::Unavailable),
                ),
            )
        },
    }
}

impl UploadForm {
    /// Nothing read yet.
    pub fn new() -> (r: UploadForm)
        ensures
            r.folder is None,
            upload_files(r.files@) == Seq::<(int, Seq<char>, int)>::empty(),
    {
        let r = UploadForm { folder: None, files: Vec::new() };
        assert(upload_files(r.files@) =~= Seq::<(int, Seq<char>, int)>::empty());
        r
    }

    /// Takes the field at position `at`. A file part without a name is no file.
    /// Returns the address to answer with where the body broke off.
    pub fn hear(&mut self, at: usize, field: FormField) -> (r: Option<String>)
        ensures
            form_heard(
                *old(self),
                at,
                field,
                *final(self),
                text::opt_text(r),
            ),
    {
        match field {
            FormField::Folder(raw) => {
                self.folder = match raw {
                    Some(id) => if id.as_str().unicode_len() > 0 {
                        Some(id)
                    } else {
                        None
                    },
                    None => None,
                };
                None
            },
            FormField::File(name, size) => {
                let kept = is_file_part(&name);
                if let Some(name) = name {
                    if kept {
                        let ghost before = self.files@;
                        let ghost told = name@;
                        self.files.push((at, name, size));
                        assert(upload_files(self.files@) =~= upload_files(before).push(
                            (at as int, told, size as int),
                        ));
                    }
                }
                None
            },
            FormField::Other => None,
            FormField::Broken => Some(
                back_to_folder(drive::opt_slice(&self.folder), Some(Refusal::Unavailable)),
            ),
        }
    }
}

/// Whether a plan asks for what an upload needs.
pub open spec fn plans_upload(plan: Plan, folder: Option<Seq<char>>) -> bool {
    plan matches Plan::Needs(needs) && drive::needs_for(
        needs@,
        None,
        match folder {
            Some(id) => id,
            None => Seq::empty(),
        },
        Refusal::NotFound,
    )
}

/// The destination must be an owned, live folder, or the root.
pub fn upload_plan(folder: &Option<String>) -> (r: Plan)
    ensures
        plans_upload(r, text::opt_text(*folder)),
{
    match folder {
        Some(id) => plan_for(None, id, Refusal::NotFound),
        None => {
            let none = String::new();
            plan_for(None, &none, Refusal::NotFound)
        },
    }
}

/// What to do next about an upload.
#[derive(Clone, Copy, Debug, PartialEq, Eq, Structural)]
pub enum UploadStep {
    /// Hand the file at this position to the store.
    Insert(usize),
    /// Answer, with the refusal if there is one.
    Done(Option<Refusal>),
}

/// What to do next about the files from `i` on: each in turn, none over the
/// ceiling, and none after a refusal.
pub open spec fn upload_after(
    files: Seq<(int, Seq<char>, int)>,
    limit: int,
    outcomes: Seq<Result<(), StoreError>>,
    i: int,
) -> UploadStep
    decreases files.len() - i,
{
    if i < 0 || i >= files.len() {
        UploadStep::Done(None)
    } else if files[i].2 > limit {
        UploadStep::Done(Some(Refusal::UploadTooLarge))
    } else if i >= outcomes.len() {
        UploadStep::Insert(i as usize)
    } else {
        match outcomes[i] {
            Ok(_) => upload_after(files, limit, outcomes, i + 1),
            Err(error) => UploadStep::Done(Some(file_words(error))),
        }
    }
}

/// What to do next about an upload: one file may not pass the instance ceiling,
/// and oversize files never reach the store.
pub fn upload_step(
    files: &Vec<(usize, String, u64)>,
    limit: u64,
    outcomes: &Vec<Result<(), StoreError>>,
) -> (r: UploadStep)
    ensures
        r == upload_after(upload_files(files@), limit as int, outcomes@, 0),
{
    let ghost all = upload_files(files@);
    let mut i: usize = 0;
    while i < files.len()
        invariant
            i <= files.len(),
            all == upload_files(files@),
            upload_after(all, limit as int, outcomes@, 0) == upload_after(
                all,
                limit as int,
                outcomes@,
                i as int,
            ),
        decreases files.len() - i,
    {
        assert(all[i as int].2 == files@[i as int].2);
        if files[i].2 > limit {
            return UploadStep::Done(Some(Refusal::UploadTooLarge));
        }
        if i >= outcomes.len() {
            return UploadStep::Insert(i);
        }
        match &outcomes[i] {
            Ok(_) => {},
            Err(error) => return UploadStep::Done(Some(store_refusal(*error))),
        }
        i += 1;
    }
    UploadStep::Done(None)
}

proof fn lemma_insert_within(
    files: Seq<(int, Seq<char>, int)>,
    limit: int,
    outcomes: Seq<Result<(), StoreError>>,
    i: int,
)
    requires
        0 <= i,
        files.len() <= usize::MAX,
    ensures
        match upload_after(files, limit, outcomes, i) {
            UploadStep::Insert(at) => {
                &&& i <= at < files.len()
                &&& files[at as int].2 <= limit
                &&& i <= outcomes.len() ==> at == outcomes.len()
                &&& forall|k: int| i <= k < outcomes.len() && k < at ==> (#[trigger] outcomes[k]) is Ok
            },
            UploadStep::Done(_) => true,
        },
    decreases files.len() - i,
{
    if i < files.len() && i < outcomes.len() && files[i].2 <= limit && outcomes[i] is Ok {
        lemma_insert_within(files, limit, outcomes, i + 1);
    }
}

/// Only a file within the ceiling is handed to the store, each in its turn, and
/// only while everything before it was taken.
pub proof fn law_no_oversize_file_reaches_the_store(
    files: Seq<(int, Seq<char>, int)>,
    limit: int,
    outcomes: Seq<Result<(), StoreError>>,
)
    requires
        files.len() <= usize::MAX,
    ensures
        match upload_after(files, limit, outcomes, 0) {
            UploadStep::Insert(at) => {
                &&& at < files.len()
                &&& files[at as int].2 <= limit
                &&& at == outcomes.len()
                &&& forall|k: int| 0 <= k < at ==> (#[trigger] outcomes[k]) is Ok
            },
            UploadStep::Done(_) => true,
        },
{
    lemma_insert_within(files, limit, outcomes, 0);
}

// ---- The file calls --------------------------------------------------------------
/// Whether a plan asks for what renaming or trashing a file needs.
pub open spec fn plans_file(plan: Plan, id: Seq<char>) -> bool {
    plan matches Plan::Needs(needs) && drive::needs_for(
        needs@,
        Some((ShareKind::File, id)),
        Seq::empty(),
        Refusal::NotFound,
    )
}

/// `rename` and `delete`: the file must be the caller's own and live.
pub fn file_plan(id: &str) -> (r: Plan)
    ensures
        plans_file(r, id@),
{
    let none = String::new();
    plan_for(Some((ShareKind::File, id)), &none, Refusal::NotFound)
}

/// Whether a plan asks for what moving a file needs.
pub open spec fn plans_file_move(plan: Plan, id: Seq<char>, folder: Seq<char>) -> bool {
    plan matches Plan::Needs(needs) && drive::needs_for(
        needs@,
        Some((ShareKind::File, id)),
        folder,
        Refusal::NotFound,
    )
}

/// `move`: the file and, unless it is the root, where it goes must be the
/// caller's own and live.
pub fn move_file_plan(id: &str, folder_id: &str) -> (r: Plan)
    ensures
        plans_file_move(r, id@, folder_id@),
{
    plan_for(Some((ShareKind::File, id)), folder_id, Refusal::NotFound)
}

/// Whether a redirect answers a rename, a move or a delete of a file.
pub open spec fn file_changed(
    sent: Redirect,
    referer: Option<Seq<char>>,
    outcome: Result<(), StoreError>,
) -> bool {
    &&& sent.location@ == drive::drive_back(referer)
    &&& sent.refusal == match outcome {
        Ok(_) => None,
        Err(error) => Some(file_words(error)),
    }
}

/// The answer to a rename, a move or a delete.
pub fn changed_file(referer: Option<&str>, outcome: Result<(), StoreError>) -> (r: Redirect)
    ensures
        file_changed(
            r,
            text::opt_str(referer),
            outcome,
        ),
{
    Redirect {
        location: back_to(referer, "/drive"),
        refusal: match outcome {
            Ok(_) => None,
            Err(error) => Some(store_refusal(error)),
        },
    }
}

} // verus!
