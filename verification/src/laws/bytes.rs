//! A file's bytes: who gets them, which of them, and under which headers.
use crate::address;
use crate::files;
use crate::files::{ByteReply, DownloadStep, FileFacts, PictureReply, Sight, Span};
use crate::media;
use crate::media::ViewerKind;
use crate::model::{File, StoreError, ThumbState, User};
use crate::refusal::Refusal;
use crate::share;
use crate::text;
use vstd::prelude::*;

verus! {

/// A live file's bytes go to its owner whatever the grants say, and to everyone
/// whose grant opens both the sight and the download, forced or not.
pub proof fn law_owners_and_grantees_are_served(user: User, file: File, facts: FileFacts, forced: bool)
    requires
        facts.row == Some(Ok::<Option<File>, StoreError>(Some(file))),
        file.deleted_at is None,
    ensures
        file.owner_id@ == user.id@ ==> files::download_after(Ok(user), facts, forced)
            == DownloadStep::Serve,
        facts.can_see == Some(Ok::<bool, StoreError>(true)) && facts.can_download == Some(
            Ok::<bool, StoreError>(true),
        ) ==> files::download_after(Ok(user), facts, forced) == DownloadStep::Serve,
{
}

/// A text begins with the letters of its prefix.
pub proof fn lemma_prefix_letter(prefix: Seq<char>, s: Seq<char>, k: int)
    requires
        prefix.is_prefix_of(s),
        0 <= k < prefix.len(),
    ensures
        s[k] == prefix[k],
{
    assert(s.subrange(0, prefix.len() as int)[k] == s[k]);
}

/// The view page shows a file to whoever may download it, in the viewer of its
/// type: every picture but the kind no browser draws, every video and every
/// sound, and the two documents browsers render.
pub proof fn law_downloaders_see_the_viewer(page: files::ViewPage, file: File)
    requires
        files::view_shows(page, file, true),
    ensures
        "image/"@.is_prefix_of(file.mime@) && file.mime@ != "image/heic"@ ==> page.viewer == Some(
            ViewerKind::Image,
        ),
        "video/"@.is_prefix_of(file.mime@) ==> page.viewer == Some(ViewerKind::Video),
        "audio/"@.is_prefix_of(file.mime@) ==> page.viewer == Some(ViewerKind::Audio),
        file.mime@ == "application/pdf"@ ==> page.viewer == Some(ViewerKind::Pdf),
        file.mime@ == "text/plain"@ ==> page.viewer == Some(ViewerKind::Text),
{
    reveal_strlit("image/");
    reveal_strlit("video/");
    reveal_strlit("audio/");
    reveal_strlit("image/heic");
    reveal_strlit("application/pdf");
    reveal_strlit("text/plain");
    let mime = file.mime@;
    if "video/"@.is_prefix_of(mime) {
        lemma_prefix_letter("video/"@, mime, 0);
    }
    if "audio/"@.is_prefix_of(mime) {
        lemma_prefix_letter("audio/"@, mime, 0);
        lemma_prefix_letter("audio/"@, mime, 1);
    }
    if "image/"@.is_prefix_of(mime) {
        lemma_prefix_letter("image/"@, mime, 0);
    }
}

/// Whether a type is one this origin shows inside a page: pictures, videos and
/// sounds that are neither drawings nor what no browser decodes, and the two
/// documents browsers render.
pub open spec fn shown_in_a_page(mime: Seq<char>) -> bool {
    ||| "image/"@.is_prefix_of(mime) && mime != "image/heic"@ && mime != "image/svg+xml"@
    ||| "video/"@.is_prefix_of(mime)
    ||| "audio/"@.is_prefix_of(mime)
    ||| mime == "application/pdf"@
    ||| mime == "text/plain"@
}

proof fn lemma_shown_in_a_page(mime: Seq<char>)
    ensures
        media::safe_inline(mime) == shown_in_a_page(mime),
{
    reveal_strlit("image/");
    reveal_strlit("video/");
    reveal_strlit("audio/");
    reveal_strlit("image/heic");
    reveal_strlit("image/svg+xml");
    reveal_strlit("text/html");
    reveal_strlit("application/pdf");
    reveal_strlit("text/plain");
    if "video/"@.is_prefix_of(mime) {
        lemma_prefix_letter("video/"@, mime, 0);
    }
    if "audio/"@.is_prefix_of(mime) {
        lemma_prefix_letter("audio/"@, mime, 0);
        lemma_prefix_letter("audio/"@, mime, 1);
    }
    if "image/"@.is_prefix_of(mime) {
        lemma_prefix_letter("image/"@, mime, 0);
    }
    assert("text/html"@[0] == 't' && "text/plain"@[0] == 't' && "text/html"@[5] == 'h'
        && "text/plain"@[5] == 'p');
    assert("application/pdf"@[0] == 'a' && "application/pdf"@[1] == 'p');
    assert("image/heic"@[0] == 'i' && "image/svg+xml"@[0] == 'i');
}

/// A view-only reader sees a file in the viewer of its type only where the type
/// may be shown in a page, and is offered no download; whoever may download is
/// offered it, under the same address the viewer reads.
pub proof fn law_view_only_readers_see_what_is_safe(
    page: files::ViewPage,
    file: File,
    may_download: bool,
)
    requires
        files::view_shows(page, file, may_download),
    ensures
        !may_download && !shown_in_a_page(file.mime@) ==> page.viewer is None,
        !may_download && shown_in_a_page(file.mime@) ==> {
            &&& "image/"@.is_prefix_of(file.mime@) ==> page.viewer == Some(ViewerKind::Image)
            &&& "video/"@.is_prefix_of(file.mime@) ==> page.viewer == Some(ViewerKind::Video)
            &&& "audio/"@.is_prefix_of(file.mime@) ==> page.viewer == Some(ViewerKind::Audio)
            &&& file.mime@ == "application/pdf"@ ==> page.viewer == Some(ViewerKind::Pdf)
            &&& file.mime@ == "text/plain"@ ==> page.viewer == Some(ViewerKind::Text)
        },
        page.viewer is Some ==> shown_in_a_page(file.mime@) || file.mime@ == "image/svg+xml"@,
        !may_download ==> page.download_href is None,
        page.name@ == file.name@,
        page.downloads == file.download_count,
        page.src@ == "/file/"@ + file.id@,
        may_download ==> page.download_href is Some && page.download_href->0@ == "/file/"@
            + file.id@ + "?dl=1"@,
        file.mime@.is_prefix_of(page.meta@),
{
    lemma_shown_in_a_page(file.mime@);
    assert(page.meta@.subrange(0, file.mime@.len() as int) =~= file.mime@);
    if !may_download && shown_in_a_page(file.mime@) {
        let whole = files::ViewPage { viewer: files::viewer_for(file.mime@, true), ..page };
        assert(whole.viewer == page.viewer);
        lemma_viewer(file.mime@);
    }
}

proof fn lemma_viewer(mime: Seq<char>)
    ensures
        "image/"@.is_prefix_of(mime) && mime != "image/heic"@ ==> media::viewer_of(mime) == Some(
            ViewerKind::Image,
        ),
        "video/"@.is_prefix_of(mime) ==> media::viewer_of(mime) == Some(ViewerKind::Video),
        "audio/"@.is_prefix_of(mime) ==> media::viewer_of(mime) == Some(ViewerKind::Audio),
        mime == "application/pdf"@ ==> media::viewer_of(mime) == Some(ViewerKind::Pdf),
        mime == "text/plain"@ ==> media::viewer_of(mime) == Some(ViewerKind::Text),
{
    reveal_strlit("image/");
    reveal_strlit("video/");
    reveal_strlit("audio/");
    reveal_strlit("image/heic");
    reveal_strlit("application/pdf");
    reveal_strlit("text/plain");
    if "video/"@.is_prefix_of(mime) {
        lemma_prefix_letter("video/"@, mime, 0);
    }
    if "audio/"@.is_prefix_of(mime) {
        lemma_prefix_letter("audio/"@, mime, 0);
        lemma_prefix_letter("audio/"@, mime, 1);
    }
    if "image/"@.is_prefix_of(mime) {
        lemma_prefix_letter("image/"@, mime, 0);
    }
}

/// The way to a file's bytes: nobody signed in goes to the front door, the row
/// is looked up first, then the grant, then the download, and a failed look-up or
/// a grant that does not open is the same answer as no file.
pub proof fn law_the_way_to_the_bytes(
    user: User,
    refusal: Refusal,
    file: File,
    facts: FileFacts,
    forced: bool,
)
    ensures
        files::download_after(Err(refusal), facts, forced) == DownloadStep::FrontDoor,
        facts.row is None ==> files::download_after(Ok(user), facts, forced)
            == DownloadStep::LookFile,
        facts.row is Some && !(facts.row->0 matches Ok(Some(_))) ==> files::download_after(
            Ok(user),
            facts,
            forced,
        ) == DownloadStep::NotFound,
        facts.row == Some(Ok::<Option<File>, StoreError>(Some(file))) && file.deleted_at is None
            && file.owner_id@ != user.id@ ==> {
            let next = files::download_after(Ok(user), facts, forced);
            let preview = !forced && shown_in_a_page(file.mime@);
            &&& facts.can_see is None ==> next == DownloadStep::AskGrant
            &&& facts.can_see is Some && facts.can_see->0 != Ok::<bool, StoreError>(true) ==> next
                == DownloadStep::NotFound
            &&& facts.can_see == Some(Ok::<bool, StoreError>(true)) ==> {
                &&& preview ==> next == DownloadStep::Serve
                &&& !preview && facts.can_download is None ==> next == DownloadStep::AskDownload
                &&& !preview && facts.can_download is Some && facts.can_download->0 != Ok::<
                    bool,
                    StoreError,
                >(true) ==> next == DownloadStep::NotFound
            }
        },
{
    lemma_shown_in_a_page(file.mime@);
}

/// A thumbnail opens to the owner and to every grantee of a live file, whatever
/// its type and whether or not the grant opens the download; for anyone else,
/// and for a browser with nobody in it, it is not there.
pub proof fn law_thumbnails_follow_the_sight(
    user: User,
    refusal: Refusal,
    file: File,
    facts: FileFacts,
)
    ensures
        files::thumb_after(Err(refusal), facts) == Sight::Missing,
        facts.row is None ==> files::thumb_after(Ok(user), facts) == Sight::LookFile,
        facts.row is Some && !(facts.row->0 matches Ok(Some(_))) ==> files::thumb_after(
            Ok(user),
            facts,
        ) == Sight::Missing,
        facts.row == Some(Ok::<Option<File>, StoreError>(Some(file))) ==> {
            let next = files::thumb_after(Ok(user), facts);
            &&& file.deleted_at is Some ==> next == Sight::Missing
            &&& file.deleted_at is None && file.owner_id@ == user.id@ ==> next == Sight::Open
            &&& file.deleted_at is None && file.owner_id@ != user.id@ ==> {
                &&& facts.can_see is None ==> next == Sight::AskGrant
                &&& facts.can_see == Some(Ok::<bool, StoreError>(true)) ==> next == Sight::Open
                &&& facts.can_see is Some && facts.can_see->0 != Ok::<bool, StoreError>(true)
                    ==> next == Sight::Missing
            }
        },
{
}

/// The owner may always take a file away, anyone else exactly where the grant
/// answers that they may.
pub proof fn law_who_may_take_a_file(
    reader: Seq<char>,
    file: File,
    answer: Result<bool, StoreError>,
)
    ensures
        file.owner_id@ == reader ==> files::may_take(reader, file, answer),
        answer == Ok::<bool, StoreError>(true) ==> files::may_take(reader, file, answer),
        file.owner_id@ != reader && answer != Ok::<bool, StoreError>(true) ==> !files::may_take(
            reader,
            file,
            answer,
        ),
{
}

proof fn lemma_range_parts(first: Seq<char>, last: Seq<char>)
    requires
        text::free_of(first, '-') && text::free_of(first, ',') && text::free_of(last, ','),
    ensures
        ({
            let header = "bytes="@ + first + "-"@ + last;
            let spec = header.skip("bytes="@.len() as int);
            &&& "bytes="@.is_prefix_of(header)
            &&& spec == first + seq!['-'] + last
            &&& text::free_of(spec, ',')
            &&& text::cut_at(spec, '-') == Some((first, last))
        }),
{
    reveal_strlit("bytes=");
    reveal_strlit("-");
    let header = "bytes="@ + first + "-"@ + last;
    assert("-"@ =~= seq!['-']);
    assert(header.subrange(0, "bytes="@.len() as int) =~= "bytes="@);
    let spec = header.skip("bytes="@.len() as int);
    assert(spec =~= first + seq!['-'] + last);
    text::lemma_split_front(first, '-', last);
    assert forall|i: int| 0 <= i < spec.len() implies #[trigger] spec[i] != ',' by {
        if i < first.len() {
            assert(spec[i] == first[i]);
        } else if i > first.len() {
            assert(spec[i] == last[i - first.len() - 1]);
        }
    }
}

proof fn lemma_numeral_is_bare(n: nat)
    ensures
        text::numeral(n, 10).len() > 0,
        text::free_of(text::numeral(n, 10), '-') && text::free_of(text::numeral(n, 10), ','),
        text::read_unsigned(text::numeral(n, 10)) == Some(n as int),
{
    text::lemma_numeral_digits(n);
    text::law_numeral_is_read_back(n);
    let s = text::numeral(n, 10);
    assert forall|i: int| 0 <= i < s.len() implies #[trigger] s[i] != '-' && s[i] != ',' by {
        assert(text::is_digit(s[i]));
    }
}

/// A range from one byte to another is answered with exactly those bytes, cut
/// off at the last there is; one that starts behind the end, or ends before it
/// starts, with none.
pub proof fn law_a_closed_range(first: u64, last: u64, total: u64)
    ensures
        ({
            let asked = files::span_of(
                Some("bytes="@ + text::numeral(first as nat, 10) + "-"@ + text::numeral(last as nat, 10)),
                total as int,
            );
            &&& first <= last < total ==> asked == Span::Part(first, last)
            &&& first < total <= last ==> asked == Span::Part(first, (total - 1) as u64)
            &&& first > last || first >= total ==> asked == Span::Nothing
        }),
{
    lemma_numeral_is_bare(first as nat);
    lemma_numeral_is_bare(last as nat);
    lemma_range_parts(text::numeral(first as nat, 10), text::numeral(last as nat, 10));
}

/// A range without an end runs to the last byte.
pub proof fn law_an_open_range(first: u64, total: u64)
    ensures
        ({
            let asked = files::span_of(
                Some("bytes="@ + text::numeral(first as nat, 10) + "-"@ + Seq::<char>::empty()),
                total as int,
            );
            &&& first < total ==> asked == Span::Part(first, (total - 1) as u64)
            &&& first >= total ==> asked == Span::Nothing
        }),
{
    lemma_numeral_is_bare(first as nat);
    lemma_range_parts(text::numeral(first as nat, 10), Seq::empty());
}

/// A range without a start is that many bytes from the end, or all there are.
pub proof fn law_a_suffix_range(count: u64, total: u64)
    ensures
        ({
            let asked = files::span_of(
                Some("bytes="@ + Seq::<char>::empty() + "-"@ + text::numeral(count as nat, 10)),
                total as int,
            );
            &&& 0 < count <= total ==> asked == Span::Part((total - count) as u64, (total - 1) as u64)
            &&& count > total > 0 ==> asked == Span::Part(0, (total - 1) as u64)
            &&& count == 0 || total == 0 ==> asked == Span::Nothing
        }),
{
    lemma_numeral_is_bare(count as nat);
    lemma_range_parts(Seq::empty(), text::numeral(count as nat, 10));
}

/// No range, a range in another unit, and more than one range are answered with
/// the whole file.
pub proof fn law_other_ranges_are_the_whole_file(header: Seq<char>, total: u64)
    ensures
        files::span_of(None, total as int) == Span::Whole,
        !"bytes="@.is_prefix_of(header) ==> files::span_of(Some(header), total as int)
            == Span::Whole,
        !text::free_of(header, ',') ==> files::span_of(Some(header), total as int) == Span::Whole,
{
    if "bytes="@.is_prefix_of(header) && !text::free_of(header, ',') {
        reveal_strlit("bytes=");
        let n = "bytes="@.len() as int;
        let i = choose|i: int| 0 <= i < header.len() && #[trigger] header[i] == ',';
        if i < n {
            lemma_prefix_letter("bytes="@, header, i);
        } else {
            assert(header.skip(n)[i - n] == ',');
        }
    }
}

/// What a reply says of itself: the whole file as a 200 without a range, a part
/// as a 206 that names its first byte, its last and how many there are, and none
/// as a 416 that names only how many there are. Only a forced download counts,
/// and of one resumed in pieces only the one that starts at the first byte.
pub proof fn law_replies_name_their_bytes(
    reply: ByteReply,
    file: File,
    forced: bool,
    range: Option<Seq<char>>,
    total: u64,
)
    requires
        files::bytes_answered(reply, file, forced, range, total),
    ensures
        reply.span == files::span_of(range, total as int),
        reply.span == Span::Whole ==> reply.status == 200,
        reply.span is Part ==> reply.status == 206,
        reply.span == Span::Nothing ==> reply.status == 416,
        match reply.span {
            Span::Part(first, last) => files::header_texts(reply.headers@).contains(
                (
                    "content-range"@,
                    "bytes "@ + text::numeral(first as nat, 10) + "-"@ + text::numeral(
                        last as nat,
                        10,
                    ) + "/"@ + text::numeral(total as nat, 10),
                ),
            ),
            Span::Nothing => files::header_texts(reply.headers@).contains(
                ("content-range"@, "bytes */"@ + text::numeral(total as nat, 10)),
            ),
            Span::Whole => true,
        },
        files::header_texts(reply.headers@).contains(("accept-ranges"@, "bytes"@)),
        !forced ==> !reply.counts,
        reply.counts ==> reply.span == Span::Whole || reply.span is Part,
        forced && reply.span == Span::Whole ==> reply.counts,
        match reply.span {
            Span::Part(first, _) => reply.counts == (forced && first == 0),
            _ => true,
        },
{
    let texts = files::header_texts(reply.headers@);
    assert(texts[2] == ("accept-ranges"@, "bytes"@));
    match reply.span {
        Span::Whole => {},
        _ => {
            assert(texts[4].0 == "content-range"@);
        },
    }
}

/// A forced download is always offered to save; a file that may be shown in a
/// page is shown where it is not forced, and any other is offered to save. Its
/// type is sent along.
pub proof fn law_forced_downloads_are_attachments(
    reply: ByteReply,
    file: File,
    forced: bool,
    range: Option<Seq<char>>,
    total: u64,
)
    requires
        files::bytes_answered(reply, file, forced, range, total),
    ensures
        files::header_texts(reply.headers@).len() >= 4,
        files::header_texts(reply.headers@)[1].0 == "content-disposition"@,
        forced || !shown_in_a_page(file.mime@) ==> "attachment"@.is_prefix_of(
            files::header_texts(reply.headers@)[1].1,
        ),
        !forced && shown_in_a_page(file.mime@) && address::fits_header(
            media::disposition(file.name@, true),
        ) ==> "inline; filename=\""@.is_prefix_of(files::header_texts(reply.headers@)[1].1),
        address::fits_header(file.mime@) ==> files::header_texts(reply.headers@).contains(
            ("content-type"@, file.mime@),
        ),
{
    lemma_shown_in_a_page(file.mime@);
    reveal_strlit("inline");
    reveal_strlit("attachment");
    reveal_strlit("inline; filename=\"");
    reveal_strlit("; filename=\"");
    let texts = files::header_texts(reply.headers@);
    assert(texts[0].0 == "content-type"@);
    let value = texts[1].1;
    if forced || !shown_in_a_page(file.mime@) {
        assert(value.subrange(0, "attachment"@.len() as int) =~= "attachment"@);
    } else if address::fits_header(media::disposition(file.name@, true)) {
        assert(value.subrange(0, "inline; filename=\""@.len() as int)
            =~= "inline; filename=\""@);
    }
}

/// A browser that holds a thumbnail already is told so, with no body; any other
/// gets the picture.
pub proof fn law_held_thumbnails_are_not_sent_again(
    reply: PictureReply,
    again: PictureReply,
    bytes: Seq<u8>,
    held: Option<Seq<char>>,
)
    requires
        files::thumb_answered(reply, bytes, None),
        files::thumb_answered(again, bytes, held),
    ensures
        reply.status == 200 && reply.with_body,
        files::header_texts(reply.headers@).len() == 3,
        files::header_texts(reply.headers@)[0].0 == "etag"@,
        files::header_texts(reply.headers@)[2] == ("content-type"@, "image/webp"@),
        held == Some(files::header_texts(reply.headers@)[0].1) ==> again.status == 304
            && !again.with_body,
        held != Some(files::header_texts(reply.headers@)[0].1) ==> again.status == 200
            && again.with_body,
        files::header_texts(again.headers@) == files::header_texts(reply.headers@),
{
}

/// The bytes behind a public link count once: whole, or from the first byte on.
pub proof fn law_public_downloads_count_once(
    reply: ByteReply,
    file: File,
    range: Option<Seq<char>>,
    total: u64,
    first: u64,
)
    requires
        share::public_bytes_answered(reply, file, range, total),
    ensures
        reply.span == files::span_of(range, total as int),
        reply.span == Span::Whole ==> reply.status == 200,
        reply.span is Part ==> reply.status == 206,
        reply.span == Span::Nothing ==> reply.status == 416,
        range is None ==> reply.counts,
        range == Some(
            "bytes="@ + text::numeral(first as nat, 10) + "-"@ + Seq::<char>::empty(),
        ) ==> reply.counts == (first == 0),
{
    reveal_strlit("0");
    lemma_numeral_is_bare(first as nat);
    lemma_range_parts(text::numeral(first as nat, 10), Seq::empty());
    assert("0"@ =~= seq!['0']);
    assert(text::numeral(0, 10) =~= "0"@);
    if first != 0 && text::numeral(first as nat, 10) == "0"@ {
        text::law_numeral_is_read_back(0);
    }
}

/// A file whose thumbnail is ready wears it, under the file's own address, and
/// any other the glyph of its type; a trashed file always the glyph.
pub proof fn law_thumbnails_are_worn_when_ready(file: File)
    ensures
        file.thumb_state == ThumbState::Ready ==> media::entry_chip_of(file)
            == media::ChipModel::Picture("/thumb/"@ + file.id@),
        file.thumb_state != ThumbState::Ready ==> media::entry_chip_of(file) is Glyph,
        file.deleted_at is Some ==> media::live_chip_of(file) is Glyph,
        file.deleted_at is None ==> media::live_chip_of(file) == media::entry_chip_of(file),
{
}

/// A public range counts where it starts at the first byte, wherever it ends, and
/// a range from the end never does.
pub proof fn law_public_ranges_count_from_the_first_byte(
    reply: ByteReply,
    file: File,
    range: Seq<char>,
    total: u64,
    first: u64,
    last: u64,
)
    requires
        share::public_bytes_answered(reply, file, Some(range), total),
    ensures
        range == "bytes="@ + text::numeral(first as nat, 10) + "-"@ + text::numeral(last as nat, 10)
            ==> reply.counts == (first == 0),
        range == "bytes="@ + Seq::<char>::empty() + "-"@ + text::numeral(last as nat, 10)
            ==> !reply.counts,
{
    reveal_strlit("0");
    lemma_numeral_is_bare(first as nat);
    lemma_numeral_is_bare(last as nat);
    lemma_range_parts(text::numeral(first as nat, 10), text::numeral(last as nat, 10));
    lemma_range_parts(Seq::empty(), text::numeral(last as nat, 10));
    assert("0"@ =~= seq!['0']);
    assert(text::numeral(0, 10) =~= "0"@);
    if first != 0 && text::numeral(first as nat, 10) == "0"@ {
        text::law_numeral_is_read_back(0);
    }
}

} // verus!
