//! What the pages show of what they are given.
use crate::address;
use crate::clock;
use crate::drive;
use crate::drive::{DriveAsk, DrivePage, EntryRow, Heading, KindFilter, SortDir, SortKey};
use crate::files;
use crate::files::{ByteReply, PictureReply, Span};
use crate::i18n;
use crate::i18n::{Key, Lang};
use crate::laws::words;
use crate::layout;
use crate::media;
use crate::media::ChipModel;
use crate::modal;
use crate::modal::{Grant, Modal};
use crate::model::{File, Folder, Listing, ShareKind, ShareLink, StoreError, ThumbState, User};
use crate::query;
use crate::refusal;
use crate::settings;
use crate::settings::{AccountRow, LinkRow, SettingsPage};
use crate::share;
use crate::share::{PublicEntry, PublicRow};
use crate::shared;
use crate::shared::{SharedAsk, SharedLine, SharedPage, SharedRow, TargetReply};
use crate::sizes;
use crate::text;
use crate::trash;
use crate::trash::{TrashAsk, TrashEntry, TrashLine, TrashPage};
use crate::walk::Crumb;
use vstd::prelude::*;

verus! {

/// A year, for this browser alone: what is written once is kept.
pub open spec fn kept_for_a_year() -> Seq<char> {
    "private, max-age=31536000, immutable"@
}

/// A download of one's own and a thumbnail are kept for a year; the bytes behind
/// a public link are not, are always offered to save under a name no header
/// stumbles over, and say which bytes they are.
pub proof fn law_how_long_bytes_are_kept(
    own: ByteReply,
    public: ByteReply,
    thumb: PictureReply,
    file: File,
    forced: bool,
    range: Option<Seq<char>>,
    total: u64,
    bytes: Seq<u8>,
    held: Option<Seq<char>>,
)
    requires
        files::bytes_answered(own, file, forced, range, total),
        share::public_bytes_answered(public, file, range, total),
        files::thumb_answered(thumb, bytes, held),
    ensures
        files::header_texts(own.headers@).contains(("cache-control"@, kept_for_a_year())),
        files::header_texts(thumb.headers@).contains(("cache-control"@, kept_for_a_year())),
        files::header_texts(public.headers@).contains(("cache-control"@, "private, no-cache"@)),
        files::header_texts(public.headers@).contains(("accept-ranges"@, "bytes"@)),
        address::fits_header(file.mime@) ==> files::header_texts(public.headers@).contains(
            ("content-type"@, file.mime@),
        ),
        address::fits_header(share::public_disposition(file.name@)) ==> files::header_texts(
            public.headers@,
        ).contains(
            (
                "content-disposition"@,
                "attachment; filename=\""@ + media::quotable_name(file.name@) + "\""@,
            ),
        ),
        match public.span {
            Span::Part(first, last) => files::header_texts(public.headers@).contains(
                (
                    "content-range"@,
                    "bytes "@ + text::numeral(first as nat, 10) + "-"@ + text::numeral(
                        last as nat,
                        10,
                    ) + "/"@ + text::numeral(total as nat, 10),
                ),
            ),
            _ => true,
        },
{
    let a = files::header_texts(own.headers@);
    assert(a[3] == ("cache-control"@, kept_for_a_year()));
    let t = files::header_texts(thumb.headers@);
    assert(t[1] == ("cache-control"@, kept_for_a_year()));
    let p = files::header_texts(public.headers@);
    let first = share::fitting("content-type"@, file.mime@);
    let second = share::fitting("content-disposition"@, share::public_disposition(file.name@));
    let n = (first + second).len() as int;
    assert(p[n] == ("cache-control"@, "private, no-cache"@));
    assert(p[n + 1] == ("accept-ranges"@, "bytes"@));
    if address::fits_header(file.mime@) {
        assert(first.len() == 1);
        assert(p[0] == ("content-type"@, file.mime@));
    }
    if address::fits_header(share::public_disposition(file.name@)) {
        assert(second.len() == 1);
        assert(p[first.len() as int] == (
            "content-disposition"@,
            share::public_disposition(file.name@),
        ));
    }
    match public.span {
        Span::Part(..) => {
            assert(p[n + 2].0 == "content-range"@);
        },
        _ => {},
    }
}

/// A row shows its file's size in the listing's units and the day it went up,
/// and its thumbnail where one is ready.
pub proof fn law_rows_show_size_and_day(
    row: EntryRow,
    file: File,
    of_folder: EntryRow,
    folder: Folder,
    here: Seq<char>,
    edit: Option<Seq<char>>,
)
    requires
        drive::file_entry(row, file, here, edit),
        drive::folder_entry(of_folder, folder, here, edit),
    ensures
        row.size is Some && row.size->0@ == sizes::size_text(
            file.size_bytes as nat,
            seq!["B"@, "KB"@, "MB"@, "GB"@, "TB"@],
        ),
        row.uploaded@ == clock::day_name(file.created_at@),
        of_folder.uploaded@ == clock::day_name(folder.created_at@),
        row.downloads == Some(file.download_count),
        file.thumb_state == ThumbState::Ready ==> row.chip is Some && row.chip->0@
            == ChipModel::Picture("/thumb/"@ + file.id@),
        file.thumb_state != ThumbState::Ready ==> row.chip is Some && row.chip->0@ is Glyph,
{
}

/// The view page shows its file's type, size and day.
pub proof fn law_the_view_page_shows_size_and_day(
    page: files::ViewPage,
    file: File,
    may_download: bool,
)
    requires
        files::view_shows(page, file, may_download),
    ensures
        page.size@ == sizes::size_text(
            file.size_bytes as nat,
            seq!["B"@, "KiB"@, "MiB"@, "GiB"@, "TiB"@],
        ),
        page.uploaded@ == clock::day_name(file.created_at@),
        page.meta@ == file.mime@ + " · "@ + page.size@,
        file.thumb_state == ThumbState::Ready ==> page.chip@ == ChipModel::Picture(
            "/thumb/"@ + file.id@,
        ),
        file.thumb_state != ThumbState::Ready ==> page.chip@ is Glyph,
{
}

/// A shared folder's rows show a file's size and, where it is ready, its
/// preview.
pub proof fn law_public_rows_show_size_and_preview(
    row: PublicRow,
    file: File,
    base: Seq<char>,
    at: Seq<char>,
    can_download: bool,
)
    requires
        share::public_row_of(row, PublicEntry::File(file), base, at, can_download),
    ensures
        row.size is Some && row.size->0@ == sizes::size_text(
            file.size_bytes as nat,
            seq!["B"@, "KiB"@, "MiB"@, "GiB"@, "TiB"@],
        ),
        file.thumb_state == ThumbState::Ready ==> row.chip@ == ChipModel::Picture(
            base + "?folder="@ + at + "&file="@ + file.id@ + "&thumb=1"@,
        ),
        file.thumb_state != ThumbState::Ready ==> row.chip@ is Glyph,
{
}

/// A line of the trash wears a glyph, never a thumbnail, and says when its row
/// was deleted and when it was made, and a file's how large it is.
pub proof fn law_trash_lines(line: TrashLine, row: TrashEntry, lang: Lang)
    requires
        trash::trash_line_of(line, row, lang),
    ensures
        line.chip@ is Glyph,
        match row {
            TrashEntry::Folder(folder) => line.details@ == i18n::phrase(lang, Key::DeletedLabel)
                + " "@ + clock::day_name(
                (match folder.deleted_at {
                    Some(at) => at,
                    None => folder.created_at,
                })@,
            ) + " · "@ + i18n::phrase(lang, Key::UploadedLabel) + " "@ + clock::day_name(
                folder.created_at@,
            ),
            TrashEntry::File(file) => line.details@ == i18n::phrase(lang, Key::DeletedLabel) + " "@
                + clock::day_name(
                (match file.deleted_at {
                    Some(at) => at,
                    None => file.created_at,
                })@,
            ) + " · "@ + i18n::phrase(lang, Key::UploadedLabel) + " "@ + clock::day_name(
                file.created_at@,
            ) + " · "@ + sizes::size_text(
                file.size_bytes as nat,
                seq!["B"@, "KiB"@, "MiB"@, "GiB"@, "TiB"@],
            ),
        },
{
}

/// A shared line wears its file's thumbnail while that is live and ready, and a
/// glyph in every other case.
pub proof fn law_shared_lines(line: SharedLine, row: SharedRow, lang: Lang)
    requires
        shared::line_of(line, row, lang),
    ensures
        line.details@ == shared::details_of(lang, row),
        row.item.kind == ShareKind::Folder ==> line.chip@ is Glyph,
        row.item.kind == ShareKind::File && row.file is None ==> line.chip@ is Glyph,
        row.item.kind == ShareKind::File && row.file is Some && row.file->0.deleted_at is Some
            ==> line.chip@ is Glyph,
        row.item.kind == ShareKind::File && row.file is Some && row.file->0.deleted_at is None
            && row.file->0.thumb_state == ThumbState::Ready ==> line.chip@ == ChipModel::Picture(
            "/thumb/"@ + row.file->0.id@,
        ),
{
}

/// A link's row names its target, what it opens and when it stops; a target that
/// cannot be read goes by its id.
pub proof fn law_link_rows(
    row: LinkRow,
    link: ShareLink,
    target: TargetReply,
    lang: Lang,
    file: File,
    folder: Folder,
)
    requires
        settings::link_row_of(row, link, target, lang),
    ensures
        link.kind == ShareKind::File && target == TargetReply::File(Ok(Some(file))) ==> row.label@
            == "file"@ + " · "@ + file.name@,
        link.kind == ShareKind::Folder && target == TargetReply::Folder(Ok(Some(folder)))
            ==> row.label@ == "folder"@ + " · "@ + folder.name@,
        target == TargetReply::File(Ok(None)) && link.kind == ShareKind::File ==> row.label@
            == "file"@ + " · "@ + link.target_id@,
        link.can_download ==> row.access@ == i18n::phrase(lang, Key::CanDownload),
        !link.can_download ==> row.access@ == i18n::phrase(lang, Key::ViewOnly),
        link.expires_at is None ==> row.expiry@ == i18n::phrase(lang, Key::NeverExpires),
        link.expires_at is Some ==> row.expiry@ == i18n::phrase(lang, Key::ExpiresLabel) + " "@ + (
        match clock::rfc3339_name(link.expires_at->0@) {
            Some(text) => text,
            None => "?"@,
        }),
{
}

/// An account's row and the settings page show what is used of the quota, and
/// the quota in the unit it is edited in.
pub proof fn law_accounts_show_their_quota(
    row: AccountRow,
    user: User,
    reader: Seq<char>,
    lang: Lang,
    page: SettingsPage,
    links: Seq<ShareLink>,
    targets: Seq<TargetReply>,
    users: Seq<User>,
    upload_limit: nat,
    query: Seq<char>,
    origin: Seq<char>,
)
    requires
        settings::account_row_of(row, user, reader, lang),
        settings::settings_shows(
            page,
            lang,
            user,
            links,
            targets,
            users,
            upload_limit,
            query,
            origin,
        ),
    ensures
        row.quota@ == page.quota@,
        row.quota@ == sizes::size_text(user.used_bytes as nat, sizes::binary_units()) + " "@
            + i18n::phrase(lang, Key::QuotaOf) + " "@ + sizes::size_text(
            user.quota_bytes as nat,
            sizes::binary_units(),
        ),
        user.quota_bytes >= 1024 * 1024 * 1024 <==> row.unit == sizes::LimitUnit::GiB,
        page.everyone is Some ==> {
            let panel = page.everyone->0;
            &&& panel.ceiling@ == i18n::phrase(lang, Key::CurrentUploadLimit) + ": "@
                + sizes::size_text(upload_limit, sizes::binary_units())
            &&& upload_limit >= 1024 * 1024 * 1024 <==> panel.unit == sizes::LimitUnit::GiB
        },
        match query::created_in(query) {
            Some(token) => page.created is Some && page.created->0@ == origin + "/s/"@ + token,
            None => page.created is None,
        },
{
}

/// The share dialog is titled with its target's name and wears its icon, and
/// shows the refusal on its query in words.
pub proof fn law_the_share_dialog_is_titled(
    shown: Modal,
    lang: Lang,
    kind: ShareKind,
    target_id: Seq<char>,
    target: TargetReply,
    user: User,
    links: Seq<ShareLink>,
    grants: Seq<Grant>,
    people: Seq<Result<Option<User>, StoreError>>,
    query: Seq<char>,
    close_href: Seq<char>,
    created: Option<Seq<char>>,
    origin: Seq<char>,
    file: File,
    folder: Folder,
)
    requires
        modal::modal_shows(
            shown,
            lang,
            kind,
            target_id,
            target,
            user,
            links,
            grants,
            people,
            query,
            close_href,
            created,
            origin,
        ),
    ensures
        target == TargetReply::File(Ok(Some(file))) ==> shown.title@ == i18n::phrase(
            lang,
            Key::Share,
        ) + " “"@ + file.name@ + "”"@ && shown.chip@ == media::entry_chip_of(file),
        target == TargetReply::Folder(Ok(Some(folder))) ==> shown.title@ == i18n::phrase(
            lang,
            Key::Share,
        ) + " “"@ + folder.name@ + "”"@ && shown.chip@ is Glyph,
        shown.owner_name@ == user.display_name@ + " "@ + i18n::phrase(lang, Key::YouSuffix),
        shown.masked@ == origin + "/s/…"@,
        query::value_of(query, "refusal"@) is None ==> shown.banner is None,
        match query::value_of(query, "refusal"@) {
            Some(code) => refusal::named_by(code) is Some ==> shown.banner is Some
                && shown.banner->0@ == refusal::words_in(refusal::named_by(code)->0, lang),
            None => true,
        },
{
    assert(text::opt_text(shown.banner) is Some <==> shown.banner is Some);
}

/// The drive page keeps its controls: the sort and the filter in force are
/// carried along by its forms, the open folder's path stands over the list, and
/// a refused call and a fresh link are shown.
pub proof fn law_the_drive_page_keeps_its_controls(
    page: DrivePage,
    lang: Lang,
    ask: DriveAsk,
    query: Seq<char>,
    origin: Seq<char>,
    current: Option<Folder>,
    crumbs: Vec<Crumb>,
    listing: Listing,
    hits: Option<Listing>,
    key: SortKey,
    dir: SortDir,
)
    requires
        drive::page_shows(page, lang, ask, query, origin, current, crumbs, listing, hits),
    ensures
        ask.sorting == Some((key, dir)) ==> page.sort_carried is Some && drive::sort_named(
            Some(page.sort_carried->0@),
        ) == ask.sorting && drive::sort_named(Some(page.sort_value@)) == ask.sorting,
        ask.sorting is None ==> page.sort_carried is None && page.sort_value@ == "name:asc"@,
        ask.kind == KindFilter::All ==> page.kind_carried is None,
        ask.kind != KindFilter::All ==> page.kind_carried is Some && drive::filter_named(
            Some(page.kind_carried->0@),
        ) == ask.kind,
        page.here@ == drive::here_of(
            match current {
                Some(folder) => folder.id@,
                None => Seq::empty(),
            },
            ask.sorting,
            ask.kind,
        ),
        ask.asked is None && current is Some ==> page.heading == Heading::Path(crumbs),
        ask.asked is None && current is None ==> page.heading is Root,
        match drive::page_refused(Some(query)) {
            Some(refusal) => page.banner is Some && page.banner->0@ == refusal::words_in(
                refusal,
                lang,
            ),
            None => page.banner is None,
        },
        !ask.share_named && query::created_in(query) is Some ==> page.created is Some
            && page.created->0@ == origin + "/s/"@ + query::created_in(query)->0,
        ask.share_named || query::created_in(query) is None ==> page.created is None,
{
    assert(text::opt_text(page.sort_carried) is Some <==> page.sort_carried is Some);
    assert(text::opt_str(page.kind_carried) is Some <==> page.kind_carried is Some);
    assert(text::opt_text(page.banner) is Some <==> page.banner is Some);
    assert(text::opt_text(page.created) is Some <==> page.created is Some);
    drive::law_sort_round_trip(key, dir);
    drive::law_filter_round_trip(ask.kind);
}

/// A browser's first language counts, whatever its region and its weight, and
/// whatever comes behind it; a saved language counts before it.
pub proof fn law_the_first_language_counts(
    tag: Seq<char>,
    region: Seq<char>,
    weight: Seq<char>,
    others: Seq<char>,
    lower: spec_fn(Seq<char>) -> Seq<char>,
)
    requires
        tag.len() > 0 && !text::is_space(tag[0]) && !text::is_space(tag.last()),
        text::free_of(tag, ',') && text::free_of(tag, ';') && text::free_of(tag, '-'),
        region.len() > 0 && !text::is_space(region.last()),
        text::free_of(region, ',') && text::free_of(region, ';'),
    ensures
        i18n::first_tag(tag) == tag,
        i18n::first_tag(tag + seq![','] + others) == tag,
        i18n::first_tag(tag + seq!['-'] + region) == tag,
        i18n::first_tag((tag + seq!['-'] + region) + seq![','] + others) == tag,
        i18n::spoken(Some("tr"@), Some(others), lower) == Lang::Tr,
        i18n::spoken(Some("en"@), Some(others), lower) == Lang::En,
        i18n::spoken(None, None, lower) == Lang::En,
        lower(tag) == "tr"@ ==> i18n::spoken(None, Some(tag), lower) == Lang::Tr,
        lower(tag) == "en"@ ==> i18n::spoken(None, Some(tag), lower) == Lang::En,
{
    reveal_strlit("tr");
    reveal_strlit("en");
    assert("tr"@[0] == 't' && "en"@[0] == 'e');
    let local = tag + seq!['-'] + region;
    assert(local[0] == tag[0] && local.last() == region.last());
    assert(text::free_of(local, ',') && text::free_of(local, ';')) by {
        assert forall|i: int| 0 <= i < local.len() implies #[trigger] local[i] != ',' && local[i]
            != ';' by {
            if i < tag.len() {
                assert(local[i] == tag[i]);
            } else if i > tag.len() {
                assert(local[i] == region[i - tag.len() - 1]);
            }
        }
    }
    lemma_leading_alone(tag, ',');
    lemma_leading_alone(tag, ';');
    lemma_leading_alone(tag, '-');
    lemma_leading_alone(local, ',');
    lemma_leading_alone(local, ';');
    lemma_leading_behind(tag, ',', others);
    lemma_leading_behind(tag, '-', region);
    lemma_leading_behind(local, ',', others);
}

proof fn lemma_leading_alone(s: Seq<char>, c: char)
    requires
        text::free_of(s, c),
        s.len() > 0 && !text::is_space(s[0]) && !text::is_space(s.last()),
    ensures
        i18n::leading(s, c) == s,
{
    text::lemma_first_at_is(s, c, s.len() as int);
    assert(s.take(s.len() as int) =~= s);
    words::lemma_untrimmed(s);
}

proof fn lemma_leading_behind(s: Seq<char>, c: char, rest: Seq<char>)
    requires
        text::free_of(s, c),
        s.len() > 0 && !text::is_space(s[0]) && !text::is_space(s.last()),
    ensures
        i18n::leading(s + seq![c] + rest, c) == s,
{
    let whole = s + seq![c] + rest;
    text::lemma_first_at_is(whole, c, s.len() as int);
    assert(whole.take(s.len() as int) =~= s);
    words::lemma_untrimmed(s);
}

/// An address on another host is cut down to its path; one on this host is kept.
pub proof fn law_addresses_stay_on_this_host(
    scheme: Seq<char>,
    host: Seq<char>,
    path: Seq<char>,
    local: Seq<char>,
)
    requires
        text::free_of(scheme, ':'),
        text::free_of(host, '/') && text::free_of(host, '?'),
        path.len() > 0 && path[0] == '/',
        path.len() > 1 ==> path[1] != '/' && path[1] != '\\',
        text::free_of(local, ':'),
        local.len() > 0 && local[0] == '/',
        local.len() > 1 ==> local[1] != '/' && local[1] != '\\',
    ensures
        address::local_part(scheme + "://"@ + host + path) == path,
        address::local_part(local) == local,
{
    reveal_strlit("://");
    let mark = "://"@;
    let whole = scheme + mark + host + path;
    let n = scheme.len() as int;
    text::lemma_find_holds(whole, mark, 0);
    assert(text::stands_at(whole, mark, n)) by {
        assert(whole.subrange(n, n + mark.len()) =~= mark);
    }
    assert forall|i: int| 0 <= i < n implies !text::stands_at(whole, mark, i) by {
        if text::stands_at(whole, mark, i) {
            assert(whole.subrange(i, i + mark.len())[0] == whole[i]);
            assert(whole[i] == scheme[i]);
        }
    }
    let rest = whole.skip(n + 3);
    assert(rest =~= host + path);
    text::lemma_first_at_is(rest, '/', host.len() as int);
    text::lemma_first_at(rest, '?');
    assert forall|i: int| 0 <= i < host.len() implies #[trigger] rest[i] != '?' by {
        assert(rest[i] == host[i]);
    }
    assert(rest[host.len() as int] == '/');
    assert(rest.skip(host.len() as int) =~= path);
    text::lemma_find_holds(local, mark, 0);
    match text::find_from(local, mark, 0) {
        Some(at) => {
            assert(local.subrange(at, at + mark.len())[0] == local[at]);
        },
        None => {},
    }
}

/// The marks of a picture, a video, a sound, a document, a text, a bundle and
/// the rest are seven different glyphs.
pub proof fn law_marks_differ(a: Seq<char>, b: Seq<char>)
    ensures
        media::mark_of(a).0 != media::mark_of(b).0 ==> media::mark_of(a).1 != media::mark_of(b).1,
{
    reveal_strlit("◫");
    reveal_strlit("▶");
    reveal_strlit("♫");
    reveal_strlit("☰");
    reveal_strlit("¶");
    reveal_strlit("⊞");
    reveal_strlit("▦");
    assert("◫"@[0] == '◫' && "▶"@[0] == '▶' && "♫"@[0] == '♫' && "☰"@[0] == '☰' && "¶"@[0] == '¶'
        && "⊞"@[0] == '⊞' && "▦"@[0] == '▦');
}

/// The tone of a face is its account's id folded over 31, in 32 bits, over five.
pub proof fn law_tones(id: Seq<char>, bytes: Seq<u8>, b: u8)
    ensures
        layout::tone_of(id) < 5,
        layout::tone_hash(Seq::empty()) == 0,
        layout::tone_hash(bytes.push(b)) == (layout::tone_hash(bytes) * 31 + b) % 0x1_0000_0000,
        layout::tone_of(id) == layout::tone_hash(vstd::utf8::encode_utf8(id)) % 5,
{
    assert(bytes.push(b).drop_last() =~= bytes);
}

/// The two lists show the sort and the words in force, so that their forms send
/// them again.
pub proof fn law_lists_keep_their_controls(
    of_trash: TrashPage,
    of_shared: SharedPage,
    lang: Lang,
    trash_ask: TrashAsk,
    shared_ask: SharedAsk,
    listing: Listing,
    rows: Seq<SharedRow>,
)
    requires
        trash::trash_is(of_trash, lang, trash_ask, listing),
        shared::shared_is(of_shared, lang, shared_ask, rows),
    ensures
        trash::trash_sort_named(Some(of_trash.sort_value@)) == (
            trash_ask.key,
            trash_ask.descending,
        ),
        shared::shared_sort_named(Some(of_shared.sort_value@)) == (
            shared_ask.key,
            shared_ask.descending,
        ),
        trash_ask.asked is Some ==> of_trash.box_text@ == trash_ask.asked->0@,
        trash_ask.asked is None ==> of_trash.box_text@.len() == 0,
        shared_ask.asked is Some ==> of_shared.box_text@ == shared_ask.asked->0@,
        shared_ask.asked is None ==> of_shared.box_text@.len() == 0,
{
    words::law_trash_sort_words(trash_ask.key, trash_ask.descending);
    words::law_shared_sort_words(shared_ask.key, shared_ask.descending);
}

/// The capital of a small Latin letter is its own, and everything else stays.
pub proof fn law_latin_capitals(c: char)
    ensures
        'a' <= c <= 'z' ==> layout::latin_upper(c) as int == c as int - 32,
        !('a' <= c <= 'z') ==> layout::latin_upper(c) == c,
        layout::is_latin(c) <==> ('a' <= c <= 'z') || ('A' <= c <= 'Z'),
{
}

} // verus!
