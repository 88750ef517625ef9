//! Listings: which rows they hold, and in which order.
use crate::drive;
use crate::drive::{DriveAsk, DriveBody, DrivePage, EntryRow, KindFilter, SortDir, SortKey};
use crate::i18n::Lang;
use crate::model::{File, Folder, Listing, ShareKind};
use crate::order;
use crate::search;
use crate::text;
use crate::walk::Crumb;
use vstd::prelude::*;

verus! {

/// Whether a file may show before another under a sort: by the field the reader
/// asked for, by name whatever its case, and by id where the two agree.
pub open spec fn file_may_precede(
    a: File,
    b: File,
    key: SortKey,
    lower: spec_fn(Seq<char>) -> Seq<char>,
) -> bool {
    match key {
        SortKey::Downloads => a.download_count <= b.download_count && (a.download_count
            == b.download_count ==> order::in_dictionary_order(a.id@, b.id@)),
        SortKey::Size => a.size_bytes <= b.size_bytes && (a.size_bytes == b.size_bytes
            ==> order::in_dictionary_order(a.id@, b.id@)),
        SortKey::Uploaded => a.created_at@ <= b.created_at@ && (a.created_at@ == b.created_at@
            ==> order::in_dictionary_order(a.id@, b.id@)),
        SortKey::Name => order::in_dictionary_order(lower(a.name@), lower(b.name@)) && (lower(
            a.name@,
        ) == lower(b.name@) ==> order::in_dictionary_order(a.id@, b.id@)),
    }
}

/// The files of a sorted listing: every file as often as it was there, by the
/// field the reader asked for. Descending, the most downloaded, the largest and
/// the newest come first; ascending, they come last.
pub proof fn law_files_stand_by_their_field(
    listing: Listing,
    key: SortKey,
    dir: SortDir,
    kind: KindFilter,
    shown: Listing,
    lower: spec_fn(Seq<char>) -> Seq<char>,
)
    requires
        drive::is_shown(listing, Some((key, dir)), kind, shown, lower),
        kind != KindFilter::Folders,
    ensures
        shown.files@.len() == listing.files@.len(),
        shown.files@.to_multiset() == listing.files@.to_multiset(),
        forall|i: int, j: int|
            #![trigger shown.files@[i], shown.files@[j]]
            0 <= i < j < shown.files@.len() ==> match dir {
                SortDir::Asc => file_may_precede(shown.files@[i], shown.files@[j], key, lower),
                SortDir::Desc => file_may_precede(shown.files@[j], shown.files@[i], key, lower),
            },
        forall|i: int, j: int|
            #![trigger shown.files@[i], shown.files@[j]]
            0 <= i < j < shown.files@.len() && key == SortKey::Downloads ==> match dir {
                SortDir::Asc => shown.files@[i].download_count <= shown.files@[j].download_count,
                SortDir::Desc => shown.files@[i].download_count >= shown.files@[j].download_count,
            },
        forall|i: int, j: int|
            #![trigger shown.files@[i], shown.files@[j]]
            0 <= i < j < shown.files@.len() && key == SortKey::Size ==> match dir {
                SortDir::Asc => shown.files@[i].size_bytes <= shown.files@[j].size_bytes,
                SortDir::Desc => shown.files@[i].size_bytes >= shown.files@[j].size_bytes,
            },
        forall|i: int, j: int|
            #![trigger shown.files@[i], shown.files@[j]]
            0 <= i < j < shown.files@.len() && key == SortKey::Uploaded ==> match dir {
                SortDir::Asc => shown.files@[i].created_at@ <= shown.files@[j].created_at@,
                SortDir::Desc => shown.files@[i].created_at@ >= shown.files@[j].created_at@,
            },
{
    let files = listing.files@;
    let ranks = drive::file_ranks(files, key, lower);
    let out = shown.files@;
    let descending = dir == SortDir::Desc;
    order::law_arranging_keeps_every_row(files, ranks, descending, out);
    assert forall|i: int, j: int|
        #![trigger out[i], out[j]]
        0 <= i < j < out.len() implies match dir {
        SortDir::Asc => file_may_precede(out[i], out[j], key, lower),
        SortDir::Desc => file_may_precede(out[j], out[i], key, lower),
    } by {
        let (a, b) = order::lemma_positions(files, ranks, descending, out[i], out[j]);
        assert(ranks[a] == drive::file_rank(files[a], key, lower));
        assert(ranks[b] == drive::file_rank(files[b], key, lower));
        if descending {
            order::lemma_ranks_in_order(ranks[b], ranks[a]);
        } else {
            order::lemma_ranks_in_order(ranks[a], ranks[b]);
        }
    }
}

/// Whether a folder may show before another under a sort: by the day it was made
/// where the reader asked for that, else by name whatever its case, and by id
/// where the two agree.
pub open spec fn folder_may_precede(
    a: Folder,
    b: Folder,
    key: SortKey,
    lower: spec_fn(Seq<char>) -> Seq<char>,
) -> bool {
    match key {
        SortKey::Uploaded => a.created_at@ <= b.created_at@ && (a.created_at@ == b.created_at@
            ==> order::in_dictionary_order(a.id@, b.id@)),
        _ => order::in_dictionary_order(lower(a.name@), lower(b.name@)) && (lower(a.name@)
            == lower(b.name@) ==> order::in_dictionary_order(a.id@, b.id@)),
    }
}

/// The folders of a sorted listing: every folder as often as it was there, by
/// day or by name.
pub proof fn law_folders_stand_by_their_field(
    listing: Listing,
    key: SortKey,
    dir: SortDir,
    kind: KindFilter,
    shown: Listing,
    lower: spec_fn(Seq<char>) -> Seq<char>,
)
    requires
        drive::is_shown(listing, Some((key, dir)), kind, shown, lower),
        kind != KindFilter::Files,
    ensures
        shown.folders@.len() == listing.folders@.len(),
        shown.folders@.to_multiset() == listing.folders@.to_multiset(),
        forall|i: int, j: int|
            #![trigger shown.folders@[i], shown.folders@[j]]
            0 <= i < j < shown.folders@.len() ==> match dir {
                SortDir::Asc => folder_may_precede(
                    shown.folders@[i],
                    shown.folders@[j],
                    key,
                    lower,
                ),
                SortDir::Desc => folder_may_precede(
                    shown.folders@[j],
                    shown.folders@[i],
                    key,
                    lower,
                ),
            },
{
    let folders = listing.folders@;
    let ranks = drive::folder_ranks(folders, key, lower);
    let out = shown.folders@;
    let descending = dir == SortDir::Desc;
    order::law_arranging_keeps_every_row(folders, ranks, descending, out);
    assert forall|i: int, j: int|
        #![trigger out[i], out[j]]
        0 <= i < j < out.len() implies match dir {
        SortDir::Asc => folder_may_precede(out[i], out[j], key, lower),
        SortDir::Desc => folder_may_precede(out[j], out[i], key, lower),
    } by {
        let (a, b) = order::lemma_positions(folders, ranks, descending, out[i], out[j]);
        assert(ranks[a] == drive::folder_rank(folders[a], key, lower));
        assert(ranks[b] == drive::folder_rank(folders[b], key, lower));
        if descending {
            order::lemma_ranks_in_order(ranks[b], ranks[a]);
        } else {
            order::lemma_ranks_in_order(ranks[a], ranks[b]);
        }
    }
}

/// The filter hides the other kind and nothing else, and without a sort the rows
/// stay as the store listed them.
pub proof fn law_the_filter_hides_the_other_kind(
    listing: Listing,
    sorting: Option<(SortKey, SortDir)>,
    kind: KindFilter,
    shown: Listing,
    lower: spec_fn(Seq<char>) -> Seq<char>,
)
    requires
        drive::is_shown(listing, sorting, kind, shown, lower),
    ensures
        kind == KindFilter::Files ==> shown.folders@.len() == 0,
        kind == KindFilter::Folders ==> shown.files@.len() == 0,
        kind != KindFilter::Files ==> shown.folders@.to_multiset() == listing.folders@.to_multiset(),
        kind != KindFilter::Folders ==> shown.files@.to_multiset() == listing.files@.to_multiset(),
        sorting is None && kind != KindFilter::Files ==> shown.folders@ == listing.folders@,
        sorting is None && kind != KindFilter::Folders ==> shown.files@ == listing.files@,
{
    match sorting {
        Some((key, dir)) => {
            if kind != KindFilter::Files {
                law_folders_stand_by_their_field(listing, key, dir, kind, shown, lower);
            }
            if kind != KindFilter::Folders {
                law_files_stand_by_their_field(listing, key, dir, kind, shown, lower);
            }
        },
        None => {},
    }
}

/// Whether a row leads to a file: opened by its name, its downloads counted.
pub open spec fn leads_to_file(row: EntryRow, file: File) -> bool {
    &&& row.kind == ShareKind::File
    &&& row.id@ == file.id@
    &&& row.name@ == file.name@
    &&& row.href@ == "/view/"@ + file.id@
    &&& row.downloads == Some(file.download_count)
    &&& row.chip is Some
    &&& row.size is Some
}

/// Whether a row leads into a folder, which has no size and is not downloaded.
pub open spec fn leads_to_folder(row: EntryRow, folder: Folder) -> bool {
    &&& row.kind == ShareKind::Folder
    &&& row.id@ == folder.id@
    &&& row.name@ == folder.name@
    &&& row.href@ == "/drive?folder="@ + folder.id@
    &&& row.downloads is None
    &&& row.chip is None
    &&& row.size is None
}

/// Whether one of the first rows leads into a folder.
pub open spec fn has_folder_row(rows: Seq<EntryRow>, upto: int, folder: Folder) -> bool {
    exists|j: int| 0 <= j < upto && leads_to_folder(#[trigger] rows[j], folder)
}

/// Whether one of the rows behind the folders leads to a file.
pub open spec fn has_file_row(rows: Seq<EntryRow>, from: int, file: File) -> bool {
    exists|j: int| from <= j < rows.len() && leads_to_file(#[trigger] rows[j], file)
}

proof fn lemma_kept<T>(a: Seq<T>, b: Seq<T>, i: int) -> (j: int)
    requires
        a.to_multiset() == b.to_multiset(),
        0 <= i < a.len(),
    ensures
        0 <= j < b.len(),
        b[j] == a[i],
{
    broadcast use vstd::seq_lib::group_to_multiset_ensures;

    assert(a.contains(a[i]));
    assert(a.to_multiset().contains(a[i]));
    assert(b.contains(a[i]));
    choose|j: int| 0 <= j < b.len() && b[j] == a[i]
}

proof fn lemma_as_many<T>(a: Seq<T>, b: Seq<T>)
    requires
        a.to_multiset() == b.to_multiset(),
    ensures
        a.len() == b.len(),
{
    broadcast use vstd::seq_lib::group_to_multiset_ensures;

    assert(a.to_multiset().len() == a.len());
    assert(b.to_multiset().len() == b.len());
}

proof fn lemma_folder_rows(
    rows: Seq<EntryRow>,
    shown: Listing,
    listing: Listing,
    here: Seq<char>,
    edit: Option<Seq<char>>,
)
    requires
        drive::rows_show(rows, shown, here, edit),
        listing.folders@.to_multiset() == shown.folders@.to_multiset(),
        listing.folders@.len() == shown.folders@.len(),
    ensures
        forall|i: int|
            0 <= i < listing.folders@.len() ==> has_folder_row(
                        rows,
                        listing.folders@.len() as int,
                        #[trigger] listing.folders@[i],
                    ),
{
    assert forall|i: int| 0 <= i < listing.folders@.len() implies has_folder_row(
                        rows,
                        listing.folders@.len() as int,
                        #[trigger] listing.folders@[i],
                    ) by {
        let j = lemma_kept(listing.folders@, shown.folders@, i);
        assert(drive::folder_entry(rows[j], shown.folders@[j], here, edit));
        assert(leads_to_folder(rows[j], listing.folders@[i]));
    }
}

proof fn lemma_file_rows(
    rows: Seq<EntryRow>,
    shown: Listing,
    listing: Listing,
    here: Seq<char>,
    edit: Option<Seq<char>>,
)
    requires
        drive::rows_show(rows, shown, here, edit),
        listing.files@.to_multiset() == shown.files@.to_multiset(),
        listing.folders@.len() == shown.folders@.len(),
        listing.files@.len() == shown.files@.len(),
    ensures
        forall|i: int|
            0 <= i < listing.files@.len() ==> has_file_row(
                        rows,
                        listing.folders@.len() as int,
                        #[trigger] listing.files@[i],
                    ),
{
    let folders = shown.folders@.len() as int;
    assert forall|i: int| 0 <= i < listing.files@.len() implies has_file_row(
                        rows,
                        listing.folders@.len() as int,
                        #[trigger] listing.files@[i],
                    ) by {
        let k = lemma_kept(listing.files@, shown.files@, i);
        let j = k + folders;
        assert(drive::file_entry(rows[j], shown.files@[j - folders], here, edit));
        assert(leads_to_file(rows[j], listing.files@[i]));
    }
}

proof fn lemma_edited_row(
    rows: Seq<EntryRow>,
    shown: Listing,
    here: Seq<char>,
    edit: Option<Seq<char>>,
    j: int,
)
    requires
        drive::rows_show(rows, shown, here, edit),
        0 <= j < rows.len(),
    ensures
        rows[j].editing == (edit == Some(rows[j].id@)),
{
    let folders = shown.folders@.len() as int;
    if j < folders {
        assert(drive::folder_entry(rows[j], shown.folders@[j], here, edit));
    } else {
        assert(drive::file_entry(rows[j], shown.files@[j - folders], here, edit));
    }
}

/// The folder view shows every folder and every file of the open folder, one row
/// each, folders first; only the row being renamed shows as its form. An empty
/// folder says so.
pub proof fn law_the_folder_view_shows_every_row(
    page: DrivePage,
    lang: Lang,
    ask: DriveAsk,
    query: Seq<char>,
    origin: Seq<char>,
    current: Option<Folder>,
    crumbs: Vec<Crumb>,
    listing: Listing,
)
    requires
        drive::page_shows(page, lang, ask, query, origin, current, crumbs, listing, None),
        ask.kind == KindFilter::All,
    ensures
        listing.folders@.len() + listing.files@.len() == 0 ==> page.body is NoRows,
        listing.folders@.len() + listing.files@.len() > 0 ==> match page.body {
            DriveBody::Rows(rows) => {
                &&& rows@.len() == listing.folders@.len() + listing.files@.len()
                &&& forall|i: int|
                    0 <= i < listing.folders@.len() ==> has_folder_row(
                        rows@,
                        listing.folders@.len() as int,
                        #[trigger] listing.folders@[i],
                    )
                &&& forall|i: int|
                    0 <= i < listing.files@.len() ==> has_file_row(
                        rows@,
                        listing.folders@.len() as int,
                        #[trigger] listing.files@[i],
                    )
                &&& forall|j: int|
                    0 <= j < rows@.len() ==> (#[trigger] rows@[j]).editing == (match ask.edit {
                        Some(id) => id@ == rows@[j].id@,
                        None => false,
                    })
            },
            _ => false,
        },
        page.current_id@ == match current {
            Some(folder) => folder.id@,
            None => Seq::<char>::empty(),
        },
        current is Some ==> page.current_name@ == current->0.name@,
{
    let here = drive::here_of(drive::id_of(current), ask.sorting, ask.kind);
    let lower = text::folding();
    let shown = choose|shown: Listing| #[trigger]
        drive::is_shown(listing, ask.sorting, ask.kind, shown, lower) && drive::body_shows_listing(
            page.body,
            shown,
            here,
            text::opt_text(ask.edit),
            lang,
        );
    law_the_filter_hides_the_other_kind(listing, ask.sorting, ask.kind, shown, lower);
    lemma_as_many(shown.folders@, listing.folders@);
    lemma_as_many(shown.files@, listing.files@);
    if listing.folders@.len() + listing.files@.len() > 0 {
        let rows = page.body->Rows_0@;
        lemma_folder_rows(rows, shown, listing, here, text::opt_text(ask.edit));
        lemma_file_rows(rows, shown, listing, here, text::opt_text(ask.edit));
        assert forall|j: int| 0 <= j < rows.len() implies (#[trigger] rows[j]).editing == (
        match ask.edit {
            Some(id) => id@ == rows[j].id@,
            None => false,
        }) by {
            lemma_edited_row(rows, shown, here, text::opt_text(ask.edit), j);
        }
    }
}

/// A search shows every folder and every file it found, each leading where its
/// row in the folder view would lead, under what was searched for; nothing found
/// says so.
pub proof fn law_a_search_shows_every_hit(
    page: DrivePage,
    lang: Lang,
    ask: DriveAsk,
    query: Seq<char>,
    origin: Seq<char>,
    current: Option<Folder>,
    crumbs: Vec<Crumb>,
    listing: Listing,
    hits: Listing,
)
    requires
        drive::page_shows(page, lang, ask, query, origin, current, crumbs, listing, Some(hits)),
        ask.kind == KindFilter::All,
    ensures
        hits.folders@.len() + hits.files@.len() == 0 ==> page.body is NoHits,
        hits.folders@.len() + hits.files@.len() > 0 ==> match page.body {
            DriveBody::Hits(rows) => {
                &&& rows@.len() == hits.folders@.len() + hits.files@.len()
                &&& forall|i: int|
                    0 <= i < hits.folders@.len() ==> exists|j: int|
                        0 <= j < rows@.len() && (#[trigger] rows@[j]).href@ == "/drive?folder="@ + (
                        #[trigger] hits.folders@[i]).id@ && rows@[j].name@ == hits.folders@[i].name@
                &&& forall|i: int|
                    0 <= i < hits.files@.len() ==> exists|j: int|
                        0 <= j < rows@.len() && (#[trigger] rows@[j]).href@ == "/view/"@ + (
                        #[trigger] hits.files@[i]).id@ && rows@[j].name@ == hits.files@[i].name@
            },
            _ => false,
        },
        ask.asked is Some ==> page.heading is Results && page.box_text@ == ask.asked->0@,
        ask.asked is None ==> page.box_text@.len() == 0,
{
    let lower = text::folding();
    let shown = choose|shown: Listing| #[trigger]
        drive::is_shown(hits, ask.sorting, ask.kind, shown, lower) && drive::body_shows_hits(
            page.body,
            shown,
            lang,
        );
    law_the_filter_hides_the_other_kind(hits, ask.sorting, ask.kind, shown, lower);
    lemma_as_many(shown.folders@, hits.folders@);
    lemma_as_many(shown.files@, hits.files@);
    if hits.folders@.len() + hits.files@.len() > 0 {
        let rows = page.body->Hits_0@;
        let folders = shown.folders@.len() as int;
        assert forall|i: int| 0 <= i < hits.folders@.len() implies exists|j: int|
            0 <= j < rows.len() && (#[trigger] rows[j]).href@ == "/drive?folder="@ + (
            #[trigger] hits.folders@[i]).id@ && rows[j].name@ == hits.folders@[i].name@ by {
            let j = lemma_kept(hits.folders@, shown.folders@, i);
            assert(search::folder_hit(rows[j], shown.folders@[j]));
        }
        assert forall|i: int| 0 <= i < hits.files@.len() implies exists|j: int|
            0 <= j < rows.len() && (#[trigger] rows[j]).href@ == "/view/"@ + (
            #[trigger] hits.files@[i]).id@ && rows[j].name@ == hits.files@[i].name@ by {
            let k = lemma_kept(hits.files@, shown.files@, i);
            let j = k + folders;
            assert(search::file_hit(rows[j], shown.files@[j - folders], "/view/"@));
        }
    }
}

/// The rows of the folder view stand in the order of the sorted listing, folders
/// before files.
pub proof fn law_rows_follow_the_sort(
    page: DrivePage,
    lang: Lang,
    ask: DriveAsk,
    query: Seq<char>,
    origin: Seq<char>,
    current: Option<Folder>,
    crumbs: Vec<Crumb>,
    listing: Listing,
)
    requires
        drive::page_shows(page, lang, ask, query, origin, current, crumbs, listing, None),
        page.body is Rows,
    ensures
        exists|shown: Listing| #[trigger]
            drive::is_shown(listing, ask.sorting, ask.kind, shown, text::folding()) && {
                let rows = page.body->Rows_0@;
                &&& rows.len() == shown.folders@.len() + shown.files@.len()
                &&& forall|i: int|
                    0 <= i < shown.folders@.len() ==> leads_to_folder(
                        #[trigger] rows[i],
                        shown.folders@[i],
                    )
                &&& forall|i: int|
                    shown.folders@.len() <= i < rows.len() ==> leads_to_file(
                        #[trigger] rows[i],
                        shown.files@[i - shown.folders@.len()],
                    )
            },
{
    let here = drive::here_of(drive::id_of(current), ask.sorting, ask.kind);
    let edit = text::opt_text(ask.edit);
    let shown = choose|shown: Listing| #[trigger]
        drive::is_shown(listing, ask.sorting, ask.kind, shown, text::folding())
            && drive::body_shows_listing(page.body, shown, here, edit, lang);
    let rows = page.body->Rows_0@;
    let folders = shown.folders@.len() as int;
    assert forall|i: int| 0 <= i < folders implies leads_to_folder(
        #[trigger] rows[i],
        shown.folders@[i],
    ) by {
        assert(drive::folder_entry(rows[i], shown.folders@[i], here, edit));
    }
    assert forall|i: int| folders <= i < rows.len() implies leads_to_file(
        #[trigger] rows[i],
        shown.files@[i - folders],
    ) by {
        assert(drive::file_entry(rows[i], shown.files@[i - folders], here, edit));
    }
}

/// Sorted by downloads the rows of the folder view show the most downloaded file
/// first, or last where the order ascends.
pub proof fn law_downloads_are_shown_in_order(
    page: DrivePage,
    lang: Lang,
    ask: DriveAsk,
    query: Seq<char>,
    origin: Seq<char>,
    current: Option<Folder>,
    crumbs: Vec<Crumb>,
    listing: Listing,
    dir: SortDir,
    i: int,
    j: int,
)
    requires
        drive::page_shows(page, lang, ask, query, origin, current, crumbs, listing, None),
        page.body is Rows,
        ask.sorting == Some((SortKey::Downloads, dir)),
        ask.kind == KindFilter::Files,
        0 <= i < j < page.body->Rows_0@.len(),
    ensures
        page.body->Rows_0@[i].downloads is Some && page.body->Rows_0@[j].downloads is Some,
        dir == SortDir::Desc ==> page.body->Rows_0@[i].downloads->0
            >= page.body->Rows_0@[j].downloads->0,
        dir == SortDir::Asc ==> page.body->Rows_0@[i].downloads->0
            <= page.body->Rows_0@[j].downloads->0,
{
    law_rows_follow_the_sort(page, lang, ask, query, origin, current, crumbs, listing);
    let rows = page.body->Rows_0@;
    let shown = choose|shown: Listing| #[trigger]
        drive::is_shown(listing, ask.sorting, ask.kind, shown, text::folding()) && {
            &&& rows.len() == shown.folders@.len() + shown.files@.len()
            &&& forall|i: int|
                0 <= i < shown.folders@.len() ==> leads_to_folder(
                    #[trigger] rows[i],
                    shown.folders@[i],
                )
            &&& forall|i: int|
                shown.folders@.len() <= i < rows.len() ==> leads_to_file(
                    #[trigger] rows[i],
                    shown.files@[i - shown.folders@.len()],
                )
        };
    law_files_stand_by_their_field(
        listing,
        SortKey::Downloads,
        dir,
        ask.kind,
        shown,
        text::folding(),
    );
    assert(leads_to_file(rows[i], shown.files@[i]));
    assert(leads_to_file(rows[j], shown.files@[j]));
}

} // verus!
