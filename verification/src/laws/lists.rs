//! The trash and what others shared: which rows are listed, and in which order.
use crate::drive::KindFilter;
use crate::i18n;
use crate::i18n::{Key, Lang};
use crate::model::{File, Folder, Listing, ShareKind, SharedItem, StoreError, User};
use crate::order;
use crate::search;
use crate::shared;
use crate::shared::{KnownOwner, SharedAsk, SharedKey, SharedPage, SharedRow, TargetReply};
use crate::text;
use crate::trash;
use crate::trash::{TrashAsk, TrashEntry, TrashKey, TrashPage};
use vstd::prelude::*;

verus! {

/// Whether a name holds what was searched for, whatever the case of either.
pub open spec fn name_holds(
    name: Seq<char>,
    asked: Option<Seq<char>>,
    lower: spec_fn(Seq<char>) -> Seq<char>,
) -> bool {
    match asked {
        Some(words) => exists|k: int|
            #![trigger lower(name).subrange(k, k + lower(words).len())]
            0 <= k && k + lower(words).len() <= lower(name).len() && lower(name).subrange(
                k,
                k + lower(words).len(),
            ) == lower(words),
        None => true,
    }
}

proof fn lemma_name_holds(
    name: Seq<char>,
    asked: Option<Seq<char>>,
    lower: spec_fn(Seq<char>) -> Seq<char>,
)
    ensures
        search::name_passes(name, asked, lower) == name_holds(name, asked, lower),
{
    match asked {
        Some(words) => {
            let (s, needle) = (lower(name), lower(words));
            if text::holds_text(s, needle) {
                let k = choose|k: int| text::stands_at(s, needle, k);
                assert(s.subrange(k, k + needle.len()) =~= needle);
            }
            if name_holds(name, asked, lower) {
                let k = choose|k: int|
                    #![trigger s.subrange(k, k + needle.len())]
                    0 <= k && k + needle.len() <= s.len() && s.subrange(k, k + needle.len())
                        == needle;
                assert(text::stands_at(s, needle, k));
            }
        },
        None => {},
    }
}

/// Whether a row of the trash is wanted: of the kind the filter names, and
/// holding what was searched for.
pub open spec fn trash_wanted(
    row: TrashEntry,
    filter: KindFilter,
    asked: Option<Seq<char>>,
    lower: spec_fn(Seq<char>) -> Seq<char>,
) -> bool {
    match row {
        TrashEntry::Folder(folder) => filter != KindFilter::Files && name_holds(
            folder.name@,
            asked,
            lower,
        ),
        TrashEntry::File(file) => filter != KindFilter::Folders && name_holds(
            file.name@,
            asked,
            lower,
        ),
    }
}

proof fn lemma_trash_filter(
    rows: Seq<TrashEntry>,
    filter: KindFilter,
    asked: Option<Seq<char>>,
    lower: spec_fn(Seq<char>) -> Seq<char>,
)
    ensures
        trash::trash_passing(rows, filter, asked, lower) == rows.filter(
            |row: TrashEntry| trash_wanted(row, filter, asked, lower),
        ),
    decreases rows.len(),
{
    reveal(Seq::filter);
    if rows.len() > 0 {
        lemma_trash_filter(rows.drop_last(), filter, asked, lower);
        lemma_name_holds(trash::trash_name(rows.last()), asked, lower);
    }
}

/// The trash lists a row exactly where it is of the kind the filter names and
/// holds what was searched for, folders before files.
pub proof fn law_the_trash_lists_what_is_wanted(
    listing: Listing,
    filter: KindFilter,
    asked: Option<Seq<char>>,
    lower: spec_fn(Seq<char>) -> Seq<char>,
    folder: int,
    file: int,
)
    ensures
        trash::trash_passing(trash::trash_entries(listing), filter, asked, lower)
            == trash::trash_entries(listing).filter(
            |row: TrashEntry| trash_wanted(row, filter, asked, lower),
        ),
        trash::trash_entries(listing).len() == listing.folders@.len() + listing.files@.len(),
        0 <= folder < listing.folders@.len() ==> trash::trash_entries(listing)[folder]
            == TrashEntry::Folder(listing.folders@[folder]),
        0 <= file < listing.files@.len() ==> trash::trash_entries(listing)[listing.folders@.len()
            + file] == TrashEntry::File(listing.files@[file]),
{
    lemma_trash_filter(trash::trash_entries(listing), filter, asked, lower);
}

/// When a row went into the trash, as far as it is stamped.
pub open spec fn trashed_at(row: TrashEntry) -> int {
    match row {
        TrashEntry::Folder(folder) => match folder.deleted_at {
            Some(at) => at@,
            None => folder.created_at@,
        },
        TrashEntry::File(file) => match file.deleted_at {
            Some(at) => at@,
            None => file.created_at@,
        },
    }
}

/// When a row was made.
pub open spec fn made_at(row: TrashEntry) -> int {
    match row {
        TrashEntry::Folder(folder) => folder.created_at@,
        TrashEntry::File(file) => file.created_at@,
    }
}

/// How many bytes a row holds; a folder counts as none.
pub open spec fn bytes_of(row: TrashEntry) -> int {
    match row {
        TrashEntry::Folder(_) => 0,
        TrashEntry::File(file) => file.size_bytes as int,
    }
}

/// What a row is called.
pub open spec fn called(row: TrashEntry) -> Seq<char> {
    match row {
        TrashEntry::Folder(folder) => folder.name@,
        TrashEntry::File(file) => file.name@,
    }
}

/// Whether a row of the trash may stand before another: by what the reader asked
/// for, and by name where the two agree.
pub open spec fn trash_may_precede(
    a: TrashEntry,
    b: TrashEntry,
    key: TrashKey,
    lower: spec_fn(Seq<char>) -> Seq<char>,
) -> bool {
    let by_name = order::in_dictionary_order(lower(called(a)), lower(called(b)));
    match key {
        TrashKey::Name => by_name,
        TrashKey::Deleted => trashed_at(a) <= trashed_at(b) && (trashed_at(a) == trashed_at(b)
            ==> by_name),
        TrashKey::Uploaded => made_at(a) <= made_at(b) && (made_at(a) == made_at(b) ==> by_name),
        TrashKey::Size => bytes_of(a) <= bytes_of(b) && (bytes_of(a) == bytes_of(b) ==> by_name),
    }
}

/// Sorting the trash keeps every row and puts them by what the reader asked for.
pub proof fn law_the_trash_stands_by_its_field(
    rows: Seq<TrashEntry>,
    key: TrashKey,
    descending: bool,
    shown: Seq<TrashEntry>,
    lower: spec_fn(Seq<char>) -> Seq<char>,
)
    requires
        order::is_arranged(rows, trash::trash_ranks(rows, key, lower), descending, shown),
    ensures
        shown.len() == rows.len(),
        shown.to_multiset() == rows.to_multiset(),
        forall|i: int, j: int|
            #![trigger shown[i], shown[j]]
            0 <= i < j < shown.len() ==> if descending {
                trash_may_precede(shown[j], shown[i], key, lower)
            } else {
                trash_may_precede(shown[i], shown[j], key, lower)
            },
{
    let ranks = trash::trash_ranks(rows, key, lower);
    order::law_arranging_keeps_every_row(rows, ranks, descending, shown);
    assert forall|i: int, j: int|
        #![trigger shown[i], shown[j]]
        0 <= i < j < shown.len() implies if descending {
        trash_may_precede(shown[j], shown[i], key, lower)
    } else {
        trash_may_precede(shown[i], shown[j], key, lower)
    } by {
        let (a, b) = order::lemma_positions(rows, ranks, descending, shown[i], shown[j]);
        assert(ranks[a] == trash::trash_rank(rows[a], key, lower));
        assert(ranks[b] == trash::trash_rank(rows[b], key, lower));
        if descending {
            order::lemma_ranks_in_order(ranks[b], ranks[a]);
        } else {
            order::lemma_ranks_in_order(ranks[a], ranks[b]);
        }
    }
}

/// The trash page shows one line for every wanted row, under its kind, id and
/// name, and offers to empty the trash exactly where it holds anything at all.
pub proof fn law_the_trash_page(page: TrashPage, lang: Lang, ask: TrashAsk, listing: Listing)
    requires
        trash::trash_is(page, lang, ask, listing),
    ensures
        page.can_empty <==> listing.folders@.len() + listing.files@.len() > 0,
        !page.can_empty ==> page.note is Some && page.note->0@ == i18n::phrase(
            lang,
            Key::TrashEmpty,
        ),
        page.can_empty && page.note is Some ==> page.note->0@ == i18n::phrase(lang, Key::NoResults),
        ({
            let wanted = trash::trash_entries(listing).filter(
                |row: TrashEntry|
                    trash_wanted(row, ask.kind, text::opt_text(ask.asked), text::folding()),
            );
            &&& page.lines@.len() == wanted.len()
            &&& page.note is None <==> wanted.len() > 0
            &&& exists|shown: Seq<TrashEntry>|
                {
                    &&& #[trigger] shown.to_multiset() == wanted.to_multiset()
                    &&& shown.len() == page.lines@.len()
                    &&& forall|i: int, j: int|
                        #![trigger shown[i], shown[j]]
                        0 <= i < j < shown.len() ==> if ask.descending {
                            trash_may_precede(shown[j], shown[i], ask.key, text::folding())
                        } else {
                            trash_may_precede(shown[i], shown[j], ask.key, text::folding())
                        }
                    &&& forall|i: int|
                        0 <= i < shown.len() ==> match shown[i] {
                            TrashEntry::Folder(folder) => {
                                &&& (#[trigger] page.lines@[i]).kind == ShareKind::Folder
                                &&& page.lines@[i].id@ == folder.id@
                                &&& page.lines@[i].name@ == folder.name@
                            },
                            TrashEntry::File(file) => {
                                &&& page.lines@[i].kind == ShareKind::File
                                &&& page.lines@[i].id@ == file.id@
                                &&& page.lines@[i].name@ == file.name@
                            },
                        }
                }
        }),
{
    let lower = text::folding();
    let rows = trash::trash_passing(
        trash::trash_entries(listing),
        ask.kind,
        text::opt_text(ask.asked),
        lower,
    );
    lemma_trash_filter(trash::trash_entries(listing), ask.kind, text::opt_text(ask.asked), lower);
    let shown = choose|shown: Seq<TrashEntry>| #[trigger]
        order::is_arranged(
            rows,
            trash::trash_ranks(rows, ask.key, lower),
            ask.descending,
            shown,
        ) && page.lines@.len() == shown.len() && (forall|i: int|
            0 <= i < shown.len() ==> trash::trash_line_of(
                #[trigger] page.lines@[i],
                shown[i],
                lang,
            ));
    law_the_trash_stands_by_its_field(rows, ask.key, ask.descending, shown, lower);
    assert(text::opt_str(page.note) is None <==> page.note is None);
}

/// Whether a grant is wanted: of the kind the filter names, and holding what was
/// searched for.
pub open spec fn item_wanted(
    item: SharedItem,
    filter: KindFilter,
    asked: Option<Seq<char>>,
    lower: spec_fn(Seq<char>) -> Seq<char>,
) -> bool {
    &&& filter == KindFilter::Folders ==> item.kind == ShareKind::Folder
    &&& filter == KindFilter::Files ==> item.kind == ShareKind::File
    &&& name_holds(item.name@, asked, lower)
}

/// What others shared is listed exactly where it is of the kind the filter names
/// and holds what was searched for, in the order the grants came.
pub proof fn law_shared_items_wanted(
    items: Seq<SharedItem>,
    filter: KindFilter,
    asked: Option<Seq<char>>,
    lower: spec_fn(Seq<char>) -> Seq<char>,
)
    ensures
        shared::passing(items, filter, asked, lower) == items.filter(
            |item: SharedItem| item_wanted(item, filter, asked, lower),
        ),
    decreases items.len(),
{
    reveal(Seq::filter);
    if items.len() > 0 {
        law_shared_items_wanted(items.drop_last(), filter, asked, lower);
        lemma_name_holds(items.last().name@, asked, lower);
    }
}

/// A shared row shows its file's own day and size where the file is there, its
/// folder's day where that is, and the grant's day where neither is.
pub proof fn law_shared_rows_show_their_target(
    row: SharedRow,
    item: SharedItem,
    owner_name: String,
    target: TargetReply,
    file: File,
    folder: Folder,
)
    requires
        shared::row_made(row, item, owner_name, target),
    ensures
        row.item == item && row.owner_name == owner_name,
        item.kind == ShareKind::File && target == TargetReply::File(Ok(Some(file))) ==> row.file
            == Some(file) && row.uploaded == file.created_at,
        item.kind == ShareKind::Folder && target == TargetReply::Folder(Ok(Some(folder)))
            ==> row.file is None && row.uploaded == folder.created_at,
        (target matches TargetReply::File(Err(_))) || target == TargetReply::File(Ok(None)) || (
        target matches TargetReply::Folder(Err(_))) || target == TargetReply::Folder(Ok(None))
            ==> row.file is None && row.uploaded == item.created_at,
{
}

/// How many bytes a shared row holds; a folder counts as none.
pub open spec fn shared_bytes(row: SharedRow) -> int {
    match row.file {
        Some(file) => file.size_bytes as int,
        None => 0,
    }
}

/// Whether a shared row may stand before another: by what the reader asked for,
/// and by name where the two agree.
pub open spec fn shared_may_precede(
    a: SharedRow,
    b: SharedRow,
    key: SharedKey,
    lower: spec_fn(Seq<char>) -> Seq<char>,
) -> bool {
    let by_name = order::in_dictionary_order(lower(a.item.name@), lower(b.item.name@));
    match key {
        SharedKey::Name => by_name,
        SharedKey::Uploaded => a.uploaded@ <= b.uploaded@ && (a.uploaded@ == b.uploaded@
            ==> by_name),
        SharedKey::Size => shared_bytes(a) <= shared_bytes(b) && (shared_bytes(a) == shared_bytes(b)
            ==> by_name),
        SharedKey::Owner => order::in_dictionary_order(lower(a.owner_name@), lower(b.owner_name@))
            && (lower(a.owner_name@) == lower(b.owner_name@) ==> by_name),
    }
}

/// Sorting what others shared keeps every row and puts them by what the reader
/// asked for.
pub proof fn law_shared_rows_stand_by_their_field(
    rows: Seq<SharedRow>,
    key: SharedKey,
    descending: bool,
    shown: Seq<SharedRow>,
    lower: spec_fn(Seq<char>) -> Seq<char>,
)
    requires
        order::is_arranged(rows, shared::shared_ranks(rows, key, lower), descending, shown),
    ensures
        shown.len() == rows.len(),
        shown.to_multiset() == rows.to_multiset(),
        forall|i: int, j: int|
            #![trigger shown[i], shown[j]]
            0 <= i < j < shown.len() ==> if descending {
                shared_may_precede(shown[j], shown[i], key, lower)
            } else {
                shared_may_precede(shown[i], shown[j], key, lower)
            },
{
    let ranks = shared::shared_ranks(rows, key, lower);
    order::law_arranging_keeps_every_row(rows, ranks, descending, shown);
    assert forall|i: int, j: int|
        #![trigger shown[i], shown[j]]
        0 <= i < j < shown.len() implies if descending {
        shared_may_precede(shown[j], shown[i], key, lower)
    } else {
        shared_may_precede(shown[i], shown[j], key, lower)
    } by {
        let (a, b) = order::lemma_positions(rows, ranks, descending, shown[i], shown[j]);
        assert(ranks[a] == shared::shared_rank(rows[a], key, lower));
        assert(ranks[b] == shared::shared_rank(rows[b], key, lower));
        if descending {
            order::lemma_ranks_in_order(ranks[b], ranks[a]);
        } else {
            order::lemma_ranks_in_order(ranks[a], ranks[b]);
        }
    }
}

/// The page of what others shared has one line for every row, leading to the
/// folder or to the file that was shared.
pub proof fn law_the_shared_page(page: SharedPage, lang: Lang, ask: SharedAsk, rows: Seq<SharedRow>)
    requires
        shared::shared_is(page, lang, ask, rows),
    ensures
        page.lines@.len() == rows.len(),
        page.note is None <==> rows.len() > 0,
        rows.len() == 0 && ask.asked is None && ask.kind == KindFilter::All ==> page.note is Some
            && page.note->0@ == i18n::phrase(lang, Key::NoSharedItems),
        rows.len() == 0 && (ask.asked is Some || ask.kind != KindFilter::All) ==> page.note is Some
            && page.note->0@ == i18n::phrase(lang, Key::NoResults),
        exists|shown: Seq<SharedRow>|
            {
                &&& #[trigger] shown.to_multiset() == rows.to_multiset()
                &&& shown.len() == page.lines@.len()
                &&& forall|i: int, j: int|
                    #![trigger shown[i], shown[j]]
                    0 <= i < j < shown.len() ==> if ask.descending {
                        shared_may_precede(shown[j], shown[i], ask.key, text::folding())
                    } else {
                        shared_may_precede(shown[i], shown[j], ask.key, text::folding())
                    }
                &&& forall|i: int|
                    0 <= i < shown.len() ==> {
                        &&& (#[trigger] page.lines@[i]).name@ == shown[i].item.name@
                        &&& shown[i].item.kind == ShareKind::Folder ==> page.lines@[i].href@
                            == "/drive?folder="@ + shown[i].item.target_id@
                        &&& shown[i].item.kind == ShareKind::File ==> page.lines@[i].href@
                            == "/view/"@ + shown[i].item.target_id@
                    }
            },
{
    let lower = text::folding();
    let lines = page.lines@;
    let shown = choose|shown: Seq<SharedRow>| #[trigger]
        order::is_arranged(
            rows,
            shared::shared_ranks(rows, ask.key, lower),
            ask.descending,
            shown,
        ) && lines.len() == shown.len() && (forall|i: int|
            0 <= i < shown.len() ==> shared::line_of(#[trigger] lines[i], shown[i], lang));
    law_shared_rows_stand_by_their_field(rows, ask.key, ask.descending, shown, lower);
    assert(text::opt_str(page.note) is None <==> page.note is None);
}

/// Owners are looked up one by one until every one is known, none twice.
pub proof fn law_every_owner_is_looked_up(
    next: Option<Seq<char>>,
    items: Seq<SharedItem>,
    known: Seq<KnownOwner>,
)
    requires
        shared::looks_next(next, items, known),
    ensures
        match next {
            Some(id) => {
                &&& exists|i: int| 0 <= i < items.len() && (#[trigger] items[i]).owner_id@ == id
                &&& forall|k: int| 0 <= k < known.len() ==> (#[trigger] known[k]).id@ != id
            },
            None => forall|i: int|
                0 <= i < items.len() ==> exists|k: int|
                    0 <= k < known.len() && #[trigger] known[k].id@ == (
                    #[trigger] items[i]).owner_id@,
        },
{
    if next is None {
        assert forall|i: int| 0 <= i < items.len() implies exists|k: int|
            0 <= k < known.len() && #[trigger] known[k].id@ == (#[trigger] items[i]).owner_id@ by {
            assert(shared::owner_known(known, items[i].owner_id@));
        }
    } else {
        let id = next->0;
        let i = choose|i: int|
            0 <= i < items.len() && (#[trigger] items[i]).owner_id@ == id && !shared::owner_known(
                known,
                id,
            );
        assert(items[i].owner_id@ == id);
        assert(!shared::owner_known(known, id));
    }
}

proof fn lemma_name_known(known: Seq<KnownOwner>, id: Seq<char>, at: int)
    requires
        0 <= at < known.len(),
        known[at].id@ == id,
        forall|k: int| 0 <= k < at ==> (#[trigger] known[k]).id@ != id,
    ensures
        shared::name_known(known, id) == known[at].name@,
    decreases at,
{
    if at > 0 {
        assert(known[0].id@ != id);
        let rest = known.drop_first();
        assert forall|k: int| 0 <= k < at - 1 implies (#[trigger] rest[k]).id@ != id by {
            assert(rest[k] == known[k + 1]);
        }
        lemma_name_known(rest, id, at - 1);
    }
}

/// An owner goes by the name that was found for them, and by none where the
/// store found none.
pub proof fn law_owners_go_by_their_name(
    known: Seq<KnownOwner>,
    id: Seq<char>,
    at: int,
    owner: User,
    error: StoreError,
)
    ensures
        0 <= at < known.len() && known[at].id@ == id && (forall|k: int|
            0 <= k < at ==> (#[trigger] known[k]).id@ != id) ==> shared::name_known(known, id)
            == known[at].name@,
        shared::shown_name(Ok(Some(owner))) == owner.display_name@,
        shared::shown_name(Ok(None)).len() == 0,
        shared::shown_name(Err(error)).len() == 0,
{
    if 0 <= at < known.len() && known[at].id@ == id && (forall|k: int|
        0 <= k < at ==> (#[trigger] known[k]).id@ != id) {
        lemma_name_known(known, id, at);
    }
}

} // verus!
