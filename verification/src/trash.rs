//! Trash: the soft-deleted shelf and its three mutations.
//!
//! The list shows the reader's trashed files and folders together. Restoring
//! is refused while an ancestor folder is still trashed. Purge destroys one
//! row for good, and emptying destroys them all.
use crate::address;
use crate::clock;
use crate::clock::Moment;
use crate::drive;
use crate::drive::KindFilter;
use crate::guard::{Demand, Plan};
use crate::i18n;
use crate::i18n::{t, Key, Lang};
use crate::media;
use crate::media::Chip;
use crate::model;
use crate::model::{File, Folder, Listing, ShareKind, StoreError};
use crate::order;
use crate::order::{Measure, Rank};
use crate::refusal::Refusal;
use crate::search;
use crate::share;
use crate::shared;
use crate::sizes;
use crate::text;
use vstd::prelude::*;

verus! {

// ---- The calls ------------------------------------------------------------------
/// Whether a plan asks for what a restore or a purge needs, see [`trash_plan`].
pub open spec fn plans_trash(plan: Plan, kind: Seq<char>, id: Seq<char>) -> bool {
    share::plans_target(plan, share::kind_named(kind), id, Demand::Trashed)
}

/// Restoring and purging: the row must be the caller's own and trashed. A kind
/// that is no kind is not found; a store that fails to say is unavailable.
pub fn trash_plan(kind: &str, id: &str) -> (r: Plan)
    ensures
        plans_trash(r, kind@, id@),
{
    share::target_plan(kind, id, Demand::Trashed)
}

/// Where a trash call sends the browser.
pub open spec fn trash_answer(referer: Option<Seq<char>>, call: Seq<char>, refusal: Option<Refusal>) -> Seq<
    char,
> {
    address::answered_at(share::back_of(referer, "/trash"@), call, refusal, false)
}

/// Back to the trash, the refusal (if any) on the query.
pub fn redirect_back(referer: Option<&str>, call: &str, refusal: Option<Refusal>) -> (r: String)
    ensures
        r@ == trash_answer(text::opt_str(referer), call@, refusal),
{
    share::redirect_back(referer, "/trash", call, refusal)
}

/// Where a restore or emptying the trash sends the browser.
pub open spec fn trash_changed(
    referer: Option<Seq<char>>,
    call: Seq<char>,
    outcome: Result<(), StoreError>,
) -> Seq<char> {
    trash_answer(
        referer,
        call,
        match outcome {
            Ok(_) => None,
            Err(error) => Some(share::share_words(error)),
        },
    )
}

/// The answer to a restore or to emptying the trash.
pub fn changed_trash(referer: Option<&str>, call: &str, outcome: Result<(), StoreError>) -> (r:
    String)
    ensures
        r@ == trash_changed(text::opt_str(referer), call@, outcome),
{
    let refusal = match outcome {
        Ok(_) => None,
        Err(error) => Some(share::refusal_of(error)),
    };
    redirect_back(referer, call, refusal)
}

/// What a purge is refused with. A file that was not there to purge is not
/// found; a folder's purge only ever fails by the store's word.
pub open spec fn purge_refusal(kind: ShareKind, outcome: Result<bool, StoreError>) -> Option<Refusal> {
    match outcome {
        Ok(gone) => if kind == ShareKind::File && !gone {
            Some(Refusal::NotFound)
        } else {
            None
        },
        Err(error) => Some(share::share_words(error)),
    }
}

/// Where a purge sends the browser.
pub open spec fn purge_answer(
    referer: Option<Seq<char>>,
    kind: ShareKind,
    outcome: Result<bool, StoreError>,
) -> Seq<char> {
    trash_answer(referer, "purge"@, purge_refusal(kind, outcome))
}

/// The answer to a purge.
pub fn purged(referer: Option<&str>, kind: ShareKind, outcome: Result<bool, StoreError>) -> (r: String)
    ensures
        r@ == purge_answer(text::opt_str(referer), kind, outcome),
{
    let refusal = match outcome {
        Ok(gone) => if kind == ShareKind::File && !gone {
            Some(Refusal::NotFound)
        } else {
            None
        },
        Err(error) => Some(share::refusal_of(error)),
    };
    redirect_back(referer, "purge", refusal)
}

// ---- The list --------------------------------------------------------------------
/// The trash's sort key.
#[derive(Clone, Copy, Debug, PartialEq, Eq, Structural)]
pub enum TrashKey {
    Name,
    Deleted,
    Uploaded,
    Size,
}

pub open spec fn trash_word(key: TrashKey) -> Seq<char> {
    match key {
        TrashKey::Name => "name"@,
        TrashKey::Deleted => "deleted"@,
        TrashKey::Uploaded => "uploaded"@,
        TrashKey::Size => "size"@,
    }
}

/// The key a word names.
pub open spec fn trash_key_named(word: Seq<char>) -> Option<TrashKey> {
    if word == "name"@ {
        Some(TrashKey::Name)
    } else if word == "deleted"@ {
        Some(TrashKey::Deleted)
    } else if word == "uploaded"@ {
        Some(TrashKey::Uploaded)
    } else if word == "size"@ {
        Some(TrashKey::Size)
    } else {
        None
    }
}

/// The sort a query value names and whether it descends: names ascend by
/// default, measures descend. Anything else, whatever direction it asks for, is
/// newest trash first.
pub open spec fn trash_sort_named(raw: Option<Seq<char>>) -> (TrashKey, bool) {
    let (word, dir) = drive::key_and_dir(raw);
    match trash_key_named(word) {
        Some(key) => (
            key,
            if dir == "asc"@ {
                false
            } else if dir == "desc"@ {
                true
            } else {
                key != TrashKey::Name
            },
        ),
        None => (TrashKey::Deleted, true),
    }
}

impl TrashKey {
    pub fn as_str(self) -> (r: &'static str)
        ensures
            r@ == trash_word(self),
    {
        match self {
            TrashKey::Name => "name",
            TrashKey::Deleted => "deleted",
            TrashKey::Uploaded => "uploaded",
            TrashKey::Size => "size",
        }
    }
}

/// The trash's sort, off the query as `key:direction`; newest trash first for
/// a key it does not know.
pub fn valid_trash_sort(raw: Option<&str>) -> (r: (TrashKey, bool))
    ensures
        r == trash_sort_named(text::opt_str(raw)),
{
    let (word, dir) = drive::split_sort(raw);
    let key = if text::same(&word, "name") {
        TrashKey::Name
    } else if text::same(&word, "deleted") {
        TrashKey::Deleted
    } else if text::same(&word, "uploaded") {
        TrashKey::Uploaded
    } else if text::same(&word, "size") {
        TrashKey::Size
    } else {
        return (TrashKey::Deleted, true);
    };
    let descending = if text::same(&dir, "asc") {
        false
    } else if text::same(&dir, "desc") {
        true
    } else {
        key != TrashKey::Name
    };
    (key, descending)
}

/// The kind filter, off the query: all, folders or files.
pub fn valid_kind(raw: Option<&str>) -> (r: KindFilter)
    ensures
        r == drive::filter_named(text::opt_str(raw)),
{
    drive::parse_kind(raw)
}

/// One trashed row, folder or file.
#[derive(Debug)]
pub enum TrashEntry {
    Folder(Folder),
    File(File),
}

pub open spec fn trash_id(row: TrashEntry) -> Seq<char> {
    match row {
        TrashEntry::Folder(folder) => folder.id@,
        TrashEntry::File(file) => file.id@,
    }
}

pub open spec fn trash_name(row: TrashEntry) -> Seq<char> {
    match row {
        TrashEntry::Folder(folder) => folder.name@,
        TrashEntry::File(file) => file.name@,
    }
}

pub open spec fn trash_uploaded(row: TrashEntry) -> Moment {
    match row {
        TrashEntry::Folder(folder) => folder.created_at,
        TrashEntry::File(file) => file.created_at,
    }
}

/// The trash timestamp; the upload date covers a row that lost it.
pub open spec fn trash_deleted(row: TrashEntry) -> Moment {
    let stamped = match row {
        TrashEntry::Folder(folder) => folder.deleted_at,
        TrashEntry::File(file) => file.deleted_at,
    };
    match stamped {
        Some(at) => at,
        None => trash_uploaded(row),
    }
}

/// Folders carry no size of their own.
pub open spec fn trash_size(row: TrashEntry) -> nat {
    match row {
        TrashEntry::Folder(_) => 0,
        TrashEntry::File(file) => file.size_bytes as nat,
    }
}

impl TrashEntry {
    pub fn id(&self) -> (r: &str)
        ensures
            r@ == trash_id(*self),
    {
        match self {
            TrashEntry::Folder(folder) => folder.id.as_str(),
            TrashEntry::File(file) => file.id.as_str(),
        }
    }

    pub fn name(&self) -> (r: &str)
        ensures
            r@ == trash_name(*self),
    {
        match self {
            TrashEntry::Folder(folder) => folder.name.as_str(),
            TrashEntry::File(file) => file.name.as_str(),
        }
    }

    pub fn uploaded(&self) -> (r: Moment)
        ensures
            r == trash_uploaded(*self),
    {
        match self {
            TrashEntry::Folder(folder) => folder.created_at,
            TrashEntry::File(file) => file.created_at,
        }
    }

    /// The trash timestamp. Always present on trashed rows; the upload date
    /// covers a row that lost it.
    pub fn deleted(&self) -> (r: Moment)
        ensures
            r == trash_deleted(*self),
    {
        let stamped = match self {
            TrashEntry::Folder(folder) => folder.deleted_at,
            TrashEntry::File(file) => file.deleted_at,
        };
        match stamped {
            Some(at) => at,
            None => self.uploaded(),
        }
    }

    /// Folders carry no size of their own and sort as zero.
    pub fn size(&self) -> (r: u64)
        ensures
            r == trash_size(*self),
    {
        match self {
            TrashEntry::Folder(_) => 0,
            TrashEntry::File(file) => file.size_bytes,
        }
    }
}

/// The kind of a trashed row.
pub open spec fn trash_kind(row: TrashEntry) -> ShareKind {
    match row {
        TrashEntry::Folder(_) => ShareKind::Folder,
        TrashEntry::File(_) => ShareKind::File,
    }
}

/// Everything in the trash, folders first.
pub open spec fn trash_entries(listing: Listing) -> Seq<TrashEntry> {
    listing.folders@.map_values(|f: Folder| TrashEntry::Folder(f)) + listing.files@.map_values(
        |f: File| TrashEntry::File(f),
    )
}

/// The rows that pass the filters, in their order. Cases are folded by `lower`.
pub open spec fn trash_passing(
    rows: Seq<TrashEntry>,
    filter: KindFilter,
    asked: Option<Seq<char>>,
    lower: spec_fn(Seq<char>) -> Seq<char>,
) -> Seq<TrashEntry>
    decreases rows.len(),
{
    if rows.len() == 0 {
        Seq::empty()
    } else {
        let head = trash_passing(rows.drop_last(), filter, asked, lower);
        if shared::kind_passes(trash_kind(rows.last()), filter) && search::name_passes(
            trash_name(rows.last()),
            asked,
            lower,
        ) {
            head.push(rows.last())
        } else {
            head
        }
    }
}

/// Whether every row's name stays within ASCII.
pub open spec fn plain_trash(rows: Seq<TrashEntry>) -> bool {
    forall|i: int| 0 <= i < rows.len() ==> text::all_ascii(trash_name(#[trigger] rows[i]))
}

proof fn lemma_entries_plain(listing: Listing)
    requires
        model::plain_listing(listing),
    ensures
        plain_trash(trash_entries(listing)),
{
    let rows = trash_entries(listing);
    let n = listing.folders@.len();
    assert forall|i: int| 0 <= i < rows.len() implies text::all_ascii(
        trash_name(#[trigger] rows[i]),
    ) by {
        if i < n {
            assert(rows[i] == TrashEntry::Folder(listing.folders@[i]));
        } else {
            assert(rows[i] == TrashEntry::File(listing.files@[i - n]));
        }
    }
}

proof fn lemma_passing_plain(
    rows: Seq<TrashEntry>,
    filter: KindFilter,
    asked: Option<Seq<char>>,
    lower: spec_fn(Seq<char>) -> Seq<char>,
)
    requires
        plain_trash(rows),
    ensures
        plain_trash(trash_passing(rows, filter, asked, lower)),
    decreases rows.len(),
{
    if rows.len() > 0 {
        lemma_passing_plain(rows.drop_last(), filter, asked, lower);
    }
}

/// A row's place in the list, cases being folded by `lower`.
pub open spec fn trash_rank(
    row: TrashEntry,
    key: TrashKey,
    lower: spec_fn(Seq<char>) -> Seq<char>,
) -> order::RankModel {
    let name = lower(trash_name(row));
    match key {
        TrashKey::Name => order::RankModel {
            first: order::MeasureModel::Text(name),
            second: trash_id(row),
        },
        TrashKey::Uploaded => order::RankModel {
            first: order::MeasureModel::Number(trash_uploaded(row)@),
            second: name,
        },
        TrashKey::Size => order::RankModel {
            first: order::MeasureModel::Number(trash_size(row) as int),
            second: name,
        },
        TrashKey::Deleted => order::RankModel {
            first: order::MeasureModel::Number(trash_deleted(row)@),
            second: name,
        },
    }
}

pub open spec fn trash_ranks(
    rows: Seq<TrashEntry>,
    key: TrashKey,
    lower: spec_fn(Seq<char>) -> Seq<char>,
) -> Seq<order::RankModel> {
    rows.map_values(|r: TrashEntry| trash_rank(r, key, lower))
}

/// The rows of the trash that pass the filters: folders, then files.
pub fn trash_rows(listing: Listing, filter: KindFilter, asked: &Option<String>) -> (r: Vec<TrashEntry>)
    ensures
        r@ == trash_passing(
            trash_entries(listing),
            filter,
            text::opt_text(*asked),
            text::folding(),
        ),
        model::plain_listing(listing) && search::plain_asked(text::opt_text(*asked)) ==> r@
            == trash_passing(
            trash_entries(listing),
            filter,
            text::opt_text(*asked),
            text::ascii_folding(),
        ),
{
    let ghost all = trash_entries(listing);
    proof {
        if model::plain_listing(listing) {
            lemma_entries_plain(listing);
        }
    }
    let ghost folders0 = listing.folders@;
    let ghost files0 = listing.files@;
    let ghost needle = text::opt_text(*asked);
    let ghost plain = model::plain_listing(listing) && search::plain_asked(needle);
    let Listing { folders, files } = listing;
    let mut folders = folders;
    let mut files = files;
    let mut out: Vec<TrashEntry> = Vec::new();
    let ghost mut k: int = 0;
    while folders.len() > 0
        invariant
            0 <= k,
            k + folders.len() == folders0.len(),
            folders@ == folders0.skip(k),
            all == folders0.map_values(|f: Folder| TrashEntry::Folder(f)) + files0.map_values(
                |f: File| TrashEntry::File(f),
            ),
            needle == text::opt_text(*asked),
            out@ == trash_passing(all.take(k), filter, needle, text::folding()),
            plain ==> plain_trash(all) && search::plain_asked(needle) && out@ == trash_passing(
                all.take(k),
                filter,
                needle,
                text::ascii_folding(),
            ),
        decreases folders.len(),
    {
        let row = TrashEntry::Folder(folders.remove(0));
        proof {
            assert(all[k] == row);
            assert(all.take(k + 1).drop_last() == all.take(k));
            assert(all.take(k + 1).last() == row);
            assert(folders@ =~= folders0.skip(k + 1));
            k = k + 1;
        }
        if filter != KindFilter::Files && search::passes(row.name(), asked) {
            out.push(row);
        }
    }
    while files.len() > 0
        invariant
            folders0.len() <= k,
            k - folders0.len() + files.len() == files0.len(),
            files@ == files0.skip(k - folders0.len()),
            all == folders0.map_values(|f: Folder| TrashEntry::Folder(f)) + files0.map_values(
                |f: File| TrashEntry::File(f),
            ),
            needle == text::opt_text(*asked),
            out@ == trash_passing(all.take(k), filter, needle, text::folding()),
            plain ==> plain_trash(all) && search::plain_asked(needle) && out@ == trash_passing(
                all.take(k),
                filter,
                needle,
                text::ascii_folding(),
            ),
        decreases files.len(),
    {
        let row = TrashEntry::File(files.remove(0));
        proof {
            assert(all[k] == row);
            assert(all.take(k + 1).drop_last() == all.take(k));
            assert(all.take(k + 1).last() == row);
            assert(files@ =~= files0.skip(k - folders0.len() + 1));
            k = k + 1;
        }
        if filter != KindFilter::Folders && search::passes(row.name(), asked) {
            out.push(row);
        }
    }
    assert(all.take(k) =~= all);
    out
}

/// The rows in the order the controls ask for.
pub fn sort_trash(rows: Vec<TrashEntry>, key: TrashKey, descending: bool) -> (r: Vec<TrashEntry>)
    ensures
        order::is_arranged(rows@, trash_ranks(rows@, key, text::folding()), descending, r@),
        plain_trash(rows@) ==> order::is_arranged(
            rows@,
            trash_ranks(rows@, key, text::ascii_folding()),
            descending,
            r@,
        ),
{
    let mut ranks: Vec<Rank> = Vec::new();
    let mut i: usize = 0;
    while i < rows.len()
        invariant
            i <= rows.len(),
            ranks.len() == i,
            forall|k: int|
                0 <= k < i ==> (#[trigger] ranks@[k])@ == trash_rank(rows@[k], key, text::folding()),
            forall|k: int|
                0 <= k < i && text::all_ascii(trash_name(rows@[k])) ==> (#[trigger] ranks@[k])@
                    == trash_rank(rows@[k], key, text::ascii_folding()),
        decreases rows.len() - i,
    {
        let row = &rows[i];
        let name = row.name().to_lowercase();
        let rank = match key {
            TrashKey::Name => Rank { first: Measure::Text(name), second: row.id().to_owned() },
            TrashKey::Uploaded => Rank {
                first: Measure::Number(row.uploaded().nanos()),
                second: name,
            },
            TrashKey::Size => Rank { first: Measure::Number(row.size() as i128), second: name },
            TrashKey::Deleted => Rank {
                first: Measure::Number(row.deleted().nanos()),
                second: name,
            },
        };
        ranks.push(rank);
        i += 1;
    }
    proof {
        assert(order::models(ranks@) =~= trash_ranks(rows@, key, text::folding()));
        if plain_trash(rows@) {
            assert(order::models(ranks@) =~= trash_ranks(rows@, key, text::ascii_folding()));
        }
    }
    order::arrange(rows, &ranks, descending)
}

/// The muted line under a trashed name.
pub open spec fn trash_details_of(lang: Lang, row: TrashEntry) -> Seq<char> {
    let head = i18n::phrase(lang, Key::DeletedLabel) + " "@ + clock::day_name(trash_deleted(row)@)
        + " · "@ + i18n::phrase(lang, Key::UploadedLabel) + " "@ + clock::day_name(
        trash_uploaded(row)@,
    );
    match row {
        TrashEntry::File(file) => head + " · "@ + sizes::size_text(
            file.size_bytes as nat,
            sizes::binary_units(),
        ),
        TrashEntry::Folder(_) => head,
    }
}

/// The muted line under each trashed name: the trash date, the upload date, and
/// the size for files.
pub fn trash_details(lang: Lang, row: &TrashEntry) -> (r: String)
    ensures
        r@ == trash_details_of(lang, *row),
{
    let mut out = text::glue(t(lang, Key::DeletedLabel), " ");
    out.append(&row.deleted().day());
    out.append(" · ");
    out.append(t(lang, Key::UploadedLabel));
    out.append(" ");
    out.append(&row.uploaded().day());
    if let TrashEntry::File(file) = row {
        out.append(" · ");
        out.append(&sizes::human_bytes(file.size_bytes));
    }
    out
}

/// One line of the page.
#[derive(Debug)]
pub struct TrashLine {
    pub kind: ShareKind,
    pub id: String,
    pub name: String,
    pub chip: Chip,
    pub details: String,
}

/// Whether a line shows a row.
pub open spec fn trash_line_of(line: TrashLine, row: TrashEntry, lang: Lang) -> bool {
    &&& line.kind == trash_kind(row)
    &&& line.id@ == trash_id(row)
    &&& line.name@ == trash_name(row)
    &&& line.chip@ == match row {
        TrashEntry::Folder(_) => share::folder_glyph(),
        TrashEntry::File(file) => media::glyph_of(file.mime@),
    }
    &&& line.details@ == trash_details_of(lang, row)
}

fn trash_line(row: &TrashEntry, lang: Lang) -> (r: TrashLine)
    ensures
        trash_line_of(r, *row, lang),
{
    match row {
        TrashEntry::Folder(folder) => TrashLine {
            kind: ShareKind::Folder,
            id: folder.id.clone(),
            name: folder.name.clone(),
            chip: Chip::Glyph { class: "folder", glyph: "▤" },
            details: trash_details(lang, row),
        },
        TrashEntry::File(file) => TrashLine {
            kind: ShareKind::File,
            id: file.id.clone(),
            name: file.name.clone(),
            chip: media::trash_chip(file),
            details: trash_details(lang, row),
        },
    }
}

/// What the query asks the list for.
#[derive(Debug)]
pub struct TrashAsk {
    pub key: TrashKey,
    pub descending: bool,
    pub kind: KindFilter,
    pub asked: Option<String>,
}

/// Whether an ask is what the query values ask for, see [`trash_ask`].
pub open spec fn asks_trash(
    ask: TrashAsk,
    sort: Option<Seq<char>>,
    kind: Option<Seq<char>>,
    q: Option<Seq<char>>,
) -> bool {
    &&& (ask.key, ask.descending) == trash_sort_named(sort)
    &&& ask.kind == drive::filter_named(kind)
    &&& text::opt_text(ask.asked) == search::asked_in(q)
}

/// What the query asks the list for.
pub fn trash_ask(sort: Option<&str>, kind: Option<&str>, q: Option<&str>) -> (r: TrashAsk)
    ensures
        asks_trash(r, text::opt_str(sort), text::opt_str(kind), text::opt_str(q)),
{
    let (key, descending) = valid_trash_sort(sort);
    TrashAsk { key, descending, kind: valid_kind(kind), asked: search::searched(q) }
}

/// Everything the trash page shows.
#[derive(Debug)]
pub struct TrashPage {
    pub sort_value: String,
    pub box_text: String,
    pub lines: Vec<TrashLine>,
    /// What an empty list says.
    pub note: Option<&'static str>,
    /// Whether there is anything to destroy.
    pub can_empty: bool,
}

/// Whether a page shows the rows that pass the filters, in the order the query
/// asks for, or says why there are none. Cases are folded by `lower`.
pub open spec fn trash_shows(
    page: TrashPage,
    ask: TrashAsk,
    listing: Listing,
    lang: Lang,
    lower: spec_fn(Seq<char>) -> Seq<char>,
) -> bool {
    let rows = trash_passing(trash_entries(listing), ask.kind, text::opt_text(ask.asked), lower);
    &&& text::opt_str(page.note) == if rows.len() > 0 {
        None
    } else if !page.can_empty {
        Some(i18n::phrase(lang, Key::TrashEmpty))
    } else {
        Some(i18n::phrase(lang, Key::NoResults))
    }
    &&& exists|shown: Seq<TrashEntry>| #[trigger]
        order::is_arranged(rows, trash_ranks(rows, ask.key, lower), ask.descending, shown)
            && page.lines@.len() == shown.len() && (forall|i: int|
            0 <= i < shown.len() ==> trash_line_of(#[trigger] page.lines@[i], shown[i], lang))
}

/// Whether a page is the trash page, see [`trash_page`].
pub open spec fn trash_is(
    page: TrashPage,
    lang: Lang,
    ask: TrashAsk,
    listing: Listing,
) -> bool {
    &&& page.sort_value@ == shared::directed(trash_word(ask.key), ask.descending)
    &&& page.box_text@ == match ask.asked {
        Some(asked) => asked@,
        None => Seq::empty(),
    }
    &&& page.can_empty == (listing.folders@.len() > 0 || listing.files@.len() > 0)
    &&& trash_shows(page, ask, listing, lang, text::folding())
    &&& model::plain_listing(listing) && search::plain_asked(text::opt_text(ask.asked))
        ==> trash_shows(page, ask, listing, lang, text::ascii_folding())
}

/// The reader's trash: folders and files in one list, each row carrying its way
/// back and its way gone, plus the button that destroys them all.
pub fn trash_page(lang: Lang, ask: &TrashAsk, listing: Listing) -> (r: TrashPage)
    ensures
        trash_is(
            r,
            lang,
            *ask,
            listing,
        ),
{
    let can_empty = listing.folders.len() > 0 || listing.files.len() > 0;
    let rows = trash_rows(listing, ask.kind, &ask.asked);
    proof {
        if model::plain_listing(listing) {
            lemma_entries_plain(listing);
            lemma_passing_plain(
                trash_entries(listing),
                ask.kind,
                text::opt_text(ask.asked),
                text::folding(),
            );
        }
    }
    let note = if rows.len() > 0 {
        None
    } else if !can_empty {
        Some(t(lang, Key::TrashEmpty))
    } else {
        Some(t(lang, Key::NoResults))
    };
    let shown = sort_trash(rows, ask.key, ask.descending);
    let mut lines: Vec<TrashLine> = Vec::new();
    let mut i: usize = 0;
    while i < shown.len()
        invariant
            i <= shown.len(),
            lines.len() == i,
            forall|k: int| 0 <= k < i ==> trash_line_of(#[trigger] lines@[k], shown@[k], lang),
        decreases shown.len() - i,
    {
        lines.push(trash_line(&shown[i], lang));
        i += 1;
    }
    TrashPage {
        sort_value: shared::directed_text(ask.key.as_str(), ask.descending),
        box_text: match &ask.asked {
            Some(asked) => asked.clone(),
            None => String::new(),
        },
        lines,
        note,
        can_empty,
    }
}

} // verus!
