//! What others shared with the reader: folders and files in one list.
//!
//! A grant carries no dates or counters of its own, so each target is looked
//! up; a target that went missing since the grant keeps its row on the grant's
//! own date. The reader's own library never appears here.
use crate::clock;
use crate::clock::Moment;
use crate::drive;
use crate::drive::KindFilter;
use crate::files::FileReply;
use crate::i18n;
use crate::i18n::{t, Key, Lang};
use crate::media;
use crate::media::Chip;
use crate::model::{File, ShareKind, SharedItem, StoreError, User};
use crate::order;
use crate::order::{Measure, Rank};
use crate::search;
use crate::share;
use crate::sizes;
use crate::text;
use crate::walk::FolderReply;
use vstd::prelude::*;

verus! {

/// The shared list's sort key.
#[derive(Clone, Copy, Debug, PartialEq, Eq, Structural)]
pub enum SharedKey {
    Name,
    Uploaded,
    Size,
    Owner,
}

pub open spec fn shared_word(key: SharedKey) -> Seq<char> {
    match key {
        SharedKey::Name => "name"@,
        SharedKey::Uploaded => "uploaded"@,
        SharedKey::Size => "size"@,
        SharedKey::Owner => "owner"@,
    }
}

/// The key a word names.
pub open spec fn shared_key_named(word: Seq<char>) -> Option<SharedKey> {
    if word == "name"@ {
        Some(SharedKey::Name)
    } else if word == "uploaded"@ {
        Some(SharedKey::Uploaded)
    } else if word == "size"@ {
        Some(SharedKey::Size)
    } else if word == "owner"@ {
        Some(SharedKey::Owner)
    } else {
        None
    }
}

/// The sort a query value names and whether it descends: names and owners
/// ascend by default, the measures descend. Anything else, whatever direction
/// it asks for, is by name, ascending.
pub open spec fn shared_sort_named(raw: Option<Seq<char>>) -> (SharedKey, bool) {
    let (word, dir) = drive::key_and_dir(raw);
    match shared_key_named(word) {
        Some(key) => (
            key,
            if dir == "asc"@ {
                false
            } else if dir == "desc"@ {
                true
            } else {
                key == SharedKey::Uploaded || key == SharedKey::Size
            },
        ),
        None => (SharedKey::Name, false),
    }
}

impl SharedKey {
    pub fn as_str(self) -> (r: &'static str)
        ensures
            r@ == shared_word(self),
    {
        match self {
            SharedKey::Name => "name",
            SharedKey::Uploaded => "uploaded",
            SharedKey::Size => "size",
            SharedKey::Owner => "owner",
        }
    }
}

/// The shared list's sort, off the query as `key:direction`; by name for a key
/// it does not know.
pub fn valid_shared_sort(raw: Option<&str>) -> (r: (SharedKey, bool))
    ensures
        r == shared_sort_named(text::opt_str(raw)),
{
    let (word, dir) = drive::split_sort(raw);
    let key = if text::same(&word, "name") {
        SharedKey::Name
    } else if text::same(&word, "uploaded") {
        SharedKey::Uploaded
    } else if text::same(&word, "size") {
        SharedKey::Size
    } else if text::same(&word, "owner") {
        SharedKey::Owner
    } else {
        return (SharedKey::Name, false);
    };
    let descending = if text::same(&dir, "asc") {
        false
    } else if text::same(&dir, "desc") {
        true
    } else {
        key == SharedKey::Uploaded || key == SharedKey::Size
    };
    (key, descending)
}

/// The kind filter, off the query: all, folders or files.
pub fn valid_shared_kind(raw: Option<&str>) -> (r: KindFilter)
    ensures
        r == drive::filter_named(text::opt_str(raw)),
{
    drive::parse_kind(raw)
}

// ---- Owners ----------------------------------------------------------------------
/// An owner whose name was looked up.
#[derive(Debug)]
pub struct KnownOwner {
    pub id: String,
    pub name: String,
}

/// Whether an owner was looked up.
pub open spec fn owner_known(known: Seq<KnownOwner>, id: Seq<char>) -> bool {
    exists|i: int| 0 <= i < known.len() && (#[trigger] known[i]).id@ == id
}

/// The name of an owner, empty where it is not known.
pub open spec fn name_known(known: Seq<KnownOwner>, id: Seq<char>) -> Seq<char>
    decreases known.len(),
{
    if known.len() == 0 {
        Seq::empty()
    } else if known[0].id@ == id {
        known[0].name@
    } else {
        name_known(known.drop_first(), id)
    }
}

fn is_known(known: &Vec<KnownOwner>, id: &str) -> (r: bool)
    ensures
        r == owner_known(known@, id@),
{
    let mut i: usize = 0;
    while i < known.len()
        invariant
            i <= known.len(),
            forall|k: int| 0 <= k < i ==> (#[trigger] known@[k]).id@ != id@,
        decreases known.len() - i,
    {
        if text::same(&known[i].id, id) {
            assert(known@[i as int].id@ == id@);
            return true;
        }
        i += 1;
    }
    false
}

/// Whether an owner is the next one to look up, see [`owner_to_look`].
pub open spec fn looks_next(
    next: Option<Seq<char>>,
    items: Seq<SharedItem>,
    known: Seq<KnownOwner>,
) -> bool {
    match next {
        Some(id) => exists|i: int|
            0 <= i < items.len() && (#[trigger] items[i]).owner_id@ == id && !owner_known(known, id)
                && forall|k: int| 0 <= k < i ==> owner_known(known, (#[trigger] items[k]).owner_id@),
        None => forall|k: int|
            0 <= k < items.len() ==> owner_known(known, (#[trigger] items[k]).owner_id@),
    }
}

/// The owner to look up next: the first one not known yet, or nobody once all
/// are.
pub fn owner_to_look(items: &Vec<SharedItem>, known: &Vec<KnownOwner>) -> (r: Option<String>)
    ensures
        looks_next(text::opt_text(r), items@, known@),
{
    let mut i: usize = 0;
    while i < items.len()
        invariant
            i <= items.len(),
            forall|k: int| 0 <= k < i ==> owner_known(known@, (#[trigger] items@[k]).owner_id@),
        decreases items.len() - i,
    {
        if !is_known(known, &items[i].owner_id) {
            let id = items[i].owner_id.clone();
            assert(items@[i as int].owner_id@ == id@);
            return Some(id);
        }
        i += 1;
    }
    None
}

/// The name an owner is shown by.
pub open spec fn shown_name(found: Result<Option<User>, StoreError>) -> Seq<char> {
    match found {
        Ok(Some(owner)) => owner.display_name@,
        _ => Seq::empty(),
    }
}

/// The name an owner is shown under: their display name, or none where the
/// store does not find them.
pub fn owner_display(found: &Result<Option<User>, StoreError>) -> (r: String)
    ensures
        r@ == shown_name(*found),
{
    match found {
        Ok(Some(owner)) => owner.display_name.clone(),
        _ => String::new(),
    }
}

/// The name of a known owner, or none.
pub fn owner_name(known: &Vec<KnownOwner>, id: &str) -> (r: String)
    ensures
        r@ == name_known(known@, id@),
{
    let mut i: usize = 0;
    assert(known@.skip(0) == known@);
    while i < known.len()
        invariant
            i <= known.len(),
            name_known(known@, id@) == name_known(known@.skip(i as int), id@),
        decreases known.len() - i,
    {
        assert(known@.skip(i as int)[0] == known@[i as int]);
        assert(known@.skip(i as int).drop_first() == known@.skip(i + 1));
        if text::same(&known[i].id, id) {
            return known[i].name.clone();
        }
        i += 1;
    }
    String::new()
}

// ---- The list ----------------------------------------------------------------------
/// Whether a kind passes the filter.
pub open spec fn kind_passes(kind: ShareKind, filter: KindFilter) -> bool {
    match filter {
        KindFilter::All => true,
        KindFilter::Folders => kind == ShareKind::Folder,
        KindFilter::Files => kind == ShareKind::File,
    }
}

/// Whether a grant passes the list's filters, cases being folded by `lower`.
pub open spec fn item_passes(
    item: SharedItem,
    filter: KindFilter,
    asked: Option<Seq<char>>,
    lower: spec_fn(Seq<char>) -> Seq<char>,
) -> bool {
    kind_passes(item.kind, filter) && search::name_passes(item.name@, asked, lower)
}

/// Whether every grant's name stays within ASCII.
pub open spec fn plain_items(items: Seq<SharedItem>) -> bool {
    forall|i: int| 0 <= i < items.len() ==> text::all_ascii((#[trigger] items[i]).name@)
}

/// The grants that pass the filters, in their order.
pub open spec fn passing(
    items: Seq<SharedItem>,
    filter: KindFilter,
    asked: Option<Seq<char>>,
    lower: spec_fn(Seq<char>) -> Seq<char>,
) -> Seq<SharedItem>
    decreases items.len(),
{
    if items.len() == 0 {
        Seq::empty()
    } else {
        let head = passing(items.drop_last(), filter, asked, lower);
        if item_passes(items.last(), filter, asked, lower) {
            head.push(items.last())
        } else {
            head
        }
    }
}

/// The grants that pass the filters: these are the ones whose targets are
/// looked up.
pub fn wanted_items(items: Vec<SharedItem>, filter: KindFilter, asked: &Option<String>) -> (r: Vec<
    SharedItem,
>)
    ensures
        r@ == passing(items@, filter, text::opt_text(*asked), text::folding()),
        plain_items(items@) && search::plain_asked(text::opt_text(*asked)) ==> r@ == passing(
            items@,
            filter,
            text::opt_text(*asked),
            text::ascii_folding(),
        ),
{
    let ghost all = items@;
    let ghost needle = text::opt_text(*asked);
    let mut rest = items;
    let mut out: Vec<SharedItem> = Vec::new();
    let ghost mut k: int = 0;
    while rest.len() > 0
        invariant
            0 <= k,
            k + rest.len() == all.len(),
            rest@ == all.skip(k),
            needle == text::opt_text(*asked),
            out@ == passing(all.take(k), filter, needle, text::folding()),
            plain_items(all) && search::plain_asked(needle) ==> out@ == passing(
                all.take(k),
                filter,
                needle,
                text::ascii_folding(),
            ),
        decreases rest.len(),
    {
        let item = rest.remove(0);
        proof {
            assert(item == all[k]);
            assert(all.take(k + 1).drop_last() == all.take(k));
            assert(all.take(k + 1).last() == item);
            assert(rest@ =~= all.skip(k + 1));
            k = k + 1;
        }
        let right_kind = match filter {
            KindFilter::All => true,
            KindFilter::Folders => item.kind == ShareKind::Folder,
            KindFilter::Files => item.kind == ShareKind::File,
        };
        if right_kind && search::passes(&item.name, asked) {
            out.push(item);
        }
    }
    assert(all.take(k) == all);
    out
}

/// A lookup of a grant's target.
#[derive(Debug)]
pub enum TargetReply {
    File(FileReply),
    Folder(FolderReply),
}

/// One grant with the target's own dates and counters. The file row stays
/// aboard for the list chip; folders carry none.
#[derive(Debug)]
pub struct SharedRow {
    pub item: SharedItem,
    pub owner_name: String,
    pub file: Option<File>,
    pub uploaded: Moment,
}

/// The file behind a grant on one, where the store finds it.
pub open spec fn target_file(item: SharedItem, target: TargetReply) -> Option<File> {
    match (item.kind, target) {
        (ShareKind::File, TargetReply::File(Ok(found))) => found,
        _ => None,
    }
}

/// When a grant's target went up: its own date, or the grant's where it went
/// missing.
pub open spec fn target_uploaded(item: SharedItem, target: TargetReply) -> Moment {
    match (item.kind, target) {
        (ShareKind::File, TargetReply::File(Ok(Some(file)))) => file.created_at,
        (ShareKind::Folder, TargetReply::Folder(Ok(Some(folder)))) => folder.created_at,
        _ => item.created_at,
    }
}

/// Whether a row is made of a grant and its target, see [`shared_row`].
pub open spec fn row_made(
    row: SharedRow,
    item: SharedItem,
    owner_name: String,
    target: TargetReply,
) -> bool {
    &&& row.item == item
    &&& row.owner_name == owner_name
    &&& row.file == target_file(item, target)
    &&& row.uploaded == target_uploaded(item, target)
}

/// The row of a grant, from what its target's lookup found.
pub fn shared_row(item: SharedItem, owner_name: String, target: TargetReply) -> (r: SharedRow)
    ensures
        row_made(r, item, owner_name, target),
{
    match (item.kind, target) {
        (ShareKind::File, TargetReply::File(Ok(Some(file)))) => {
            let uploaded = file.created_at;
            SharedRow { item, owner_name, file: Some(file), uploaded }
        },
        (ShareKind::Folder, TargetReply::Folder(Ok(Some(folder)))) => {
            let uploaded = folder.created_at;
            SharedRow { item, owner_name, file: None, uploaded }
        },
        _ => {
            let uploaded = item.created_at;
            SharedRow { item, owner_name, file: None, uploaded }
        },
    }
}

pub open spec fn size_of_row(row: SharedRow) -> nat {
    match row.file {
        Some(file) => file.size_bytes as nat,
        None => 0,
    }
}

pub open spec fn downloads_of_row(row: SharedRow) -> nat {
    match row.file {
        Some(file) => file.download_count as nat,
        None => 0,
    }
}

impl SharedRow {
    pub fn size(&self) -> (r: u64)
        ensures
            r == size_of_row(*self),
    {
        match &self.file {
            Some(file) => file.size_bytes,
            None => 0,
        }
    }

    pub fn downloads(&self) -> (r: u64)
        ensures
            r == downloads_of_row(*self),
    {
        match &self.file {
            Some(file) => file.download_count,
            None => 0,
        }
    }
}

/// A row's place in the list, cases being folded by `lower`.
pub open spec fn shared_rank(
    row: SharedRow,
    key: SharedKey,
    lower: spec_fn(Seq<char>) -> Seq<char>,
) -> order::RankModel {
    let name = lower(row.item.name@);
    match key {
        SharedKey::Uploaded => order::RankModel {
            first: order::MeasureModel::Number(row.uploaded@),
            second: name,
        },
        SharedKey::Size => order::RankModel {
            first: order::MeasureModel::Number(size_of_row(row) as int),
            second: name,
        },
        SharedKey::Owner => order::RankModel {
            first: order::MeasureModel::Text(lower(row.owner_name@)),
            second: name,
        },
        SharedKey::Name => order::RankModel {
            first: order::MeasureModel::Text(name),
            second: row.item.target_id@,
        },
    }
}

pub open spec fn shared_ranks(
    rows: Seq<SharedRow>,
    key: SharedKey,
    lower: spec_fn(Seq<char>) -> Seq<char>,
) -> Seq<order::RankModel> {
    rows.map_values(|r: SharedRow| shared_rank(r, key, lower))
}

/// Whether a row's name and its owner's stay within ASCII.
pub open spec fn plain_row(row: SharedRow) -> bool {
    text::all_ascii(row.item.name@) && text::all_ascii(row.owner_name@)
}

/// Whether every row's names do.
pub open spec fn plain_rows(rows: Seq<SharedRow>) -> bool {
    forall|i: int| 0 <= i < rows.len() ==> plain_row(#[trigger] rows[i])
}

/// The rows in the order the controls ask for.
pub fn sort_shared(rows: Vec<SharedRow>, key: SharedKey, descending: bool) -> (r: Vec<SharedRow>)
    ensures
        order::is_arranged(rows@, shared_ranks(rows@, key, text::folding()), descending, r@),
        plain_rows(rows@) ==> order::is_arranged(
            rows@,
            shared_ranks(rows@, key, text::ascii_folding()),
            descending,
            r@,
        ),
{
    let mut ranks: Vec<Rank> = Vec::new();
    let mut i: usize = 0;
    while i < rows.len()
        invariant
            i <= rows.len(),
            ranks.len() == i,
            forall|k: int|
                0 <= k < i ==> (#[trigger] ranks@[k])@ == shared_rank(rows@[k], key, text::folding()),
            forall|k: int|
                0 <= k < i && plain_row(rows@[k]) ==> (#[trigger] ranks@[k])@ == shared_rank(
                    rows@[k],
                    key,
                    text::ascii_folding(),
                ),
        decreases rows.len() - i,
    {
        let row = &rows[i];
        let name = row.item.name.to_lowercase();
        let rank = match key {
            SharedKey::Uploaded => Rank {
                first: Measure::Number(row.uploaded.nanos()),
                second: name,
            },
            SharedKey::Size => Rank { first: Measure::Number(row.size() as i128), second: name },
            SharedKey::Owner => Rank {
                first: Measure::Text(row.owner_name.to_lowercase()),
                second: name,
            },
            SharedKey::Name => Rank {
                first: Measure::Text(name),
                second: row.item.target_id.clone(),
            },
        };
        ranks.push(rank);
        i += 1;
    }
    proof {
        assert(order::models(ranks@) =~= shared_ranks(rows@, key, text::folding()));
        if plain_rows(rows@) {
            assert(order::models(ranks@) =~= shared_ranks(rows@, key, text::ascii_folding()));
        }
    }
    order::arrange(rows, &ranks, descending)
}

/// The muted line at a shared row's right edge.
pub open spec fn details_of(lang: Lang, row: SharedRow) -> Seq<char> {
    let head = share::access_words(lang, row.item.can_download) + (if row.owner_name@.len() == 0 {
        Seq::empty()
    } else {
        " · "@ + row.owner_name@
    }) + " · "@ + i18n::phrase(lang, Key::UploadedLabel) + " "@ + clock::day_name(row.uploaded@);
    if row.item.kind == ShareKind::File {
        head + " · "@ + sizes::size_text(size_of_row(row), sizes::binary_units()) + " · "@
            + text::numeral(downloads_of_row(row), 10) + " "@ + i18n::phrase(
            lang,
            Key::DownloadsLabel,
        )
    } else {
        head
    }
}

/// The muted line at each shared row's right edge: what the grant opens, who
/// opened it, when the target went up, and the size and download count for
/// files.
pub fn shared_details(lang: Lang, row: &SharedRow) -> (r: String)
    ensures
        r@ == details_of(lang, *row),
{
    let owner = if row.owner_name.as_str().unicode_len() == 0 {
        String::new()
    } else {
        text::glue(" · ", &row.owner_name)
    };
    let mut out = text::glue(share::access_chip(lang, row.item.can_download), &owner);
    out.append(" · ");
    out.append(t(lang, Key::UploadedLabel));
    out.append(" ");
    out.append(&row.uploaded.day());
    if row.item.kind == ShareKind::File {
        out.append(" · ");
        out.append(&sizes::human_bytes(row.size()));
        out.append(" · ");
        out.append(&text::decimal(row.downloads()));
        out.append(" ");
        out.append(t(lang, Key::DownloadsLabel));
    }
    out
}

/// One line of the page.
#[derive(Debug)]
pub struct SharedLine {
    pub name: String,
    pub href: String,
    pub chip: Chip,
    pub details: String,
}

/// Whether a line shows a row.
pub open spec fn line_of(line: SharedLine, row: SharedRow, lang: Lang) -> bool {
    &&& line.name@ == row.item.name@
    &&& line.href@ == (match row.item.kind {
        ShareKind::Folder => "/drive?folder="@,
        ShareKind::File => "/view/"@,
    }) + row.item.target_id@
    &&& line.chip@ == match row.item.kind {
        ShareKind::Folder => share::folder_glyph(),
        ShareKind::File => match row.file {
            Some(file) => media::live_chip_of(file),
            None => media::ChipModel::Glyph("generic"@, "▦"@),
        },
    }
    &&& line.details@ == details_of(lang, row)
}

fn shared_line(row: &SharedRow, lang: Lang) -> (r: SharedLine)
    ensures
        line_of(r, *row, lang),
{
    match row.item.kind {
        ShareKind::Folder => SharedLine {
            name: row.item.name.clone(),
            href: text::glue("/drive?folder=", &row.item.target_id),
            chip: Chip::Glyph { class: "folder", glyph: "▤" },
            details: shared_details(lang, row),
        },
        ShareKind::File => SharedLine {
            name: row.item.name.clone(),
            href: text::glue("/view/", &row.item.target_id),
            chip: match &row.file {
                Some(file) => media::shared_chip(file),
                None => Chip::Glyph { class: "generic", glyph: "▦" },
            },
            details: shared_details(lang, row),
        },
    }
}

/// What the query asks the list for.
#[derive(Debug)]
pub struct SharedAsk {
    pub key: SharedKey,
    pub descending: bool,
    pub kind: KindFilter,
    pub asked: Option<String>,
}

/// Whether an ask is what the query values ask for, see [`shared_ask`].
pub open spec fn asks_shared(
    ask: SharedAsk,
    sort: Option<Seq<char>>,
    kind: Option<Seq<char>>,
    q: Option<Seq<char>>,
) -> bool {
    &&& (ask.key, ask.descending) == shared_sort_named(sort)
    &&& ask.kind == drive::filter_named(kind)
    &&& text::opt_text(ask.asked) == search::asked_in(q)
}

/// What the query asks the list for.
pub fn shared_ask(sort: Option<&str>, kind: Option<&str>, q: Option<&str>) -> (r: SharedAsk)
    ensures
        asks_shared(r, text::opt_str(sort), text::opt_str(kind), text::opt_str(q)),
{
    let (key, descending) = valid_shared_sort(sort);
    SharedAsk { key, descending, kind: valid_shared_kind(kind), asked: search::searched(q) }
}

/// Everything the shared-with-me page shows.
#[derive(Debug)]
pub struct SharedPage {
    /// The value the sort dropdown shows as selected.
    pub sort_value: String,
    /// What stands in the search box.
    pub box_text: String,
    pub lines: Vec<SharedLine>,
    /// What an empty list says.
    pub note: Option<&'static str>,
}

/// A sort with its direction, as the dropdown names it.
pub open spec fn directed(word: Seq<char>, descending: bool) -> Seq<char> {
    word + ":"@ + if descending {
        "desc"@
    } else {
        "asc"@
    }
}

/// A sort with its direction, as the dropdown names it.
pub fn directed_text(word: &str, descending: bool) -> (r: String)
    ensures
        r@ == directed(word@, descending),
{
    let mut out = text::glue(word, ":");
    out.append(if descending {
        "desc"
    } else {
        "asc"
    });
    out
}

/// Whether the lines are the rows in the order the query asks for, cases being
/// folded by `lower`.
pub open spec fn lines_show(
    lines: Seq<SharedLine>,
    rows: Seq<SharedRow>,
    ask: SharedAsk,
    lang: Lang,
    lower: spec_fn(Seq<char>) -> Seq<char>,
) -> bool {
    exists|shown: Seq<SharedRow>| #[trigger]
        order::is_arranged(rows, shared_ranks(rows, ask.key, lower), ask.descending, shown)
            && lines.len() == shown.len() && (forall|i: int|
            0 <= i < shown.len() ==> line_of(#[trigger] lines[i], shown[i], lang))
}

/// Whether a page is the shared-with-me page, see [`shared_page`].
pub open spec fn shared_is(
    page: SharedPage,
    lang: Lang,
    ask: SharedAsk,
    rows: Seq<SharedRow>,
) -> bool {
    &&& page.sort_value@ == directed(shared_word(ask.key), ask.descending)
    &&& page.box_text@ == match ask.asked {
        Some(asked) => asked@,
        None => Seq::empty(),
    }
    &&& text::opt_str(page.note) == if rows.len() > 0 {
        None
    } else if ask.asked is None && ask.kind == KindFilter::All {
        Some(i18n::phrase(lang, Key::NoSharedItems))
    } else {
        Some(i18n::phrase(lang, Key::NoResults))
    }
    &&& lines_show(page.lines@, rows, ask, lang, text::folding())
    &&& plain_rows(rows) ==> lines_show(page.lines@, rows, ask, lang, text::ascii_folding())
}

/// The shared-with-me page. An unfiltered list that is empty says that nothing
/// was shared; a filtered one that nothing was found.
pub fn shared_page(lang: Lang, ask: &SharedAsk, rows: Vec<SharedRow>) -> (r: SharedPage)
    ensures
        shared_is(
            r,
            lang,
            *ask,
            rows@,
        ),
{
    let note = if rows.len() > 0 {
        None
    } else if ask.asked.is_none() && ask.kind == KindFilter::All {
        Some(t(lang, Key::NoSharedItems))
    } else {
        Some(t(lang, Key::NoResults))
    };
    let shown = sort_shared(rows, ask.key, ask.descending);
    let mut lines: Vec<SharedLine> = Vec::new();
    let mut i: usize = 0;
    while i < shown.len()
        invariant
            i <= shown.len(),
            lines.len() == i,
            forall|k: int| 0 <= k < i ==> line_of(#[trigger] lines@[k], shown@[k], lang),
        decreases shown.len() - i,
    {
        lines.push(shared_line(&shown[i], lang));
        i += 1;
    }
    SharedPage {
        sort_value: directed_text(ask.key.as_str(), ask.descending),
        box_text: match &ask.asked {
            Some(asked) => asked.clone(),
            None => String::new(),
        },
        lines,
        note,
    }
}

} // verus!
