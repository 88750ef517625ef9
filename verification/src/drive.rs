//! The drive browser.
//!
//! One directory: breadcrumbs back to the root, subfolders then files, and the
//! four owner-only folder mutations beside it. Trashed items never appear here.
//! A folder whose ancestor is trashed is unreachable, and a move that would
//! nest a folder inside itself is refused. Anything naming another owner's tree
//! is not found, never forbidden.
use crate::address;
use crate::address::{back_to, refusal_of};
use crate::guard;
use crate::guard::{Demand, Need, Plan};
use crate::i18n;
use crate::i18n::{t, Key, Lang};
use crate::media;
use crate::media::Chip;
use crate::model;
use crate::model::{File, Folder, Listing, ShareKind, StoreError};
use crate::order;
use crate::order::{Measure, Rank};
use crate::query;
use crate::refusal;
use crate::refusal::Refusal;
use crate::search;
use crate::search::Hit;
use crate::sizes;
use crate::text;
use crate::walk::Crumb;
use vstd::prelude::*;

verus! {

/// A [`StoreError`] in the drive's own words.
pub open spec fn drive_words(error: StoreError) -> Refusal {
    match error {
        StoreError::QuotaExceeded => Refusal::QuotaExceeded,
        StoreError::NotFound => Refusal::NotFound,
        StoreError::CrossOwner => Refusal::NotFound,
        StoreError::Cycle => Refusal::Forbidden,
        _ => Refusal::Unavailable,
    }
}

/// A [`StoreError`] in the drive's own words. Cross-owner reads and writes
/// alike answer [`Refusal::NotFound`]: telling a stranger which ids exist is
/// the leak the distinction exists to prevent.
pub fn store_refusal(error: StoreError) -> (r: Refusal)
    ensures
        r == drive_words(error),
{
    match error {
        StoreError::QuotaExceeded => Refusal::QuotaExceeded,
        StoreError::NotFound => Refusal::NotFound,
        StoreError::CrossOwner => Refusal::NotFound,
        // A move nesting a folder inside its own descendant.
        StoreError::Cycle => Refusal::Forbidden,
        _ => Refusal::Unavailable,
    }
}

// ---- The listing controls --------------------------------------------------
/// The drive listing's sort key.
#[derive(Clone, Copy, Debug, PartialEq, Eq, Structural)]
pub enum SortKey {
    Name,
    Uploaded,
    Size,
    Downloads,
}

/// The sort direction.
#[derive(Clone, Copy, Debug, PartialEq, Eq, Structural)]
pub enum SortDir {
    Asc,
    Desc,
}

/// The kind filter: everything, folders only, files only.
#[derive(Clone, Copy, Debug, PartialEq, Eq, Structural)]
pub enum KindFilter {
    All,
    Folders,
    Files,
}

pub open spec fn key_word(key: SortKey) -> Seq<char> {
    match key {
        SortKey::Name => "name"@,
        SortKey::Uploaded => "uploaded"@,
        SortKey::Size => "size"@,
        SortKey::Downloads => "downloads"@,
    }
}

pub open spec fn dir_word(dir: SortDir) -> Seq<char> {
    match dir {
        SortDir::Asc => "asc"@,
        SortDir::Desc => "desc"@,
    }
}

pub open spec fn filter_word(kind: KindFilter) -> Seq<char> {
    match kind {
        KindFilter::All => "all"@,
        KindFilter::Folders => "folders"@,
        KindFilter::Files => "files"@,
    }
}

/// What stands before the first colon, and what stands behind it.
pub open spec fn key_and_dir(raw: Option<Seq<char>>) -> (Seq<char>, Seq<char>) {
    match raw {
        Some(raw) => match text::cut_at(raw, ':') {
            Some((key, dir)) => (key, dir),
            None => (raw, Seq::empty()),
        },
        None => (Seq::empty(), Seq::empty()),
    }
}

/// The key a word names.
pub open spec fn key_named(word: Seq<char>) -> Option<SortKey> {
    if word == "name"@ {
        Some(SortKey::Name)
    } else if word == "uploaded"@ {
        Some(SortKey::Uploaded)
    } else if word == "size"@ {
        Some(SortKey::Size)
    } else if word == "downloads"@ {
        Some(SortKey::Downloads)
    } else {
        None
    }
}

/// The direction a word names, else the key's natural one: names ascend,
/// measures descend.
pub open spec fn dir_named(word: Seq<char>, key: SortKey) -> SortDir {
    if word == "asc"@ {
        SortDir::Asc
    } else if word == "desc"@ {
        SortDir::Desc
    } else if key == SortKey::Name {
        SortDir::Asc
    } else {
        SortDir::Desc
    }
}

/// The sort a query value names.
pub open spec fn sort_named(raw: Option<Seq<char>>) -> Option<(SortKey, SortDir)> {
    let (key, dir) = key_and_dir(raw);
    match key_named(key) {
        Some(key) => Some((key, dir_named(dir, key))),
        None => None,
    }
}

/// A sort as its query value.
pub open spec fn sort_word(key: SortKey, dir: SortDir) -> Seq<char> {
    key_word(key) + seq![':'] + dir_word(dir)
}

/// The filter a query value names; anything unknown filters nothing.
pub open spec fn filter_named(raw: Option<Seq<char>>) -> KindFilter {
    match raw {
        Some(raw) => if raw == "folders"@ {
            KindFilter::Folders
        } else if raw == "files"@ {
            KindFilter::Files
        } else {
            KindFilter::All
        },
        None => KindFilter::All,
    }
}

impl SortKey {
    pub fn as_str(self) -> (r: &'static str)
        ensures
            r@ == key_word(self),
    {
        match self {
            SortKey::Name => "name",
            SortKey::Uploaded => "uploaded",
            SortKey::Size => "size",
            SortKey::Downloads => "downloads",
        }
    }
}

impl SortDir {
    pub fn as_str(self) -> (r: &'static str)
        ensures
            r@ == dir_word(self),
    {
        match self {
            SortDir::Asc => "asc",
            SortDir::Desc => "desc",
        }
    }
}

impl KindFilter {
    pub fn as_str(self) -> (r: &'static str)
        ensures
            r@ == filter_word(self),
    {
        match self {
            KindFilter::All => "all",
            KindFilter::Folders => "folders",
            KindFilter::Files => "files",
        }
    }
}

/// The two halves of a `key:direction` value.
pub fn split_sort(raw: Option<&str>) -> (r: (String, String))
    ensures
        (r.0@, r.1@) == key_and_dir(text::opt_str(raw)),
{
    match raw {
        Some(raw) => match text::split_once(raw, ':') {
            Some((key, dir)) => (key, dir),
            None => (raw.to_owned(), String::new()),
        },
        None => (String::new(), String::new()),
    }
}

/// The sort off the query: `key:direction` in one value. A bare key reads with
/// its natural direction; anything else is no sort, never a refusal.
pub fn parse_sort(raw: Option<&str>) -> (r: Option<(SortKey, SortDir)>)
    ensures
        r == sort_named(text::opt_str(raw)),
{
    let (key, dir) = split_sort(raw);
    let key = if text::same(&key, "name") {
        SortKey::Name
    } else if text::same(&key, "uploaded") {
        SortKey::Uploaded
    } else if text::same(&key, "size") {
        SortKey::Size
    } else if text::same(&key, "downloads") {
        SortKey::Downloads
    } else {
        return None;
    };
    let dir = if text::same(&dir, "asc") {
        SortDir::Asc
    } else if text::same(&dir, "desc") {
        SortDir::Desc
    } else if key == SortKey::Name {
        SortDir::Asc
    } else {
        SortDir::Desc
    };
    Some((key, dir))
}

/// The kind filter off the query.
pub fn parse_kind(raw: Option<&str>) -> (r: KindFilter)
    ensures
        r == filter_named(text::opt_str(raw)),
{
    match raw {
        Some(raw) => if text::same(raw, "folders") {
            KindFilter::Folders
        } else if text::same(raw, "files") {
            KindFilter::Files
        } else {
            KindFilter::All
        },
        None => KindFilter::All,
    }
}

/// A sort written out is read back as it was.
pub proof fn law_sort_round_trip(key: SortKey, dir: SortDir)
    ensures
        sort_named(Some(sort_word(key, dir))) == Some((key, dir)),
{
    reveal_strlit("name");
    reveal_strlit("uploaded");
    reveal_strlit("size");
    reveal_strlit("downloads");
    reveal_strlit("asc");
    reveal_strlit("desc");
    assert("name"@ =~= seq!['n', 'a', 'm', 'e']);
    assert("uploaded"@ =~= seq!['u', 'p', 'l', 'o', 'a', 'd', 'e', 'd']);
    assert("size"@ =~= seq!['s', 'i', 'z', 'e']);
    assert("downloads"@ =~= seq!['d', 'o', 'w', 'n', 'l', 'o', 'a', 'd', 's']);
    assert(text::free_of(key_word(key), ':'));
    text::lemma_split_front(key_word(key), ':', dir_word(dir));
    assert("name"@[0] != "size"@[0]);
    assert("asc"@.len() != "desc"@.len());
}

/// A filter written out is read back as it was.
pub proof fn law_filter_round_trip(kind: KindFilter)
    ensures
        filter_named(Some(filter_word(kind))) == kind,
{
    reveal_strlit("all");
    reveal_strlit("folders");
    reveal_strlit("files");
    assert("all"@.len() != "folders"@.len());
    assert("folders"@.len() != "files"@.len());
    assert("all"@.len() != "files"@.len());
}

// ---- The order of a listing ------------------------------------------------
/// A folder's place. Folders carry no size or download count, so those keys
/// fall back to the name order. Cases are folded by `lower`.
pub open spec fn folder_rank(
    folder: Folder,
    key: SortKey,
    lower: spec_fn(Seq<char>) -> Seq<char>,
) -> order::RankModel {
    order::RankModel {
        first: match key {
            SortKey::Uploaded => order::MeasureModel::Number(folder.created_at@),
            _ => order::MeasureModel::Text(lower(folder.name@)),
        },
        second: folder.id@,
    }
}

/// A file's place, cases being folded by `lower`.
pub open spec fn file_rank(
    file: File,
    key: SortKey,
    lower: spec_fn(Seq<char>) -> Seq<char>,
) -> order::RankModel {
    order::RankModel {
        first: match key {
            SortKey::Name => order::MeasureModel::Text(lower(file.name@)),
            SortKey::Uploaded => order::MeasureModel::Number(file.created_at@),
            SortKey::Size => order::MeasureModel::Number(file.size_bytes as int),
            SortKey::Downloads => order::MeasureModel::Number(file.download_count as int),
        },
        second: file.id@,
    }
}

pub open spec fn folder_ranks(
    folders: Seq<Folder>,
    key: SortKey,
    lower: spec_fn(Seq<char>) -> Seq<char>,
) -> Seq<order::RankModel> {
    folders.map_values(|f: Folder| folder_rank(f, key, lower))
}

pub open spec fn file_ranks(
    files: Seq<File>,
    key: SortKey,
    lower: spec_fn(Seq<char>) -> Seq<char>,
) -> Seq<order::RankModel> {
    files.map_values(|f: File| file_rank(f, key, lower))
}

/// Order one folder group.
pub fn sort_folders(folders: Vec<Folder>, key: SortKey, dir: SortDir) -> (r: Vec<Folder>)
    ensures
        order::is_arranged(
            folders@,
            folder_ranks(folders@, key, text::folding()),
            dir == SortDir::Desc,
            r@,
        ),
        model::plain_folders(folders@) ==> order::is_arranged(
            folders@,
            folder_ranks(folders@, key, text::ascii_folding()),
            dir == SortDir::Desc,
            r@,
        ),
{
    let mut ranks: Vec<Rank> = Vec::new();
    let mut i: usize = 0;
    while i < folders.len()
        invariant
            i <= folders.len(),
            ranks.len() == i,
            forall|k: int|
                0 <= k < i ==> (#[trigger] ranks@[k])@ == folder_rank(
                    folders@[k],
                    key,
                    text::folding(),
                ),
            forall|k: int|
                0 <= k < i && text::all_ascii(folders@[k].name@) ==> (#[trigger] ranks@[k])@
                    == folder_rank(folders@[k], key, text::ascii_folding()),
        decreases folders.len() - i,
    {
        let folder = &folders[i];
        let first = match key {
            SortKey::Uploaded => Measure::Number(folder.created_at.nanos()),
            _ => Measure::Text(folder.name.to_lowercase()),
        };
        ranks.push(Rank { first, second: folder.id.clone() });
        i += 1;
    }
    proof {
        assert(order::models(ranks@) =~= folder_ranks(folders@, key, text::folding()));
        if model::plain_folders(folders@) {
            assert(order::models(ranks@) =~= folder_ranks(folders@, key, text::ascii_folding()));
        }
    }
    order::arrange(folders, &ranks, dir == SortDir::Desc)
}

/// Order one file group.
pub fn sort_files(files: Vec<File>, key: SortKey, dir: SortDir) -> (r: Vec<File>)
    ensures
        order::is_arranged(
            files@,
            file_ranks(files@, key, text::folding()),
            dir == SortDir::Desc,
            r@,
        ),
        model::plain_files(files@) ==> order::is_arranged(
            files@,
            file_ranks(files@, key, text::ascii_folding()),
            dir == SortDir::Desc,
            r@,
        ),
{
    let mut ranks: Vec<Rank> = Vec::new();
    let mut i: usize = 0;
    while i < files.len()
        invariant
            i <= files.len(),
            ranks.len() == i,
            forall|k: int|
                0 <= k < i ==> (#[trigger] ranks@[k])@ == file_rank(files@[k], key, text::folding()),
            forall|k: int|
                0 <= k < i && text::all_ascii(files@[k].name@) ==> (#[trigger] ranks@[k])@
                    == file_rank(files@[k], key, text::ascii_folding()),
        decreases files.len() - i,
    {
        let file = &files[i];
        let first = match key {
            SortKey::Name => Measure::Text(file.name.to_lowercase()),
            SortKey::Uploaded => Measure::Number(file.created_at.nanos()),
            SortKey::Size => Measure::Number(file.size_bytes as i128),
            SortKey::Downloads => Measure::Number(file.download_count as i128),
        };
        ranks.push(Rank { first, second: file.id.clone() });
        i += 1;
    }
    proof {
        assert(order::models(ranks@) =~= file_ranks(files@, key, text::folding()));
        if model::plain_files(files@) {
            assert(order::models(ranks@) =~= file_ranks(files@, key, text::ascii_folding()));
        }
    }
    order::arrange(files, &ranks, dir == SortDir::Desc)
}

/// Whether `shown` is what the controls make of `listing`: each group in its
/// order, or as it came where no sort is set, and without the group the filter
/// leaves out. Cases are folded by `lower`.
pub open spec fn is_shown(
    listing: Listing,
    sorting: Option<(SortKey, SortDir)>,
    kind: KindFilter,
    shown: Listing,
    lower: spec_fn(Seq<char>) -> Seq<char>,
) -> bool {
    &&& if kind == KindFilter::Files {
        shown.folders@.len() == 0
    } else {
        match sorting {
            Some((key, dir)) => order::is_arranged(
                listing.folders@,
                folder_ranks(listing.folders@, key, lower),
                dir == SortDir::Desc,
                shown.folders@,
            ),
            None => shown.folders@ == listing.folders@,
        }
    }
    &&& if kind == KindFilter::Folders {
        shown.files@.len() == 0
    } else {
        match sorting {
            Some((key, dir)) => order::is_arranged(
                listing.files@,
                file_ranks(listing.files@, key, lower),
                dir == SortDir::Desc,
                shown.files@,
            ),
            None => shown.files@ == listing.files@,
        }
    }
}

/// The listing as the controls show it.
pub fn show_listing(listing: Listing, sorting: Option<(SortKey, SortDir)>, kind: KindFilter) -> (r:
    Listing)
    ensures
        is_shown(listing, sorting, kind, r, text::folding()),
        model::plain_listing(listing) ==> is_shown(
            listing,
            sorting,
            kind,
            r,
            text::ascii_folding(),
        ),
{
    let Listing { folders, files } = listing;
    let folders = if kind == KindFilter::Files {
        Vec::new()
    } else {
        match sorting {
            Some((key, dir)) => sort_folders(folders, key, dir),
            None => folders,
        }
    };
    let files = if kind == KindFilter::Folders {
        Vec::new()
    } else {
        match sorting {
            Some((key, dir)) => sort_files(files, key, dir),
            None => files,
        }
    };
    Listing { folders, files }
}

// ---- The page ---------------------------------------------------------------
/// The query of the drive's address, pair by pair.
#[derive(Debug)]
pub struct DriveQuery {
    pub folder: Option<String>,
    pub q: Option<String>,
    pub edit: Option<String>,
    pub sort: Option<String>,
    pub share: Option<String>,
    pub kind: Option<String>,
    pub moving: Option<String>,
}

/// What the query asks the drive for.
#[derive(Debug)]
pub struct DriveAsk {
    /// The folder to open.
    pub folder: Option<String>,
    /// The text of the search box.
    pub asked: Option<String>,
    pub sorting: Option<(SortKey, SortDir)>,
    pub kind: KindFilter,
    /// The row to show as its rename form.
    pub edit: Option<String>,
    /// Whether a share pair stands on the query at all.
    pub share_named: bool,
    /// The entry to open the share dialog for, as kind and id.
    pub share: Option<(String, String)>,
    /// The entry to open the move picker for, as kind and id.
    pub moving: Option<(String, String)>,
}

/// The kind and the id of a `kind:id` pair.
pub open spec fn pair_named(raw: Option<Seq<char>>) -> Option<(Seq<char>, Seq<char>)> {
    match raw {
        Some(raw) => text::cut_at(raw, ':'),
        None => None,
    }
}

/// The texts of an optional pair.
pub open spec fn opt_pair(pair: Option<(String, String)>) -> Option<(Seq<char>, Seq<char>)> {
    match pair {
        Some((a, b)) => Some((a@, b@)),
        None => None,
    }
}

fn read_pair(raw: Option<&str>) -> (r: Option<(String, String)>)
    ensures
        opt_pair(r) == pair_named(text::opt_str(raw)),
{
    match raw {
        Some(raw) => text::split_once(raw, ':'),
        None => None,
    }
}

/// The move picker of one entry: the destination it leaves out, where it posts,
/// the field a choice goes in and its title.
pub struct MovePicker {
    /// The folder that cannot be moved into itself.
    pub barred: Option<String>,
    pub action: &'static str,
    pub field: &'static str,
    pub title: Key,
}

/// Whether a picker is the one a pair opens, see [`move_picker`].
pub open spec fn picks_for(
    picker: Option<MovePicker>,
    kind: Seq<char>,
    id: Seq<char>,
) -> bool {
    &&& match picker {
        Some(picker) => if kind == "folder"@ {
            &&& text::opt_text(picker.barred) == Some(id)
            &&& picker.action@ == "/api/folder/move"@
            &&& picker.field@ == "parent_id"@
            &&& picker.title == Key::MoveFolder
        } else {
            &&& kind == "file"@
            &&& picker.barred is None
            &&& picker.action@ == "/api/file/move"@
            &&& picker.field@ == "folder_id"@
            &&& picker.title == Key::MoveFile
        },
        None => kind != "folder"@ && kind != "file"@,
    }
}

/// The move picker a pair opens: a folder's leaves the folder itself out, a
/// file's leaves nothing out, and anything else opens none.
pub fn move_picker(kind: &str, id: &str) -> (r: Option<MovePicker>)
    ensures
        picks_for(
            r,
            kind@,
            id@,
        ),
{
    if text::same(kind, "folder") {
        Some(
            MovePicker {
                barred: Some(id.to_string()),
                action: "/api/folder/move",
                field: "parent_id",
                title: Key::MoveFolder,
            },
        )
    } else if text::same(kind, "file") {
        Some(
            MovePicker {
                barred: None,
                action: "/api/file/move",
                field: "folder_id",
                title: Key::MoveFile,
            },
        )
    } else {
        None
    }
}

/// An optional string as a slice.
pub fn opt_slice(v: &Option<String>) -> (r: Option<&str>)
    ensures
        text::opt_str(r) == text::opt_text(*v),
{
    match v {
        Some(v) => Some(v.as_str()),
        None => None,
    }
}

/// Whether an ask is what a query asks for, see [`drive_ask`].
pub open spec fn asks_for(
    ask: DriveAsk,
    params: DriveQuery,
) -> bool {
    &&& text::opt_text(ask.folder) == text::opt_text(params.folder)
    &&& text::opt_text(ask.asked) == search::asked_in(text::opt_text(params.q))
    &&& ask.sorting == sort_named(text::opt_text(params.sort))
    &&& ask.kind == filter_named(text::opt_text(params.kind))
    &&& text::opt_text(ask.edit) == text::opt_text(params.edit)
    &&& ask.share_named == (params.share is Some)
    &&& opt_pair(ask.share) == pair_named(text::opt_text(params.share))
    &&& opt_pair(ask.moving) == pair_named(text::opt_text(params.moving))
}

/// What the query asks for. Unknown values fall back to the standing order,
/// the unfiltered kind and the plain folder view: a hand-edited query re-orders
/// nothing, it never refuses.
pub fn drive_ask(params: &DriveQuery) -> (r: DriveAsk)
    ensures
        asks_for(
            r,
            *params,
        ),
{
    DriveAsk {
        folder: text::copy_option(&params.folder),
        asked: search::searched(opt_slice(&params.q)),
        sorting: parse_sort(opt_slice(&params.sort)),
        kind: parse_kind(opt_slice(&params.kind)),
        edit: text::copy_option(&params.edit),
        share_named: params.share.is_some(),
        share: read_pair(opt_slice(&params.share)),
        moving: read_pair(opt_slice(&params.moving)),
    }
}

/// The pairs of the folder view: which folder, which order, which filter.
pub open spec fn here_pairs(
    current_id: Seq<char>,
    sorting: Option<(SortKey, SortDir)>,
    kind: KindFilter,
) -> Seq<Seq<char>> {
    let folder = if current_id.len() > 0 {
        seq!["folder="@ + current_id]
    } else {
        Seq::empty()
    };
    let sort = match sorting {
        Some((key, dir)) => seq!["sort="@ + sort_word(key, dir)],
        None => Seq::empty(),
    };
    let filter = if kind != KindFilter::All {
        seq!["kind="@ + filter_word(kind)]
    } else {
        Seq::empty()
    };
    folder + sort + filter
}

/// The folder view's own address, with the listing controls and nothing else.
pub open spec fn here_of(
    current_id: Seq<char>,
    sorting: Option<(SortKey, SortDir)>,
    kind: KindFilter,
) -> Seq<char> {
    let pairs = here_pairs(current_id, sorting, kind);
    if pairs.len() == 0 {
        "/drive"@
    } else {
        "/drive?"@ + text::joined(pairs, "&"@)
    }
}

/// An address with one more pair.
pub open spec fn extended(here: Seq<char>, pair: Seq<char>) -> Seq<char> {
    here + seq![address::joint(here)] + pair
}

/// The folder view without `?edit=`: the rename form's cancel target and the
/// base the edit links extend. The listing controls ride along so a rename
/// round-trip keeps the order and filter the reader chose.
pub fn here_address(
    current_id: &str,
    sorting: Option<(SortKey, SortDir)>,
    kind: KindFilter,
) -> (r: String)
    ensures
        r@ == here_of(current_id@, sorting, kind),
{
    let mut bits: Vec<String> = Vec::new();
    if current_id.unicode_len() > 0 {
        bits.push(text::glue("folder=", current_id));
    }
    if let Some((key, dir)) = sorting {
        let value = sort_text(key, dir);
        bits.push(text::glue("sort=", &value));
    }
    if kind != KindFilter::All {
        bits.push(text::glue("kind=", kind.as_str()));
    }
    proof {
        assert(text::texts(bits@) =~= here_pairs(current_id@, sorting, kind));
        assert(text::texts(bits@).len() == bits@.len());
    }
    if bits.len() == 0 {
        "/drive".to_owned()
    } else {
        text::glue("/drive?", &text::join(&bits, "&"))
    }
}

/// A sort as its query value.
pub fn sort_text(key: SortKey, dir: SortDir) -> (r: String)
    ensures
        r@ == sort_word(key, dir),
{
    let mut out = key.as_str().to_owned();
    out.push(':');
    assert(out@ =~= key_word(key) + seq![':']);
    out.append(dir.as_str());
    out
}

/// An address with one more pair.
pub fn extend(here: &str, name: &str, value: &str) -> (r: String)
    ensures
        r@ == extended(here@, name@ + value@),
{
    let mut out = here.to_owned();
    out.push(if text::has_char(here, '?') {
        '&'
    } else {
        '?'
    });
    assert(out@ =~= here@ + seq![address::joint(here@)]);
    out.append(&text::glue(name, value));
    out
}

/// One row of the folder view.
#[derive(Debug)]
pub struct EntryRow {
    pub kind: ShareKind,
    pub id: String,
    pub name: String,
    /// Where the name leads.
    pub href: String,
    /// Whether the row shows as its rename form.
    pub editing: bool,
    /// The icon; folders have none.
    pub chip: Option<Chip>,
    /// The size in words; folders have none.
    pub size: Option<String>,
    /// The day it went up.
    pub uploaded: String,
    /// How often it was downloaded; folders are not.
    pub downloads: Option<u64>,
    pub edit_href: String,
    pub share_href: String,
    pub move_href: String,
}

/// What every row says, whatever it stands for.
pub open spec fn row_common(
    row: EntryRow,
    kind: ShareKind,
    id: Seq<char>,
    name: Seq<char>,
    here: Seq<char>,
    edit: Option<Seq<char>>,
) -> bool {
    &&& row.kind == kind
    &&& row.id@ == id
    &&& row.name@ == name
    &&& row.editing == (edit == Some(id))
    &&& row.edit_href@ == extended(here, "edit="@ + id)
    &&& row.share_href@ == extended(
        here,
        (match kind {
            ShareKind::File => "share=file:"@,
            ShareKind::Folder => "share=folder:"@,
        }) + id,
    )
    &&& row.move_href@ == extended(
        here,
        (match kind {
            ShareKind::File => "move=file:"@,
            ShareKind::Folder => "move=folder:"@,
        }) + id,
    )
}

/// Whether a row shows a folder.
pub open spec fn folder_entry(
    row: EntryRow,
    folder: Folder,
    here: Seq<char>,
    edit: Option<Seq<char>>,
) -> bool {
    &&& row_common(row, ShareKind::Folder, folder.id@, folder.name@, here, edit)
    &&& row.href@ == "/drive?folder="@ + folder.id@
    &&& row.chip is None
    &&& row.size is None
    &&& row.uploaded@ == crate::clock::day_name(folder.created_at@)
    &&& row.downloads is None
}

/// Whether a row shows a file.
pub open spec fn file_entry(
    row: EntryRow,
    file: File,
    here: Seq<char>,
    edit: Option<Seq<char>>,
) -> bool {
    &&& row_common(row, ShareKind::File, file.id@, file.name@, here, edit)
    &&& row.href@ == "/view/"@ + file.id@
    &&& row.chip matches Some(chip) && chip@ == media::entry_chip_of(file)
    &&& row.size matches Some(size) && size@ == sizes::size_text(
        file.size_bytes as nat,
        sizes::listing_units(),
    )
    &&& row.uploaded@ == crate::clock::day_name(file.created_at@)
    &&& row.downloads == Some(file.download_count)
}

fn is_edited(edit: &Option<String>, id: &str) -> (r: bool)
    ensures
        r == (text::opt_text(*edit) == Some(id@)),
{
    match edit {
        Some(edit) => text::same(edit, id),
        None => false,
    }
}

fn folder_entry_row(folder: &Folder, here: &str, edit: &Option<String>) -> (r: EntryRow)
    ensures
        folder_entry(r, *folder, here@, text::opt_text(*edit)),
{
    EntryRow {
        kind: ShareKind::Folder,
        id: folder.id.clone(),
        name: folder.name.clone(),
        href: text::glue("/drive?folder=", &folder.id),
        editing: is_edited(edit, &folder.id),
        chip: None,
        size: None,
        uploaded: folder.created_at.day(),
        downloads: None,
        edit_href: extend(here, "edit=", &folder.id),
        share_href: extend(here, "share=folder:", &folder.id),
        move_href: extend(here, "move=folder:", &folder.id),
    }
}

fn file_entry_row(file: &File, here: &str, edit: &Option<String>) -> (r: EntryRow)
    ensures
        file_entry(r, *file, here@, text::opt_text(*edit)),
{
    EntryRow {
        kind: ShareKind::File,
        id: file.id.clone(),
        name: file.name.clone(),
        href: text::glue("/view/", &file.id),
        editing: is_edited(edit, &file.id),
        chip: Some(media::entry_chip(file)),
        size: Some(sizes::human_size(file.size_bytes)),
        uploaded: file.created_at.day(),
        downloads: Some(file.download_count),
        edit_href: extend(here, "edit=", &file.id),
        share_href: extend(here, "share=file:", &file.id),
        move_href: extend(here, "move=file:", &file.id),
    }
}

/// Whether the rows show a listing: its folders first, then its files, each in
/// the listing's order.
pub open spec fn rows_show(
    rows: Seq<EntryRow>,
    listing: Listing,
    here: Seq<char>,
    edit: Option<Seq<char>>,
) -> bool {
    let folders = listing.folders@.len() as int;
    &&& rows.len() == folders + listing.files@.len()
    &&& forall|i: int|
        0 <= i < folders ==> folder_entry(#[trigger] rows[i], listing.folders@[i], here, edit)
    &&& forall|i: int|
        folders <= i < rows.len() ==> file_entry(
            #[trigger] rows[i],
            listing.files@[i - folders],
            here,
            edit,
        )
}

/// The rows of a listing: folders, then files.
pub fn entry_rows(listing: &Listing, here: &str, edit: &Option<String>) -> (r: Vec<EntryRow>)
    ensures
        rows_show(r@, *listing, here@, text::opt_text(*edit)),
{
    let mut rows: Vec<EntryRow> = Vec::new();
    let mut i: usize = 0;
    while i < listing.folders.len()
        invariant
            i <= listing.folders.len(),
            rows.len() == i,
            forall|k: int|
                0 <= k < i ==> folder_entry(
                    #[trigger] rows@[k],
                    listing.folders@[k],
                    here@,
                    text::opt_text(*edit),
                ),
        decreases listing.folders.len() - i,
    {
        rows.push(folder_entry_row(&listing.folders[i], here, edit));
        i += 1;
    }
    let mut j: usize = 0;
    while j < listing.files.len()
        invariant
            j <= listing.files.len(),
            rows.len() == listing.folders.len() + j,
            forall|k: int|
                0 <= k < listing.folders.len() ==> folder_entry(
                    #[trigger] rows@[k],
                    listing.folders@[k],
                    here@,
                    text::opt_text(*edit),
                ),
            forall|k: int|
                listing.folders.len() <= k < rows.len() ==> file_entry(
                    #[trigger] rows@[k],
                    listing.files@[k - listing.folders.len()],
                    here@,
                    text::opt_text(*edit),
                ),
        decreases listing.files.len() - j,
    {
        rows.push(file_entry_row(&listing.files[j], here, edit));
        j += 1;
    }
    rows
}

/// The refusal the page shows: what one of its own calls was refused with.
pub open spec fn page_refused(query: Option<Seq<char>>) -> Option<Refusal> {
    if address::refused_on(query, "create"@) is Some {
        address::refused_on(query, "create"@)
    } else if address::refused_on(query, "rename"@) is Some {
        address::refused_on(query, "rename"@)
    } else if address::refused_on(query, "move"@) is Some {
        address::refused_on(query, "move"@)
    } else if address::refused_on(query, "delete"@) is Some {
        address::refused_on(query, "delete"@)
    } else {
        address::refused_on(query, "upload"@)
    }
}

/// The refusal the page shows, off the query.
pub fn page_refusal(query: Option<&str>) -> (r: Option<Refusal>)
    ensures
        r == page_refused(text::opt_str(query)),
{
    let found = refusal_of(query, "create");
    if found.is_some() {
        return found;
    }
    let found = refusal_of(query, "rename");
    if found.is_some() {
        return found;
    }
    let found = refusal_of(query, "move");
    if found.is_some() {
        return found;
    }
    let found = refusal_of(query, "delete");
    if found.is_some() {
        return found;
    }
    refusal_of(query, "upload")
}

/// What stands over the list.
#[derive(Debug)]
pub enum Heading {
    /// The root of the drive says nothing.
    Root,
    /// The way back from an open folder.
    Path(Vec<Crumb>),
    /// What was searched for.
    Results(String),
}

/// What the list holds.
#[derive(Debug)]
pub enum DriveBody {
    /// Nothing wears the query in its name.
    NoHits(&'static str),
    Hits(Vec<Hit>),
    /// The folder is empty.
    NoRows(&'static str),
    Rows(Vec<EntryRow>),
}

/// Everything the drive page shows.
#[derive(Debug)]
pub struct DrivePage {
    pub heading: Heading,
    /// What stands in the search box.
    pub box_text: String,
    pub current_id: String,
    pub current_name: String,
    pub here: String,
    /// The value the sort dropdown shows as selected.
    pub sort_value: String,
    /// The sort the other forms carry along.
    pub sort_carried: Option<String>,
    /// The filter the other forms carry along.
    pub kind_carried: Option<&'static str>,
    pub banner: Option<String>,
    /// The address of a link minted just now, shown once.
    pub created: Option<String>,
    pub body: DriveBody,
}

/// The id of the open folder, empty at the root.
pub open spec fn id_of(current: Option<Folder>) -> Seq<char> {
    match current {
        Some(folder) => folder.id@,
        None => Seq::empty(),
    }
}

/// Whether the body shows the hits of a search: folders, then files.
pub open spec fn body_shows_hits(body: DriveBody, hits: Listing, lang: Lang) -> bool {
    let folders = hits.folders@.len() as int;
    if folders == 0 && hits.files@.len() == 0 {
        body matches DriveBody::NoHits(words) && words@ == i18n::phrase(lang, Key::NoResults)
    } else {
        body matches DriveBody::Hits(rows) && rows@.len() == folders + hits.files@.len() && (forall|
            i: int,
        |
            0 <= i < folders ==> search::folder_hit(#[trigger] rows@[i], hits.folders@[i])) && (
        forall|i: int|
            folders <= i < rows@.len() ==> search::file_hit(
                #[trigger] rows@[i],
                hits.files@[i - folders],
                "/view/"@,
            ))
    }
}

/// Whether the body shows a listing.
pub open spec fn body_shows_listing(
    body: DriveBody,
    listing: Listing,
    here: Seq<char>,
    edit: Option<Seq<char>>,
    lang: Lang,
) -> bool {
    if listing.folders@.len() == 0 && listing.files@.len() == 0 {
        body matches DriveBody::NoRows(words) && words@ == i18n::phrase(lang, Key::EmptyFolder)
    } else {
        body matches DriveBody::Rows(rows) && rows_show(rows@, listing, here, edit)
    }
}

fn hits_body(hits: &Listing, lang: Lang) -> (r: DriveBody)
    ensures
        body_shows_hits(r, *hits, lang),
{
    if hits.folders.len() == 0 && hits.files.len() == 0 {
        return DriveBody::NoHits(t(lang, Key::NoResults));
    }
    let mut rows = search::folder_hits(&hits.folders);
    let mut files = search::file_hits(&hits.files, "/view/");
    let ghost heads = rows@;
    let ghost tails = files@;
    rows.append(&mut files);
    proof {
        assert(rows@ =~= heads + tails);
        assert forall|i: int| 0 <= i < heads.len() implies search::folder_hit(
            #[trigger] rows@[i],
            hits.folders@[i],
        ) by {
            assert(rows@[i] == heads[i]);
        }
        assert forall|i: int| heads.len() <= i < rows@.len() implies search::file_hit(
            #[trigger] rows@[i],
            hits.files@[i - heads.len()],
            "/view/"@,
        ) by {
            assert(rows@[i] == tails[i - heads.len()]);
        }
    }
    DriveBody::Hits(rows)
}

/// Whether a page's body is what the controls make of the hits, or of the open
/// folder's listing where nothing is searched for. Cases are folded by `lower`.
pub open spec fn body_follows(
    body: DriveBody,
    ask: DriveAsk,
    listing: Listing,
    hits: Option<Listing>,
    here: Seq<char>,
    lang: Lang,
    lower: spec_fn(Seq<char>) -> Seq<char>,
) -> bool {
    match hits {
        Some(hits) => exists|shown: Listing| #[trigger]
            is_shown(hits, ask.sorting, ask.kind, shown, lower) && body_shows_hits(
                body,
                shown,
                lang,
            ),
        None => exists|shown: Listing| #[trigger]
            is_shown(listing, ask.sorting, ask.kind, shown, lower) && body_shows_listing(
                body,
                shown,
                here,
                text::opt_text(ask.edit),
                lang,
            ),
    }
}

/// Whether a page is the drive page, see [`drive_page`].
pub open spec fn page_shows(
    page: DrivePage,
    lang: Lang,
    ask: DriveAsk,
    query: Seq<char>,
    origin: Seq<char>,
    current: Option<Folder>,
    crumbs: Vec<Crumb>,
    listing: Listing,
    hits: Option<Listing>,
) -> bool {
    &&& {
        let here = here_of(id_of(current), ask.sorting, ask.kind);
        &&& page.here@ == here
        &&& page.current_id@ == id_of(current)
        &&& page.current_name@ == match current {
            Some(folder) => folder.name@,
            None => i18n::phrase(lang, Key::Drive),
        }
        &&& page.box_text@ == match ask.asked {
            Some(asked) => asked@,
            None => Seq::empty(),
        }
        &&& match ask.asked {
            Some(asked) => page.heading matches Heading::Results(words) && words@ == i18n::phrase(
                lang,
                Key::SearchResults,
            ) + " “"@ + asked@ + "”"@,
            None => if current is Some {
                page.heading == Heading::Path(crumbs)
            } else {
                page.heading is Root
            },
        }
        &&& page.sort_value@ == match ask.sorting {
            Some((key, dir)) => sort_word(key, dir),
            None => "name:asc"@,
        }
        &&& text::opt_text(page.sort_carried) == match ask.sorting {
            Some((key, dir)) => Some(sort_word(key, dir)),
            None => None,
        }
        &&& text::opt_str(page.kind_carried) == if ask.kind != KindFilter::All {
            Some(filter_word(ask.kind))
        } else {
            None
        }
        &&& text::opt_text(page.banner) == match page_refused(Some(query)) {
            Some(refusal) => Some(refusal::words_in(refusal, lang)),
            None => None,
        }
        &&& text::opt_text(page.created) == if ask.share_named {
            None
        } else {
            match query::created_in(query) {
                Some(token) => Some(origin + "/s/"@ + token),
                None => None,
            }
        }
        &&& body_follows(page.body, ask, listing, hits, here, lang, text::folding())
        &&& model::plain_listing(match hits {
            Some(hits) => hits,
            None => listing,
        }) ==> body_follows(page.body, ask, listing, hits, here, lang, text::ascii_folding())
    }
}

/// The drive page. `listing` is the open folder's, `hits` what the search
/// found; both are shown by the controls. `crumbs` is the way back, `query` the
/// raw query of the address, `origin` the origin public links carry.
pub fn drive_page(
    lang: Lang,
    ask: &DriveAsk,
    query: &str,
    origin: &str,
    current: Option<&Folder>,
    crumbs: Vec<Crumb>,
    listing: Listing,
    hits: Option<Listing>,
) -> (r: DrivePage)
    ensures
        page_shows(
            r,
            lang,
            *ask,
            query@,
            origin@,
            match current {
                Some(folder) => Some(*folder),
                None => None,
            },
            crumbs,
            listing,
            hits,
        ),
{
    let current_id = match current {
        Some(folder) => folder.id.clone(),
        None => String::new(),
    };
    let current_name = match current {
        Some(folder) => folder.name.clone(),
        None => t(lang, Key::Drive).to_owned(),
    };
    let here = here_address(&current_id, ask.sorting, ask.kind);
    let heading = match &ask.asked {
        Some(asked) => {
            let mut words = text::glue(t(lang, Key::SearchResults), " “");
            words.append(asked);
            words.append("”");
            Heading::Results(words)
        },
        None => if current.is_some() {
            Heading::Path(crumbs)
        } else {
            Heading::Root
        },
    };
    let body = match hits {
        Some(hits) => {
            let shown = show_listing(hits, ask.sorting, ask.kind);
            hits_body(&shown, lang)
        },
        None => {
            let shown = show_listing(listing, ask.sorting, ask.kind);
            if shown.folders.len() == 0 && shown.files.len() == 0 {
                let body = DriveBody::NoRows(t(lang, Key::EmptyFolder));
                assert(body_shows_listing(body, shown, here@, text::opt_text(ask.edit), lang));
                body
            } else {
                let body = DriveBody::Rows(entry_rows(&shown, &here, &ask.edit));
                assert(body_shows_listing(body, shown, here@, text::opt_text(ask.edit), lang));
                body
            }
        },
    };
    let banner = match page_refusal(Some(query)) {
        Some(refusal) => Some(refusal.message_in(lang)),
        None => None,
    };
    let created = if ask.share_named {
        None
    } else {
        match query::created_token(query) {
            Some(token) => {
                let mut address = text::glue(origin, "/s/");
                address.append(&token);
                Some(address)
            },
            None => None,
        }
    };
    let sort_carried = match ask.sorting {
        Some((key, dir)) => Some(sort_text(key, dir)),
        None => None,
    };
    let sort_value = match ask.sorting {
        Some((key, dir)) => sort_text(key, dir),
        None => "name:asc".to_owned(),
    };
    DrivePage {
        heading,
        box_text: match &ask.asked {
            Some(asked) => asked.clone(),
            None => String::new(),
        },
        current_id,
        current_name,
        here,
        sort_value,
        sort_carried,
        kind_carried: if ask.kind != KindFilter::All {
            Some(ask.kind.as_str())
        } else {
            None
        },
        banner,
        created,
        body,
    }
}

// ---- The folder calls --------------------------------------------------------
/// Where a call sends the browser, and what it refused with.
#[derive(Debug)]
pub struct Redirect {
    pub location: String,
    pub refusal: Option<Refusal>,
}

/// Whether a need is this one.
pub open spec fn need_is(
    need: Need,
    kind: ShareKind,
    id: Seq<char>,
    demand: Demand,
    on_error: Refusal,
) -> bool {
    need.kind == kind && need.id@ == id && need.demand == demand && need.on_error == on_error
}

/// The needs of a call on one row that may end in a folder: the row first, the
/// folder behind it unless it is the root.
pub open spec fn needs_for(
    needs: Seq<Need>,
    row: Option<(ShareKind, Seq<char>)>,
    folder: Seq<char>,
    on_error: Refusal,
) -> bool {
    let first = match row {
        Some(_) => 1int,
        None => 0int,
    };
    &&& needs.len() == first + if folder.len() > 0 {
        1int
    } else {
        0
    }
    &&& match row {
        Some((kind, id)) => need_is(needs[0], kind, id, Demand::Live, on_error),
        None => true,
    }
    &&& folder.len() > 0 ==> need_is(
        needs[first],
        ShareKind::Folder,
        folder,
        Demand::Live,
        on_error,
    )
}

/// The needs of a call on one row that may end in a folder.
pub fn plan_for(row: Option<(ShareKind, &str)>, folder: &str, on_error: Refusal) -> (r: Plan)
    ensures
        r matches Plan::Needs(needs) && needs_for(
            needs@,
            match row {
                Some((kind, id)) => Some((kind, id@)),
                None => None,
            },
            folder@,
            on_error,
        ),
{
    let mut needs: Vec<Need> = Vec::new();
    if let Some((kind, id)) = row {
        needs.push(guard::one_need(kind, id, Demand::Live, on_error));
    }
    if folder.unicode_len() > 0 {
        needs.push(guard::one_need(ShareKind::Folder, folder, Demand::Live, on_error));
    }
    Plan::Needs(needs)
}

/// Whether a plan asks for what making a folder needs.
pub open spec fn plans_create(plan: Plan, parent: Seq<char>) -> bool {
    plan matches Plan::Needs(needs) && needs_for(needs@, None, parent, Refusal::NotFound)
}

/// `create`: the parent, unless it is the root, must be the caller's own live
/// folder.
pub fn create_folder_plan(parent_id: &str) -> (r: Plan)
    ensures
        plans_create(r, parent_id@),
{
    plan_for(None, parent_id, Refusal::NotFound)
}

/// Whether a plan asks for what renaming or trashing a folder needs.
pub open spec fn plans_folder(plan: Plan, id: Seq<char>) -> bool {
    plan matches Plan::Needs(needs) && needs_for(
        needs@,
        Some((ShareKind::Folder, id)),
        Seq::empty(),
        Refusal::NotFound,
    )
}

/// `rename` and `delete`: the folder must be the caller's own and live.
pub fn folder_plan(id: &str) -> (r: Plan)
    ensures
        plans_folder(r, id@),
{
    let mut needs: Vec<Need> = Vec::new();
    needs.push(guard::one_need(ShareKind::Folder, id, Demand::Live, Refusal::NotFound));
    Plan::Needs(needs)
}

/// Whether a plan asks for what moving a folder needs.
pub open spec fn plans_folder_move(plan: Plan, id: Seq<char>, parent: Seq<char>) -> bool {
    plan matches Plan::Needs(needs) && needs_for(
        needs@,
        Some((ShareKind::Folder, id)),
        parent,
        Refusal::NotFound,
    )
}

/// `move`: the folder and, unless it is the root, where it goes must be the
/// caller's own and live. Into its own descendant the store refuses it.
pub fn move_folder_plan(id: &str, parent_id: &str) -> (r: Plan)
    ensures
        plans_folder_move(r, id@, parent_id@),
{
    plan_for(Some((ShareKind::Folder, id)), parent_id, Refusal::NotFound)
}

/// The folder a form field names: nothing for the root.
pub open spec fn folder_named(raw: Seq<char>) -> Option<Seq<char>> {
    if raw.len() > 0 {
        Some(raw)
    } else {
        None
    }
}

/// The folder a form field names: an empty field is the root.
pub fn named_folder(raw: &str) -> (r: Option<String>)
    ensures
        text::opt_text(r) == folder_named(raw@),
{
    if raw.unicode_len() > 0 {
        Some(raw.to_owned())
    } else {
        None
    }
}

/// A folder to be made.
#[derive(Debug)]
pub struct NewFolder {
    pub parent: Option<String>,
    pub name: String,
    /// Whether the name is a stand-in the reader is about to change.
    pub quick: bool,
}

/// Whether a folder is the one a create form asks for, see [`new_folder`].
pub open spec fn folder_asked(
    made: NewFolder,
    parent_id: Seq<char>,
    name: Seq<char>,
    lang: Lang,
) -> bool {
    &&& text::opt_text(made.parent) == folder_named(parent_id)
    &&& made.quick == (text::trimmed(name).len() == 0)
    &&& made.name@ == if made.quick {
        i18n::phrase(lang, Key::NewFolder)
    } else {
        name
    }
}

/// The folder a create form asks for. A form without a name takes the generic
/// one.
pub fn new_folder(parent_id: &str, name: &str, lang: Lang) -> (r: NewFolder)
    ensures
        folder_asked(
            r,
            parent_id@,
            name@,
            lang,
        ),
{
    let quick = text::trim(name).as_str().unicode_len() == 0;
    NewFolder {
        parent: named_folder(parent_id),
        name: if quick {
            t(lang, Key::NewFolder).to_owned()
        } else {
            name.to_owned()
        },
        quick,
    }
}

/// The folder view with a fresh folder's row in its rename form.
pub open spec fn edit_address(parent: Option<Seq<char>>, id: Seq<char>) -> Seq<char> {
    match parent {
        Some(parent) => "/drive?folder="@ + parent + "&edit="@ + id,
        None => "/drive?edit="@ + id,
    }
}

/// Back to the page the form was posted from.
pub open spec fn drive_back(referer: Option<Seq<char>>) -> Seq<char> {
    address::settled(match referer {
        Some(address) => address,
        None => "/drive"@,
    })
}

/// A redirect back to the page the form was posted from, carrying the refusal.
pub fn redirect(referer: Option<&str>, refusal: Option<Refusal>) -> (r: Redirect)
    ensures
        r.location@ == drive_back(text::opt_str(referer)),
        r.refusal == refusal,
{
    Redirect { location: back_to(referer, "/drive"), refusal }
}

/// Whether a redirect answers a create, see [`created_folder`].
pub open spec fn folder_created(
    sent: Redirect,
    referer: Option<Seq<char>>,
    made: NewFolder,
    outcome: Result<String, StoreError>,
) -> bool {
    &&& match outcome {
        Ok(id) => {
            &&& sent.refusal is None
            &&& sent.location@ == if made.quick {
                edit_address(text::opt_text(made.parent), id@)
            } else {
                drive_back(referer)
            }
        },
        Err(error) => {
            &&& sent.refusal == Some(drive_words(error))
            &&& sent.location@ == drive_back(referer)
        },
    }
}

/// The answer to a create: a quick folder opens in its rename form, a named one
/// leads back.
pub fn created_folder(referer: Option<&str>, made: &NewFolder, outcome: &Result<String, StoreError>) -> (r:
    Redirect)
    ensures
        folder_created(
            r,
            text::opt_str(referer),
            *made,
            *outcome,
        ),
{
    match outcome {
        Ok(id) => if made.quick {
            let location = match &made.parent {
                Some(parent) => {
                    let mut location = text::glue("/drive?folder=", parent);
                    location.append("&edit=");
                    location.append(id);
                    location
                },
                None => text::glue("/drive?edit=", id),
            };
            Redirect { location, refusal: None }
        } else {
            redirect(referer, None)
        },
        Err(error) => redirect(referer, Some(store_refusal(*error))),
    }
}

/// Whether a redirect answers a rename, a move or a delete of a folder.
pub open spec fn folder_changed(
    sent: Redirect,
    referer: Option<Seq<char>>,
    outcome: Result<(), StoreError>,
) -> bool {
    &&& sent.location@ == drive_back(referer)
    &&& sent.refusal == match outcome {
        Ok(_) => None,
        Err(error) => Some(drive_words(error)),
    }
}

/// The answer to a rename, a move or a delete.
pub fn changed_folder(referer: Option<&str>, outcome: Result<(), StoreError>) -> (r: Redirect)
    ensures
        folder_changed(
            r,
            text::opt_str(referer),
            outcome,
        ),
{
    match outcome {
        Ok(_) => redirect(referer, None),
        Err(error) => redirect(referer, Some(store_refusal(error))),
    }
}

} // verus!
