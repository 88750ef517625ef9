//! Name search over the reader's own drive.
//!
//! The drive's search box and the list filters all read their text the same
//! way. The old `/search` address leads to the drive's box.
use crate::address;
use crate::i18n;
use crate::i18n::{t, Key, Lang};
use crate::model::{File, Folder, Listing};
use crate::query;
use crate::text;
use vstd::prelude::*;

verus! {

/// How many hits each search list carries at most.
pub const LIMIT: u32 = 50;

/// What a search box asks for: its text without the white space around it, or
/// nothing for an empty box.
pub open spec fn asked_in(raw: Option<Seq<char>>) -> Option<Seq<char>> {
    match raw {
        Some(raw) => if text::trimmed(raw).len() > 0 {
            Some(text::trimmed(raw))
        } else {
            None
        },
        None => None,
    }
}

/// The search box's text, trimmed.
pub fn searched(raw: Option<&str>) -> (r: Option<String>)
    ensures
        text::opt_text(r) == asked_in(text::opt_str(raw)),
{
    match raw {
        Some(raw) => {
            let asked = text::trim(raw);
            if asked.as_str().unicode_len() > 0 {
                Some(asked)
            } else {
                None
            }
        },
        None => None,
    }
}

/// Whether a name passes a list's filter box: any case of the text asked for
/// stands in it, cases being folded by `lower`.
pub open spec fn name_passes(
    name: Seq<char>,
    asked: Option<Seq<char>>,
    lower: spec_fn(Seq<char>) -> Seq<char>,
) -> bool {
    match asked {
        Some(needle) => text::holds_text(lower(name), lower(needle)),
        None => true,
    }
}

/// Whether a filter box asks for nothing outside ASCII.
pub open spec fn plain_asked(asked: Option<Seq<char>>) -> bool {
    match asked {
        Some(needle) => text::all_ascii(needle),
        None => true,
    }
}

/// Whether a name passes a list's filter box.
pub fn passes(name: &str, asked: &Option<String>) -> (r: bool)
    ensures
        r == name_passes(name@, text::opt_text(*asked), text::folding()),
        text::all_ascii(name@) && plain_asked(text::opt_text(*asked)) ==> r == name_passes(
            name@,
            text::opt_text(*asked),
            text::ascii_folding(),
        ),
{
    match asked {
        Some(needle) => text::contains(&name.to_lowercase(), &needle.to_lowercase()),
        None => true,
    }
}

/// Where the old search address leads: the drive's search box with the same
/// query, or the plain drive.
pub open spec fn moved_to(query: Seq<char>) -> Seq<char> {
    match query::value_of(query, "q"@) {
        Some(raw) => if text::trimmed(raw).len() > 0 && address::fits_header("/drive?q="@ + raw) {
            "/drive?q="@ + raw
        } else {
            "/drive"@
        },
        None => "/drive"@,
    }
}

/// The old search address: a redirect to the drive's search box, keeping the
/// query so old links land on their results.
pub fn search_redirect(query: &str) -> (r: String)
    ensures
        r@ == moved_to(query@),
{
    match query::query_value(query, "q") {
        Some(raw) => {
            if text::trim(&raw).as_str().unicode_len() > 0 {
                let target = text::glue("/drive?q=", &raw);
                address::header_or(&target, "/drive").to_owned()
            } else {
                "/drive".to_owned()
            }
        },
        None => "/drive".to_owned(),
    }
}

/// One search hit: where it leads, and its name.
#[derive(Debug)]
pub struct Hit {
    pub href: String,
    pub name: String,
}

/// Whether a hit leads to a folder.
pub open spec fn folder_hit(hit: Hit, folder: Folder) -> bool {
    hit.href@ == "/drive?folder="@ + folder.id@ && hit.name@ == folder.name@
}

/// Whether a hit leads to a file under `base`.
pub open spec fn file_hit(hit: Hit, file: File, base: Seq<char>) -> bool {
    hit.href@ == base + file.id@ && hit.name@ == file.name@
}

/// The hits of a list of folders.
pub fn folder_hits(folders: &Vec<Folder>) -> (r: Vec<Hit>)
    ensures
        r@.len() == folders@.len(),
        forall|i: int| 0 <= i < r@.len() ==> folder_hit(#[trigger] r@[i], folders@[i]),
{
    let mut out: Vec<Hit> = Vec::new();
    let mut i: usize = 0;
    while i < folders.len()
        invariant
            i <= folders.len(),
            out.len() == i,
            forall|k: int| 0 <= k < i ==> folder_hit(#[trigger] out@[k], folders@[k]),
        decreases folders.len() - i,
    {
        out.push(
            Hit {
                href: text::glue("/drive?folder=", &folders[i].id),
                name: folders[i].name.clone(),
            },
        );
        i += 1;
    }
    out
}

/// The hits of a list of files.
pub fn file_hits(files: &Vec<File>, base: &str) -> (r: Vec<Hit>)
    ensures
        r@.len() == files@.len(),
        forall|i: int| 0 <= i < r@.len() ==> file_hit(#[trigger] r@[i], files@[i], base@),
{
    let mut out: Vec<Hit> = Vec::new();
    let mut i: usize = 0;
    while i < files.len()
        invariant
            i <= files.len(),
            out.len() == i,
            forall|k: int| 0 <= k < i ==> file_hit(#[trigger] out@[k], files@[k], base@),
        decreases files.len() - i,
    {
        out.push(Hit { href: text::glue(base, &files[i].id), name: files[i].name.clone() });
        i += 1;
    }
    out
}

/// What a search page shows.
#[derive(Debug)]
pub enum SearchBody {
    /// The box is empty: a prompt, never the whole drive.
    Prompt(&'static str),
    /// Nothing wears the query in its name.
    Nothing(&'static str),
    /// The folders found and the files found, each under its own heading.
    Found(Vec<Hit>, Vec<Hit>),
}

/// Whether a body shows what a search found, see [`search_body`].
pub open spec fn body_shows(body: SearchBody, lang: Lang, hits: Option<Listing>) -> bool {
    match hits {
        None => body matches SearchBody::Prompt(words) && words@ == i18n::phrase(
            lang,
            Key::TypeToSearch,
        ),
        Some(found) => if found.folders@.len() == 0 && found.files@.len() == 0 {
            body matches SearchBody::Nothing(words) && words@ == i18n::phrase(lang, Key::NoResults)
        } else {
            body matches SearchBody::Found(folders, files) && folders@.len() == found.folders@.len()
                && files@.len() == found.files@.len() && (forall|i: int|
                0 <= i < folders@.len() ==> folder_hit(#[trigger] folders@[i], found.folders@[i]))
                && (forall|i: int|
                0 <= i < files@.len() ==> file_hit(
                    #[trigger] files@[i],
                    found.files@[i],
                    "/file/"@,
                ))
        },
    }
}

/// The body of a search page: the reader's own live files and folders wearing
/// the query in their name, never everything on an empty box.
pub fn search_body(lang: Lang, hits: Option<&Listing>) -> (r: SearchBody)
    ensures
        body_shows(
            r,
            lang,
            match hits {
                Some(found) => Some(*found),
                None => None,
            },
        ),
{
    match hits {
        None => SearchBody::Prompt(t(lang, Key::TypeToSearch)),
        Some(found) => if found.folders.len() == 0 && found.files.len() == 0 {
            SearchBody::Nothing(t(lang, Key::NoResults))
        } else {
            SearchBody::Found(folder_hits(&found.folders), file_hits(&found.files, "/file/"))
        },
    }
}

} // verus!
