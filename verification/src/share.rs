//! Sharing: public links, per-user grants, and the shared-with-me page.
//!
//! A bearer link opens a file or a folder to whoever holds it; a grant opens
//! one to a named person. A spent, expired or revoked token answers the dead
//! card, and every mutation answers a redirect back to the page the form was
//! posted from, the refusal (if any) on the query.
use crate::address;
use crate::address::{answered, back_to};
use crate::clock;
use crate::clock::Moment;
use crate::drive;
use crate::files;
use crate::files::{ByteReply, FileReply, Header, Span};
use crate::guard;
use crate::guard::{Demand, Need, Plan};
use crate::i18n;
use crate::i18n::{t, Key, Lang};
use crate::media;
use crate::media::Chip;
use crate::model;
use crate::model::{File, Folder, Listing, ShareKind, ShareLink, StoreError, User};
use crate::order;
use crate::order::{Measure, Rank};
use crate::query;
use crate::refusal;
use crate::refusal::Refusal;
use crate::sizes;
use crate::text;
use crate::walk;
use crate::walk::{FolderReply, UnderStep};
use vstd::prelude::*;

verus! {

// ---- Answers and form fields ---------------------------------------------------
/// The store's failure in the route's words.
pub open spec fn share_words(error: StoreError) -> Refusal {
    match error {
        StoreError::NotFound => Refusal::NotFound,
        StoreError::CrossOwner => Refusal::NotFound,
        StoreError::QuotaExceeded => Refusal::QuotaExceeded,
        StoreError::AncestorTrashed => Refusal::AncestorTrashed,
        _ => Refusal::Unavailable,
    }
}

/// The store's failure in the route's words. Cross-owner reads answer as not
/// found, so a stranger cannot probe which ids exist.
pub fn refusal_of(error: StoreError) -> (r: Refusal)
    ensures
        r == share_words(error),
{
    match error {
        StoreError::NotFound => Refusal::NotFound,
        StoreError::CrossOwner => Refusal::NotFound,
        StoreError::QuotaExceeded => Refusal::QuotaExceeded,
        StoreError::AncestorTrashed => Refusal::AncestorTrashed,
        _ => Refusal::Unavailable,
    }
}

/// Whether a word is among the calls a page owns.
pub open spec fn names_call(calls: Seq<&'static str>, word: Seq<char>) -> bool {
    exists|i: int| 0 <= i < calls.len() && (#[trigger] calls[i])@ == word
}

fn is_call(calls: &[&'static str], word: &str) -> (r: bool)
    ensures
        r == names_call(calls@, word@),
{
    let mut i: usize = 0;
    while i < calls.len()
        invariant
            i <= calls.len(),
            forall|k: int| 0 <= k < i ==> (#[trigger] calls@[k])@ != word@,
        decreases calls.len() - i,
    {
        if text::same(calls[i], word) {
            assert(calls@[i as int]@ == word@);
            return true;
        }
        i += 1;
    }
    false
}

/// What a page says about the last post.
#[derive(Debug)]
pub struct Banner {
    /// The refusal, in words.
    pub refused: Option<String>,
    /// The chip a clean save carries.
    pub saved: Option<&'static str>,
}

/// The text of a query value, empty where the query has none.
pub open spec fn value_or_empty(query: Seq<char>, name: Seq<char>) -> Seq<char> {
    match query::value_of(query, name) {
        Some(value) => value,
        None => Seq::empty(),
    }
}

/// The refusal a query's first `refusal` pair names.
pub open spec fn named_refusal(query: Seq<char>) -> Option<Refusal> {
    match query::value_of(query, "refusal"@) {
        Some(code) => refusal::named_by(code),
        None => None,
    }
}

/// The refusal a query's first `refusal` pair names.
pub fn query_refusal(query: &str) -> (r: Option<Refusal>)
    ensures
        r == named_refusal(query@),
{
    match query::query_value(query, "refusal") {
        Some(code) => Refusal::from_code(&code),
        None => None,
    }
}

/// What a page says about the last post: the refusal where the pair names one of
/// the page's own calls, and the saved chip where a call of its own saved.
pub fn refusal_banner(query: &str, lang: Lang, calls: &[&'static str]) -> (r: Banner)
    ensures
        text::opt_text(r.refused) == if names_call(calls@, value_or_empty(query@, "on"@)) {
            match named_refusal(query@) {
                Some(refusal) => Some(refusal::words_in(refusal, lang)),
                None => None,
            }
        } else {
            None
        },
        text::opt_str(r.saved) == if names_call(calls@, value_or_empty(query@, "saved"@)) {
            Some(i18n::phrase(lang, Key::Saved))
        } else {
            None
        },
{
    let on = match query::query_value(query, "on") {
        Some(on) => on,
        None => String::new(),
    };
    let saved = match query::query_value(query, "saved") {
        Some(saved) => saved,
        None => String::new(),
    };
    let refused = if is_call(calls, &on) {
        match query_refusal(query) {
            Some(refusal) => Some(refusal.message_in(lang)),
            None => None,
        }
    } else {
        None
    };
    Banner {
        refused,
        saved: if is_call(calls, &saved) {
            Some(t(lang, Key::Saved))
        } else {
            None
        },
    }
}

/// The page a form was posted from, settled.
pub open spec fn back_of(referer: Option<Seq<char>>, nowhere: Seq<char>) -> Seq<char> {
    address::settled(match referer {
        Some(address) => address,
        None => nowhere,
    })
}

/// Back to the posting page, the refusal (if any) on the query.
pub fn redirect_back(referer: Option<&str>, nowhere: &str, call: &str, refusal: Option<Refusal>) -> (r:
    String)
    ensures
        r@ == address::answered_at(
            back_of(text::opt_str(referer), nowhere@),
            call@,
            refusal,
            false,
        ),
{
    answered(&back_to(referer, nowhere), call, refusal, false)
}

/// The kind a word names.
pub open spec fn kind_named(raw: Seq<char>) -> Option<ShareKind> {
    if raw == "file"@ {
        Some(ShareKind::File)
    } else if raw == "folder"@ {
        Some(ShareKind::Folder)
    } else {
        None
    }
}

/// `file` or `folder`, or nothing a route may act on.
pub fn parse_kind(raw: &str) -> (r: Option<ShareKind>)
    ensures
        r == kind_named(raw@),
{
    if text::same(raw, "file") {
        Some(ShareKind::File)
    } else if text::same(raw, "folder") {
        Some(ShareKind::Folder)
    } else {
        None
    }
}

/// A kind written out is read back as it was.
pub proof fn law_kind_round_trip(kind: ShareKind)
    ensures
        kind_named(model::kind_word(kind)) == Some(kind),
{
    reveal_strlit("file");
    reveal_strlit("folder");
    assert("file"@.len() != "folder"@.len());
}

/// The words that read plainly false.
pub open spec fn plainly_false(word: Seq<char>) -> bool {
    ||| word.len() == 0
    ||| word == "0"@
    ||| word == "false"@
    ||| word == "no"@
    ||| word == "off"@
}

/// Whether a field reads as set. Cases are folded by `lower`.
pub open spec fn flag_set(
    raw: Option<Seq<char>>,
    when_absent: bool,
    lower: spec_fn(Seq<char>) -> Seq<char>,
) -> bool {
    match raw {
        Some(value) => !plainly_false(lower(text::trimmed(value))),
        None => when_absent,
    }
}

/// A checkbox-ish flag: absent means the control's default, present is true
/// unless it reads plainly false.
pub fn parse_flag(raw: Option<&str>, when_absent: bool) -> (r: bool)
    ensures
        r == flag_set(text::opt_str(raw), when_absent, text::folding()),
        match text::opt_str(raw) {
            Some(value) => text::all_ascii(text::trimmed(value)) ==> r == flag_set(
                text::opt_str(raw),
                when_absent,
                text::ascii_folding(),
            ),
            None => true,
        },
{
    match raw {
        None => when_absent,
        Some(value) => {
            let word = text::trim(value).to_lowercase();
            !(word.as_str().unicode_len() == 0 || text::same(&word, "0") || text::same(
                &word,
                "false",
            ) || text::same(&word, "no") || text::same(&word, "off"))
        },
    }
}

/// The expiry a form names at `now`: none for an empty field, else a positive
/// whole number of days from now, as far as the calendar reaches. A mistyped
/// value silently minting a never-expiring link would be the wrong default, so
/// it is refused instead.
pub open spec fn expiry_of(raw: Option<Seq<char>>, now: int) -> Result<Option<int>, Refusal> {
    match raw {
        None => Ok(None),
        Some(raw) => if text::trimmed(raw).len() == 0 {
            Ok(None)
        } else {
            match text::read_signed(text::trimmed(raw)) {
                None => Err(Refusal::Forbidden),
                Some(days) => {
                    let at = now + days * 86_400 * clock::NANOS_PER_SECOND;
                    if days > 0 && clock::in_calendar(at) {
                        Ok(Some(at))
                    } else {
                        Err(Refusal::Forbidden)
                    }
                },
            }
        },
    }
}

/// An expiry as a value.
pub open spec fn expiry_model(r: Result<Option<Moment>, Refusal>) -> Result<Option<int>, Refusal> {
    match r {
        Ok(Some(at)) => Ok(Some(at@)),
        Ok(None) => Ok(None),
        Err(refusal) => Err(refusal),
    }
}

/// The link's expiry off `expires_in_days`, counted from `now`.
pub fn expiry_at(raw: Option<&str>, now: Moment) -> (r: Result<Option<Moment>, Refusal>)
    ensures
        expiry_model(r) == expiry_of(text::opt_str(raw), now@),
{
    let raw = match raw {
        Some(raw) => text::trim(raw),
        None => return Ok(None),
    };
    if raw.as_str().unicode_len() == 0 {
        return Ok(None);
    }
    let _nanos: i128 = now.nanos();
    let days: i64 = match text::parse_i64(&raw) {
        Some(days) => days,
        None => {
            // A number too long for 64 bits lies past the calendar's end.
            return Err(Refusal::Forbidden);
        },
    };
    if days <= 0 {
        return Err(Refusal::Forbidden);
    }
    if days > 0x7fff_ffff_ffff_ffff / 86_400 {
        return Err(Refusal::Forbidden);
    }
    match now.later(days * 86_400) {
        Some(at) => Ok(Some(at)),
        None => Err(Refusal::Forbidden),
    }
}

/// The link's expiry off `expires_in_days`: absent or empty means no expiry,
/// anything else must name a positive whole number of days.
pub fn parse_expiry(raw: Option<&str>) -> (r: Result<Option<Moment>, Refusal>)
    ensures
        exists|now: int| clock::in_calendar(now) && expiry_model(r) == #[trigger] expiry_of(
            text::opt_str(raw),
            now,
        ),
{
    let now = Moment::now();
    let r = expiry_at(raw, now);
    assert(clock::in_calendar(now@) && expiry_model(r) == expiry_of(text::opt_str(raw), now@));
    r
}

// ---- The share calls -----------------------------------------------------------
/// Whether a plan asks for the caller's own row of that kind and id.
pub open spec fn plans_target(
    plan: Plan,
    kind: Option<ShareKind>,
    id: Seq<char>,
    demand: Demand,
) -> bool {
    match kind {
        None => plan == Plan::Refused(Refusal::NotFound),
        Some(kind) => plan matches Plan::Needs(needs) && needs@.len() == 1 && drive::need_is(
            needs@[0],
            kind,
            id,
            demand,
            Refusal::Unavailable,
        ),
    }
}

/// The plan of a call on the caller's own row: a kind that is no kind is not
/// found, and a store that fails to say is unavailable, never not found.
pub fn target_plan(kind: &str, target_id: &str, demand: Demand) -> (r: Plan)
    ensures
        plans_target(r, kind_named(kind@), target_id@, demand),
{
    match parse_kind(kind) {
        None => Plan::Refused(Refusal::NotFound),
        Some(kind) => {
            let mut needs: Vec<Need> = Vec::new();
            needs.push(guard::one_need(kind, target_id, demand, Refusal::Unavailable));
            Plan::Needs(needs)
        },
    }
}

/// Whether a plan asks for what a share needs, see [`share_plan`].
pub open spec fn plans_share(plan: Plan, kind: Seq<char>, id: Seq<char>) -> bool {
    plans_target(plan, kind_named(kind), id, Demand::Live)
}

/// Minting a link and adding a grant: the target must be the caller's own and
/// live.
pub fn share_plan(kind: &str, target_id: &str) -> (r: Plan)
    ensures
        plans_share(r, kind@, target_id@),
{
    target_plan(kind, target_id, Demand::Live)
}

/// Whether a plan asks for what unsharing needs, see [`unshare_plan`].
pub open spec fn plans_unshare(plan: Plan, kind: Seq<char>, id: Seq<char>) -> bool {
    plans_target(plan, kind_named(kind), id, Demand::Any)
}

/// Unsharing: the target must be the caller's own, trashed or not. Unsharing a
/// trashed target still revokes the grant.
pub fn unshare_plan(kind: &str, target_id: &str) -> (r: Plan)
    ensures
        plans_unshare(r, kind@, target_id@),
{
    target_plan(kind, target_id, Demand::Any)
}

/// An address without the token of an earlier mint.
pub open spec fn unminted(address: Seq<char>) -> Seq<char> {
    let (path, query) = query::path_and_query(address);
    let kept = text::keep_parts(
        text::split_on(query, '&'),
        |pair: Seq<char>| pair.len() > 0 && query::value_in(pair, "created"@) is None,
    );
    if kept.len() == 0 {
        path
    } else {
        address::with_pairs(path, kept)
    }
}

/// An address without the token of an earlier mint.
fn drop_minted(address: &str) -> (r: String)
    ensures
        r@ == unminted(address@),
{
    let (path, query) = query::split_address(address);
    let parts = text::split(&query, '&');
    let ghost all = text::texts(parts@);
    let ghost f = |pair: Seq<char>| pair.len() > 0 && query::value_in(pair, "created"@) is None;
    let mut pairs: Vec<String> = Vec::new();
    let mut i: usize = 0;
    while i < parts.len()
        invariant
            i <= parts.len(),
            all == text::texts(parts@),
            f == |pair: Seq<char>| pair.len() > 0 && query::value_in(pair, "created"@) is None,
            text::texts(pairs@) == text::keep_parts(all.take(i as int), f),
        decreases parts.len() - i,
    {
        let pair = &parts[i];
        proof {
            assert(all.take(i + 1).drop_last() == all.take(i as int));
            assert(all.take(i + 1).last() == pair@);
        }
        if pair.as_str().unicode_len() > 0 && !query::is_named(pair, "created") {
            let ghost before = pairs@;
            pairs.push(pair.clone());
            assert(text::texts(pairs@) =~= text::texts(before).push(pair@));
        }
        i += 1;
    }
    proof {
        assert(all.take(i as int) == all);
        assert(text::texts(pairs@).len() == pairs@.len());
        reveal_strlit("&");
        assert("&"@ =~= seq!['&']);
    }
    if pairs.len() == 0 {
        return path;
    }
    let mut out = path;
    out.push('?');
    proof {
        assert(out@ =~= query::path_and_query(address@).0 + seq!['?']);
    }
    out.append(&text::join(&pairs, "&"));
    out
}

/// Where a minted link sends the browser, see [`created_link`].
pub open spec fn minted_at(
    referer: Option<Seq<char>>,
    outcome: Result<String, StoreError>,
) -> Seq<char> {
    match outcome {
        Ok(token) => drive::extended(
            unminted(back_of(referer, "/settings"@)),
            "created="@ + token@,
        ),
        Err(error) => address::answered_at(
            back_of(referer, "/settings"@),
            "create"@,
            Some(share_words(error)),
            false,
        ),
    }
}

/// The answer to a minted link: the token on the query, in the place of any
/// earlier mint's.
pub fn created_link(referer: Option<&str>, outcome: &Result<String, StoreError>) -> (r: String)
    ensures
        r@ == minted_at(text::opt_str(referer), *outcome),
{
    match outcome {
        Ok(token) => {
            let back = drop_minted(&back_to(referer, "/settings"));
            drive::extend(&back, "created=", token)
        },
        Err(error) => redirect_back(referer, "/settings", "create", Some(refusal_of(*error))),
    }
}

/// What a mint puts on its redirect, the page behind it reads back: the fresh
/// token, whatever token an earlier mint left on the address.
pub proof fn law_minted_token_is_read_back(address: Seq<char>, token: Seq<char>)
    requires
        token.len() > 0,
        text::free_of(token, '&'),
    ensures
        query::created_in(
            query::path_and_query(drive::extended(unminted(address), "created="@ + token)).1,
        ) == Some(token),
{
    let f = |pair: Seq<char>| pair.len() > 0 && query::value_in(pair, "created"@) is None;
    let filled = |pair: Seq<char>| query::filled_in(pair, "created"@);
    let back = unminted(address);
    let pair = "created="@ + token;
    let kept = text::keep_parts(text::split_on(query::path_and_query(address).1, '&'), f);
    address::lemma_kept_pairs(address, f);
    address::lemma_pair_behind(back, pair);
    reveal_strlit("created=");
    reveal_strlit("created");
    assert("created="@ =~= "created"@ + seq!['=']);
    query::lemma_pair("created="@, "created"@, token);
    let read = text::split_on(query::path_and_query(drive::extended(back, pair)).1, '&');
    assert(read =~= kept + seq![pair]);
    assert forall|i: int| 0 <= i < kept.len() implies filled(#[trigger] kept[i]) is None by {
        assert(f(kept[i]));
    }
    query::lemma_answer_behind(kept, seq![pair], filled);
    assert(query::first_answer(seq![pair], filled) == filled(seq![pair][0]));
}

/// Where a share call sends the browser, see [`changed_share`].
pub open spec fn share_answer(
    referer: Option<Seq<char>>,
    call: Seq<char>,
    outcome: Result<(), StoreError>,
) -> Seq<char> {
    address::answered_at(
        back_of(referer, "/settings"@),
        call,
        match outcome {
            Ok(_) => None,
            Err(error) => Some(share_words(error)),
        },
        false,
    )
}

/// The answer to a share call that only changes rows.
pub fn changed_share(referer: Option<&str>, call: &str, outcome: Result<(), StoreError>) -> (r:
    String)
    ensures
        r@ == share_answer(text::opt_str(referer), call@, outcome),
{
    let refusal = match outcome {
        Ok(_) => None,
        Err(error) => Some(refusal_of(error)),
    };
    redirect_back(referer, "/settings", call, refusal)
}

/// What to do next about a revocation.
#[derive(Clone, Copy, Debug, PartialEq, Eq, Structural)]
pub enum RevokeStep {
    /// List the caller's links.
    ListLinks,
    /// Revoke the link.
    Revoke,
    Refuse(Refusal),
}

/// Whether a list of links holds the caller's own link with that id.
pub open spec fn holds_link(links: Seq<ShareLink>, id: Seq<char>, owner: Seq<char>) -> bool {
    exists|i: int|
        0 <= i < links.len() && (#[trigger] links[i]).id@ == id && links[i].created_by@ == owner
}

/// What to do next about a revocation: only the link's creator may, anyone else
/// is answered as if it never existed.
pub open spec fn revoke_after(
    user: Result<User, Refusal>,
    links: Option<Result<Vec<ShareLink>, StoreError>>,
    id: Seq<char>,
) -> RevokeStep {
    match user {
        Err(refusal) => RevokeStep::Refuse(refusal),
        Ok(user) => match links {
            None => RevokeStep::ListLinks,
            Some(Err(_)) => RevokeStep::Refuse(Refusal::Unavailable),
            Some(Ok(links)) => if holds_link(links@, id, user.id@) {
                RevokeStep::Revoke
            } else {
                RevokeStep::Refuse(Refusal::NotFound)
            },
        },
    }
}

/// What to do next about a revocation, see [`revoke_after`].
pub fn revoke_step(
    user: &Result<User, Refusal>,
    links: &Option<Result<Vec<ShareLink>, StoreError>>,
    id: &str,
) -> (r: RevokeStep)
    ensures
        r == revoke_after(*user, *links, id@),
{
    let user = match user {
        Ok(user) => user,
        Err(refusal) => return RevokeStep::Refuse(*refusal),
    };
    let links = match links {
        None => return RevokeStep::ListLinks,
        Some(Err(_)) => return RevokeStep::Refuse(Refusal::Unavailable),
        Some(Ok(links)) => links,
    };
    if find_link(links, id, &user.id) {
        RevokeStep::Revoke
    } else {
        RevokeStep::Refuse(Refusal::NotFound)
    }
}

fn find_link(links: &Vec<ShareLink>, id: &str, owner: &str) -> (r: bool)
    ensures
        r == holds_link(links@, id@, owner@),
{
    let mut i: usize = 0;
    while i < links.len()
        invariant
            i <= links.len(),
            forall|k: int|
                0 <= k < i ==> !((#[trigger] links@[k]).id@ == id@ && links@[k].created_by@
                    == owner@),
        decreases links.len() - i,
    {
        if text::same(&links[i].id, id) && text::same(&links[i].created_by, owner) {
            assert(links@[i as int].id@ == id@);
            return true;
        }
        i += 1;
    }
    false
}

/// The address a grantee is looked up by. Cases are folded by `lower`.
pub open spec fn looked_up_by(
    email: Seq<char>,
    lower: spec_fn(Seq<char>) -> Seq<char>,
) -> Seq<char> {
    lower(text::trimmed(email))
}

/// The address a grantee is looked up by: without the white space around it, in
/// lower case.
pub fn grantee_address(email: &str) -> (r: String)
    ensures
        r@ == looked_up_by(email@, text::folding()),
        text::all_ascii(text::trimmed(email@)) ==> r@ == looked_up_by(
            email@,
            text::ascii_folding(),
        ),
{
    text::trim(email).to_lowercase()
}

/// Whether an answer names the grantee that was found, see [`grantee`].
pub open spec fn names_grantee(
    answer: Result<String, Refusal>,
    found: Result<Option<User>, StoreError>,
) -> bool {
    match found {
        Ok(Some(user)) => answer matches Ok(id) && id@ == user.id@,
        _ => answer matches Err(refusal) && refusal == Refusal::NotFound,
    }
}

/// The grantee an address found; an unknown address is not found, and so is one
/// the store fails to look up.
pub fn grantee(found: &Result<Option<User>, StoreError>) -> (r: Result<String, Refusal>)
    ensures
        names_grantee(r, *found),
{
    match found {
        Ok(Some(user)) => Ok(user.id.clone()),
        _ => Err(Refusal::NotFound),
    }
}

// ---- The public link -------------------------------------------------------------
/// The public viewer's query: which folder is browsed, which file is named,
/// whether the bytes are wanted, and whether the preview is.
#[derive(Debug)]
pub struct SharedQuery {
    pub folder: Option<String>,
    pub file: Option<String>,
    pub dl: bool,
    pub thumb: bool,
}

/// Whether a query is read as asked, see [`shared_query`].
pub open spec fn asks_shared(asked: SharedQuery, query: Seq<char>) -> bool {
    &&& text::opt_text(asked.folder) == query::value_of(query, "folder"@)
    &&& text::opt_text(asked.file) == query::value_of(query, "file"@)
    &&& asked.dl == query::flagged(query, "dl"@)
    &&& asked.thumb == query::flagged(query, "thumb"@)
}

/// The query of a public address. A hand-edited query browses nothing rather
/// than failing the page.
pub fn shared_query(query: &str) -> (r: SharedQuery)
    ensures
        asks_shared(r, query@),
{
    SharedQuery {
        folder: query::query_value(query, "folder"),
        file: query::query_value(query, "file"),
        dl: query::has_flag(query, "dl"),
        thumb: query::has_flag(query, "thumb"),
    }
}

/// What the store said about a public address, as far as it was asked.
#[derive(Debug)]
pub struct PublicFacts {
    /// The shared folder, for a link onto one.
    pub root: Option<FolderReply>,
    /// The folders from the browsed one up.
    pub climb: Vec<FolderReply>,
    /// The file the link or the query names.
    pub file: Option<FileReply>,
}

/// What to do next about a public address.
#[derive(Debug)]
pub enum PublicStep {
    /// The dead card: one answer for a spent, expired, revoked or never-real
    /// token, a trashed target, and a download the link may not open.
    Dead,
    LookFile(String),
    /// Look the shared folder up.
    LookRoot(String),
    /// Look a folder on the way up to the shared one up.
    LookFolder(String),
    /// Serve the file's bytes.
    Bytes,
    /// Serve the file's preview.
    Thumb,
    /// Show the file's card.
    FileCard,
    /// Show the listing of this folder.
    FolderCard(String),
}

/// A [`PublicStep`] as a value.
pub enum PublicModel {
    Dead,
    LookFile(Seq<char>),
    LookRoot(Seq<char>),
    LookFolder(Seq<char>),
    Bytes,
    Thumb,
    FileCard,
    FolderCard(Seq<char>),
}

impl View for PublicStep {
    type V = PublicModel;

    open spec fn view(&self) -> PublicModel {
        match self {
            PublicStep::Dead => PublicModel::Dead,
            PublicStep::LookFile(id) => PublicModel::LookFile(id@),
            PublicStep::LookRoot(id) => PublicModel::LookRoot(id@),
            PublicStep::LookFolder(id) => PublicModel::LookFolder(id@),
            PublicStep::Bytes => PublicModel::Bytes,
            PublicStep::Thumb => PublicModel::Thumb,
            PublicStep::FileCard => PublicModel::FileCard,
            PublicStep::FolderCard(at) => PublicModel::FolderCard(at@),
        }
    }
}

/// What is served of a file the link opens: the bytes only where the link may
/// download, the preview regardless.
pub open spec fn served(link: ShareLink, dl: bool) -> PublicModel {
    if dl {
        if link.can_download {
            PublicModel::Bytes
        } else {
            PublicModel::Dead
        }
    } else {
        PublicModel::Thumb
    }
}

/// Whether a file may be served through a shared folder browsed at `at`: live,
/// of the folder's owner, and lying right there.
pub open spec fn lies_in(file: File, owner: Seq<char>, at: Seq<char>) -> bool {
    model::live_file_of(file, owner) && text::opt_text(file.folder_id) == Some(at)
}

/// The folder a query browses: the shared one unless it names another.
pub open spec fn browsed(query: SharedQuery, root: Folder) -> Seq<char> {
    match query.folder {
        Some(id) => id@,
        None => root.id@,
    }
}

/// What to do next about a link onto a file.
pub open spec fn file_link_after(
    link: ShareLink,
    query: SharedQuery,
    facts: PublicFacts,
) -> PublicModel {
    match facts.file {
        None => PublicModel::LookFile(link.target_id@),
        Some(Ok(Some(file))) => if file.deleted_at is Some {
            PublicModel::Dead
        } else if query.dl || query.thumb {
            served(link, query.dl)
        } else {
            PublicModel::FileCard
        },
        _ => PublicModel::Dead,
    }
}

/// What to do next about a link onto a folder.
pub open spec fn folder_link_after(
    link: ShareLink,
    query: SharedQuery,
    facts: PublicFacts,
) -> PublicModel {
    match facts.root {
        None => PublicModel::LookRoot(link.target_id@),
        Some(Ok(Some(root))) => if root.deleted_at is Some {
            PublicModel::Dead
        } else {
            let at = browsed(query, root);
            match walk::under_after(root.owner_id@, root.id@, at, facts.climb@, 0) {
                walk::UnderModel::Outside => PublicModel::Dead,
                walk::UnderModel::Look(id) => PublicModel::LookFolder(id),
                walk::UnderModel::Inside => if query.dl || query.thumb {
                    match query.file {
                        None => PublicModel::Dead,
                        Some(id) => match facts.file {
                            None => PublicModel::LookFile(id@),
                            Some(Ok(Some(file))) => if lies_in(file, root.owner_id@, at) {
                                served(link, query.dl)
                            } else {
                                PublicModel::Dead
                            },
                            _ => PublicModel::Dead,
                        },
                    }
                } else {
                    PublicModel::FolderCard(at)
                },
            }
        },
        _ => PublicModel::Dead,
    }
}

/// What to do next about a public address. `link` is what the token resolved
/// to: nothing for a token that is spent, expired, revoked or was never real.
pub open spec fn public_after(
    link: Option<ShareLink>,
    query: SharedQuery,
    facts: PublicFacts,
) -> PublicModel {
    match link {
        None => PublicModel::Dead,
        Some(link) => match link.kind {
            ShareKind::File => file_link_after(link, query, facts),
            ShareKind::Folder => folder_link_after(link, query, facts),
        },
    }
}

fn serve(link: &ShareLink, dl: bool) -> (r: PublicStep)
    ensures
        r@ == served(*link, dl),
{
    if dl {
        if link.can_download {
            PublicStep::Bytes
        } else {
            PublicStep::Dead
        }
    } else {
        PublicStep::Thumb
    }
}

fn file_link_step(link: &ShareLink, query: &SharedQuery, facts: &PublicFacts) -> (r: PublicStep)
    ensures
        r@ == file_link_after(*link, *query, *facts),
{
    match &facts.file {
        None => PublicStep::LookFile(link.target_id.clone()),
        Some(Ok(Some(file))) => if file.deleted_at.is_some() {
            PublicStep::Dead
        } else if query.dl || query.thumb {
            serve(link, query.dl)
        } else {
            PublicStep::FileCard
        },
        Some(_) => PublicStep::Dead,
    }
}

fn folder_link_step(link: &ShareLink, query: &SharedQuery, facts: &PublicFacts) -> (r: PublicStep)
    ensures
        r@ == folder_link_after(*link, *query, *facts),
{
    let root = match &facts.root {
        None => return PublicStep::LookRoot(link.target_id.clone()),
        Some(Ok(Some(root))) => root,
        Some(_) => return PublicStep::Dead,
    };
    if root.deleted_at.is_some() {
        return PublicStep::Dead;
    }
    let at = match &query.folder {
        Some(id) => id.clone(),
        None => root.id.clone(),
    };
    match walk::under_target(&root.owner_id, &root.id, &at, &facts.climb) {
        UnderStep::Outside => return PublicStep::Dead,
        UnderStep::Look(id) => return PublicStep::LookFolder(id),
        UnderStep::Inside => {},
    }
    if !query.dl && !query.thumb {
        return PublicStep::FolderCard(at);
    }
    let file_id = match &query.file {
        Some(id) => id,
        None => return PublicStep::Dead,
    };
    match &facts.file {
        None => PublicStep::LookFile(file_id.clone()),
        Some(Ok(Some(file))) => {
            let here = match &file.folder_id {
                Some(folder) => text::same(folder, &at),
                None => false,
            };
            if file.live_under(&root.owner_id) && here {
                serve(link, query.dl)
            } else {
                PublicStep::Dead
            }
        },
        Some(_) => PublicStep::Dead,
    }
}

/// What to do next about a public address, see [`public_after`].
pub fn shared_link(link: Option<&ShareLink>, query: &SharedQuery, facts: &PublicFacts) -> (r:
    PublicStep)
    ensures
        r@ == public_after(
            match link {
                Some(link) => Some(*link),
                None => None,
            },
            *query,
            *facts,
        ),
{
    match link {
        None => PublicStep::Dead,
        Some(link) => match link.kind {
            ShareKind::File => file_link_step(link, query, facts),
            ShareKind::Folder => folder_link_step(link, query, facts),
        },
    }
}

/// A download through a view-only link is answered exactly like a dead token:
/// the surface never says which tokens exist.
pub proof fn law_view_only_download_is_the_dead_card(
    link: ShareLink,
    query: SharedQuery,
    facts: PublicFacts,
)
    requires
        !link.can_download,
        query.dl,
    ensures
        !(public_after(Some(link), query, facts) is Bytes),
        facts.file is Some && facts.root is Some && !(public_after(Some(link), query, facts) is LookFolder)
            ==> public_after(Some(link), query, facts) == public_after(None, query, facts),
{
}

/// The preview does not ask whether the link may download.
pub proof fn law_preview_ignores_the_download_flag(
    link: ShareLink,
    query: SharedQuery,
    facts: PublicFacts,
)
    requires
        !query.dl,
    ensures
        public_after(Some(link), query, facts) == public_after(
            Some(ShareLink { can_download: !link.can_download, ..link }),
            query,
            facts,
        ),
{
}

/// Bytes and previews come only from a live file: the link's own target, or one
/// lying in the browsed folder and belonging to the shared folder's owner.
pub proof fn law_public_bytes_are_shared_bytes(
    link: ShareLink,
    query: SharedQuery,
    facts: PublicFacts,
)
    requires
        public_after(Some(link), query, facts) is Bytes || public_after(Some(link), query, facts) is Thumb,
    ensures
        match facts.file {
            Some(Ok(Some(file))) => {
                &&& file.deleted_at is None
                &&& link.kind == ShareKind::Folder ==> match facts.root {
                    Some(Ok(Some(root))) => root.deleted_at is None && lies_in(
                        file,
                        root.owner_id@,
                        browsed(query, root),
                    ),
                    _ => false,
                }
            },
            _ => false,
        },
{
}

/// Whether a `Range` header starts at byte 0.
pub open spec fn starts_at_zero(header: Seq<char>) -> bool {
    "bytes="@.is_prefix_of(header) && {
        let spec = header.skip("bytes="@.len() as int);
        text::free_of(spec, ',') && match text::cut_at(spec, '-') {
            Some((first, _)) => first == "0"@,
            None => false,
        }
    }
}

/// Whether a `Range` header starts at byte 0: only those ranges (and the
/// header's absence) count a download.
pub fn range_starts_at_zero(header: &str) -> (r: bool)
    ensures
        r == starts_at_zero(header@),
{
    let spec = match text::strip_prefix(header, "bytes=") {
        Some(spec) => spec,
        None => return false,
    };
    if text::has_char(&spec, ',') {
        return false;
    }
    match text::split_once(&spec, '-') {
        Some((first, _)) => text::same(&first, "0"),
        None => false,
    }
}

/// The disposition of a public download.
pub open spec fn public_disposition(name: Seq<char>) -> Seq<char> {
    "attachment; filename=\""@ + media::quotable_name(name) + "\""@
}

/// One header, where its value fits.
pub open spec fn fitting(name: Seq<char>, value: Seq<char>) -> Seq<(Seq<char>, Seq<char>)> {
    if address::fits_header(value) {
        seq![(name, value)]
    } else {
        Seq::empty()
    }
}

/// The headers of a public download.
pub open spec fn public_headers(
    name: Seq<char>,
    mime: Seq<char>,
    span: Span,
    total: nat,
) -> Seq<(Seq<char>, Seq<char>)> {
    let base = fitting("content-type"@, mime) + fitting(
        "content-disposition"@,
        public_disposition(name),
    ) + seq![("cache-control"@, "private, no-cache"@), ("accept-ranges"@, "bytes"@)];
    match files::content_range(span, total) {
        Some(value) => base.push(("content-range"@, value)),
        None => base,
    }
}

pub(crate) fn put_fitting(headers: &mut Vec<Header>, name: &'static str, value: &str)
    ensures
        files::header_texts(final(headers)@) == files::header_texts(old(headers)@) + fitting(
            name@,
            value@,
        ),
{
    let ghost before = files::header_texts(headers@);
    if address::is_header_text(value) {
        files::put_header(headers, name, value);
    }
    proof {
        assert(files::header_texts(headers@) =~= before + fitting(name@, value@));
    }
}

/// Whether a reply is the answer to a public request for a file's bytes, see
/// [`download_bytes`].
pub open spec fn public_bytes_answered(
    reply: ByteReply,
    file: File,
    range: Option<Seq<char>>,
    total: u64,
) -> bool {
    &&& reply.span == files::span_of(range, total as int)
    &&& match reply.span {
        Span::Part(start, end) => start <= end < total,
        _ => true,
    }
    &&& reply.status == files::span_status(reply.span)
    &&& reply.counts == match range {
        Some(header) => starts_at_zero(header),
        None => true,
    }
    &&& files::header_texts(reply.headers@) == public_headers(
        file.name@,
        file.mime@,
        reply.span,
        total as nat,
    )
}

/// The bytes behind a public link. A fetch counts once: a full fetch, or a range
/// resuming from byte 0; a mid-file chunk is the same view going on.
pub fn download_bytes(file: &File, range: Option<&str>, total: u64) -> (r: ByteReply)
    ensures
        public_bytes_answered(
            r,
            *file,
            text::opt_str(range),
            total,
        ),
{
    let counts = match range {
        Some(header) => range_starts_at_zero(header),
        None => true,
    };
    let span = files::asked_span(range, total);
    let mut disposition = text::glue("attachment; filename=\"", &media::safe_name(&file.name));
    disposition.append("\"");
    let mut headers: Vec<Header> = Vec::new();
    put_fitting(&mut headers, "content-type", &file.mime);
    put_fitting(&mut headers, "content-disposition", &disposition);
    files::put_header(&mut headers, "cache-control", "private, no-cache");
    files::put_header(&mut headers, "accept-ranges", "bytes");
    if let Some(value) = files::content_range_text(span, total) {
        files::put_header(&mut headers, "content-range", &value);
    }
    proof {
        assert(files::header_texts(headers@) =~= public_headers(
            file.name@,
            file.mime@,
            span,
            total as nat,
        ));
    }
    let status: u16 = match span {
        Span::Whole => 200,
        Span::Part(_, _) => 206,
        Span::Nothing => 416,
    };
    ByteReply { status, headers, span, counts }
}

// ---- The public cards ------------------------------------------------------------
/// When a link stops opening, or never on its own.
pub open spec fn expiry_words(lang: Lang, expires_at: Option<Moment>) -> Seq<char> {
    match expires_at {
        Some(at) => i18n::phrase(lang, Key::ExpiresLabel) + " "@ + match clock::rfc3339_name(at@) {
            Some(text) => text,
            None => "?"@,
        },
        None => i18n::phrase(lang, Key::NeverExpires),
    }
}

/// When the link stops opening, or never on its own.
pub fn expiry_line(lang: Lang, expires_at: Option<Moment>) -> (r: String)
    ensures
        r@ == expiry_words(lang, expires_at),
{
    match expires_at {
        Some(at) => {
            let mut out = text::glue(t(lang, Key::ExpiresLabel), " ");
            out.append(&at.rfc3339());
            out
        },
        None => t(lang, Key::NeverExpires).to_owned(),
    }
}

/// What a grant opens, in words.
pub open spec fn access_words(lang: Lang, can_download: bool) -> Seq<char> {
    if can_download {
        i18n::phrase(lang, Key::CanDownload)
    } else {
        i18n::phrase(lang, Key::ViewOnly)
    }
}

/// What the grant opens: the download, or the view alone.
pub fn access_chip(lang: Lang, can_download: bool) -> (r: &'static str)
    ensures
        r@ == access_words(lang, can_download),
{
    if can_download {
        t(lang, Key::CanDownload)
    } else {
        t(lang, Key::ViewOnly)
    }
}

/// A shared file's card.
#[derive(Debug)]
pub struct FileCard {
    pub name: String,
    /// The type and the size.
    pub meta: String,
    /// The address of the preview, for a picture.
    pub preview: Option<String>,
    /// The address of the download, while the link allows it.
    pub download: Option<String>,
}

/// The path a card's own links start from.
pub open spec fn path_or_root(path: Seq<char>) -> Seq<char> {
    if path.len() == 0 {
        "/"@
    } else {
        path
    }
}

/// The request's own path: the links a public card renders point back at the
/// same token.
pub fn current_path(path: &str) -> (r: String)
    ensures
        r@ == path_or_root(path@),
{
    if path.unicode_len() == 0 {
        "/".to_owned()
    } else {
        path.to_owned()
    }
}

/// Whether a card shows a shared file, see [`file_card`].
pub open spec fn file_card_shows(
    card: FileCard,
    link: ShareLink,
    file: File,
    path: Seq<char>,
) -> bool {
    &&& card.name@ == file.name@
    &&& card.meta@ == files::meta_of(file)
    &&& {
        let here = if path.len() == 0 {
            "/"@
        } else {
            path
        };
        &&& text::opt_text(card.preview) == if "image/"@.is_prefix_of(file.mime@) {
            Some(here + "?thumb=1"@)
        } else {
            None
        }
        &&& text::opt_text(card.download) == if link.can_download {
            Some(here + "?dl=1"@)
        } else {
            None
        }
    }
}

/// A shared file's card: its name, size and type, an image preview off the
/// public thumbnail route, and the download while the link allows it.
pub fn file_card(link: &ShareLink, file: &File, path: &str) -> (r: FileCard)
    ensures
        file_card_shows(
            r,
            *link,
            *file,
            path@,
        ),
{
    let here = current_path(path);
    let preview = if text::starts_with(&file.mime, "image/") {
        Some(text::glue(&here, "?thumb=1"))
    } else {
        None
    };
    let download = if link.can_download {
        Some(text::glue(&here, "?dl=1"))
    } else {
        None
    };
    FileCard { name: file.name.clone(), meta: files::meta_line(file), preview, download }
}

/// One row of a public folder listing, before it is shown.
#[derive(Debug)]
pub enum PublicEntry {
    Folder(Folder),
    File(File),
}

/// A row's name.
pub open spec fn entry_name(entry: PublicEntry) -> Seq<char> {
    match entry {
        PublicEntry::Folder(folder) => folder.name@,
        PublicEntry::File(file) => file.name@,
    }
}

impl PublicEntry {
    pub fn name(&self) -> (r: &str)
        ensures
            r@ == entry_name(*self),
    {
        match self {
            PublicEntry::Folder(folder) => folder.name.as_str(),
            PublicEntry::File(file) => file.name.as_str(),
        }
    }
}

/// A row's place: by its name, whatever its case. Cases are folded by `lower`.
pub open spec fn public_rank(
    entry: PublicEntry,
    lower: spec_fn(Seq<char>) -> Seq<char>,
) -> order::RankModel {
    order::RankModel {
        first: order::MeasureModel::Text(lower(entry_name(entry))),
        second: Seq::empty(),
    }
}

/// The rows of a listing, folders first, before they are put in order.
pub open spec fn public_entries(listing: Listing) -> Seq<PublicEntry> {
    listing.folders@.map_values(|f: Folder| PublicEntry::Folder(f)) + listing.files@.map_values(
        |f: File| PublicEntry::File(f),
    )
}

/// The places of those rows.
pub open spec fn public_ranks(
    listing: Listing,
    lower: spec_fn(Seq<char>) -> Seq<char>,
) -> Seq<order::RankModel> {
    public_entries(listing).map_values(|e: PublicEntry| public_rank(e, lower))
}

/// The rows of a public listing: folders and files in one list, by name.
pub fn public_rows(listing: Listing) -> (r: Vec<PublicEntry>)
    ensures
        order::is_arranged(
            public_entries(listing),
            public_ranks(listing, text::folding()),
            false,
            r@,
        ),
        model::plain_listing(listing) ==> order::is_arranged(
            public_entries(listing),
            public_ranks(listing, text::ascii_folding()),
            false,
            r@,
        ),
{
    let ghost all = public_entries(listing);
    let ghost folders0 = listing.folders@;
    let ghost files0 = listing.files@;
    let Listing { folders, files } = listing;
    let mut folders = folders;
    let mut files = files;
    let mut rows: Vec<PublicEntry> = Vec::new();
    let mut ranks: Vec<Rank> = Vec::new();
    let ghost mut k: int = 0;
    while folders.len() > 0
        invariant
            0 <= k,
            k + folders.len() == folders0.len(),
            folders@ == folders0.skip(k as int),
            all == folders0.map_values(|f: Folder| PublicEntry::Folder(f)) + files0.map_values(
                |f: File| PublicEntry::File(f),
            ),
            rows@ == all.take(k as int),
            ranks.len() == k,
            forall|i: int|
                0 <= i < k ==> (#[trigger] ranks@[i])@ == public_rank(all[i], text::folding()),
            forall|i: int|
                0 <= i < k && text::all_ascii(entry_name(all[i])) ==> (#[trigger] ranks@[i])@
                    == public_rank(all[i], text::ascii_folding()),
        decreases folders.len(),
    {
        let folder = folders.remove(0);
        assert(all[k as int] == PublicEntry::Folder(folder));
        let rank = Rank {
            first: Measure::Text(folder.name.to_lowercase()),
            second: String::new(),
        };
        assert(rank@.second =~= Seq::<char>::empty());
        ranks.push(rank);
        rows.push(PublicEntry::Folder(folder));
        proof {
            assert(folders@ =~= folders0.skip(k + 1));
            assert(rows@ =~= all.take(k + 1));
            k = k + 1;
        }
    }
    let ghost mut m: int = 0;
    while files.len() > 0
        invariant
            0 <= m,
            m + files.len() == files0.len(),
            files@ == files0.skip(m as int),
            all == folders0.map_values(|f: Folder| PublicEntry::Folder(f)) + files0.map_values(
                |f: File| PublicEntry::File(f),
            ),
            rows@ == all.take(folders0.len() + m),
            ranks.len() == folders0.len() + m,
            forall|i: int|
                0 <= i < ranks.len() ==> (#[trigger] ranks@[i])@ == public_rank(
                    all[i],
                    text::folding(),
                ),
            forall|i: int|
                0 <= i < ranks.len() && text::all_ascii(entry_name(all[i])) ==> (
                #[trigger] ranks@[i])@ == public_rank(all[i], text::ascii_folding()),
        decreases files.len(),
    {
        let file = files.remove(0);
        assert(all[folders0.len() + m] == PublicEntry::File(file));
        let rank = Rank { first: Measure::Text(file.name.to_lowercase()), second: String::new() };
        assert(rank@.second =~= Seq::<char>::empty());
        ranks.push(rank);
        rows.push(PublicEntry::File(file));
        proof {
            assert(files@ =~= files0.skip(m + 1));
            assert(rows@ =~= all.take(folders0.len() + m + 1));
            m = m + 1;
        }
    }
    proof {
        assert(rows@ =~= all);
        assert(order::models(ranks@) =~= public_ranks(listing, text::folding()));
        if model::plain_listing(listing) {
            assert forall|i: int| 0 <= i < all.len() implies text::all_ascii(
                entry_name(#[trigger] all[i]),
            ) by {
                if i < folders0.len() {
                    assert(all[i] == PublicEntry::Folder(folders0[i]));
                } else {
                    assert(all[i] == PublicEntry::File(files0[i - folders0.len()]));
                }
            }
            assert(order::models(ranks@) =~= public_ranks(listing, text::ascii_folding()));
        }
    }
    order::arrange(rows, &ranks, false)
}

/// One row of a public folder card.
#[derive(Debug)]
pub struct PublicRow {
    pub kind: ShareKind,
    pub name: String,
    /// Where a folder leads; a file's name leads nowhere.
    pub href: Option<String>,
    pub chip: Chip,
    /// A file's size in words.
    pub size: Option<String>,
    /// The download of a file, while the link allows it.
    pub download: Option<String>,
}

/// The glyph a folder wears.
pub open spec fn folder_glyph() -> media::ChipModel {
    media::ChipModel::Glyph("folder"@, "▤"@)
}

/// The address of a file through a shared folder.
pub open spec fn through(base: Seq<char>, at: Seq<char>, file: Seq<char>, flag: Seq<char>) -> Seq<
    char,
> {
    base + "?folder="@ + at + "&file="@ + file + flag
}

/// Whether a row shows an entry of the listing at `at`.
pub open spec fn public_row_of(
    row: PublicRow,
    entry: PublicEntry,
    base: Seq<char>,
    at: Seq<char>,
    can_download: bool,
) -> bool {
    match entry {
        PublicEntry::Folder(folder) => {
            &&& row.kind == ShareKind::Folder
            &&& row.name@ == folder.name@
            &&& text::opt_text(row.href) == Some(base + "?folder="@ + folder.id@)
            &&& row.chip@ == folder_glyph()
            &&& row.size is None
            &&& row.download is None
        },
        PublicEntry::File(file) => {
            &&& row.kind == ShareKind::File
            &&& row.name@ == file.name@
            &&& row.href is None
            &&& row.chip@ == media::chip_at(file, through(base, at, file.id@, "&thumb=1"@))
            &&& text::opt_text(row.size) == Some(
                sizes::size_text(file.size_bytes as nat, sizes::binary_units()),
            )
            &&& text::opt_text(row.download) == if can_download {
                Some(through(base, at, file.id@, "&dl=1"@))
            } else {
                None
            }
        },
    }
}

fn through_address(base: &str, at: &str, file: &str, flag: &str) -> (r: String)
    ensures
        r@ == through(base@, at@, file@, flag@),
{
    let mut out = text::glue(base, "?folder=");
    out.append(at);
    out.append("&file=");
    out.append(file);
    out.append(flag);
    out
}

fn public_row(entry: &PublicEntry, base: &str, at: &str, can_download: bool) -> (r: PublicRow)
    ensures
        public_row_of(r, *entry, base@, at@, can_download),
{
    match entry {
        PublicEntry::Folder(folder) => {
            let mut href = text::glue(base, "?folder=");
            href.append(&folder.id);
            PublicRow {
                kind: ShareKind::Folder,
                name: folder.name.clone(),
                href: Some(href),
                chip: Chip::Glyph { class: "folder", glyph: "▤" },
                size: None,
                download: None,
            }
        },
        PublicEntry::File(file) => PublicRow {
            kind: ShareKind::File,
            name: file.name.clone(),
            href: None,
            chip: media::public_chip(&through_address(base, at, &file.id, "&thumb=1"), file),
            size: Some(sizes::human_bytes(file.size_bytes)),
            download: if can_download {
                Some(through_address(base, at, &file.id, "&dl=1"))
            } else {
                None
            },
        },
    }
}

/// A shared folder's card.
#[derive(Debug)]
pub struct FolderCard {
    pub name: String,
    pub rows: Vec<PublicRow>,
}

/// Whether the rows are those of a listing by name, under the address of a
/// link. Cases are folded by `lower`.
pub open spec fn rows_show(
    rows: Seq<PublicRow>,
    listing: Listing,
    base: Seq<char>,
    at: Seq<char>,
    can_download: bool,
    lower: spec_fn(Seq<char>) -> Seq<char>,
) -> bool {
    exists|shown: Seq<PublicEntry>| #[trigger]
        order::is_arranged(public_entries(listing), public_ranks(listing, lower), false, shown)
            && rows.len() == shown.len() && (forall|i: int|
            0 <= i < shown.len() ==> public_row_of(
                #[trigger] rows[i],
                shown[i],
                base,
                at,
                can_download,
            ))
}

/// A shared folder's listing: folders and files in one list, downloads gated on
/// the link's flag. Subfolders browse in place under the same token.
pub fn folder_card(link: &ShareLink, here: &Folder, listing: Listing, at: &str, token: &str) -> (r:
    FolderCard)
    ensures
        r.name@ == here.name@,
        rows_show(r.rows@, listing, "/s/"@ + token@, at@, link.can_download, text::folding()),
        model::plain_listing(listing) ==> rows_show(
            r.rows@,
            listing,
            "/s/"@ + token@,
            at@,
            link.can_download,
            text::ascii_folding(),
        ),
{
    let base = text::glue("/s/", token);
    let shown = public_rows(listing);
    let mut rows: Vec<PublicRow> = Vec::new();
    let mut i: usize = 0;
    while i < shown.len()
        invariant
            i <= shown.len(),
            rows.len() == i,
            base@ == "/s/"@ + token@,
            forall|k: int|
                0 <= k < i ==> public_row_of(
                    #[trigger] rows@[k],
                    shown@[k],
                    base@,
                    at@,
                    link.can_download,
                ),
        decreases shown.len() - i,
    {
        rows.push(public_row(&shown[i], &base, at, link.can_download));
        i += 1;
    }
    FolderCard { name: here.name.clone(), rows }
}

} // verus!
