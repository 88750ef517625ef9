//! Where a browser is sent back to, and what the address carries there.
//!
//! A form post is answered with a redirect. What the call refused with, or
//! that it saved, rides the query of that redirect, because a browser without
//! script reads nothing else. The token of a fresh link rides there too, see
//! [`crate::share::created_link`].
use crate::query;
use crate::refusal;
use crate::refusal::Refusal;
use crate::text;
use vstd::prelude::*;

verus! {

/// A character a call's name may be made of.
pub open spec fn is_call_char(c: char) -> bool {
    text::is_alnum(c) || c == '_' || c == '-'
}

/// The name of the call behind a path: the last piece of the path, with
/// anything that is not a plain word dropped.
pub open spec fn call_of(path: Seq<char>) -> Seq<char> {
    text::keep(text::split_on(path, '/').last(), |c: char| is_call_char(c))
}

/// What a query says the named call was refused with.
pub open spec fn refused_on(query: Option<Seq<char>>, call: Seq<char>) -> Option<Refusal> {
    match query {
        Some(q) => match (query::last_value_of(q, "on"@), query::last_value_of(q, "refusal"@)) {
            (Some(on), Some(code)) => if on == call {
                refusal::named_by(code)
            } else {
                None
            },
            _ => None,
        },
        None => None,
    }
}

/// A pair that tells what an earlier post did, or opens a one-shot picker.
pub open spec fn is_feedback(pair: Seq<char>) -> bool {
    ||| query::value_in(pair, "refusal"@) is Some
    ||| query::value_in(pair, "on"@) is Some
    ||| query::value_in(pair, "why"@) is Some
    ||| query::value_in(pair, "saved"@) is Some
    ||| query::value_in(pair, "move"@) is Some
}

/// The pairs of a query that are no feedback.
pub open spec fn lasting_pairs(query: Seq<char>) -> Seq<Seq<char>> {
    text::keep_parts(
        text::split_on(query, '&'),
        |pair: Seq<char>| pair.len() > 0 && !is_feedback(pair),
    )
}

/// A path with a query made of pairs.
pub open spec fn with_pairs(path: Seq<char>, pairs: Seq<Seq<char>>) -> Seq<char> {
    path + seq!['?'] + text::joined(pairs, seq!['&'])
}

/// An address without the refusal or the saved word an earlier post left on its
/// query. The token of an earlier mint stays until the next mint takes its place.
pub open spec fn settled(address: Seq<char>) -> Seq<char> {
    let (path, query) = query::path_and_query(address);
    if lasting_pairs(query).len() == 0 {
        path
    } else {
        with_pairs(path, lasting_pairs(query))
    }
}

/// Where a path or a query first starts in `s`; its length when neither does.
pub open spec fn path_start(s: Seq<char>) -> int {
    let slash = text::first_at(s, '/');
    let mark = text::first_at(s, '?');
    if slash <= mark {
        slash
    } else {
        mark
    }
}

/// An address without its scheme and its host.
pub open spec fn without_host(address: Seq<char>) -> Seq<char> {
    match text::find_from(address, "://"@, 0) {
        Some(at) => {
            let rest = address.skip(at + 3);
            if path_start(rest) < rest.len() {
                rest.skip(path_start(rest))
            } else {
                seq!['/']
            }
        },
        None => address,
    }
}

/// Whether an address is a plain absolute path of this host: a slash that no
/// second slash or backslash follows.
pub open spec fn is_local(address: Seq<char>) -> bool {
    address.len() > 0 && address[0] == '/' && !(address.len() > 1 && (address[1] == '/'
        || address[1] == '\\'))
}

/// The path and query of an address, or the front door for an address that is
/// another host in a path's clothes.
pub open spec fn local_part(address: Seq<char>) -> Seq<char> {
    let rest = without_host(address);
    if is_local(rest) {
        rest
    } else {
        seq!['/']
    }
}

/// The two pairs that carry a refusal.
pub open spec fn answer_pair(code: Seq<char>, call: Seq<char>) -> Seq<char> {
    "refusal="@ + code + "&on="@ + call
}

/// The pairs of a query that carry no refusal.
pub open spec fn other_pairs(query: Seq<char>) -> Seq<Seq<char>> {
    text::keep_parts(
        text::split_on(query, '&'),
        |pair: Seq<char>|
            pair.len() > 0 && !(query::value_in(pair, "refusal"@) is Some)
                && !(query::value_in(pair, "on"@) is Some),
    )
}

/// An address of this host with a refusal in its query.
pub open spec fn carried(address: Seq<char>, code: Seq<char>, call: Seq<char>) -> Option<Seq<char>> {
    if call.len() == 0 {
        None
    } else {
        let (path, query) = query::path_and_query(local_part(address));
        Some(with_pairs(path, other_pairs(query).push(answer_pair(code, call))))
    }
}

/// What joins a further pair to an address: `&` behind a query, else `?`.
pub open spec fn joint(address: Seq<char>) -> char {
    if text::free_of(address, '?') {
        '?'
    } else {
        '&'
    }
}

/// Which call a carried refusal belongs to: the last piece of the path, with
/// anything that is not a plain word dropped so it can only ever be compared,
/// never rendered.
pub fn call_id(path: &str) -> (r: String)
    ensures
        r@ == call_of(path@),
        forall|i: int| 0 <= i < r@.len() ==> is_call_char(#[trigger] r@[i]),
{
    let pieces = text::split(path, '/');
    proof {
        text::lemma_split_free(path@, '/');
    }
    let last = text::letters(&pieces[pieces.len() - 1]);
    assert(last@ == text::split_on(path@, '/').last());
    let ghost f = |c: char| is_call_char(c);
    let mut out = String::new();
    let mut i: usize = 0;
    while i < last.len()
        invariant
            i <= last.len(),
            f == |c: char| is_call_char(c),
            out@ == text::keep(last@.take(i as int), f),
        decreases last.len() - i,
    {
        let c = last[i];
        proof {
            assert(last@.take(i + 1).drop_last() == last@.take(i as int));
        }
        if (c >= 'a' && c <= 'z') || (c >= 'A' && c <= 'Z') || (c >= '0' && c <= '9') || c == '_'
            || c == '-' {
            out.push(c);
        }
        i += 1;
    }
    proof {
        assert(last@.take(i as int) == last@);
        text::lemma_keep(last@, f);
    }
    out
}

/// What a call refused with, read straight off the query. Nothing when the
/// query carries no refusal, one for another call, or a word that is no code.
pub fn refusal_of(query: Option<&str>, call: &str) -> (r: Option<Refusal>)
    ensures
        r == refused_on(text::opt_str(query), call@),
{
    let query = match query {
        Some(query) => query,
        None => return None,
    };
    let on = match query::last_query_value(query, "on") {
        Some(on) => on,
        None => return None,
    };
    let code = match query::last_query_value(query, "refusal") {
        Some(code) => code,
        None => return None,
    };
    if !text::same(&on, call) {
        return None;
    }
    Refusal::from_code(&code)
}

/// The page a form was posted from: the `Referer`, with the refusal or the saved
/// word any earlier post left on its query dropped, or `nowhere` when no
/// `Referer` came.
pub fn back_to(referer: Option<&str>, nowhere: &str) -> (r: String)
    ensures
        r@ == settled(match text::opt_str(referer) {
            Some(address) => address,
            None => nowhere@,
        }),
{
    let address: &str = match referer {
        Some(address) => address,
        None => nowhere,
    };
    let (path, query) = query::split_address(address);
    let parts = text::split(&query, '&');
    let ghost all = text::texts(parts@);
    let ghost f = |pair: Seq<char>| pair.len() > 0 && !is_feedback(pair);
    let mut pairs: Vec<String> = Vec::new();
    let mut i: usize = 0;
    while i < parts.len()
        invariant
            i <= parts.len(),
            all == text::texts(parts@),
            f == |pair: Seq<char>| pair.len() > 0 && !is_feedback(pair),
            text::texts(pairs@) == text::keep_parts(all.take(i as int), f),
        decreases parts.len() - i,
    {
        let pair = &parts[i];
        proof {
            assert(all.take(i + 1).drop_last() == all.take(i as int));
            assert(all.take(i + 1).last() == pair@);
        }
        let feedback = query::is_named(pair, "refusal") || query::is_named(pair, "on")
            || query::is_named(pair, "why") || query::is_named(pair, "saved") || query::is_named(
            pair,
            "move",
        );
        if pair.as_str().unicode_len() > 0 && !feedback {
            let ghost before = pairs@;
            pairs.push(pair.clone());
            assert(text::texts(pairs@) =~= text::texts(before).push(pair@));
        }
        i += 1;
    }
    proof {
        assert(all.take(i as int) == all);
        assert(text::texts(pairs@).len() == pairs@.len());
        reveal_strlit("&");
        assert("&"@ =~= seq!['&']);
    }
    if pairs.len() == 0 {
        return path;
    }
    let mut out = path;
    out.push('?');
    proof {
        assert(out@ =~= query::path_and_query(address@).0 + seq!['?']);
    }
    out.append(&text::join(&pairs, "&"));
    out
}

/// The path and query of `location`, with scheme and authority dropped. A
/// protocol-relative address is another host wearing a path's clothes, and a
/// browser reads a backslash there as a slash, so both are answered with the
/// front door rather than trusted.
pub fn same_origin(location: &str) -> (r: String)
    ensures
        r@ == local_part(location@),
{
    let v = text::letters(location);
    let mut from: usize = 0;
    let mut bare = false;
    proof {
        reveal_strlit("://");
    }
    if let Some(at) = text::find_in(&v, "://") {
        from = at + 3;
        let ghost rest = v@.skip(from as int);
        while from < v.len() && v[from] != '/' && v[from] != '?'
            invariant
                at + 3 <= from <= v.len(),
                rest == v@.skip(at + 3),
                forall|k: int| at + 3 <= k < from ==> v@[k] != '/' && v@[k] != '?',
            decreases v.len() - from,
        {
            from += 1;
        }
        bare = from == v.len();
        proof {
            let k = from - (at + 3);
            text::lemma_first_at(rest, '/');
            text::lemma_first_at(rest, '?');
            if text::first_at(rest, '/') < k {
                assert(rest[text::first_at(rest, '/')] == v@[at + 3 + text::first_at(rest, '/')]);
            }
            if text::first_at(rest, '?') < k {
                assert(rest[text::first_at(rest, '?')] == v@[at + 3 + text::first_at(rest, '?')]);
            }
            if k < rest.len() {
                assert(rest[k] == v@[from as int]);
                if rest[k] == '/' {
                    text::lemma_first_at_is(rest, '/', k);
                } else {
                    text::lemma_first_at_is(rest, '?', k);
                }
            }
            assert(path_start(rest) == k);
            assert(rest.skip(k) =~= v@.skip(from as int));
        }
    } else {
        assert(v@.skip(0) == v@);
    }
    proof {
        reveal_strlit("/");
        assert("/"@ =~= seq!['/']);
        if bare {
            assert(without_host(location@) == seq!['/']);
        } else {
            assert(without_host(location@) == v@.skip(from as int));
        }
    }
    if bare || from >= v.len() || v[from] != '/' {
        return "/".to_owned();
    }
    if v.len() - from > 1 && (v[from + 1] == '/' || v[from + 1] == '\\') {
        return "/".to_owned();
    }
    assert(v@.skip(from as int) =~= v@.subrange(from as int, v@.len() as int));
    text::text_of(&v, from, v.len())
}

/// `location` with the refusal in its query: the pairs it had are kept, the
/// pair from any earlier refusal is dropped rather than stacked on top of.
/// Nothing for a call without a name.
pub fn carrying(location: &str, code: &str, called: &str) -> (r: Option<String>)
    ensures
        text::opt_text(r) == carried(location@, code@, called@),
{
    if called.unicode_len() == 0 {
        return None;
    }
    let here = same_origin(location);
    let (path, query) = query::split_address(&here);
    let parts = text::split(&query, '&');
    let ghost all = text::texts(parts@);
    let ghost f = |pair: Seq<char>|
        pair.len() > 0 && !(query::value_in(pair, "refusal"@) is Some) && !(query::value_in(
            pair,
            "on"@,
        ) is Some);
    let mut pairs: Vec<String> = Vec::new();
    let mut i: usize = 0;
    while i < parts.len()
        invariant
            i <= parts.len(),
            all == text::texts(parts@),
            f == |pair: Seq<char>|
                pair.len() > 0 && !(query::value_in(pair, "refusal"@) is Some) && !(
                query::value_in(pair, "on"@) is Some),
            text::texts(pairs@) == text::keep_parts(all.take(i as int), f),
        decreases parts.len() - i,
    {
        let pair = &parts[i];
        proof {
            assert(all.take(i + 1).drop_last() == all.take(i as int));
            assert(all.take(i + 1).last() == pair@);
        }
        if pair.as_str().unicode_len() > 0 && !query::is_named(pair, "refusal")
            && !query::is_named(pair, "on") {
            let ghost before = pairs@;
            pairs.push(pair.clone());
            assert(text::texts(pairs@) =~= text::texts(before).push(pair@));
        }
        i += 1;
    }
    let mut answer = "refusal=".to_owned();
    answer.append(code);
    answer.append("&on=");
    answer.append(called);
    let ghost before = pairs@;
    pairs.push(answer);
    proof {
        assert(all.take(i as int) == all);
        assert(text::texts(pairs@) =~= text::texts(before).push(answer_pair(code@, called@)));
        reveal_strlit("&");
        assert("&"@ =~= seq!['&']);
    }
    let mut out = path;
    out.push('?');
    proof {
        assert(out@ =~= query::path_and_query(here@).0 + seq!['?']);
    }
    out.append(&text::join(&pairs, "&"));
    Some(out)
}

/// Where a settled address sends the browser once a call is answered: with the
/// refusal on its query, or, where the page shows a chip for it, with the word
/// that the call saved.
pub open spec fn answered_at(
    back: Seq<char>,
    call: Seq<char>,
    refusal: Option<Refusal>,
    chip: bool,
) -> Seq<char> {
    match refusal {
        Some(refusal) => back + seq![joint(back)] + answer_pair(refusal::code_of(refusal), call),
        None => if chip {
            back + seq![joint(back)] + ("saved="@ + call)
        } else {
            back
        },
    }
}

/// The address that answers a call, see [`answered_at`].
pub fn answered(back: &str, call: &str, refusal: Option<Refusal>, chip: bool) -> (r: String)
    ensures
        r@ == answered_at(back@, call@, refusal, chip),
{
    let separator = if text::has_char(back, '?') {
        '&'
    } else {
        '?'
    };
    let mut out = back.to_owned();
    match refusal {
        Some(refusal) => {
            out.push(separator);
            assert(out@ =~= back@ + seq![joint(back@)]);
            let mut pair = "refusal=".to_owned();
            pair.append(refusal.code());
            pair.append("&on=");
            pair.append(call);
            out.append(&pair);
        },
        None => {
            if chip {
                out.push(separator);
                assert(out@ =~= back@ + seq![joint(back@)]);
                out.append(&text::glue("saved=", call));
            }
        },
    }
    out
}

/// The media types a browser that wants a page back asks for.
pub open spec fn wants_page(accept: Option<Seq<char>>) -> bool {
    match accept {
        Some(value) => text::holds_text(value, "text/html"@),
        None => false,
    }
}

/// What the body of a redirect says.
#[derive(Clone, Copy, Debug, PartialEq, Eq, Structural)]
pub enum RedirectBody {
    /// It could not be read, or was too large to be an answer.
    Unreadable,
    /// It named a refusal.
    Refused(Refusal),
    /// It named none: an empty body, a clean answer, or no answer at all.
    Clean,
}

/// The `Location` a redirect is sent on with, where it changes: a form post
/// from a page gets the refusal of its body on the query, and never leaves
/// this host.
pub open spec fn relocated(
    accept: Option<Seq<char>>,
    has_referer: bool,
    status: int,
    path: Seq<char>,
    location: Option<Seq<char>>,
    body: RedirectBody,
) -> Option<Seq<char>> {
    match location {
        Some(location) => if !wants_page(accept) || !has_referer || status != 303 {
            None
        } else {
            match body {
                RedirectBody::Unreadable => None,
                RedirectBody::Refused(refusal) => carried(
                    location,
                    refusal::code_of(refusal),
                    call_of(path),
                ),
                RedirectBody::Clean => Some(local_part(location)),
            }
        },
        None => None,
    }
}

/// Puts a refusal on the redirect a browser without script follows: the new
/// `Location`, or nothing where the response goes out as it is.
pub fn carry_refusal_on_redirect(
    accept: Option<&str>,
    has_referer: bool,
    status: u16,
    path: &str,
    location: Option<&str>,
    body: RedirectBody,
) -> (r: Option<String>)
    ensures
        text::opt_text(r) == relocated(
            text::opt_str(accept),
            has_referer,
            status as int,
            path@,
            text::opt_str(location),
            body,
        ),
{
    let page = match accept {
        Some(value) => text::contains(value, "text/html"),
        None => false,
    };
    let location = match location {
        Some(location) => location,
        None => return None,
    };
    if !page || !has_referer || status != 303 {
        return None;
    }
    match body {
        RedirectBody::Unreadable => None,
        RedirectBody::Refused(refusal) => carrying(location, refusal.code(), &call_id(path)),
        RedirectBody::Clean => Some(same_origin(location)),
    }
}

/// Whether a text can stand in a header: no control character but a tab.
pub open spec fn fits_header(s: Seq<char>) -> bool {
    forall|i: int|
        0 <= i < s.len() ==> {
            let c = #[trigger] s[i];
            (c as u32 >= 32 && c as u32 != 127) || c == '\t'
        }
}

/// Whether a text can stand in a header.
pub fn is_header_text(value: &str) -> (r: bool)
    ensures
        r == fits_header(value@),
{
    let v = text::letters(value);
    let mut i: usize = 0;
    while i < v.len()
        invariant
            i <= v.len(),
            v@ == value@,
            forall|k: int|
                0 <= k < i ==> {
                    let c = #[trigger] v@[k];
                    (c as u32 >= 32 && c as u32 != 127) || c == '\t'
                },
        decreases v.len() - i,
    {
        let c = v[i];
        if !((c as u32 >= 32 && c as u32 != 127) || c == '\t') {
            assert(!fits_header(value@)) by {
                assert(value@[i as int] == c);
            }
            return false;
        }
        i += 1;
    }
    true
}

/// A text, where a header can carry it, else the stand-in.
pub fn header_or<'a>(value: &'a str, fallback: &'a str) -> (r: &'a str)
    ensures
        r@ == if fits_header(value@) {
            value@
        } else {
            fallback@
        },
{
    if is_header_text(value) {
        value
    } else {
        fallback
    }
}

/// Whatever the address, its local part stays on this host.
pub proof fn law_local_part_is_local(address: Seq<char>)
    ensures
        is_local(local_part(address)),
{
}

/// A call's name and a refusal's code hold nothing a query gives a meaning to,
/// so the pair that carries them is read back as it was written.
proof fn lemma_answer_pair(refusal: Refusal, call: Seq<char>)
    requires
        text::free_of(call, '&'),
    ensures
        text::split_on(answer_pair(refusal::code_of(refusal), call), '&') == seq![
            "refusal="@ + refusal::code_of(refusal),
            "on="@ + call,
        ],
        query::value_in("refusal="@ + refusal::code_of(refusal), "refusal"@) == Some(
            refusal::code_of(refusal),
        ),
        query::value_in("refusal="@ + refusal::code_of(refusal), "on"@) is None,
        query::value_in("on="@ + call, "on"@) == Some(call),
        query::value_in("on="@ + call, "refusal"@) is None,
{
    let code = refusal::code_of(refusal);
    refusal::lemma_code_plain(refusal);
    reveal_strlit("refusal=");
    reveal_strlit("refusal");
    reveal_strlit("&on=");
    reveal_strlit("on=");
    reveal_strlit("on");
    assert("refusal="@ =~= "refusal"@ + seq!['=']);
    assert("on="@ =~= "on"@ + seq!['=']);
    assert("refusal"@ =~= seq!['r', 'e', 'f', 'u', 's', 'a', 'l']);
    assert("&on="@ =~= seq!['&'] + "on="@);
    let first = "refusal="@ + code;
    let second = "on="@ + call;
    assert(answer_pair(code, call) =~= first + seq!['&'] + second);
    assert(text::free_of(first, '&'));
    assert(text::free_of(second, '&'));
    text::lemma_split_front(first, '&', second);
    text::lemma_split_none(second, '&');
    assert(seq![first] + seq![second] =~= seq![first, second]);
    assert(first =~= "refusal"@ + seq!['='] + code);
    assert(second =~= "on"@ + seq!['='] + call);
    text::lemma_split_front("refusal"@, '=', code);
    text::lemma_split_front("on"@, '=', call);
    assert("refusal"@.len() != "on"@.len());
}

/// The queries of an address, when pairs are joined behind a path.
pub proof fn lemma_with_pairs(path: Seq<char>, pairs: Seq<Seq<char>>)
    requires
        text::free_of(path, '?'),
    ensures
        query::path_and_query(with_pairs(path, pairs)) == (path, text::joined(pairs, seq!['&'])),
{
    text::lemma_split_front(path, '?', text::joined(pairs, seq!['&']));
}

proof fn lemma_path_is_bare(address: Seq<char>)
    ensures
        text::free_of(query::path_and_query(address).0, '?'),
{
    text::lemma_first_at(address, '?');
}

/// What [`carrying`] puts on an address, [`refusal_of`] reads off it: the call
/// is told the refusal, whatever the address said before. The address stays on
/// this host.
pub proof fn law_carried_refusal_is_read_back(
    address: Seq<char>,
    refusal: Refusal,
    call: Seq<char>,
)
    requires
        call.len() > 0,
        text::free_of(call, '&'),
    ensures
        match carried(address, refusal::code_of(refusal), call) {
            Some(there) => {
                &&& refused_on(Some(query::path_and_query(there).1), call) == Some(refusal)
                &&& is_local(there)
            },
            None => false,
        },
{
    let code = refusal::code_of(refusal);
    let local = local_part(address);
    let (path, query) = query::path_and_query(local);
    let f = |pair: Seq<char>|
        pair.len() > 0 && !(query::value_in(pair, "refusal"@) is Some) && !(query::value_in(
            pair,
            "on"@,
        ) is Some);
    let kept = other_pairs(query);
    let pairs = kept.push(answer_pair(code, call));
    let there = with_pairs(path, pairs);
    lemma_path_is_bare(local);
    lemma_with_pairs(path, pairs);
    let q = text::joined(pairs, seq!['&']);
    let tail = answer_pair(code, call);
    lemma_answer_pair(refusal, call);
    text::lemma_keep_parts(text::split_on(query, '&'), f);
    text::lemma_split_free(query, '&');
    let read = text::split_on(q, '&');
    if kept.len() == 0 {
        assert(pairs =~= seq![tail]);
        assert(q == tail);
        assert(kept + text::split_on(tail, '&') =~= text::split_on(tail, '&'));
    } else {
        assert(pairs.drop_last() =~= kept);
        let head = text::joined(kept, seq!['&']);
        assert(q == head + seq!['&'] + tail);
        assert forall|i: int| 0 <= i < kept.len() implies text::free_of(#[trigger] kept[i], '&') by {
            let pieces = text::split_on(query, '&');
            assert(pieces.contains(kept[i]));
            let k = choose|k: int| 0 <= k < pieces.len() && pieces[k] == kept[i];
            assert(text::free_of(pieces[k], '&'));
        }
        text::lemma_split_joined(kept, '&');
        text::lemma_split_concat(head, '&', tail);
    }
    assert(read == kept + seq!["refusal="@ + code, "on="@ + call]);
    let on = |pair: Seq<char>| query::value_in(pair, "on"@);
    let refused = |pair: Seq<char>| query::value_in(pair, "refusal"@);
    assert(read.last() == "on="@ + call);
    assert(query::last_answer(read, on) == Some(call));
    assert(query::last_answer(read, refused) == Some(code)) by {
        assert(refused(read.last()) is None);
        let front = read.drop_last();
        assert(front.last() == "refusal="@ + code);
        assert(query::last_answer(read, refused) == query::last_answer(front, refused));
        assert(query::last_answer(front, refused) == refused(front.last()));
    }
    refusal::law_code_round_trip(refusal);
    // Still on this host.
    text::lemma_first_at(local, '?');
    assert(is_local(local));
    assert(path.len() > 0 && path[0] == '/');
    assert(there[0] == '/');
    if path.len() > 1 {
        assert(there[1] == local[1]);
    } else {
        assert(there[1] == '?');
    }
}

/// What is left of an address once pairs are dropped from its query: the path,
/// and behind it the pairs that were kept, each read back as it stood.
pub proof fn lemma_kept_pairs(address: Seq<char>, f: spec_fn(Seq<char>) -> bool)
    ensures
        ({
            let (path, query) = query::path_and_query(address);
            let kept = text::keep_parts(text::split_on(query, '&'), f);
            &&& text::free_of(path, '?')
            &&& forall|i: int| 0 <= i < kept.len() ==> f(#[trigger] kept[i])
            &&& kept.len() > 0 ==> {
                &&& !text::free_of(with_pairs(path, kept), '?')
                &&& text::split_on(query::path_and_query(with_pairs(path, kept)).1, '&') == kept
            }
        }),
{
    let (path, query) = query::path_and_query(address);
    let all = text::split_on(query, '&');
    let kept = text::keep_parts(all, f);
    lemma_path_is_bare(address);
    text::lemma_keep_parts(all, f);
    text::lemma_split_free(query, '&');
    assert forall|i: int| 0 <= i < kept.len() implies text::free_of(#[trigger] kept[i], '&') by {
        assert(all.contains(kept[i]));
        let k = choose|k: int| 0 <= k < all.len() && all[k] == kept[i];
        assert(text::free_of(all[k], '&'));
    }
    if kept.len() > 0 {
        lemma_with_pairs(path, kept);
        text::lemma_split_joined(kept, '&');
        assert(with_pairs(path, kept)[path.len() as int] == '?');
    }
}

/// A pair joined to an address stands behind the pairs the address has.
pub proof fn lemma_pair_behind(back: Seq<char>, pair: Seq<char>)
    ensures
        text::split_on(query::path_and_query(back + seq![joint(back)] + pair).1, '&') == (
        if text::free_of(back, '?') {
            Seq::empty()
        } else {
            text::split_on(query::path_and_query(back).1, '&')
        }) + text::split_on(pair, '&'),
{
    let there = back + seq![joint(back)] + pair;
    let (path, before) = query::path_and_query(back);
    lemma_path_is_bare(back);
    text::lemma_first_at(back, '?');
    if text::free_of(back, '?') {
        text::lemma_split_front(back, '?', pair);
        assert(Seq::<Seq<char>>::empty() + text::split_on(pair, '&') =~= text::split_on(pair, '&'));
    } else {
        if text::first_at(back, '?') == back.len() {
            assert(text::free_of(back, '?'));
        }
        assert(back =~= path + seq!['?'] + before);
        assert(there =~= path + seq!['?'] + (before + seq!['&'] + pair));
        text::lemma_split_front(path, '?', before + seq!['&'] + pair);
        text::lemma_split_concat(before, '&', pair);
    }
}

/// No refusal and no saved word of an earlier post survives the way back: a
/// settled address holds no feedback pair, so no call finds a refusal on it; and
/// settling it again changes nothing.
pub proof fn law_settled_address_tells_nothing(address: Seq<char>, call: Seq<char>)
    ensures
        ({
            let query = query::path_and_query(settled(address)).1;
            &&& forall|i: int|
                0 <= i < text::split_on(query, '&').len() ==> !is_feedback(
                    #[trigger] text::split_on(query, '&')[i],
                )
            &&& refused_on(Some(query), call) is None
        }),
        settled(settled(address)) == settled(address),
{
    let (path, query) = query::path_and_query(address);
    let f = |pair: Seq<char>| pair.len() > 0 && !is_feedback(pair);
    let kept = lasting_pairs(query);
    lemma_path_is_bare(address);
    text::lemma_keep_parts(text::split_on(query, '&'), f);
    text::lemma_split_free(query, '&');
    let back = settled(address);
    let q = query::path_and_query(back).1;
    let pieces = text::split_on(q, '&');
    let on = |pair: Seq<char>| query::value_in(pair, "on"@);
    if kept.len() == 0 {
        text::lemma_split_none(path, '?');
        assert(q =~= Seq::<char>::empty());
        assert(text::free_of(q, '&'));
        text::lemma_split_none(q, '&');
        assert(pieces =~= seq![q]);
        assert(text::free_of(q, '='));
        text::lemma_split_none(q, '=');
        assert(!is_feedback(q));
        assert(pieces.drop_last() =~= Seq::<Seq<char>>::empty());
        assert(text::keep_parts(pieces.drop_last(), f) =~= Seq::<Seq<char>>::empty());
        assert(!f(pieces.last()));
        assert(lasting_pairs(q).len() == 0);
    } else {
        lemma_with_pairs(path, kept);
        assert forall|i: int| 0 <= i < kept.len() implies text::free_of(#[trigger] kept[i], '&') by {
            let all = text::split_on(query, '&');
            assert(all.contains(kept[i]));
            let k = choose|k: int| 0 <= k < all.len() && all[k] == kept[i];
            assert(text::free_of(all[k], '&'));
        }
        text::lemma_split_joined(kept, '&');
        assert(pieces == kept);
        assert forall|i: int| 0 <= i < kept.len() implies f(#[trigger] kept[i]) by {
            assert(f(text::keep_parts(text::split_on(query, '&'), f)[i]));
        }
        text::lemma_keep_all(kept, f);
    }
    assert forall|i: int| 0 <= i < pieces.len() implies !is_feedback(#[trigger] pieces[i]) by {
        if kept.len() > 0 {
            assert(f(kept[i]));
        }
    }
    assert forall|i: int| 0 <= i < pieces.len() implies on(#[trigger] pieces[i]) is None by {
        assert(!is_feedback(pieces[i]));
    }
    query::lemma_no_answer(pieces, on);
}

/// A refusal put on a settled address is the one its page reads, by the first
/// pair and by the last, and the page reads no saved word beside it.
pub proof fn law_answer_is_read_back(address: Seq<char>, call: Seq<char>, refusal: Refusal, chip: bool)
    requires
        text::free_of(call, '&'),
    ensures
        ({
            let there = answered_at(settled(address), call, Some(refusal), chip);
            let query = query::path_and_query(there).1;
            &&& query::value_of(query, "refusal"@) == Some(refusal::code_of(refusal))
            &&& query::value_of(query, "on"@) == Some(call)
            &&& query::value_of(query, "saved"@) is None
            &&& refused_on(Some(query), call) == Some(refusal)
        }),
{
    let back = settled(address);
    let code = refusal::code_of(refusal);
    let pair = answer_pair(code, call);
    let query = query::path_and_query(answered_at(back, call, Some(refusal), chip)).1;
    law_settled_address_tells_nothing(address, call);
    lemma_answer_pair(refusal, call);
    lemma_pair_behind(back, pair);
    let old = text::split_on(query::path_and_query(back).1, '&');
    let fresh = seq!["refusal="@ + code, "on="@ + call];
    let quiet = if text::free_of(back, '?') {
        Seq::<Seq<char>>::empty()
    } else {
        old
    };
    let read = text::split_on(query, '&');
    assert(read == quiet + fresh);
    let on = |pair: Seq<char>| query::value_in(pair, "on"@);
    let refused = |pair: Seq<char>| query::value_in(pair, "refusal"@);
    let saved = |pair: Seq<char>| query::value_in(pair, "saved"@);
    assert forall|i: int| 0 <= i < quiet.len() implies on(#[trigger] quiet[i]) is None && refused(
        quiet[i],
    ) is None && saved(quiet[i]) is None by {
        assert(!is_feedback(old[i]));
    }
    query::lemma_answer_behind(quiet, fresh, on);
    query::lemma_answer_behind(quiet, fresh, refused);
    query::lemma_answer_behind(quiet, fresh, saved);
    assert(fresh.drop_first() =~= seq!["on="@ + call]);
    assert(fresh.drop_last() =~= seq!["refusal="@ + code]);
    assert(on(fresh[0]) is None);
    assert(refused(fresh[1]) is None);
    assert(query::first_answer(fresh.drop_first(), on) == on(fresh[1]));
    assert(query::first_answer(fresh, on) == Some(call));
    assert(query::last_answer(fresh, on) == Some(call));
    assert(query::first_answer(fresh, refused) == Some(code));
    assert(query::last_answer(fresh.drop_last(), refused) == Some(code));
    assert(saved(fresh[0]) is None && saved(fresh[1]) is None) by {
        reveal_strlit("saved");
        reveal_strlit("refusal");
        reveal_strlit("on");
        assert("saved"@.len() == 5 && "refusal"@.len() == 7 && "on"@.len() == 2);
    }
    query::lemma_no_answer(fresh, saved);
    refusal::law_code_round_trip(refusal);
}

/// The word that a call saved, put on a settled address, is the one its page
/// reads, and the page reads no refusal beside it.
pub proof fn law_saved_call_is_read_back(address: Seq<char>, call: Seq<char>)
    requires
        text::free_of(call, '&'),
    ensures
        ({
            let there = answered_at(settled(address), call, None, true);
            let query = query::path_and_query(there).1;
            &&& query::value_of(query, "saved"@) == Some(call)
            &&& query::value_of(query, "refusal"@) is None
            &&& query::value_of(query, "on"@) is None
        }),
{
    let back = settled(address);
    let pair = "saved="@ + call;
    let query = query::path_and_query(answered_at(back, call, None, true)).1;
    law_settled_address_tells_nothing(address, call);
    lemma_pair_behind(back, pair);
    reveal_strlit("saved=");
    reveal_strlit("saved");
    reveal_strlit("refusal");
    reveal_strlit("on");
    assert("saved="@ =~= "saved"@ + seq!['=']);
    query::lemma_pair("saved="@, "saved"@, call);
    assert("saved"@.len() == 5 && "refusal"@.len() == 7 && "on"@.len() == 2);
    let old = text::split_on(query::path_and_query(back).1, '&');
    let fresh = seq![pair];
    let quiet = if text::free_of(back, '?') {
        Seq::<Seq<char>>::empty()
    } else {
        old
    };
    assert(text::split_on(query, '&') == quiet + fresh);
    let on = |pair: Seq<char>| query::value_in(pair, "on"@);
    let refused = |pair: Seq<char>| query::value_in(pair, "refusal"@);
    let saved = |pair: Seq<char>| query::value_in(pair, "saved"@);
    assert forall|i: int| 0 <= i < quiet.len() implies on(#[trigger] quiet[i]) is None && refused(
        quiet[i],
    ) is None && saved(quiet[i]) is None by {
        assert(!is_feedback(old[i]));
    }
    query::lemma_answer_behind(quiet, fresh, on);
    query::lemma_answer_behind(quiet, fresh, refused);
    query::lemma_answer_behind(quiet, fresh, saved);
    query::lemma_no_answer(fresh, on);
    query::lemma_no_answer(fresh, refused);
    assert(query::first_answer(fresh, saved) == saved(fresh[0]));
}

} // verus!
