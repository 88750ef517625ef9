//! The query of an address: pairs with `&` between them, each a name and a
//! value with `=` between them.
use crate::text;
use vstd::prelude::*;

verus! {

/// What the first part that `f` answers for is answered.
pub open spec fn first_answer(
    parts: Seq<Seq<char>>,
    f: spec_fn(Seq<char>) -> Option<Seq<char>>,
) -> Option<Seq<char>>
    decreases parts.len(),
{
    if parts.len() == 0 {
        None
    } else if f(parts[0]) is Some {
        f(parts[0])
    } else {
        first_answer(parts.drop_first(), f)
    }
}

/// What the last part that `f` answers for is answered.
pub open spec fn last_answer(
    parts: Seq<Seq<char>>,
    f: spec_fn(Seq<char>) -> Option<Seq<char>>,
) -> Option<Seq<char>>
    decreases parts.len(),
{
    if parts.len() == 0 {
        None
    } else if f(parts.last()) is Some {
        f(parts.last())
    } else {
        last_answer(parts.drop_last(), f)
    }
}

/// The value of a pair with that name.
pub open spec fn value_in(pair: Seq<char>, name: Seq<char>) -> Option<Seq<char>> {
    match text::cut_at(pair, '=') {
        Some((n, v)) => if n == name {
            Some(v)
        } else {
            None
        },
        None => None,
    }
}

/// The value of the first pair with that name.
pub open spec fn value_of(query: Seq<char>, name: Seq<char>) -> Option<Seq<char>> {
    first_answer(text::split_on(query, '&'), |pair: Seq<char>| value_in(pair, name))
}

/// The value of the last pair with that name.
pub open spec fn last_value_of(query: Seq<char>, name: Seq<char>) -> Option<Seq<char>> {
    last_answer(text::split_on(query, '&'), |pair: Seq<char>| value_in(pair, name))
}

/// The value of a pair with that name, where it holds anything.
pub open spec fn filled_in(pair: Seq<char>, name: Seq<char>) -> Option<Seq<char>> {
    match value_in(pair, name) {
        Some(v) => if v.len() > 0 {
            Some(v)
        } else {
            None
        },
        None => None,
    }
}

/// The token on a query: the first `created` pair that holds anything. A redirect
/// that mints a link drops every earlier one, so behind it this is the fresh
/// link's token.
pub open spec fn created_in(query: Seq<char>) -> Option<Seq<char>> {
    first_answer(text::split_on(query, '&'), |pair: Seq<char>| filled_in(pair, "created"@))
}

/// Whether a pair is the bare flag, or the flag with a value.
pub open spec fn is_flag(pair: Seq<char>, name: Seq<char>) -> bool {
    pair == name || (name + seq!['=']).is_prefix_of(pair)
}

/// Whether the query names the flag.
pub open spec fn flagged(query: Seq<char>, name: Seq<char>) -> bool {
    exists|i: int|
        0 <= i < text::split_on(query, '&').len() && is_flag(
            #[trigger] text::split_on(query, '&')[i],
            name,
        )
}

/// The address without its query, and the query.
pub open spec fn path_and_query(address: Seq<char>) -> (Seq<char>, Seq<char>) {
    match text::cut_at(address, '?') {
        Some((path, query)) => (path, query),
        None => (address, Seq::empty()),
    }
}

fn pair_value(pair: &str, name: &str) -> (r: Option<String>)
    ensures
        text::opt_text(r) == value_in(pair@, name@),
{
    match text::split_once(pair, '=') {
        Some((n, v)) => if text::same(&n, name) {
            Some(v)
        } else {
            None
        },
        None => None,
    }
}

/// Whether a pair has that name.
pub fn is_named(pair: &str, name: &str) -> (r: bool)
    ensures
        r == (value_in(pair@, name@) is Some),
{
    pair_value(pair, name).is_some()
}

/// The value of the first pair with that name, if there is one.
pub fn query_value(query: &str, name: &str) -> (r: Option<String>)
    ensures
        text::opt_text(r) == value_of(query@, name@),
{
    let parts = text::split(query, '&');
    let ghost all = text::texts(parts@);
    let ghost f = |pair: Seq<char>| value_in(pair, name@);
    let mut i: usize = 0;
    assert(all.skip(0) == all);
    while i < parts.len()
        invariant
            i <= parts.len(),
            all == text::texts(parts@),
            all == text::split_on(query@, '&'),
            f == |pair: Seq<char>| value_in(pair, name@),
            first_answer(all, f) == first_answer(all.skip(i as int), f),
        decreases parts.len() - i,
    {
        let found = pair_value(&parts[i], name);
        proof {
            assert(all.skip(i as int)[0] == parts@[i as int]@);
            assert(all.skip(i as int).drop_first() == all.skip(i + 1));
        }
        if found.is_some() {
            return found;
        }
        i += 1;
    }
    None
}

/// The value of the last pair with that name, if there is one.
pub fn last_query_value(query: &str, name: &str) -> (r: Option<String>)
    ensures
        text::opt_text(r) == last_value_of(query@, name@),
{
    let parts = text::split(query, '&');
    let ghost all = text::texts(parts@);
    let ghost f = |pair: Seq<char>| value_in(pair, name@);
    let mut i: usize = parts.len();
    assert(all.take(all.len() as int) == all);
    while i > 0
        invariant
            i <= parts.len(),
            all == text::texts(parts@),
            all == text::split_on(query@, '&'),
            f == |pair: Seq<char>| value_in(pair, name@),
            last_answer(all, f) == last_answer(all.take(i as int), f),
        decreases i,
    {
        let found = pair_value(&parts[i - 1], name);
        proof {
            assert(all.take(i as int).last() == parts@[i - 1]@);
            assert(all.take(i as int).drop_last() == all.take(i - 1));
        }
        if found.is_some() {
            return found;
        }
        i -= 1;
    }
    None
}

/// The token off a redirect's `?created=` pair, if present, see [`created_in`].
pub fn created_token(query: &str) -> (r: Option<String>)
    ensures
        text::opt_text(r) == created_in(query@),
{
    let parts = text::split(query, '&');
    let ghost all = text::texts(parts@);
    let ghost f = |pair: Seq<char>| filled_in(pair, "created"@);
    let mut i: usize = 0;
    assert(all.skip(0) == all);
    while i < parts.len()
        invariant
            i <= parts.len(),
            all == text::texts(parts@),
            all == text::split_on(query@, '&'),
            f == |pair: Seq<char>| filled_in(pair, "created"@),
            first_answer(all, f) == first_answer(all.skip(i as int), f),
        decreases parts.len() - i,
    {
        proof {
            assert(all.skip(i as int)[0] == parts@[i as int]@);
            assert(all.skip(i as int).drop_first() == all.skip(i + 1));
        }
        if let Some(value) = pair_value(&parts[i], "created") {
            if value.as_str().unicode_len() > 0 {
                return Some(value);
            }
        }
        i += 1;
    }
    None
}

/// Whether the query names the bare flag, as `?dl` or `?dl=1`.
pub fn has_flag(query: &str, name: &str) -> (r: bool)
    ensures
        r == flagged(query@, name@),
{
    let parts = text::split(query, '&');
    let mut head = name.to_owned();
    head.push('=');
    assert(head@ == name@ + seq!['=']);
    let mut i: usize = 0;
    while i < parts.len()
        invariant
            i <= parts.len(),
            head@ == name@ + seq!['='],
            text::texts(parts@) == text::split_on(query@, '&'),
            forall|k: int|
                0 <= k < i ==> !is_flag(#[trigger] text::split_on(query@, '&')[k], name@),
        decreases parts.len() - i,
    {
        assert(text::split_on(query@, '&')[i as int] == parts@[i as int]@);
        if text::same(&parts[i], name) || text::starts_with(&parts[i], &head) {
            return true;
        }
        i += 1;
    }
    false
}

/// The address without its query, and the query.
pub fn split_address(address: &str) -> (r: (String, String))
    ensures
        (r.0@, r.1@) == path_and_query(address@),
{
    match text::split_once(address, '?') {
        Some((path, query)) => (path, query),
        None => (address.to_owned(), String::new()),
    }
}

/// A name with its `=` and a value is one pair, and holds the value under that
/// name alone.
pub proof fn lemma_pair(head: Seq<char>, name: Seq<char>, value: Seq<char>)
    requires
        head == name + seq!['='],
        text::free_of(name, '='),
        text::free_of(name, '&'),
        text::free_of(value, '&'),
    ensures
        text::split_on(head + value, '&') == seq![head + value],
        forall|other: Seq<char>| #[trigger]
            value_in(head + value, other) == if other == name {
                Some(value)
            } else {
                None
            },
{
    let pair = head + value;
    assert(pair =~= name + seq!['='] + value);
    assert(text::free_of(pair, '&'));
    text::lemma_split_none(pair, '&');
    text::lemma_split_front(name, '=', value);
}

/// Where no part is answered for, there is no first answer and no last one.
pub proof fn lemma_no_answer(parts: Seq<Seq<char>>, f: spec_fn(Seq<char>) -> Option<Seq<char>>)
    requires
        forall|i: int| 0 <= i < parts.len() ==> f(#[trigger] parts[i]) is None,
    ensures
        first_answer(parts, f) is None,
        last_answer(parts, f) is None,
    decreases parts.len(),
{
    if parts.len() > 0 {
        let a = parts.drop_first();
        assert forall|i: int| 0 <= i < a.len() implies f(#[trigger] a[i]) is None by {
            assert(a[i] == parts[i + 1]);
        }
        lemma_no_answer(a, f);
        let b = parts.drop_last();
        assert forall|i: int| 0 <= i < b.len() implies f(#[trigger] b[i]) is None by {
            assert(b[i] == parts[i]);
        }
        lemma_no_answer(b, f);
        assert(f(parts[parts.len() - 1]) is None);
    }
}

/// Parts that are not answered for can stand before the others unheard.
pub proof fn lemma_answer_behind(
    quiet: Seq<Seq<char>>,
    parts: Seq<Seq<char>>,
    f: spec_fn(Seq<char>) -> Option<Seq<char>>,
)
    requires
        forall|i: int| 0 <= i < quiet.len() ==> f(#[trigger] quiet[i]) is None,
    ensures
        first_answer(quiet + parts, f) == first_answer(parts, f),
        last_answer(quiet + parts, f) == last_answer(parts, f),
    decreases quiet.len() + parts.len(),
{
    if quiet.len() == 0 {
        assert(quiet + parts == parts);
    } else {
        let rest = quiet.drop_first();
        assert forall|i: int| 0 <= i < rest.len() implies f(#[trigger] rest[i]) is None by {
            assert(rest[i] == quiet[i + 1]);
        }
        assert((quiet + parts).drop_first() == rest + parts);
        assert((quiet + parts)[0] == quiet[0]);
        lemma_answer_behind(rest, parts, f);
        if parts.len() == 0 {
            assert(quiet + parts == quiet);
            lemma_no_answer(quiet, f);
        } else {
            assert((quiet + parts).last() == parts.last());
            assert((quiet + parts).drop_last() == quiet + parts.drop_last());
            lemma_answer_behind(quiet, parts.drop_last(), f);
        }
    }
}

} // verus!
