//! Words and numbers: what forms and queries say, and how figures are written.
use crate::clock;
use crate::drive;
use crate::drive::{DriveAsk, DriveQuery, KindFilter, MovePicker, SortDir, SortKey};
use crate::i18n::Key;
use crate::model::StoreError;
use crate::refusal::Refusal;
use crate::search;
use crate::secrets;
use crate::server;
use crate::share;
use crate::shared;
use crate::shared::SharedKey;
use crate::sizes;
use crate::text;
use crate::trash;
use crate::trash::TrashKey;
use vstd::prelude::*;

verus! {

/// Whether a text is white space alone.
pub open spec fn blank(s: Seq<char>) -> bool {
    forall|i: int| 0 <= i < s.len() ==> text::is_space(#[trigger] s[i])
}

proof fn lemma_trim_front(pad: Seq<char>, s: Seq<char>)
    requires
        blank(pad),
        s.len() > 0 ==> !text::is_space(s[0]),
    ensures
        text::trim_front(pad + s) == s,
    decreases pad.len(),
{
    let whole = pad + s;
    if pad.len() > 0 {
        assert(whole[0] == pad[0]);
        let rest = pad.drop_first();
        assert(blank(rest)) by {
            assert forall|i: int| 0 <= i < rest.len() implies text::is_space(#[trigger] rest[i]) by {
                assert(rest[i] == pad[i + 1]);
            }
        }
        lemma_trim_front(rest, s);
        assert(whole.drop_first() =~= rest + s);
    } else {
        assert(whole =~= s);
    }
}

proof fn lemma_trim_back(s: Seq<char>, pad: Seq<char>)
    requires
        blank(pad),
        s.len() > 0 ==> !text::is_space(s.last()),
    ensures
        text::trim_back(s + pad) == s,
    decreases pad.len(),
{
    let whole = s + pad;
    if pad.len() > 0 {
        assert(whole.last() == pad.last());
        assert(text::is_space(pad[pad.len() - 1]));
        let rest = pad.drop_last();
        assert(blank(rest)) by {
            assert forall|i: int| 0 <= i < rest.len() implies text::is_space(#[trigger] rest[i]) by {
                assert(rest[i] == pad[i]);
            }
        }
        lemma_trim_back(s, rest);
        assert(whole.drop_last() =~= s + rest);
    } else {
        assert(whole =~= s);
    }
}

/// Trimming takes the white space around a text and nothing else; of white space
/// alone it leaves nothing.
pub proof fn law_trimming(front: Seq<char>, s: Seq<char>, back: Seq<char>)
    requires
        blank(front) && blank(back),
    ensures
        s.len() > 0 && !text::is_space(s[0]) && !text::is_space(s.last()) ==> text::trimmed(
            front + s + back,
        ) == s,
        text::trimmed(front).len() == 0,
{
    if s.len() > 0 && !text::is_space(s[0]) && !text::is_space(s.last()) {
        let tail = s + back;
        assert(tail[0] == s[0]);
        assert(front + s + back =~= front + tail);
        lemma_trim_front(front, tail);
        lemma_trim_back(s, back);
    }
    lemma_trim_front(front, Seq::empty());
    assert(front + Seq::<char>::empty() =~= front);
}

/// A text that neither starts nor ends in white space is its own trimming.
pub proof fn lemma_untrimmed(s: Seq<char>)
    requires
        s.len() > 0 ==> !text::is_space(s[0]) && !text::is_space(s.last()),
    ensures
        text::trimmed(s) == s,
{
    let none = Seq::<char>::empty();
    assert(blank(none));
    if s.len() > 0 {
        law_trimming(none, s, none);
        assert(none + s + none =~= s);
    }
}

proof fn lemma_numeral_untrimmed(n: nat)
    ensures
        text::trimmed(text::numeral(n, 10)) == text::numeral(n, 10),
        text::numeral(n, 10).len() > 0,
{
    text::lemma_numeral_digits(n);
    let s = text::numeral(n, 10);
    assert(text::is_digit(s[0]) && text::is_digit(s[s.len() - 1]));
    lemma_untrimmed(s);
}

/// A link expires the named number of days from now; no number is no expiry, and
/// none or fewer days, or what is no number, is refused.
pub proof fn law_links_expire_in_days(days: nat, now: int, word: Seq<char>)
    ensures
        share::expiry_of(None, now) == Ok::<Option<int>, Refusal>(None),
        share::expiry_of(Some(Seq::empty()), now) == Ok::<Option<int>, Refusal>(None),
        days > 0 && clock::in_calendar(now + days * 86_400_000_000_000) ==> share::expiry_of(
            Some(text::numeral(days, 10)),
            now,
        ) == Ok::<Option<int>, Refusal>(Some(now + days * 86_400_000_000_000)),
        days > 0 && !clock::in_calendar(now + days * 86_400_000_000_000) ==> share::expiry_of(
            Some(text::numeral(days, 10)),
            now,
        ) == Err::<Option<int>, Refusal>(Refusal::Forbidden),
        share::expiry_of(Some(text::numeral(0, 10)), now) == Err::<Option<int>, Refusal>(
            Refusal::Forbidden,
        ),
        share::expiry_of(Some(seq!['-'] + text::numeral(days, 10)), now) == Err::<
            Option<int>,
            Refusal,
        >(Refusal::Forbidden),
        text::trimmed(word).len() > 0 && text::read_signed(text::trimmed(word)) is None
            ==> share::expiry_of(Some(word), now) == Err::<Option<int>, Refusal>(
            Refusal::Forbidden,
        ),
{
    lemma_untrimmed(Seq::empty());
    lemma_numeral_untrimmed(days);
    lemma_numeral_untrimmed(0);
    text::law_int_numeral_is_read_back(days as int);
    text::law_int_numeral_is_read_back(0);
    let minus = seq!['-'] + text::numeral(days, 10);
    text::lemma_numeral_digits(days);
    assert(minus.last() == text::numeral(days, 10).last());
    assert(text::is_digit(text::numeral(days, 10)[text::numeral(days, 10).len() - 1]));
    lemma_untrimmed(minus);
    assert(minus.drop_first() =~= text::numeral(days, 10));
    assert(now + days as int * 86_400 * clock::NANOS_PER_SECOND == now + days * 86_400_000_000_000);
}

/// A field reads as set unless it says plainly that it is not, whatever its case
/// and the white space around it; a missing one as the control's default.
pub proof fn law_flags(when_absent: bool, lower: spec_fn(Seq<char>) -> Seq<char>, word: Seq<char>)
    requires
        word.len() > 0 ==> !text::is_space(word[0]) && !text::is_space(word.last()),
    ensures
        share::flag_set(None, when_absent, lower) == when_absent,
        lower(word).len() == 0 || lower(word) == "0"@ || lower(word) == "false"@ || lower(word)
            == "no"@ || lower(word) == "off"@ ==> !share::flag_set(Some(word), when_absent, lower),
        lower(word).len() > 0 && lower(word) != "0"@ && lower(word) != "false"@ && lower(word)
            != "no"@ && lower(word) != "off"@ ==> share::flag_set(Some(word), when_absent, lower),
{
    lemma_untrimmed(word);
}

/// A grantee's address is looked up without the white space around it, in lower
/// case.
pub proof fn law_addresses_are_looked_up_folded(
    front: Seq<char>,
    email: Seq<char>,
    back: Seq<char>,
    lower: spec_fn(Seq<char>) -> Seq<char>,
)
    requires
        blank(front) && blank(back),
        email.len() > 0 && !text::is_space(email[0]) && !text::is_space(email.last()),
    ensures
        share::looked_up_by(front + email + back, lower) == lower(email),
{
    law_trimming(front, email, back);
}

/// A search asks for its words without the white space around them, and white
/// space alone asks for nothing.
pub proof fn law_searches(front: Seq<char>, words: Seq<char>, back: Seq<char>)
    requires
        blank(front) && blank(back),
    ensures
        search::asked_in(None) is None,
        search::asked_in(Some(front)) is None,
        words.len() > 0 && !text::is_space(words[0]) && !text::is_space(words.last())
            ==> search::asked_in(Some(front + words + back)) == Some(words),
{
    law_trimming(front, words, back);
}

/// A listing's sort is read off its query: names ascend and measures descend
/// unless the query says otherwise, and what is no key sorts nothing.
pub proof fn law_sort_words()
    ensures
        drive::sort_named(Some("name"@)) == Some((SortKey::Name, SortDir::Asc)),
        drive::sort_named(Some("uploaded"@)) == Some((SortKey::Uploaded, SortDir::Desc)),
        drive::sort_named(Some("size"@)) == Some((SortKey::Size, SortDir::Desc)),
        drive::sort_named(Some("downloads"@)) == Some((SortKey::Downloads, SortDir::Desc)),
        drive::sort_named(Some("downloads"@ + seq![':'] + "asc"@)) == Some(
            (SortKey::Downloads, SortDir::Asc),
        ),
        drive::sort_named(Some("name"@ + seq![':'] + "desc"@)) == Some(
            (SortKey::Name, SortDir::Desc),
        ),
        drive::sort_named(Some(Seq::empty())) is None,
        drive::sort_named(None) is None,
        drive::filter_named(Some("folders"@)) == KindFilter::Folders,
        drive::filter_named(Some("files"@)) == KindFilter::Files,
        drive::filter_named(Some(Seq::empty())) == KindFilter::All,
        drive::filter_named(None) == KindFilter::All,
{
    lemma_sort_letters();
    text::lemma_split_none("name"@, ':');
    text::lemma_split_none("uploaded"@, ':');
    text::lemma_split_none("size"@, ':');
    text::lemma_split_none("downloads"@, ':');
    text::lemma_split_none(Seq::empty(), ':');
    text::lemma_split_front("downloads"@, ':', "asc"@);
    text::lemma_split_front("name"@, ':', "desc"@);
}

proof fn lemma_sort_letters()
    ensures
        text::free_of("name"@, ':') && text::free_of("uploaded"@, ':') && text::free_of(
            "size"@,
            ':',
        ) && text::free_of("downloads"@, ':') && text::free_of("deleted"@, ':') && text::free_of(
            "owner"@,
            ':',
        ),
        "name"@.len() == 4 && "name"@[0] == 'n',
        "uploaded"@.len() == 8,
        "size"@.len() == 4 && "size"@[0] == 's',
        "downloads"@.len() == 9,
        "deleted"@.len() == 7,
        "owner"@.len() == 5,
        "asc"@.len() == 3 && "desc"@.len() == 4,
        "folders"@.len() == 7 && "files"@.len() == 5,
{
    reveal_strlit("name");
    reveal_strlit("uploaded");
    reveal_strlit("size");
    reveal_strlit("downloads");
    reveal_strlit("deleted");
    reveal_strlit("owner");
    reveal_strlit("asc");
    reveal_strlit("desc");
    reveal_strlit("folders");
    reveal_strlit("files");
}

/// The trash stands by the day of deletion, the latest first, unless the query
/// says otherwise; its names ascend and its measures descend by themselves, and
/// what the sort box shows as selected is read back as it was.
pub proof fn law_trash_sort_words(key: TrashKey, descending: bool)
    ensures
        trash::trash_sort_named(None) == (TrashKey::Deleted, true),
        trash::trash_sort_named(Some(Seq::empty())) == (TrashKey::Deleted, true),
        trash::trash_sort_named(Some("name"@)) == (TrashKey::Name, false),
        trash::trash_sort_named(Some("deleted"@)) == (TrashKey::Deleted, true),
        trash::trash_sort_named(Some("uploaded"@)) == (TrashKey::Uploaded, true),
        trash::trash_sort_named(Some("size"@)) == (TrashKey::Size, true),
        trash::trash_sort_named(Some(shared::directed(trash::trash_word(key), descending))) == (
            key,
            descending,
        ),
{
    lemma_sort_letters();
    reveal_strlit(":");
    assert(":"@ =~= seq![':']);
    text::lemma_split_none(Seq::empty(), ':');
    text::lemma_split_none("name"@, ':');
    text::lemma_split_none("deleted"@, ':');
    text::lemma_split_none("uploaded"@, ':');
    text::lemma_split_none("size"@, ':');
    let dir = if descending {
        "desc"@
    } else {
        "asc"@
    };
    text::lemma_split_front(trash::trash_word(key), ':', dir);
}

/// What others shared stands by name unless the query says otherwise; its names
/// and owners ascend and its measures descend by themselves, and what the sort
/// box shows as selected is read back as it was.
pub proof fn law_shared_sort_words(key: SharedKey, descending: bool)
    ensures
        shared::shared_sort_named(None) == (SharedKey::Name, false),
        shared::shared_sort_named(Some(Seq::empty())) == (SharedKey::Name, false),
        shared::shared_sort_named(Some("name"@)) == (SharedKey::Name, false),
        shared::shared_sort_named(Some("owner"@)) == (SharedKey::Owner, false),
        shared::shared_sort_named(Some("uploaded"@)) == (SharedKey::Uploaded, true),
        shared::shared_sort_named(Some("size"@)) == (SharedKey::Size, true),
        shared::shared_sort_named(Some(shared::directed(shared::shared_word(key), descending))) == (
            key,
            descending,
        ),
{
    lemma_sort_letters();
    reveal_strlit(":");
    assert(":"@ =~= seq![':']);
    text::lemma_split_none(Seq::empty(), ':');
    text::lemma_split_none("name"@, ':');
    text::lemma_split_none("owner"@, ':');
    text::lemma_split_none("uploaded"@, ':');
    text::lemma_split_none("size"@, ':');
    let dir = if descending {
        "desc"@
    } else {
        "asc"@
    };
    text::lemma_split_front(shared::shared_word(key), ':', dir);
}

/// The drive's query asks for its folder, its words, its order and its filter
/// each by its own name, and for a dialog by the kind and the id of its row.
pub proof fn law_the_drive_query(ask: DriveAsk, params: DriveQuery, kind: Seq<char>, id: Seq<char>)
    requires
        drive::asks_for(ask, params),
        text::free_of(kind, ':'),
    ensures
        text::opt_text(ask.folder) == text::opt_text(params.folder),
        text::opt_text(ask.edit) == text::opt_text(params.edit),
        ask.share_named <==> params.share is Some,
        params.share is Some && params.share->0@ == kind + seq![':'] + id ==> ask.share is Some
            && (ask.share->0).0@ == kind && (ask.share->0).1@ == id,
        params.moving is Some && params.moving->0@ == kind + seq![':'] + id ==> ask.moving is Some
            && (ask.moving->0).0@ == kind && (ask.moving->0).1@ == id,
        params.share is None ==> ask.share is None,
        params.moving is None ==> ask.moving is None,
        params.sort is None ==> ask.sorting is None,
        params.kind is None ==> ask.kind == KindFilter::All,
        params.q is None ==> ask.asked is None,
        params.kind is Some && params.kind->0@ == "folders"@ ==> ask.kind == KindFilter::Folders,
        params.kind is Some && params.kind->0@ == "files"@ ==> ask.kind == KindFilter::Files,
        params.sort is Some && params.sort->0@ == "downloads"@ ==> ask.sorting == Some(
            (SortKey::Downloads, SortDir::Desc),
        ),
        params.sort is Some && params.sort->0@ == "size"@ ==> ask.sorting == Some(
            (SortKey::Size, SortDir::Desc),
        ),
        params.sort is Some && params.sort->0@ == "uploaded"@ ==> ask.sorting == Some(
            (SortKey::Uploaded, SortDir::Desc),
        ),
        params.sort is Some && params.sort->0@ == "name"@ ==> ask.sorting == Some(
            (SortKey::Name, SortDir::Asc),
        ),
        params.q is Some && text::trimmed(params.q->0@).len() > 0 ==> ask.asked is Some
            && ask.asked->0@ == text::trimmed(params.q->0@),
{
    text::lemma_split_front(kind, ':', id);
    law_sort_words();
    assert(text::opt_text(ask.asked) is None <==> ask.asked is None);
}

/// A picker moves a folder to a folder that is not itself, and a file to any
/// folder, each by its own call.
pub proof fn law_move_pickers(picker: Option<MovePicker>, kind: Seq<char>, id: Seq<char>)
    requires
        drive::picks_for(picker, kind, id),
    ensures
        picker is Some <==> kind == "folder"@ || kind == "file"@,
        kind == "folder"@ ==> picker is Some && picker->0.barred is Some && picker->0.barred->0@
            == id && picker->0.action@ == "/api/folder/move"@ && picker->0.field@ == "parent_id"@
            && picker->0.title == Key::MoveFolder,
        kind == "file"@ ==> picker is Some && picker->0.barred is None && picker->0.action@
            == "/api/file/move"@ && picker->0.field@ == "folder_id"@ && picker->0.title
            == Key::MoveFile,
{
    reveal_strlit("folder");
    reveal_strlit("file");
    assert("folder"@.len() != "file"@.len());
    assert(picker is Some ==> (text::opt_text(picker->0.barred) is Some
        <==> picker->0.barred is Some));
}

/// A browser is told apart by the first address it was forwarded for, without
/// the white space around it.
pub proof fn law_clients_go_by_their_first_address(first: Seq<char>, rest: Seq<char>)
    requires
        text::free_of(first, ','),
        first.len() > 0 && !text::is_space(first[0]) && !text::is_space(first.last()),
    ensures
        server::label_of(None) == "unknown"@,
        server::label_of(Some(first)) == first,
        server::label_of(Some(first + seq![','] + rest)) == first,
{
    lemma_untrimmed(first);
    text::lemma_first_at_is(first, ',', first.len() as int);
    assert(first.take(first.len() as int) =~= first);
    let whole = first + seq![','] + rest;
    text::lemma_first_at_is(whole, ',', first.len() as int);
    assert(whole.take(first.len() as int) =~= first);
}

/// Links are shown under the address an admin filed, where there is one, and
/// else under the configured one; the filed ceiling stands where it is a number,
/// and else the configured one.
pub proof fn law_filed_settings_stand_first(
    filed: String,
    configured: Seq<char>,
    error: StoreError,
    n: u64,
    ceiling: u64,
    word: Seq<char>,
)
    requires
        filed@.len() > 0 && !text::is_space(filed@[0]) && !text::is_space(filed@.last()),
    ensures
        server::origin_of(Ok(Some(filed)), configured) == filed@,
        server::origin_of(Ok(None), configured) == configured,
        server::origin_of(Err(error), configured) == configured,
        server::ceiling_named(Some(text::numeral(n as nat, 10)), ceiling) == n,
        server::ceiling_named(None, ceiling) == ceiling,
        text::read_unsigned(word) is None ==> server::ceiling_named(Some(word), ceiling) == ceiling,
{
    lemma_untrimmed(filed@);
    text::law_numeral_is_read_back(n as nat);
}

/// A key is what stands behind the word Bearer, and nothing without it.
pub proof fn law_bearer_keys(key: Seq<char>, header: Seq<char>)
    requires
        key.len() > 0 && !text::is_space(key[0]) && !text::is_space(key.last()),
    ensures
        server::presented_key(None) is None,
        server::presented_key(Some("Bearer "@ + key)) == Some(key),
        !"Bearer "@.is_prefix_of(header) ==> server::presented_key(Some(header)) is None,
{
    reveal_strlit("Bearer ");
    let whole = "Bearer "@ + key;
    assert(whole.subrange(0, "Bearer "@.len() as int) =~= "Bearer "@);
    assert(whole.skip("Bearer "@.len() as int) =~= key);
    lemma_untrimmed(key);
}

/// A page that says nothing of caching is not kept, and nothing else is touched.
pub proof fn law_pages_are_not_kept(content_type: Seq<char>, has_cache_control: bool)
    ensures
        server::directive_for(None, has_cache_control) is None,
        server::directive_for(Some(content_type), true) is None,
        "text/html"@.is_prefix_of(content_type) ==> server::directive_for(Some(content_type), false)
            == Some("no-cache"@),
        !"text/html"@.is_prefix_of(content_type) ==> server::directive_for(
            Some(content_type),
            false,
        ) is None,
{
}

/// The bundle is served exactly where its stylesheet is the one this build was
/// made with.
pub proof fn law_the_bundle_is_this_builds(
    answer: Result<String, String>,
    dir: Seq<char>,
    name: Seq<char>,
    bytes: Vec<u8>,
    unread: Result<String, String>,
    problem: String,
    expected: Seq<char>,
)
    requires
        server::guards(answer, dir, name, Ok(bytes), expected),
        server::guards(unread, dir, name, Err(problem), expected),
    ensures
        answer is Ok <==> server::fingerprint_of(bytes@) == expected,
        unread is Err,
{
}

/// The stylesheet of a bundle is the first file of that name and ending.
pub proof fn law_the_first_stylesheet(at: Option<usize>, names: Seq<String>, k: int)
    requires
        server::finds_stylesheet(at, names),
    ensures
        at is Some ==> at->0 < names.len() && "main-"@.is_prefix_of(names[at->0 as int]@)
            && ".css"@.is_suffix_of(names[at->0 as int]@),
        0 <= k < names.len() && "main-"@.is_prefix_of(names[k]@) && ".css"@.is_suffix_of(names[k]@)
            ==> at is Some && at->0 <= k,
{
    if 0 <= k < names.len() && "main-"@.is_prefix_of(names[k]@) && ".css"@.is_suffix_of(names[k]@) {
        assert(server::is_stylesheet(names[k]@));
    }
}

/// A link's address is the origin, the way to links, and its token; a link whose
/// token cannot be opened has none.
pub proof fn law_link_addresses(origin: Seq<char>, token: Seq<char>, id: Seq<char>)
    ensures
        server::link_address(origin, Some(token)) == Some(origin + "/s/"@ + token),
        server::link_address(origin, None) is None,
        server::token_row_of(id) == "share_token:"@ + id,
{
}

/// A secret can be shown for ten minutes and no longer.
pub proof fn law_secrets_wait_ten_minutes(
    shelf: Map<Seq<char>, (Seq<char>, int)>,
    ticket: Seq<char>,
    secret: Seq<char>,
    now: int,
    later: int,
)
    ensures
        ({
            let parked = secrets::waiting(shelf, now).insert(ticket, (secret, now));
            &&& secrets::waiting(parked, later).contains_key(ticket) <==> later < now + 600_000
            &&& later < now + 600_000 ==> secrets::waiting(parked, later)[ticket].0 == secret
        }),
{
}

proof fn lemma_nearest(n: nat, d: nat)
    requires
        d > 0,
    ensures
        ({
            let t = sizes::nearest_even(n, d);
            &&& 2 * (t * d) <= 2 * n + d
            &&& 2 * n <= 2 * (t * d) + d
        }),
{
    let q = n / d;
    let r = n % d;
    assert(n == q * d + r && r < d) by (nonlinear_arith)
        requires
            q == n / d,
            r == n % d,
            d > 0,
    ;
    assert((q + 1) * d == q * d + d) by (nonlinear_arith);
}

/// A byte count that a double holds exactly is written in the largest unit it
/// fills, to the nearest tenth; under a kibibyte it is written out.
pub proof fn law_sizes_are_nearest_tenths(bytes: nat, units: Seq<Seq<char>>)
    requires
        bytes < 0x20_0000_0000_0000,
    ensures
        bytes < 1024 ==> sizes::size_text(bytes, units) == text::numeral(bytes, 10) + seq![' ']
            + units[0],
        1024 <= bytes < 1024 * 1024 ==> written_in(bytes, 1024, units[1], sizes::size_text(bytes, units)),
        1024 * 1024 <= bytes < 1024 * 1024 * 1024 ==> written_in(
            bytes,
            1024 * 1024,
            units[2],
            sizes::size_text(bytes, units),
        ),
        1024 * 1024 * 1024 <= bytes < 1024 * 1024 * 1024 * 1024 ==> written_in(
            bytes,
            1024 * 1024 * 1024,
            units[3],
            sizes::size_text(bytes, units),
        ),
        bytes >= 1024 * 1024 * 1024 * 1024 ==> written_in(
            bytes,
            1024 * 1024 * 1024 * 1024,
            units[4],
            sizes::size_text(bytes, units),
        ),
{
    assert(sizes::grain(bytes) == 1);
    assert(bytes / 1 == bytes && bytes % 1 == 0);
    assert(sizes::double_of(bytes) == bytes);
    let unit = sizes::unit_of(bytes);
    let per = sizes::unit_size(unit);
    if unit > 0 {
        let t = sizes::nearest_even(10 * bytes, per);
        lemma_nearest(10 * bytes, per);
        assert(text::numeral((t % 10) as nat, 10) =~= seq![text::digit((t % 10) as int)]);
        assert(sizes::size_text(bytes, units) =~= text::numeral(t / 10, 10) + seq!['.']
            + text::numeral(t % 10, 10) + seq![' '] + units[unit as int]);
        assert(tenth_of(t, bytes, per, units[unit as int], sizes::size_text(bytes, units)));
    }
}

/// Whether a text is `tenths` tenths of a unit, and those the nearest ones.
pub open spec fn tenth_of(
    tenths: nat,
    bytes: nat,
    per: nat,
    unit: Seq<char>,
    shown: Seq<char>,
) -> bool {
    &&& shown == text::numeral(tenths / 10, 10) + seq!['.'] + text::numeral(tenths % 10, 10)
        + seq![' '] + unit
    &&& 2 * (tenths * per) <= 2 * (10 * bytes) + per
    &&& 2 * (10 * bytes) <= 2 * (tenths * per) + per
}

/// Whether a text writes a byte count in a unit to the nearest tenth.
pub open spec fn written_in(bytes: nat, per: nat, unit: Seq<char>, shown: Seq<char>) -> bool {
    exists|tenths: nat| tenth_of(tenths, bytes, per, unit, shown)
}

/// The units of a form and of a listing are powers of 1024, by their names.
pub proof fn law_units()
    ensures
        sizes::binary_units() == seq!["B"@, "KiB"@, "MiB"@, "GiB"@, "TiB"@],
        sizes::listing_units() == seq!["B"@, "KB"@, "MB"@, "GB"@, "TB"@],
{
}

/// Lower case changes the letters from A to Z, each to its own, and nothing else.
pub proof fn law_lower_case(s: Seq<char>, i: int)
    requires
        0 <= i < s.len(),
    ensures
        text::ascii_lowered(s).len() == s.len(),
        'A' <= s[i] <= 'Z' ==> text::ascii_lowered(s)[i] as int == s[i] as int + 32,
        !('A' <= s[i] <= 'Z') ==> text::ascii_lowered(s)[i] == s[i],
{
}

/// A fractional amount is taken to the nearest whole byte, half a byte going up.
pub proof fn law_amounts_are_rounded(mantissa: nat, shift: nat)
    requires
        shift > 0,
    ensures
        ({
            let unit = vstd::arithmetic::power2::pow2(shift);
            let bytes = sizes::scaled(mantissa, -(shift as int));
            &&& 2 * (bytes * unit) <= 2 * mantissa + unit
            &&& 2 * mantissa + unit < 2 * (bytes * unit) + 2 * unit
        }),
{
    let unit = vstd::arithmetic::power2::pow2(shift);
    vstd::arithmetic::power2::lemma_pow2_pos(shift);
    let q = (2 * mantissa + unit) / (2 * unit);
    assert(q * (2 * unit) <= 2 * mantissa + unit && 2 * mantissa + unit < (q + 1) * (2 * unit))
        by (nonlinear_arith)
        requires
            q == (2 * mantissa + unit) / (2 * unit),
            unit > 0,
    ;
    assert(q * (2 * unit) == 2 * (q * unit)) by (nonlinear_arith);
    assert((q + 1) * (2 * unit) == 2 * (q * unit) + 2 * unit) by (nonlinear_arith);
}

/// One more in the exponent of an amount doubles it, one more in its fraction
/// adds one to its mantissa, and negative amounts and those that are no number
/// are none.
pub proof fn law_amounts_are_doubles(bits: u64)
    ensures
        0x10_0000_0000_0000 <= bits < 0x7fe0_0000_0000_0000 ==> {
            let (mantissa, exponent) = sizes::double_parts(bits)->0;
            &&& sizes::double_parts(bits) is Some
            &&& sizes::double_parts((bits + 0x10_0000_0000_0000) as u64) == Some(
                (mantissa, exponent + 1),
            )
            &&& bits % 0x10_0000_0000_0000 < 0xf_ffff_ffff_ffff ==> sizes::double_parts(
                (bits + 1) as u64,
            ) == Some(((mantissa + 1) as nat, exponent))
        },
        sizes::double_parts(0x3ff0_0000_0000_0000) == Some((0x10_0000_0000_0000nat, -52int)),
        bits > 0x8000_0000_0000_0000 ==> sizes::double_parts(bits) is None,
        0x7ff0_0000_0000_0000 <= bits < 0x8000_0000_0000_0000 ==> sizes::double_parts(bits) is None,
{
}

} // verus!
