//! Addresses: what a page puts on one, the next page reads off it.
use crate::address;
use crate::address::RedirectBody;
use crate::drive;
use crate::drive::{EntryRow, KindFilter, SortDir, SortKey};
use crate::model::{ShareKind, StoreError};
use crate::query;
use crate::refusal::Refusal;
use crate::share;
use crate::text;
use vstd::prelude::*;

verus! {

/// A pair of a name and a value.
pub open spec fn pair_of(name: Seq<char>, value: Seq<char>) -> Seq<char> {
    name + seq!['='] + value
}

/// A pair holds its value under its name alone.
pub proof fn lemma_pair_of(name: Seq<char>, value: Seq<char>)
    requires
        text::free_of(name, '=') && text::free_of(name, '&') && text::free_of(value, '&'),
    ensures
        text::free_of(pair_of(name, value), '&'),
        text::split_on(pair_of(name, value), '&') == seq![pair_of(name, value)],
        forall|other: Seq<char>| #[trigger]
            query::value_in(pair_of(name, value), other) == if other == name {
                Some(value)
            } else {
                None
            },
{
    query::lemma_pair(name + seq!['='], name, value);
    let pair = pair_of(name, value);
    assert forall|i: int| 0 <= i < pair.len() implies #[trigger] pair[i] != '&' by {
        if i < name.len() {
            assert(pair[i] == name[i]);
        } else if i > name.len() {
            assert(pair[i] == value[i - name.len() - 1]);
        }
    }
}

proof fn lemma_first_answer(
    parts: Seq<Seq<char>>,
    f: spec_fn(Seq<char>) -> Option<Seq<char>>,
    at: int,
)
    requires
        0 <= at < parts.len(),
        f(parts[at]) is Some,
        forall|j: int| 0 <= j < at ==> f(#[trigger] parts[j]) is None,
    ensures
        query::first_answer(parts, f) == f(parts[at]),
    decreases at,
{
    if at > 0 {
        let rest = parts.drop_first();
        assert(f(parts[0]) is None);
        assert forall|j: int| 0 <= j < at - 1 implies f(#[trigger] rest[j]) is None by {
            assert(rest[j] == parts[j + 1]);
        }
        assert(rest[at - 1] == parts[at]);
        lemma_first_answer(rest, f, at - 1);
    }
}

/// Whether a query's pairs hold a value under a name, once.
pub open spec fn holds_once(
    parts: Seq<Seq<char>>,
    name: Seq<char>,
    value: Option<Seq<char>>,
) -> bool {
    match value {
        Some(value) => exists|at: int|
            0 <= at < parts.len() && query::value_in(#[trigger] parts[at], name) == Some(value) && (
            forall|j: int|
                0 <= j < at ==> query::value_in(#[trigger] parts[j], name) is None),
        None => forall|j: int|
            0 <= j < parts.len() ==> query::value_in(#[trigger] parts[j], name) is None,
    }
}

/// What the pairs of a query hold under a name is read off the query.
pub proof fn lemma_holds_once(query: Seq<char>, name: Seq<char>, value: Option<Seq<char>>)
    requires
        holds_once(text::split_on(query, '&'), name, value),
    ensures
        query::value_of(query, name) == value,
{
    let parts = text::split_on(query, '&');
    let f = |pair: Seq<char>| query::value_in(pair, name);
    match value {
        Some(value) => {
            let at = choose|at: int|
                0 <= at < parts.len() && query::value_in(#[trigger] parts[at], name) == Some(value)
                    && (forall|j: int|
                    0 <= j < at ==> query::value_in(#[trigger] parts[j], name) is None);
            assert(f(parts[at]) is Some);
            assert forall|j: int| 0 <= j < at implies f(#[trigger] parts[j]) is None by {
                assert(query::value_in(parts[j], name) is None);
            }
            lemma_first_answer(parts, f, at);
        },
        None => {
            assert forall|j: int| 0 <= j < parts.len() implies f(#[trigger] parts[j]) is None by {
                assert(query::value_in(parts[j], name) is None);
            }
            query::lemma_no_answer(parts, f);
        },
    }
}

proof fn lemma_names()
    ensures
        "folder="@ == "folder"@ + seq!['='] && "sort="@ == "sort"@ + seq!['='] && "kind="@
            == "kind"@ + seq!['='],
        "edit="@ == "edit"@ + seq!['='],
        "share=file:"@ == "share"@ + seq!['='] + ("file"@ + seq![':']),
        "share=folder:"@ == "share"@ + seq!['='] + ("folder"@ + seq![':']),
        "move=file:"@ == "move"@ + seq!['='] + ("file"@ + seq![':']),
        "move=folder:"@ == "move"@ + seq!['='] + ("folder"@ + seq![':']),
        text::free_of("folder"@, '=') && text::free_of("folder"@, '&') && text::free_of(
            "folder"@,
            ':',
        ),
        text::free_of("file"@, '=') && text::free_of("file"@, '&') && text::free_of("file"@, ':'),
        text::free_of("sort"@, '=') && text::free_of("sort"@, '&'),
        text::free_of("kind"@, '=') && text::free_of("kind"@, '&'),
        text::free_of("edit"@, '=') && text::free_of("edit"@, '&'),
        text::free_of("share"@, '=') && text::free_of("share"@, '&'),
        text::free_of("move"@, '=') && text::free_of("move"@, '&'),
        "folder"@ != "sort"@ && "folder"@ != "kind"@ && "folder"@ != "edit"@ && "folder"@ != "share"@
            && "folder"@ != "move"@,
        "sort"@ != "kind"@ && "sort"@ != "edit"@ && "sort"@ != "share"@ && "sort"@ != "move"@,
        "kind"@ != "edit"@ && "kind"@ != "share"@ && "kind"@ != "move"@,
        "edit"@ != "share"@ && "edit"@ != "move"@ && "share"@ != "move"@,
{
    reveal_strlit("folder=");
    reveal_strlit("sort=");
    reveal_strlit("kind=");
    reveal_strlit("edit=");
    reveal_strlit("folder");
    reveal_strlit("file");
    reveal_strlit("sort");
    reveal_strlit("kind");
    reveal_strlit("edit");
    reveal_strlit("share");
    reveal_strlit("move");
    reveal_strlit("share=file:");
    reveal_strlit("share=folder:");
    reveal_strlit("move=file:");
    reveal_strlit("move=folder:");
    assert("folder="@ =~= "folder"@ + seq!['=']);
    assert("sort="@ =~= "sort"@ + seq!['=']);
    assert("kind="@ =~= "kind"@ + seq!['=']);
    assert("edit="@ =~= "edit"@ + seq!['=']);
    assert("share=file:"@ =~= "share"@ + seq!['='] + ("file"@ + seq![':']));
    assert("share=folder:"@ =~= "share"@ + seq!['='] + ("folder"@ + seq![':']));
    assert("move=file:"@ =~= "move"@ + seq!['='] + ("file"@ + seq![':']));
    assert("move=folder:"@ =~= "move"@ + seq!['='] + ("folder"@ + seq![':']));
    assert("sort"@[0] == 's' && "kind"@[0] == 'k' && "edit"@[0] == 'e' && "share"@[0] == 's'
        && "move"@[0] == 'm' && "folder"@[0] == 'f' && "sort"@[1] == 'o' && "share"@[1] == 'h');
}

proof fn lemma_sort_words(key: SortKey, dir: SortDir, kind: KindFilter)
    ensures
        text::free_of(drive::sort_word(key, dir), '&'),
        text::free_of(drive::filter_word(kind), '&'),
{
    reveal_strlit("name");
    reveal_strlit("uploaded");
    reveal_strlit("size");
    reveal_strlit("downloads");
    reveal_strlit("asc");
    reveal_strlit("desc");
    reveal_strlit("all");
    reveal_strlit("folders");
    reveal_strlit("files");
    let word = drive::sort_word(key, dir);
    let head = drive::key_word(key);
    assert(text::free_of(head, '&') && text::free_of(drive::dir_word(dir), '&'));
    assert forall|i: int| 0 <= i < word.len() implies #[trigger] word[i] != '&' by {
        if i < head.len() {
            assert(word[i] == head[i]);
        } else if i > head.len() {
            assert(word[i] == drive::dir_word(dir)[i - head.len() - 1]);
        }
    }
}

proof fn lemma_here_pairs(id: Seq<char>, sorting: Option<(SortKey, SortDir)>, kind: KindFilter)
    requires
        text::free_of(id, '&'),
    ensures
        ({
            let parts = drive::here_pairs(id, sorting, kind);
            &&& forall|i: int| 0 <= i < parts.len() ==> text::free_of(#[trigger] parts[i], '&')
            &&& holds_once(
                parts,
                "folder"@,
                if id.len() > 0 {
                    Some(id)
                } else {
                    None
                },
            )
            &&& holds_once(
                parts,
                "sort"@,
                match sorting {
                    Some((key, dir)) => Some(drive::sort_word(key, dir)),
                    None => None,
                },
            )
            &&& holds_once(
                parts,
                "kind"@,
                if kind != KindFilter::All {
                    Some(drive::filter_word(kind))
                } else {
                    None
                },
            )
            &&& holds_once(parts, "edit"@, None)
            &&& holds_once(parts, "share"@, None)
            &&& holds_once(parts, "move"@, None)
        }),
{
    lemma_names();
    let parts = drive::here_pairs(id, sorting, kind);
    lemma_pair_of("folder"@, id);
    assert("folder="@ + id =~= pair_of("folder"@, id));
    lemma_sort_words(SortKey::Name, SortDir::Asc, kind);
    lemma_pair_of("kind"@, drive::filter_word(kind));
    assert("kind="@ + drive::filter_word(kind) =~= pair_of("kind"@, drive::filter_word(kind)));
    let a: int = if id.len() > 0 {
        1
    } else {
        0
    };
    match sorting {
        Some((key, dir)) => {
            lemma_sort_words(key, dir, kind);
            lemma_pair_of("sort"@, drive::sort_word(key, dir));
            assert("sort="@ + drive::sort_word(key, dir) =~= pair_of(
                "sort"@,
                drive::sort_word(key, dir),
            ));
            assert(parts[a] == pair_of("sort"@, drive::sort_word(key, dir)));
        },
        None => {},
    }
    let b: int = a + if sorting is Some {
        1int
    } else {
        0
    };
    if id.len() > 0 {
        assert(parts[0] == pair_of("folder"@, id));
    }
    if kind != KindFilter::All {
        assert(parts[b] == pair_of("kind"@, drive::filter_word(kind)));
    }
    assert(parts.len() == b + if kind != KindFilter::All {
        1int
    } else {
        0
    });
}

proof fn lemma_here_split(id: Seq<char>, sorting: Option<(SortKey, SortDir)>, kind: KindFilter)
    requires
        text::free_of(id, '&'),
    ensures
        ({
            let here = drive::here_of(id, sorting, kind);
            let parts = drive::here_pairs(id, sorting, kind);
            &&& query::path_and_query(here).0 == "/drive"@
            &&& parts.len() > 0 ==> text::split_on(query::path_and_query(here).1, '&') == parts
                && !text::free_of(here, '?')
            &&& parts.len() == 0 ==> here == "/drive"@ && text::free_of(here, '?')
                && text::split_on(query::path_and_query(here).1, '&') == seq![Seq::<char>::empty()]
        }),
{
    reveal_strlit("/drive?");
    reveal_strlit("/drive");
    reveal_strlit("&");
    assert("&"@ =~= seq!['&']);
    let parts = drive::here_pairs(id, sorting, kind);
    let here = drive::here_of(id, sorting, kind);
    assert(text::free_of("/drive"@, '?'));
    if parts.len() > 0 {
        lemma_here_pairs(id, sorting, kind);
        assert(here =~= address::with_pairs("/drive"@, parts));
        address::lemma_with_pairs("/drive"@, parts);
        text::lemma_split_joined(parts, '&');
        assert(here["/drive"@.len() as int] == '?');
    } else {
        text::lemma_split_none("/drive"@, '?');
        text::lemma_split_none(Seq::empty(), '&');
    }
}

/// The folder view's own address opens the same folder again, in the same order
/// and under the same filter.
pub proof fn law_the_folder_view_address_is_read_back(
    id: Seq<char>,
    sorting: Option<(SortKey, SortDir)>,
    kind: KindFilter,
)
    requires
        text::free_of(id, '&'),
    ensures
        ({
            let (path, query) = query::path_and_query(drive::here_of(id, sorting, kind));
            &&& path == "/drive"@
            &&& id.len() > 0 ==> query::value_of(query, "folder"@) == Some(id)
            &&& id.len() == 0 ==> query::value_of(query, "folder"@) is None
            &&& drive::sort_named(query::value_of(query, "sort"@)) == sorting
            &&& drive::filter_named(query::value_of(query, "kind"@)) == kind
            &&& query::value_of(query, "edit"@) is None
            &&& query::value_of(query, "share"@) is None
            &&& query::value_of(query, "move"@) is None
        }),
{
    lemma_here_pairs(id, sorting, kind);
    lemma_here_split(id, sorting, kind);
    let query = query::path_and_query(drive::here_of(id, sorting, kind)).1;
    let parts = drive::here_pairs(id, sorting, kind);
    if parts.len() == 0 {
        let bare = seq![Seq::<char>::empty()];
        text::lemma_split_none(Seq::empty(), '=');
        assert forall|name: Seq<char>| #[trigger] holds_once(bare, name, None) by {
            assert forall|j: int| 0 <= j < bare.len() implies query::value_in(
                #[trigger] bare[j],
                name,
            ) is None by {
                assert(bare[j] == Seq::<char>::empty());
            }
        }
        assert(holds_once(bare, "folder"@, None));
        assert(holds_once(bare, "sort"@, None));
        assert(holds_once(bare, "kind"@, None));
        assert(holds_once(bare, "edit"@, None));
        assert(holds_once(bare, "share"@, None));
        assert(holds_once(bare, "move"@, None));
    }
    lemma_holds_once(
        query,
        "folder"@,
        if id.len() > 0 {
            Some(id)
        } else {
            None
        },
    );
    lemma_holds_once(
        query,
        "sort"@,
        match sorting {
            Some((key, dir)) => Some(drive::sort_word(key, dir)),
            None => None,
        },
    );
    lemma_holds_once(
        query,
        "kind"@,
        if kind != KindFilter::All {
            Some(drive::filter_word(kind))
        } else {
            None
        },
    );
    lemma_holds_once(query, "edit"@, None);
    lemma_holds_once(query, "share"@, None);
    lemma_holds_once(query, "move"@, None);
    lemma_no_sort();
    match sorting {
        Some((key, dir)) => {
            drive::law_sort_round_trip(key, dir);
        },
        None => {},
    }
    drive::law_filter_round_trip(kind);
}

proof fn lemma_no_sort()
    ensures
        drive::sort_named(None) is None,
{
    reveal_strlit("name");
    reveal_strlit("uploaded");
    reveal_strlit("size");
    reveal_strlit("downloads");
    assert("name"@.len() == 4 && "uploaded"@.len() == 8 && "size"@.len() == 4 && "downloads"@.len()
        == 9);
}

proof fn lemma_extended(
    id: Seq<char>,
    sorting: Option<(SortKey, SortDir)>,
    kind: KindFilter,
    name: Seq<char>,
    value: Seq<char>,
)
    requires
        text::free_of(id, '&') && text::free_of(value, '&'),
        text::free_of(name, '=') && text::free_of(name, '&'),
        name == "edit"@ || name == "share"@ || name == "move"@,
    ensures
        ({
            let there = drive::extended(drive::here_of(id, sorting, kind), pair_of(name, value));
            let query = query::path_and_query(there).1;
            &&& query::value_of(query, name) == Some(value)
            &&& query::value_of(query, "folder"@) == if id.len() > 0 {
                Some(id)
            } else {
                None
            }
        }),
{
    lemma_names();
    lemma_here_pairs(id, sorting, kind);
    lemma_here_split(id, sorting, kind);
    lemma_pair_of(name, value);
    let here = drive::here_of(id, sorting, kind);
    let pair = pair_of(name, value);
    let parts = drive::here_pairs(id, sorting, kind);
    address::lemma_pair_behind(here, pair);
    let query = query::path_and_query(drive::extended(here, pair)).1;
    let all = text::split_on(query, '&');
    assert(all =~= parts.push(pair));
    assert forall|j: int| 0 <= j < parts.len() implies query::value_in(#[trigger] all[j], name)
        is None by {
        assert(all[j] == parts[j]);
    }
    assert(query::value_in(all[parts.len() as int], name) == Some(value));
    assert(holds_once(all, name, Some(value)));
    lemma_holds_once(query, name, Some(value));
    let folder = if id.len() > 0 {
        Some(id)
    } else {
        None
    };
    assert(holds_once(all, "folder"@, folder)) by {
        if id.len() > 0 {
            let at = choose|at: int|
                0 <= at < parts.len() && query::value_in(#[trigger] parts[at], "folder"@) == Some(
                    id,
                ) && (forall|j: int|
                    0 <= j < at ==> query::value_in(#[trigger] parts[j], "folder"@) is None);
            assert(all[at] == parts[at]);
            assert forall|j: int| 0 <= j < at implies query::value_in(
                #[trigger] all[j],
                "folder"@,
            ) is None by {
                assert(all[j] == parts[j]);
            }
        } else {
            assert forall|j: int| 0 <= j < all.len() implies query::value_in(
                #[trigger] all[j],
                "folder"@,
            ) is None by {
                if j < parts.len() {
                    assert(all[j] == parts[j]);
                }
            }
        }
    }
    lemma_holds_once(query, "folder"@, folder);
}

/// The links of a row lead back into the same folder, with the row's own rename
/// form, share dialog or move picker open.
pub proof fn law_rows_lead_to_their_own_forms(
    row: EntryRow,
    kind: ShareKind,
    id: Seq<char>,
    name: Seq<char>,
    edit: Option<Seq<char>>,
    current: Seq<char>,
    sorting: Option<(SortKey, SortDir)>,
    filter: KindFilter,
)
    requires
        drive::row_common(row, kind, id, name, drive::here_of(current, sorting, filter), edit),
        text::free_of(id, '&') && text::free_of(current, '&'),
    ensures
        row.id@ == id && row.name@ == name && row.kind == kind,
        row.editing <==> edit == Some(id),
        query::value_of(query::path_and_query(row.edit_href@).1, "edit"@) == Some(id),
        ({
            let shared = query::value_of(query::path_and_query(row.share_href@).1, "share"@);
            let moved = query::value_of(query::path_and_query(row.move_href@).1, "move"@);
            &&& kind == ShareKind::File ==> drive::pair_named(shared) == Some(("file"@, id))
                && drive::pair_named(moved) == Some(("file"@, id))
            &&& kind == ShareKind::Folder ==> drive::pair_named(shared) == Some(("folder"@, id))
                && drive::pair_named(moved) == Some(("folder"@, id))
        }),
        current.len() > 0 ==> {
            &&& query::value_of(query::path_and_query(row.edit_href@).1, "folder"@) == Some(current)
            &&& query::value_of(query::path_and_query(row.share_href@).1, "folder"@) == Some(current)
            &&& query::value_of(query::path_and_query(row.move_href@).1, "folder"@) == Some(current)
        },
{
    lemma_names();
    let word = if kind == ShareKind::File {
        "file"@
    } else {
        "folder"@
    };
    let value = word + seq![':'] + id;
    assert(text::free_of(value, '&')) by {
        assert forall|i: int| 0 <= i < value.len() implies #[trigger] value[i] != '&' by {
            if i < word.len() {
                assert(value[i] == word[i]);
            } else if i > word.len() {
                assert(value[i] == id[i - word.len() - 1]);
            }
        }
    }
    text::lemma_split_front(word, ':', id);
    assert("edit="@ + id =~= pair_of("edit"@, id));
    lemma_extended(current, sorting, filter, "edit"@, id);
    lemma_extended(current, sorting, filter, "share"@, value);
    lemma_extended(current, sorting, filter, "move"@, value);
    if kind == ShareKind::File {
        assert("share=file:"@ + id =~= pair_of("share"@, value));
        assert("move=file:"@ + id =~= pair_of("move"@, value));
    } else {
        assert("share=folder:"@ + id =~= pair_of("share"@, value));
        assert("move=folder:"@ + id =~= pair_of("move"@, value));
    }
}

/// The drive shows what one of its own calls was refused with, and nothing that
/// another page's call was.
pub proof fn law_the_drive_shows_its_own_refusals(
    back: Seq<char>,
    call: Seq<char>,
    refusal: Refusal,
)
    requires
        text::free_of(call, '&'),
    ensures
        ({
            let there = address::answered_at(address::settled(back), call, Some(refusal), false);
            let query = query::path_and_query(there).1;
            &&& call == "create"@ || call == "rename"@ || call == "move"@ || call == "delete"@
                || call == "upload"@ ==> drive::page_refused(Some(query)) == Some(refusal)
            &&& call != "create"@ && call != "rename"@ && call != "move"@ && call != "delete"@
                && call != "upload"@ ==> drive::page_refused(Some(query)) is None
        }),
        drive::page_refused(None) is None,
        drive::page_refused(Some(query::path_and_query(address::settled(back)).1)) is None,
{
    address::law_answer_is_read_back(back, call, refusal, false);
    let there = address::answered_at(address::settled(back), call, Some(refusal), false);
    let query = query::path_and_query(there).1;
    assert(query::last_value_of(query, "on"@) == Some(call));
    reveal_strlit("create");
    reveal_strlit("rename");
    reveal_strlit("move");
    reveal_strlit("delete");
    reveal_strlit("upload");
    assert("create"@[0] == 'c' && "rename"@[0] == 'r' && "move"@[0] == 'm' && "delete"@[0] == 'd'
        && "upload"@[0] == 'u');
    address::law_settled_address_tells_nothing(back, "create"@);
    address::law_settled_address_tells_nothing(back, "rename"@);
    address::law_settled_address_tells_nothing(back, "move"@);
    address::law_settled_address_tells_nothing(back, "delete"@);
    address::law_settled_address_tells_nothing(back, "upload"@);
}

/// Settling drops what a page says of the last call and keeps everything else an
/// address holds, in its order.
pub proof fn law_settling_keeps_the_rest(path: Seq<char>, pairs: Seq<Seq<char>>)
    requires
        text::free_of(path, '?'),
    ensures
        address::settled(path) == path,
        pairs.len() > 0 && (forall|i: int|
            0 <= i < pairs.len() ==> {
                &&& text::free_of(#[trigger] pairs[i], '&')
                &&& pairs[i].len() > 0
                &&& query::value_in(pairs[i], "refusal"@) is None
                &&& query::value_in(pairs[i], "on"@) is None
                &&& query::value_in(pairs[i], "why"@) is None
                &&& query::value_in(pairs[i], "saved"@) is None
                &&& query::value_in(pairs[i], "move"@) is None
            }) ==> address::settled(address::with_pairs(path, pairs)) == address::with_pairs(
            path,
            pairs,
        ),
{
    text::lemma_split_none(path, '?');
    text::lemma_split_none(Seq::empty(), '&');
    let keeps = |pair: Seq<char>| pair.len() > 0 && !address::is_feedback(pair);
    let bare = text::split_on(Seq::<char>::empty(), '&');
    assert(bare =~= seq![Seq::<char>::empty()]);
    assert(bare.drop_last() =~= Seq::<Seq<char>>::empty());
    assert(text::keep_parts(bare.drop_last(), keeps) =~= Seq::<Seq<char>>::empty());
    assert(text::keep_parts(bare, keeps) =~= Seq::<Seq<char>>::empty());
    if pairs.len() > 0 && (forall|i: int|
        0 <= i < pairs.len() ==> {
            &&& text::free_of(#[trigger] pairs[i], '&')
            &&& pairs[i].len() > 0
            &&& query::value_in(pairs[i], "refusal"@) is None
            &&& query::value_in(pairs[i], "on"@) is None
            &&& query::value_in(pairs[i], "why"@) is None
            &&& query::value_in(pairs[i], "saved"@) is None
            &&& query::value_in(pairs[i], "move"@) is None
        }) {
        address::lemma_with_pairs(path, pairs);
        text::lemma_split_joined(pairs, '&');
        text::lemma_keep_all(pairs, keeps);
    }
}

/// A redirect is rewritten only for a browser that asked for a page from a page
/// and was sent on with a 303: with the refusal on its address where the answer
/// named one, and in any case to this host.
pub proof fn law_redirects_carry_the_refusal(
    accept: Option<Seq<char>>,
    has_referer: bool,
    status: int,
    path: Seq<char>,
    location: Seq<char>,
    refusal: Refusal,
    k: int,
)
    ensures
        accept is None || !has_referer || status != 303 || !text::holds_text(
            accept->0,
            "text/html"@,
        ) ==> {
            &&& address::relocated(
                accept,
                has_referer,
                status,
                path,
                Some(location),
                RedirectBody::Refused(refusal),
            ) is None
            &&& address::relocated(
                accept,
                has_referer,
                status,
                path,
                Some(location),
                RedirectBody::Clean,
            ) is None
        },
        accept is Some && 0 <= k && k + "text/html"@.len() <= accept->0.len() && accept->0.subrange(
            k,
            k + "text/html"@.len(),
        ) == "text/html"@ && has_referer && status == 303 ==> {
            &&& address::relocated(
                accept,
                has_referer,
                status,
                path,
                Some(location),
                RedirectBody::Clean,
            ) == Some(address::local_part(location))
            &&& address::relocated(
                accept,
                has_referer,
                status,
                path,
                Some(location),
                RedirectBody::Unreadable,
            ) is None
            &&& address::call_of(path).len() > 0 ==> match address::relocated(
                accept,
                has_referer,
                status,
                path,
                Some(location),
                RedirectBody::Refused(refusal),
            ) {
                Some(there) => address::refused_on(
                    Some(query::path_and_query(there).1),
                    address::call_of(path),
                ) == Some(refusal) && address::is_local(there),
                None => false,
            }
        },
        address::relocated(accept, has_referer, status, path, None, RedirectBody::Clean) is None,
{
    if accept is Some && 0 <= k && k + "text/html"@.len() <= accept->0.len() && accept->0.subrange(
        k,
        k + "text/html"@.len(),
    ) == "text/html"@ {
        assert(text::stands_at(accept->0, "text/html"@, k));
    }
    let call = address::call_of(path);
    let f = |c: char| address::is_call_char(c);
    let last = text::split_on(path, '/').last();
    text::lemma_keep(last, f);
    assert(text::free_of(call, '&')) by {
        assert forall|i: int| 0 <= i < call.len() implies #[trigger] call[i] != '&' by {
            assert(f(text::keep(last, f)[i]));
        }
    }
    if call.len() > 0 {
        address::law_carried_refusal_is_read_back(location, refusal, call);
    }
}

proof fn lemma_keep_whole(s: Seq<char>, f: spec_fn(char) -> bool)
    requires
        forall|i: int| 0 <= i < s.len() ==> f(#[trigger] s[i]),
    ensures
        text::keep(s, f) == s,
    decreases s.len(),
{
    if s.len() > 0 {
        let head = s.drop_last();
        assert forall|i: int| 0 <= i < head.len() implies f(#[trigger] head[i]) by {
            assert(head[i] == s[i]);
        }
        lemma_keep_whole(head, f);
        assert(f(s[s.len() - 1]));
        assert(head.push(s.last()) =~= s);
    }
}

/// A call goes by the last piece of its path.
pub proof fn law_calls_go_by_their_last_piece(front: Seq<char>, call: Seq<char>)
    requires
        forall|i: int|
            0 <= i < call.len() ==> ('a' <= #[trigger] call[i] <= 'z') || call[i] == '-',
    ensures
        address::call_of(front + seq!['/'] + call) == call,
{
    assert(text::free_of(call, '/')) by {
        assert forall|i: int| 0 <= i < call.len() implies #[trigger] call[i] != '/' by {}
    }
    text::lemma_split_concat(front, '/', call);
    text::lemma_split_none(call, '/');
    let f = |c: char| address::is_call_char(c);
    assert forall|i: int| 0 <= i < call.len() implies f(#[trigger] call[i]) by {}
    lemma_keep_whole(call, f);
}

/// What a minted link sends the browser to holds its token, so the page can show
/// the link once.
pub proof fn law_a_minted_link_is_shown(
    referer: Option<Seq<char>>,
    token: String,
    error: StoreError,
)
    requires
        token@.len() > 0,
        text::free_of(token@, '&'),
    ensures
        query::created_in(query::path_and_query(share::minted_at(referer, Ok(token))).1) == Some(
            token@,
        ),
        address::refused_on(
            Some(query::path_and_query(share::minted_at(referer, Err(error))).1),
            "create"@,
        ) == Some(share::share_words(error)),
{
    let page = match referer {
        Some(page) => page,
        None => "/settings"@,
    };
    share::law_minted_token_is_read_back(address::settled(page), token@);
    reveal_strlit("create");
    assert(text::free_of("create"@, '&'));
    address::law_answer_is_read_back(page, "create"@, share::share_words(error), false);
}

/// A share call that was refused says why on the page it came from; one that
/// went through says nothing.
pub proof fn law_share_calls_answer(
    referer: Option<Seq<char>>,
    call: Seq<char>,
    outcome: Result<(), StoreError>,
)
    requires
        text::free_of(call, '&'),
    ensures
        ({
            let query = query::path_and_query(share::share_answer(referer, call, outcome)).1;
            &&& outcome is Ok ==> address::refused_on(Some(query), call) is None
            &&& outcome is Err ==> address::refused_on(Some(query), call) == Some(
                share::share_words(outcome->Err_0),
            )
        }),
{
    let page = match referer {
        Some(page) => page,
        None => "/settings"@,
    };
    address::law_settled_address_tells_nothing(page, call);
    match outcome {
        Ok(_) => {},
        Err(error) => {
            address::law_answer_is_read_back(page, call, share::share_words(error), false);
        },
    }
}

/// Carrying a refusal keeps everything else the address holds, in its order.
pub proof fn law_carrying_keeps_the_rest(
    path: Seq<char>,
    pairs: Seq<Seq<char>>,
    code: Seq<char>,
    call: Seq<char>,
)
    requires
        call.len() > 0,
        text::free_of(path, '?') && text::free_of(path, ':'),
        path.len() > 0 && path[0] == '/',
        path.len() > 1 ==> path[1] != '/' && path[1] != '\\',
        pairs.len() > 0,
        forall|i: int|
            0 <= i < pairs.len() ==> {
                &&& text::free_of(#[trigger] pairs[i], '&')
                &&& text::free_of(pairs[i], ':')
                &&& pairs[i].len() > 0
                &&& query::value_in(pairs[i], "refusal"@) is None
                &&& query::value_in(pairs[i], "on"@) is None
            },
    ensures
        address::carried(address::with_pairs(path, pairs), code, call) == Some(
            address::with_pairs(path, pairs.push(address::answer_pair(code, call))),
        ),
{
    let whole = address::with_pairs(path, pairs);
    let query = text::joined(pairs, seq!['&']);
    lemma_joined_free(pairs, ':');
    assert(text::free_of(whole, ':')) by {
        assert forall|i: int| 0 <= i < whole.len() implies #[trigger] whole[i] != ':' by {
            if i < path.len() {
                assert(whole[i] == path[i]);
            } else if i > path.len() {
                assert(whole[i] == query[i - path.len() - 1]);
            }
        }
    }
    reveal_strlit("://");
    text::lemma_find_holds(whole, "://"@, 0);
    match text::find_from(whole, "://"@, 0) {
        Some(at) => {
            assert(whole.subrange(at, at + "://"@.len())[0] == whole[at]);
        },
        None => {},
    }
    assert(whole[0] == path[0]);
    if path.len() > 1 {
        assert(whole[1] == path[1]);
    } else {
        assert(whole[1] == '?');
    }
    assert(address::local_part(whole) == whole);
    address::lemma_with_pairs(path, pairs);
    text::lemma_split_joined(pairs, '&');
    let f = |pair: Seq<char>|
        pair.len() > 0 && !(query::value_in(pair, "refusal"@) is Some) && !(query::value_in(
            pair,
            "on"@,
        ) is Some);
    text::lemma_keep_all(pairs, f);
}

proof fn lemma_joined_free(pairs: Seq<Seq<char>>, c: char)
    requires
        c != '&',
        forall|i: int| 0 <= i < pairs.len() ==> text::free_of(#[trigger] pairs[i], c),
    ensures
        text::free_of(text::joined(pairs, seq!['&']), c),
    decreases pairs.len(),
{
    if pairs.len() > 1 {
        let head = pairs.drop_last();
        assert forall|i: int| 0 <= i < head.len() implies text::free_of(#[trigger] head[i], c) by {
            assert(head[i] == pairs[i]);
        }
        lemma_joined_free(head, c);
        let front = text::joined(head, seq!['&']);
        let whole = text::joined(pairs, seq!['&']);
        assert(text::free_of(pairs[pairs.len() - 1], c));
        assert forall|i: int| 0 <= i < whole.len() implies #[trigger] whole[i] != c by {
            if i < front.len() {
                assert(whole[i] == front[i]);
            } else if i > front.len() {
                assert(whole[i] == pairs.last()[i - front.len() - 1]);
            }
        }
    } else if pairs.len() == 1 {
        assert(text::free_of(pairs[0], c));
    }
}

} // verus!
