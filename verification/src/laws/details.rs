//! Marks, names, tags and answers.
use crate::address;
use crate::drive::KindFilter;
use crate::files;
use crate::guard;
use crate::guard::{Demand, Plan, Row, Verdict};
use crate::i18n;
use crate::i18n::{Key, Lang};
use crate::laws::bytes::lemma_prefix_letter;
use crate::layout;
use crate::media;
use crate::model::{File, Folder, ShareKind, StoreError, User};
use crate::query;
use crate::refusal;
use crate::refusal::Refusal;
use crate::search;
use crate::server;
use crate::server::HealthModel;
use crate::service;
use crate::service::ReplyModel;
use crate::settings;
use crate::share;
use crate::shared;
use crate::shared::{SharedAsk, SharedKey, SharedRow};
use crate::sizes;
use crate::sync;
use crate::text;
use crate::trash;
use crate::trash::{TrashAsk, TrashKey};
use vstd::prelude::*;

verus! {

/// A row stands for its file or its folder: it is its owner's, and trashed
/// exactly where that is.
pub proof fn law_rows_stand_for_their_target(of_file: Row, file: File, of_folder: Row, folder: Folder)
    requires
        guard::row_of_file(of_file, file),
        guard::row_of_folder(of_folder, folder),
    ensures
        of_file.owner_id@ == file.owner_id@,
        of_file.trashed <==> file.deleted_at is Some,
        of_folder.owner_id@ == folder.owner_id@,
        of_folder.trashed <==> folder.deleted_at is Some,
{
}

/// A share of a live file goes through for its owner and for nobody else.
pub proof fn law_only_the_owner_shares(plan: Plan, row: Row, file: File, id: Seq<char>, user: User)
    requires
        share::plans_share(plan, "file"@, id),
        guard::row_of_file(row, file),
    ensures
        guard::verdict_of(Ok(user), plan, seq![Ok(Some(row))]) == Verdict::Go <==> file.owner_id@
            == user.id@ && file.deleted_at is None,
{
    reveal_strlit("file");
    reveal_strlit("folder");
    assert("file"@.len() != "folder"@.len());
    crate::laws::calls::law_one_row(
        plan,
        ShareKind::File,
        id,
        Demand::Live,
        Refusal::Unavailable,
        user,
        row,
        StoreError::NotFound,
    );
}

/// The glyph of a type tells its kind: pictures, videos, sounds, portable
/// documents, texts and bundles each have their own, and everything else shares
/// one.
pub proof fn law_every_kind_has_its_mark(mime: Seq<char>)
    ensures
        "image/"@.is_prefix_of(mime) ==> media::mark_of(mime).0 == "image"@,
        "video/"@.is_prefix_of(mime) ==> media::mark_of(mime).0 == "video"@,
        "audio/"@.is_prefix_of(mime) ==> media::mark_of(mime).0 == "audio"@,
        mime == "application/pdf"@ ==> media::mark_of(mime).0 == "pdf"@,
        "text/"@.is_prefix_of(mime) ==> media::mark_of(mime).0 == "text"@,
        mime == "application/zip"@ || mime == "application/gzip"@ || mime
            == "application/x-ole-storage"@ || mime == "application/vnd.ms-excel"@
            ==> media::mark_of(mime).0 == "archive"@,
{
    reveal_strlit("image/");
    reveal_strlit("video/");
    reveal_strlit("audio/");
    reveal_strlit("text/");
    reveal_strlit("application/pdf");
    reveal_strlit("application/zip");
    reveal_strlit("application/gzip");
    reveal_strlit("application/x-ole-storage");
    reveal_strlit("application/vnd.ms-excel");
    if "image/"@.is_prefix_of(mime) {
        lemma_prefix_letter("image/"@, mime, 0);
    }
    if "video/"@.is_prefix_of(mime) {
        lemma_prefix_letter("video/"@, mime, 0);
    }
    if "audio/"@.is_prefix_of(mime) {
        lemma_prefix_letter("audio/"@, mime, 0);
        lemma_prefix_letter("audio/"@, mime, 1);
    }
    if "text/"@.is_prefix_of(mime) {
        lemma_prefix_letter("text/"@, mime, 0);
    }
    assert("application/pdf"@[0] == 'a' && "application/pdf"@[1] == 'p' && "application/pdf"@[12]
        == 'p');
    assert("application/zip"@[0] == 'a' && "application/zip"@[1] == 'p' && "application/zip"@[12]
        == 'z');
    assert("application/gzip"@[0] == 'a' && "application/gzip"@[1] == 'p' && "application/gzip"@[12]
        == 'g');
    assert("application/x-ole-storage"@[0] == 'a' && "application/x-ole-storage"@[1] == 'p'
        && "application/x-ole-storage"@[12] == 'x');
    assert("application/vnd.ms-excel"@[0] == 'a' && "application/vnd.ms-excel"@[1] == 'p'
        && "application/vnd.ms-excel"@[12] == 'v');
}

/// The value of a hexadecimal digit.
pub open spec fn hex_value(c: char) -> int {
    if '0' <= c && c <= '9' {
        c as int - '0' as int
    } else {
        c as int - 'A' as int + 10
    }
}

/// The bytes a percent-encoded text stands for.
pub open spec fn percent_decoded(s: Seq<char>) -> Seq<u8>
    decreases s.len(),
{
    if s.len() == 0 {
        Seq::empty()
    } else if s[0] == '%' && s.len() >= 3 {
        seq![(16 * hex_value(s[1]) + hex_value(s[2])) as u8] + percent_decoded(s.skip(3))
    } else {
        seq![s[0] as u8] + percent_decoded(s.skip(1))
    }
}

/// One byte percent-encoded.
spec fn percent_unit(b: u8) -> Seq<char> {
    media::percent_encoded(seq![b])
}

proof fn lemma_percent_front(b: u8, rest: Seq<u8>)
    ensures
        media::percent_encoded(seq![b] + rest) == percent_unit(b) + media::percent_encoded(rest),
    decreases rest.len(),
{
    let whole = seq![b] + rest;
    if rest.len() == 0 {
        assert(whole =~= seq![b]);
        assert(percent_unit(b) + media::percent_encoded(rest) =~= percent_unit(b));
    } else {
        lemma_percent_front(b, rest.drop_last());
        assert(whole.drop_last() =~= seq![b] + rest.drop_last());
        assert(whole.last() == rest.last());
        assert(media::percent_encoded(whole) =~= percent_unit(b) + media::percent_encoded(rest));
    }
}

proof fn lemma_percent_unit(b: u8)
    ensures
        media::is_bare_byte(b) ==> percent_unit(b) == seq![b as char] && b as char != '%' && (
        b as char) as u8 == b,
        !media::is_bare_byte(b) ==> percent_unit(b) == seq![
            '%',
            media::upper_digit(b as int / 16),
            media::upper_digit(b as int % 16),
        ],
        16 * hex_value(media::upper_digit(b as int / 16)) + hex_value(
            media::upper_digit(b as int % 16),
        ) == b,
{
    let one = seq![b];
    assert(one.drop_last() =~= Seq::<u8>::empty());
    assert(media::percent_encoded(one.drop_last()) =~= Seq::<char>::empty());
    if media::is_bare_byte(b) {
        assert(percent_unit(b) =~= seq![b as char]);
    } else {
        assert(percent_unit(b) =~= seq![
            '%',
            media::upper_digit(b as int / 16),
            media::upper_digit(b as int % 16),
        ]);
    }
}

/// The name a download goes by is read back from its percent-encoding, byte for
/// byte, whatever the file is called.
pub proof fn law_encoded_names_are_read_back(bytes: Seq<u8>)
    ensures
        percent_decoded(media::percent_encoded(bytes)) == bytes,
    decreases bytes.len(),
{
    if bytes.len() > 0 {
        let b = bytes[0];
        let rest = bytes.drop_first();
        assert(bytes =~= seq![b] + rest);
        lemma_percent_front(b, rest);
        lemma_percent_unit(b);
        law_encoded_names_are_read_back(rest);
        let whole = media::percent_encoded(bytes);
        let tail = media::percent_encoded(rest);
        if media::is_bare_byte(b) {
            assert(whole[0] == b as char);
            assert(whole.skip(1) =~= tail);
        } else {
            assert(whole[0] == '%' && whole[1] == media::upper_digit(b as int / 16) && whole[2]
                == media::upper_digit(b as int % 16));
            assert(whole.skip(3) =~= tail);
        }
    } else {
        assert(media::percent_encoded(bytes) =~= Seq::<char>::empty());
    }
}

/// The disposition of a download names its file twice: plainly, every letter a
/// header cannot hold as an underscore, and in full.
pub proof fn law_dispositions_name_the_file(name: Seq<char>, inline: bool)
    ensures
        ({
            let head = (if inline {
                "inline"@
            } else {
                "attachment"@
            }) + "; filename=\""@;
            let plain = media::plain_name(name);
            let whole = media::disposition(name, inline);
            &&& head.is_prefix_of(whole)
            &&& whole.subrange(head.len() as int, (head.len() + plain.len()) as int) == plain
            &&& percent_decoded(
                whole.skip((head + plain + "\"; filename*=UTF-8''"@).len() as int),
            ) == vstd::utf8::encode_utf8(name)
            &&& plain.len() == name.len()
            &&& forall|i: int|
                0 <= i < name.len() ==> #[trigger] plain[i] == name[i] || plain[i] == '_'
            &&& forall|i: int|
                0 <= i < name.len() && ('a' <= name[i] <= 'z' || 'A' <= name[i] <= 'Z' || '0'
                    <= name[i] <= '9' || name[i] == '.' || name[i] == '-' || name[i] == '_')
                    ==> #[trigger] plain[i] == name[i]
        }),
{
    let head = (if inline {
        "inline"@
    } else {
        "attachment"@
    }) + "; filename=\""@;
    let plain = media::plain_name(name);
    let whole = media::disposition(name, inline);
    let mid = head + plain + "\"; filename*=UTF-8''"@;
    let tail = media::percent_encoded(vstd::utf8::encode_utf8(name));
    assert(whole =~= mid + tail);
    assert(whole.subrange(0, head.len() as int) =~= head);
    assert(whole.subrange(head.len() as int, (head.len() + plain.len()) as int) =~= plain);
    assert(whole.skip(mid.len() as int) =~= tail);
    law_encoded_names_are_read_back(vstd::utf8::encode_utf8(name));
}

/// The tag of stored bytes is their FNV-1a hash: of nothing the offset, and each
/// byte folded in and multiplied by the prime.
pub proof fn law_tags_are_fnv_hashes(bytes: Seq<u8>, b: u8)
    ensures
        files::fnv_of(Seq::empty()) == 0xcbf29ce484222325,
        files::fnv_of(bytes.push(b)) == vstd::wrapping::u64_specs::wrapping_mul(
            files::fnv_of(bytes) ^ (b as u64),
            0x100000001b3,
        ),
        files::etag_of(bytes) == "\""@ + text::numeral(files::fnv_of(bytes) as nat, 16) + "\""@,
{
    assert(bytes.push(b).drop_last() =~= bytes);
}

/// Whether a text is one word.
pub open spec fn one_word(s: Seq<char>) -> bool {
    s.len() > 0 && forall|i: int| 0 <= i < s.len() ==> !text::is_space(#[trigger] s[i])
}

proof fn lemma_word_start(before: Seq<char>, word: Seq<char>)
    requires
        one_word(word),
        before.len() == 0 || text::is_space(before.last()),
    ensures
        layout::word_starts(before + word) == layout::word_starts(before).push(word[0]),
    decreases word.len(),
{
    let whole = before + word;
    let head = word.drop_last();
    assert(whole.last() == word[word.len() - 1]);
    assert(whole.drop_last() =~= before + head);
    if word.len() == 1 {
        assert(head =~= Seq::<char>::empty());
        assert(before + head =~= before);
        if before.len() > 0 {
            assert(whole[whole.len() - 2] == before.last());
        }
    } else {
        assert(one_word(head)) by {
            assert forall|i: int| 0 <= i < head.len() implies !text::is_space(#[trigger] head[i]) by {
                assert(head[i] == word[i]);
            }
        }
        lemma_word_start(before, head);
        assert(whole[whole.len() - 2] == word[word.len() - 2]);
    }
}

proof fn lemma_space_starts_nothing(before: Seq<char>)
    ensures
        layout::word_starts(before.push(' ')) == layout::word_starts(before),
{
    assert(before.push(' ').drop_last() =~= before);
}

/// Initials are the first letters of the first two words of a name, or of its
/// only one; a name of none has a question mark.
pub proof fn law_initials(first: Seq<char>, second: Seq<char>, third: Seq<char>)
    requires
        one_word(first) && one_word(second) && one_word(third),
    ensures
        layout::leading(first) == seq![first[0]],
        layout::leading(first.push(' ') + second) == seq![first[0], second[0]],
        layout::leading((first.push(' ') + second).push(' ') + third) == seq![first[0], second[0]],
        layout::initials(Seq::empty()) == seq!['?'],
{
    let none = Seq::<char>::empty();
    assert(layout::word_starts(none) =~= none);
    lemma_word_start(none, first);
    assert(none + first =~= first);
    assert(layout::word_starts(first) =~= seq![first[0]]);
    lemma_space_starts_nothing(first);
    lemma_word_start(first.push(' '), second);
    let two = first.push(' ') + second;
    assert(layout::word_starts(two) =~= seq![first[0], second[0]]);
    lemma_space_starts_nothing(two);
    lemma_word_start(two.push(' '), third);
    assert(layout::word_starts(two.push(' ') + third) =~= seq![first[0], second[0], third[0]]);
    assert(layout::word_starts(two.push(' ') + third).take(2) =~= seq![first[0], second[0]]);
}

/// Of two pairs with one name the first is the value of a query, and the last
/// the last value.
pub proof fn law_first_and_last_values(query: Seq<char>, name: Seq<char>)
    ensures
        ({
            let parts = text::split_on(query, '&');
            &&& query::value_in(parts[0], name) is Some ==> query::value_of(query, name)
                == query::value_in(parts[0], name)
            &&& query::value_in(parts.last(), name) is Some ==> query::last_value_of(query, name)
                == query::value_in(parts.last(), name)
            &&& query::value_of(query, name) is Some <==> exists|i: int|
                0 <= i < parts.len() && query::value_in(#[trigger] parts[i], name) is Some
        }),
{
    let parts = text::split_on(query, '&');
    text::lemma_split_free(query, '&');
    let f = |pair: Seq<char>| query::value_in(pair, name);
    lemma_some_answer(parts, f);
    if query::value_of(query, name) is Some {
        let i = choose|i: int| 0 <= i < parts.len() && f(#[trigger] parts[i]) is Some;
        assert(query::value_in(parts[i], name) is Some);
    }
    if exists|i: int| 0 <= i < parts.len() && query::value_in(#[trigger] parts[i], name) is Some {
        let i = choose|i: int|
            0 <= i < parts.len() && query::value_in(#[trigger] parts[i], name) is Some;
        assert(f(parts[i]) is Some);
    }
}

proof fn lemma_some_answer(parts: Seq<Seq<char>>, f: spec_fn(Seq<char>) -> Option<Seq<char>>)
    ensures
        query::first_answer(parts, f) is Some <==> exists|i: int|
            0 <= i < parts.len() && f(#[trigger] parts[i]) is Some,
    decreases parts.len(),
{
    if parts.len() > 0 {
        let rest = parts.drop_first();
        lemma_some_answer(rest, f);
        if f(parts[0]) is None {
            if exists|i: int| 0 <= i < rest.len() && f(#[trigger] rest[i]) is Some {
                let i = choose|i: int| 0 <= i < rest.len() && f(#[trigger] rest[i]) is Some;
                assert(f(parts[i + 1]) is Some);
            }
            if exists|i: int| 0 <= i < parts.len() && f(#[trigger] parts[i]) is Some {
                let i = choose|i: int| 0 <= i < parts.len() && f(#[trigger] parts[i]) is Some;
                assert(rest[i - 1] == parts[i]);
            }
        }
    }
}

/// An old search link lands on the drive's own search, with its words.
pub proof fn law_old_searches_land_on_the_drive(query: Seq<char>, words: Seq<char>)
    ensures
        query::value_of(query, "q"@) is None ==> search::moved_to(query) == "/drive"@,
        query::value_of(query, "q"@) == Some(words) && text::trimmed(words).len() == 0
            ==> search::moved_to(query) == "/drive"@,
        query::value_of(query, "q"@) == Some(words) && text::trimmed(words).len() > 0
            && address::fits_header("/drive?q="@ + words) ==> search::moved_to(query) == "/drive?q="@
            + words,
{
}

/// The health page's standing is changed by what happened and by nothing else.
pub proof fn law_the_standing_of_the_stream(before: HealthModel, now: int)
    ensures
        server::stream_up(before).connected && !server::stream_down(before).connected,
        server::stream_up(before).last_event == before.last_event && server::stream_up(
            before,
        ).last_pass == before.last_pass,
        server::stream_down(before).last_event == before.last_event && server::stream_down(
            before,
        ).last_pass == before.last_pass,
        server::event_noted(before, now).connected && server::event_noted(before, now).last_event
            == now && server::event_noted(before, now).last_pass == before.last_pass,
        server::pass_noted(before, now).connected == before.connected && server::pass_noted(
            before,
            now,
        ).last_event == before.last_event && server::pass_noted(before, now).last_pass == now,
{
}

/// A machine's answer is a 401 for a caller without an account and a 200 for
/// every other, with a word exactly where it was refused.
pub proof fn law_machine_answers(reply: ReplyModel, word: Seq<char>)
    ensures
        service::status_of(ReplyModel::Unauthorized) == 401,
        !(reply is Unauthorized) ==> service::status_of(reply) == 200,
        service::word_of(ReplyModel::Unauthorized) == Some("Unauthorized"@),
        service::word_of(ReplyModel::Refused(word)) == Some(word),
        reply is Filed || reply is Done || reply is Status ==> service::word_of(reply) is None,
{
}

/// A changed setting is answered with the chip, a refused one with its reason.
pub proof fn law_changed_settings_answer(
    referer: Option<Seq<char>>,
    call: Seq<char>,
    outcome: Result<(), StoreError>,
)
    requires
        text::free_of(call, '&'),
    ensures
        ({
            let query = query::path_and_query(
                settings::setting_changed(referer, call, outcome),
            ).1;
            &&& outcome is Ok ==> query::value_of(query, "saved"@) == Some(call)
                && query::value_of(query, "refusal"@) is None
            &&& outcome is Err ==> address::refused_on(Some(query), call) == Some(
                share::share_words(outcome->Err_0),
            ) && share::named_refusal(query) == Some(share::share_words(outcome->Err_0))
                && query::value_of(query, "saved"@) is None
        }),
{
    let page = match referer {
        Some(page) => page,
        None => "/settings"@,
    };
    match outcome {
        Ok(_) => {
            address::law_saved_call_is_read_back(page, call);
        },
        Err(error) => {
            address::law_answer_is_read_back(page, call, share::share_words(error), true);
            refusal::law_code_round_trip(share::share_words(error));
        },
    }
}

/// A restore, a purge and an emptying that were refused say why on the trash;
/// those that went through say nothing.
pub proof fn law_trash_calls_answer(
    referer: Option<Seq<char>>,
    call: Seq<char>,
    outcome: Result<(), StoreError>,
    kind: ShareKind,
    gone: Result<bool, StoreError>,
)
    requires
        text::free_of(call, '&'),
    ensures
        ({
            let query = query::path_and_query(trash::trash_changed(referer, call, outcome)).1;
            &&& outcome is Ok ==> address::refused_on(Some(query), call) is None
            &&& outcome is Err ==> address::refused_on(Some(query), call) == Some(
                share::share_words(outcome->Err_0),
            )
        }),
        ({
            let query = query::path_and_query(trash::purge_answer(referer, kind, gone)).1;
            &&& gone == Ok::<bool, StoreError>(true) ==> address::refused_on(
                Some(query),
                "purge"@,
            ) is None
            &&& gone == Ok::<bool, StoreError>(false) && kind == ShareKind::File
                ==> address::refused_on(Some(query), "purge"@) == Some(Refusal::NotFound)
            &&& gone is Err ==> address::refused_on(Some(query), "purge"@) == Some(
                share::share_words(gone->Err_0),
            )
        }),
{
    let page = match referer {
        Some(page) => page,
        None => "/trash"@,
    };
    reveal_strlit("purge");
    assert(text::free_of("purge"@, '&'));
    address::law_settled_address_tells_nothing(page, call);
    address::law_settled_address_tells_nothing(page, "purge"@);
    match outcome {
        Ok(_) => {},
        Err(error) => {
            address::law_answer_is_read_back(page, call, share::share_words(error), false);
        },
    }
    match trash::purge_refusal(kind, gone) {
        Some(refusal) => {
            address::law_answer_is_read_back(page, "purge"@, refusal, false);
        },
        None => {},
    }
}

/// The two lists ask for what their queries say, and for everything, in their own
/// order, where those say nothing.
pub proof fn law_list_queries(of_trash: TrashAsk, of_shared: SharedAsk)
    requires
        trash::asks_trash(of_trash, None, None, None),
        shared::asks_shared(of_shared, None, None, None),
    ensures
        of_trash.key == TrashKey::Deleted && of_trash.descending,
        of_shared.key == SharedKey::Name && !of_shared.descending,
        of_trash.kind == KindFilter::All && of_shared.kind == KindFilter::All,
        of_trash.asked is None && of_shared.asked is None,
{
    crate::laws::words::law_trash_sort_words(TrashKey::Name, false);
    crate::laws::words::law_shared_sort_words(SharedKey::Name, false);
    assert(text::opt_text(of_trash.asked) is None <==> of_trash.asked is None);
    assert(text::opt_text(of_shared.asked) is None <==> of_shared.asked is None);
}

/// A shared row's details begin with what the grant opens, and only a file's go
/// on to its size and its downloads.
pub proof fn law_shared_details(lang: Lang, row: SharedRow)
    ensures
        row.item.can_download ==> i18n::phrase(lang, Key::CanDownload).is_prefix_of(
            shared::details_of(lang, row),
        ),
        !row.item.can_download ==> i18n::phrase(lang, Key::ViewOnly).is_prefix_of(
            shared::details_of(lang, row),
        ),
        row.item.kind == ShareKind::File ==> i18n::phrase(lang, Key::DownloadsLabel).is_suffix_of(
            shared::details_of(lang, row),
        ),
        row.item.kind == ShareKind::Folder ==> crate::clock::day_name(row.uploaded@).is_suffix_of(
            shared::details_of(lang, row),
        ),
{
    let whole = shared::details_of(lang, row);
    let words = share::access_words(lang, row.item.can_download);
    assert(whole.subrange(0, words.len() as int) =~= words);
    let last = i18n::phrase(lang, Key::DownloadsLabel);
    let day = crate::clock::day_name(row.uploaded@);
    if row.item.kind == ShareKind::File {
        assert(whole.subrange(whole.len() - last.len(), whole.len() as int) =~= last);
    } else {
        assert(whole.subrange(whole.len() - day.len(), whole.len() as int) =~= day);
    }
}

/// A quota reads as what is used of what there is.
pub proof fn law_quotas_read_used_of_all(lang: Lang, used: nat, quota: nat)
    ensures
        sizes::size_text(used, sizes::binary_units()).is_prefix_of(
            settings::quota_words(lang, used, quota),
        ),
        sizes::size_text(quota, sizes::binary_units()).is_suffix_of(
            settings::quota_words(lang, used, quota),
        ),
{
    let whole = settings::quota_words(lang, used, quota);
    let a = sizes::size_text(used, sizes::binary_units());
    let b = sizes::size_text(quota, sizes::binary_units());
    assert(whole.subrange(0, a.len() as int) =~= a);
    assert(whole.subrange(whole.len() - b.len(), whole.len() as int) =~= b);
}

/// Fingerprints write each byte as its two hexadecimal digits.
pub proof fn law_bytes_in_hexadecimal(bytes: Seq<u8>, b: u8)
    ensures
        server::hex_of(Seq::empty()).len() == 0,
        server::hex_of(bytes.push(b)) == server::hex_of(bytes) + seq![
            text::digit(b as int / 16),
            text::digit(b as int % 16),
        ],
        server::hex_of(bytes).len() == 2 * bytes.len(),
    decreases bytes.len(),
{
    assert(bytes.push(b).drop_last() =~= bytes);
    assert(server::hex_of(bytes.push(b)) =~= server::hex_of(bytes) + seq![
        text::digit(b as int / 16),
        text::digit(b as int % 16),
    ]);
    if bytes.len() > 0 {
        law_bytes_in_hexadecimal(bytes.drop_last(), b);
    }
}

/// The buckets of an account stand under its own address.
pub proof fn law_bucket_endpoints(account: Seq<char>, other: Seq<char>)
    ensures
        "https://"@.is_prefix_of(sync::endpoint_of(account)),
        ".r2.cloudflarestorage.com"@.is_suffix_of(sync::endpoint_of(account)),
        sync::endpoint_of(account) == sync::endpoint_of(other) ==> account == other,
{
    let whole = sync::endpoint_of(account);
    let (head, tail) = ("https://"@, ".r2.cloudflarestorage.com"@);
    assert(whole.subrange(0, head.len() as int) =~= head);
    assert(whole.subrange(whole.len() - tail.len(), whole.len() as int) =~= tail);
    if whole == sync::endpoint_of(other) {
        let n = head.len() as int;
        assert(whole.subrange(n, whole.len() - tail.len()) =~= account);
        assert(sync::endpoint_of(other).subrange(n, whole.len() - tail.len()) =~= other);
    }
}

/// A name a quoted header can hold is sent as it is.
pub proof fn law_quotable_names_are_kept(name: Seq<char>)
    requires
        name.len() > 0,
        forall|i: int|
            0 <= i < name.len() ==> !text::is_control_code(#[trigger] name[i]) && name[i] != '"'
                && name[i] != '\\',
    ensures
        media::quotable_name(name) == name,
{
    let f = |c: char| !text::is_control_code(c) && c != '"' && c != '\\';
    lemma_keep_whole(name, f);
}

proof fn lemma_keep_whole(s: Seq<char>, f: spec_fn(char) -> bool)
    requires
        forall|i: int| 0 <= i < s.len() ==> f(#[trigger] s[i]),
    ensures
        text::keep(s, f) == s,
    decreases s.len(),
{
    if s.len() > 0 {
        let head = s.drop_last();
        assert forall|i: int| 0 <= i < head.len() implies f(#[trigger] head[i]) by {
            assert(head[i] == s[i]);
        }
        lemma_keep_whole(head, f);
        assert(f(s[s.len() - 1]));
        assert(head.push(s.last()) =~= s);
    }
}

/// A text with a line break in it never stands in a header, plain text always
/// may.
pub proof fn law_what_fits_a_header(s: Seq<char>, i: int)
    ensures
        0 <= i < s.len() && (s[i] == '\n' || s[i] == '\r' || s[i] as u32 == 0 || s[i] as u32 == 127)
            ==> !address::fits_header(s),
        (forall|k: int| 0 <= k < s.len() ==> ' ' <= #[trigger] s[k] <= '~') ==> address::fits_header(
            s,
        ),
{
    if 0 <= i < s.len() {
        let c = s[i];
        assert(address::fits_header(s) ==> (c as u32 >= 32 && c as u32 != 127) || c == '\t');
    }
}

/// A type no header can hold is sent as plain bytes, and a name none can hold as
/// a plain attachment.
pub proof fn law_unfit_headers_fall_back(
    reply: files::ByteReply,
    file: File,
    forced: bool,
    range: Option<Seq<char>>,
    total: u64,
)
    requires
        files::bytes_answered(reply, file, forced, range, total),
    ensures
        !address::fits_header(file.mime@) ==> files::header_texts(reply.headers@)[0] == (
            "content-type"@,
            "application/octet-stream"@,
        ),
        forced && !address::fits_header(media::disposition(file.name@, false))
            ==> files::header_texts(reply.headers@)[1] == ("content-disposition"@, "attachment"@),
        forced && address::fits_header(media::disposition(file.name@, false)) ==> files::header_texts(
            reply.headers@,
        )[1] == ("content-disposition"@, media::disposition(file.name@, false)),
{
}

/// A name in small letters, with a dash at each of two cuts that is not at its
/// edge.
pub open spec fn spelled(name: Seq<char>, first: int, second: int) -> Seq<char> {
    text::ascii_lowered(name.take(first)) + (if first > 0 {
        seq!['-']
    } else {
        Seq::empty()
    }) + text::ascii_lowered(name.subrange(first, second)) + (if second > first {
        seq!['-']
    } else {
        Seq::empty()
    }) + text::ascii_lowered(name.skip(second))
}

/// Whether a code spells a name with those cuts.
pub open spec fn spells(code: Seq<char>, name: Seq<char>, first: int, second: int) -> bool {
    0 <= first <= second <= name.len() && code == spelled(name, first, second)
}

/// The code a refusal has on an address spells the name it has for scripts, in
/// small letters with dashes between its words.
pub proof fn law_codes_spell_their_names(refusal: Refusal)
    ensures
        exists|first: int, second: int| #[trigger]
            spells(refusal::code_of(refusal), refusal::name_of(refusal), first, second),
{
    match refusal {
        Refusal::SignInFirst => {
            reveal_strlit("sign-in-first");
            reveal_strlit("SignInFirst");
            assert("sign-in-first"@ =~= spelled("SignInFirst"@, 4, 6));
            assert(spells(refusal::code_of(refusal), refusal::name_of(refusal), 4, 6));
        },
        Refusal::Forbidden => {
            reveal_strlit("forbidden");
            reveal_strlit("Forbidden");
            assert("forbidden"@ =~= spelled("Forbidden"@, 0, 0));
            assert(spells(refusal::code_of(refusal), refusal::name_of(refusal), 0, 0));
        },
        Refusal::NotFound => {
            reveal_strlit("not-found");
            reveal_strlit("NotFound");
            assert("not-found"@ =~= spelled("NotFound"@, 0, 3));
            assert(spells(refusal::code_of(refusal), refusal::name_of(refusal), 0, 3));
        },
        Refusal::QuotaExceeded => {
            reveal_strlit("quota-exceeded");
            reveal_strlit("QuotaExceeded");
            assert("quota-exceeded"@ =~= spelled("QuotaExceeded"@, 0, 5));
            assert(spells(refusal::code_of(refusal), refusal::name_of(refusal), 0, 5));
        },
        Refusal::FolderNotEmpty => {
            reveal_strlit("folder-not-empty");
            reveal_strlit("FolderNotEmpty");
            assert("folder-not-empty"@ =~= spelled("FolderNotEmpty"@, 6, 9));
            assert(spells(refusal::code_of(refusal), refusal::name_of(refusal), 6, 9));
        },
        Refusal::CrossOwner => {
            reveal_strlit("cross-owner");
            reveal_strlit("CrossOwner");
            assert("cross-owner"@ =~= spelled("CrossOwner"@, 0, 5));
            assert(spells(refusal::code_of(refusal), refusal::name_of(refusal), 0, 5));
        },
        Refusal::ShareRevoked => {
            reveal_strlit("share-revoked");
            reveal_strlit("ShareRevoked");
            assert("share-revoked"@ =~= spelled("ShareRevoked"@, 0, 5));
            assert(spells(refusal::code_of(refusal), refusal::name_of(refusal), 0, 5));
        },
        Refusal::UploadExpired => {
            reveal_strlit("upload-expired");
            reveal_strlit("UploadExpired");
            assert("upload-expired"@ =~= spelled("UploadExpired"@, 0, 6));
            assert(spells(refusal::code_of(refusal), refusal::name_of(refusal), 0, 6));
        },
        Refusal::BadChunk => {
            reveal_strlit("bad-chunk");
            reveal_strlit("BadChunk");
            assert("bad-chunk"@ =~= spelled("BadChunk"@, 0, 3));
            assert(spells(refusal::code_of(refusal), refusal::name_of(refusal), 0, 3));
        },
        Refusal::NameTaken => {
            reveal_strlit("name-taken");
            reveal_strlit("NameTaken");
            assert("name-taken"@ =~= spelled("NameTaken"@, 0, 4));
            assert(spells(refusal::code_of(refusal), refusal::name_of(refusal), 0, 4));
        },
        Refusal::UploadTooLarge => {
            reveal_strlit("upload-too-large");
            reveal_strlit("UploadTooLarge");
            assert("upload-too-large"@ =~= spelled("UploadTooLarge"@, 6, 9));
            assert(spells(refusal::code_of(refusal), refusal::name_of(refusal), 6, 9));
        },
        Refusal::AncestorTrashed => {
            reveal_strlit("ancestor-trashed");
            reveal_strlit("AncestorTrashed");
            assert("ancestor-trashed"@ =~= spelled("AncestorTrashed"@, 0, 8));
            assert(spells(refusal::code_of(refusal), refusal::name_of(refusal), 0, 8));
        },
        Refusal::Unavailable => {
            reveal_strlit("unavailable");
            reveal_strlit("Unavailable");
            assert("unavailable"@ =~= spelled("Unavailable"@, 0, 0));
            assert(spells(refusal::code_of(refusal), refusal::name_of(refusal), 0, 0));
        },
        Refusal::BadUi => {
            reveal_strlit("bad-ui");
            reveal_strlit("BadUi");
            assert("bad-ui"@ =~= spelled("BadUi"@, 0, 3));
            assert(spells(refusal::code_of(refusal), refusal::name_of(refusal), 0, 3));
        },
        Refusal::BadTheme => {
            reveal_strlit("bad-theme");
            reveal_strlit("BadTheme");
            assert("bad-theme"@ =~= spelled("BadTheme"@, 0, 3));
            assert(spells(refusal::code_of(refusal), refusal::name_of(refusal), 0, 3));
        },
        Refusal::BadLanguage => {
            reveal_strlit("bad-language");
            reveal_strlit("BadLanguage");
            assert("bad-language"@ =~= spelled("BadLanguage"@, 0, 3));
            assert(spells(refusal::code_of(refusal), refusal::name_of(refusal), 0, 3));
        },
        Refusal::BadLimit => {
            reveal_strlit("bad-limit");
            reveal_strlit("BadLimit");
            assert("bad-limit"@ =~= spelled("BadLimit"@, 0, 3));
            assert(spells(refusal::code_of(refusal), refusal::name_of(refusal), 0, 3));
        },
        Refusal::BadBaseUrl => {
            reveal_strlit("bad-base-url");
            reveal_strlit("BadBaseUrl");
            assert("bad-base-url"@ =~= spelled("BadBaseUrl"@, 3, 7));
            assert(spells(refusal::code_of(refusal), refusal::name_of(refusal), 3, 7));
        },
        Refusal::ServiceQuota => {
            reveal_strlit("service-quota");
            reveal_strlit("ServiceQuota");
            assert("service-quota"@ =~= spelled("ServiceQuota"@, 0, 7));
            assert(spells(refusal::code_of(refusal), refusal::name_of(refusal), 0, 7));
        },
        Refusal::BadServiceKey => {
            reveal_strlit("bad-service-key");
            reveal_strlit("BadServiceKey");
            assert("bad-service-key"@ =~= spelled("BadServiceKey"@, 3, 10));
            assert(spells(refusal::code_of(refusal), refusal::name_of(refusal), 3, 10));
        },
    }
}

} // verus!
