//! The cards behind a public link, and the pages around the drive.
use crate::i18n;
use crate::i18n::{Key, Lang};
use crate::laws::addresses::{holds_once, lemma_holds_once, lemma_pair_of, pair_of};
use crate::laws::bytes::lemma_prefix_letter;
use crate::layout;
use crate::layout::{Chrome, NavLink, NavPage, UserMenu};
use crate::model::{File, Folder, Listing, ShareKind, ShareLink, StoreError, User};
use crate::order;
use crate::pages;
use crate::pages::LandingModel;
use crate::query;
use crate::search;
use crate::search::SearchBody;
use crate::share;
use crate::share::{FileCard, PublicEntry, PublicRow, SharedQuery};
use crate::sizes;
use crate::text;
use vstd::prelude::*;

verus! {

proof fn lemma_not_flag(pair: Seq<char>, name: Seq<char>)
    requires
        pair.len() > 0 && name.len() > 0,
        pair[0] != name[0],
    ensures
        !query::is_flag(pair, name),
{
    let head = name + seq!['='];
    if head.is_prefix_of(pair) {
        lemma_prefix_letter(head, pair, 0);
        assert(head[0] == name[0]);
    }
}

proof fn lemma_three_pairs(first: Seq<char>, second: Seq<char>, third: Seq<char>)
    requires
        text::free_of(first, '&') && text::free_of(second, '&') && text::free_of(third, '&'),
    ensures
        text::split_on(first + seq!['&'] + second + seq!['&'] + third, '&') == seq![
            first,
            second,
            third,
        ],
{
    let rest = second + seq!['&'] + third;
    assert(first + seq!['&'] + second + seq!['&'] + third =~= first + seq!['&'] + rest);
    text::lemma_split_front(first, '&', rest);
    text::lemma_split_front(second, '&', third);
    text::lemma_split_none(third, '&');
    assert(seq![first] + (seq![second] + seq![third]) =~= seq![first, second, third]);
}

proof fn lemma_card_names()
    ensures
        "?folder="@ == seq!['?'] + ("folder"@ + seq!['=']),
        "&file="@ == seq!['&'] + ("file"@ + seq!['=']),
        "&dl=1"@ == seq!['&'] + ("dl"@ + seq!['='] + "1"@),
        "&thumb=1"@ == seq!['&'] + ("thumb"@ + seq!['='] + "1"@),
        "?dl=1"@ == seq!['?'] + ("dl"@ + seq!['='] + "1"@),
        "?thumb=1"@ == seq!['?'] + ("thumb"@ + seq!['='] + "1"@),
        "folder"@.len() > 0 && "folder"@[0] == 'f' && "file"@.len() > 0 && "file"@[0] == 'f',
        "folder"@ != "file"@,
        "dl"@.len() > 0 && "dl"@[0] == 'd' && "thumb"@.len() > 0 && "thumb"@[0] == 't',
        text::free_of("folder"@, '=') && text::free_of("folder"@, '&'),
        text::free_of("file"@, '=') && text::free_of("file"@, '&'),
        text::free_of("dl"@, '=') && text::free_of("dl"@, '&'),
        text::free_of("thumb"@, '=') && text::free_of("thumb"@, '&'),
        text::free_of("1"@, '&'),
        text::free_of("/s/"@, '?'),
{
    reveal_strlit("?folder=");
    reveal_strlit("&file=");
    reveal_strlit("&dl=1");
    reveal_strlit("&thumb=1");
    reveal_strlit("?dl=1");
    reveal_strlit("?thumb=1");
    reveal_strlit("folder");
    reveal_strlit("file");
    reveal_strlit("dl");
    reveal_strlit("thumb");
    reveal_strlit("1");
    reveal_strlit("/s/");
    assert("?folder="@ =~= seq!['?'] + ("folder"@ + seq!['=']));
    assert("&file="@ =~= seq!['&'] + ("file"@ + seq!['=']));
    assert("&dl=1"@ =~= seq!['&'] + ("dl"@ + seq!['='] + "1"@));
    assert("&thumb=1"@ =~= seq!['&'] + ("thumb"@ + seq!['='] + "1"@));
    assert("?dl=1"@ =~= seq!['?'] + ("dl"@ + seq!['='] + "1"@));
    assert("?thumb=1"@ =~= seq!['?'] + ("thumb"@ + seq!['='] + "1"@));
    assert("folder"@.len() != "file"@.len());
}

/// Whether a public query asks for the bytes, or for the preview, of one file in
/// one folder.
pub open spec fn asks_for_file(
    asked: SharedQuery,
    folder: Seq<char>,
    file: Seq<char>,
    bytes: bool,
) -> bool {
    &&& asked.folder is Some && asked.folder->0@ == folder
    &&& asked.file is Some && asked.file->0@ == file
    &&& asked.dl == bytes
    &&& asked.thumb == !bytes
}

proof fn lemma_through(
    token: Seq<char>,
    at: Seq<char>,
    file: Seq<char>,
    bytes: bool,
    asked: SharedQuery,
)
    requires
        text::free_of(token, '?'),
        text::free_of(at, '&') && text::free_of(file, '&'),
        share::asks_shared(
            asked,
            query::path_and_query(
                share::through(
                    "/s/"@ + token,
                    at,
                    file,
                    if bytes {
                        "&dl=1"@
                    } else {
                        "&thumb=1"@
                    },
                ),
            ).1,
        ),
    ensures
        asks_for_file(asked, at, file, bytes),
{
    lemma_card_names();
    let base = "/s/"@ + token;
    let flag = if bytes {
        "dl"@
    } else {
        "thumb"@
    };
    let first = pair_of("folder"@, at);
    let second = pair_of("file"@, file);
    let third = pair_of(flag, "1"@);
    lemma_pair_of("folder"@, at);
    lemma_pair_of("file"@, file);
    lemma_pair_of(flag, "1"@);
    let rest = first + seq!['&'] + second + seq!['&'] + third;
    let there = share::through(
        base,
        at,
        file,
        if bytes {
            "&dl=1"@
        } else {
            "&thumb=1"@
        },
    );
    assert(there =~= base + seq!['?'] + rest);
    assert(text::free_of(base, '?')) by {
        assert forall|i: int| 0 <= i < base.len() implies #[trigger] base[i] != '?' by {
            if i < "/s/"@.len() {
                assert(base[i] == "/s/"@[i]);
            } else {
                assert(base[i] == token[i - "/s/"@.len()]);
            }
        }
    }
    text::lemma_split_front(base, '?', rest);
    lemma_three_pairs(first, second, third);
    let parts = seq![first, second, third];
    assert(text::split_on(rest, '&') == parts);
    assert(query::value_in(parts[0], "folder"@) == Some(at));
    assert(query::value_in(parts[0], "file"@) is None);
    assert(query::value_in(parts[1], "file"@) == Some(file));
    assert(holds_once(parts, "folder"@, Some(at)));
    assert(holds_once(parts, "file"@, Some(file)));
    lemma_holds_once(rest, "folder"@, Some(at));
    lemma_holds_once(rest, "file"@, Some(file));
    assert(first[0] == 'f' && second[0] == 'f' && third[0] == flag[0]);
    lemma_not_flag(first, "dl"@);
    lemma_not_flag(second, "dl"@);
    lemma_not_flag(first, "thumb"@);
    lemma_not_flag(second, "thumb"@);
    if bytes {
        lemma_not_flag(third, "thumb"@);
    } else {
        lemma_not_flag(third, "dl"@);
    }
    assert((flag + seq!['=']).is_prefix_of(third)) by {
        assert(third.subrange(0, (flag + seq!['=']).len() as int) =~= flag + seq!['=']);
    }
    assert(query::is_flag(text::split_on(rest, '&')[2], flag));
    assert(query::flagged(rest, flag));
    let other = if bytes {
        "thumb"@
    } else {
        "dl"@
    };
    assert(!query::flagged(rest, other)) by {
        assert forall|i: int| 0 <= i < parts.len() implies !query::is_flag(
            #[trigger] parts[i],
            other,
        ) by {
            assert(i == 0 || i == 1 || i == 2);
        }
    }
}

/// A folder in a shared folder leads into itself under the same token; a file
/// offers its bytes, under an address that asks for them, exactly while the link
/// may download.
pub proof fn law_public_rows_lead_where_they_say(
    row: PublicRow,
    entry: PublicEntry,
    token: Seq<char>,
    at: Seq<char>,
    can_download: bool,
    asked: SharedQuery,
)
    requires
        share::public_row_of(row, entry, "/s/"@ + token, at, can_download),
        text::free_of(token, '?') && text::free_of(at, '&'),
        entry matches PublicEntry::File(file) ==> text::free_of(file.id@, '&'),
        entry matches PublicEntry::Folder(folder) ==> text::free_of(folder.id@, '&'),
        row.download is Some ==> share::asks_shared(
            asked,
            query::path_and_query(row.download->0@).1,
        ),
        row.href is Some ==> share::asks_shared(asked, query::path_and_query(row.href->0@).1),
    ensures
        match entry {
            PublicEntry::Folder(folder) => {
                &&& row.kind == ShareKind::Folder && row.name@ == folder.name@
                &&& row.download is None && row.size is None && row.chip@ is Glyph
                &&& row.href is Some
                &&& asked.folder is Some && asked.folder->0@ == folder.id@
                &&& !asked.dl && !asked.thumb && asked.file is None
            },
            PublicEntry::File(file) => {
                &&& row.kind == ShareKind::File && row.name@ == file.name@
                &&& row.href is None
                &&& row.download is Some <==> can_download
                &&& can_download ==> asks_for_file(asked, at, file.id@, true)
            },
        },
{
    assert(text::opt_text(row.download) is Some <==> row.download is Some);
    match entry {
        PublicEntry::Folder(folder) => {
            lemma_card_names();
            let base = "/s/"@ + token;
            let id = folder.id@;
            let pair = pair_of("folder"@, id);
            lemma_pair_of("folder"@, id);
            assert(base + "?folder="@ + id =~= base + seq!['?'] + pair);
            assert(text::free_of(base, '?')) by {
                assert forall|i: int| 0 <= i < base.len() implies #[trigger] base[i] != '?' by {
                    if i < "/s/"@.len() {
                        assert(base[i] == "/s/"@[i]);
                    } else {
                        assert(base[i] == token[i - "/s/"@.len()]);
                    }
                }
            }
            text::lemma_split_front(base, '?', pair);
            let parts = seq![pair];
            assert(query::value_in(parts[0], "folder"@) == Some(id));
            assert(holds_once(parts, "folder"@, Some(id)));
            assert(holds_once(parts, "file"@, None));
            lemma_holds_once(pair, "folder"@, Some(id));
            lemma_holds_once(pair, "file"@, None);
            assert(pair[0] == 'f');
            lemma_not_flag(pair, "dl"@);
            lemma_not_flag(pair, "thumb"@);
        },
        PublicEntry::File(file) => {
            if can_download {
                lemma_through(token, at, file.id@, true, asked);
            }
        },
    }
}

/// A shared folder's card shows every folder and every file in it, once, in the
/// order of their names.
pub proof fn law_the_folder_card_shows_every_row(
    rows: Seq<PublicRow>,
    listing: Listing,
    base: Seq<char>,
    at: Seq<char>,
    can_download: bool,
    lower: spec_fn(Seq<char>) -> Seq<char>,
)
    requires
        share::rows_show(rows, listing, base, at, can_download, lower),
    ensures
        rows.len() == listing.folders@.len() + listing.files@.len(),
        forall|i: int, j: int|
            #![trigger rows[i], rows[j]]
            0 <= i < j < rows.len() ==> order::in_dictionary_order(
                lower(rows[i].name@),
                lower(rows[j].name@),
            ),
        exists|shown: Seq<PublicEntry>|
            {
                &&& #[trigger] shown.to_multiset() == (listing.folders@.map_values(
                    |f: Folder| PublicEntry::Folder(f),
                ) + listing.files@.map_values(|f: File| PublicEntry::File(f))).to_multiset()
                &&& shown.len() == rows.len()
                &&& forall|i: int|
                    0 <= i < shown.len() ==> match shown[i] {
                        PublicEntry::Folder(folder) => (#[trigger] rows[i]).kind
                            == ShareKind::Folder && rows[i].name@ == folder.name@,
                        PublicEntry::File(file) => rows[i].kind == ShareKind::File && rows[i].name@
                            == file.name@,
                    }
            },
{
    let entries = share::public_entries(listing);
    let ranks = share::public_ranks(listing, lower);
    let shown = choose|shown: Seq<PublicEntry>| #[trigger]
        order::is_arranged(entries, ranks, false, shown) && rows.len() == shown.len() && (forall|
            i: int,
        |
            0 <= i < shown.len() ==> share::public_row_of(
                #[trigger] rows[i],
                shown[i],
                base,
                at,
                can_download,
            ));
    order::law_arranging_keeps_every_row(entries, ranks, false, shown);
    assert forall|i: int, j: int|
        #![trigger rows[i], rows[j]]
        0 <= i < j < rows.len() implies order::in_dictionary_order(
        lower(rows[i].name@),
        lower(rows[j].name@),
    ) by {
        let (a, b) = order::lemma_positions(entries, ranks, false, shown[i], shown[j]);
        assert(ranks[a] == share::public_rank(entries[a], lower));
        assert(ranks[b] == share::public_rank(entries[b], lower));
        order::lemma_ranks_in_order(ranks[a], ranks[b]);
        assert(share::public_row_of(rows[i], shown[i], base, at, can_download));
        assert(share::public_row_of(rows[j], shown[j], base, at, can_download));
    }
}

/// A shared file's card previews pictures alone, and offers the download exactly
/// while the link allows it, both under the address the card was asked for.
pub proof fn law_the_file_card(card: FileCard, link: ShareLink, file: File, path: Seq<char>)
    requires
        share::file_card_shows(card, link, file, path),
    ensures
        path.len() == 0 && card.download is Some ==> card.download->0@ == "/"@ + "?dl=1"@,
        path.len() == 0 && card.preview is Some ==> card.preview->0@ == "/"@ + "?thumb=1"@,
        card.name@ == file.name@,
        card.meta@ == file.mime@ + " · "@ + sizes::size_text(
            file.size_bytes as nat,
            sizes::binary_units(),
        ),
        card.download is Some <==> link.can_download,
        path.len() > 0 && card.download is Some ==> card.download->0@ == path + "?dl=1"@,
        card.preview is Some <==> "image/"@.is_prefix_of(file.mime@),
        path.len() > 0 && card.preview is Some ==> card.preview->0@ == path + "?thumb=1"@,
{
    assert(text::opt_text(card.download) is Some <==> card.download is Some);
    assert(text::opt_text(card.preview) is Some <==> card.preview is Some);
}

/// The front door sends the signed in on to their drive, offers everyone else
/// the sign-in, and says so where it cannot tell.
pub proof fn law_the_front_door(user: User, error: StoreError, lang: Lang)
    ensures
        pages::landing_of(Ok(Some(user)), lang) == LandingModel::SendTo("/drive"@),
        pages::landing_of(Ok(None), lang) is SignIn,
        pages::landing_of(Err(error), lang) is Note,
{
}

/// The bar leads to the drive, to what others shared and to the trash, and marks
/// the page that is open and no other.
pub proof fn law_the_bar_marks_the_open_page(links: Seq<NavLink>, active: NavPage, lang: Lang)
    requires
        layout::bar_shows(links, active, lang),
    ensures
        links.len() == 3,
        links[0].href@ == "/drive"@ && links[1].href@ == "/shared"@ && links[2].href@ == "/trash"@,
        links[0].label@ == i18n::phrase(lang, Key::NavDrive),
        links[1].label@ == i18n::phrase(lang, Key::NavShared),
        links[2].label@ == i18n::phrase(lang, Key::NavTrash),
        (links[0].class@ == "topbar-nav topbar-nav-on"@) <==> active == NavPage::Drive,
        (links[1].class@ == "topbar-nav topbar-nav-on"@) <==> active == NavPage::Shared,
        (links[2].class@ == "topbar-nav topbar-nav-on"@) <==> active == NavPage::Trash,
{
    reveal_strlit("topbar-nav topbar-nav-on");
    reveal_strlit("topbar-nav");
    assert("topbar-nav topbar-nav-on"@.len() != "topbar-nav"@.len());
    assert(layout::nav_link_of(links[0], layout::nav_pages()[0], active, lang));
    assert(layout::nav_link_of(links[1], layout::nav_pages()[1], active, lang));
    assert(layout::nav_link_of(links[2], layout::nav_pages()[2], active, lang));
}

/// A page wears its reader's own language, theme and look and may open a live
/// feed; without a reader it is dark, in the house look, and opens none.
pub proof fn law_pages_wear_their_readers_choice(
    chrome: Chrome,
    me: Result<Option<User>, StoreError>,
    accept_language: Option<Seq<char>>,
    user: User,
)
    requires
        layout::chrome_for(chrome, me, accept_language),
    ensures
        me == Ok::<Option<User>, StoreError>(Some(user)) ==> {
            &&& chrome.asking
            &&& chrome.ui@ == user.ui@
            &&& chrome.dark <==> user.theme@ == "dark"@
            &&& user.language@ == "tr"@ ==> chrome.lang == Lang::Tr
            &&& user.language@ == "en"@ ==> chrome.lang == Lang::En
        },
        !(me matches Ok(Some(_))) ==> !chrome.asking && chrome.dark && chrome.ui@ == "instrument"@,
        !(me matches Ok(Some(_))) ==> chrome.lang == i18n::spoken(
            None,
            accept_language,
            text::folding(),
        ),
        !(me matches Ok(Some(_))) && accept_language is None ==> chrome.lang == Lang::En,
{
    reveal_strlit("tr");
    reveal_strlit("en");
    if me == Ok::<Option<User>, StoreError>(Some(user)) {
        assert("tr"@[0] == 't' && "en"@[0] == 'e');
    }
}

/// The menu shows its owner's own name and address, and the badge of an admin to
/// admins alone.
pub proof fn law_the_menu_is_its_owners(menu: UserMenu, user: User, issuer: Seq<char>, lang: Lang)
    requires
        layout::menu_of(menu, user, issuer, lang),
    ensures
        menu.name@ == user.display_name@,
        menu.email@ == user.email@,
        menu.role is Some <==> user.admin,
        menu.profile_href@ == issuer + "/"@,
        menu.initials@ == layout::initials(user.display_name@),
        menu.class@ == "avatar avatar-tone-"@ + text::numeral(layout::tone_of(user.id@), 10) + " "@
            + ""@,
{
    assert(text::opt_str(menu.role) is Some <==> menu.role is Some);
}

/// A search box left empty prompts, a search that found nothing says so, and
/// whatever was found leads to its folder or its file.
pub proof fn law_a_search_body(body: SearchBody, lang: Lang, hits: Option<Listing>)
    requires
        search::body_shows(body, lang, hits),
    ensures
        hits is None ==> body is Prompt,
        hits is Some && hits->0.folders@.len() + hits->0.files@.len() == 0 ==> body is Nothing,
        hits is Some && hits->0.folders@.len() + hits->0.files@.len() > 0 ==> match body {
            SearchBody::Found(folders, files) => {
                &&& folders@.len() == hits->0.folders@.len()
                &&& files@.len() == hits->0.files@.len()
                &&& forall|i: int|
                    0 <= i < folders@.len() ==> (#[trigger] folders@[i]).href@ == "/drive?folder="@
                        + hits->0.folders@[i].id@ && folders@[i].name@
                        == hits->0.folders@[i].name@
                &&& forall|i: int|
                    0 <= i < files@.len() ==> (#[trigger] files@[i]).href@ == "/file/"@
                        + hits->0.files@[i].id@ && files@[i].name@ == hits->0.files@[i].name@
            },
            _ => false,
        },
{
    if hits is Some && hits->0.folders@.len() + hits->0.files@.len() > 0 {
        let folders = body->Found_0@;
        let files = body->Found_1@;
        assert forall|i: int| 0 <= i < folders.len() implies (#[trigger] folders[i]).href@
            == "/drive?folder="@ + hits->0.folders@[i].id@ && folders[i].name@
            == hits->0.folders@[i].name@ by {
            assert(search::folder_hit(folders[i], hits->0.folders@[i]));
        }
        assert forall|i: int| 0 <= i < files.len() implies (#[trigger] files[i]).href@ == "/file/"@
            + hits->0.files@[i].id@ && files[i].name@ == hits->0.files@[i].name@ by {
            assert(search::file_hit(files[i], hits->0.files@[i], "/file/"@));
        }
    }
}

/// What a link opens, in words, tells a download from a mere view, and the words
/// for when it stops opening tell a link that ends from one that does not.
pub proof fn law_links_say_what_they_open(lang: Lang)
    ensures
        share::access_words(lang, true) == i18n::phrase(lang, Key::CanDownload),
        share::access_words(lang, false) == i18n::phrase(lang, Key::ViewOnly),
        share::expiry_words(lang, None) == i18n::phrase(lang, Key::NeverExpires),
{
}

} // verus!
