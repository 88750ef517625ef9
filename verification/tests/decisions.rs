//! The decisions one by one: exact words, edges, and what each refuses.

use in_web::address::{
    answered, back_to, call_id, carry_refusal_on_redirect, carrying, header_or, is_header_text,
    refusal_of, same_origin, RedirectBody,
};
use in_web::avatar::{avatar, stamped_version, AvatarStep, PhotoReply};
use in_web::clock::{Moment, CALENDAR_LAST};
use in_web::drive::{
    drive_ask, extend, here_address, move_picker, named_folder, parse_kind, parse_sort, show_listing, sort_files,
    store_refusal, DriveQuery, KindFilter, SortDir, SortKey,
};
use in_web::files::{
    asked_span, back_to_folder, content_range_text, etag, fnv1a, is_file_part, parse_range,
    upload_step, FormField, PictureReply, Span, UploadForm, UploadStep,
};
use in_web::guard::{one_need, verdict, Demand, Plan, Row, Verdict};
use in_web::health::{healthz_address, probe_healthz, Probe, Round, Sibling};
use in_web::i18n::{lang, t, Key, Lang};
use in_web::layout::{avatar_class, avatar_tone, initials_of, user_menu};
use in_web::live::{live, live_wait, may_hear, resync_frame, Heard, LiveStep, LiveWindow, Topic};
use in_web::media::{
    ascii_name, chip_mark, disposition_of, entry_chip, inline_ok, is_archive_mime, renders_inline,
    safe_name, shared_chip, trash_chip, viewer_kind, Chip, ViewerKind,
};
use in_web::modal::{modal_step, ModalFacts, ModalStep};
use in_web::model::{File, Folder, Listing, ShareKind, ShareLink, StoreError, ThumbState, User};
use in_web::order::{arrange, text_less, Measure, Rank};
use in_web::pages::{landing, Landing};
use in_web::query::{created_token, has_flag, last_query_value, query_value};
use in_web::refusal::Refusal;
use in_web::search::{search_body, searched, SearchBody};
use in_web::secrets::{stash_shown_secret, take_shown_secret, Shelf, SHOWN_TTL_MS};
use in_web::server::{
    bearer_key, bundled_stylesheet, cache_directives, client_label, current_user,
    effective_upload_limit, me, no_stylesheet, provision_of, require_admin, require_user, service_client, share_link_url, share_origin,
    share_token_row, stylesheet_guard, Claims, DirectoryHealth,
};
use in_web::service::{
    apply_family_limits, family_limit, mintable_services, service_delete, service_download,
    service_filed, service_status, service_upload, AskStep, FamilyRow, FetchStep, LimitStep, PushStep,
    Reply, ServiceField,
};
use in_web::settings::{fresh_row, set_disabled, set_quota, set_upload_limit};
use in_web::share::{
    created_link, expiry_at, expiry_line, parse_flag, query_refusal, range_starts_at_zero,
    refusal_banner,
};
use in_web::shared::{
    shared_details, shared_row, valid_shared_sort, wanted_items, SharedKey, TargetReply,
};
use in_web::sync::{
    announce_revocation, apply_directory_event, bucket_endpoint, bucket_keys, command, family_sync,
    mirror_disabled, mirror_member, public_origin, purge_cutoff, Command, DirectoryEvent, EventStep,
    FamilyAct, FamilyHeard, IdentitySync, Member, SyncAct, SyncHeard,
};
use in_web::trash::{
    purged, sort_trash, trash_ask, trash_details, trash_page, trash_rows, valid_trash_sort,
    TrashEntry, TrashKey,
};
use in_web::upload::{chunk, chunk_index, start, start_plan, ChunkStep};

fn at(seconds: i64) -> Moment {
    Moment::from_nanos(seconds as i128 * 1_000_000_000).unwrap()
}

fn person(id: &str, admin: bool) -> User {
    User {
        id: id.to_string(),
        oidc_sub: format!("sub-{id}"),
        email: format!("{id}@in.test"),
        display_name: "Ada Lovelace".to_string(),
        admin,
        disabled: false,
        quota_bytes: 2048,
        used_bytes: 512,
        photo_version: 3,
        ui: "instrument".to_string(),
        theme: "dark".to_string(),
        language: "en".to_string(),
    }
}

fn file(id: &str, owner: &str, name: &str, mime: &str, size: u64) -> File {
    File {
        id: id.to_string(),
        owner_id: owner.to_string(),
        folder_id: None,
        name: name.to_string(),
        mime: mime.to_string(),
        size_bytes: size,
        download_count: 0,
        thumb_state: ThumbState::Missing,
        created_at: at(1_700_000_000),
        deleted_at: None,
    }
}

fn folder(id: &str, name: &str) -> Folder {
    Folder {
        id: id.to_string(),
        owner_id: "me".to_string(),
        parent_id: None,
        name: name.to_string(),
        created_at: at(1_600_000_000),
        deleted_at: None,
    }
}

fn every_refusal() -> Vec<Refusal> {
    vec![
        Refusal::SignInFirst,
        Refusal::Forbidden,
        Refusal::NotFound,
        Refusal::QuotaExceeded,
        Refusal::FolderNotEmpty,
        Refusal::CrossOwner,
        Refusal::ShareRevoked,
        Refusal::UploadExpired,
        Refusal::BadChunk,
        Refusal::NameTaken,
        Refusal::UploadTooLarge,
        Refusal::AncestorTrashed,
        Refusal::Unavailable,
        Refusal::BadUi,
        Refusal::BadTheme,
        Refusal::BadLanguage,
        Refusal::BadLimit,
        Refusal::BadBaseUrl,
        Refusal::ServiceQuota,
        Refusal::BadServiceKey,
    ]
}

// -- words ---------------------------------------------------------------------

#[test]
fn every_refusal_survives_its_code_and_its_name() {
    for refusal in every_refusal() {
        assert_eq!(Refusal::from_code(refusal.code()), Some(refusal));
        assert_eq!(Refusal::from_name(refusal.name()), Some(refusal));
        assert_eq!(refusal.name(), format!("{refusal:?}"));
        assert_eq!(refusal.message(), refusal.message_in(Lang::En));
        assert!(!refusal.message_in(Lang::Tr).is_empty());
    }
    assert_eq!(Refusal::from_code("NotFound"), None);
    assert_eq!(Refusal::from_name("not-found"), None);
    assert_eq!(Refusal::NotFound.message(), Refusal::CrossOwner.message());
    assert_eq!(Refusal::QuotaExceeded.message_in(Lang::Tr), "Kota doldu.");
    assert_eq!(Refusal::from(StoreError::BadChunk), Refusal::Unavailable);
}

#[test]
fn the_saved_language_speaks_before_the_browsers() {
    assert_eq!(lang(Some("tr"), Some("en")), Lang::Tr);
    assert_eq!(lang(Some("xx"), Some("tr")), Lang::En);
    assert_eq!(lang(None, Some("TR")), Lang::Tr);
    assert_eq!(lang(None, Some(" tr-TR ; q=0.9, en")), Lang::Tr);
    assert_eq!(lang(None, Some("en, tr")), Lang::En);
    assert_eq!(lang(None, None), Lang::En);
    assert_eq!(t(Lang::Tr, Key::Saved), "Kaydedildi.");
    for spoken in [Lang::En, Lang::Tr] {
        assert_eq!(Lang::from_code(spoken.code()), spoken);
    }
}

// -- addresses -----------------------------------------------------------------

#[test]
fn a_call_is_the_last_plain_word_of_its_path() {
    assert_eq!(call_id("/api/folder/create"), "create");
    assert_eq!(call_id("/api/settings/upload-limit"), "upload-limit");
    assert_eq!(call_id("/api/x/a b?c"), "abc");
    assert_eq!(call_id("/api/x/"), "");
}

#[test]
fn a_redirect_never_leaves_this_host() {
    assert_eq!(same_origin("https://elsewhere.test/drive?folder=1"), "/drive?folder=1");
    assert_eq!(same_origin("https://elsewhere.test"), "/");
    assert_eq!(same_origin("//elsewhere.test/x"), "/");
    assert_eq!(same_origin("/\\elsewhere.test"), "/");
    assert_eq!(same_origin("drive"), "/");
    assert_eq!(same_origin("/drive"), "/drive");
}

#[test]
fn a_carried_refusal_is_read_back() {
    let location = carrying("/drive?folder=1&refusal=old&on=x", "not-found", "rename").unwrap();
    assert_eq!(location, "/drive?folder=1&refusal=not-found&on=rename");
    let query = location.split_once('?').unwrap().1;
    assert_eq!(refusal_of(Some(query), "rename"), Some(Refusal::NotFound));
    assert_eq!(refusal_of(Some(query), "move"), None);
    assert_eq!(refusal_of(None, "rename"), None);
    assert_eq!(carrying("/drive", "not-found", ""), None);
}

#[test]
fn the_page_behind_a_post_forgets_the_last_answer() {
    assert_eq!(back_to(None, "/trash"), "/trash");
    assert_eq!(
        back_to(Some("/drive?folder=1&refusal=not-found&on=x&saved=y&move=file:1&why=z"), "/"),
        "/drive?folder=1"
    );
    assert_eq!(back_to(Some("/drive?refusal=not-found&on=x"), "/"), "/drive");
    assert_eq!(answered("/settings", "quota", None, true), "/settings?saved=quota");
    assert_eq!(answered("/trash", "empty", None, false), "/trash");
    assert_eq!(
        answered("/drive?folder=1", "move", Some(Refusal::NotFound), false),
        "/drive?folder=1&refusal=not-found&on=move"
    );
}

#[test]
fn only_a_page_post_gets_its_refusal_on_the_redirect() {
    let page = Some("text/html,application/xhtml+xml");
    let told = |accept, referer, status, body| {
        carry_refusal_on_redirect(
            accept,
            referer,
            status,
            "/api/folder/rename",
            Some("https://here.test/drive"),
            body,
        )
    };
    assert_eq!(
        told(page, true, 303, RedirectBody::Refused(Refusal::NotFound)).as_deref(),
        Some("/drive?refusal=not-found&on=rename")
    );
    assert_eq!(told(page, true, 303, RedirectBody::Clean).as_deref(), Some("/drive"));
    assert_eq!(told(page, true, 303, RedirectBody::Unreadable), None);
    assert_eq!(told(page, false, 303, RedirectBody::Clean), None);
    assert_eq!(told(page, true, 200, RedirectBody::Clean), None);
    assert_eq!(told(Some("*/*"), true, 303, RedirectBody::Clean), None);
    assert_eq!(told(None, true, 303, RedirectBody::Clean), None);
}

#[test]
fn a_header_holds_no_control_character() {
    assert!(is_header_text("text/plain; x=\"ü\"\t"));
    assert!(!is_header_text("a\r\nb"));
    assert!(!is_header_text("\u{7f}"));
    assert_eq!(header_or("image/png", "application/octet-stream"), "image/png");
    assert_eq!(header_or("image\n", "application/octet-stream"), "application/octet-stream");
}

#[test]
fn query_pairs_are_read_in_their_order() {
    assert_eq!(query_value("a=1&b=2&a=3", "a").as_deref(), Some("1"));
    assert_eq!(last_query_value("a=1&b=2&a=3", "a").as_deref(), Some("3"));
    assert_eq!(query_value("a", "a"), None);
    assert_eq!(created_token("created=&created=tok").as_deref(), Some("tok"));
    assert_eq!(created_token("created="), None);
    assert!(has_flag("x&dl", "dl") || has_flag("x&dl=1", "dl"));
    assert!(!has_flag("x=dl", "dl"));
}

#[test]
fn a_minted_token_takes_the_place_of_an_earlier_one() {
    let fresh = Ok("B".to_string());
    let minted = |referer: Option<&str>| created_link(referer, &fresh);
    assert_eq!(minted(None), "/settings?created=B");
    assert_eq!(minted(Some("/settings?created=A")), "/settings?created=B");
    assert_eq!(
        minted(Some("/drive?folder=1&created=A&share=file:f1&created=&&refusal=not-found&on=revoke")),
        "/drive?folder=1&share=file:f1&created=B"
    );
    // A pair that only looks like one stays.
    assert_eq!(minted(Some("/drive?created&xcreated=A")), "/drive?created&xcreated=A&created=B");
    for referer in ["/settings", "/settings?created=A", "/drive?created=A&created=C&q=x", "/s?"] {
        let location = minted(Some(referer));
        let query = location.split_once('?').unwrap().1;
        assert_eq!(created_token(query).as_deref(), Some("B"), "{referer}");
    }
    // A refused mint leaves the address as every refused call does.
    assert_eq!(
        created_link(Some("/settings?saved=quota"), &Err(StoreError::NotFound)),
        "/settings?refusal=not-found&on=create"
    );
}

#[test]
fn a_clean_save_is_read_off_the_address_it_left() {
    for call in ["quota", "disable", "preferences", "upload-limit"] {
        let from = Some("/settings?saved=create&refusal=forbidden&on=create");
        let location = in_web::settings::redirect_back(from, call, None);
        let banner = refusal_banner(location.split_once('?').unwrap().1, Lang::En, &[call, "create"]);
        assert_eq!(banner.saved, Some("Saved."), "{call}");
        assert_eq!(banner.refused, None, "{call}");
        let location = in_web::settings::redirect_back(from, call, Some(Refusal::NotFound));
        let banner = refusal_banner(location.split_once('?').unwrap().1, Lang::En, &[call, "create"]);
        assert_eq!(banner.saved, None, "{call}");
        assert_eq!(banner.refused, Some(Refusal::NotFound.message_in(Lang::En)), "{call}");
    }
}

// -- files ---------------------------------------------------------------------

#[test]
fn ranges_are_resolved_or_refused() {
    assert_eq!(parse_range("bytes=0-4", 8), Some(Ok((0, 4))));
    assert_eq!(parse_range("bytes=4-", 8), Some(Ok((4, 7))));
    assert_eq!(parse_range("bytes=-3", 8), Some(Ok((5, 7))));
    assert_eq!(parse_range("bytes=-99", 8), Some(Ok((0, 7))));
    assert_eq!(parse_range("bytes=2-99", 8), Some(Ok((2, 7))));
    assert_eq!(parse_range("bytes=8-", 8), Some(Err(())));
    assert_eq!(parse_range("bytes=5-2", 8), Some(Err(())));
    assert_eq!(parse_range("bytes=-0", 8), Some(Err(())));
    assert_eq!(parse_range("bytes=0-", 0), Some(Err(())));
    assert_eq!(parse_range("bytes=0-1,3-4", 8), None);
    assert_eq!(parse_range("items=0-1", 8), None);
    assert_eq!(parse_range("bytes=x-1", 8), None);
    assert_eq!(parse_range("bytes=99999999999999999999-", 8), None);
    assert_eq!(asked_span(Some("bytes=9-"), 8), Span::Nothing);
    assert_eq!(content_range_text(Span::Nothing, 8).as_deref(), Some("bytes */8"));
    assert_eq!(content_range_text(Span::Whole, 8), None);
    assert!(range_starts_at_zero("bytes=0-3"));
    assert!(!range_starts_at_zero("bytes=4-"));
}

#[test]
fn a_tag_is_the_hash_of_the_bytes() {
    assert_eq!(fnv1a(b""), 0xcbf29ce484222325);
    assert_eq!(fnv1a(b"a"), 0xaf63dc4c8601ec8c);
    assert_eq!(etag(b"a"), "\"af63dc4c8601ec8c\"");
}

#[test]
fn what_renders_and_what_is_offered_to_save() {
    for mime in ["image/png", "video/mp4", "audio/ogg", "application/pdf", "text/plain"] {
        assert!(renders_inline(mime) && inline_ok(mime), "{mime}");
        assert!(viewer_kind(mime).is_some(), "{mime}");
    }
    assert_eq!(viewer_kind("application/pdf"), Some(ViewerKind::Pdf));
    assert!(!renders_inline("image/heic") && viewer_kind("image/heic").is_none());
    assert!(renders_inline("image/svg+xml") && !inline_ok("image/svg+xml"));
    assert!(!inline_ok("text/html"));
    assert_eq!(chip_mark("application/zip"), ("archive", "⊞"));
    assert!(is_archive_mime("application/vnd.openxmlformats-officedocument"));
    assert_eq!(chip_mark("application/x-unknown"), ("generic", "▦"));
}

#[test]
fn names_stay_inside_their_quotes() {
    assert_eq!(ascii_name("a \"b\".txt"), "a__b_.txt");
    assert_eq!(ascii_name("çay.txt"), "_ay.txt");
    assert_eq!(
        disposition_of("çay 1.txt", true),
        "inline; filename=\"_ay_1.txt\"; filename*=UTF-8''%C3%A7ay%201.txt"
    );
    assert!(disposition_of("a", false).starts_with("attachment; "));
    assert!(!safe_name("a\"b\\c\nd").contains('"'));
}

#[test]
fn a_thumbnail_shows_while_its_file_is_live() {
    let mut row = file("f1", "me", "dot.png", "image/png", 3);
    assert!(matches!(entry_chip(&row), Chip::Glyph { class: "image", .. }));
    row.thumb_state = ThumbState::Ready;
    assert!(matches!(entry_chip(&row), Chip::Picture(src) if src == "/thumb/f1"));
    assert!(matches!(shared_chip(&row), Chip::Picture(_)));
    row.deleted_at = Some(at(1));
    assert!(matches!(shared_chip(&row), Chip::Glyph { .. }));
    assert!(matches!(trash_chip(&row), Chip::Glyph { .. }));
}

#[test]
fn an_oversize_file_never_reaches_the_store() {
    assert!(is_file_part(&Some("a.txt".to_string())));
    assert!(!is_file_part(&Some(String::new())) && !is_file_part(&None));
    let mut form = UploadForm::new();
    assert_eq!(form.hear(0, FormField::Folder(Some("f1".to_string()))), None);
    assert_eq!(form.hear(1, FormField::File(Some("a".to_string()), 10)), None);
    assert_eq!(form.hear(2, FormField::File(None, 10)), None);
    assert_eq!(form.hear(3, FormField::File(Some(String::new()), 10)), None);
    assert_eq!(form.hear(4, FormField::Other), None);
    assert_eq!(form.hear(5, FormField::File(Some("b".to_string()), 99)), None);
    assert_eq!(form.files.len(), 2);
    assert_eq!(upload_step(&form.files, 50, &Vec::new()), UploadStep::Insert(0));
    assert_eq!(
        upload_step(&form.files, 50, &vec![Ok(())]),
        UploadStep::Done(Some(Refusal::UploadTooLarge))
    );
    assert_eq!(
        upload_step(&form.files, 99, &vec![Err(StoreError::QuotaExceeded)]),
        UploadStep::Done(Some(Refusal::QuotaExceeded))
    );
    assert_eq!(
        upload_step(&form.files, 99, &vec![Ok(()), Ok(())]),
        UploadStep::Done(None)
    );
    let told = form.hear(6, FormField::Broken).unwrap();
    assert!(told.contains("folder=f1") && told.contains("refusal=unavailable"), "{told}");
    assert!(!back_to_folder(None, None).contains("refusal="));
}

// -- the drive -----------------------------------------------------------------

#[test]
fn sorts_and_filters_are_read_back() {
    assert_eq!(parse_sort(None), None);
    assert_eq!(parse_sort(Some("size:asc")), Some((SortKey::Size, SortDir::Asc)));
    assert_eq!(parse_sort(Some("nonsense")), None);
    assert_eq!(parse_kind(Some("folders")), KindFilter::Folders);
    assert_eq!(parse_kind(Some("nonsense")), KindFilter::All);
    for key in [SortKey::Name, SortKey::Uploaded, SortKey::Size, SortKey::Downloads] {
        for dir in [SortDir::Asc, SortDir::Desc] {
            let word = in_web::drive::sort_text(key, dir);
            assert_eq!(parse_sort(Some(&word)), Some((key, dir)));
        }
    }
    let rows = vec![file("1", "me", "b", "x", 5), file("2", "me", "A", "x", 9), file("3", "me", "c", "x", 1)];
    let names = |rows: Vec<File>| rows.into_iter().map(|f| f.name).collect::<Vec<_>>();
    assert_eq!(names(sort_files(rows, SortKey::Name, SortDir::Asc)), vec!["A", "b", "c"]);
    let rows = vec![file("1", "me", "b", "x", 5), file("2", "me", "A", "x", 9), file("3", "me", "c", "x", 1)];
    assert_eq!(names(sort_files(rows, SortKey::Size, SortDir::Desc)), vec!["A", "b", "c"]);
    let listing = Listing {
        folders: vec![folder("f", "f")],
        files: vec![file("1", "me", "b", "x", 5)],
    };
    let shown = show_listing(listing, None, KindFilter::Files);
    assert!(shown.folders.is_empty() && shown.files.len() == 1);
}

#[test]
fn the_drives_address_carries_its_controls() {
    assert_eq!(here_address("", None, KindFilter::All), "/drive");
    let here = here_address("f1", Some((SortKey::Size, SortDir::Desc)), KindFilter::Files);
    assert_eq!(here, "/drive?folder=f1&sort=size:desc&kind=files");
    assert_eq!(extend(&here, "edit=", "x"), "/drive?folder=f1&sort=size:desc&kind=files&edit=x");
    assert_eq!(extend("/drive", "edit=", "x"), "/drive?edit=x");
    let ask = drive_ask(&DriveQuery {
        folder: Some("f1".to_string()),
        q: Some("  ".to_string()),
        edit: None,
        sort: None,
        share: Some("file:7".to_string()),
        kind: None,
        moving: Some("broken".to_string()),
    });
    assert_eq!(ask.asked, None);
    assert_eq!(ask.share, Some(("file".to_string(), "7".to_string())));
    assert_eq!(ask.moving, None);
    assert_eq!(named_folder(""), None);
    assert_eq!(named_folder("f1"), Some("f1".to_string()));
}

#[test]
fn a_store_failure_is_put_in_the_drives_words() {
    assert_eq!(store_refusal(StoreError::Cycle), Refusal::Forbidden);
    assert_eq!(store_refusal(StoreError::CrossOwner), Refusal::NotFound);
    assert_eq!(store_refusal(StoreError::Failed), Refusal::Unavailable);
}

#[test]
fn a_plan_is_looked_up_before_anything_changes() {
    let user = Ok(person("me", false));
    let plan = Plan::Needs(vec![
        one_need(ShareKind::File, "f1", Demand::Live, Refusal::Unavailable),
        one_need(ShareKind::Folder, "d1", Demand::Trashed, Refusal::NotFound),
    ]);
    let row = |owner: &str, trashed| Ok(Some(Row { owner_id: owner.to_string(), trashed }));
    assert_eq!(verdict(&user, &plan, &Vec::new()), Verdict::Look(0));
    assert_eq!(verdict(&user, &plan, &vec![row("me", false)]), Verdict::Look(1));
    assert_eq!(
        verdict(&user, &plan, &vec![row("me", false), row("me", true)]),
        Verdict::Go
    );
    assert_eq!(
        verdict(&user, &plan, &vec![row("me", false), row("me", false)]),
        Verdict::Refuse(Refusal::NotFound)
    );
    assert_eq!(
        verdict(&user, &plan, &vec![row("you", false)]),
        Verdict::Refuse(Refusal::NotFound)
    );
    assert_eq!(
        verdict(&user, &plan, &vec![Err(StoreError::Failed)]),
        Verdict::Refuse(Refusal::Unavailable)
    );
    assert_eq!(
        verdict(&Err(Refusal::SignInFirst), &plan, &Vec::new()),
        Verdict::Refuse(Refusal::SignInFirst)
    );
    assert_eq!(
        verdict(&user, &Plan::Refused(Refusal::NotFound), &Vec::new()),
        Verdict::Refuse(Refusal::NotFound)
    );
}

#[test]
fn one_order_whatever_the_order_before() {
    let rank = |n: i128, second: &str| Rank {
        first: Measure::Number(n),
        second: second.to_string(),
    };
    let ranks = vec![rank(2, "b"), rank(1, "z"), rank(2, "a")];
    assert_eq!(arrange(vec!["x", "y", "z"], &ranks, false), vec!["y", "z", "x"]);
    assert_eq!(arrange(vec!["x", "y", "z"], &ranks, true), vec!["x", "z", "y"]);
    assert!(text_less("a", "ab") && text_less("Z", "a") && !text_less("b", "b"));
}

#[test]
fn a_search_needs_something_to_look_for() {
    assert_eq!(searched(Some("  x ")).as_deref(), Some("x"));
    assert_eq!(searched(Some("   ")), None);
    assert!(matches!(search_body(Lang::En, None), SearchBody::Prompt(_)));
    let none = Listing { folders: Vec::new(), files: Vec::new() };
    assert!(matches!(search_body(Lang::En, Some(&none)), SearchBody::Nothing("Nothing found.")));
    let some = Listing { folders: vec![folder("f", "f")], files: Vec::new() };
    assert!(matches!(search_body(Lang::En, Some(&some)), SearchBody::Found(a, b) if a.len() == 1 && b.is_empty()));
}

// -- time ----------------------------------------------------------------------

#[test]
fn a_moment_is_written_two_ways() {
    let moment = at(1_700_000_000);
    assert_eq!(moment.day(), "2023-11-14");
    assert_eq!(moment.rfc3339(), "2023-11-14T22:13:20Z");
    assert_eq!(moment.unix_seconds(), 1_700_000_000);
    assert_eq!(Moment::from_nanos(-1).unwrap().unix_seconds(), -1);
    assert_eq!(moment.later(86_400).unwrap().day(), "2023-11-15");
    assert!(Moment::from_nanos(CALENDAR_LAST).unwrap().later(1).is_none());
    assert!(Moment::from_nanos(CALENDAR_LAST + 1).is_none());
    assert!(Moment::now().unix_seconds() > 1_700_000_000);
}

#[test]
fn an_expiry_is_a_positive_number_of_days() {
    let now = at(1_700_000_000);
    assert!(matches!(expiry_at(None, now), Ok(None)));
    assert!(matches!(expiry_at(Some("  "), now), Ok(None)));
    let expiry = expiry_at(Some(" 1 "), now).unwrap().unwrap();
    assert_eq!(expiry.unix_seconds(), 1_700_086_400);
    for raw in ["0", "-1", "x", "1.5", "99999999999", "99999999999999999999"] {
        assert!(matches!(expiry_at(Some(raw), now), Err(Refusal::Forbidden)), "{raw}");
    }
    assert_eq!(
        expiry_line(Lang::En, Some(now)),
        format!("{} 2023-11-14T22:13:20Z", t(Lang::En, Key::ExpiresLabel))
    );
    assert_eq!(expiry_line(Lang::Tr, None), t(Lang::Tr, Key::NeverExpires));
}

#[test]
fn a_flag_is_true_unless_it_reads_plainly_false() {
    for raw in ["", " ", "0", "false", "FALSE", "no", "Off"] {
        assert!(!parse_flag(Some(raw), true), "{raw:?}");
    }
    for raw in ["1", "on", "yes", "anything"] {
        assert!(parse_flag(Some(raw), false), "{raw:?}");
    }
    assert!(parse_flag(None, true) && !parse_flag(None, false));
}

#[test]
fn a_banner_speaks_only_of_the_pages_own_calls() {
    let query = "refusal=bad-limit&on=quota";
    let banner = refusal_banner(query, Lang::En, &["quota"]);
    assert_eq!(banner.refused.as_deref(), Some("That limit is not usable."));
    assert_eq!(banner.saved, None);
    assert_eq!(refusal_banner(query, Lang::En, &["empty"]).refused, None);
    assert_eq!(refusal_banner("saved=quota", Lang::En, &["quota"]).saved, Some("Saved."));
    assert_eq!(query_refusal(query), Some(Refusal::BadLimit));
    assert_eq!(query_refusal("refusal=nonsense"), None);
}

#[test]
fn shared_rows_say_what_they_know() {
    assert_eq!(valid_shared_sort(None).0, SharedKey::Name);
    assert_eq!(valid_shared_sort(Some("size:asc")), (SharedKey::Size, false));
    assert_eq!(valid_shared_sort(Some("name:desc")), (SharedKey::Name, true));
    assert_eq!(valid_shared_sort(Some("owner")), (SharedKey::Owner, false));
    assert_eq!(valid_shared_sort(Some("uploaded")), (SharedKey::Uploaded, true));
    for unknown in ["bogus:desc", "bogus:asc", "bogus", ":desc", ""] {
        assert_eq!(valid_shared_sort(Some(unknown)), (SharedKey::Name, false), "{unknown}");
    }
    let granted = |kind, name: &str| in_web::model::SharedItem {
        kind,
        target_id: "f1".to_string(),
        owner_id: "ada".to_string(),
        name: name.to_string(),
        can_download: false,
        created_at: at(1_600_000_000),
    };
    let item = granted(ShareKind::File, "joint.txt");
    let target = TargetReply::File(Ok(Some(file("f1", "ada", "joint.txt", "text/plain", 1536))));
    let wanted = |kind, asked: &str| {
        let items =
            vec![granted(ShareKind::File, "joint.txt"), granted(ShareKind::Folder, "Joint venture")];
        let kept = wanted_items(items, kind, &Some(asked.to_string()));
        kept.into_iter().map(|kept| kept.name).collect::<Vec<_>>()
    };
    assert_eq!(wanted(KindFilter::All, "JOINT"), vec!["joint.txt", "Joint venture"]);
    assert_eq!(wanted(KindFilter::Folders, "joint"), vec!["Joint venture"]);
    assert_eq!(wanted(KindFilter::All, "TXT"), vec!["joint.txt"]);
    let row = shared_row(item, "Ada".to_string(), target);
    assert_eq!(row.size(), 1536);
    let details = shared_details(Lang::En, &row);
    assert!(details.contains("Ada") && details.contains("2023-11-14"), "{details}");
    assert!(details.contains("1.5"), "{details}");
}

// -- the trash -----------------------------------------------------------------

#[test]
fn the_trash_is_sorted_by_what_was_asked() {
    assert_eq!(valid_trash_sort(None), (TrashKey::Deleted, true));
    assert_eq!(valid_trash_sort(Some("name")), (TrashKey::Name, false));
    assert_eq!(valid_trash_sort(Some("size:asc")), (TrashKey::Size, false));
    assert_eq!(valid_trash_sort(Some("deleted:asc")), (TrashKey::Deleted, false));
    assert_eq!(valid_trash_sort(Some("deleted")), (TrashKey::Deleted, true));
    for unknown in ["nonsense:desc", "nonsense:asc", "nonsense", ":asc", ""] {
        assert_eq!(valid_trash_sort(Some(unknown)), (TrashKey::Deleted, true), "{unknown}");
    }
    let trashed = |id: &str, name: &str, size, gone| {
        let mut row = file(id, "me", name, "text/plain", size);
        row.deleted_at = Some(at(gone));
        TrashEntry::File(row)
    };
    let rows = || {
        vec![
            trashed("1", "b", 10, 1_700_000_100),
            TrashEntry::Folder(folder("2", "A")),
            trashed("3", "c", 5, 1_700_000_200),
        ]
    };
    let ids = |rows: Vec<TrashEntry>| rows.iter().map(|r| r.id().to_string()).collect::<Vec<_>>();
    let listing = || Listing {
        folders: vec![folder("2", "A Box")],
        files: vec![file("1", "me", "boxed.txt", "text/plain", 1), file("3", "me", "c", "text/plain", 1)],
    };
    let found = |kind, asked: &str| ids(trash_rows(listing(), kind, &Some(asked.to_string())));
    assert_eq!(found(KindFilter::All, "BOX"), vec!["2", "1"]);
    assert_eq!(found(KindFilter::Files, "Box"), vec!["1"]);
    assert!(found(KindFilter::All, "boxes").is_empty());
    assert_eq!(ids(trash_rows(listing(), KindFilter::All, &None)), vec!["2", "1", "3"]);
    assert_eq!(ids(sort_trash(rows(), TrashKey::Deleted, true)), vec!["3", "1", "2"]);
    assert_eq!(ids(sort_trash(rows(), TrashKey::Name, false)), vec!["2", "1", "3"]);
    assert_eq!(ids(sort_trash(rows(), TrashKey::Size, true)), vec!["1", "3", "2"]);
    assert_eq!(
        trash_details(Lang::En, &rows()[0]),
        format!(
            "{} 2023-11-14 · {} 2023-11-14 · 10 B",
            t(Lang::En, Key::DeletedLabel),
            t(Lang::En, Key::UploadedLabel)
        )
    );
    assert_eq!(
        trash_details(Lang::En, &rows()[1]),
        format!(
            "{} 2020-09-13 · {} 2020-09-13",
            t(Lang::En, Key::DeletedLabel),
            t(Lang::En, Key::UploadedLabel)
        )
    );
    let listing = Listing { folders: vec![folder("2", "A")], files: Vec::new() };
    let page = trash_page(Lang::En, &trash_ask(None, Some("files"), None), listing);
    assert!(page.lines.is_empty() && page.can_empty);
    assert_eq!(page.note, Some("Nothing found."));
    assert_eq!(page.sort_value, "deleted:desc");
}

#[test]
fn a_purge_of_nothing_is_not_found() {
    assert!(purged(None, ShareKind::File, Ok(false)).contains("refusal=not-found&on=purge"));
    assert_eq!(purged(None, ShareKind::Folder, Ok(false)), "/trash");
    assert!(purged(None, ShareKind::File, Err(StoreError::Failed)).contains("unavailable"));
}

// -- who is asking -------------------------------------------------------------

#[test]
fn nobody_and_a_failing_store_are_told_apart() {
    assert!(matches!(require_user(current_user(None)), Err(Refusal::SignInFirst)));
    let failing = current_user(Some(Err(StoreError::Failed)));
    assert!(matches!(require_user(failing), Err(Refusal::Unavailable)));
    let mut off = person("x", true);
    off.disabled = true;
    assert!(matches!(current_user(Some(Ok(off))), Ok(None)));
    assert!(matches!(require_admin(Ok(person("x", false))), Err(Refusal::Forbidden)));
    assert!(require_admin(Ok(person("x", true))).is_ok());
    assert_eq!(me(&Ok(Some(person("x", false)))), 204);
    assert_eq!(me(&Ok(None)), 401);
    assert_eq!(me(&Err(StoreError::Failed)), 500);
    let claims = Claims {
        sub: "s".to_string(),
        email: "e".to_string(),
        name: "n".to_string(),
        photo_version: 4,
    };
    let row = provision_of(&claims, 10);
    assert_eq!((row.admin, row.photo_version, row.default_quota_bytes), (None, 4, 10));
    assert!(matches!(landing(&Ok(Some(person("x", false))), Lang::En), Landing::SendTo("/drive")));
    assert!(matches!(landing(&Ok(None), Lang::En), Landing::SignIn { .. }));
    assert!(matches!(landing(&Err(StoreError::Failed), Lang::En), Landing::Note(_)));
}

#[test]
fn a_service_is_known_by_its_key_alone() {
    assert_eq!(bearer_key(Some("Bearer  k1 ")).as_deref(), Some("k1"));
    assert_eq!(bearer_key(Some("Bearer  ")), None);
    assert_eq!(bearer_key(Some("Basic x")), None);
    assert_eq!(bearer_key(None), None);
    assert!(service_client(None).is_none());
    assert!(service_client(Some(Ok(Some(person("x", false))))).is_some());
    let mut off = person("x", false);
    off.disabled = true;
    assert!(service_client(Some(Ok(Some(off)))).is_none());
}

#[test]
fn origins_labels_and_directives() {
    assert_eq!(share_origin(&Ok(Some(" https://a.test ".to_string())), "http://b"), "https://a.test");
    assert_eq!(share_origin(&Ok(Some("  ".to_string())), "http://b"), "http://b");
    assert_eq!(share_origin(&Err(StoreError::Failed), "http://b"), "http://b");
    let filed = |text: &str| Ok(Some(text.to_string()));
    assert_eq!(effective_upload_limit(&filed("2147483648"), 7), 2_147_483_648);
    assert_eq!(effective_upload_limit(&filed("+5"), 7), 5);
    assert_eq!(effective_upload_limit(&filed("18446744073709551615"), 7), u64::MAX);
    for unusable in ["18446744073709551616", "", " 5", "-1", "2 GiB"] {
        assert_eq!(effective_upload_limit(&filed(unusable), 7), 7, "{unusable}");
    }
    assert_eq!(effective_upload_limit(&Ok(None), 7), 7);
    assert_eq!(effective_upload_limit(&Err(StoreError::Failed), 7), 7);
    assert_eq!(share_link_url("http://b", Some("tok")).as_deref(), Some("http://b/s/tok"));
    assert_eq!(share_link_url("http://b", None), None);
    assert_eq!(share_token_row("l1"), "share_token:l1");
    assert_eq!(client_label(Some(" 1.2.3.4 , 5.6.7.8")), "1.2.3.4");
    assert_eq!(client_label(Some("")), "unknown");
    assert_eq!(client_label(None), "unknown");
    assert_eq!(cache_directives(Some("text/html; charset=utf-8"), false), Some("no-cache"));
    assert_eq!(cache_directives(Some("text/html"), true), None);
    assert_eq!(cache_directives(Some("image/png"), false), None);
}

#[test]
fn a_foreign_stylesheet_stops_the_boot() {
    let names = vec!["logo.svg".to_string(), "main-1.css".to_string()];
    assert_eq!(bundled_stylesheet(&names), Some(1));
    assert_eq!(bundled_stylesheet(&vec!["main.js".to_string()]), None);
    assert!(no_stylesheet("/a").contains("/a"));
    let empty = "sha256:e3b0c44298fc1c149afbf4c8996fb92427ae41e4649b934ca495991b7852b855";
    assert_eq!(
        stylesheet_guard("/a", "main-1.css", &Ok(Vec::new()), empty),
        Ok(format!("assets  stylesheet main-1.css ({empty})"))
    );
    let abc = "sha256:ba7816bf8f01cfea414140de5dae2223b00361a396177a9cb410ff61f20015ad";
    assert!(stylesheet_guard("/a", "main-1.css", &Ok(b"abc".to_vec()), abc).is_ok());
    let problem = stylesheet_guard("/a", "main-1.css", &Ok(b"abd".to_vec()), abc).unwrap_err();
    assert!(problem.contains("is from another build"), "{problem}");
    let problem = stylesheet_guard("/a", "m", &Err("gone".to_string()), abc).unwrap_err();
    assert_eq!(problem, "the bundled stylesheet m could not be read: gone");
}

#[test]
fn a_secret_is_shown_exactly_once() {
    let mut shelf = Shelf::new();
    let ticket = stash_shown_secret(&mut shelf, "s3cret".to_string(), 1_000);
    let other = stash_shown_secret(&mut shelf, "other".to_string(), 1_000);
    assert_eq!(ticket.len(), 26);
    assert_ne!(ticket, other);
    assert_eq!(take_shown_secret(&mut shelf, &ticket, 2_000).as_deref(), Some("s3cret"));
    assert_eq!(take_shown_secret(&mut shelf, &ticket, 2_000), None);
    // A later stash sweeps what waited too long.
    stash_shown_secret(&mut shelf, "late".to_string(), 1_000 + SHOWN_TTL_MS + 1);
    assert_eq!(take_shown_secret(&mut shelf, &other, 2_000), None);
}

#[test]
fn a_ticket_claims_nothing_after_ten_minutes() {
    assert_eq!(SHOWN_TTL_MS, 600_000);
    let mut shelf = Shelf::new();
    let young = stash_shown_secret(&mut shelf, "young".to_string(), 1_000);
    let old = stash_shown_secret(&mut shelf, "old".to_string(), 1_000);
    assert_eq!(take_shown_secret(&mut shelf, &young, 600_999).as_deref(), Some("young"));
    assert_eq!(take_shown_secret(&mut shelf, &old, 601_000), None);
    // The late reading dropped the key: an earlier clock does not bring it back.
    assert_eq!(take_shown_secret(&mut shelf, &old, 1_000), None);
    // A clock that ran backwards keeps the key claimable.
    let early = stash_shown_secret(&mut shelf, "early".to_string(), 1_000);
    assert_eq!(take_shown_secret(&mut shelf, &early, 0).as_deref(), Some("early"));
    assert_eq!(take_shown_secret(&mut shelf, "no such ticket", 1_000), None);
}

#[test]
fn the_move_picker_opens_for_folders_and_files() {
    let picker = move_picker("folder", "d1").unwrap();
    assert_eq!(picker.barred.as_deref(), Some("d1"));
    assert_eq!((picker.action, picker.field), ("/api/folder/move", "parent_id"));
    assert_eq!(picker.title, Key::MoveFolder);
    let picker = move_picker("file", "f1").unwrap();
    assert_eq!(picker.barred, None);
    assert_eq!((picker.action, picker.field), ("/api/file/move", "folder_id"));
    assert_eq!(picker.title, Key::MoveFile);
    for other in ["", "link", "Folder", "files"] {
        assert!(move_picker(other, "x").is_none(), "{other}");
    }
}

#[test]
fn the_connection_card_reads_ages() {
    let mut health = DirectoryHealth::new();
    assert!(!health.stream_connected());
    assert_eq!(health.last_event_age_secs(), None);
    health.connected();
    health.note_pass_at(100);
    assert_eq!(health.last_pass_age_at(130), Some(30));
    assert_eq!(health.last_pass_age_at(90), Some(0));
    health.reconnecting();
    assert!(!health.stream_connected());
    health.note_event_at(200);
    assert!(health.stream_connected());
    assert_eq!(health.last_event_age_at(205), Some(5));
    health.note_event();
    health.note_pass();
    assert!(health.last_event_age_secs().unwrap() < 5);
    assert!(health.last_pass_age_secs().unwrap() < 5);
}

// -- faces, probes, the live channel -------------------------------------------

fn pictured(step: AvatarStep) -> PictureReply {
    match step {
        AvatarStep::Reply(reply) => reply,
        other => panic!("no reply: {other:?}"),
    }
}

fn header(reply: &PictureReply, name: &str) -> String {
    reply
        .headers
        .iter()
        .find(|h| h.name == name)
        .map(|h| h.value.clone())
        .unwrap_or_default()
}

#[test]
fn a_face_is_cached_by_its_version() {
    let me = Ok(person("me", false));
    let row = Ok(Some(person("you", false)));
    assert!(matches!(
        avatar(&me, None, None, None, &PhotoReply::Unasked),
        AvatarStep::LookRow
    ));
    assert!(matches!(
        avatar(&me, Some(&row), None, None, &PhotoReply::Unasked),
        AvatarStep::LookPhoto(sub) if sub == "sub-you"
    ));
    let photo = PhotoReply::Bytes("image/png".to_string());
    let reply = pictured(avatar(&me, Some(&row), Some("v=3"), None, &photo));
    assert_eq!((reply.status, reply.with_body), (200, true));
    assert_eq!(header(&reply, "etag"), "\"p3\"");
    assert_eq!(header(&reply, "cache-control"), "private, max-age=31536000, immutable");
    assert_eq!(header(&reply, "content-type"), "image/png");
    let reply = pictured(avatar(&me, Some(&row), Some("v=2"), None, &photo));
    assert_eq!(header(&reply, "cache-control"), "private, no-cache");
    let reply = pictured(avatar(&me, Some(&row), None, Some("\"p3\""), &PhotoReply::Unasked));
    assert_eq!((reply.status, reply.with_body), (304, false));
    assert_eq!(stamped_version(Some("x=1&v=9")).as_deref(), Some("9"));
}

#[test]
fn avatar_without_photo_is_not_found() {
    let me = Ok(person("me", false));
    let row = Ok(Some(person("you", false)));
    let reply = pictured(avatar(&me, Some(&row), None, None, &PhotoReply::Failed));
    assert_eq!((reply.status, reply.with_body, reply.headers.len()), (404, false, 0));
    let reply = pictured(avatar(&me, Some(&Ok(None)), None, None, &PhotoReply::Unasked));
    assert_eq!(reply.status, 404);
    let reply = pictured(avatar(&me, Some(&Err(StoreError::Failed)), None, None, &PhotoReply::Unasked));
    assert_eq!(reply.status, 404);
    let odd = PhotoReply::Bytes("image\r\n".to_string());
    let reply = pictured(avatar(&me, Some(&row), None, None, &odd));
    assert_eq!(header(&reply, "content-type"), "application/octet-stream");
}

#[test]
fn avatar_without_session_is_unauthorized() {
    let reply = pictured(avatar(&Err(Refusal::SignInFirst), None, None, None, &PhotoReply::Unasked));
    assert_eq!((reply.status, reply.headers.len()), (401, 0));
}

#[test]
fn avatar_resolves_local_id_to_oidc_sub() {
    let me = Ok(person("looks", false));
    let row = Ok(Some(person("looks", false)));
    match avatar(&me, Some(&row), None, None, &PhotoReply::Unasked) {
        AvatarStep::LookPhoto(sub) => assert_eq!(sub, "sub-looks"),
        other => panic!("the photo was not asked for: {other:?}"),
    }
}

#[test]
fn a_probe_reads_ok_or_down() {
    match probe_healthz(true, "  ok abc\n", 7) {
        Probe::Up { body, ms } => assert_eq!((body.as_str(), ms), ("ok abc", 7)),
        Probe::Down => panic!("an ok body read as down"),
    }
    let long = format!("ok {}", "x".repeat(100));
    assert!(matches!(probe_healthz(true, &long, 7), Probe::Up { body, .. } if body.len() == 64));
    assert!(matches!(probe_healthz(false, "ok", 7), Probe::Down));
    assert!(matches!(probe_healthz(true, "not ok", 7), Probe::Down));
    assert_eq!(healthz_address("http://a.test//"), "http://a.test/healthz");
}

#[test]
fn a_round_of_probes_lasts_its_window() {
    let asked = || vec![Sibling { key: "im".to_string(), url: "http://im".to_string() }];
    let mut round = Round::new(0);
    assert_eq!(round.family_probes(1, &Vec::new()).map(|p| p.len()), Some(0));
    assert!(round.family_probes(1, &asked()).is_none());
    round.file(1_000, asked(), vec![probe_healthz(true, "ok", 3)]);
    assert!(matches!(
        round.family_probes(30_999, &asked()).unwrap()[0],
        Probe::Up { ms: 3, .. }
    ));
    assert!(round.family_probes(31_000, &asked()).is_none());
    // A moved service probes again even inside the window.
    let moved = vec![Sibling { key: "im".to_string(), url: "http://im2".to_string() }];
    assert!(round.family_probes(1_001, &moved).is_none());
}

#[test]
fn a_stream_names_only_the_readers_own_surface() {
    let mine = || Topic::Library("me".to_string());
    let theirs = || Topic::Library("you".to_string());
    assert!(may_hear(&mine(), "me", false));
    assert!(!may_hear(&theirs(), "me", true));
    assert!(may_hear(&Topic::Admin("you".to_string()), "me", true));
    assert!(!may_hear(&Topic::Admin("you".to_string()), "me", false));
    match live(Heard::Change { topic: mine(), seq: 9 }, "me", false) {
        LiveStep::Send(frame) => {
            assert_eq!((frame.topic, frame.id.as_str(), frame.seq), ("library", "me", 9));
        }
        other => panic!("not sent: {other:?}"),
    }
    assert!(matches!(
        live(Heard::Change { topic: theirs(), seq: 9 }, "me", false),
        LiveStep::Silence
    ));
    assert!(matches!(live(Heard::Lagged, "me", false), LiveStep::Resync));
    assert!(matches!(live(Heard::Closed, "me", false), LiveStep::End));
    assert!(matches!(live(Heard::Over, "me", false), LiveStep::End));
    assert_eq!(resync_frame(), r#"{"topic":"resync"}"#);
    assert_eq!(live_wait(false, 10, 25), Some(15));
    assert_eq!(live_wait(false, 25, 25), None);
    assert_eq!(live_wait(true, 10, 25), None);
    assert_eq!(LiveWindow::default().0, 300);
}

#[test]
fn initials_are_the_first_letters_of_two_words() {
    assert_eq!(initials_of("Ada Lovelace"), "AL");
    assert_eq!(initials_of("  ada   king lovelace "), "AK");
    assert_eq!(initials_of("bare@address.test"), "B");
    assert_eq!(initials_of("zoe Quinn"), "ZQ");
    assert_eq!(initials_of("ßa"), "SS");
    assert_eq!(initials_of("   "), "?");
    let folded = "user-1".bytes().fold(0u32, |acc, b| acc.wrapping_mul(31).wrapping_add(b as u32)) % 5;
    assert_eq!(avatar_tone("user-1"), folded);
    let long = "01J8ZQ4W7R3N5T6V8X9Y0ZABCD";
    let folded = long.bytes().fold(0u32, |acc, b| acc.wrapping_mul(31).wrapping_add(b as u32)) % 5;
    assert_eq!(avatar_tone(long), folded);
    assert_eq!(avatar_class(long, "big"), format!("avatar avatar-tone-{folded} big"));
    assert_eq!(user_menu(&person("x", false), "http://im", Lang::En).role, None);
}

// -- settings ------------------------------------------------------------------

#[test]
fn limits_are_an_admins_and_positive() {
    let admin = Ok(person("a", true));
    let bits = |x: f64| Some(x.to_bits());
    assert_eq!(set_quota(&admin, bits(2.0), "GiB"), Ok(2147483648));
    assert_eq!(set_quota(&admin, bits(0.0), "MiB"), Ok(0));
    assert_eq!(set_quota(&admin, bits(-1.0), "MiB"), Err(Refusal::BadLimit));
    assert_eq!(set_quota(&admin, None, "MiB"), Err(Refusal::BadLimit));
    assert_eq!(set_quota(&admin, bits(1.0), "KiB"), Err(Refusal::BadLimit));
    assert_eq!(set_upload_limit(&admin, bits(2.0), "GiB").as_deref(), Ok("2147483648"));
    assert_eq!(set_upload_limit(&admin, bits(0.0), "GiB"), Err(Refusal::BadLimit));
    assert_eq!(
        set_upload_limit(&Err(Refusal::Forbidden), bits(2.0), "GiB"),
        Err(Refusal::Forbidden)
    );
    assert_eq!(set_disabled(&admin, "a", Some("0")), Err(Refusal::Forbidden));
    assert_eq!(set_disabled(&admin, "b", Some("0")), Ok(false));
    assert_eq!(set_disabled(&admin, "b", None), Ok(true));
    let mut row = person("a", true);
    row.used_bytes = 9;
    assert_eq!(fresh_row(&person("a", true), Ok(Some(row))).unwrap().used_bytes, 9);
    assert_eq!(fresh_row(&person("a", true), Ok(None)).unwrap().used_bytes, 512);
    assert!(fresh_row(&person("a", true), Err(StoreError::Failed)).is_err());
}

#[test]
fn the_share_dialog_opens_for_its_owner_alone() {
    let user = Ok(person("me", false));
    let nothing = || ModalFacts { target: None, links: None, grants: None, people: Vec::new() };
    assert_eq!(modal_step("album", &user, &nothing()), ModalStep::Nothing);
    assert_eq!(modal_step("file", &Err(Refusal::SignInFirst), &nothing()), ModalStep::Nothing);
    assert_eq!(modal_step("file", &user, &nothing()), ModalStep::LookTarget(ShareKind::File));
    let with = |owner: &str| ModalFacts {
        target: Some(TargetReply::File(Ok(Some(file("f1", owner, "a", "x", 1))))),
        ..nothing()
    };
    assert_eq!(modal_step("file", &user, &with("you")), ModalStep::Nothing);
    assert_eq!(modal_step("file", &user, &with("me")), ModalStep::ListLinks);
    let facts = ModalFacts { links: Some(Ok(Vec::<ShareLink>::new())), ..with("me") };
    assert_eq!(modal_step("file", &user, &facts), ModalStep::ListGrants(ShareKind::File));
    let facts = ModalFacts {
        links: Some(Ok(Vec::new())),
        grants: Some(Err(StoreError::CrossOwner)),
        ..with("me")
    };
    assert_eq!(modal_step("file", &user, &facts), ModalStep::Nothing);
    let facts = ModalFacts {
        links: Some(Ok(Vec::new())),
        grants: Some(Err(StoreError::Failed)),
        ..with("me")
    };
    assert_eq!(modal_step("file", &user, &facts), ModalStep::Fail(StoreError::Failed));
}

// -- chunks --------------------------------------------------------------------

#[test]
fn a_chunk_is_numbered_by_its_path() {
    assert_eq!(chunk_index("/api/upload/s1/7"), Some(7));
    assert_eq!(chunk_index("/api/upload/s1/x"), None);
    assert_eq!(chunk_index("/api/upload/s1/"), None);
    assert_eq!(chunk_index("/api/upload/s1/18446744073709551616"), None);
    assert!(matches!(
        chunk("/api/upload/s1/x", &Err(Refusal::SignInFirst), None),
        ChunkStep::Refused(Refusal::BadChunk)
    ));
    assert!(matches!(
        chunk("/api/upload/s1/1", &Err(Refusal::SignInFirst), None),
        ChunkStep::Refused(Refusal::SignInFirst)
    ));
    let user = Ok(person("me", false));
    let plan = start_plan(Some("d1"));
    assert_eq!(start(&user, &plan, &Vec::new(), 1, 10), Verdict::Look(0));
    let own = || vec![Ok(Some(Row { owner_id: "me".to_string(), trashed: false }))];
    assert_eq!(start(&user, &plan, &own(), 10, 10), Verdict::Go);
    assert_eq!(
        start(&user, &plan, &own(), 11, 10),
        Verdict::Refuse(Refusal::UploadTooLarge)
    );
    assert_eq!(
        start(&user, &plan, &vec![Err(StoreError::Failed)], 1, 10),
        Verdict::Refuse(Refusal::Unavailable)
    );
}

// -- the machine API -----------------------------------------------------------

#[test]
fn a_push_needs_all_its_parts() {
    let account = Some(person("svc", false));
    let text = |s: &str| Some(s.to_string());
    assert!(matches!(
        service_upload(&None, None),
        PushStep::Answer(Reply::Unauthorized)
    ));
    assert!(matches!(service_upload(&account, None), PushStep::Read));
    let fields = vec![
        ServiceField::ExternalId(text("h1")),
        ServiceField::Other,
        ServiceField::Name(text("a.txt")),
        ServiceField::File(vec![1, 2]),
        ServiceField::File(vec![3]),
    ];
    match service_upload(&account, Some(fields)) {
        PushStep::Insert(file) => {
            assert_eq!((file.external_id.as_str(), file.name.as_str()), ("h1", "a.txt"));
            assert_eq!(file.bytes, vec![3]);
        }
        other => panic!("not filed: {other:?}"),
    }
    let fields = vec![ServiceField::ExternalId(text("")), ServiceField::Name(text("a")), ServiceField::File(vec![])];
    assert!(matches!(
        service_upload(&account, Some(fields)),
        PushStep::Answer(Reply::Refused("BadRequest"))
    ));
    let fields = vec![ServiceField::ExternalId(text("h")), ServiceField::Broken];
    assert!(matches!(
        service_upload(&account, Some(fields)),
        PushStep::Answer(Reply::Refused("Unavailable"))
    ));
    assert!(matches!(service_filed(Ok("f1".to_string())), Reply::Filed(id) if id == "f1"));
    assert!(matches!(
        service_filed(Err(StoreError::QuotaExceeded)),
        Reply::Refused("QuotaExceeded")
    ));
    assert!(matches!(service_filed(Err(StoreError::Failed)), Reply::Refused("Unavailable")));
    assert_eq!(Reply::Unauthorized.status(), 401);
    assert_eq!(Reply::Unauthorized.word(), Some("Unauthorized"));
    assert_eq!(Reply::Done.status(), 200);
    assert_eq!(Reply::Done.word(), None);
}

#[test]
fn a_fetch_serves_under_download_headers() {
    let account = Some(person("svc", false));
    assert!(matches!(
        service_download(&None, None, None),
        FetchStep::Reply(PictureReply { status: 401, .. })
    ));
    assert!(matches!(service_download(&account, None, None), FetchStep::LookFile));
    let found = Ok(Some(file("f1", "svc", "a b.txt", "text/plain", 3)));
    assert!(matches!(service_download(&account, Some(&found), None), FetchStep::LookBytes));
    match service_download(&account, Some(&found), Some(true)) {
        FetchStep::Reply(reply) => {
            assert_eq!((reply.status, reply.with_body), (200, true));
            assert_eq!(header(&reply, "content-disposition"), "attachment; filename=\"a_b.txt\"");
            assert_eq!(header(&reply, "content-type"), "text/plain");
            assert_eq!(header(&reply, "cache-control"), "private, max-age=31536000, immutable");
        }
        other => panic!("no reply: {other:?}"),
    }
    assert!(matches!(
        service_download(&account, Some(&found), Some(false)),
        FetchStep::Reply(PictureReply { status: 404, .. })
    ));
    assert!(matches!(
        service_download(&account, Some(&Ok(None)), None),
        FetchStep::Reply(PictureReply { status: 404, .. })
    ));
    assert!(matches!(service_delete(&account, None), AskStep::Ask));
    assert!(matches!(service_delete(&account, Some(Ok(()))), AskStep::Answer(Reply::Done)));
    assert!(matches!(service_delete(&None, None), AskStep::Answer(Reply::Unauthorized)));
    assert!(matches!(
        service_status(&account, Some(&Ok(Some(person("svc", false))))),
        AskStep::Answer(Reply::Status { quota_bytes: 2048, used_bytes: 512 })
    ));
    assert!(matches!(
        service_status(&account, Some(&Ok(None))),
        AskStep::Answer(Reply::Refused("Unavailable"))
    ));
}

fn row(key: &str, limit_bytes: Option<u64>) -> FamilyRow {
    FamilyRow {
        key: key.to_string(),
        name: key.to_uppercase(),
        url: format!("http://{key}.test"),
        limit_bytes,
    }
}

#[test]
fn every_keyed_service_takes_the_stated_limit() {
    let family = vec![row("im", Some(5)), row("iz", None), row("im", Some(9))];
    assert_eq!(family_limit(&family, "im"), Some(5));
    assert_eq!(family_limit(&family, "iz"), None);
    let services = Ok(vec!["iz".to_string(), "im".to_string()]);
    assert!(matches!(
        apply_family_limits(&family, None, &Vec::new(), 7),
        LimitStep::List
    ));
    assert!(matches!(
        apply_family_limits(&family, Some(&services), &Vec::new(), 7),
        LimitStep::Apply { service, limit: None, default_quota_bytes: 7 } if service == "iz"
    ));
    assert!(matches!(
        apply_family_limits(&family, Some(&services), &vec![Ok(())], 7),
        LimitStep::Apply { service, limit: Some(5), .. } if service == "im"
    ));
    assert!(matches!(
        apply_family_limits(&family, Some(&services), &vec![Ok(()), Ok(())], 7),
        LimitStep::Done
    ));
    assert!(matches!(
        apply_family_limits(&family, Some(&services), &vec![Err(StoreError::Failed)], 7),
        LimitStep::Failed(StoreError::Failed)
    ));
    assert!(matches!(
        apply_family_limits(&family, Some(&Err(StoreError::Failed)), &Vec::new(), 7),
        LimitStep::Failed(StoreError::Failed)
    ));
}

#[test]
fn a_keyed_service_is_offered_no_second_key() {
    let family = || vec![row("im", None), row("iz", None)];
    let rows = mintable_services(Ok(Some(family())), &Ok(vec!["im".to_string()])).unwrap();
    assert_eq!(rows.len(), 1);
    assert_eq!(rows[0].key, "iz");
    assert_eq!(mintable_services(Ok(None), &Ok(Vec::new())).unwrap().len(), 0);
    assert!(matches!(
        mintable_services(Err(StoreError::Failed), &Ok(Vec::new())),
        Err(Refusal::Unavailable)
    ));
    assert!(matches!(
        mintable_services(Ok(Some(family())), &Err(StoreError::Failed)),
        Err(Refusal::Unavailable)
    ));
}

// -- the mirrors ---------------------------------------------------------------

fn member(sub: &str, disabled: bool) -> Member {
    Member {
        sub: sub.to_string(),
        email: format!("{sub}@in.test"),
        name: "Member".to_string(),
        admin: false,
        photo_version: 0,
        disabled,
    }
}

#[test]
fn a_revoked_session_wakes_the_persons_row_through_the_profile_topic() {
    let found = Ok(Some(person("gone", false)));
    assert_eq!(announce_revocation(&found).as_deref(), Some("gone"));
    let topic = Topic::Profile("gone".to_string());
    assert_eq!((topic.kind(), topic.id()), ("profile", "gone"));
    // A subject that never signed in here wakes nobody.
    assert_eq!(announce_revocation(&Ok(None)), None);
    assert_eq!(announce_revocation(&Err(StoreError::Failed)), None);
}

#[test]
fn a_stream_revocation_announces_through_the_profile_topic() {
    let mut health = DirectoryHealth::new();
    let mut sync = IdentitySync::new();
    let event = DirectoryEvent::Revoked { sub: "sub-gone".to_string() };
    match apply_directory_event(event) {
        EventStep::Wake(sub) => assert_eq!(sub, "sub-gone"),
        other => panic!("nobody was woken: {other:?}"),
    }
    let now = Moment::now().unix_seconds();
    assert_eq!(sync.hear(&mut health, SyncHeard::Applied, now), SyncAct::Listen);
    assert!(health.last_event_age_secs().is_some());
}

#[test]
fn a_members_disabled_flag_mirrors_both_ways() {
    let provision = mirror_member(&member("sub-m", false), 1024);
    assert_eq!(provision.sub, "sub-m");
    assert_eq!(provision.email, "sub-m@in.test");
    assert_eq!((provision.admin, provision.default_quota_bytes), (Some(false), 1024));
    let mut row = person("m", false);
    // First sight: present and enabled.
    assert_eq!(mirror_disabled(&Ok(row.clone()), &member("sub-m", false)), None);
    // Switched off, the row follows.
    assert_eq!(mirror_disabled(&Ok(row.clone()), &member("sub-m", true)), Some(true));
    row.disabled = true;
    assert_eq!(mirror_disabled(&Ok(row.clone()), &member("sub-m", true)), None);
    // Let back in, the row follows again.
    assert_eq!(mirror_disabled(&Ok(row), &member("sub-m", false)), Some(false));
    assert_eq!(mirror_disabled(&Err(StoreError::Failed), &member("sub-m", true)), None);
    match apply_directory_event(DirectoryEvent::Profile(member("sub-m", true))) {
        EventStep::Mirror(seen) => assert!(seen.disabled && seen.sub == "sub-m"),
        other => panic!("not mirrored: {other:?}"),
    }
}

#[test]
fn a_failing_directory_is_asked_less_and_less() {
    let mut health = DirectoryHealth::new();
    let mut sync = IdentitySync::new();
    for seconds in [1, 2, 4, 8, 16, 30, 30] {
        assert_eq!(sync.hear(&mut health, SyncHeard::ListFailed, 0), SyncAct::Sleep(seconds));
        assert_eq!(sync.hear(&mut health, SyncHeard::Slept, 0), SyncAct::List);
    }
    // An answer starts over, and the stream's end waits a second.
    assert_eq!(sync.hear(&mut health, SyncHeard::Listed, 0), SyncAct::MirrorAll);
    assert_eq!(sync.hear(&mut health, SyncHeard::Mirrored, 50), SyncAct::Open);
    assert_eq!(health.last_pass_age_at(60), Some(10));
    assert_eq!(sync.hear(&mut health, SyncHeard::Opened, 50), SyncAct::Listen);
    assert!(health.stream_connected());
    assert_eq!(sync.hear(&mut health, SyncHeard::StreamEnded, 50), SyncAct::Sleep(1));
    assert!(!health.stream_connected());
    assert_eq!(sync.hear(&mut health, SyncHeard::OpenRefused, 50), SyncAct::Sleep(2));
}

#[test]
fn the_family_is_mirrored_on_its_beat() {
    assert_eq!(public_origin(Some("https://in.test//")), "https://in.test");
    assert_eq!(public_origin(None), "");
    assert_eq!(family_sync("https://in.test", FamilyHeard::Woke), FamilyAct::Register);
    assert_eq!(family_sync("", FamilyHeard::Woke), FamilyAct::Fetch);
    assert_eq!(family_sync("x", FamilyHeard::Registered), FamilyAct::Fetch);
    assert_eq!(family_sync("x", FamilyHeard::Fetched), FamilyAct::Limit);
    assert_eq!(family_sync("x", FamilyHeard::Limited), FamilyAct::File);
    assert_eq!(family_sync("x", FamilyHeard::Filed), FamilyAct::Sleep(300));
    assert_eq!(family_sync("x", FamilyHeard::Silent), FamilyAct::Sleep(300));
}

#[test]
fn the_command_line_and_the_key_file() {
    let args = |words: &[&str]| words.iter().map(|w| w.to_string()).collect::<Vec<_>>();
    assert!(matches!(command(&args(&["in"])), Command::Serve));
    assert!(matches!(command(&args(&["in", "other", "--x"])), Command::Serve));
    assert!(matches!(
        command(&args(&["in", "reconcile", "--yes", "--dry-run"])),
        Command::Reconcile { dry_run: true, yes: true }
    ));
    assert!(matches!(
        command(&args(&["in", "reconcile"])),
        Command::Reconcile { dry_run: false, yes: false }
    ));
    assert!(matches!(
        command(&args(&["in", "reconcile", "--yes", "--what"])),
        Command::Unknown(option) if option == "--what"
    ));
    let keys = bucket_keys("\n  id-1 \r\n\r\n secret-1\nmore\n").unwrap();
    assert_eq!((keys.access_key_id.as_str(), keys.secret_access_key.as_str()), ("id-1", "secret-1"));
    assert!(bucket_keys("only-one\n\n").is_none());
    assert_eq!(bucket_endpoint("acc"), "https://acc.r2.cloudflarestorage.com");
    let cutoff = purge_cutoff(at(1_700_000_000), 30).unwrap();
    assert_eq!(cutoff.unix_seconds(), 1_700_000_000 - 30 * 86_400);
}
