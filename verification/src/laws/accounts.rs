//! Accounts: who is signed in, what they may set, and what the dialogs show them.
use crate::i18n::Lang;
use crate::modal;
use crate::modal::{Grant, Modal, ModalFacts, ModalStep};
use crate::model::{File, Folder, ShareKind, ShareLink, StoreError, User};
use crate::refusal::Refusal;
use crate::server;
use crate::server::{Claims, Provision};
use crate::settings;
use crate::settings::{AccountRow, SettingsPage};
use crate::share;
use crate::shared::TargetReply;
use crate::sizes;
use crate::text;
use vstd::prelude::*;

verus! {

/// The account behind a request: the one its session names, unless it is
/// disabled. A disabled account is answered like no session at all, a store that
/// fails to say like neither.
pub proof fn law_who_is_signed_in(user: User, error: StoreError)
    ensures
        server::current_of(None) == Ok::<Option<User>, StoreError>(None),
        !user.disabled ==> server::current_of(Some(Ok(user))) == Ok::<Option<User>, StoreError>(
            Some(user),
        ),
        user.disabled ==> server::current_of(Some(Ok(user))) == server::current_of(None),
        server::current_of(Some(Err(error))) == Err::<Option<User>, StoreError>(error),
        server::probe_status(Ok(Some(user))) == 204,
        server::probe_status(Ok(None)) == 401,
        server::probe_status(Err(error)) == 500,
        server::required_user(Ok(Some(user))) == Ok::<User, Refusal>(user),
        server::required_user(Ok(None)) == Err::<User, Refusal>(Refusal::SignInFirst),
        server::required_user(Err(error)) == Err::<User, Refusal>(Refusal::Unavailable),
        user.admin ==> server::required_admin(Ok(user)) == Ok::<User, Refusal>(user),
        !user.admin ==> server::required_admin(Ok(user)) == Err::<User, Refusal>(
            Refusal::Forbidden,
        ),
{
}

/// Who is not signed in is no admin either, for the same reason.
pub proof fn law_no_admin_without_an_account(refusal: Refusal)
    ensures
        server::required_admin(Err(refusal)) == Err::<User, Refusal>(refusal),
{
}

/// A service is the enabled account its key was found for, and nobody for a key
/// that is unknown, disabled, or cannot be looked up.
pub proof fn law_services_are_enabled_accounts(user: User, error: StoreError)
    ensures
        server::client_of(None) is None,
        server::client_of(Some(Ok(None))) is None,
        server::client_of(Some(Err(error))) is None,
        user.disabled ==> server::client_of(Some(Ok(Some(user)))) is None,
        !user.disabled ==> server::client_of(Some(Ok(Some(user)))) == Some(user),
{
}

/// A row is asked for under the session's own subject, address, name and
/// picture, never as an admin, and with the house quota.
pub proof fn law_provisioning_follows_the_session(
    asked: Provision,
    claims: Claims,
    default_quota_bytes: u64,
)
    requires
        server::provisions(asked, claims, default_quota_bytes),
    ensures
        asked.sub@ == claims.sub@ && asked.email@ == claims.email@ && asked.name@ == claims.name@,
        asked.admin != Some(true),
        asked.photo_version == claims.photo_version,
        asked.default_quota_bytes == default_quota_bytes,
{
}

/// Only an admin sets a quota, and only a readable one.
pub proof fn law_only_admins_set_limits(
    admin: User,
    refusal: Refusal,
    amount: Option<u64>,
    unit: Seq<char>,
)
    ensures
        settings::quota_of(Err(refusal), amount, unit) == Err::<u64, Refusal>(refusal),
        settings::ceiling_of(Err(refusal), amount, unit) == Err::<Seq<char>, Refusal>(refusal),
        unit != "MiB"@ && unit != "GiB"@ ==> {
            &&& settings::quota_of(Ok(admin), amount, unit) == Err::<u64, Refusal>(Refusal::BadLimit)
            &&& settings::ceiling_of(Ok(admin), amount, unit) == Err::<Seq<char>, Refusal>(
                Refusal::BadLimit,
            )
        },
        amount is None ==> {
            &&& settings::quota_of(Ok(admin), amount, unit) == Err::<u64, Refusal>(Refusal::BadLimit)
            &&& settings::ceiling_of(Ok(admin), amount, unit) == Err::<Seq<char>, Refusal>(
                Refusal::BadLimit,
            )
        },
        settings::quota_of(Ok(admin), amount, unit) == Ok::<u64, Refusal>(0) ==> settings::ceiling_of(
            Ok(admin),
            amount,
            unit,
        ) == Err::<Seq<char>, Refusal>(Refusal::BadLimit),
        match settings::quota_of(Ok(admin), amount, unit) {
            Ok(bytes) => bytes > 0 ==> settings::ceiling_of(Ok(admin), amount, unit) == Ok::<
                Seq<char>,
                Refusal,
            >(text::numeral(bytes as nat, 10)),
            Err(_) => true,
        },
{
}

/// Preferences are kept exactly where the look, the theme and the language are
/// ones there are; the first that is not is named.
pub proof fn law_preferences(
    user: User,
    refusal: Refusal,
    ui: Seq<char>,
    theme: Seq<char>,
    language: Seq<char>,
)
    ensures
        settings::preferences_of(Err(refusal), ui, theme, language) == Err::<(), Refusal>(refusal),
        (ui == "instrument"@ || ui == "ledger"@) && (theme == "light"@ || theme == "dark"@) && (
        language == "en"@ || language == "tr"@) <==> settings::preferences_of(
            Ok(user),
            ui,
            theme,
            language,
        ) is Ok,
        ui != "instrument"@ && ui != "ledger"@ ==> settings::preferences_of(
            Ok(user),
            ui,
            theme,
            language,
        ) == Err::<(), Refusal>(Refusal::BadUi),
        (ui == "instrument"@ || ui == "ledger"@) && theme != "light"@ && theme != "dark"@
            ==> settings::preferences_of(Ok(user), ui, theme, language) == Err::<(), Refusal>(
            Refusal::BadTheme,
        ),
        (ui == "instrument"@ || ui == "ledger"@) && (theme == "light"@ || theme == "dark"@)
            && language != "en"@ && language != "tr"@ ==> settings::preferences_of(
            Ok(user),
            ui,
            theme,
            language,
        ) == Err::<(), Refusal>(Refusal::BadLanguage),
{
}

/// An admin switches any account but their own; what the switch of an account's
/// row posts turns it over, off for an enabled account and on for a disabled one.
pub proof fn law_switches_turn_accounts_over(
    admin: User,
    refusal: Refusal,
    user: User,
    row: AccountRow,
    lang: Lang,
    raw: Option<Seq<char>>,
)
    requires
        settings::account_row_of(row, user, admin.id@, lang),
    ensures
        settings::switched(Err(refusal), user.id@, raw) == Err::<bool, Refusal>(refusal),
        user.id@ == admin.id@ ==> {
            &&& row.switch is None
            &&& settings::switched(Ok(admin), user.id@, raw) == Err::<bool, Refusal>(
                Refusal::Forbidden,
            )
        },
        user.id@ != admin.id@ ==> {
            &&& row.switch is Some
            &&& settings::switched(Ok(admin), user.id@, None) == Ok::<bool, Refusal>(true)
            &&& share::flag_set(Some(row.switch->0.value@), true, text::ascii_folding())
                == !user.disabled
        },
        row.id@ == user.id@ && row.name@ == user.display_name@ && row.email@ == user.email@,
        row.admin is Some <==> user.admin,
        row.disabled is Some <==> user.disabled,
{
    reveal_strlit("0");
    reveal_strlit("1");
    reveal_strlit("false");
    reveal_strlit("no");
    reveal_strlit("off");
    assert(text::opt_str(row.admin) is Some <==> row.admin is Some);
    assert(text::opt_str(row.disabled) is Some <==> row.disabled is Some);
    if user.id@ != admin.id@ {
        let value = row.switch->0.value@;
        assert("0"@ =~= seq!['0'] && "1"@ =~= seq!['1']);
        lemma_one_letter('0');
        lemma_one_letter('1');
    }
}

proof fn lemma_one_letter(c: char)
    requires
        c == '0' || c == '1',
    ensures
        text::trimmed(seq![c]) == seq![c],
        text::ascii_lowered(seq![c]) == seq![c],
{
    reveal_with_fuel(text::trim_front, 2);
    reveal_with_fuel(text::trim_back, 2);
    assert(text::ascii_lowered(seq![c]) =~= seq![c]);
}

/// The panel over everyone is shown to admins alone, one row for each account;
/// every reader sees their own name, address and preferences, and one row for
/// each link they stand behind.
pub proof fn law_the_settings_page(
    page: SettingsPage,
    lang: Lang,
    reader: User,
    links: Seq<ShareLink>,
    targets: Seq<TargetReply>,
    users: Seq<User>,
    upload_limit: nat,
    query: Seq<char>,
    origin: Seq<char>,
)
    requires
        settings::settings_shows(
            page,
            lang,
            reader,
            links,
            targets,
            users,
            upload_limit,
            query,
            origin,
        ),
    ensures
        settings::settings_banner(page.banner, query, lang),
        page.everyone is Some <==> reader.admin,
        page.everyone is Some ==> {
            let rows = page.everyone->0.accounts@;
            &&& rows.len() == users.len()
            &&& forall|i: int|
                0 <= i < users.len() ==> (#[trigger] rows[i]).id@ == users[i].id@ && (
                rows[i].switch is Some <==> users[i].id@ != reader.id@)
        },
        page.name@ == reader.display_name@ && page.email@ == reader.email@,
        page.ui@ == reader.ui@ && page.theme@ == reader.theme@ && page.language@
            == reader.language@,
        page.links@.len() == links.len(),
        forall|i: int| 0 <= i < links.len() ==> (#[trigger] page.links@[i]).id@ == links[i].id@,
        page.no_links is Some <==> links.len() == 0,
        reader.quota_bytes > 0 && reader.used_bytes * 100 <= u64::MAX && reader.used_bytes
            <= reader.quota_bytes ==> page.percent * reader.quota_bytes <= reader.used_bytes * 100
            < (page.percent + 1) * reader.quota_bytes,
        reader.used_bytes > reader.quota_bytes && reader.used_bytes * 100 <= u64::MAX
            ==> page.percent == 100,
        reader.quota_bytes == 0 ==> page.percent == 100,
{
    assert(text::opt_str(page.no_links) is Some <==> page.no_links is Some);
    if page.everyone is Some {
        let rows = page.everyone->0.accounts@;
        assert forall|i: int| 0 <= i < users.len() implies (#[trigger] rows[i]).id@ == users[i].id@
            && (rows[i].switch is Some <==> users[i].id@ != reader.id@) by {
            assert(settings::account_row_of(rows[i], users[i], reader.id@, lang));
        }
    }
    assert forall|i: int| 0 <= i < links.len() implies (#[trigger] page.links@[i]).id@
        == links[i].id@ by {
        assert(settings::link_row_of(page.links@[i], links[i], targets[i], lang));
    }
    lemma_percent(reader.used_bytes as nat, reader.quota_bytes as nat);
}

proof fn lemma_percent(used: nat, quota: nat)
    ensures
        quota > 0 && used * 100 <= u64::MAX && used <= quota ==> sizes::percent_of(used, quota)
            * quota <= used * 100 < (sizes::percent_of(used, quota) + 1) * quota,
        quota > 0 && used * 100 <= u64::MAX && used > quota ==> sizes::percent_of(used, quota)
            == 100,
{
    if quota > 0 && used * 100 <= u64::MAX {
        let q = (used * 100) / quota;
        assert(q * quota <= used * 100 && used * 100 < (q + 1) * quota) by (nonlinear_arith)
            requires
                q == (used * 100) / quota,
                quota > 0,
        ;
        if used <= quota {
            assert(q <= 100) by (nonlinear_arith)
                requires
                    q * quota <= used * 100,
                    used <= quota,
                    quota > 0,
            ;
        } else {
            assert(q >= 100) by (nonlinear_arith)
                requires
                    used * 100 < (q + 1) * quota,
                    used > quota,
                    quota > 0,
            ;
        }
    }
}

/// A reader's row is the store's own word where it has one, and else the one the
/// session carries.
pub proof fn law_fresh_rows(user: User, row: User, error: StoreError)
    ensures
        settings::fresh_of(user, Ok(Some(row))) == Ok::<User, StoreError>(row),
        settings::fresh_of(user, Ok(None)) == Ok::<User, StoreError>(user),
        settings::fresh_of(user, Err(error)) == Err::<User, StoreError>(error),
{
}

/// The links an account stands behind are those not revoked, in their order.
pub proof fn law_standing_links(links: Seq<ShareLink>)
    ensures
        settings::standing(links) == links.filter(|link: ShareLink| link.revoked_at is None),
    decreases links.len(),
{
    reveal(Seq::filter);
    if links.len() > 0 {
        law_standing_links(links.drop_last());
    }
}

/// The share dialog of a file or a folder opens for its owner while it is live,
/// once its links, its grants and its grantees were read; anybody else's, a
/// trashed one and one that is not there open nothing.
pub proof fn law_the_share_dialog_opens_for_the_owner(
    user: User,
    file: File,
    folder: Folder,
    facts: ModalFacts,
    refusal: Refusal,
    kind: Seq<char>,
)
    ensures
        modal::modal_after(kind, Err(refusal), facts) == ModalStep::Nothing,
        kind != "file"@ && kind != "folder"@ ==> modal::modal_after(kind, Ok(user), facts)
            == ModalStep::Nothing,
        facts.target is None ==> {
            &&& modal::modal_after("file"@, Ok(user), facts) == ModalStep::LookTarget(
                ShareKind::File,
            )
            &&& modal::modal_after("folder"@, Ok(user), facts) == ModalStep::LookTarget(
                ShareKind::Folder,
            )
        },
        facts.target == Some(TargetReply::File(Ok(Some(file)))) ==> {
            let own = file.owner_id@ == user.id@ && file.deleted_at is None;
            &&& !own ==> modal::modal_after("file"@, Ok(user), facts) == ModalStep::Nothing
            &&& own ==> dialog_follows("file"@, ShareKind::File, user, facts)
        },
        facts.target == Some(TargetReply::Folder(Ok(Some(folder)))) ==> {
            let own = folder.owner_id@ == user.id@ && folder.deleted_at is None;
            &&& !own ==> modal::modal_after("folder"@, Ok(user), facts) == ModalStep::Nothing
            &&& own ==> dialog_follows("folder"@, ShareKind::Folder, user, facts)
        },
        facts.target == Some(TargetReply::File(Ok(None))) ==> modal::modal_after(
            "file"@,
            Ok(user),
            facts,
        ) == ModalStep::Nothing,
{
    reveal_strlit("file");
    reveal_strlit("folder");
    assert("file"@.len() != "folder"@.len());
    lemma_no_failure(facts.people@, 0);
}

/// What an owner's dialog does next: its links, then its grants, then its
/// grantees one by one, and then it shows.
pub open spec fn dialog_follows(
    word: Seq<char>,
    kind: ShareKind,
    user: User,
    facts: ModalFacts,
) -> bool {
    let next = modal::modal_after(word, Ok(user), facts);
    &&& facts.links is None ==> next == ModalStep::ListLinks
    &&& facts.links matches Some(Err(error)) ==> next == ModalStep::Fail(error)
    &&& (facts.links matches Some(Ok(_))) && facts.grants is None ==> next
        == ModalStep::ListGrants(kind)
    &&& (facts.links matches Some(Ok(_))) && facts.grants is Some && facts.grants->0 is Ok && (
    forall|i: int| 0 <= i < facts.people@.len() ==> (#[trigger] facts.people@[i]) is Ok) ==> {
        let grants = facts.grants->0->Ok_0@;
        &&& facts.people@.len() < grants.len() ==> next == ModalStep::LookPerson(
            facts.people@.len() as usize,
        )
        &&& facts.people@.len() >= grants.len() ==> next == ModalStep::Show(kind)
    }
}

proof fn lemma_no_failure(people: Seq<Result<Option<User>, StoreError>>, i: int)
    requires
        0 <= i <= people.len(),
    ensures
        (forall|j: int| i <= j < people.len() ==> (#[trigger] people[j]) is Ok)
            ==> modal::first_failure(people, i) is None,
    decreases people.len() - i,
{
    if i < people.len() {
        lemma_no_failure(people, i + 1);
    }
}

/// Whether a link stands and leads onto a target.
pub open spec fn stands_onto(link: ShareLink, kind: ShareKind, target: Seq<char>) -> bool {
    link.kind == kind && link.target_id@ == target && link.revoked_at is None
}

proof fn lemma_live_link(links: Seq<ShareLink>, kind: ShareKind, target: Seq<char>, i: int) -> (k:
    int)
    requires
        0 <= i <= links.len(),
    ensures
        match modal::live_link(links, kind, target, i) {
            Some(link) => i <= k < links.len() && link == links[k] && stands_onto(
                link,
                kind,
                target,
            ),
            None => forall|j: int|
                i <= j < links.len() ==> !#[trigger] stands_onto(links[j], kind, target),
        },
    decreases links.len() - i,
{
    if i >= links.len() {
        i
    } else if modal::is_live_link(links[i], kind, target) {
        i
    } else {
        lemma_live_link(links, kind, target, i + 1)
    }
}

proof fn lemma_people(
    grants: Seq<Grant>,
    people: Seq<Result<Option<User>, StoreError>>,
    lang: Lang,
    n: int,
    k: int,
)
    requires
        0 <= k < n <= grants.len(),
        n <= people.len(),
        people[k] matches Ok(Some(_)),
    ensures
        modal::people_of(grants, people, lang, n).contains(
            (
                people[k]->Ok_0->0.display_name@,
                people[k]->Ok_0->0.email@,
                share::access_words(lang, grants[k].can_download),
            ),
        ),
    decreases n,
{
    let out = modal::people_of(grants, people, lang, n);
    let head = modal::people_of(grants, people, lang, n - 1);
    if k < n - 1 {
        lemma_people(grants, people, lang, n - 1, k);
        let who = (
            people[k]->Ok_0->0.display_name@,
            people[k]->Ok_0->0.email@,
            share::access_words(lang, grants[k].can_download),
        );
        let at = choose|at: int| 0 <= at < head.len() && head[at] == who;
        assert(out[at] == who);
    } else {
        assert(out[out.len() - 1] == (
            people[k]->Ok_0->0.display_name@,
            people[k]->Ok_0->0.email@,
            share::access_words(lang, grants[k].can_download),
        ));
    }
}

/// The dialog shows the first standing link onto its target and no other,
/// everybody a grant was found for, and the address of a link minted just now.
pub proof fn law_the_share_dialog_shows_links_and_people(
    shown: Modal,
    lang: Lang,
    kind: ShareKind,
    target_id: Seq<char>,
    target: TargetReply,
    user: User,
    links: Seq<ShareLink>,
    grants: Seq<Grant>,
    people: Seq<Result<Option<User>, StoreError>>,
    query: Seq<char>,
    close_href: Seq<char>,
    created: Option<Seq<char>>,
    origin: Seq<char>,
    k: int,
)
    requires
        modal::modal_shows(
            shown,
            lang,
            kind,
            target_id,
            target,
            user,
            links,
            grants,
            people,
            query,
            close_href,
            created,
            origin,
        ),
        people.len() >= grants.len(),
    ensures
        shown.link is Some ==> exists|k: int|
            0 <= k < links.len() && shown.link->0.id@ == links[k].id@ && #[trigger] stands_onto(
                links[k],
                kind,
                target_id,
            ),
        0 <= k < links.len() && stands_onto(links[k], kind, target_id) ==> shown.link is Some,
        0 <= k < grants.len() && (people[k] matches Ok(Some(_))) ==> modal::person_texts(
            shown.people@,
        ).contains(
            (
                people[k]->Ok_0->0.display_name@,
                people[k]->Ok_0->0.email@,
                share::access_words(lang, grants[k].can_download),
            ),
        ),
        shown.close_href@ == close_href,
        shown.owner_email@ == user.email@,
        created is None ==> shown.created is None,
        created is Some ==> shown.created is Some && shown.created->0@ == origin + "/s/"@
            + created->0,
{
    let at = lemma_live_link(links, kind, target_id, 0);
    assert(shown.link is Some ==> stands_onto(links[at], kind, target_id));
    if 0 <= k < grants.len() && (people[k] matches Ok(Some(_))) {
        lemma_people(grants, people, lang, grants.len() as int, k);
    }
}

/// A quota of a whole number of mebibytes or gibibytes is set to exactly that
/// many bytes, or to the most there can be; an account with such a quota shows
/// that number in its form.
pub proof fn law_quotas_are_whole_units(
    admin: User,
    bits: u64,
    n: nat,
    row: AccountRow,
    user: User,
    reader: Seq<char>,
    lang: Lang,
)
    requires
        sizes::double_is(bits, n),
        settings::account_row_of(row, user, reader, lang),
    ensures
        n * 0x10_0000 <= u64::MAX ==> settings::quota_of(Ok(admin), Some(bits), "MiB"@) == Ok::<
            u64,
            Refusal,
        >((n * 0x10_0000) as u64),
        n * 0x4000_0000 <= u64::MAX ==> settings::quota_of(Ok(admin), Some(bits), "GiB"@) == Ok::<
            u64,
            Refusal,
        >((n * 0x4000_0000) as u64),
        n * 0x4000_0000 > u64::MAX ==> settings::quota_of(Ok(admin), Some(bits), "GiB"@) == Ok::<
            u64,
            Refusal,
        >(u64::MAX),
        n < 1024 && user.quota_bytes == n * 0x10_0000 ==> row.amount@ == text::numeral(n, 10)
            && row.unit == sizes::LimitUnit::MiB,
        1 <= n < 0x4_0000_0000 && user.quota_bytes == n * 0x4000_0000 ==> row.amount@
            == text::numeral(n, 10) && row.unit == sizes::LimitUnit::GiB,
{
    reveal_strlit("MiB");
    reveal_strlit("GiB");
    assert("MiB"@[0] == 'M' && "GiB"@[0] == 'G');
    sizes::lemma_scaled(bits, n, 20);
    sizes::lemma_scaled(bits, n, 30);
    sizes::lemma_unit_power(sizes::LimitUnit::MiB);
    sizes::lemma_unit_power(sizes::LimitUnit::GiB);
    if n < 1024 {
        sizes::law_an_unedited_form_keeps_its_limit(n, sizes::LimitUnit::MiB, bits);
    }
    if 1 <= n < 0x4_0000_0000 {
        sizes::law_an_unedited_form_keeps_its_limit(n, sizes::LimitUnit::GiB, bits);
    }
}

proof fn lemma_first_failure(
    people: Seq<Result<Option<User>, StoreError>>,
    i: int,
    at: int,
)
    requires
        0 <= i <= at < people.len(),
        people[at] is Err,
        forall|j: int| i <= j < at ==> (#[trigger] people[j]) is Ok,
    ensures
        modal::first_failure(people, i) == Some(people[at]->Err_0),
    decreases at - i,
{
    if i < at {
        assert(people[i] is Ok);
        lemma_first_failure(people, i + 1, at);
    }
}

/// A store that fails while the dialog of an owned file is read fails the page,
/// but for grants that are gone with their target, which open nothing.
pub proof fn law_a_failing_store_fails_the_dialog(
    user: User,
    file: File,
    facts: ModalFacts,
    error: StoreError,
    at: int,
)
    ensures
        facts.target == Some(TargetReply::File(Err(error))) ==> modal::modal_after(
            "file"@,
            Ok(user),
            facts,
        ) == ModalStep::Fail(error),
        facts.target == Some(TargetReply::Folder(Err(error))) ==> modal::modal_after(
            "folder"@,
            Ok(user),
            facts,
        ) == ModalStep::Fail(error),
        facts.target == Some(TargetReply::File(Ok(Some(file)))) && file.owner_id@ == user.id@
            && file.deleted_at is None && (facts.links matches Some(Ok(_))) ==> {
            let next = modal::modal_after("file"@, Ok(user), facts);
            &&& facts.grants == Some(Err::<Vec<Grant>, StoreError>(StoreError::NotFound))
                || facts.grants == Some(Err::<Vec<Grant>, StoreError>(StoreError::CrossOwner))
                ==> next == ModalStep::Nothing
            &&& facts.grants == Some(Err::<Vec<Grant>, StoreError>(error)) && error
                != StoreError::NotFound && error != StoreError::CrossOwner ==> next
                == ModalStep::Fail(error)
            &&& (facts.grants matches Some(Ok(_))) && 0 <= at < facts.people@.len()
                && facts.people@[at] is Err && (forall|j: int|
                0 <= j < at ==> (#[trigger] facts.people@[j]) is Ok) ==> next == ModalStep::Fail(
                facts.people@[at]->Err_0,
            )
        },
{
    reveal_strlit("file");
    reveal_strlit("folder");
    assert("file"@.len() != "folder"@.len());
    if 0 <= at < facts.people@.len() && facts.people@[at] is Err && (forall|j: int|
        0 <= j < at ==> (#[trigger] facts.people@[j]) is Ok) {
        lemma_first_failure(facts.people@, 0, at);
    }
}

} // verus!
