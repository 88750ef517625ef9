//! Settings: the reader's profile and quota, their live links, and the admin's
//! panel over every account.
//!
//! Every call answers a redirect back to the page, with the refusal or the name
//! of what was saved on the query. Quotas, the per-file ceiling and the kill
//! switch are an admin's alone, and nobody switches themselves off.
use crate::address;
use crate::address::{answered, back_to};
use crate::i18n;
use crate::i18n::{t, Key, Lang};
use crate::model;
use crate::model::{ShareKind, ShareLink, StoreError, User};
use crate::query;
use crate::refusal;
use crate::refusal::Refusal;
use crate::server;
use crate::share;
use crate::shared::TargetReply;
use crate::sizes;
use crate::sizes::LimitUnit;
use crate::text;
use vstd::prelude::*;

pub use crate::sizes::human_bytes;

verus! {

// ---- The calls ------------------------------------------------------------------
/// Where a settings call sends the browser: back, with the refusal or with what
/// was saved.
pub open spec fn settings_answer(
    referer: Option<Seq<char>>,
    call: Seq<char>,
    refusal: Option<Refusal>,
) -> Seq<char> {
    address::answered_at(share::back_of(referer, "/settings"@), call, refusal, true)
}

/// Back to settings, the refusal on the query, or `saved=<call>` when there was
/// nothing to refuse.
pub fn redirect_back(referer: Option<&str>, call: &str, refusal: Option<Refusal>) -> (r: String)
    ensures
        r@ == settings_answer(text::opt_str(referer), call@, refusal),
{
    answered(&back_to(referer, "/settings"), call, refusal, true)
}

/// Where a changed setting sends the browser.
pub open spec fn setting_changed(
    referer: Option<Seq<char>>,
    call: Seq<char>,
    outcome: Result<(), StoreError>,
) -> Seq<char> {
    settings_answer(
        referer,
        call,
        match outcome {
            Ok(_) => None,
            Err(error) => Some(share::share_words(error)),
        },
    )
}

/// The answer to a settings call the store was asked to keep.
pub fn changed_setting(referer: Option<&str>, call: &str, outcome: Result<(), StoreError>) -> (r:
    String)
    ensures
        r@ == setting_changed(text::opt_str(referer), call@, outcome),
{
    let refusal = match outcome {
        Ok(_) => None,
        Err(error) => Some(share::refusal_of(error)),
    };
    redirect_back(referer, call, refusal)
}

/// The byte quota a form sets, or why it sets none.
pub open spec fn quota_of(admin: Result<User, Refusal>, amount: Option<u64>, unit: Seq<char>) -> Result<u64, Refusal> {
    match admin {
        Err(refusal) => Err::<u64, Refusal>(refusal),
        Ok(_) => match sizes::limit_of(amount, sizes::unit_named(unit)) {
            Some(bytes) => Ok(bytes),
            None => Err(Refusal::BadLimit),
        },
    }
}

/// The byte quota a quota form sets, or why it sets none. Zero passes: it stops
/// new uploads and touches nothing already held.
pub fn set_quota(admin: &Result<User, Refusal>, amount: Option<u64>, unit: &str) -> (r: Result<
    u64,
    Refusal,
>)
    ensures
        r == quota_of(*admin, amount, unit@),
{
    match admin {
        Err(refusal) => Err(*refusal),
        Ok(_) => match sizes::unit_bytes(amount, unit) {
            Some(bytes) => Ok(bytes),
            None => Err(Refusal::BadLimit),
        },
    }
}

/// The text the per-file ceiling is filed as, or why none is. Zero is refused:
/// an install must always have a positive per-file ceiling.
pub open spec fn ceiling_of(
    admin: Result<User, Refusal>,
    amount: Option<u64>,
    unit: Seq<char>,
) -> Result<Seq<char>, Refusal> {
    match admin {
        Err(refusal) => Err(refusal),
        Ok(_) => match sizes::limit_of(amount, sizes::unit_named(unit)) {
            Some(bytes) => if bytes > 0 {
                Ok(text::numeral(bytes as nat, 10))
            } else {
                Err(Refusal::BadLimit)
            },
            None => Err(Refusal::BadLimit),
        },
    }
}

/// The text the per-file ceiling is filed as, or why none is.
pub fn set_upload_limit(admin: &Result<User, Refusal>, amount: Option<u64>, unit: &str) -> (r: Result<
    String,
    Refusal,
>)
    ensures
        match r {
            Ok(value) => ceiling_of(*admin, amount, unit@) == Ok::<Seq<char>, Refusal>(value@),
            Err(refusal) => ceiling_of(*admin, amount, unit@) == Err::<Seq<char>, Refusal>(refusal),
        },
{
    match admin {
        Err(refusal) => Err(*refusal),
        Ok(_) => match sizes::unit_bytes(amount, unit) {
            Some(bytes) => if bytes > 0 {
                Ok(text::decimal(bytes))
            } else {
                Err(Refusal::BadLimit)
            },
            None => Err(Refusal::BadLimit),
        },
    }
}

/// Whether a kill-switch form disables or re-enables its account, or why it
/// does neither.
pub open spec fn switched(
    admin: Result<User, Refusal>,
    user_id: Seq<char>,
    disabled: Option<Seq<char>>,
) -> Result<bool, Refusal> {
    match admin {
        Err(refusal) => Err(refusal),
        Ok(admin) => if admin.id@ == user_id {
            Err(Refusal::Forbidden)
        } else {
            Ok(
                match disabled {
                    Some(value) => !share::plainly_false(text::lowercase(text::trimmed(value))),
                    None => true,
                },
            )
        },
    }
}

/// Disables or re-enables one account. Disabling yourself is refused, so the
/// install is never left with no way back in through its only admin.
pub fn set_disabled(admin: &Result<User, Refusal>, user_id: &str, disabled: Option<&str>) -> (r: Result<
    bool,
    Refusal,
>)
    ensures
        r == switched(*admin, user_id@, text::opt_str(disabled)),
        match text::opt_str(disabled) {
            Some(value) => text::all_ascii(text::trimmed(value)) && r is Ok ==> r == Ok::<
                bool,
                Refusal,
            >(!share::plainly_false(text::ascii_lowered(text::trimmed(value)))),
            None => true,
        },
{
    match admin {
        Err(refusal) => Err(*refusal),
        Ok(admin) => if text::same(&admin.id, user_id) {
            Err(Refusal::Forbidden)
        } else {
            Ok(share::parse_flag(disabled, true))
        },
    }
}

/// What the interface field offers.
pub open spec fn is_ui(word: Seq<char>) -> bool {
    word == "instrument"@ || word == "ledger"@
}

/// What the theme field offers.
pub open spec fn is_theme(word: Seq<char>) -> bool {
    word == "light"@ || word == "dark"@
}

/// What the language field offers.
pub open spec fn is_language(word: Seq<char>) -> bool {
    word == "en"@ || word == "tr"@
}

/// Why a preferences form is not kept, the first reason standing.
pub open spec fn preference_refusal(
    user: Result<User, Refusal>,
    ui: Seq<char>,
    theme: Seq<char>,
    language: Seq<char>,
) -> Option<Refusal> {
    match user {
        Err(refusal) => Some(refusal),
        Ok(_) => if !is_ui(ui) {
            Some(Refusal::BadUi)
        } else if !is_theme(theme) {
            Some(Refusal::BadTheme)
        } else if !is_language(language) {
            Some(Refusal::BadLanguage)
        } else {
            None
        },
    }
}

/// The answer to a preferences form.
pub open spec fn preferences_of(
    user: Result<User, Refusal>,
    ui: Seq<char>,
    theme: Seq<char>,
    language: Seq<char>,
) -> Result<(), Refusal> {
    match preference_refusal(user, ui, theme, language) {
        Some(refusal) => Err::<(), Refusal>(refusal),
        None => Ok(()),
    }
}

/// Whether the reader's display preferences may be kept. Each field is checked
/// against what its dropdown offers; another value is a hand-built post.
pub fn set_preferences(user: &Result<User, Refusal>, ui: &str, theme: &str, language: &str) -> (r: Result<
    (),
    Refusal,
>)
    ensures
        r == preferences_of(*user, ui@, theme@, language@),
{
    if let Err(refusal) = user {
        return Err(*refusal);
    }
    if !(text::same(ui, "instrument") || text::same(ui, "ledger")) {
        return Err(Refusal::BadUi);
    }
    if !(text::same(theme, "light") || text::same(theme, "dark")) {
        return Err(Refusal::BadTheme);
    }
    if !(text::same(language, "en") || text::same(language, "tr")) {
        return Err(Refusal::BadLanguage);
    }
    Ok(())
}

/// Nobody switches themselves off, whatever the form says.
pub proof fn law_nobody_disables_themselves(admin: User, disabled: Option<Seq<char>>)
    ensures
        switched(Ok(admin), admin.id@, disabled) == Err::<bool, Refusal>(Refusal::Forbidden),
{
}

/// A filed per-file ceiling is read back as the positive number of bytes the
/// form named, and is then the one in force, whatever was configured.
pub proof fn law_filed_ceiling_is_read_back(
    admin: Result<User, Refusal>,
    amount: Option<u64>,
    unit: Seq<char>,
    configured: u64,
)
    requires
        ceiling_of(admin, amount, unit) is Ok,
    ensures
        match sizes::limit_of(amount, sizes::unit_named(unit)) {
            Some(bytes) => {
                let filed = ceiling_of(admin, amount, unit)->Ok_0;
                &&& bytes > 0
                &&& text::read_unsigned(filed) == Some(bytes as int)
                &&& server::ceiling_named(Some(filed), configured) == bytes
            },
            None => false,
        },
{
    let bytes = sizes::limit_of(amount, sizes::unit_named(unit))->0;
    text::law_numeral_is_read_back(bytes as nat);
}

/// A kept language preference is the language the pages are then written in.
pub proof fn law_kept_language_is_spoken(
    user: Result<User, Refusal>,
    ui: Seq<char>,
    theme: Seq<char>,
    language: Seq<char>,
)
    requires
        preference_refusal(user, ui, theme, language) is None,
    ensures
        i18n::code_of(i18n::lang_of(language)) == language,
{
}

// ---- The page --------------------------------------------------------------------
/// The reader's row as it stands now.
pub open spec fn fresh_of(user: User, found: Result<Option<User>, StoreError>) -> Result<User, StoreError> {
    match found {
        Ok(Some(row)) => Ok::<User, StoreError>(row),
        Ok(None) => Ok(user),
        Err(error) => Err(error),
    }
}

/// The reader's row as the store has it now, so the quota bar never shows a
/// stale number; the session's own row stands in where the store has none.
pub fn fresh_row(user: &User, found: Result<Option<User>, StoreError>) -> (r: Result<User, StoreError>)
    ensures
        r == fresh_of(*user, found),
{
    match found {
        Ok(Some(row)) => Ok(row),
        Ok(None) => Ok(user.clone()),
        Err(error) => Err(error),
    }
}

/// The links not revoked, in their order.
pub open spec fn standing(links: Seq<ShareLink>) -> Seq<ShareLink>
    decreases links.len(),
{
    if links.len() == 0 {
        Seq::empty()
    } else if links.last().revoked_at is None {
        standing(links.drop_last()).push(links.last())
    } else {
        standing(links.drop_last())
    }
}

/// The links not revoked, in their order.
pub fn live_links(links: Vec<ShareLink>) -> (r: Vec<ShareLink>)
    ensures
        r@ == standing(links@),
{
    let ghost all = links@;
    let mut rest = links;
    let mut out: Vec<ShareLink> = Vec::new();
    let ghost mut k: int = 0;
    while rest.len() > 0
        invariant
            0 <= k,
            k + rest.len() == all.len(),
            rest@ == all.skip(k),
            out@ == standing(all.take(k)),
        decreases rest.len(),
    {
        let link = rest.remove(0);
        proof {
            assert(all[k] == link);
            assert(all.take(k + 1).drop_last() == all.take(k));
            assert(all.take(k + 1).last() == link);
            assert(rest@ =~= all.skip(k + 1));
            k = k + 1;
        }
        if link.revoked_at.is_none() {
            out.push(link);
        }
    }
    assert(all.take(k) =~= all);
    out
}

/// The name a link's target goes by: its own where it can be read, trashed or
/// not, else its id.
pub open spec fn link_name(link: ShareLink, target: TargetReply) -> Seq<char> {
    match (link.kind, target) {
        (ShareKind::File, TargetReply::File(Ok(Some(file)))) => file.name@,
        (ShareKind::Folder, TargetReply::Folder(Ok(Some(folder)))) => folder.name@,
        _ => link.target_id@,
    }
}

/// One of the reader's live links.
#[derive(Debug)]
pub struct LinkRow {
    pub id: String,
    pub label: String,
    pub expiry: String,
    pub access: &'static str,
}

/// Whether a row shows a link.
pub open spec fn link_row_of(row: LinkRow, link: ShareLink, target: TargetReply, lang: Lang) -> bool {
    &&& row.id@ == link.id@
    &&& row.label@ == model::kind_word(link.kind) + " · "@ + link_name(link, target)
    &&& row.expiry@ == share::expiry_words(lang, link.expires_at)
    &&& row.access@ == share::access_words(lang, link.can_download)
}

fn link_row(link: &ShareLink, target: &TargetReply, lang: Lang) -> (r: LinkRow)
    ensures
        link_row_of(r, *link, *target, lang),
{
    let name = match (link.kind, target) {
        (ShareKind::File, TargetReply::File(Ok(Some(file)))) => file.name.clone(),
        (ShareKind::Folder, TargetReply::Folder(Ok(Some(folder)))) => folder.name.clone(),
        _ => link.target_id.clone(),
    };
    let mut label = text::glue(link.kind.as_str(), " · ");
    label.append(&name);
    LinkRow {
        id: link.id.clone(),
        label,
        expiry: share::expiry_line(lang, link.expires_at),
        access: share::access_chip(lang, link.can_download),
    }
}

/// The usage line: what is held, of what may be.
pub open spec fn quota_words(lang: Lang, used: nat, quota: nat) -> Seq<char> {
    sizes::size_text(used, sizes::binary_units()) + " "@ + i18n::phrase(lang, Key::QuotaOf) + " "@
        + sizes::size_text(quota, sizes::binary_units())
}

/// The usage line: what is held, of what may be.
pub fn quota_line(lang: Lang, used_bytes: u64, quota_bytes: u64) -> (r: String)
    ensures
        r@ == quota_words(lang, used_bytes as nat, quota_bytes as nat),
{
    let mut out = text::glue(&sizes::human_bytes(used_bytes), " ");
    out.append(t(lang, Key::QuotaOf));
    out.append(" ");
    out.append(&sizes::human_bytes(quota_bytes));
    out
}

/// The form that disables or re-enables an account.
#[derive(Clone, Copy, Debug)]
pub struct Switch {
    /// What the form's `disabled` field holds.
    pub value: &'static str,
    pub label: &'static str,
}

/// One account in the admin's panel.
#[derive(Debug)]
pub struct AccountRow {
    pub id: String,
    pub name: String,
    pub email: String,
    pub admin: Option<&'static str>,
    pub disabled: Option<&'static str>,
    pub quota: String,
    pub amount: String,
    pub unit: LimitUnit,
    /// Absent on the reader's own row.
    pub switch: Option<Switch>,
}

/// Whether a row shows an account to `reader`.
pub open spec fn account_row_of(row: AccountRow, user: User, reader: Seq<char>, lang: Lang) -> bool {
    let unit = sizes::limit_unit_of(user.quota_bytes as nat);
    &&& row.id@ == user.id@
    &&& row.name@ == user.display_name@
    &&& row.email@ == user.email@
    &&& text::opt_str(row.admin) == if user.admin {
        Some(i18n::phrase(lang, Key::AdminBadge))
    } else {
        None
    }
    &&& text::opt_str(row.disabled) == if user.disabled {
        Some(i18n::phrase(lang, Key::DisabledBadge))
    } else {
        None
    }
    &&& row.quota@ == quota_words(lang, user.used_bytes as nat, user.quota_bytes as nat)
    &&& row.unit == unit
    &&& row.amount@ == sizes::amount_text(
        sizes::hundredths_of(user.quota_bytes as nat, sizes::limit_size(unit)),
    )
    &&& match row.switch {
        Some(switch) => {
            &&& user.id@ != reader
            &&& switch.value@ == if user.disabled { "0"@ } else { "1"@ }
            &&& switch.label@ == i18n::phrase(
                lang,
                if user.disabled {
                    Key::EnableUser
                } else {
                    Key::DisableUser
                },
            )
        },
        None => user.id@ == reader,
    }
}

fn account_row(user: &User, reader: &str, lang: Lang) -> (r: AccountRow)
    ensures
        account_row_of(r, *user, reader@, lang),
{
    let (amount, unit) = sizes::bytes_as_unit(user.quota_bytes);
    let switch = if text::same(&user.id, reader) {
        None
    } else if user.disabled {
        Some(Switch { value: "0", label: t(lang, Key::EnableUser) })
    } else {
        Some(Switch { value: "1", label: t(lang, Key::DisableUser) })
    };
    AccountRow {
        id: user.id.clone(),
        name: user.display_name.clone(),
        email: user.email.clone(),
        admin: if user.admin {
            Some(t(lang, Key::AdminBadge))
        } else {
            None
        },
        disabled: if user.disabled {
            Some(t(lang, Key::DisabledBadge))
        } else {
            None
        },
        quota: quota_line(lang, user.used_bytes, user.quota_bytes),
        amount,
        unit,
        switch,
    }
}

/// The admin's panel.
#[derive(Debug)]
pub struct Everyone {
    pub accounts: Vec<AccountRow>,
    /// The per-file ceiling in force, in words.
    pub ceiling: String,
    pub amount: String,
    pub unit: LimitUnit,
}

/// Whether a panel shows every account and the ceiling to `reader`.
pub open spec fn everyone_of(
    panel: Everyone,
    users: Seq<User>,
    upload_limit: nat,
    reader: Seq<char>,
    lang: Lang,
) -> bool {
    &&& panel.accounts@.len() == users.len()
    &&& forall|i: int|
        0 <= i < users.len() ==> account_row_of(#[trigger] panel.accounts@[i], users[i], reader, lang)
    &&& panel.ceiling@ == i18n::phrase(lang, Key::CurrentUploadLimit) + ": "@ + sizes::size_text(
        upload_limit,
        sizes::binary_units(),
    )
    &&& panel.unit == sizes::limit_unit_of(upload_limit)
    &&& panel.amount@ == sizes::amount_text(
        sizes::hundredths_of(upload_limit, sizes::limit_size(panel.unit)),
    )
}

fn everyone(users: &Vec<User>, upload_limit: u64, reader: &str, lang: Lang) -> (r: Everyone)
    ensures
        everyone_of(r, users@, upload_limit as nat, reader@, lang),
{
    let mut accounts: Vec<AccountRow> = Vec::new();
    let mut i: usize = 0;
    while i < users.len()
        invariant
            i <= users.len(),
            accounts.len() == i,
            forall|k: int|
                0 <= k < i ==> account_row_of(#[trigger] accounts@[k], users@[k], reader@, lang),
        decreases users.len() - i,
    {
        accounts.push(account_row(&users[i], reader, lang));
        i += 1;
    }
    let mut ceiling = text::glue(t(lang, Key::CurrentUploadLimit), ": ");
    ceiling.append(&sizes::human_bytes(upload_limit));
    let (amount, unit) = sizes::bytes_as_unit(upload_limit);
    Everyone { accounts, ceiling, amount, unit }
}

/// The calls whose answers the page shows.
pub open spec fn settings_calls() -> Seq<Seq<char>> {
    seq![
        "create"@,
        "revoke"@,
        "add"@,
        "remove"@,
        "quota"@,
        "disable"@,
        "preferences"@,
        "upload-limit"@,
    ]
}

/// The refusal and the saved chip the page shows.
pub open spec fn settings_banner(banner: share::Banner, query: Seq<char>, lang: Lang) -> bool {
    &&& text::opt_text(banner.refused) == if settings_calls().contains(
        share::value_or_empty(query, "on"@),
    ) {
        match share::named_refusal(query) {
            Some(refusal) => Some(refusal::words_in(refusal, lang)),
            None => None,
        }
    } else {
        None
    }
    &&& text::opt_str(banner.saved) == if settings_calls().contains(
        share::value_or_empty(query, "saved"@),
    ) {
        Some(i18n::phrase(lang, Key::Saved))
    } else {
        None
    }
}

/// Behind a settings call the page says what came of it: the refusal in words,
/// or the chip of a clean save, and never both, whatever the page it was posted
/// from said before.
pub proof fn law_the_page_says_what_came_of_a_call(
    referer: Option<Seq<char>>,
    call: Seq<char>,
    refusal: Option<Refusal>,
    banner: share::Banner,
    lang: Lang,
)
    requires
        settings_calls().contains(call),
        settings_banner(
            banner,
            query::path_and_query(settings_answer(referer, call, refusal)).1,
            lang,
        ),
    ensures
        text::opt_text(banner.refused) == match refusal {
            Some(refusal) => Some(refusal::words_in(refusal, lang)),
            None => None,
        },
        text::opt_str(banner.saved) == match refusal {
            Some(_) => None,
            None => Some(i18n::phrase(lang, Key::Saved)),
        },
{
    let from = match referer {
        Some(address) => address,
        None => "/settings"@,
    };
    assert(text::free_of(call, '&') && call.len() > 0 && !settings_calls().contains(Seq::empty()))
        by {
        reveal_strlit("create");
        reveal_strlit("revoke");
        reveal_strlit("add");
        reveal_strlit("remove");
        reveal_strlit("quota");
        reveal_strlit("disable");
        reveal_strlit("preferences");
        reveal_strlit("upload-limit");
        let all = settings_calls();
        assert forall|i: int| 0 <= i < all.len() implies text::free_of(#[trigger] all[i], '&')
            && all[i].len() > 0 by {}
        let i = choose|i: int| 0 <= i < all.len() && all[i] == call;
        assert(text::free_of(all[i], '&'));
    }
    match refusal {
        Some(refusal) => {
            address::law_answer_is_read_back(from, call, refusal, true);
            refusal::law_code_round_trip(refusal);
        },
        None => address::law_saved_call_is_read_back(from, call),
    }
}

fn banner(query: &str, lang: Lang) -> (r: share::Banner)
    ensures
        settings_banner(r, query@, lang),
{
    let calls: [&'static str; 8] = [
        "create",
        "revoke",
        "add",
        "remove",
        "quota",
        "disable",
        "preferences",
        "upload-limit",
    ];
    let r = share::refusal_banner(query, lang, &calls);
    proof {
        let named = settings_calls();
        assert forall|word: Seq<char>|
            #![trigger named.contains(word)]
            named.contains(word) == share::names_call(calls@, word) by {
            if named.contains(word) {
                let i = choose|i: int| 0 <= i < named.len() && named[i] == word;
                assert(calls@[i]@ == named[i]);
            }
            if share::names_call(calls@, word) {
                let i = choose|i: int| 0 <= i < calls@.len() && (#[trigger] calls@[i])@ == word;
                assert(calls@[i]@ == named[i]);
            }
        }
        assert(named.contains(share::value_or_empty(query@, "on"@)) == share::names_call(
            calls@,
            share::value_or_empty(query@, "on"@),
        ));
        assert(named.contains(share::value_or_empty(query@, "saved"@)) == share::names_call(
            calls@,
            share::value_or_empty(query@, "saved"@),
        ));
    }
    r
}

/// Everything the settings page shows a signed-in reader.
#[derive(Debug)]
pub struct SettingsPage {
    pub banner: share::Banner,
    /// The address of a link minted just now, shown once.
    pub created: Option<String>,
    pub name: String,
    pub email: String,
    pub quota: String,
    pub percent: u8,
    pub ui: String,
    pub theme: String,
    pub language: String,
    pub links: Vec<LinkRow>,
    /// What an empty list of links says.
    pub no_links: Option<&'static str>,
    /// Only for an admin.
    pub everyone: Option<Everyone>,
}

/// Whether a page is the settings page, see [`settings_page`].
pub open spec fn settings_shows(
    page: SettingsPage,
    lang: Lang,
    reader: User,
    links: Seq<ShareLink>,
    targets: Seq<TargetReply>,
    users: Seq<User>,
    upload_limit: nat,
    query: Seq<char>,
    origin: Seq<char>,
) -> bool {
    &&& settings_banner(page.banner, query, lang)
    &&& text::opt_text(page.created) == match query::created_in(query) {
        Some(token) => Some(origin + "/s/"@ + token),
        None => None,
    }
    &&& page.name@ == reader.display_name@
    &&& page.email@ == reader.email@
    &&& page.quota@ == quota_words(lang, reader.used_bytes as nat, reader.quota_bytes as nat)
    &&& page.percent == sizes::percent_of(reader.used_bytes as nat, reader.quota_bytes as nat)
    &&& page.ui@ == reader.ui@
    &&& page.theme@ == reader.theme@
    &&& page.language@ == reader.language@
    &&& page.links@.len() == links.len()
    &&& forall|i: int|
        0 <= i < links.len() ==> link_row_of(
            #[trigger] page.links@[i],
            links[i],
            targets[i],
            lang,
        )
    &&& text::opt_str(page.no_links) == if links.len() == 0 {
        Some(i18n::phrase(lang, Key::NoLinks))
    } else {
        None
    }
    &&& match page.everyone {
        Some(panel) => reader.admin && everyone_of(
            panel,
            users,
            upload_limit,
            reader.id@,
            lang,
        ),
        None => !reader.admin,
    }
}

/// The reader's profile and quota, their live links, and, for an admin, every
/// account with its quota and kill switch.
pub fn settings_page(
    lang: Lang,
    reader: &User,
    links: &Vec<ShareLink>,
    targets: &Vec<TargetReply>,
    users: &Vec<User>,
    upload_limit: u64,
    query: &str,
    origin: &str,
) -> (r: SettingsPage)
    requires
        targets.len() == links.len(),
    ensures
        settings_shows(
            r,
            lang,
            *reader,
            links@,
            targets@,
            users@,
            upload_limit as nat,
            query@,
            origin@,
        ),
{
    let created = match query::created_token(query) {
        Some(token) => {
            let mut address = text::glue(origin, "/s/");
            address.append(&token);
            Some(address)
        },
        None => None,
    };
    let mut rows: Vec<LinkRow> = Vec::new();
    let mut i: usize = 0;
    while i < links.len()
        invariant
            i <= links.len(),
            targets.len() == links.len(),
            rows.len() == i,
            forall|k: int|
                0 <= k < i ==> link_row_of(#[trigger] rows@[k], links@[k], targets@[k], lang),
        decreases links.len() - i,
    {
        rows.push(link_row(&links[i], &targets[i], lang));
        i += 1;
    }
    SettingsPage {
        banner: banner(query, lang),
        created,
        name: reader.display_name.clone(),
        email: reader.email.clone(),
        quota: quota_line(lang, reader.used_bytes, reader.quota_bytes),
        percent: sizes::quota_percent(reader.used_bytes, reader.quota_bytes),
        ui: reader.ui.clone(),
        theme: reader.theme.clone(),
        language: reader.language.clone(),
        links: rows,
        no_links: if links.len() == 0 {
            Some(t(lang, Key::NoLinks))
        } else {
            None
        },
        everyone: if reader.admin {
            Some(everyone(users, upload_limit, &reader.id, lang))
        } else {
            None
        },
    }
}

} // verus!
