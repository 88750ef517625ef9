//! The chrome every page renders inside: who is signed in, which page is
//! current, and the reader's own look.
use crate::i18n;
use crate::i18n::{lang, t, Key, Lang};
use crate::model::{StoreError, User};
use crate::text;
use vstd::prelude::*;

verus! {

// ---- A person as a circle ------------------------------------------------------------
/// What `char::to_uppercase` makes of a character.
pub uninterp spec fn uppercase_of(c: char) -> Seq<char>;

/// `char::to_uppercase` yields the upper-case mapping of a character, one
/// character or more; written out with `ToString`. Of `a` to `z` it is `A` to
/// `Z`.
#[verifier::external_body]
fn uppercase(c: char) -> (r: String)
    ensures
        r@ == uppercase_of(c),
        r@.len() >= 1,
        'a' <= c <= 'z' ==> r@ == seq![((c as u32 - 32) as u32) as char],
        'A' <= c <= 'Z' ==> r@ == seq![c],
{
    c.to_uppercase().to_string()
}

/// The first letters of a name's words, in order. A word is a run without white
/// space.
pub open spec fn word_starts(s: Seq<char>) -> Seq<char>
    decreases s.len(),
{
    if s.len() == 0 {
        Seq::empty()
    } else {
        let head = word_starts(s.drop_last());
        if !text::is_space(s.last()) && (s.len() == 1 || text::is_space(s[s.len() - 2])) {
            head.push(s.last())
        } else {
            head
        }
    }
}

/// The upper-case mappings of a run of letters, one behind the other.
pub open spec fn capitals(letters: Seq<char>) -> Seq<char>
    decreases letters.len(),
{
    if letters.len() == 0 {
        Seq::empty()
    } else {
        capitals(letters.drop_last()) + uppercase_of(letters.last())
    }
}

/// A letter from `a` to `z` or from `A` to `Z`.
pub open spec fn is_latin(c: char) -> bool {
    'a' <= c <= 'z' || 'A' <= c <= 'Z'
}

/// Such a letter in upper case.
pub open spec fn latin_upper(c: char) -> char {
    if 'a' <= c <= 'z' {
        ((c as u32 - 32) as u32) as char
    } else {
        c
    }
}

/// The letters an avatar goes by: the first of each of the first two words.
pub open spec fn leading(name: Seq<char>) -> Seq<char> {
    let starts = word_starts(name);
    if starts.len() <= 2 {
        starts
    } else {
        starts.take(2)
    }
}

/// The first letters of the first two words of a name, upper-cased; a question
/// mark for a name without any.
pub open spec fn initials(name: Seq<char>) -> Seq<char> {
    if leading(name).len() == 0 {
        seq!['?']
    } else {
        capitals(leading(name))
    }
}

/// The first letters of a name's words.
fn starts_of(name: &str) -> (r: Vec<char>)
    ensures
        r@ == word_starts(name@),
{
    let v = text::letters(name);
    let mut out: Vec<char> = Vec::new();
    let mut i: usize = 0;
    while i < v.len()
        invariant
            i <= v.len(),
            out@ == word_starts(v@.take(i as int)),
        decreases v.len() - i,
    {
        assert(v@.take(i + 1).drop_last() == v@.take(i as int));
        if !v[i].is_whitespace() && (i == 0 || v[i - 1].is_whitespace()) {
            out.push(v[i]);
        }
        i += 1;
    }
    assert(v@.take(i as int) == v@);
    out
}

/// The initials a letter run comes to.
pub fn capitals_of(letters: &Vec<char>) -> (r: String)
    ensures
        r@ == capitals(letters@),
        letters@.all(|c: char| is_latin(c)) ==> r@ == letters@.map_values(
            |c: char| latin_upper(c),
        ),
{
    let ghost latin = |c: char| is_latin(c);
    let ghost upper = |c: char| latin_upper(c);
    let mut out = String::new();
    let mut i: usize = 0;
    assert(letters@.take(0) == Seq::<char>::empty());
    while i < letters.len()
        invariant
            i <= letters.len(),
            out@ == capitals(letters@.take(i as int)),
            latin == (|c: char| is_latin(c)),
            upper == (|c: char| latin_upper(c)),
            letters@.all(latin) ==> out@ == letters@.take(i as int).map_values(upper),
        decreases letters.len() - i,
    {
        let ghost before = out@;
        assert(letters@.take(i + 1).drop_last() == letters@.take(i as int));
        out.append(&uppercase(letters[i]));
        proof {
            if letters@.all(latin) {
                assert(latin(letters@[i as int]));
                assert(out@ =~= before.push(latin_upper(letters@[i as int])));
                assert(letters@.take(i + 1).map_values(upper) =~= letters@.take(
                    i as int,
                ).map_values(upper).push(latin_upper(letters@[i as int])));
            }
        }
        i += 1;
    }
    assert(letters@.take(i as int) == letters@);
    out
}

/// The first letters of the first two words, uppercased: "Ada Lovelace" wears
/// "AL", a bare address wears its first letter.
pub fn initials_of(name: &str) -> (r: String)
    ensures
        r@ == initials(name@),
        leading(name@).len() > 0 && leading(name@).all(|c: char| is_latin(c)) ==> r@ == leading(
            name@,
        ).map_values(|c: char| latin_upper(c)),
{
    let mut starts = starts_of(name);
    let ghost all = starts@;
    if starts.len() == 0 {
        let mut out = String::new();
        out.push('?');
        assert(out@ =~= seq!['?']);
        return out;
    }
    if starts.len() > 2 {
        starts.truncate(2);
        assert(starts@ =~= all.take(2));
    }
    capitals_of(&starts)
}

/// The running hash a tone is drawn from.
pub open spec fn tone_hash(bytes: Seq<u8>) -> nat
    decreases bytes.len(),
{
    if bytes.len() == 0 {
        0
    } else {
        (tone_hash(bytes.drop_last()) * 31 + bytes.last() as nat) % 0x1_0000_0000
    }
}

/// The tone of an account, off its id's bytes.
pub open spec fn tone_of(id: Seq<char>) -> nat {
    tone_hash(vstd::utf8::encode_utf8(id)) % 5
}

fn hash_tone(bytes: &[u8]) -> (r: u32)
    ensures
        r == tone_hash(bytes@),
{
    let mut acc: u64 = 0;
    let mut i: usize = 0;
    while i < bytes.len()
        invariant
            i <= bytes.len(),
            acc == tone_hash(bytes@.take(i as int)),
            acc < 0x1_0000_0000,
        decreases bytes.len() - i,
    {
        assert(bytes@.take(i + 1).drop_last() == bytes@.take(i as int));
        acc = (acc * 31 + bytes[i] as u64) % 0x1_0000_0000;
        i += 1;
    }
    assert(bytes@.take(i as int) == bytes@);
    acc as u32
}

/// The tone of an account: every account has its own colour out of five.
pub fn avatar_tone(id: &str) -> (r: u32)
    ensures
        r == tone_of(id@),
        r < 5,
{
    hash_tone(id.as_bytes()) % 5
}

/// The class of a person's circle.
pub fn avatar_class(id: &str, extra: &str) -> (r: String)
    ensures
        r@ == "avatar avatar-tone-"@ + text::numeral(tone_of(id@), 10) + " "@ + extra@,
{
    let mut out = text::glue("avatar avatar-tone-", &text::decimal(avatar_tone(id) as u64));
    out.append(" ");
    out.append(extra);
    out
}

/// The topbar's signed-in identity.
#[derive(Debug)]
pub struct UserMenu {
    pub class: String,
    pub initials: String,
    pub name: String,
    pub email: String,
    pub role: Option<&'static str>,
    /// Where the identity provider keeps the profile.
    pub profile_href: String,
}

/// Whether a menu is a person's, see [`user_menu`].
pub open spec fn menu_of(
    menu: UserMenu,
    user: User,
    issuer: Seq<char>,
    lang: Lang,
) -> bool {
    &&& menu.class@ == "avatar avatar-tone-"@ + text::numeral(tone_of(user.id@), 10) + " "@ + ""@
    &&& menu.initials@ == initials(user.display_name@)
    &&& leading(user.display_name@).len() > 0 && leading(user.display_name@).all(
        |c: char| is_latin(c),
    ) ==> menu.initials@ == leading(user.display_name@).map_values(|c: char| latin_upper(c))
    &&& menu.name@ == user.display_name@
    &&& menu.email@ == user.email@
    &&& text::opt_str(menu.role) == if user.admin {
        Some(i18n::phrase(lang, Key::AdminBadge))
    } else {
        None
    }
    &&& menu.profile_href@ == issuer + "/"@
}

/// The topbar's signed-in identity: the circle, the name, the address, and what
/// role the account has.
pub fn user_menu(user: &User, issuer: &str, lang: Lang) -> (r: UserMenu)
    ensures
        menu_of(
            r,
            *user,
            issuer@,
            lang,
        ),
{
    UserMenu {
        class: avatar_class(&user.id, ""),
        initials: initials_of(&user.display_name),
        name: user.display_name.clone(),
        email: user.email.clone(),
        role: if user.admin {
            Some(t(lang, Key::AdminBadge))
        } else {
            None
        },
        profile_href: text::glue(issuer, "/"),
    }
}

// ---- The page nav --------------------------------------------------------------------
/// The signed-in pages.
#[derive(Clone, Copy, Debug, PartialEq, Eq, Structural)]
pub enum NavPage {
    Drive,
    Shared,
    Trash,
    Settings,
}

/// Where a page stands.
pub open spec fn href_of(page: NavPage) -> Seq<char> {
    match page {
        NavPage::Drive => "/drive"@,
        NavPage::Shared => "/shared"@,
        NavPage::Trash => "/trash"@,
        NavPage::Settings => "/settings"@,
    }
}

/// What a page is called.
pub open spec fn label_of(page: NavPage) -> Key {
    match page {
        NavPage::Drive => Key::NavDrive,
        NavPage::Shared => Key::NavShared,
        NavPage::Trash => Key::NavTrash,
        NavPage::Settings => Key::NavSettings,
    }
}

/// The pages the nav links between. Settings is deliberately absent: it lives in
/// the user menu.
pub open spec fn nav_pages() -> Seq<NavPage> {
    seq![NavPage::Drive, NavPage::Shared, NavPage::Trash]
}

impl NavPage {
    /// The pages the nav links between.
    pub fn all() -> (r: [NavPage; 3])
        ensures
            r@ == nav_pages(),
    {
        let all = [NavPage::Drive, NavPage::Shared, NavPage::Trash];
        assert(all@ =~= nav_pages());
        all
    }

    pub fn href(self) -> (r: &'static str)
        ensures
            r@ == href_of(self),
    {
        match self {
            NavPage::Drive => "/drive",
            NavPage::Shared => "/shared",
            NavPage::Trash => "/trash",
            NavPage::Settings => "/settings",
        }
    }

    pub fn label(self) -> (r: Key)
        ensures
            r == label_of(self),
    {
        match self {
            NavPage::Drive => Key::NavDrive,
            NavPage::Shared => Key::NavShared,
            NavPage::Trash => Key::NavTrash,
            NavPage::Settings => Key::NavSettings,
        }
    }
}

/// One link of the page nav.
#[derive(Clone, Copy, Debug)]
pub struct NavLink {
    pub class: &'static str,
    pub href: &'static str,
    pub label: &'static str,
}

/// Whether a link leads to a page, marked where the page is the current one.
pub open spec fn nav_link_of(link: NavLink, page: NavPage, active: NavPage, lang: Lang) -> bool {
    &&& link.class@ == if page == active {
        "topbar-nav topbar-nav-on"@
    } else {
        "topbar-nav"@
    }
    &&& link.href@ == href_of(page)
    &&& link.label@ == i18n::phrase(lang, label_of(page))
}

/// Whether links are the bar's, see [`topbar_nav`].
pub open spec fn bar_shows(links: Seq<NavLink>, active: NavPage, lang: Lang) -> bool {
    &&& links.len() == nav_pages().len()
    &&& forall|i: int|
        0 <= i < links.len() ==> nav_link_of(#[trigger] links[i], nav_pages()[i], active, lang)
}

/// The topbar's page nav, with the current page marked.
pub fn topbar_nav(active: NavPage, lang: Lang) -> (r: Vec<NavLink>)
    ensures
        bar_shows(r@, active, lang),
{
    let pages = NavPage::all();
    let mut out: Vec<NavLink> = Vec::new();
    let mut i: usize = 0;
    while i < 3
        invariant
            i <= 3,
            pages@ == nav_pages(),
            out.len() == i,
            forall|k: int|
                0 <= k < i ==> nav_link_of(#[trigger] out@[k], nav_pages()[k], active, lang),
        decreases 3 - i,
    {
        let page = pages[i];
        out.push(
            NavLink {
                class: if page == active {
                    "topbar-nav topbar-nav-on"
                } else {
                    "topbar-nav"
                },
                href: page.href(),
                label: t(lang, page.label()),
            },
        );
        i += 1;
    }
    out
}

// ---- The document --------------------------------------------------------------------
/// The per-user chrome knobs of a document.
#[derive(Debug)]
pub struct Chrome {
    pub lang: Lang,
    pub dark: bool,
    pub ui: String,
    /// Whether somebody is signed in, and the page may open a live stream.
    pub asking: bool,
}

/// Whether the knobs are those a document wears, see [`root_layout`].
pub open spec fn chrome_for(
    chrome: Chrome,
    me: Result<Option<User>, StoreError>,
    accept_language: Option<Seq<char>>,
) -> bool {
    &&& match me {
        Ok(Some(user)) => {
            &&& chrome.lang == i18n::lang_of(user.language@)
            &&& chrome.dark == (user.theme@ == "dark"@)
            &&& chrome.ui@ == user.ui@
            &&& chrome.asking
        },
        _ => {
            &&& chrome.lang == match accept_language {
                Some(value) => i18n::lang_of(text::lowercase(i18n::first_tag(value))),
                None => Lang::En,
            }
            &&& match accept_language {
                Some(value) => text::all_ascii(i18n::first_tag(value)) ==> chrome.lang
                    == i18n::lang_of(text::ascii_lowered(i18n::first_tag(value))),
                None => true,
            }
            &&& chrome.dark
            &&& chrome.ui@ == "instrument"@
            &&& !chrome.asking
        },
    }
}

/// The per-user chrome knobs, read off the request's own user. Signed-out, or
/// unreadable, wears the provision defaults, dark and instrument, and the
/// language the browser asks for.
pub fn root_layout(me: &Result<Option<User>, StoreError>, accept_language: Option<&str>) -> (r: Chrome)
    ensures
        chrome_for(
            r,
            *me,
            text::opt_str(accept_language),
        ),
{
    match me {
        Ok(Some(user)) => Chrome {
            lang: lang(Some(&user.language), accept_language),
            dark: text::same(&user.theme, "dark"),
            ui: user.ui.clone(),
            asking: true,
        },
        _ => Chrome {
            lang: lang(None, accept_language),
            dark: true,
            ui: "instrument".to_owned(),
            asking: false,
        },
    }
}

} // verus!
