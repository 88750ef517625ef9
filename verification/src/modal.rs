//! The share dialog: the drive row's Share item opens it over the page.
//!
//! It adds people, lists who has access and holds the public link. It opens
//! only for the owner of a live target; a hand-edited pair simply opens
//! nothing.
use crate::i18n;
use crate::i18n::{t, Key, Lang};
use crate::media;
use crate::media::Chip;
use crate::model;
use crate::model::{File, Folder, ShareKind, ShareLink, StoreError, User};
use crate::refusal;
use crate::share;
use crate::shared::TargetReply;
use crate::text;
use vstd::prelude::*;

verus! {

/// One grant on a target.
#[derive(Debug)]
pub struct Grant {
    pub user_id: String,
    pub can_download: bool,
}

/// What the store said about a share dialog, as far as it was asked.
#[derive(Debug)]
pub struct ModalFacts {
    pub target: Option<TargetReply>,
    /// The reader's own links.
    pub links: Option<Result<Vec<ShareLink>, StoreError>>,
    /// The grants on the target.
    pub grants: Option<Result<Vec<Grant>, StoreError>>,
    /// The grantees, in the order of the grants.
    pub people: Vec<Result<Option<User>, StoreError>>,
}

/// What to do next about a share dialog.
#[derive(Clone, Copy, Debug, PartialEq, Eq, Structural)]
pub enum ModalStep {
    /// Open nothing.
    Nothing,
    /// Look the target of this kind up.
    LookTarget(ShareKind),
    ListLinks,
    /// List the grants on the target of this kind.
    ListGrants(ShareKind),
    /// Look the grantee of the grant at this position up.
    LookPerson(usize),
    /// Show the dialog for the target of this kind.
    Show(ShareKind),
    /// The store failed; the page cannot be shown.
    Fail(StoreError),
}

/// What a target's lookup means for its dialog: the reader's own live target
/// opens, anything else opens nothing.
pub enum TargetState {
    Own,
    Closed,
    Failed(StoreError),
}

/// What a target's lookup means for its dialog.
pub open spec fn target_state(kind: ShareKind, target: TargetReply, reader: Seq<char>) -> TargetState {
    match (kind, target) {
        (ShareKind::File, TargetReply::File(Ok(Some(file)))) => if model::live_file_of(file, reader) {
            TargetState::Own
        } else {
            TargetState::Closed
        },
        (ShareKind::Folder, TargetReply::Folder(Ok(Some(folder)))) => if model::live_folder_of(
            folder,
            reader,
        ) {
            TargetState::Own
        } else {
            TargetState::Closed
        },
        (ShareKind::File, TargetReply::File(Err(error))) => TargetState::Failed(error),
        (ShareKind::Folder, TargetReply::Folder(Err(error))) => TargetState::Failed(error),
        _ => TargetState::Closed,
    }
}

/// The first failed lookup among the grantees from `i` on.
pub open spec fn first_failure(people: Seq<Result<Option<User>, StoreError>>, i: int) -> Option<
    StoreError,
>
    decreases people.len() - i,
{
    if i < 0 || i >= people.len() {
        None
    } else {
        match people[i] {
            Err(error) => Some(error),
            Ok(_) => first_failure(people, i + 1),
        }
    }
}

/// What to do next about a share dialog.
pub open spec fn modal_after(
    kind: Seq<char>,
    user: Result<User, refusal::Refusal>,
    facts: ModalFacts,
) -> ModalStep {
    match (share::kind_named(kind), user) {
        (Some(kind), Ok(user)) => match facts.target {
            None => ModalStep::LookTarget(kind),
            Some(target) => match target_state(kind, target, user.id@) {
                TargetState::Closed => ModalStep::Nothing,
                TargetState::Failed(error) => ModalStep::Fail(error),
                TargetState::Own => match facts.links {
                    None => ModalStep::ListLinks,
                    Some(Err(error)) => ModalStep::Fail(error),
                    Some(Ok(_)) => match facts.grants {
                        None => ModalStep::ListGrants(kind),
                        Some(Err(StoreError::NotFound)) => ModalStep::Nothing,
                        Some(Err(StoreError::CrossOwner)) => ModalStep::Nothing,
                        Some(Err(error)) => ModalStep::Fail(error),
                        Some(Ok(grants)) => match first_failure(facts.people@, 0) {
                            Some(error) => ModalStep::Fail(error),
                            None => if facts.people@.len() < grants@.len() {
                                ModalStep::LookPerson(facts.people@.len() as usize)
                            } else {
                                ModalStep::Show(kind)
                            },
                        },
                    },
                },
            },
        },
        _ => ModalStep::Nothing,
    }
}

fn failure_among(people: &Vec<Result<Option<User>, StoreError>>) -> (r: Option<StoreError>)
    ensures
        r == first_failure(people@, 0),
{
    let mut i: usize = 0;
    while i < people.len()
        invariant
            i <= people.len(),
            first_failure(people@, 0) == first_failure(people@, i as int),
        decreases people.len() - i,
    {
        match &people[i] {
            Err(error) => return Some(*error),
            Ok(_) => {},
        }
        i += 1;
    }
    None
}

fn state_of(kind: ShareKind, target: &TargetReply, reader: &str) -> (r: TargetState)
    ensures
        r == target_state(kind, *target, reader@),
{
    match (kind, target) {
        (ShareKind::File, TargetReply::File(Ok(Some(file)))) => if file.live_under(reader) {
            TargetState::Own
        } else {
            TargetState::Closed
        },
        (ShareKind::Folder, TargetReply::Folder(Ok(Some(folder)))) => if folder.live_under(reader) {
            TargetState::Own
        } else {
            TargetState::Closed
        },
        (ShareKind::File, TargetReply::File(Err(error))) => TargetState::Failed(*error),
        (ShareKind::Folder, TargetReply::Folder(Err(error))) => TargetState::Failed(*error),
        _ => TargetState::Closed,
    }
}

/// What to do next about a share dialog, see [`modal_after`].
pub fn modal_step(kind: &str, user: &Result<User, refusal::Refusal>, facts: &ModalFacts) -> (r:
    ModalStep)
    ensures
        r == modal_after(kind@, *user, *facts),
{
    let kind = match share::parse_kind(kind) {
        Some(kind) => kind,
        None => return ModalStep::Nothing,
    };
    let user = match user {
        Ok(user) => user,
        Err(_) => return ModalStep::Nothing,
    };
    let target = match &facts.target {
        Some(target) => target,
        None => return ModalStep::LookTarget(kind),
    };
    match state_of(kind, target, &user.id) {
        TargetState::Closed => return ModalStep::Nothing,
        TargetState::Failed(error) => return ModalStep::Fail(error),
        TargetState::Own => {},
    }
    match &facts.links {
        None => return ModalStep::ListLinks,
        Some(Err(error)) => return ModalStep::Fail(*error),
        Some(Ok(_)) => {},
    }
    let grants = match &facts.grants {
        None => return ModalStep::ListGrants(kind),
        Some(Err(StoreError::NotFound)) => return ModalStep::Nothing,
        Some(Err(StoreError::CrossOwner)) => return ModalStep::Nothing,
        Some(Err(error)) => return ModalStep::Fail(*error),
        Some(Ok(grants)) => grants,
    };
    if let Some(error) = failure_among(&facts.people) {
        return ModalStep::Fail(error);
    }
    if facts.people.len() < grants.len() {
        ModalStep::LookPerson(facts.people.len())
    } else {
        ModalStep::Show(kind)
    }
}

/// The dialog shows only the reader's own live target: neither a stranger's nor
/// a trashed one ever opens.
pub proof fn law_dialog_shows_only_the_own(
    kind: Seq<char>,
    user: Result<User, refusal::Refusal>,
    facts: ModalFacts,
)
    requires
        modal_after(kind, user, facts) is Show,
    ensures
        match (user, facts.target) {
            (Ok(user), Some(TargetReply::File(Ok(Some(file))))) => model::live_file_of(
                file,
                user.id@,
            ),
            (Ok(user), Some(TargetReply::Folder(Ok(Some(folder))))) => model::live_folder_of(
                folder,
                user.id@,
            ),
            _ => false,
        },
{
}

// ---- What the dialog shows ---------------------------------------------------------
/// A person with access.
#[derive(Debug)]
pub struct Person {
    pub name: String,
    pub email: String,
    pub access: &'static str,
}

/// The target's public link.
#[derive(Debug)]
pub struct LinkLine {
    pub id: String,
    pub expiry: String,
    pub access: &'static str,
}

/// Everything the share dialog shows.
#[derive(Debug)]
pub struct Modal {
    pub chip: Chip,
    pub title: String,
    pub close_href: String,
    pub banner: Option<String>,
    /// The address of a link minted just now, shown once.
    pub created: Option<String>,
    /// The reader, as the owner.
    pub owner_name: String,
    pub owner_email: String,
    pub people: Vec<Person>,
    pub link: Option<LinkLine>,
    /// What stands in place of a link's address.
    pub masked: String,
}

/// The people with access: each grantee the store found, in the order of the
/// grants.
pub open spec fn people_of(
    grants: Seq<Grant>,
    people: Seq<Result<Option<User>, StoreError>>,
    lang: Lang,
    n: int,
) -> Seq<(Seq<char>, Seq<char>, Seq<char>)>
    decreases n,
{
    if n <= 0 || n > grants.len() || n > people.len() {
        Seq::empty()
    } else {
        let head = people_of(grants, people, lang, n - 1);
        match people[n - 1] {
            Ok(Some(user)) => head.push(
                (
                    user.display_name@,
                    user.email@,
                    share::access_words(lang, grants[n - 1].can_download),
                ),
            ),
            _ => head,
        }
    }
}

/// A list of people as values.
pub open spec fn person_texts(people: Seq<Person>) -> Seq<(Seq<char>, Seq<char>, Seq<char>)> {
    people.map_values(|p: Person| (p.name@, p.email@, p.access@))
}

/// Whether a link is a live one onto the target.
pub open spec fn is_live_link(link: ShareLink, kind: ShareKind, target: Seq<char>) -> bool {
    link.kind == kind && link.target_id@ == target && link.revoked_at is None
}

/// The first live link onto the target from `i` on.
pub open spec fn live_link(
    links: Seq<ShareLink>,
    kind: ShareKind,
    target: Seq<char>,
    i: int,
) -> Option<ShareLink>
    decreases links.len() - i,
{
    if i < 0 || i >= links.len() {
        None
    } else if is_live_link(links[i], kind, target) {
        Some(links[i])
    } else {
        live_link(links, kind, target, i + 1)
    }
}

/// Whether the link line shows a link.
pub open spec fn link_line_of(line: LinkLine, link: ShareLink, lang: Lang) -> bool {
    &&& line.id@ == link.id@
    &&& line.expiry@ == share::expiry_words(lang, link.expires_at)
    &&& line.access@ == share::access_words(lang, link.can_download)
}

fn find_live_link(links: &Vec<ShareLink>, kind: ShareKind, target: &str, lang: Lang) -> (r: Option<
    LinkLine,
>)
    ensures
        match live_link(links@, kind, target@, 0) {
            Some(link) => r matches Some(line) && link_line_of(line, link, lang),
            None => r is None,
        },
{
    let mut i: usize = 0;
    while i < links.len()
        invariant
            i <= links.len(),
            live_link(links@, kind, target@, 0) == live_link(links@, kind, target@, i as int),
        decreases links.len() - i,
    {
        let link = &links[i];
        if link.kind == kind && text::same(&link.target_id, target) && link.revoked_at.is_none() {
            return Some(
                LinkLine {
                    id: link.id.clone(),
                    expiry: share::expiry_line(lang, link.expires_at),
                    access: share::access_chip(lang, link.can_download),
                },
            );
        }
        i += 1;
    }
    None
}

fn list_people(
    grants: &Vec<Grant>,
    people: &Vec<Result<Option<User>, StoreError>>,
    lang: Lang,
) -> (r: Vec<Person>)
    requires
        people.len() >= grants.len(),
    ensures
        person_texts(r@) == people_of(grants@, people@, lang, grants@.len() as int),
{
    let mut out: Vec<Person> = Vec::new();
    let mut i: usize = 0;
    assert(person_texts(out@) =~= people_of(grants@, people@, lang, 0));
    while i < grants.len()
        invariant
            i <= grants.len() <= people.len(),
            person_texts(out@) == people_of(grants@, people@, lang, i as int),
        decreases grants.len() - i,
    {
        let ghost before = out@;
        if let Ok(Some(user)) = &people[i] {
            out.push(
                Person {
                    name: user.display_name.clone(),
                    email: user.email.clone(),
                    access: share::access_chip(lang, grants[i].can_download),
                },
            );
            assert(person_texts(out@) =~= person_texts(before).push(
                (
                    user.display_name@,
                    user.email@,
                    share::access_words(lang, grants@[i as int].can_download),
                ),
            ));
        }
        i += 1;
    }
    out
}

/// The name of a dialog's target.
pub open spec fn target_name(target: TargetReply) -> Seq<char> {
    match target {
        TargetReply::File(Ok(Some(file))) => file.name@,
        TargetReply::Folder(Ok(Some(folder))) => folder.name@,
        _ => Seq::empty(),
    }
}

/// The icon of a dialog's target.
pub open spec fn target_chip(target: TargetReply) -> media::ChipModel {
    match target {
        TargetReply::File(Ok(Some(file))) => media::entry_chip_of(file),
        _ => share::folder_glyph(),
    }
}

/// Whether a dialog shows a target's sharing, see [`share_modal`].
pub open spec fn modal_shows(
    modal: Modal,
    lang: Lang,
    kind: ShareKind,
    target_id: Seq<char>,
    target: TargetReply,
    user: User,
    links: Seq<ShareLink>,
    grants: Seq<Grant>,
    people: Seq<Result<Option<User>, StoreError>>,
    query: Seq<char>,
    close_href: Seq<char>,
    created: Option<Seq<char>>,
    origin: Seq<char>,
) -> bool {
    &&& modal.chip@ == target_chip(target)
    &&& modal.title@ == i18n::phrase(lang, Key::Share) + " “"@ + target_name(target) + "”"@
    &&& modal.close_href@ == close_href
    &&& text::opt_text(modal.banner) == match share::named_refusal(query) {
        Some(refusal) => Some(refusal::words_in(refusal, lang)),
        None => None,
    }
    &&& text::opt_text(modal.created) == match created {
        Some(token) => Some(origin + "/s/"@ + token),
        None => None,
    }
    &&& modal.owner_name@ == user.display_name@ + " "@ + i18n::phrase(lang, Key::YouSuffix)
    &&& modal.owner_email@ == user.email@
    &&& person_texts(modal.people@) == people_of(grants, people, lang, grants.len() as int)
    &&& match live_link(links, kind, target_id, 0) {
        Some(link) => modal.link matches Some(line) && link_line_of(line, link, lang),
        None => modal.link is None,
    }
    &&& modal.masked@ == origin + "/s/…"@
}

/// The share dialog, once [`modal_step`] said to show it.
pub fn share_modal(
    lang: Lang,
    kind: ShareKind,
    target_id: &str,
    target: &TargetReply,
    user: &User,
    links: &Vec<ShareLink>,
    grants: &Vec<Grant>,
    people: &Vec<Result<Option<User>, StoreError>>,
    query: &str,
    close_href: &str,
    created: Option<&str>,
    origin: &str,
) -> (r: Modal)
    requires
        people.len() >= grants.len(),
    ensures
        modal_shows(
            r,
            lang,
            kind,
            target_id@,
            *target,
            *user,
            links@,
            grants@,
            people@,
            query@,
            close_href@,
            text::opt_str(created),
            origin@,
        ),
{
    let name = match target {
        TargetReply::File(Ok(Some(file))) => file.name.clone(),
        TargetReply::Folder(Ok(Some(folder))) => folder.name.clone(),
        _ => String::new(),
    };
    let chip = match target {
        TargetReply::File(Ok(Some(file))) => media::entry_chip(file),
        _ => Chip::Glyph { class: "folder", glyph: "▤" },
    };
    let mut title = text::glue(t(lang, Key::Share), " “");
    title.append(&name);
    title.append("”");
    let created = match created {
        Some(token) => {
            let mut address = text::glue(origin, "/s/");
            address.append(token);
            Some(address)
        },
        None => None,
    };
    let mut owner_name = text::glue(&user.display_name, " ");
    owner_name.append(t(lang, Key::YouSuffix));
    Modal {
        chip,
        title,
        close_href: close_href.to_owned(),
        banner: match share::query_refusal(query) {
            Some(refusal) => Some(refusal.message_in(lang)),
            None => None,
        },
        created,
        owner_name,
        owner_email: user.email.clone(),
        people: list_people(grants, people, lang),
        link: find_live_link(links, kind, target_id, lang),
        masked: text::glue(origin, "/s/…"),
    }
}

} // verus!
