//! The drive driven the way a browser drives it: whole flows through the
//! library's decisions, over a store kept in memory.

use in_web::clock::Moment;
use in_web::drive::{
    changed_folder, create_folder_plan, created_folder, drive_ask, drive_page, folder_plan,
    move_folder_plan, named_folder, new_folder, DriveBody, DrivePage, DriveQuery, Heading, Redirect,
};
use in_web::files::{
    back_to_folder, changed_file, download_reply, download_step, file_plan, may_download,
    move_file_plan, thumb_reply, thumb_step, upload_plan, upload_step, view_page, DownloadStep,
    FileFacts, FormField, Header, Sight, Span, UploadForm, UploadStep, ViewPage,
};
use in_web::guard::{file_row, folder_row, verdict, Plan, Row, Verdict};
use in_web::i18n::{lang, t, Key, Lang};
use in_web::layout::{root_layout, topbar_nav, user_menu, NavPage};
use in_web::modal::{modal_step, share_modal, Grant, Modal, ModalFacts, ModalStep};
use in_web::model::{
    File, Folder, Listing, ShareKind, ShareLink, SharedItem, StoreError, ThumbState, UploadSession,
    User,
};
use in_web::query::query_value;
use in_web::refusal::Refusal;
use in_web::search::search_redirect;
use in_web::server::{current_user, require_admin, require_user};
use in_web::settings::{
    changed_setting, live_links, set_disabled, set_preferences, set_quota, settings_page,
    SettingsPage,
};
use in_web::share::{
    changed_share, created_link, download_bytes, file_card, folder_card, grantee, grantee_address,
    parse_expiry, parse_flag, revoke_step, share_plan, shared_link, shared_query, unshare_plan,
    FileCard, FolderCard, PublicFacts, PublicStep, RevokeStep,
};
use in_web::shared::{
    owner_display, owner_name, owner_to_look, shared_ask, shared_page, shared_row, wanted_items,
    KnownOwner, SharedPage, TargetReply,
};
use in_web::trash::{changed_trash, purged, trash_ask, trash_page, trash_plan, TrashPage};
use in_web::upload::{
    abort, chunk, finish, owned_session, recorded, start, start_plan, started, status, ChunkStep,
    SessionStep,
};
use in_web::walk::{breadcrumbs, current_folder, under_target, CrumbStep, FolderTree, PathStep};

const CHUNK: u64 = 8 * 1024 * 1024;
const LIMIT: u64 = 2 * 1024 * 1024 * 1024;

struct Staged {
    id: String,
    owner_id: String,
    name: String,
    size_bytes: u64,
    chunks: Vec<(u64, Vec<u8>)>,
    active: bool,
}

/// A store kept in memory, answering what the real one answers.
struct Store {
    users: Vec<User>,
    folders: Vec<Folder>,
    files: Vec<(File, Vec<u8>)>,
    links: Vec<(String, ShareLink)>,
    grants: Vec<(ShareKind, String, String, bool)>,
    staged: Vec<Staged>,
    minted: u64,
}

fn copy_link(link: &ShareLink) -> ShareLink {
    ShareLink {
        id: link.id.clone(),
        created_by: link.created_by.clone(),
        kind: link.kind,
        target_id: link.target_id.clone(),
        can_download: link.can_download,
        expires_at: link.expires_at,
        revoked_at: link.revoked_at,
    }
}

fn mime_of(name: &str, bytes: &[u8]) -> String {
    if bytes.starts_with(b"\x89PNG") {
        "image/png".to_string()
    } else if name.ends_with(".txt") {
        "text/plain".to_string()
    } else {
        "application/octet-stream".to_string()
    }
}

impl Store {
    fn new() -> Store {
        Store {
            users: Vec::new(),
            folders: Vec::new(),
            files: Vec::new(),
            links: Vec::new(),
            grants: Vec::new(),
            staged: Vec::new(),
            minted: 0,
        }
    }

    fn mint(&mut self, what: &str) -> String {
        self.minted += 1;
        format!("{what}-{:04}", self.minted)
    }

    /// The first account ever is the admin.
    fn sign_in(&mut self, sub: &str, email: &str, name: &str) -> String {
        let id = self.mint("user");
        let admin = self.users.is_empty();
        self.users.push(User {
            id: id.clone(),
            oidc_sub: sub.to_string(),
            email: email.to_string(),
            display_name: name.to_string(),
            admin,
            disabled: false,
            quota_bytes: 10 * 1024 * 1024 * 1024,
            used_bytes: 0,
            photo_version: 0,
            ui: "instrument".to_string(),
            theme: "dark".to_string(),
            language: "en".to_string(),
        });
        id
    }

    fn current(&self, who: Option<&str>) -> Result<Option<User>, StoreError> {
        let seen = who.map(|id| self.user(id).map(|found| found.unwrap()));
        current_user(seen)
    }

    fn asking(&self, who: Option<&str>) -> Result<User, Refusal> {
        require_user(self.current(who))
    }

    fn user(&self, id: &str) -> Result<Option<User>, StoreError> {
        Ok(self.users.iter().find(|user| user.id == id).cloned())
    }

    fn folder(&self, id: &str) -> Result<Option<Folder>, StoreError> {
        Ok(self.folders.iter().find(|folder| folder.id == id).cloned())
    }

    fn file(&self, id: &str) -> Result<Option<File>, StoreError> {
        Ok(self
            .files
            .iter()
            .find(|(file, _)| file.id == id)
            .map(|(file, _)| file.clone()))
    }

    fn bytes(&self, id: &str) -> Vec<u8> {
        self.files
            .iter()
            .find(|(file, _)| file.id == id)
            .map(|(_, bytes)| bytes.clone())
            .unwrap()
    }

    fn children(&self, owner: &str, parent: Option<&str>) -> Listing {
        Listing {
            folders: self
                .folders
                .iter()
                .filter(|f| {
                    f.owner_id == owner && f.parent_id.as_deref() == parent && f.deleted_at.is_none()
                })
                .cloned()
                .collect(),
            files: self
                .files
                .iter()
                .map(|(file, _)| file)
                .filter(|f| {
                    f.owner_id == owner && f.folder_id.as_deref() == parent && f.deleted_at.is_none()
                })
                .cloned()
                .collect(),
        }
    }

    fn trashed(&self, owner: &str) -> Listing {
        Listing {
            folders: self
                .folders
                .iter()
                .filter(|f| f.owner_id == owner && f.deleted_at.is_some())
                .cloned()
                .collect(),
            files: self
                .files
                .iter()
                .map(|(file, _)| file)
                .filter(|f| f.owner_id == owner && f.deleted_at.is_some())
                .cloned()
                .collect(),
        }
    }

    fn found(&self, owner: &str, q: &str) -> Listing {
        Listing {
            folders: self
                .folders
                .iter()
                .filter(|f| f.owner_id == owner && f.name.contains(q) && f.deleted_at.is_none())
                .cloned()
                .collect(),
            files: self
                .files
                .iter()
                .map(|(file, _)| file)
                .filter(|f| f.owner_id == owner && f.name.contains(q) && f.deleted_at.is_none())
                .cloned()
                .collect(),
        }
    }

    fn free_name(&self, owner: &str, parent: Option<&str>, name: &str) -> String {
        let here = self.children(owner, parent);
        let taken = |name: &str| {
            here.folders.iter().any(|f| f.name == name) || here.files.iter().any(|f| f.name == name)
        };
        let (stem, tail) = match name.rfind('.') {
            Some(at) => (&name[..at], &name[at..]),
            None => (name, ""),
        };
        let mut tried = name.to_string();
        let mut n = 2;
        while taken(&tried) {
            tried = format!("{stem} ({n}){tail}");
            n += 1;
        }
        tried
    }

    fn insert_folder(&mut self, owner: &str, parent: Option<&str>, name: &str) -> String {
        let name = self.free_name(owner, parent, name);
        let id = self.mint("folder");
        self.folders.push(Folder {
            id: id.clone(),
            owner_id: owner.to_string(),
            parent_id: parent.map(str::to_string),
            name,
            created_at: Moment::now(),
            deleted_at: None,
        });
        id
    }

    fn insert_file(&mut self, owner: &str, folder: Option<&str>, name: &str, bytes: &[u8]) -> String {
        let name = self.free_name(owner, folder, name);
        let id = self.mint("file");
        let mime = mime_of(&name, bytes);
        self.files.push((
            File {
                id: id.clone(),
                owner_id: owner.to_string(),
                folder_id: folder.map(str::to_string),
                thumb_state: if mime == "image/png" {
                    ThumbState::Ready
                } else {
                    ThumbState::Missing
                },
                name,
                mime,
                size_bytes: bytes.len() as u64,
                download_count: 0,
                created_at: Moment::now(),
                deleted_at: None,
            },
            bytes.to_vec(),
        ));
        id
    }

    fn is_under(&self, id: &str, ancestor: &str) -> bool {
        let mut at = Some(id.to_string());
        while let Some(here) = at {
            if here == ancestor {
                return true;
            }
            at = self.folder(&here).unwrap().and_then(|f| f.parent_id);
        }
        false
    }

    fn move_folder(&mut self, id: &str, parent: Option<&str>) -> Result<(), StoreError> {
        if parent.is_some_and(|parent| self.is_under(parent, id)) {
            return Err(StoreError::Cycle);
        }
        for folder in &mut self.folders {
            if folder.id == id {
                folder.parent_id = parent.map(str::to_string);
            }
        }
        Ok(())
    }

    fn set_folder_trashed(&mut self, id: &str, at: Option<Moment>) {
        let inside: Vec<String> = self
            .folders
            .iter()
            .filter(|f| self.is_under(&f.id, id))
            .map(|f| f.id.clone())
            .collect();
        for folder in &mut self.folders {
            if inside.contains(&folder.id) {
                folder.deleted_at = at;
            }
        }
        for (file, _) in &mut self.files {
            if file.folder_id.as_ref().is_some_and(|id| inside.contains(id)) {
                file.deleted_at = at;
            }
        }
    }

    fn set_file_trashed(&mut self, id: &str, at: Option<Moment>) {
        for (file, _) in &mut self.files {
            if file.id == id {
                file.deleted_at = at;
            }
        }
    }

    fn restore(&mut self, kind: ShareKind, id: &str) -> Result<(), StoreError> {
        let parent = match kind {
            ShareKind::File => self.file(id)?.unwrap().folder_id,
            ShareKind::Folder => self.folder(id)?.unwrap().parent_id,
        };
        if let Some(parent) = parent {
            if self.folder(&parent)?.unwrap().deleted_at.is_some() {
                return Err(StoreError::AncestorTrashed);
            }
        }
        match kind {
            ShareKind::File => self.set_file_trashed(id, None),
            ShareKind::Folder => self.set_folder_trashed(id, None),
        }
        Ok(())
    }

    fn purge(&mut self, kind: ShareKind, id: &str) -> Result<bool, StoreError> {
        match kind {
            ShareKind::File => {
                let before = self.files.len();
                self.files.retain(|(file, _)| file.id != id);
                Ok(self.files.len() < before)
            }
            ShareKind::Folder => {
                let inside: Vec<String> = self
                    .folders
                    .iter()
                    .filter(|f| self.is_under(&f.id, id))
                    .map(|f| f.id.clone())
                    .collect();
                self.files.retain(|(file, _)| {
                    !file.folder_id.as_ref().is_some_and(|id| inside.contains(id))
                });
                self.folders.retain(|f| !inside.contains(&f.id));
                Ok(true)
            }
        }
    }

    fn sees(&self, user: &str, file: &str) -> Option<bool> {
        let row = self.file(file).unwrap().unwrap();
        self.grants
            .iter()
            .find(|(kind, target, grantee, _)| {
                grantee == user
                    && match kind {
                        ShareKind::File => target == file,
                        ShareKind::Folder => row
                            .folder_id
                            .as_ref()
                            .is_some_and(|folder| self.is_under(folder, target)),
                    }
            })
            .map(|(_, _, _, can_download)| *can_download)
    }

    fn opened(&self, token: &str) -> Option<&ShareLink> {
        let now = Moment::now().nanos();
        self.links
            .iter()
            .find(|(minted, link)| {
                minted == token
                    && link.revoked_at.is_none()
                    && link.expires_at.map_or(true, |at| at.nanos() > now)
            })
            .map(|(_, link)| link)
    }

    fn own_links(&self, owner: &str) -> Vec<ShareLink> {
        self.links
            .iter()
            .filter(|(_, link)| link.created_by == owner)
            .map(|(_, link)| copy_link(link))
            .collect()
    }

    // ---- What a caller does with the library's word --------------------------
    /// Looks up what the plan needs, and says whether the call may go on.
    fn gate(&self, user: &Result<User, Refusal>, plan: &Plan) -> Result<(), Refusal> {
        let mut replies: Vec<Result<Option<Row>, StoreError>> = Vec::new();
        loop {
            match verdict(user, plan, &replies) {
                Verdict::Go => return Ok(()),
                Verdict::Refuse(refusal) => return Err(refusal),
                Verdict::Look(at) => replies.push(self.look(plan, at)),
            }
        }
    }

    fn look(&self, plan: &Plan, at: usize) -> Result<Option<Row>, StoreError> {
        let need = match plan {
            Plan::Needs(needs) => &needs[at],
            Plan::Refused(_) => panic!("a refused plan looks nothing up"),
        };
        Ok(match need.kind {
            ShareKind::File => self.file(&need.id)?.map(|file| file_row(&file)),
            ShareKind::Folder => self.folder(&need.id)?.map(|folder| folder_row(&folder)),
        })
    }

    fn create_folder(&mut self, who: Option<&str>, parent: &str, name: &str) -> Redirect {
        let user = self.asking(who);
        if let Err(refusal) = self.gate(&user, &create_folder_plan(parent)) {
            return in_web::drive::redirect(None, Some(refusal));
        }
        let owner = user.unwrap().id;
        let made = new_folder(parent, name, Lang::En);
        let id = self.insert_folder(&owner, made.parent.as_deref(), &made.name);
        created_folder(None, &made, &Ok(id))
    }

    fn change_folder(&mut self, who: Option<&str>, plan: Plan, act: &str, id: &str, value: &str) -> Redirect {
        let user = self.asking(who);
        if let Err(refusal) = self.gate(&user, &plan) {
            return in_web::drive::redirect(None, Some(refusal));
        }
        let outcome = match act {
            "move" => self.move_folder(id, if value.is_empty() { None } else { Some(value) }),
            "rename" => {
                for folder in &mut self.folders {
                    if folder.id == id {
                        folder.name = value.to_string();
                    }
                }
                Ok(())
            }
            _ => {
                self.set_folder_trashed(id, Some(Moment::now()));
                Ok(())
            }
        };
        changed_folder(None, outcome)
    }

    fn change_file(&mut self, who: Option<&str>, plan: Plan, act: &str, id: &str, value: &str) -> Redirect {
        let user = self.asking(who);
        if let Err(refusal) = self.gate(&user, &plan) {
            return in_web::drive::redirect(None, Some(refusal));
        }
        for (file, _) in &mut self.files {
            if file.id == id {
                match act {
                    "move" => {
                        file.folder_id = if value.is_empty() {
                            None
                        } else {
                            Some(value.to_string())
                        }
                    }
                    "rename" => file.name = value.to_string(),
                    _ => file.deleted_at = Some(Moment::now()),
                }
            }
        }
        changed_file(None, Ok(()))
    }

    /// Posts a form with a destination and one file.
    fn upload(&mut self, who: Option<&str>, folder: &str, name: &str, bytes: &[u8]) -> String {
        let mut form = UploadForm::new();
        assert!(form.hear(0, FormField::Folder(Some(folder.to_string()))).is_none());
        assert!(form
            .hear(1, FormField::File(Some(name.to_string()), bytes.len() as u64))
            .is_none());
        let user = self.asking(who);
        if let Err(refusal) = self.gate(&user, &upload_plan(&form.folder)) {
            return back_to_folder(form.folder.as_deref(), Some(refusal));
        }
        let owner = user.unwrap();
        let mut outcomes: Vec<Result<(), StoreError>> = Vec::new();
        loop {
            match upload_step(&form.files, LIMIT, &outcomes) {
                UploadStep::Done(refusal) => return back_to_folder(form.folder.as_deref(), refusal),
                UploadStep::Insert(at) => {
                    let (_, name, size) = &form.files[at];
                    outcomes.push(if owner.used_bytes + size > owner.quota_bytes {
                        Err(StoreError::QuotaExceeded)
                    } else {
                        let name = name.clone();
                        self.insert_file(&owner.id, form.folder.as_deref(), &name, bytes);
                        Ok(())
                    });
                }
            }
        }
    }

    /// Serves a file's bytes, or the status it is answered with.
    fn download(&mut self, who: Option<&str>, id: &str, query: &str, range: Option<&str>) -> Served {
        let user = self.asking(who);
        let forced = query_value(query, "dl").is_some();
        let mut facts = FileFacts { row: None, can_see: None, can_download: None };
        loop {
            match download_step(&user, &facts, forced) {
                DownloadStep::FrontDoor => return Served::bare(303),
                DownloadStep::NotFound => return Served::bare(404),
                DownloadStep::LookFile => facts.row = Some(self.file(id)),
                DownloadStep::AskGrant => {
                    facts.can_see = Some(Ok(self.sees(who.unwrap(), id).is_some()));
                }
                DownloadStep::AskDownload => {
                    facts.can_download = Some(Ok(self.sees(who.unwrap(), id) == Some(true)));
                }
                DownloadStep::Serve => {
                    let file = self.file(id).unwrap().unwrap();
                    let bytes = self.bytes(id);
                    let reply = download_reply(&file, forced, range, bytes.len() as u64);
                    if reply.counts {
                        for (file, _) in &mut self.files {
                            if file.id == id {
                                file.download_count += 1;
                            }
                        }
                    }
                    return Served::new(reply.status, &reply.headers, reply.span, &bytes);
                }
            }
        }
    }

    fn thumb(&self, who: Option<&str>, id: &str, if_none_match: Option<&str>) -> (u16, Option<String>) {
        let user = self.asking(who);
        let mut facts = FileFacts { row: None, can_see: None, can_download: None };
        loop {
            match thumb_step(&user, &facts) {
                Sight::Missing => return (404, None),
                Sight::LookFile => facts.row = Some(self.file(id)),
                Sight::AskGrant => {
                    facts.can_see = Some(Ok(self.sees(who.unwrap(), id).is_some()));
                }
                Sight::Open => {
                    let reply = thumb_reply(b"RIFF....WEBP", if_none_match);
                    return (reply.status, value_in(&reply.headers, "etag"));
                }
            }
        }
    }

    fn view(&self, who: &str, id: &str) -> ViewPage {
        let file = self.file(id).unwrap().unwrap();
        let may = may_download(who, &file, &Ok(self.sees(who, id) == Some(true)));
        view_page(&file, may)
    }

    /// The drive page, or the status it is answered with.
    fn drive(&self, who: Option<&str>, query: &str) -> Result<DrivePage, u16> {
        let user = match self.asking(who) {
            Ok(user) => user,
            Err(_) => return Err(303),
        };
        let pick = |name: &str| query_value(query, name);
        let ask = drive_ask(&DriveQuery {
            folder: pick("folder"),
            q: pick("q"),
            edit: pick("edit"),
            sort: pick("sort"),
            share: pick("share"),
            kind: pick("kind"),
            moving: pick("move"),
        });
        let mut replies = Vec::new();
        let current = loop {
            match current_folder(&user.id, ask.folder.as_deref(), &replies) {
                PathStep::Root => break None,
                PathStep::Missing => return Err(404),
                PathStep::Look(id) => replies.push(self.folder(&id)),
                PathStep::Open => {
                    break ask.folder.as_deref().and_then(|id| self.folder(id).unwrap())
                }
            }
        };
        let mut climbed = Vec::new();
        let crumbs = loop {
            match breadcrumbs(current.as_ref(), &climbed) {
                CrumbStep::Done(crumbs) => break crumbs,
                CrumbStep::Look(id) => climbed.push(self.folder(&id)),
            }
        };
        let listing = self.children(&user.id, current.as_ref().map(|f| f.id.as_str()));
        let hits = ask.asked.as_ref().map(|q| self.found(&user.id, q));
        Ok(drive_page(
            Lang::En,
            &ask,
            query,
            "http://127.0.0.1:7655",
            current.as_ref(),
            crumbs,
            listing,
            hits,
        ))
    }

    /// The destinations the move picker offers, the root first.
    fn picker(&self, who: &str, moving: &str) -> Vec<String> {
        let mut tree = FolderTree::new();
        while !tree.done() {
            let parent = tree.next();
            tree.hear(Ok(self.children(who, parent.as_deref()).folders));
        }
        let mut rows = vec![t(Lang::En, Key::Drive).to_string()];
        for branch in tree.destinations(Some(moving)) {
            rows.push(branch.path);
        }
        rows
    }

    fn create_link(&mut self, who: Option<&str>, kind: &str, target: &str, flag: Option<&str>, days: Option<&str>) -> String {
        let user = self.asking(who);
        if let Err(refusal) = self.gate(&user, &share_plan(kind, target)) {
            return in_web::share::redirect_back(None, "/settings", "create", Some(refusal));
        }
        let expires_at = match parse_expiry(days) {
            Ok(at) => at,
            Err(refusal) => {
                return in_web::share::redirect_back(None, "/settings", "create", Some(refusal))
            }
        };
        let owner = user.unwrap().id;
        let token = self.mint("tok");
        let id = self.mint("link");
        self.links.push((
            token.clone(),
            ShareLink {
                id,
                created_by: owner,
                kind: in_web::share::parse_kind(kind).unwrap(),
                target_id: target.to_string(),
                can_download: parse_flag(flag, false),
                expires_at,
                revoked_at: None,
            },
        ));
        created_link(None, &Ok(token))
    }

    fn revoke_link(&mut self, who: Option<&str>, id: &str) -> String {
        let user = self.asking(who);
        let mut links = None;
        loop {
            match revoke_step(&user, &links, id) {
                RevokeStep::ListLinks => links = Some(Ok(self.own_links(who.unwrap()))),
                RevokeStep::Refuse(refusal) => {
                    return in_web::share::redirect_back(None, "/settings", "revoke", Some(refusal))
                }
                RevokeStep::Revoke => {
                    for (_, link) in &mut self.links {
                        if link.id == id {
                            link.revoked_at = Some(Moment::now());
                        }
                    }
                    return changed_share(None, "revoke", Ok(()));
                }
            }
        }
    }

    fn change_grant(&mut self, who: Option<&str>, add: bool, kind: &str, target: &str, email: &str, flag: Option<&str>) -> String {
        let call = if add { "add" } else { "remove" };
        let user = self.asking(who);
        let plan = if add { share_plan(kind, target) } else { unshare_plan(kind, target) };
        if let Err(refusal) = self.gate(&user, &plan) {
            return in_web::share::redirect_back(None, "/settings", call, Some(refusal));
        }
        let address = grantee_address(email);
        let found = Ok(self.users.iter().find(|user| user.email == address).cloned());
        let id = match grantee(&found) {
            Ok(id) => id,
            Err(refusal) => {
                return in_web::share::redirect_back(None, "/settings", call, Some(refusal))
            }
        };
        let kind = in_web::share::parse_kind(kind).unwrap();
        self.grants
            .retain(|(k, t, g, _)| !(*k == kind && t == target && *g == id));
        if add {
            self.grants
                .push((kind, target.to_string(), id, parse_flag(flag, false)));
        }
        changed_share(None, call, Ok(()))
    }

    fn shared(&self, who: &str, query: &str) -> SharedPage {
        let pick = |name: &str| query_value(query, name);
        let ask = shared_ask(
            pick("sort").as_deref(),
            pick("kind").as_deref(),
            pick("q").as_deref(),
        );
        let mut items = Vec::new();
        for (kind, target, grantee, can_download) in &self.grants {
            let (name, owner, live) = match kind {
                ShareKind::File => {
                    let file = self.file(target).unwrap().unwrap();
                    (file.name.clone(), file.owner_id.clone(), file.deleted_at.is_none())
                }
                ShareKind::Folder => {
                    let folder = self.folder(target).unwrap().unwrap();
                    (folder.name.clone(), folder.owner_id.clone(), folder.deleted_at.is_none())
                }
            };
            if grantee == who && live {
                items.push(SharedItem {
                    kind: *kind,
                    target_id: target.clone(),
                    owner_id: owner,
                    name,
                    can_download: *can_download,
                    created_at: Moment::now(),
                });
            }
        }
        let items = wanted_items(items, ask.kind, &ask.asked);
        let mut known: Vec<KnownOwner> = Vec::new();
        while let Some(id) = owner_to_look(&items, &known) {
            let name = owner_display(&self.user(&id));
            known.push(KnownOwner { id, name });
        }
        let mut rows = Vec::new();
        for item in items {
            let owner = owner_name(&known, &item.owner_id);
            let target = match item.kind {
                ShareKind::File => TargetReply::File(self.file(&item.target_id)),
                ShareKind::Folder => TargetReply::Folder(self.folder(&item.target_id)),
            };
            rows.push(shared_row(item, owner, target));
        }
        shared_page(Lang::En, &ask, rows)
    }

    /// What a public link opens.
    fn public(&self, token: &str, query: &str, if_none_match: Option<&str>) -> Public {
        let asked = shared_query(query);
        let link = self.opened(token);
        let mut facts = PublicFacts { root: None, climb: Vec::new(), file: None };
        loop {
            match shared_link(link, &asked, &facts) {
                PublicStep::Dead => return Public::Dead,
                PublicStep::LookRoot(id) => facts.root = Some(self.folder(&id)),
                PublicStep::LookFolder(id) => facts.climb.push(self.folder(&id)),
                PublicStep::LookFile(id) => facts.file = Some(self.file(&id)),
                PublicStep::Bytes => {
                    let file = facts.file.unwrap().unwrap().unwrap();
                    let bytes = self.bytes(&file.id);
                    let reply = download_bytes(&file, None, bytes.len() as u64);
                    return Public::Bytes(Served::new(reply.status, &reply.headers, reply.span, &bytes));
                }
                PublicStep::Thumb => {
                    let reply = thumb_reply(b"RIFF....WEBP", if_none_match);
                    return Public::Thumb(reply.status, value_in(&reply.headers, "etag").unwrap());
                }
                PublicStep::FileCard => {
                    let file = facts.file.unwrap().unwrap().unwrap();
                    return Public::FileCard(file_card(link.unwrap(), &file, &format!("/s/{token}")));
                }
                PublicStep::FolderCard(at) => {
                    let here = self.folder(&at).unwrap().unwrap();
                    let owner = here.owner_id.clone();
                    let listing = self.children(&owner, Some(&at));
                    return Public::FolderCard(folder_card(link.unwrap(), &here, listing, &at, token));
                }
            }
        }
    }

    fn modal(&self, who: Option<&str>, pair: &str) -> Option<Modal> {
        let user = self.asking(who);
        let (kind_raw, target_id) = pair.split_once(':').unwrap();
        let mut facts = ModalFacts { target: None, links: None, grants: None, people: Vec::new() };
        loop {
            match modal_step(kind_raw, &user, &facts) {
                ModalStep::Nothing => return None,
                ModalStep::Fail(error) => panic!("the store failed: {error:?}"),
                ModalStep::LookTarget(ShareKind::File) => {
                    facts.target = Some(TargetReply::File(self.file(target_id)));
                }
                ModalStep::LookTarget(ShareKind::Folder) => {
                    facts.target = Some(TargetReply::Folder(self.folder(target_id)));
                }
                ModalStep::ListLinks => facts.links = Some(Ok(self.own_links(who.unwrap()))),
                ModalStep::ListGrants(kind) => {
                    facts.grants = Some(Ok(self
                        .grants
                        .iter()
                        .filter(|(k, t, _, _)| *k == kind && t == target_id)
                        .map(|(_, _, user_id, can_download)| Grant {
                            user_id: user_id.clone(),
                            can_download: *can_download,
                        })
                        .collect()));
                }
                ModalStep::LookPerson(at) => {
                    let id = facts.grants.as_ref().unwrap().as_ref().unwrap()[at].user_id.clone();
                    facts.people.push(self.user(&id));
                }
                ModalStep::Show(kind) => {
                    return Some(share_modal(
                        Lang::En,
                        kind,
                        target_id,
                        facts.target.as_ref().unwrap(),
                        user.as_ref().unwrap(),
                        facts.links.as_ref().unwrap().as_ref().unwrap(),
                        facts.grants.as_ref().unwrap().as_ref().unwrap(),
                        &facts.people,
                        "",
                        "/drive",
                        None,
                        "http://127.0.0.1:7655",
                    ))
                }
            }
        }
    }

    fn settings(&self, who: &str, query: &str) -> SettingsPage {
        let reader = self.user(who).unwrap().unwrap();
        let speaking = lang(Some(&reader.language), None);
        let links = live_links(self.own_links(who));
        let targets: Vec<TargetReply> = links
            .iter()
            .map(|link| match link.kind {
                ShareKind::File => TargetReply::File(self.file(&link.target_id)),
                ShareKind::Folder => TargetReply::Folder(self.folder(&link.target_id)),
            })
            .collect();
        settings_page(
            speaking,
            &reader,
            &links,
            &targets,
            &self.users,
            LIMIT,
            query,
            "http://127.0.0.1:7655",
        )
    }

    fn save_preferences(&mut self, who: Option<&str>, ui: &str, theme: &str, language: &str) -> String {
        let user = self.asking(who);
        match set_preferences(&user, ui, theme, language) {
            Err(refusal) => in_web::settings::redirect_back(None, "preferences", Some(refusal)),
            Ok(()) => {
                for row in &mut self.users {
                    if Some(row.id.as_str()) == who {
                        row.ui = ui.to_string();
                        row.theme = theme.to_string();
                        row.language = language.to_string();
                    }
                }
                changed_setting(None, "preferences", Ok(()))
            }
        }
    }

    fn save_quota(&mut self, who: Option<&str>, user_id: &str, amount: &str, unit: &str) -> String {
        let admin = require_admin(self.asking(who));
        let bits = amount.trim().parse::<f64>().ok().map(f64::to_bits);
        match set_quota(&admin, bits, unit) {
            Err(refusal) => in_web::settings::redirect_back(None, "quota", Some(refusal)),
            Ok(bytes) => {
                for row in &mut self.users {
                    if row.id == user_id {
                        row.quota_bytes = bytes;
                    }
                }
                changed_setting(None, "quota", Ok(()))
            }
        }
    }

    fn switch(&mut self, who: Option<&str>, user_id: &str, disabled: Option<&str>) -> String {
        let admin = require_admin(self.asking(who));
        match set_disabled(&admin, user_id, disabled) {
            Err(refusal) => in_web::settings::redirect_back(None, "disable", Some(refusal)),
            Ok(flag) => {
                for row in &mut self.users {
                    if row.id == user_id {
                        row.disabled = flag;
                    }
                }
                changed_setting(None, "disable", Ok(()))
            }
        }
    }

    fn trash(&self, who: &str) -> TrashPage {
        trash_page(Lang::En, &trash_ask(None, None, None), self.trashed(who))
    }

    fn post_restore(&mut self, who: Option<&str>, kind: &str, id: &str) -> String {
        let user = self.asking(who);
        if let Err(refusal) = self.gate(&user, &trash_plan(kind, id)) {
            return in_web::trash::redirect_back(None, "restore", Some(refusal));
        }
        let outcome = self.restore(in_web::share::parse_kind(kind).unwrap(), id);
        changed_trash(None, "restore", outcome)
    }

    fn post_purge(&mut self, who: Option<&str>, kind: &str, id: &str) -> String {
        let user = self.asking(who);
        if let Err(refusal) = self.gate(&user, &trash_plan(kind, id)) {
            return in_web::trash::redirect_back(None, "purge", Some(refusal));
        }
        let kind = in_web::share::parse_kind(kind).unwrap();
        let outcome = self.purge(kind, id);
        purged(None, kind, outcome)
    }

    fn post_empty(&mut self, who: Option<&str>) -> String {
        let user = match self.asking(who) {
            Ok(user) => user,
            Err(refusal) => return in_web::trash::redirect_back(None, "empty", Some(refusal)),
        };
        let doomed = self.trashed(&user.id);
        let mut outcome = Ok(());
        for folder in &doomed.folders {
            outcome = outcome.and(self.purge(ShareKind::Folder, &folder.id).map(|_| ()));
        }
        for file in &doomed.files {
            outcome = outcome.and(self.purge(ShareKind::File, &file.id).map(|_| ()));
        }
        changed_trash(None, "empty", outcome)
    }

    fn session(&self, id: &str) -> Result<Option<UploadSession>, StoreError> {
        Ok(self.staged.iter().find(|s| s.id == id).map(|s| UploadSession {
            id: s.id.clone(),
            owner_id: s.owner_id.clone(),
            name: s.name.clone(),
            size_bytes: s.size_bytes,
            chunk_size: CHUNK,
            received_bytes: s.chunks.iter().map(|(_, bytes)| bytes.len() as u64).sum(),
        }))
    }

    fn start_upload(&mut self, who: Option<&str>, name: &str, size_bytes: u64) -> Result<(String, u64), &'static str> {
        let user = self.asking(who);
        let plan = start_plan(None);
        match start(&user, &plan, &Vec::new(), size_bytes, LIMIT) {
            Verdict::Refuse(refusal) => return Err(refusal.name()),
            Verdict::Look(_) => panic!("the root needs no lookup"),
            Verdict::Go => {}
        }
        let owner = user.unwrap();
        let outcome = if owner.used_bytes + size_bytes > owner.quota_bytes {
            Err(StoreError::QuotaExceeded)
        } else {
            let id = self.mint("session");
            self.staged.push(Staged {
                id: id.clone(),
                owner_id: owner.id,
                name: name.to_string(),
                size_bytes,
                chunks: Vec::new(),
                active: true,
            });
            Ok(self.session(&id).unwrap().unwrap())
        };
        started(&outcome)
            .map(|out| (out.id, out.chunk_size))
            .map_err(|refusal| refusal.name())
    }

    fn put_chunk(&mut self, who: Option<&str>, path: &str, id: &str, bytes: &[u8]) -> Result<u64, &'static str> {
        let user = self.asking(who);
        let mut found = None;
        loop {
            match chunk(path, &user, found) {
                ChunkStep::Look => found = Some(self.session(id)),
                ChunkStep::Refused(refusal) => return Err(refusal.name()),
                ChunkStep::Record { session, index } => {
                    let staged = self.staged.iter_mut().find(|s| s.id == session.id).unwrap();
                    let from = index * CHUNK;
                    let want = CHUNK.min(staged.size_bytes.saturating_sub(from));
                    let outcome = if bytes.len() as u64 != want {
                        Err(StoreError::BadChunk)
                    } else {
                        staged.chunks.push((index, bytes.to_vec()));
                        Ok(())
                    };
                    let outcome = outcome.and_then(|_| self.session(id).map(|s| s.unwrap()));
                    return recorded(&outcome)
                        .map(|out| out.received_bytes)
                        .map_err(|refusal| refusal.name());
                }
            }
        }
    }

    fn own(&self, who: Option<&str>, id: &str) -> Result<UploadSession, &'static str> {
        let user = self.asking(who);
        match owned_session(&user, None) {
            SessionStep::Look => {}
            SessionStep::Refused(refusal) => return Err(refusal.name()),
            SessionStep::Own(_) => panic!("nothing was looked up yet"),
        }
        match owned_session(&user, Some(self.session(id))) {
            SessionStep::Own(session) => Ok(session),
            SessionStep::Refused(refusal) => Err(refusal.name()),
            SessionStep::Look => panic!("the lookup was answered"),
        }
    }

    fn finish_upload(&mut self, who: Option<&str>, id: &str) -> Result<String, &'static str> {
        let session = self.own(who, id)?;
        let staged = self.staged.iter().find(|s| s.id == session.id).unwrap();
        let outcome = if staged.active {
            let mut bytes = Vec::new();
            for (_, piece) in &staged.chunks {
                bytes.extend_from_slice(piece);
            }
            let (owner, name) = (staged.owner_id.clone(), staged.name.clone());
            let id = self.insert_file(&owner, None, &name, &bytes);
            Ok(self.file(&id).unwrap().unwrap())
        } else {
            Err(StoreError::UploadExpired)
        };
        finish(&outcome).map_err(|refusal| refusal.name())
    }
}

/// A response made of stored bytes.
struct Served {
    status: u16,
    headers: Vec<(String, String)>,
    bytes: Vec<u8>,
}

impl Served {
    fn bare(status: u16) -> Served {
        Served { status, headers: Vec::new(), bytes: Vec::new() }
    }

    fn new(status: u16, headers: &[Header], span: Span, bytes: &[u8]) -> Served {
        Served {
            status,
            headers: headers.iter().map(|h| (h.name.to_string(), h.value.clone())).collect(),
            bytes: match span {
                Span::Whole => bytes.to_vec(),
                Span::Part(start, end) => bytes[start as usize..=end as usize].to_vec(),
                Span::Nothing => Vec::new(),
            },
        }
    }

    fn header(&self, name: &str) -> &str {
        self.headers
            .iter()
            .find(|(header, _)| header == name)
            .map(|(_, value)| value.as_str())
            .unwrap_or("")
    }
}

enum Public {
    Dead,
    Bytes(Served),
    Thumb(u16, String),
    FileCard(FileCard),
    FolderCard(FolderCard),
}

impl Public {
    fn is_dead(&self) -> bool {
        matches!(self, Public::Dead)
    }

    fn bytes(self) -> Vec<u8> {
        match self {
            Public::Bytes(served) => {
                assert_eq!(served.status, 200);
                served.bytes
            }
            _ => panic!("no bytes were served"),
        }
    }

    fn card(self) -> FileCard {
        match self {
            Public::FileCard(card) => card,
            _ => panic!("no card was shown"),
        }
    }
}

fn value_in(headers: &[Header], name: &str) -> Option<String> {
    headers.iter().find(|h| h.name == name).map(|h| h.value.clone())
}

fn refused(location: &str, code: &str, call: &str) -> bool {
    location.contains(&format!("refusal={code}")) && location.contains(&format!("on={call}"))
}

fn accepted(location: &str) -> bool {
    !location.contains("refusal=")
}

fn token_in(location: &str) -> String {
    let (_, query) = location.split_once('?').expect("no query");
    query_value(query, "created").expect("creation set no token")
}

fn names(page: &DrivePage) -> Vec<String> {
    match &page.body {
        DriveBody::Rows(rows) => rows.iter().map(|row| row.name.clone()).collect(),
        DriveBody::Hits(hits) => hits.iter().map(|hit| hit.name.clone()).collect(),
        DriveBody::NoRows(_) | DriveBody::NoHits(_) => Vec::new(),
    }
}

fn child(store: &Store, owner: &str, parent: Option<&str>, name: &str) -> String {
    store
        .children(owner, parent)
        .folders
        .into_iter()
        .find(|folder| folder.name == name)
        .expect("folder was not created")
        .id
}

// -- the drive -----------------------------------------------------------------

#[test]
fn drive_redirects_without_session() {
    let app = Store::new();
    assert!(matches!(app.drive(None, ""), Err(303)));
}

#[test]
fn folder_crud_and_cycle_is_refused() {
    let mut app = Store::new();
    let me = app.sign_in("sub-crud", "crud@in.test", "Crud");
    let answer = app.create_folder(Some(&me), "", "projects");
    assert_eq!(answer.refusal, None, "creating was refused");
    let projects = child(&app, &me, None, "projects");
    let answer = app.create_folder(Some(&me), &projects, "sub");
    assert_eq!(answer.refusal, None, "creating was refused");
    let sub = child(&app, &me, Some(&projects), "sub");

    // Nesting `projects` inside its own descendant is refused, not looped.
    let plan = move_folder_plan(&projects, &sub);
    let answer = app.change_folder(Some(&me), plan, "move", &projects, &sub);
    assert_eq!(answer.refusal, Some(Refusal::Forbidden), "cycle was not refused");

    // A legal move, a rename and a delete all land clean.
    let plan = move_folder_plan(&sub, "");
    assert_eq!(app.change_folder(Some(&me), plan, "move", &sub, "").refusal, None);
    assert_eq!(named_folder("moved"), Some("moved".to_string()));
    let answer = app.change_folder(Some(&me), folder_plan(&sub), "rename", &sub, "moved");
    assert_eq!(answer.refusal, None);
    let answer = app.change_folder(Some(&me), folder_plan(&sub), "delete", &sub, "");
    assert_eq!(answer.refusal, None);

    // The drive page names what is left.
    let page = app.drive(Some(&me), "").unwrap_or_else(|_| panic!("no page"));
    assert_eq!(names(&page), vec!["projects".to_string()]);
}

#[test]
fn small_upload_round_trip() {
    let mut app = Store::new();
    let me = app.sign_in("sub-small", "small@in.test", "Small");
    let location = app.upload(Some(&me), "", "hello.txt", b"hello in");
    assert!(accepted(&location), "upload was refused: {location}");
    let file = app.children(&me, None).files.remove(0);
    assert_eq!(file.name, "hello.txt");
    assert_eq!(file.mime, "text/plain");
    let got = app.download(Some(&me), &file.id, "", None);
    assert_eq!(got.status, 200);
    assert_eq!(got.bytes, b"hello in");
    assert_eq!(got.header("accept-ranges"), "bytes");
    assert!(got.header("cache-control").contains("immutable"));
}

#[test]
fn chunked_upload_round_trip() {
    let mut app = Store::new();
    let me = app.sign_in("sub-chunk", "chunk@in.test", "Chunk");
    let total = 8 * 1024 * 1024 + 100;
    let mut bytes = Vec::with_capacity(total);
    for i in 0..total {
        bytes.push((i % 251) as u8);
    }
    let (session, chunk_size) = app
        .start_upload(Some(&me), "big.bin", total as u64)
        .expect("start was refused");
    assert_eq!(chunk_size, 8 * 1024 * 1024);
    let got = app.put_chunk(
        Some(&me),
        &format!("/api/upload/{session}/0"),
        &session,
        &bytes[..8 * 1024 * 1024],
    );
    assert_eq!(got, Ok(8 * 1024 * 1024));
    let got = app.put_chunk(
        Some(&me),
        &format!("/api/upload/{session}/1"),
        &session,
        &bytes[8 * 1024 * 1024..],
    );
    assert_eq!(got, Ok(total as u64));
    let file = app.finish_upload(Some(&me), &session).expect("finish was refused");
    let got = app.download(Some(&me), &file, "", None);
    assert_eq!(got.status, 200);
    assert_eq!(got.bytes, bytes);
    assert_eq!(app.file(&file).unwrap().unwrap().owner_id, me);
}

#[test]
fn an_interrupted_upload_resumes_from_its_staged_chunks() {
    let mut app = Store::new();
    let me = app.sign_in("sub-resume", "resume@in.test", "Resume");
    let total = 8 * 1024 * 1024 + 100;
    let bytes = vec![7u8; total];
    let (session, _) = app.start_upload(Some(&me), "resume.bin", total as u64).unwrap();
    app.put_chunk(
        Some(&me),
        &format!("/api/upload/{session}/0"),
        &session,
        &bytes[..8 * 1024 * 1024],
    )
    .unwrap();

    let staged: Vec<u64> = app.staged[0].chunks.iter().map(|(index, _)| *index).collect();
    let own = app.own(Some(&me), &session).unwrap();
    let body = status(&own, Ok(staged)).unwrap();
    assert_eq!(body.size_bytes, total as u64);
    assert_eq!(body.chunk_size, 8 * 1024 * 1024);
    assert_eq!(body.name, "resume.bin");
    assert_eq!(body.uploaded, vec![0]);

    // Another owner's probe of the same id is not found, not forbidden.
    let other = app.sign_in("sub-nosey", "nosey@in.test", "Nosey");
    assert!(matches!(app.own(Some(&other), &session), Err("NotFound")));

    app.put_chunk(
        Some(&me),
        &format!("/api/upload/{session}/1"),
        &session,
        &bytes[8 * 1024 * 1024..],
    )
    .unwrap();
    let file = app.finish_upload(Some(&me), &session).expect("finish was refused");
    assert_eq!(app.download(Some(&me), &file, "", None).bytes, bytes);
}

#[test]
fn range_request_serves_a_slice() {
    let mut app = Store::new();
    let me = app.sign_in("sub-range", "range@in.test", "Range");
    app.upload(Some(&me), "", "hello.txt", b"hello in");
    let file = app.children(&me, None).files.remove(0);
    let slice = app.download(Some(&me), &file.id, "", Some("bytes=0-4"));
    assert_eq!(slice.status, 206);
    assert_eq!(slice.bytes, b"hello");
    assert_eq!(slice.header("content-range"), "bytes 0-4/8");
    let past_end = app.download(Some(&me), &file.id, "", Some("bytes=99-"));
    assert_eq!(past_end.status, 416);
}

#[test]
fn quota_is_refused_before_and_during_upload() {
    let mut app = Store::new();
    let me = app.sign_in("sub-quota", "quota@in.test", "Quota");
    app.users[0].quota_bytes = 10;
    assert_eq!(
        app.start_upload(Some(&me), "too-big.bin", 100),
        Err("QuotaExceeded")
    );
    let location = app.upload(Some(&me), "", "twenty.txt", b"12345678901234567890");
    assert!(location.contains("quota-exceeded"), "{location}");
}

#[test]
fn thumbnail_is_served_after_image_upload() {
    let mut app = Store::new();
    let me = app.sign_in("sub-thumb", "thumb@in.test", "Thumb");
    let location = app.upload(Some(&me), "", "dot.png", b"\x89PNG");
    assert!(accepted(&location), "image upload was refused: {location}");
    let file = app.children(&me, None).files.remove(0);
    assert_eq!(file.mime, "image/png");
    let (status, etag) = app.thumb(Some(&me), &file.id, None);
    assert_eq!(status, 200, "no thumbnail served");
    let etag = etag.expect("no etag on the thumbnail");
    assert_eq!(app.thumb(Some(&me), &file.id, Some(&etag)).0, 304);
}

#[test]
fn cross_owner_answers_not_found() {
    let mut app = Store::new();
    let alice = app.sign_in("sub-alice", "alice@in.test", "Alice");
    let bob = app.sign_in("sub-bob", "bob@in.test", "Bob");
    app.create_folder(Some(&alice), "", "hers");
    let hers = child(&app, &alice, None, "hers");
    app.upload(Some(&alice), "", "hers.txt", b"hers");
    let file = app.children(&alice, None).files.remove(0).id;

    assert_eq!(app.download(Some(&bob), &file, "", None).status, 404);
    assert_eq!(app.thumb(Some(&bob), &file, None).0, 404);
    assert!(matches!(app.drive(Some(&bob), &format!("folder={hers}")), Err(404)));
    let answer = app.change_folder(Some(&bob), folder_plan(&hers), "rename", &hers, "theirs");
    assert_eq!(answer.refusal, Some(Refusal::NotFound));
    let answer = app.change_file(Some(&bob), file_plan(&file), "delete", &file, "");
    assert_eq!(answer.refusal, Some(Refusal::NotFound));
}

#[test]
fn file_rename_move_and_delete() {
    let mut app = Store::new();
    let me = app.sign_in("sub-fops", "fops@in.test", "Fops");
    app.create_folder(Some(&me), "", "box");
    let boxed = child(&app, &me, None, "box");
    app.upload(Some(&me), "", "note.txt", b"note");
    let file = app.children(&me, None).files.remove(0).id;
    let answer = app.change_file(Some(&me), file_plan(&file), "rename", &file, "renamed.txt");
    assert_eq!(answer.refusal, None);
    let plan = move_file_plan(&file, &boxed);
    let answer = app.change_file(Some(&me), plan, "move", &file, &boxed);
    assert_eq!(answer.refusal, None);
    let moved = app.file(&file).unwrap().unwrap();
    assert_eq!(moved.name, "renamed.txt");
    assert_eq!(moved.folder_id.as_deref(), Some(boxed.as_str()));
    let answer = app.change_file(Some(&me), file_plan(&file), "delete", &file, "");
    assert_eq!(answer.refusal, None);
    assert!(app.file(&file).unwrap().unwrap().deleted_at.is_some());
    // And the bytes answer 404 once trashed.
    assert_eq!(app.download(Some(&me), &file, "", None).status, 404);
}

#[test]
fn upload_abort_and_bad_chunk() {
    let mut app = Store::new();
    let me = app.sign_in("sub-abort", "abort@in.test", "Abort");
    let (session, _) = app.start_upload(Some(&me), "never.bin", 100).unwrap();
    // A short piece is a bad chunk, not a short file.
    let got = app.put_chunk(Some(&me), &format!("/api/upload/{session}/0"), &session, b"short");
    assert_eq!(got, Err("BadChunk"));
    let own = app.own(Some(&me), &session).unwrap();
    for staged in &mut app.staged {
        if staged.id == own.id {
            staged.active = false;
        }
    }
    assert_eq!(abort(Ok(())), Ok(()));
    // The finish after the abort finds an expired session.
    assert_eq!(app.finish_upload(Some(&me), &session), Err("UploadExpired"));
}

#[test]
fn forced_download_is_attachment() {
    let mut app = Store::new();
    let me = app.sign_in("sub-dl", "dl@in.test", "Dl");
    app.upload(Some(&me), "", "readme.txt", b"read me");
    let file = app.children(&me, None).files.remove(0).id;
    let inline = app.download(Some(&me), &file, "", None);
    assert!(inline.header("content-disposition").starts_with("inline"));
    let forced = app.download(Some(&me), &file, "dl=1", None);
    assert_eq!(forced.status, 200);
    assert!(forced.header("content-disposition").starts_with("attachment"));
    assert_eq!(forced.bytes, b"read me");
}

#[test]
fn previews_do_not_count_as_downloads() {
    let mut app = Store::new();
    let me = app.sign_in("sub-prev", "prev@in.test", "Prev");
    app.upload(Some(&me), "", "clip.txt", b"counted only when taken");
    let file = app.children(&me, None).files.remove(0).id;
    assert_eq!(app.download(Some(&me), &file, "", None).status, 200);
    assert_eq!(app.download(Some(&me), &file, "", Some("bytes=0-3")).status, 206);
    assert_eq!(app.file(&file).unwrap().unwrap().download_count, 0);
    assert_eq!(app.download(Some(&me), &file, "dl=1", None).status, 200);
    assert_eq!(app.file(&file).unwrap().unwrap().download_count, 1);
    // A mid-file chunk of a download is the same download going on.
    assert_eq!(app.download(Some(&me), &file, "dl=1", Some("bytes=4-")).status, 206);
    assert_eq!(app.file(&file).unwrap().unwrap().download_count, 1);
}

// -- public links --------------------------------------------------------------

#[test]
fn link_create_public_view_revoke_gone() {
    let mut app = Store::new();
    let admin = app.sign_in("sub-admin", "ada@in.test", "Ada");
    let file = app.insert_file(&admin, None, "notes.txt", b"hello in");
    let location = app.create_link(Some(&admin), "file", &file, Some("1"), None);
    assert!(accepted(&location), "create refused: {location}");
    let token = token_in(&location);
    assert_eq!(app.public(&token, "", None).card().name, "notes.txt");
    assert_eq!(app.public(&token, "dl=1", None).bytes(), b"hello in");
    let id = app.own_links(&admin)[0].id.clone();
    assert!(accepted(&app.revoke_link(Some(&admin), &id)));
    assert!(app.public(&token, "", None).is_dead());
}

#[test]
fn expired_link_is_dead() {
    let mut app = Store::new();
    let owner = app.sign_in("sub-admin", "ada@in.test", "Ada");
    let file = app.insert_file(&owner, None, "old.txt", b"old");
    let location = app.create_link(Some(&owner), "file", &file, Some("1"), None);
    app.links[0].1.expires_at = Moment::now().later(-86_400);
    assert!(app.public(&token_in(&location), "", None).is_dead());
}

#[test]
fn view_only_link_download_is_dead_card() {
    let mut app = Store::new();
    let admin = app.sign_in("sub-admin", "ada@in.test", "Ada");
    let file = app.insert_file(&admin, None, "secret.txt", b"eyes only");
    let location = app.create_link(Some(&admin), "file", &file, Some("0"), None);
    let token = token_in(&location);
    assert_eq!(app.public(&token, "", None).card().name, "secret.txt");
    assert!(app.public(&token, "dl=1", None).is_dead());
}

#[test]
fn link_create_without_the_flag_is_view_only() {
    let mut app = Store::new();
    let admin = app.sign_in("sub-admin", "ada@in.test", "Ada");
    let file = app.insert_file(&admin, None, "plain.txt", b"plain bytes");
    let location = app.create_link(Some(&admin), "file", &file, None, None);
    let token = token_in(&location);
    assert_eq!(app.public(&token, "", None).card().name, "plain.txt");
    assert!(app.public(&token, "dl=1", None).is_dead());
    // Both share surfaces print the target's name, never its raw id.
    let modal = app.modal(Some(&admin), &format!("file:{file}")).expect("no modal");
    assert_eq!(modal.title, "Share “plain.txt”");
    assert_eq!(modal.link.as_ref().unwrap().access, t(Lang::En, Key::ViewOnly));
    let settings = app.settings(&admin, "");
    assert_eq!(settings.links[0].label, "file · plain.txt");
    // The checked box still opens the bytes.
    let location = app.create_link(Some(&admin), "file", &file, Some("1"), None);
    assert_eq!(app.public(&token_in(&location), "dl=1", None).bytes(), b"plain bytes");
}

#[test]
fn the_page_behind_a_mint_offers_the_fresh_token() {
    let mut app = Store::new();
    let admin = app.sign_in("sub-admin", "ada@in.test", "Ada");
    let mut here = "/settings".to_string();
    for token in ["first", "second", "third"] {
        here = created_link(Some(&here), &Ok(token.to_string()));
        let query = here.split_once('?').unwrap().1.to_string();
        let offered = format!("http://127.0.0.1:7655/s/{token}");
        assert_eq!(app.settings(&admin, &query).created.as_ref(), Some(&offered));
        let page = app.drive(Some(&admin), &query).unwrap_or_else(|_| panic!("no page"));
        assert_eq!(page.created.as_ref(), Some(&offered));
        // A revocation in between leads back to the same page.
        here = changed_share(Some(&here), "revoke", Ok(()));
    }
}

#[test]
fn folder_link_lists_and_serves_children() {
    let mut app = Store::new();
    let admin = app.sign_in("sub-admin", "ada@in.test", "Ada");
    let folder = app.insert_folder(&admin, None, "shared");
    let inner = app.insert_file(&admin, Some(&folder), "child.txt", b"child bytes");
    let outer = app.insert_file(&admin, None, "outside.txt", b"outside");
    let location = app.create_link(Some(&admin), "folder", &folder, Some("1"), None);
    let token = token_in(&location);
    match app.public(&token, "", None) {
        Public::FolderCard(card) => {
            assert_eq!(card.name, "shared");
            assert_eq!(card.rows.len(), 1);
            assert_eq!(card.rows[0].name, "child.txt");
        }
        _ => panic!("no folder card"),
    }
    let query = format!("folder={folder}&file={inner}&dl=1");
    assert_eq!(app.public(&token, &query, None).bytes(), b"child bytes");
    // A file that does not lie in the shared folder stays behind it.
    let query = format!("folder={folder}&file={outer}&dl=1");
    assert!(app.public(&token, &query, None).is_dead());
}

#[test]
fn cross_owner_link_create_is_not_found() {
    let mut app = Store::new();
    let admin = app.sign_in("sub-admin", "ada@in.test", "Ada");
    let bob = app.sign_in("sub-bob", "bob@in.test", "Bob");
    let file = app.insert_file(&bob, None, "bobs.txt", b"bob");
    // Ada names Bob's file: answered as not-found, never forbidden.
    let location = app.create_link(Some(&admin), "file", &file, Some("1"), None);
    assert!(refused(&location, "not-found", "create"), "{location}");
}

// -- per-user shares -----------------------------------------------------------

#[test]
fn per_user_share_lands_in_shared_with_me() {
    let mut app = Store::new();
    let admin = app.sign_in("sub-admin", "ada@in.test", "Ada");
    let bob = app.sign_in("sub-bob", "bob@in.test", "Bob");
    let cara = app.sign_in("sub-cara", "cara@in.test", "Cara");
    let file = app.insert_file(&admin, None, "joint.txt", b"joint");
    let location = app.change_grant(Some(&admin), true, "file", &file, "BOB@in.test", Some("1"));
    assert!(accepted(&location), "add refused: {location}");
    assert_eq!(app.shared(&bob, "").lines[0].name, "joint.txt");
    assert!(app.shared(&cara, "").lines.is_empty());
    // Unknown addresses are not-found, not a stack.
    let location = app.change_grant(Some(&admin), true, "file", &file, "ghost@in.test", Some("1"));
    assert!(refused(&location, "not-found", "add"), "{location}");
    // Unshare and it leaves Bob's page.
    let location = app.change_grant(Some(&admin), false, "file", &file, "bob@in.test", None);
    assert!(accepted(&location), "remove refused: {location}");
    assert!(app.shared(&bob, "").lines.is_empty());
}

#[test]
fn view_only_reader_previews_media_but_cannot_download() {
    let mut app = Store::new();
    let admin = app.sign_in("sub-admin", "ada@in.test", "Ada");
    let bob = app.sign_in("sub-bob", "bob@in.test", "Bob");
    let bytes = b"\x89PNG\r\n\x1a\n preview bytes";
    let file = app.insert_file(&admin, None, "photo.png", bytes);
    let location = app.change_grant(Some(&admin), true, "file", &file, "bob@in.test", Some("0"));
    assert!(accepted(&location), "add refused: {location}");
    // The viewer page renders the media and offers no download.
    let page = app.view(&bob, &file);
    assert!(page.viewer.is_some());
    assert!(page.download_href.is_none());
    // The inline bytes serve for the preview...
    let inline = app.download(Some(&bob), &file, "", None);
    assert_eq!(inline.status, 200);
    assert_eq!(inline.bytes, bytes);
    // ...and taking the file away stays the stranger's answer.
    assert_eq!(app.download(Some(&bob), &file, "dl=1", None).status, 404);
    // A preview is not a download: the counter never moves.
    assert_eq!(app.file(&file).unwrap().unwrap().download_count, 0);
    // The owner is offered the download.
    assert!(app.view(&admin, &file).download_href.is_some());
}

#[test]
fn unshare_trashed_target_still_revokes() {
    let mut app = Store::new();
    let admin = app.sign_in("sub-admin", "ada@in.test", "Ada");
    let bob = app.sign_in("sub-bob", "bob@in.test", "Bob");
    let file = app.insert_file(&admin, None, "doomed.txt", b"doomed");
    app.change_grant(Some(&admin), true, "file", &file, "bob@in.test", Some("1"));
    assert_eq!(app.shared(&bob, "").lines[0].name, "doomed.txt");
    // Trash the target: unsharing must still go through for the owner.
    app.set_file_trashed(&file, Some(Moment::now()));
    let location = app.change_grant(Some(&admin), false, "file", &file, "bob@in.test", None);
    assert!(accepted(&location), "remove refused: {location}");
    // Sharing it would not.
    let location = app.change_grant(Some(&admin), true, "file", &file, "bob@in.test", Some("1"));
    assert!(refused(&location, "not-found", "add"), "{location}");
    app.set_file_trashed(&file, None);
    assert!(app.shared(&bob, "").lines.is_empty());
}

// -- trash ---------------------------------------------------------------------

#[test]
fn trash_restore_purge_empty_flows() {
    let mut app = Store::new();
    let admin = app.sign_in("sub-admin", "ada@in.test", "Ada");
    let one = app.insert_file(&admin, None, "one.txt", b"one");
    let two = app.insert_file(&admin, None, "two.txt", b"two");
    app.set_file_trashed(&one, Some(Moment::now()));
    app.set_file_trashed(&two, Some(Moment::now()));
    let page = app.trash(&admin);
    let shown: Vec<&str> = page.lines.iter().map(|line| line.name.as_str()).collect();
    assert!(shown.contains(&"one.txt") && shown.contains(&"two.txt"));
    assert!(page.can_empty);

    assert!(accepted(&app.post_restore(Some(&admin), "file", &one)));
    assert!(app.file(&one).unwrap().unwrap().deleted_at.is_none());
    assert!(accepted(&app.post_purge(Some(&admin), "file", &two)));
    assert!(app.file(&two).unwrap().is_none());

    // Emptying takes the rest.
    let three = app.insert_file(&admin, None, "three.txt", b"three");
    app.set_file_trashed(&three, Some(Moment::now()));
    let page = app.trash(&admin);
    assert_eq!(page.lines.len(), 1);
    assert!(page.can_empty);
    assert!(!accepted(&app.post_empty(None)));
    assert_eq!(app.trashed(&admin).files.len(), 1);
    let location = app.post_empty(Some(&admin));
    assert!(accepted(&location), "{location}");
    assert!(app.trashed(&admin).files.is_empty());
    assert!(app.file(&three).unwrap().is_none());
    assert!(app.file(&one).unwrap().is_some());
    let page = app.trash(&admin);
    assert!(page.lines.is_empty() && !page.can_empty);
    assert_eq!(page.note, Some(t(Lang::En, Key::TrashEmpty)));
}

#[test]
fn restore_under_trashed_ancestor_is_refused() {
    let mut app = Store::new();
    let admin = app.sign_in("sub-admin", "ada@in.test", "Ada");
    let folder = app.insert_folder(&admin, None, "box");
    let file = app.insert_file(&admin, Some(&folder), "inbox.txt", b"in");
    app.set_folder_trashed(&folder, Some(Moment::now()));
    let location = app.post_restore(Some(&admin), "file", &file);
    assert!(refused(&location, "ancestor-trashed", "restore"), "{location}");
    // The folder itself restores with its child.
    assert!(accepted(&app.post_restore(Some(&admin), "folder", &folder)));
    assert!(app.file(&file).unwrap().unwrap().deleted_at.is_none());
}

#[test]
fn folder_purge_destroys_its_tree() {
    let mut app = Store::new();
    let admin = app.sign_in("sub-admin", "ada@in.test", "Ada");
    let folder = app.insert_folder(&admin, None, "doomed");
    let file = app.insert_file(&admin, Some(&folder), "gone.txt", b"gone");
    app.set_folder_trashed(&folder, Some(Moment::now()));
    assert!(accepted(&app.post_purge(Some(&admin), "folder", &folder)));
    assert!(app.folder(&folder).unwrap().is_none());
    assert!(app.file(&file).unwrap().is_none());
}

// -- search --------------------------------------------------------------------

#[test]
fn search_scopes_to_owner_and_hides_trashed() {
    let mut app = Store::new();
    let ada = app.sign_in("sub-admin", "ada@in.test", "Ada");
    let bob = app.sign_in("sub-bob", "bob@in.test", "Bob");
    app.insert_file(&ada, None, "quarterly report.txt", b"a");
    app.insert_file(&bob, None, "quarterly notes.txt", b"b");
    let buried = app.insert_file(&ada, None, "quarterly draft.txt", b"c");
    app.set_file_trashed(&buried, Some(Moment::now()));
    let page = app.drive(Some(&ada), "").unwrap_or_else(|_| panic!("no page"));
    assert!(matches!(page.heading, Heading::Root));
    let page = app.drive(Some(&ada), "q=quarterly").unwrap_or_else(|_| panic!("no page"));
    assert_eq!(names(&page), vec!["quarterly report.txt".to_string()]);
    let page = app.drive(Some(&bob), "q=quarterly").unwrap_or_else(|_| panic!("no page"));
    assert_eq!(names(&page), vec!["quarterly notes.txt".to_string()]);
}

#[test]
fn drive_search_results_merge_into_one_panel() {
    let mut app = Store::new();
    let me = app.sign_in("sub-search-in-place", "inplace@in.test", "InPlace");
    let answer = app.create_folder(Some(&me), "", "holiday photos");
    assert!(accepted(&answer.location));
    let folder = child(&app, &me, None, "holiday photos");
    let file = app.insert_file(&me, None, "holiday report.txt", b"sun");
    let page = app.drive(Some(&me), "q=holiday").unwrap_or_else(|_| panic!("no page"));
    // Both hits in one list, folders first, wired to their surfaces.
    match &page.body {
        DriveBody::Hits(hits) => {
            assert_eq!(hits.len(), 2);
            assert_eq!(hits[0].name, "holiday photos");
            assert_eq!(hits[0].href, format!("/drive?folder={folder}"));
            assert_eq!(hits[1].name, "holiday report.txt");
            assert_eq!(hits[1].href, format!("/view/{file}"));
        }
        _ => panic!("no hits"),
    }
    // The caption names the query and the box keeps it.
    match &page.heading {
        Heading::Results(words) => assert_eq!(words, "Search results “holiday”"),
        _ => panic!("no caption"),
    }
    assert_eq!(page.box_text, "holiday");
}

#[test]
fn drive_search_never_shows_other_owners_hits() {
    let mut app = Store::new();
    let ada = app.sign_in("sub-search-ada", "ada2@in.test", "Ada");
    let bob = app.sign_in("sub-search-bob", "bob2@in.test", "Bob");
    app.insert_file(&bob, None, "secret ledger.txt", b"b");
    app.create_folder(Some(&bob), "", "secret drawer");
    let page = app.drive(Some(&ada), "q=secret").unwrap_or_else(|_| panic!("no page"));
    match page.body {
        DriveBody::NoHits(words) => assert_eq!(words, "Nothing found."),
        _ => panic!("something was found"),
    }
    let page = app.drive(Some(&bob), "q=secret").unwrap_or_else(|_| panic!("no page"));
    assert_eq!(
        names(&page),
        vec!["secret drawer".to_string(), "secret ledger.txt".to_string()]
    );
}

#[test]
fn drive_search_empty_query_is_the_folder_view() {
    let mut app = Store::new();
    let me = app.sign_in("sub-search-empty", "empty@in.test", "Empty");
    app.insert_file(&me, None, "plain.txt", b"p");
    for query in ["q=", "q=  "] {
        let page = app.drive(Some(&me), query).unwrap_or_else(|_| panic!("no page"));
        assert_eq!(names(&page), vec!["plain.txt".to_string()], "{query}");
        assert!(matches!(page.heading, Heading::Root), "{query}");
        assert_eq!(page.box_text, "", "{query}");
    }
}

#[test]
fn old_search_address_redirects_to_drive() {
    assert_eq!(search_redirect("q=quarterly"), "/drive?q=quarterly");
    assert_eq!(search_redirect("q=holiday+report"), "/drive?q=holiday+report");
    assert_eq!(search_redirect(""), "/drive");
}

#[test]
fn topbar_nav_has_no_search_link() {
    let links = topbar_nav(NavPage::Drive, Lang::En);
    let hrefs: Vec<&str> = links.iter().map(|link| link.href).collect();
    // Drive, Shared, Trash, and nothing else.
    assert_eq!(hrefs, vec!["/drive", "/shared", "/trash"]);
    assert_eq!(links[0].class, "topbar-nav topbar-nav-on");
    assert_eq!(links[1].class, "topbar-nav");
}

// -- settings ------------------------------------------------------------------

#[test]
fn settings_quota_and_disable_guards() {
    let mut app = Store::new();
    let admin = app.sign_in("sub-admin", "ada@in.test", "Ada");
    let bob = app.sign_in("sub-bob", "bob@in.test", "Bob");
    assert_eq!(app.settings(&admin, "").email, "ada@in.test");
    // Admin sets Bob's quota in human units: 2 GiB lands as 2147483648 bytes.
    let location = app.save_quota(Some(&admin), &bob, "2", "GiB");
    assert!(accepted(&location), "quota refused: {location}");
    assert_eq!(app.user(&bob).unwrap().unwrap().quota_bytes, 2147483648);
    // A non-admin is refused the same call.
    let location = app.save_quota(Some(&bob), &bob, "999", "MiB");
    assert!(refused(&location, "forbidden", "quota"), "{location}");
    // Disabling yourself is refused; disabling Bob signs him out.
    let location = app.switch(Some(&admin), &admin, Some("1"));
    assert!(refused(&location, "forbidden", "disable"), "{location}");
    let location = app.switch(Some(&admin), &bob, Some("1"));
    assert!(accepted(&location), "disable refused: {location}");
    assert!(matches!(app.asking(Some(&bob)), Err(Refusal::SignInFirst)));
}

#[test]
fn signed_out_mutations_ask_to_sign_in() {
    let mut app = Store::new();
    let location = app.create_link(None, "file", "x", Some("1"), None);
    assert!(refused(&location, "sign-in-first", "create"), "{location}");
    let location = app.revoke_link(None, "x");
    assert!(refused(&location, "sign-in-first", "revoke"), "{location}");
    let location = app.change_grant(None, true, "file", "x", "a@b.c", None);
    assert!(refused(&location, "sign-in-first", "add"), "{location}");
    let location = app.post_restore(None, "file", "x");
    assert!(refused(&location, "sign-in-first", "restore"), "{location}");
    let refusal = app.asking(None).err();
    let location = in_web::trash::redirect_back(None, "empty", refusal);
    assert!(refused(&location, "sign-in-first", "empty"), "{location}");
    let location = app.save_quota(None, "x", "1", "GiB");
    assert!(refused(&location, "sign-in-first", "quota"), "{location}");
    // A never-real token is the dead card, not a stack.
    assert!(app.public("never-real-token", "", None).is_dead());
    assert!(Refusal::ShareRevoked.message_in(Lang::En).contains("no longer works"));
}

#[test]
fn empty_file_upload_round_trip() {
    let mut app = Store::new();
    let me = app.sign_in("sub-empty", "empty@in.test", "Empty");
    let location = app.upload(Some(&me), "", "empty.txt", &[]);
    assert!(accepted(&location), "empty upload was refused: {location}");
    let file = app.children(&me, None).files.remove(0);
    assert_eq!(file.size_bytes, 0);
    let got = app.download(Some(&me), &file.id, "", None);
    assert_eq!(got.status, 200);
    assert!(got.bytes.is_empty());
}

#[test]
fn view_only_download_matches_dead_token() {
    let mut app = Store::new();
    let admin = app.sign_in("sub-admin", "ada@in.test", "Ada");
    let file = app.insert_file(&admin, None, "quiet.txt", b"quiet");
    let location = app.create_link(Some(&admin), "file", &file, Some("0"), None);
    let token = token_in(&location);
    assert!(app.public(&token, "dl=1", None).is_dead());
    assert!(app.public("never-real-token", "", None).is_dead());
}

#[test]
fn malformed_expiry_is_forbidden() {
    let mut app = Store::new();
    let admin = app.sign_in("sub-admin", "ada@in.test", "Ada");
    let file = app.insert_file(&admin, None, "lease.txt", b"lease");
    for raw in ["not-a-number", "0", "-2", "1.5"] {
        let location = app.create_link(Some(&admin), "file", &file, Some("1"), Some(raw));
        assert!(refused(&location, "forbidden", "create"), "{raw:?}: {location}");
    }
    assert!(app.own_links(&admin).is_empty(), "a refused mint left a link behind");
    let location = app.create_link(Some(&admin), "file", &file, Some("1"), Some("30"));
    assert!(accepted(&location), "good expiry refused: {location}");
    assert!(app.own_links(&admin)[0].expires_at.is_some());
    let location = app.create_link(Some(&admin), "file", &file, Some("1"), Some(""));
    assert!(accepted(&location), "empty expiry refused: {location}");
    assert!(app.own_links(&admin).iter().any(|link| link.expires_at.is_none()));
}

#[test]
fn view_only_public_thumb_serves_webp() {
    let mut app = Store::new();
    let admin = app.sign_in("sub-admin", "ada@in.test", "Ada");
    let file = app.insert_file(&admin, None, "dot.png", b"\x89PNG");
    let location = app.create_link(Some(&admin), "file", &file, Some("0"), None);
    let token = token_in(&location);
    // The card previews through the thumb route, never the raw bytes.
    let card = app.public(&token, "", None).card();
    assert!(card.preview.as_deref().is_some_and(|src| src.contains("?thumb=1")));
    assert_eq!(card.download, None);
    let etag = match app.public(&token, "thumb=1", None) {
        Public::Thumb(200, etag) => etag,
        _ => panic!("no thumbnail"),
    };
    assert!(matches!(
        app.public(&token, "thumb=1", Some(&etag)),
        Public::Thumb(304, _)
    ));
    // The full bytes stay behind the download gate even so.
    assert!(app.public(&token, "dl=1", None).is_dead());
    // A dead token's thumb is the dead card, not a stack.
    assert!(app.public("never-real-token", "thumb=1", None).is_dead());
}

#[test]
fn a_name_collision_upload_lands_postfixed() {
    let mut app = Store::new();
    let me = app.sign_in("sub-dupe", "dupe@in.test", "Dupe");
    for body in [b"first" as &[u8], b"second", b"third"] {
        let location = app.upload(Some(&me), "", "same.txt", body);
        assert!(accepted(&location), "upload refused: {location}");
    }
    let page = app.drive(Some(&me), "").unwrap_or_else(|_| panic!("no page"));
    let shown = names(&page);
    for name in ["same.txt", "same (2).txt", "same (3).txt"] {
        assert!(shown.contains(&name.to_string()), "{name}");
    }
}

#[test]
fn settings_preferences_round_trip() {
    let mut app = Store::new();
    let me = app.sign_in("sub-prefs", "prefs@in.test", "Prefs");
    let chrome = root_layout(&app.current(Some(&me)), None);
    assert_eq!(chrome.ui, "instrument");
    assert!(chrome.dark && chrome.asking);
    assert_eq!(chrome.lang, Lang::En);

    let location = app.save_preferences(Some(&me), "ledger", "light", "tr");
    assert!(accepted(&location), "preferences refused: {location}");
    // The redirect carries the saved chip, rendered in the new language.
    let (_, query) = location.split_once('?').unwrap();
    assert_eq!(app.settings(&me, query).banner.saved, Some("Kaydedildi."));
    let chrome = root_layout(&app.current(Some(&me)), None);
    assert_eq!(chrome.ui, "ledger");
    // Light means no dark mark at all.
    assert!(!chrome.dark);
    assert_eq!(chrome.lang.code(), "tr");

    let location = app.save_preferences(Some(&me), "instrument", "dark", "en");
    assert!(accepted(&location), "preferences refused: {location}");
    let page = app.settings(&me, "");
    assert_eq!((page.ui.as_str(), page.theme.as_str(), page.language.as_str()), ("instrument", "dark", "en"));
}

#[test]
fn settings_preferences_rejects_unknown_values() {
    let mut app = Store::new();
    let me = app.sign_in("sub-prefs-bad", "prefsbad@in.test", "PrefsBad");
    let location = app.save_preferences(Some(&me), "mosaic", "light", "en");
    assert!(refused(&location, "bad-ui", "preferences"), "{location}");
    let location = app.save_preferences(Some(&me), "ledger", "dim", "en");
    assert!(refused(&location, "bad-theme", "preferences"), "{location}");
    let location = app.save_preferences(Some(&me), "ledger", "light", "xx");
    assert!(refused(&location, "bad-language", "preferences"), "{location}");
    let page = app.settings(&me, location.split_once('?').unwrap().1);
    assert_eq!(page.banner.refused.as_deref(), Some("That is not a language."));
    assert_eq!((page.ui.as_str(), page.theme.as_str(), page.language.as_str()), ("instrument", "dark", "en"));
    // Signed out, the same post asks to sign in first.
    let location = app.save_preferences(None, "instrument", "dark", "tr");
    assert!(refused(&location, "sign-in-first", "preferences"), "{location}");
}

#[test]
fn signed_out_settings_falls_back_to_accept_language() {
    let app = Store::new();
    let chrome = root_layout(&app.current(None), None);
    assert_eq!(chrome.lang.code(), "en");
    assert!(chrome.dark && !chrome.asking);
    assert_eq!(chrome.ui, "instrument");
    let refusal = app.asking(None).unwrap_err();
    assert_eq!(refusal.message_in(chrome.lang), "Sign in first.");
    let chrome = root_layout(&app.current(None), Some("tr-TR,tr;q=0.9,en;q=0.8"));
    assert_eq!(chrome.lang.code(), "tr");
    assert_eq!(refusal.message_in(chrome.lang), "Önce oturum aç.");
    assert_eq!(t(chrome.lang, Key::BackToDrive), "Sürücüye dön");
    assert_eq!(root_layout(&app.current(None), Some("TR")).lang.code(), "tr");
    assert_eq!(root_layout(&app.current(None), Some("de, tr")).lang.code(), "en");
}

#[test]
fn public_link_dead_card_survives_the_reskin() {
    let app = Store::new();
    assert!(app.public("never-real-token", "", None).is_dead());
}

#[test]
fn drive_root_hides_crumbs_while_a_subfolder_shows_them() {
    let mut app = Store::new();
    let me = app.sign_in("sub-crumbs", "crumbs@in.test", "Crumbs");
    let page = app.drive(Some(&me), "").unwrap_or_else(|_| panic!("no page"));
    assert!(matches!(page.heading, Heading::Root));
    app.create_folder(Some(&me), "", "inside");
    let folder = child(&app, &me, None, "inside");
    let page = app
        .drive(Some(&me), &format!("folder={folder}"))
        .unwrap_or_else(|_| panic!("no page"));
    match &page.heading {
        Heading::Path(crumbs) => assert_eq!(crumbs.last().unwrap().name, "inside"),
        _ => panic!("no way back"),
    }
}

#[test]
fn settings_lives_in_the_user_menu_not_the_topbar() {
    let mut app = Store::new();
    let me = app.sign_in("sub-menu", "menu@in.test", "Menu");
    let links = topbar_nav(NavPage::Settings, Lang::En);
    assert!(links.iter().all(|link| link.href != "/settings"));
    assert!(links.iter().all(|link| link.class == "topbar-nav"));
    assert_eq!(NavPage::Settings.href(), "/settings");
    let user = app.user(&me).unwrap().unwrap();
    let menu = user_menu(&user, "http://127.0.0.1:7654", Lang::En);
    assert_eq!(menu.profile_href, "http://127.0.0.1:7654/");
    assert_eq!(menu.initials, "M");
    assert_eq!(menu.role, Some(t(Lang::En, Key::AdminBadge)));
}

#[test]
fn drive_quick_create_names_and_edits() {
    let mut app = Store::new();
    let me = app.sign_in("sub-quick", "quick@in.test", "Quick");
    // No name: a generic one, and into that row's edit mode.
    let answer = app.create_folder(Some(&me), "", "");
    assert!(answer.location.starts_with("/drive?"), "{}", answer.location);
    let edit = query_value(answer.location.split_once('?').unwrap().1, "edit").expect("no edit id");
    assert_eq!(child(&app, &me, None, "New folder"), edit);
    // A second quick create never refuses.
    let answer = app.create_folder(Some(&me), "", "");
    let second = query_value(answer.location.split_once('?').unwrap().1, "edit").expect("no edit id");
    assert_ne!(edit, second);
    assert_eq!(child(&app, &me, None, "New folder (2)"), second);
    // A typed name keeps the old answer: back to the page, no edit mode.
    let answer = app.create_folder(Some(&me), "", "typed");
    assert!(accepted(&answer.location) && !answer.location.contains("edit="));
    let answer = app.create_folder(Some(&me), "", "typed");
    assert!(accepted(&answer.location));
    child(&app, &me, None, "typed");
    child(&app, &me, None, "typed (2)");
}

#[test]
fn drive_edit_row_renders_the_rename_form() {
    let mut app = Store::new();
    let me = app.sign_in("sub-editrow", "editrow@in.test", "EditRow");
    app.create_folder(Some(&me), "", "plans");
    let id = child(&app, &me, None, "plans");
    let page = app.drive(Some(&me), "").unwrap_or_else(|_| panic!("no page"));
    match &page.body {
        DriveBody::Rows(rows) => {
            assert_eq!(rows[0].href, format!("/drive?folder={id}"));
            assert_eq!(rows[0].edit_href, format!("/drive?edit={id}"));
            assert!(!rows[0].editing);
        }
        _ => panic!("no rows"),
    }
    let page = app
        .drive(Some(&me), &format!("edit={id}"))
        .unwrap_or_else(|_| panic!("no page"));
    match &page.body {
        DriveBody::Rows(rows) => {
            assert!(rows[0].editing);
            assert_eq!(rows[0].name, "plans");
        }
        _ => panic!("no rows"),
    }
}

#[test]
fn drive_lists_folders_before_files_in_one_panel() {
    let mut app = Store::new();
    let me = app.sign_in("sub-merged", "merged@in.test", "Merged");
    // The file's name sorts first alphabetically, so order proves folders lead.
    let file = app.insert_file(&me, None, "aaa file.txt", b"a");
    app.create_folder(Some(&me), "", "mmm folder");
    let folder = child(&app, &me, None, "mmm folder");
    let page = app.drive(Some(&me), "").unwrap_or_else(|_| panic!("no page"));
    match &page.body {
        DriveBody::Rows(rows) => {
            assert_eq!(rows[0].name, "mmm folder");
            assert_eq!(rows[1].name, "aaa file.txt");
            assert!(rows[0].move_href.contains(&format!("move=folder:{folder}")));
            assert!(rows[1].move_href.contains(&format!("move=file:{file}")));
            assert_eq!(rows[1].edit_href, format!("/drive?edit={file}"));
        }
        _ => panic!("no rows"),
    }
    // A folder never offers its own subtree: the drive root is the one row left.
    assert_eq!(app.picker(&me, &folder).len(), 1);
    app.insert_folder(&me, None, "other");
    assert_eq!(app.picker(&me, &folder).len(), 2);
}

#[test]
fn an_empty_folder_says_how_to_fill_it() {
    let mut app = Store::new();
    let me = app.sign_in("sub-empty", "empty@in.test", "Empty");
    let page = app.drive(Some(&me), "").unwrap_or_else(|_| panic!("no page"));
    match page.body {
        DriveBody::NoRows(words) => assert_eq!(
            words,
            "This folder is empty. Press + to create or upload, or drop files on this page."
        ),
        _ => panic!("the folder is not empty"),
    }
}

#[test]
fn a_deep_folder_link_reaches_only_what_lies_under_it() {
    let mut app = Store::new();
    let me = app.sign_in("sub-deep", "deep@in.test", "Deep");
    let top = app.insert_folder(&me, None, "top");
    let inner = app.insert_folder(&me, Some(&top), "inner");
    let beside = app.insert_folder(&me, None, "beside");
    let mut climbed = Vec::new();
    let inside = loop {
        match under_target(&me, &top, &inner, &climbed) {
            in_web::walk::UnderStep::Look(id) => climbed.push(app.folder(&id)),
            in_web::walk::UnderStep::Inside => break true,
            in_web::walk::UnderStep::Outside => break false,
        }
    };
    assert!(inside);
    let mut climbed = Vec::new();
    let inside = loop {
        match under_target(&me, &top, &beside, &climbed) {
            in_web::walk::UnderStep::Look(id) => climbed.push(app.folder(&id)),
            in_web::walk::UnderStep::Inside => break true,
            in_web::walk::UnderStep::Outside => break false,
        }
    };
    assert!(!inside);
}
