//! The rows the drive is about, as the store tells them.
use crate::clock::Moment;
use crate::text;
use vstd::prelude::*;

verus! {

/// What a store call fails with.
#[derive(Clone, Copy, Debug, PartialEq, Eq, Structural)]
pub enum StoreError {
    /// No such row.
    NotFound,
    /// The row is somebody else's.
    CrossOwner,
    /// The bytes would not fit the remaining quota.
    QuotaExceeded,
    /// A move would nest a folder inside itself.
    Cycle,
    /// The upload session expired or was aborted.
    UploadExpired,
    /// A chunk of the wrong size or out of range.
    BadChunk,
    /// A sibling wears the name already.
    NameTaken,
    /// An ancestor folder is still trashed.
    AncestorTrashed,
    /// Anything else: a busy or broken database.
    Failed,
}

/// What a share, a trash call or a listing speaks of.
#[derive(Clone, Copy, Debug, PartialEq, Eq, Structural)]
pub enum ShareKind {
    File,
    Folder,
}

/// The word a kind goes by.
pub open spec fn kind_word(kind: ShareKind) -> Seq<char> {
    match kind {
        ShareKind::File => "file"@,
        ShareKind::Folder => "folder"@,
    }
}

impl ShareKind {
    pub fn as_str(self) -> (r: &'static str)
        ensures
            r@ == kind_word(self),
    {
        match self {
            ShareKind::File => "file",
            ShareKind::Folder => "folder",
        }
    }
}

/// Whether a file has a thumbnail to show.
#[derive(Clone, Copy, Debug, PartialEq, Eq, Structural)]
pub enum ThumbState {
    Missing,
    Ready,
}

/// One account.
#[derive(Debug)]
pub struct User {
    pub id: String,
    pub oidc_sub: String,
    pub email: String,
    pub display_name: String,
    pub admin: bool,
    pub disabled: bool,
    pub quota_bytes: u64,
    pub used_bytes: u64,
    pub photo_version: i64,
    pub ui: String,
    pub theme: String,
    pub language: String,
}

/// One folder. No parent is the drive's root.
#[derive(Debug)]
pub struct Folder {
    pub id: String,
    pub owner_id: String,
    pub parent_id: Option<String>,
    pub name: String,
    pub created_at: Moment,
    pub deleted_at: Option<Moment>,
}

/// One file. No folder is the drive's root.
#[derive(Debug)]
pub struct File {
    pub id: String,
    pub owner_id: String,
    pub folder_id: Option<String>,
    pub name: String,
    pub mime: String,
    pub size_bytes: u64,
    pub download_count: u64,
    pub thumb_state: ThumbState,
    pub created_at: Moment,
    pub deleted_at: Option<Moment>,
}

/// A folder's contents, or what a search found.
#[derive(Debug)]
pub struct Listing {
    pub folders: Vec<Folder>,
    pub files: Vec<File>,
}

/// Whether every folder's name stays within ASCII.
pub open spec fn plain_folders(folders: Seq<Folder>) -> bool {
    forall|i: int| 0 <= i < folders.len() ==> text::all_ascii((#[trigger] folders[i]).name@)
}

/// Whether every file's name stays within ASCII.
pub open spec fn plain_files(files: Seq<File>) -> bool {
    forall|i: int| 0 <= i < files.len() ==> text::all_ascii((#[trigger] files[i]).name@)
}

/// Whether every name in a listing stays within ASCII.
pub open spec fn plain_listing(listing: Listing) -> bool {
    plain_folders(listing.folders@) && plain_files(listing.files@)
}

/// One bearer link.
#[derive(Debug)]
pub struct ShareLink {
    pub id: String,
    pub created_by: String,
    pub kind: ShareKind,
    pub target_id: String,
    pub can_download: bool,
    pub expires_at: Option<Moment>,
    pub revoked_at: Option<Moment>,
}

/// One grant, as its grantee sees it.
#[derive(Debug)]
pub struct SharedItem {
    pub kind: ShareKind,
    pub target_id: String,
    pub owner_id: String,
    pub name: String,
    pub can_download: bool,
    pub created_at: Moment,
}

/// One open upload.
#[derive(Debug)]
pub struct UploadSession {
    pub id: String,
    pub owner_id: String,
    pub name: String,
    pub size_bytes: u64,
    pub chunk_size: u64,
    pub received_bytes: u64,
}

impl Clone for User {
    fn clone(&self) -> (r: Self)
        ensures
            r == *self,
    {
        User {
            id: self.id.clone(),
            oidc_sub: self.oidc_sub.clone(),
            email: self.email.clone(),
            display_name: self.display_name.clone(),
            admin: self.admin,
            disabled: self.disabled,
            quota_bytes: self.quota_bytes,
            used_bytes: self.used_bytes,
            photo_version: self.photo_version,
            ui: self.ui.clone(),
            theme: self.theme.clone(),
            language: self.language.clone(),
        }
    }
}

impl Clone for Folder {
    fn clone(&self) -> (r: Self)
        ensures
            r == *self,
    {
        Folder {
            id: self.id.clone(),
            owner_id: self.owner_id.clone(),
            parent_id: text::copy_option(&self.parent_id),
            name: self.name.clone(),
            created_at: self.created_at,
            deleted_at: self.deleted_at,
        }
    }
}

impl Clone for File {
    fn clone(&self) -> (r: Self)
        ensures
            r == *self,
    {
        File {
            id: self.id.clone(),
            owner_id: self.owner_id.clone(),
            folder_id: text::copy_option(&self.folder_id),
            name: self.name.clone(),
            mime: self.mime.clone(),
            size_bytes: self.size_bytes,
            download_count: self.download_count,
            thumb_state: self.thumb_state,
            created_at: self.created_at,
            deleted_at: self.deleted_at,
        }
    }
}

/// Whether a folder is `owner`'s and out of the trash.
pub open spec fn live_folder_of(folder: Folder, owner: Seq<char>) -> bool {
    folder.owner_id@ == owner && folder.deleted_at is None
}

/// Whether a file is `owner`'s and out of the trash.
pub open spec fn live_file_of(file: File, owner: Seq<char>) -> bool {
    file.owner_id@ == owner && file.deleted_at is None
}

impl Folder {
    /// Whether the folder is `owner`'s and out of the trash.
    pub fn live_under(&self, owner: &str) -> (r: bool)
        ensures
            r == live_folder_of(*self, owner@),
    {
        text::same(&self.owner_id, owner) && self.deleted_at.is_none()
    }
}

impl File {
    /// Whether the file is `owner`'s and out of the trash.
    pub fn live_under(&self, owner: &str) -> (r: bool)
        ensures
            r == live_file_of(*self, owner@),
    {
        text::same(&self.owner_id, owner) && self.deleted_at.is_none()
    }
}

} // verus!
