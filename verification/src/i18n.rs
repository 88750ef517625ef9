//! UI strings in two languages.
//!
//! A signed-in reader's saved language decides. A browser with nobody in it is
//! read by its `Accept-Language`: a first tag of `tr` reads Turkish, everything
//! else reads English. An unrecognized tag is not a refusal, just the default.
use crate::text;
use vstd::prelude::*;

verus! {

/// English or Turkish.
#[derive(Clone, Copy, Debug, PartialEq, Eq, Structural)]
pub enum Lang {
    En,
    Tr,
}

/// The code a language goes by.
pub open spec fn code_of(lang: Lang) -> Seq<char> {
    match lang {
        Lang::En => "en"@,
        Lang::Tr => "tr"@,
    }
}

/// The language a code names: `tr` is Turkish, anything else is English.
pub open spec fn lang_of(code: Seq<char>) -> Lang {
    if code == "tr"@ {
        Lang::Tr
    } else {
        Lang::En
    }
}

/// The piece of `s` before the first `c`, without the white space around it.
pub open spec fn leading(s: Seq<char>, c: char) -> Seq<char> {
    text::trimmed(s.take(text::first_at(s, c)))
}

/// The first language tag of an `Accept-Language` value, without its weight
/// and its region.
pub open spec fn first_tag(value: Seq<char>) -> Seq<char> {
    leading(leading(leading(value, ','), ';'), '-')
}

/// The piece of `s` before the first `c`, trimmed.
fn leading_piece(s: &str, c: char) -> (r: String)
    ensures
        r@ == leading(s@, c),
{
    proof {
        text::lemma_first_at(s@, c);
    }
    match text::split_once(s, c) {
        Some((head, _)) => text::trim(&head),
        None => {
            assert(s@.take(s@.len() as int) == s@);
            text::trim(s)
        },
    }
}

impl Lang {
    /// Anything not `tr` is English.
    pub fn from_code(code: &str) -> (r: Lang)
        ensures
            r == lang_of(code@),
    {
        if text::same(code, "tr") {
            Lang::Tr
        } else {
            Lang::En
        }
    }

    /// The first language tag the browser asked for: `tr`, `tr-TR` and
    /// friends read Turkish, the rest read English.
    pub fn from_header(value: &str) -> (r: Lang)
        ensures
            r == lang_of(text::lowercase(first_tag(value@))),
            text::all_ascii(first_tag(value@)) ==> r == lang_of(
                text::ascii_lowered(first_tag(value@)),
            ),
    {
        let first = leading_piece(value, ',');
        let tag = leading_piece(&first, ';');
        let base = leading_piece(&tag, '-').to_lowercase();
        Lang::from_code(&base)
    }

    /// The `<html lang>` value.
    pub fn code(self) -> (r: &'static str)
        ensures
            r@ == code_of(self),
    {
        match self {
            Lang::En => "en",
            Lang::Tr => "tr",
        }
    }
}

/// The language a request is answered in. Cases are folded by `lower`.
pub open spec fn spoken(
    saved: Option<Seq<char>>,
    accept_language: Option<Seq<char>>,
    lower: spec_fn(Seq<char>) -> Seq<char>,
) -> Lang {
    match (saved, accept_language) {
        (Some(code), _) => lang_of(code),
        (None, Some(value)) => lang_of(lower(first_tag(value))),
        (None, None) => Lang::En,
    }
}

/// The language a request is answered in: the reader's saved one while
/// somebody is signed in, else what `Accept-Language` asks for first, else
/// English.
pub fn lang(saved: Option<&str>, accept_language: Option<&str>) -> (r: Lang)
    ensures
        r == spoken(text::opt_str(saved), text::opt_str(accept_language), text::folding()),
        match (text::opt_str(saved), text::opt_str(accept_language)) {
            (None, Some(value)) => text::all_ascii(first_tag(value)) ==> r == spoken(
                None,
                Some(value),
                text::ascii_folding(),
            ),
            _ => true,
        },
{
    match saved {
        Some(code) => Lang::from_code(code),
        None => match accept_language {
            Some(value) => Lang::from_header(value),
            None => Lang::En,
        },
    }
}

/// Reading back the code of a language gives the language.
pub proof fn law_code_round_trip(lang: Lang)
    ensures
        lang_of(code_of(lang)) == lang,
{
    reveal_strlit("en");
    reveal_strlit("tr");
    assert("en"@[0] != "tr"@[0]);
}

/// One variant per UI phrase. A typo'd key fails to compile rather than
/// falling through to nothing at render time.
#[derive(Clone, Copy, Debug, PartialEq, Eq, Structural)]
pub enum Key {
    // Shared chrome.
    Cancel,
    Save,
    Close,
    Delete,
    Rename,
    Move,
    Create,
    Confirm,
    Back,
    Download,
    Retry,
    SomethingWentWrong,
    NothingAtThisAddress,
    BackToDrive,
    // Landing.
    WelcomeTitle,
    WelcomeBlurb,
    SignIn,
    // Topbar.
    NavDrive,
    NavShared,
    NavTrash,
    NavSearch,
    NavSettings,
    SignOut,
    AdminBadge,
    UserMenuLabel,
    // Drive browser.
    Drive,
    NewFolder,
    FolderName,
    CreateFolder,
    RenameFolder,
    MoveFolder,
    DeleteFolder,
    EmptyFolder,
    FoldersHeading,
    FilesHeading,
    NameColumn,
    SizeColumn,
    ModifiedColumn,
    // Upload.
    Upload,
    UploadFile,
    ChooseFiles,
    DropFilesHere,
    Uploading,
    UploadComplete,
    UploadFailed,
    CancelUpload,
    RetryUpload,
    // File view.
    FileDetails,
    PreviewUnavailable,
    RenameFile,
    MoveFile,
    DeleteFile,
    // Share.
    Share,
    ShareLink,
    CopyLink,
    RevokeLink,
    SharedWith,
    ShareWithUser,
    SharePlaceholder,
    CanDownload,
    RemoveAccess,
    SharedWithMe,
    NoSharedItems,
    // Trash.
    Trash,
    TrashEmpty,
    Restore,
    DeleteForever,
    EmptyTrash,
    // Search.
    SearchResults,
    SearchPlaceholder,
    NoResults,
    TypeToSearch,
    // Settings.
    Settings,
    Profile,
    DisplayName,
    EmailAddress,
    QuotaUsage,
    QuotaOf,
    AdminPanel,
    AllUsers,
    SetQuota,
    QuotaBytes,
    DisableUser,
    EnableUser,
    DisabledBadge,
    // Sharing and settings details.
    LinkCreated,
    CopyLinkOnce,
    ExpiresLabel,
    NeverExpires,
    ViewOnly,
    NoLinks,
    ManageLinks,
    UiLabel,
    // Listing controls.
    Sort,
    SortNameAZ,
    SortNameZA,
    SortNewest,
    SortOldest,
    SortLargest,
    SortSmallest,
    SortMostDownloads,
    SortLeastDownloads,
    SortOwnerAZ,
    SortOwnerZA,
    Kind,
    KindAll,
    KindFolders,
    KindFiles,
    // Row details and menus.
    Options,
    UploadedLabel,
    DownloadsLabel,
    DeletedLabel,
    UploadFiles,
    DropFilesToUpload,
    UploadCanceled,
    Saved,
    // Share dialog.
    CreateLink,
    Copied,
    WhoHasAccess,
    YouSuffix,
    OwnerRole,
    PublicLinkLabel,
    NotActive,
    AnyoneWithLink,
    ExpiresInDays,
    // Preferences and limits.
    ThemeLabel,
    LightOption,
    DarkOption,
    LanguageLabel,
    EveryoneSubtitle,
    UploadLimitSection,
    UploadLimitHelp,
    CurrentUploadLimit,
    MaxUploadBytes,
}

/// The words of a phrase.
pub open spec fn phrase(lang: Lang, key: Key) -> Seq<char> {
    match lang {
        Lang::En => match key {
            Key::Cancel => "Cancel"@,
            Key::Save => "Save"@,
            Key::Close => "Close"@,
            Key::Delete => "Delete"@,
            Key::Rename => "Rename"@,
            Key::Move => "Move"@,
            Key::Create => "Create"@,
            Key::Confirm => "Confirm"@,
            Key::Back => "Back"@,
            Key::Download => "Download"@,
            Key::Retry => "Retry"@,
            Key::SomethingWentWrong => "Something went wrong."@,
            Key::NothingAtThisAddress => "There is nothing at this address."@,
            Key::BackToDrive => "Back to the drive"@,
            Key::WelcomeTitle => "In — your files"@,
            Key::WelcomeBlurb => "Your folders and files, shared on your terms."@,
            Key::SignIn => "Sign in"@,
            Key::NavDrive => "Drive"@,
            Key::NavShared => "Shared"@,
            Key::NavTrash => "Trash"@,
            Key::NavSearch => "Search"@,
            Key::NavSettings => "Settings"@,
            Key::SignOut => "Sign out"@,
            Key::AdminBadge => "admin"@,
            Key::UserMenuLabel => "Account"@,
            Key::Drive => "Drive"@,
            Key::NewFolder => "New folder"@,
            Key::FolderName => "Folder name"@,
            Key::CreateFolder => "Create folder"@,
            Key::RenameFolder => "Rename folder"@,
            Key::MoveFolder => "Move folder"@,
            Key::DeleteFolder => "Delete folder"@,
            Key::EmptyFolder => "This folder is empty. Press + to create or upload, or drop files on this page."@,
            Key::FoldersHeading => "Folders"@,
            Key::FilesHeading => "Files"@,
            Key::NameColumn => "Name"@,
            Key::SizeColumn => "Size"@,
            Key::ModifiedColumn => "Changed"@,
            Key::Upload => "Upload"@,
            Key::UploadFile => "Upload files"@,
            Key::ChooseFiles => "Choose files"@,
            Key::DropFilesHere => "Drop files here to upload them."@,
            Key::Uploading => "Uploading…"@,
            Key::UploadComplete => "Upload complete."@,
            Key::UploadFailed => "The upload failed."@,
            Key::CancelUpload => "Cancel the upload"@,
            Key::RetryUpload => "Try again"@,
            Key::FileDetails => "File"@,
            Key::PreviewUnavailable => "No preview for this kind of file."@,
            Key::RenameFile => "Rename file"@,
            Key::MoveFile => "Move file"@,
            Key::DeleteFile => "Delete file"@,
            Key::Share => "Share"@,
            Key::ShareLink => "Share link"@,
            Key::CopyLink => "Copy the link"@,
            Key::RevokeLink => "Revoke the link"@,
            Key::SharedWith => "Shared with"@,
            Key::ShareWithUser => "Share with someone"@,
            Key::SharePlaceholder => "Name or address"@,
            Key::CanDownload => "May download"@,
            Key::RemoveAccess => "Remove access"@,
            Key::SharedWithMe => "Shared with me"@,
            Key::NoSharedItems => "Nothing is shared with you yet."@,
            Key::Trash => "Trash"@,
            Key::TrashEmpty => "The trash is empty."@,
            Key::Restore => "Restore"@,
            Key::DeleteForever => "Delete forever"@,
            Key::EmptyTrash => "Empty the trash"@,
            Key::SearchResults => "Search results"@,
            Key::SearchPlaceholder => "Search files and folders…"@,
            Key::NoResults => "Nothing found."@,
            Key::TypeToSearch => "Type above to search your files."@,
            Key::Settings => "Settings"@,
            Key::Profile => "Profile"@,
            Key::DisplayName => "Name"@,
            Key::EmailAddress => "Address"@,
            Key::QuotaUsage => "Storage used"@,
            Key::QuotaOf => "of"@,
            Key::AdminPanel => "Everyone"@,
            Key::AllUsers => "Everyone"@,
            Key::SetQuota => "Set the quota"@,
            Key::QuotaBytes => "Quota in bytes"@,
            Key::DisableUser => "Disable"@,
            Key::EnableUser => "Enable"@,
            Key::DisabledBadge => "disabled"@,
            Key::LinkCreated => "Link created."@,
            Key::CopyLinkOnce => "Copy it now — it is shown once and never again."@,
            Key::ExpiresLabel => "Expires"@,
            Key::NeverExpires => "Never"@,
            Key::ViewOnly => "View only — preview, no downloads"@,
            Key::NoLinks => "No share links yet."@,
            Key::ManageLinks => "Share links"@,
            Key::UiLabel => "Interface"@,
            Key::Sort => "Sort"@,
            Key::SortNameAZ => "Name, A to Z"@,
            Key::SortNameZA => "Name, Z to A"@,
            Key::SortNewest => "Newest first"@,
            Key::SortOldest => "Oldest first"@,
            Key::SortLargest => "Largest first"@,
            Key::SortSmallest => "Smallest first"@,
            Key::SortMostDownloads => "Most downloads"@,
            Key::SortLeastDownloads => "Fewest downloads"@,
            Key::SortOwnerAZ => "Owner, A to Z"@,
            Key::SortOwnerZA => "Owner, Z to A"@,
            Key::Kind => "Kind"@,
            Key::KindAll => "All"@,
            Key::KindFolders => "Folders"@,
            Key::KindFiles => "Files"@,
            Key::Options => "Options"@,
            Key::UploadedLabel => "Uploaded"@,
            Key::DownloadsLabel => "Downloads"@,
            Key::DeletedLabel => "Deleted"@,
            Key::UploadFiles => "Upload files"@,
            Key::DropFilesToUpload => "Drop files to upload"@,
            Key::UploadCanceled => "Upload canceled."@,
            Key::Saved => "Saved."@,
            Key::CreateLink => "Create link"@,
            Key::Copied => "Copied."@,
            Key::WhoHasAccess => "Who has access"@,
            Key::YouSuffix => "(you)"@,
            Key::OwnerRole => "Owner"@,
            Key::PublicLinkLabel => "Public link"@,
            Key::NotActive => "Not active"@,
            Key::AnyoneWithLink => "Anyone with the link"@,
            Key::ExpiresInDays => "Expires in days"@,
            Key::ThemeLabel => "Theme"@,
            Key::LightOption => "Light"@,
            Key::DarkOption => "Dark"@,
            Key::LanguageLabel => "Language"@,
            Key::EveryoneSubtitle => "Every account, its quota and its switch."@,
            Key::UploadLimitSection => "Upload limit"@,
            Key::UploadLimitHelp => "No single file may be larger than this."@,
            Key::CurrentUploadLimit => "Current limit"@,
            Key::MaxUploadBytes => "Largest file"@,
        },
        Lang::Tr => match key {
            Key::Cancel => "Vazgeç"@,
            Key::Save => "Kaydet"@,
            Key::Close => "Kapat"@,
            Key::Delete => "Sil"@,
            Key::Rename => "Yeniden adlandır"@,
            Key::Move => "Taşı"@,
            Key::Create => "Oluştur"@,
            Key::Confirm => "Onayla"@,
            Key::Back => "Geri"@,
            Key::Download => "İndir"@,
            Key::Retry => "Tekrar dene"@,
            Key::SomethingWentWrong => "Bir şeyler ters gitti."@,
            Key::NothingAtThisAddress => "Bu adreste bir şey yok."@,
            Key::BackToDrive => "Sürücüye dön"@,
            Key::WelcomeTitle => "In — dosyaların"@,
            Key::WelcomeBlurb => "Klasörlerin ve dosyaların, senin kurallarınla."@,
            Key::SignIn => "Oturum aç"@,
            Key::NavDrive => "Sürücü"@,
            Key::NavShared => "Paylaşılan"@,
            Key::NavTrash => "Çöp"@,
            Key::NavSearch => "Ara"@,
            Key::NavSettings => "Ayarlar"@,
            Key::SignOut => "Oturumu kapat"@,
            Key::AdminBadge => "yönetici"@,
            Key::UserMenuLabel => "Hesap"@,
            Key::Drive => "Sürücü"@,
            Key::NewFolder => "Yeni klasör"@,
            Key::FolderName => "Klasör adı"@,
            Key::CreateFolder => "Klasörü oluştur"@,
            Key::RenameFolder => "Klasörü yeniden adlandır"@,
            Key::MoveFolder => "Klasörü taşı"@,
            Key::DeleteFolder => "Klasörü sil"@,
            Key::EmptyFolder => "Bu klasör boş."@,
            Key::FoldersHeading => "Klasörler"@,
            Key::FilesHeading => "Dosyalar"@,
            Key::NameColumn => "Ad"@,
            Key::SizeColumn => "Boyut"@,
            Key::ModifiedColumn => "Değişiklik"@,
            Key::Upload => "Yükle"@,
            Key::UploadFile => "Dosya yükle"@,
            Key::ChooseFiles => "Dosya seç"@,
            Key::DropFilesHere => "Yüklemek için dosyaları buraya bırak."@,
            Key::Uploading => "Yükleniyor…"@,
            Key::UploadComplete => "Yükleme tamamlandı."@,
            Key::UploadFailed => "Yükleme başarısız oldu."@,
            Key::CancelUpload => "Yüklemeyi iptal et"@,
            Key::RetryUpload => "Yeniden dene"@,
            Key::FileDetails => "Dosya"@,
            Key::PreviewUnavailable => "Bu tür dosyanın önizlemesi yok."@,
            Key::RenameFile => "Dosyayı yeniden adlandır"@,
            Key::MoveFile => "Dosyayı taşı"@,
            Key::DeleteFile => "Dosyayı sil"@,
            Key::Share => "Paylaş"@,
            Key::ShareLink => "Paylaşım bağlantısı"@,
            Key::CopyLink => "Bağlantıyı kopyala"@,
            Key::RevokeLink => "Bağlantıyı iptal et"@,
            Key::SharedWith => "Paylaşılanlar"@,
            Key::ShareWithUser => "Biriyle paylaş"@,
            Key::SharePlaceholder => "Ad ya da adres"@,
            Key::CanDownload => "İndirebilir"@,
            Key::RemoveAccess => "Erişimi kaldır"@,
            Key::SharedWithMe => "Benimle paylaşılanlar"@,
            Key::NoSharedItems => "Seninle henüz bir şey paylaşılmadı."@,
            Key::Trash => "Çöp"@,
            Key::TrashEmpty => "Çöp boş."@,
            Key::Restore => "Geri al"@,
            Key::DeleteForever => "Kalıcı olarak sil"@,
            Key::EmptyTrash => "Çöpü boşalt"@,
            Key::SearchResults => "Arama sonuçları"@,
            Key::SearchPlaceholder => "Dosya ve klasör ara…"@,
            Key::NoResults => "Bir şey bulunamadı."@,
            Key::TypeToSearch => "Dosyalarında aramak için yukarı yaz."@,
            Key::Settings => "Ayarlar"@,
            Key::Profile => "Profil"@,
            Key::DisplayName => "Ad"@,
            Key::EmailAddress => "Adres"@,
            Key::QuotaUsage => "Kullanılan alan"@,
            Key::QuotaOf => "/"@,
            Key::AdminPanel => "Herkes"@,
            Key::AllUsers => "Herkes"@,
            Key::SetQuota => "Kotayı ayarla"@,
            Key::QuotaBytes => "Bayt olarak kota"@,
            Key::DisableUser => "Devre dışı bırak"@,
            Key::EnableUser => "Etkinleştir"@,
            Key::DisabledBadge => "devre dışı"@,
            Key::LinkCreated => "Bağlantı oluşturuldu."@,
            Key::CopyLinkOnce => "Şimdi kopyala — bir kez gösterilir, bir daha gösterilmez."@,
            Key::ExpiresLabel => "Bitiş"@,
            Key::NeverExpires => "Süresiz"@,
            Key::ViewOnly => "Yalnızca görüntüleme — önizleme, indirme yok"@,
            Key::NoLinks => "Henüz paylaşım bağlantısı yok."@,
            Key::ManageLinks => "Paylaşım bağlantıları"@,
            Key::UiLabel => "Arayüz"@,
            Key::Sort => "Sırala"@,
            Key::SortNameAZ => "Ad, A-Z"@,
            Key::SortNameZA => "Ad, Z-A"@,
            Key::SortNewest => "Önce en yeni"@,
            Key::SortOldest => "Önce en eski"@,
            Key::SortLargest => "Önce en büyük"@,
            Key::SortSmallest => "Önce en küçük"@,
            Key::SortMostDownloads => "En çok indirilen"@,
            Key::SortLeastDownloads => "En az indirilen"@,
            Key::SortOwnerAZ => "Sahip, A-Z"@,
            Key::SortOwnerZA => "Sahip, Z-A"@,
            Key::Kind => "Tür"@,
            Key::KindAll => "Tümü"@,
            Key::KindFolders => "Klasörler"@,
            Key::KindFiles => "Dosyalar"@,
            Key::Options => "Seçenekler"@,
            Key::UploadedLabel => "Yüklendi"@,
            Key::DownloadsLabel => "İndirme"@,
            Key::DeletedLabel => "Silindi"@,
            Key::UploadFiles => "Dosya yükle"@,
            Key::DropFilesToUpload => "Yüklemek için dosyaları bırak"@,
            Key::UploadCanceled => "Yükleme iptal edildi."@,
            Key::Saved => "Kaydedildi."@,
            Key::CreateLink => "Bağlantı oluştur"@,
            Key::Copied => "Kopyalandı."@,
            Key::WhoHasAccess => "Kimler erişebilir"@,
            Key::YouSuffix => "(sen)"@,
            Key::OwnerRole => "Sahip"@,
            Key::PublicLinkLabel => "Herkese açık bağlantı"@,
            Key::NotActive => "Etkin değil"@,
            Key::AnyoneWithLink => "Bağlantıya sahip herkes"@,
            Key::ExpiresInDays => "Kaç günde biter"@,
            Key::ThemeLabel => "Tema"@,
            Key::LightOption => "Açık"@,
            Key::DarkOption => "Koyu"@,
            Key::LanguageLabel => "Dil"@,
            Key::EveryoneSubtitle => "Her hesap, kotası ve anahtarı."@,
            Key::UploadLimitSection => "Yükleme sınırı"@,
            Key::UploadLimitHelp => "Hiçbir dosya bundan büyük olamaz."@,
            Key::CurrentUploadLimit => "Geçerli sınır"@,
            Key::MaxUploadBytes => "En büyük dosya"@,
        },
    }
}

/// The words of a phrase, in the reader's language.
pub fn t(lang: Lang, key: Key) -> (r: &'static str)
    ensures
        r@ == phrase(lang, key),
{
    match lang {
        Lang::En => match key {
            Key::Cancel => "Cancel",
            Key::Save => "Save",
            Key::Close => "Close",
            Key::Delete => "Delete",
            Key::Rename => "Rename",
            Key::Move => "Move",
            Key::Create => "Create",
            Key::Confirm => "Confirm",
            Key::Back => "Back",
            Key::Download => "Download",
            Key::Retry => "Retry",
            Key::SomethingWentWrong => "Something went wrong.",
            Key::NothingAtThisAddress => "There is nothing at this address.",
            Key::BackToDrive => "Back to the drive",
            Key::WelcomeTitle => "In — your files",
            Key::WelcomeBlurb => "Your folders and files, shared on your terms.",
            Key::SignIn => "Sign in",
            Key::NavDrive => "Drive",
            Key::NavShared => "Shared",
            Key::NavTrash => "Trash",
            Key::NavSearch => "Search",
            Key::NavSettings => "Settings",
            Key::SignOut => "Sign out",
            Key::AdminBadge => "admin",
            Key::UserMenuLabel => "Account",
            Key::Drive => "Drive",
            Key::NewFolder => "New folder",
            Key::FolderName => "Folder name",
            Key::CreateFolder => "Create folder",
            Key::RenameFolder => "Rename folder",
            Key::MoveFolder => "Move folder",
            Key::DeleteFolder => "Delete folder",
            Key::EmptyFolder => "This folder is empty. Press + to create or upload, or drop files on this page.",
            Key::FoldersHeading => "Folders",
            Key::FilesHeading => "Files",
            Key::NameColumn => "Name",
            Key::SizeColumn => "Size",
            Key::ModifiedColumn => "Changed",
            Key::Upload => "Upload",
            Key::UploadFile => "Upload files",
            Key::ChooseFiles => "Choose files",
            Key::DropFilesHere => "Drop files here to upload them.",
            Key::Uploading => "Uploading…",
            Key::UploadComplete => "Upload complete.",
            Key::UploadFailed => "The upload failed.",
            Key::CancelUpload => "Cancel the upload",
            Key::RetryUpload => "Try again",
            Key::FileDetails => "File",
            Key::PreviewUnavailable => "No preview for this kind of file.",
            Key::RenameFile => "Rename file",
            Key::MoveFile => "Move file",
            Key::DeleteFile => "Delete file",
            Key::Share => "Share",
            Key::ShareLink => "Share link",
            Key::CopyLink => "Copy the link",
            Key::RevokeLink => "Revoke the link",
            Key::SharedWith => "Shared with",
            Key::ShareWithUser => "Share with someone",
            Key::SharePlaceholder => "Name or address",
            Key::CanDownload => "May download",
            Key::RemoveAccess => "Remove access",
            Key::SharedWithMe => "Shared with me",
            Key::NoSharedItems => "Nothing is shared with you yet.",
            Key::Trash => "Trash",
            Key::TrashEmpty => "The trash is empty.",
            Key::Restore => "Restore",
            Key::DeleteForever => "Delete forever",
            Key::EmptyTrash => "Empty the trash",
            Key::SearchResults => "Search results",
            Key::SearchPlaceholder => "Search files and folders…",
            Key::NoResults => "Nothing found.",
            Key::TypeToSearch => "Type above to search your files.",
            Key::Settings => "Settings",
            Key::Profile => "Profile",
            Key::DisplayName => "Name",
            Key::EmailAddress => "Address",
            Key::QuotaUsage => "Storage used",
            Key::QuotaOf => "of",
            Key::AdminPanel => "Everyone",
            Key::AllUsers => "Everyone",
            Key::SetQuota => "Set the quota",
            Key::QuotaBytes => "Quota in bytes",
            Key::DisableUser => "Disable",
            Key::EnableUser => "Enable",
            Key::DisabledBadge => "disabled",
            Key::LinkCreated => "Link created.",
            Key::CopyLinkOnce => "Copy it now — it is shown once and never again.",
            Key::ExpiresLabel => "Expires",
            Key::NeverExpires => "Never",
            Key::ViewOnly => "View only — preview, no downloads",
            Key::NoLinks => "No share links yet.",
            Key::ManageLinks => "Share links",
            Key::UiLabel => "Interface",
            Key::Sort => "Sort",
            Key::SortNameAZ => "Name, A to Z",
            Key::SortNameZA => "Name, Z to A",
            Key::SortNewest => "Newest first",
            Key::SortOldest => "Oldest first",
            Key::SortLargest => "Largest first",
            Key::SortSmallest => "Smallest first",
            Key::SortMostDownloads => "Most downloads",
            Key::SortLeastDownloads => "Fewest downloads",
            Key::SortOwnerAZ => "Owner, A to Z",
            Key::SortOwnerZA => "Owner, Z to A",
            Key::Kind => "Kind",
            Key::KindAll => "All",
            Key::KindFolders => "Folders",
            Key::KindFiles => "Files",
            Key::Options => "Options",
            Key::UploadedLabel => "Uploaded",
            Key::DownloadsLabel => "Downloads",
            Key::DeletedLabel => "Deleted",
            Key::UploadFiles => "Upload files",
            Key::DropFilesToUpload => "Drop files to upload",
            Key::UploadCanceled => "Upload canceled.",
            Key::Saved => "Saved.",
            Key::CreateLink => "Create link",
            Key::Copied => "Copied.",
            Key::WhoHasAccess => "Who has access",
            Key::YouSuffix => "(you)",
            Key::OwnerRole => "Owner",
            Key::PublicLinkLabel => "Public link",
            Key::NotActive => "Not active",
            Key::AnyoneWithLink => "Anyone with the link",
            Key::ExpiresInDays => "Expires in days",
            Key::ThemeLabel => "Theme",
            Key::LightOption => "Light",
            Key::DarkOption => "Dark",
            Key::LanguageLabel => "Language",
            Key::EveryoneSubtitle => "Every account, its quota and its switch.",
            Key::UploadLimitSection => "Upload limit",
            Key::UploadLimitHelp => "No single file may be larger than this.",
            Key::CurrentUploadLimit => "Current limit",
            Key::MaxUploadBytes => "Largest file",
        },
        Lang::Tr => match key {
            Key::Cancel => "Vazgeç",
            Key::Save => "Kaydet",
            Key::Close => "Kapat",
            Key::Delete => "Sil",
            Key::Rename => "Yeniden adlandır",
            Key::Move => "Taşı",
            Key::Create => "Oluştur",
            Key::Confirm => "Onayla",
            Key::Back => "Geri",
            Key::Download => "İndir",
            Key::Retry => "Tekrar dene",
            Key::SomethingWentWrong => "Bir şeyler ters gitti.",
            Key::NothingAtThisAddress => "Bu adreste bir şey yok.",
            Key::BackToDrive => "Sürücüye dön",
            Key::WelcomeTitle => "In — dosyaların",
            Key::WelcomeBlurb => "Klasörlerin ve dosyaların, senin kurallarınla.",
            Key::SignIn => "Oturum aç",
            Key::NavDrive => "Sürücü",
            Key::NavShared => "Paylaşılan",
            Key::NavTrash => "Çöp",
            Key::NavSearch => "Ara",
            Key::NavSettings => "Ayarlar",
            Key::SignOut => "Oturumu kapat",
            Key::AdminBadge => "yönetici",
            Key::UserMenuLabel => "Hesap",
            Key::Drive => "Sürücü",
            Key::NewFolder => "Yeni klasör",
            Key::FolderName => "Klasör adı",
            Key::CreateFolder => "Klasörü oluştur",
            Key::RenameFolder => "Klasörü yeniden adlandır",
            Key::MoveFolder => "Klasörü taşı",
            Key::DeleteFolder => "Klasörü sil",
            Key::EmptyFolder => "Bu klasör boş.",
            Key::FoldersHeading => "Klasörler",
            Key::FilesHeading => "Dosyalar",
            Key::NameColumn => "Ad",
            Key::SizeColumn => "Boyut",
            Key::ModifiedColumn => "Değişiklik",
            Key::Upload => "Yükle",
            Key::UploadFile => "Dosya yükle",
            Key::ChooseFiles => "Dosya seç",
            Key::DropFilesHere => "Yüklemek için dosyaları buraya bırak.",
            Key::Uploading => "Yükleniyor…",
            Key::UploadComplete => "Yükleme tamamlandı.",
            Key::UploadFailed => "Yükleme başarısız oldu.",
            Key::CancelUpload => "Yüklemeyi iptal et",
            Key::RetryUpload => "Yeniden dene",
            Key::FileDetails => "Dosya",
            Key::PreviewUnavailable => "Bu tür dosyanın önizlemesi yok.",
            Key::RenameFile => "Dosyayı yeniden adlandır",
            Key::MoveFile => "Dosyayı taşı",
            Key::DeleteFile => "Dosyayı sil",
            Key::Share => "Paylaş",
            Key::ShareLink => "Paylaşım bağlantısı",
            Key::CopyLink => "Bağlantıyı kopyala",
            Key::RevokeLink => "Bağlantıyı iptal et",
            Key::SharedWith => "Paylaşılanlar",
            Key::ShareWithUser => "Biriyle paylaş",
            Key::SharePlaceholder => "Ad ya da adres",
            Key::CanDownload => "İndirebilir",
            Key::RemoveAccess => "Erişimi kaldır",
            Key::SharedWithMe => "Benimle paylaşılanlar",
            Key::NoSharedItems => "Seninle henüz bir şey paylaşılmadı.",
            Key::Trash => "Çöp",
            Key::TrashEmpty => "Çöp boş.",
            Key::Restore => "Geri al",
            Key::DeleteForever => "Kalıcı olarak sil",
            Key::EmptyTrash => "Çöpü boşalt",
            Key::SearchResults => "Arama sonuçları",
            Key::SearchPlaceholder => "Dosya ve klasör ara…",
            Key::NoResults => "Bir şey bulunamadı.",
            Key::TypeToSearch => "Dosyalarında aramak için yukarı yaz.",
            Key::Settings => "Ayarlar",
            Key::Profile => "Profil",
            Key::DisplayName => "Ad",
            Key::EmailAddress => "Adres",
            Key::QuotaUsage => "Kullanılan alan",
            Key::QuotaOf => "/",
            Key::AdminPanel => "Herkes",
            Key::AllUsers => "Herkes",
            Key::SetQuota => "Kotayı ayarla",
            Key::QuotaBytes => "Bayt olarak kota",
            Key::DisableUser => "Devre dışı bırak",
            Key::EnableUser => "Etkinleştir",
            Key::DisabledBadge => "devre dışı",
            Key::LinkCreated => "Bağlantı oluşturuldu.",
            Key::CopyLinkOnce => "Şimdi kopyala — bir kez gösterilir, bir daha gösterilmez.",
            Key::ExpiresLabel => "Bitiş",
            Key::NeverExpires => "Süresiz",
            Key::ViewOnly => "Yalnızca görüntüleme — önizleme, indirme yok",
            Key::NoLinks => "Henüz paylaşım bağlantısı yok.",
            Key::ManageLinks => "Paylaşım bağlantıları",
            Key::UiLabel => "Arayüz",
            Key::Sort => "Sırala",
            Key::SortNameAZ => "Ad, A-Z",
            Key::SortNameZA => "Ad, Z-A",
            Key::SortNewest => "Önce en yeni",
            Key::SortOldest => "Önce en eski",
            Key::SortLargest => "Önce en büyük",
            Key::SortSmallest => "Önce en küçük",
            Key::SortMostDownloads => "En çok indirilen",
            Key::SortLeastDownloads => "En az indirilen",
            Key::SortOwnerAZ => "Sahip, A-Z",
            Key::SortOwnerZA => "Sahip, Z-A",
            Key::Kind => "Tür",
            Key::KindAll => "Tümü",
            Key::KindFolders => "Klasörler",
            Key::KindFiles => "Dosyalar",
            Key::Options => "Seçenekler",
            Key::UploadedLabel => "Yüklendi",
            Key::DownloadsLabel => "İndirme",
            Key::DeletedLabel => "Silindi",
            Key::UploadFiles => "Dosya yükle",
            Key::DropFilesToUpload => "Yüklemek için dosyaları bırak",
            Key::UploadCanceled => "Yükleme iptal edildi.",
            Key::Saved => "Kaydedildi.",
            Key::CreateLink => "Bağlantı oluştur",
            Key::Copied => "Kopyalandı.",
            Key::WhoHasAccess => "Kimler erişebilir",
            Key::YouSuffix => "(sen)",
            Key::OwnerRole => "Sahip",
            Key::PublicLinkLabel => "Herkese açık bağlantı",
            Key::NotActive => "Etkin değil",
            Key::AnyoneWithLink => "Bağlantıya sahip herkes",
            Key::ExpiresInDays => "Kaç günde biter",
            Key::ThemeLabel => "Tema",
            Key::LightOption => "Açık",
            Key::DarkOption => "Koyu",
            Key::LanguageLabel => "Dil",
            Key::EveryoneSubtitle => "Her hesap, kotası ve anahtarı.",
            Key::UploadLimitSection => "Yükleme sınırı",
            Key::UploadLimitHelp => "Hiçbir dosya bundan büyük olamaz.",
            Key::CurrentUploadLimit => "Geçerli sınır",
            Key::MaxUploadBytes => "En büyük dosya",
        },
    }
}

} // verus!
