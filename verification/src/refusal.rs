//! Everything a refused call is allowed to say.
//!
//! A browser without script only ever sees a refusal through the address bar,
//! so each one has a short word form beside its sentence.
use crate::i18n::Lang;
use crate::model::StoreError;
use crate::text;
use vstd::prelude::*;

verus! {

/// Why a call was not done.
#[derive(Clone, Copy, Debug, PartialEq, Eq, Structural)]
pub enum Refusal {
    /// No session, a revoked one, or a disabled account: one answer for all
    /// three.
    SignInFirst,
    /// Signed in, but not an admin (or not the owner). Only for surfaces whose
    /// existence is no secret: a cross-owner read is [`Refusal::NotFound`].
    Forbidden,
    /// No such file or folder, or none this account may see.
    NotFound,
    /// The bytes would not fit the remaining quota.
    QuotaExceeded,
    /// A folder with children stays until it is emptied.
    FolderNotEmpty,
    /// The target belongs to somebody else. Worded like
    /// [`Refusal::NotFound`]: a probe must not learn that the target exists.
    CrossOwner,
    /// A share link spent, expired, revoked, or never real.
    ShareRevoked,
    /// The upload session expired or was aborted before the finish landed.
    UploadExpired,
    /// A chunk arrived out of order, twice, or the wrong size.
    BadChunk,
    /// A sibling wears the name already.
    NameTaken,
    /// One file passed the instance upload ceiling.
    UploadTooLarge,
    /// A restore was asked for while an ancestor folder is still trashed.
    AncestorTrashed,
    /// The store failed to say. Never a sign-in prompt.
    Unavailable,
    /// The ui field was not one of the values the form offers.
    BadUi,
    /// The theme field was not one of the values the form offers.
    BadTheme,
    /// The language field was not one of the values the form offers.
    BadLanguage,
    /// A limit form named something unusable: unparseable, or a unit the form
    /// does not offer.
    BadLimit,
    /// The server-address form named something no public link can be built on.
    BadBaseUrl,
    /// A quota form named a service account, whose ceiling is set elsewhere.
    ServiceQuota,
    /// A service key form named a service that cannot take the action.
    BadServiceKey,
}

/// The short word of a refusal.
pub open spec fn code_of(refusal: Refusal) -> Seq<char> {
    match refusal {
        Refusal::SignInFirst => "sign-in-first"@,
        Refusal::Forbidden => "forbidden"@,
        Refusal::NotFound => "not-found"@,
        Refusal::QuotaExceeded => "quota-exceeded"@,
        Refusal::FolderNotEmpty => "folder-not-empty"@,
        Refusal::CrossOwner => "cross-owner"@,
        Refusal::ShareRevoked => "share-revoked"@,
        Refusal::UploadExpired => "upload-expired"@,
        Refusal::BadChunk => "bad-chunk"@,
        Refusal::NameTaken => "name-taken"@,
        Refusal::UploadTooLarge => "upload-too-large"@,
        Refusal::AncestorTrashed => "ancestor-trashed"@,
        Refusal::Unavailable => "unavailable"@,
        Refusal::BadUi => "bad-ui"@,
        Refusal::BadTheme => "bad-theme"@,
        Refusal::BadLanguage => "bad-language"@,
        Refusal::BadLimit => "bad-limit"@,
        Refusal::BadBaseUrl => "bad-base-url"@,
        Refusal::ServiceQuota => "service-quota"@,
        Refusal::BadServiceKey => "bad-service-key"@,
    }
}

/// The sentence of a refusal, in English.
pub open spec fn words_of(refusal: Refusal) -> Seq<char> {
    match refusal {
        Refusal::SignInFirst => "Sign in first."@,
        Refusal::Forbidden => "Not permitted."@,
        Refusal::NotFound => "No such file or folder."@,
        Refusal::QuotaExceeded => "Over quota."@,
        Refusal::FolderNotEmpty => "That folder still has files in it."@,
        Refusal::CrossOwner => "No such file or folder."@,
        Refusal::ShareRevoked => "This link no longer works."@,
        Refusal::UploadExpired => "This upload expired. Start it again."@,
        Refusal::BadChunk => "That piece arrived damaged. Send it again."@,
        Refusal::NameTaken => "That name is taken."@,
        Refusal::UploadTooLarge => "That file is too large."@,
        Refusal::AncestorTrashed => "Restore the folder it is in first."@,
        Refusal::Unavailable => "Something went wrong."@,
        Refusal::BadUi => "That interface choice is not offered."@,
        Refusal::BadTheme => "That is not a theme."@,
        Refusal::BadLanguage => "That is not a language."@,
        Refusal::BadLimit => "That limit is not usable."@,
        Refusal::BadBaseUrl => "That address is not an origin links can be built on."@,
        Refusal::ServiceQuota => "The limit is im's to set."@,
        Refusal::BadServiceKey => "That key is not usable."@,
    }
}

/// The sentence of a refusal, in the reader's language.
pub open spec fn words_in(refusal: Refusal, lang: Lang) -> Seq<char> {
    match lang {
        Lang::En => words_of(refusal),
        Lang::Tr => match refusal {
            Refusal::SignInFirst => "Önce oturum aç."@,
            Refusal::Forbidden => "İzin verilmiyor."@,
            Refusal::NotFound => "Böyle bir dosya ya da klasör yok."@,
            Refusal::QuotaExceeded => "Kota doldu."@,
            Refusal::FolderNotEmpty => "Bu klasörde hâlâ dosyalar var."@,
            Refusal::CrossOwner => "Böyle bir dosya ya da klasör yok."@,
            Refusal::ShareRevoked => "Bu bağlantı artık çalışmıyor."@,
            Refusal::UploadExpired => "Bu yüklemenin süresi doldu. Yeniden başlat."@,
            Refusal::BadChunk => "Bu parça bozuk geldi. Yeniden gönder."@,
            Refusal::NameTaken => "Bu ad alınmış."@,
            Refusal::UploadTooLarge => "Bu dosya çok büyük."@,
            Refusal::AncestorTrashed => "Önce içinde olduğu klasörü geri yükle."@,
            Refusal::Unavailable => "Bir şeyler ters gitti."@,
            Refusal::BadUi => "Bu arayüz seçeneği sunulmuyor."@,
            Refusal::BadTheme => "Bu bir tema değil."@,
            Refusal::BadLanguage => "Bu bir dil değil."@,
            Refusal::BadLimit => "Bu sınır kullanılamaz."@,
            Refusal::BadBaseUrl => "Bu adres, bağlantı kurulabilecek bir kök adres değil."@,
            Refusal::ServiceQuota => "Limit im'de belirlenir."@,
            Refusal::BadServiceKey => "Bu anahtar kullanılamaz."@,
        },
    }
}

/// The refusal a code names, or nothing for a word that is not a code.
pub open spec fn named_by(code: Seq<char>) -> Option<Refusal> {
    if exists|r: Refusal| #[trigger] code_of(r) == code {
        Some(choose|r: Refusal| #[trigger] code_of(r) == code)
    } else {
        None
    }
}

impl Refusal {
    /// The refusal in words.
    pub fn message(&self) -> (r: String)
        ensures
            r@ == words_of(*self),
    {
        match self {
            Refusal::SignInFirst => "Sign in first.".to_owned(),
            Refusal::Forbidden => "Not permitted.".to_owned(),
            Refusal::NotFound => "No such file or folder.".to_owned(),
            Refusal::QuotaExceeded => "Over quota.".to_owned(),
            Refusal::FolderNotEmpty => "That folder still has files in it.".to_owned(),
            Refusal::CrossOwner => "No such file or folder.".to_owned(),
            Refusal::ShareRevoked => "This link no longer works.".to_owned(),
            Refusal::UploadExpired => "This upload expired. Start it again.".to_owned(),
            Refusal::BadChunk => "That piece arrived damaged. Send it again.".to_owned(),
            Refusal::NameTaken => "That name is taken.".to_owned(),
            Refusal::UploadTooLarge => "That file is too large.".to_owned(),
            Refusal::AncestorTrashed => "Restore the folder it is in first.".to_owned(),
            Refusal::Unavailable => "Something went wrong.".to_owned(),
            Refusal::BadUi => "That interface choice is not offered.".to_owned(),
            Refusal::BadTheme => "That is not a theme.".to_owned(),
            Refusal::BadLanguage => "That is not a language.".to_owned(),
            Refusal::BadLimit => "That limit is not usable.".to_owned(),
            Refusal::BadBaseUrl => "That address is not an origin links can be built on.".to_owned(),
            Refusal::ServiceQuota => "The limit is im's to set.".to_owned(),
            Refusal::BadServiceKey => "That key is not usable.".to_owned(),
        }
    }

    /// `message()`, in the reader's language.
    pub fn message_in(&self, lang: Lang) -> (r: String)
        ensures
            r@ == words_in(*self, lang),
    {
        if lang != Lang::Tr {
            return self.message();
        }
        match self {
            Refusal::SignInFirst => "Önce oturum aç.".to_owned(),
            Refusal::Forbidden => "İzin verilmiyor.".to_owned(),
            Refusal::NotFound => "Böyle bir dosya ya da klasör yok.".to_owned(),
            Refusal::QuotaExceeded => "Kota doldu.".to_owned(),
            Refusal::FolderNotEmpty => "Bu klasörde hâlâ dosyalar var.".to_owned(),
            Refusal::CrossOwner => "Böyle bir dosya ya da klasör yok.".to_owned(),
            Refusal::ShareRevoked => "Bu bağlantı artık çalışmıyor.".to_owned(),
            Refusal::UploadExpired => "Bu yüklemenin süresi doldu. Yeniden başlat.".to_owned(),
            Refusal::BadChunk => "Bu parça bozuk geldi. Yeniden gönder.".to_owned(),
            Refusal::NameTaken => "Bu ad alınmış.".to_owned(),
            Refusal::UploadTooLarge => "Bu dosya çok büyük.".to_owned(),
            Refusal::AncestorTrashed => "Önce içinde olduğu klasörü geri yükle.".to_owned(),
            Refusal::Unavailable => "Bir şeyler ters gitti.".to_owned(),
            Refusal::BadUi => "Bu arayüz seçeneği sunulmuyor.".to_owned(),
            Refusal::BadTheme => "Bu bir tema değil.".to_owned(),
            Refusal::BadLanguage => "Bu bir dil değil.".to_owned(),
            Refusal::BadLimit => "Bu sınır kullanılamaz.".to_owned(),
            Refusal::BadBaseUrl => "Bu adres, bağlantı kurulabilecek bir kök adres değil.".to_owned(),
            Refusal::ServiceQuota => "Limit im'de belirlenir.".to_owned(),
            Refusal::BadServiceKey => "Bu anahtar kullanılamaz.".to_owned(),
        }
    }

    /// The refusal a `code` names, or nothing. A word that is not one of ours
    /// says nothing at all rather than something invented.
    pub fn from_code(code: &str) -> (r: Option<Refusal>)
        ensures
            r == named_by(code@),
            match r {
                Some(refusal) => code_of(refusal) == code@,
                None => forall|refusal: Refusal| #[trigger] code_of(refusal) != code@,
            },
    {
        let found = if text::same(code, "sign-in-first") {
            Some(Refusal::SignInFirst)
        } else if text::same(code, "forbidden") {
            Some(Refusal::Forbidden)
        } else if text::same(code, "not-found") {
            Some(Refusal::NotFound)
        } else if text::same(code, "quota-exceeded") {
            Some(Refusal::QuotaExceeded)
        } else if text::same(code, "folder-not-empty") {
            Some(Refusal::FolderNotEmpty)
        } else if text::same(code, "cross-owner") {
            Some(Refusal::CrossOwner)
        } else if text::same(code, "share-revoked") {
            Some(Refusal::ShareRevoked)
        } else if text::same(code, "upload-expired") {
            Some(Refusal::UploadExpired)
        } else if text::same(code, "bad-chunk") {
            Some(Refusal::BadChunk)
        } else if text::same(code, "name-taken") {
            Some(Refusal::NameTaken)
        } else if text::same(code, "upload-too-large") {
            Some(Refusal::UploadTooLarge)
        } else if text::same(code, "ancestor-trashed") {
            Some(Refusal::AncestorTrashed)
        } else if text::same(code, "unavailable") {
            Some(Refusal::Unavailable)
        } else if text::same(code, "bad-ui") {
            Some(Refusal::BadUi)
        } else if text::same(code, "bad-theme") {
            Some(Refusal::BadTheme)
        } else if text::same(code, "bad-language") {
            Some(Refusal::BadLanguage)
        } else if text::same(code, "bad-limit") {
            Some(Refusal::BadLimit)
        } else if text::same(code, "bad-base-url") {
            Some(Refusal::BadBaseUrl)
        } else if text::same(code, "service-quota") {
            Some(Refusal::ServiceQuota)
        } else if text::same(code, "bad-service-key") {
            Some(Refusal::BadServiceKey)
        } else {
            None
        };
        proof {
            match found {
                Some(refusal) => {
                    assert(code_of(refusal) == code@);
                    law_codes_differ(refusal, choose|r: Refusal| #[trigger] code_of(r) == code@);
                },
                None => {},
            }
        }
        found
    }

    /// The refusal as a short word, for the address bar.
    pub fn code(&self) -> (r: &'static str)
        ensures
            r@ == code_of(*self),
    {
        match self {
            Refusal::SignInFirst => "sign-in-first",
            Refusal::Forbidden => "forbidden",
            Refusal::NotFound => "not-found",
            Refusal::QuotaExceeded => "quota-exceeded",
            Refusal::FolderNotEmpty => "folder-not-empty",
            Refusal::CrossOwner => "cross-owner",
            Refusal::ShareRevoked => "share-revoked",
            Refusal::UploadExpired => "upload-expired",
            Refusal::BadChunk => "bad-chunk",
            Refusal::NameTaken => "name-taken",
            Refusal::UploadTooLarge => "upload-too-large",
            Refusal::AncestorTrashed => "ancestor-trashed",
            Refusal::Unavailable => "unavailable",
            Refusal::BadUi => "bad-ui",
            Refusal::BadTheme => "bad-theme",
            Refusal::BadLanguage => "bad-language",
            Refusal::BadLimit => "bad-limit",
            Refusal::BadBaseUrl => "bad-base-url",
            Refusal::ServiceQuota => "service-quota",
            Refusal::BadServiceKey => "bad-service-key",
        }
    }
}

/// No two refusals go by one code.
pub proof fn law_codes_differ(a: Refusal, b: Refusal)
    ensures
        code_of(a) == code_of(b) ==> a == b,
{
    reveal_strlit("sign-in-first");
    reveal_strlit("forbidden");
    reveal_strlit("not-found");
    reveal_strlit("quota-exceeded");
    reveal_strlit("folder-not-empty");
    reveal_strlit("cross-owner");
    reveal_strlit("share-revoked");
    reveal_strlit("upload-expired");
    reveal_strlit("bad-chunk");
    reveal_strlit("name-taken");
    reveal_strlit("upload-too-large");
    reveal_strlit("ancestor-trashed");
    reveal_strlit("unavailable");
    reveal_strlit("bad-ui");
    reveal_strlit("bad-theme");
    reveal_strlit("bad-language");
    reveal_strlit("bad-limit");
    reveal_strlit("bad-base-url");
    reveal_strlit("service-quota");
    reveal_strlit("bad-service-key");
    let (x, y) = (code_of(a), code_of(b));
    if x == y {
        assert(x.len() == y.len());
        assert(x[0] == y[0]);
        assert(x[1] == y[1]);
        assert(x[4] == y[4]);
    }
}

/// Every refusal survives the trip through the address bar.
pub proof fn law_code_round_trip(refusal: Refusal)
    ensures
        named_by(code_of(refusal)) == Some(refusal),
{
    let code = code_of(refusal);
    assert(code_of(refusal) == code);
    law_codes_differ(refusal, choose|r: Refusal| #[trigger] code_of(r) == code);
}

/// A probe of somebody else's row reads the same sentence as a row that is not
/// there, in either language.
pub proof fn law_cross_owner_reads_as_missing(lang: Lang)
    ensures
        words_in(Refusal::CrossOwner, lang) == words_in(Refusal::NotFound, lang),
{
}

/// A code needs no encoding: it holds nothing a query gives a meaning to.
pub proof fn lemma_code_plain(refusal: Refusal)
    ensures
        code_of(refusal).len() > 0,
        forall|i: int|
            0 <= i < code_of(refusal).len() ==> {
                let c = #[trigger] code_of(refusal)[i];
                ('a' <= c && c <= 'z') || c == '-'
            },
{
    match refusal {
        Refusal::SignInFirst => {
            reveal_strlit("sign-in-first");
            assert(code_of(refusal) =~= seq!['s','i','g','n','-','i','n','-','f','i','r','s','t']);
        },
        Refusal::Forbidden => {
            reveal_strlit("forbidden");
            assert(code_of(refusal) =~= seq!['f','o','r','b','i','d','d','e','n']);
        },
        Refusal::NotFound => {
            reveal_strlit("not-found");
            assert(code_of(refusal) =~= seq!['n','o','t','-','f','o','u','n','d']);
        },
        Refusal::QuotaExceeded => {
            reveal_strlit("quota-exceeded");
            assert(code_of(refusal) =~= seq!['q','u','o','t','a','-','e','x','c','e','e','d','e','d']);
        },
        Refusal::FolderNotEmpty => {
            reveal_strlit("folder-not-empty");
            assert(code_of(refusal) =~= seq!['f','o','l','d','e','r','-','n','o','t','-','e','m','p','t','y']);
        },
        Refusal::CrossOwner => {
            reveal_strlit("cross-owner");
            assert(code_of(refusal) =~= seq!['c','r','o','s','s','-','o','w','n','e','r']);
        },
        Refusal::ShareRevoked => {
            reveal_strlit("share-revoked");
            assert(code_of(refusal) =~= seq!['s','h','a','r','e','-','r','e','v','o','k','e','d']);
        },
        Refusal::UploadExpired => {
            reveal_strlit("upload-expired");
            assert(code_of(refusal) =~= seq!['u','p','l','o','a','d','-','e','x','p','i','r','e','d']);
        },
        Refusal::BadChunk => {
            reveal_strlit("bad-chunk");
            assert(code_of(refusal) =~= seq!['b','a','d','-','c','h','u','n','k']);
        },
        Refusal::NameTaken => {
            reveal_strlit("name-taken");
            assert(code_of(refusal) =~= seq!['n','a','m','e','-','t','a','k','e','n']);
        },
        Refusal::UploadTooLarge => {
            reveal_strlit("upload-too-large");
            assert(code_of(refusal) =~= seq!['u','p','l','o','a','d','-','t','o','o','-','l','a','r','g','e']);
        },
        Refusal::AncestorTrashed => {
            reveal_strlit("ancestor-trashed");
            assert(code_of(refusal) =~= seq!['a','n','c','e','s','t','o','r','-','t','r','a','s','h','e','d']);
        },
        Refusal::Unavailable => {
            reveal_strlit("unavailable");
            assert(code_of(refusal) =~= seq!['u','n','a','v','a','i','l','a','b','l','e']);
        },
        Refusal::BadUi => {
            reveal_strlit("bad-ui");
            assert(code_of(refusal) =~= seq!['b','a','d','-','u','i']);
        },
        Refusal::BadTheme => {
            reveal_strlit("bad-theme");
            assert(code_of(refusal) =~= seq!['b','a','d','-','t','h','e','m','e']);
        },
        Refusal::BadLanguage => {
            reveal_strlit("bad-language");
            assert(code_of(refusal) =~= seq!['b','a','d','-','l','a','n','g','u','a','g','e']);
        },
        Refusal::BadLimit => {
            reveal_strlit("bad-limit");
            assert(code_of(refusal) =~= seq!['b','a','d','-','l','i','m','i','t']);
        },
        Refusal::BadBaseUrl => {
            reveal_strlit("bad-base-url");
            assert(code_of(refusal) =~= seq!['b','a','d','-','b','a','s','e','-','u','r','l']);
        },
        Refusal::ServiceQuota => {
            reveal_strlit("service-quota");
            assert(code_of(refusal) =~= seq!['s','e','r','v','i','c','e','-','q','u','o','t','a']);
        },
        Refusal::BadServiceKey => {
            reveal_strlit("bad-service-key");
            assert(code_of(refusal) =~= seq!['b','a','d','-','s','e','r','v','i','c','e','-','k','e','y']);
        },
    }
}

/// The word of a refusal in an answer meant for script.
pub open spec fn name_of(refusal: Refusal) -> Seq<char> {
    match refusal {
        Refusal::SignInFirst => "SignInFirst"@,
        Refusal::Forbidden => "Forbidden"@,
        Refusal::NotFound => "NotFound"@,
        Refusal::QuotaExceeded => "QuotaExceeded"@,
        Refusal::FolderNotEmpty => "FolderNotEmpty"@,
        Refusal::CrossOwner => "CrossOwner"@,
        Refusal::ShareRevoked => "ShareRevoked"@,
        Refusal::UploadExpired => "UploadExpired"@,
        Refusal::BadChunk => "BadChunk"@,
        Refusal::NameTaken => "NameTaken"@,
        Refusal::UploadTooLarge => "UploadTooLarge"@,
        Refusal::AncestorTrashed => "AncestorTrashed"@,
        Refusal::Unavailable => "Unavailable"@,
        Refusal::BadUi => "BadUi"@,
        Refusal::BadTheme => "BadTheme"@,
        Refusal::BadLanguage => "BadLanguage"@,
        Refusal::BadLimit => "BadLimit"@,
        Refusal::BadBaseUrl => "BadBaseUrl"@,
        Refusal::ServiceQuota => "ServiceQuota"@,
        Refusal::BadServiceKey => "BadServiceKey"@,
    }
}

/// The refusal such a word names.
pub open spec fn bearing(name: Seq<char>) -> Option<Refusal> {
    if exists|r: Refusal| #[trigger] name_of(r) == name {
        Some(choose|r: Refusal| #[trigger] name_of(r) == name)
    } else {
        None
    }
}

impl Refusal {
    /// The refusal as an answer meant for script carries it.
    pub fn name(&self) -> (r: &'static str)
        ensures
            r@ == name_of(*self),
    {
        match self {
            Refusal::SignInFirst => "SignInFirst",
            Refusal::Forbidden => "Forbidden",
            Refusal::NotFound => "NotFound",
            Refusal::QuotaExceeded => "QuotaExceeded",
            Refusal::FolderNotEmpty => "FolderNotEmpty",
            Refusal::CrossOwner => "CrossOwner",
            Refusal::ShareRevoked => "ShareRevoked",
            Refusal::UploadExpired => "UploadExpired",
            Refusal::BadChunk => "BadChunk",
            Refusal::NameTaken => "NameTaken",
            Refusal::UploadTooLarge => "UploadTooLarge",
            Refusal::AncestorTrashed => "AncestorTrashed",
            Refusal::Unavailable => "Unavailable",
            Refusal::BadUi => "BadUi",
            Refusal::BadTheme => "BadTheme",
            Refusal::BadLanguage => "BadLanguage",
            Refusal::BadLimit => "BadLimit",
            Refusal::BadBaseUrl => "BadBaseUrl",
            Refusal::ServiceQuota => "ServiceQuota",
            Refusal::BadServiceKey => "BadServiceKey",
        }
    }

    /// The refusal an answer meant for script carries.
    pub fn from_name(name: &str) -> (r: Option<Refusal>)
        ensures
            r == bearing(name@),
    {
        let found = if text::same(name, "SignInFirst") {
            Some(Refusal::SignInFirst)
        } else if text::same(name, "Forbidden") {
            Some(Refusal::Forbidden)
        } else if text::same(name, "NotFound") {
            Some(Refusal::NotFound)
        } else if text::same(name, "QuotaExceeded") {
            Some(Refusal::QuotaExceeded)
        } else if text::same(name, "FolderNotEmpty") {
            Some(Refusal::FolderNotEmpty)
        } else if text::same(name, "CrossOwner") {
            Some(Refusal::CrossOwner)
        } else if text::same(name, "ShareRevoked") {
            Some(Refusal::ShareRevoked)
        } else if text::same(name, "UploadExpired") {
            Some(Refusal::UploadExpired)
        } else if text::same(name, "BadChunk") {
            Some(Refusal::BadChunk)
        } else if text::same(name, "NameTaken") {
            Some(Refusal::NameTaken)
        } else if text::same(name, "UploadTooLarge") {
            Some(Refusal::UploadTooLarge)
        } else if text::same(name, "AncestorTrashed") {
            Some(Refusal::AncestorTrashed)
        } else if text::same(name, "Unavailable") {
            Some(Refusal::Unavailable)
        } else if text::same(name, "BadUi") {
            Some(Refusal::BadUi)
        } else if text::same(name, "BadTheme") {
            Some(Refusal::BadTheme)
        } else if text::same(name, "BadLanguage") {
            Some(Refusal::BadLanguage)
        } else if text::same(name, "BadLimit") {
            Some(Refusal::BadLimit)
        } else if text::same(name, "BadBaseUrl") {
            Some(Refusal::BadBaseUrl)
        } else if text::same(name, "ServiceQuota") {
            Some(Refusal::ServiceQuota)
        } else if text::same(name, "BadServiceKey") {
            Some(Refusal::BadServiceKey)
        } else {
            None
        };
        proof {
            match found {
                Some(refusal) => {
                    assert(name_of(refusal) == name@);
                    law_names_differ(refusal, choose|r: Refusal| #[trigger] name_of(r) == name@);
                },
                None => {},
            }
        }
        found
    }
}

/// No two refusals go by one name.
pub proof fn law_names_differ(a: Refusal, b: Refusal)
    ensures
        name_of(a) == name_of(b) ==> a == b,
{
    reveal_strlit("SignInFirst");
    reveal_strlit("Forbidden");
    reveal_strlit("NotFound");
    reveal_strlit("QuotaExceeded");
    reveal_strlit("FolderNotEmpty");
    reveal_strlit("CrossOwner");
    reveal_strlit("ShareRevoked");
    reveal_strlit("UploadExpired");
    reveal_strlit("BadChunk");
    reveal_strlit("NameTaken");
    reveal_strlit("UploadTooLarge");
    reveal_strlit("AncestorTrashed");
    reveal_strlit("Unavailable");
    reveal_strlit("BadUi");
    reveal_strlit("BadTheme");
    reveal_strlit("BadLanguage");
    reveal_strlit("BadLimit");
    reveal_strlit("BadBaseUrl");
    reveal_strlit("ServiceQuota");
    reveal_strlit("BadServiceKey");
    let (x, y) = (name_of(a), name_of(b));
    if x == y {
        assert(x.len() == y.len());
        assert(x[0] == y[0]);
        assert(x[3] == y[3]);
    }
}

/// Every refusal survives the trip through an answer meant for script.
pub proof fn law_name_round_trip(refusal: Refusal)
    ensures
        bearing(name_of(refusal)) == Some(refusal),
{
    let name = name_of(refusal);
    assert(name_of(refusal) == name);
    law_names_differ(refusal, choose|r: Refusal| #[trigger] name_of(r) == name);
}

/// What a store error is answered with where nothing more can be said.
impl From<StoreError> for Refusal {
    fn from(_problem: StoreError) -> (r: Refusal) {
        Refusal::Unavailable
    }
}

impl vstd::std_specs::convert::FromSpecImpl<StoreError> for Refusal {
    open spec fn obeys_from_spec() -> bool {
        true
    }

    open spec fn from_spec(_problem: StoreError) -> Refusal {
        Refusal::Unavailable
    }
}

} // verus!
