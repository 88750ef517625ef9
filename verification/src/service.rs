//! The machine API: a family service pushes a file under its own handle, fetches
//! it back, takes it away, and reads its quota, by its bearer key.
//!
//! Answers are one flat object: a value, or one word. A missing or spent key is
//! answered with one word whatever was asked, because telling a stranger which
//! keys exist is the leak the shape exists to prevent.
use crate::address;
use crate::files;
use crate::files::{Header, PictureReply};
use crate::media;
use crate::model::{File, StoreError, User};
use crate::refusal::Refusal;
use crate::share;
use crate::share::put_fitting;
use crate::text;
use vstd::prelude::*;

verus! {

/// A machine answer.
#[derive(Debug)]
pub enum Reply {
    /// 401, `err` is `Unauthorized`.
    Unauthorized,
    /// `err` is the word the caller's contract names.
    Refused(&'static str),
    /// `ok` is the filed file's id.
    Filed(String),
    /// `ok` is true.
    Done,
    /// `ok` is true, beside the two numbers.
    Status { quota_bytes: u64, used_bytes: u64 },
}

/// A machine answer as a value.
pub enum ReplyModel {
    Unauthorized,
    Refused(Seq<char>),
    Filed(Seq<char>),
    Done,
    Status(nat, nat),
}

impl View for Reply {
    type V = ReplyModel;

    open spec fn view(&self) -> ReplyModel {
        match *self {
            Reply::Unauthorized => ReplyModel::Unauthorized,
            Reply::Refused(word) => ReplyModel::Refused(word@),
            Reply::Filed(id) => ReplyModel::Filed(id@),
            Reply::Done => ReplyModel::Done,
            Reply::Status { quota_bytes, used_bytes } => ReplyModel::Status(
                quota_bytes as nat,
                used_bytes as nat,
            ),
        }
    }
}

/// The status an answer is sent with.
pub open spec fn status_of(reply: ReplyModel) -> u16 {
    if reply == ReplyModel::Unauthorized {
        401u16
    } else {
        200u16
    }
}

/// The word of a refused answer.
pub open spec fn word_of(reply: ReplyModel) -> Option<Seq<char>> {
    match reply {
        ReplyModel::Unauthorized => Some("Unauthorized"@),
        ReplyModel::Refused(word) => Some(word),
        _ => None,
    }
}

impl Reply {
    /// The status the answer goes out under.
    pub fn status(&self) -> (r: u16)
        ensures
            r == status_of(self@),
    {
        match self {
            Reply::Unauthorized => 401,
            _ => 200,
        }
    }

    /// The word of a refused answer.
    pub fn word(&self) -> (r: Option<&'static str>)
        ensures
            text::opt_str(r) == word_of(self@),
    {
        match self {
            Reply::Unauthorized => Some("Unauthorized"),
            Reply::Refused(word) => Some(*word),
            _ => None,
        }
    }
}

// ---- Pushing a file ----------------------------------------------------------------
/// One field of a push, as the form carries it. A text that could not be read
/// is no text.
#[derive(Debug)]
pub enum ServiceField {
    ExternalId(Option<String>),
    Name(Option<String>),
    File(Vec<u8>),
    Other,
    /// The form broke off.
    Broken,
}

/// The file a push names.
#[derive(Debug)]
pub struct ServiceFile {
    pub external_id: String,
    pub name: String,
    pub bytes: Vec<u8>,
}

/// A field's text, where it has any.
pub open spec fn filled(value: Option<String>) -> Option<Seq<char>> {
    match value {
        Some(value) => if value@.len() > 0 {
            Some(value@)
        } else {
            None
        },
        None => None,
    }
}

/// The handle the last such field gives.
pub open spec fn handle_in(fields: Seq<ServiceField>) -> Option<Seq<char>>
    decreases fields.len(),
{
    if fields.len() == 0 {
        None
    } else {
        match fields.last() {
            ServiceField::ExternalId(value) => filled(value),
            _ => handle_in(fields.drop_last()),
        }
    }
}

/// The name the last such field gives.
pub open spec fn name_in(fields: Seq<ServiceField>) -> Option<Seq<char>>
    decreases fields.len(),
{
    if fields.len() == 0 {
        None
    } else {
        match fields.last() {
            ServiceField::Name(value) => filled(value),
            _ => name_in(fields.drop_last()),
        }
    }
}

/// The bytes the last such field gives.
pub open spec fn bytes_in(fields: Seq<ServiceField>) -> Option<Seq<u8>>
    decreases fields.len(),
{
    if fields.len() == 0 {
        None
    } else {
        match fields.last() {
            ServiceField::File(bytes) => Some(bytes@),
            _ => bytes_in(fields.drop_last()),
        }
    }
}

/// Whether the form broke off.
pub open spec fn broke_off(fields: Seq<ServiceField>) -> bool {
    exists|i: int| 0 <= i < fields.len() && #[trigger] fields[i] is Broken
}

/// What to do next about a push.
#[derive(Debug)]
pub enum PushStep {
    /// Read the form.
    Read,
    /// Hand the file to the store.
    Insert(ServiceFile),
    Answer(Reply),
}

/// What to do next about a push, as a value.
pub enum PushModel {
    Read,
    Insert(Seq<char>, Seq<char>, Seq<u8>),
    Answer(ReplyModel),
}

impl View for PushStep {
    type V = PushModel;

    open spec fn view(&self) -> PushModel {
        match *self {
            PushStep::Read => PushModel::Read,
            PushStep::Insert(file) => PushModel::Insert(file.external_id@, file.name@, file.bytes@),
            PushStep::Answer(reply) => PushModel::Answer(reply@),
        }
    }
}

/// What to do next about a push by the account behind the key. A form that
/// broke off is unavailable, one with a part missing or empty a bad request.
pub open spec fn push_after(account: Option<User>, fields: Option<Seq<ServiceField>>) -> PushModel {
    match (account, fields) {
        (None, _) => PushModel::Answer(ReplyModel::Unauthorized),
        (Some(_), None) => PushModel::Read,
        (Some(_), Some(fields)) => if broke_off(fields) {
            PushModel::Answer(ReplyModel::Refused("Unavailable"@))
        } else {
            match (handle_in(fields), name_in(fields), bytes_in(fields)) {
                (Some(handle), Some(name), Some(bytes)) => PushModel::Insert(handle, name, bytes),
                _ => PushModel::Answer(ReplyModel::Refused("BadRequest"@)),
            }
        },
    }
}

fn filled_text(value: Option<String>) -> (r: Option<String>)
    ensures
        text::opt_text(r) == filled(value),
{
    match value {
        Some(value) => if value.as_str().unicode_len() > 0 {
            Some(value)
        } else {
            None
        },
        None => None,
    }
}

/// What the fields of a push come to, or nothing where the form broke off.
fn gather(fields: Vec<ServiceField>) -> (r: Option<(Option<String>, Option<String>, Option<Vec<u8>>)>)
    ensures
        match r {
            None => broke_off(fields@),
            Some((handle, name, bytes)) => {
                &&& !broke_off(fields@)
                &&& text::opt_text(handle) == handle_in(fields@)
                &&& text::opt_text(name) == name_in(fields@)
                &&& match bytes {
                    Some(bytes) => bytes_in(fields@) == Some(bytes@),
                    None => bytes_in(fields@) is None,
                }
            },
        },
{
    let ghost all = fields@;
    let mut rest = fields;
    let mut handle: Option<String> = None;
    let mut name: Option<String> = None;
    let mut bytes: Option<Vec<u8>> = None;
    let ghost mut k: int = 0;
    while rest.len() > 0
        invariant
            0 <= k,
            k + rest.len() == all.len(),
            rest@ == all.skip(k),
            all == fields@,
            forall|i: int| 0 <= i < k ==> !(#[trigger] all[i] is Broken),
            text::opt_text(handle) == handle_in(all.take(k)),
            text::opt_text(name) == name_in(all.take(k)),
            match bytes {
                Some(bytes) => bytes_in(all.take(k)) == Some(bytes@),
                None => bytes_in(all.take(k)) is None,
            },
        decreases rest.len(),
    {
        let field = rest.remove(0);
        proof {
            assert(all[k] == field);
            assert(all.take(k + 1).drop_last() == all.take(k));
            assert(all.take(k + 1).last() == field);
            assert(rest@ =~= all.skip(k + 1));
            k = k + 1;
        }
        match field {
            ServiceField::ExternalId(value) => {
                handle = filled_text(value);
            },
            ServiceField::Name(value) => {
                name = filled_text(value);
            },
            ServiceField::File(value) => {
                bytes = Some(value);
            },
            ServiceField::Other => {},
            ServiceField::Broken => {
                assert(fields@[k - 1] is Broken);
                return None;
            },
        }
    }
    assert(all.take(k) =~= all);
    Some((handle, name, bytes))
}

/// What to do next about a push, see [`push_after`].
pub fn service_upload(account: &Option<User>, fields: Option<Vec<ServiceField>>) -> (r: PushStep)
    ensures
        r@ == push_after(
            *account,
            match fields {
                Some(fields) => Some(fields@),
                None => None,
            },
        ),
{
    if account.is_none() {
        return PushStep::Answer(Reply::Unauthorized);
    }
    let fields = match fields {
        Some(fields) => fields,
        None => return PushStep::Read,
    };
    match gather(fields) {
        None => PushStep::Answer(Reply::Refused("Unavailable")),
        Some((Some(external_id), Some(name), Some(bytes))) => PushStep::Insert(
            ServiceFile { external_id, name, bytes },
        ),
        Some(_) => PushStep::Answer(Reply::Refused("BadRequest")),
    }
}

/// The answer to a file handed to the store.
pub open spec fn filed_of(outcome: Result<String, StoreError>) -> ReplyModel {
    match outcome {
        Ok(id) => ReplyModel::Filed(id@),
        Err(StoreError::QuotaExceeded) => ReplyModel::Refused("QuotaExceeded"@),
        Err(_) => ReplyModel::Refused("Unavailable"@),
    }
}

/// The answer to a file handed to the store: its id, or the one refusal the
/// contract names, or none that helps.
pub fn service_filed(outcome: Result<String, StoreError>) -> (r: Reply)
    ensures
        r@ == filed_of(outcome),
{
    match outcome {
        Ok(id) => Reply::Filed(id),
        Err(StoreError::QuotaExceeded) => Reply::Refused("QuotaExceeded"),
        Err(_) => Reply::Refused("Unavailable"),
    }
}

// ---- Fetching it back ----------------------------------------------------------------
/// What to do next about a fetch.
#[derive(Debug)]
pub enum FetchStep {
    /// Look the handle up.
    LookFile,
    /// Read the file's bytes.
    LookBytes,
    Reply(PictureReply),
}

/// The `Content-Disposition` of a service download.
pub open spec fn service_disposition(name: Seq<char>) -> Seq<char> {
    "attachment; filename=\""@ + media::plain_name(name) + "\""@
}

/// The headers of a service download.
pub open spec fn service_headers(file: File) -> Seq<(Seq<char>, Seq<char>)> {
    seq![
        (
            "content-disposition"@,
            if address::fits_header(service_disposition(file.name@)) {
                service_disposition(file.name@)
            } else {
                "attachment"@
            },
        ),
    ] + share::fitting("content-type"@, file.mime@) + seq![("cache-control"@, files::forever())]
}

/// Whether a reply is empty, under a status.
pub open spec fn empty_reply(reply: PictureReply, status: u16) -> bool {
    reply.status == status && reply.headers@.len() == 0 && !reply.with_body
}

/// Whether a step is the one a fetch calls for. A handle that names nothing
/// answers the same 404 an unreadable one does.
pub open spec fn fetch_is(
    step: FetchStep,
    account: Option<User>,
    file: Option<Result<Option<File>, StoreError>>,
    has_bytes: Option<bool>,
) -> bool {
    match (account, file, has_bytes) {
        (None, _, _) => step matches FetchStep::Reply(reply) && empty_reply(reply, 401),
        (Some(_), None, _) => step is LookFile,
        (Some(_), Some(Ok(Some(_))), None) => step is LookBytes,
        (Some(_), Some(Ok(Some(file))), Some(true)) => step matches FetchStep::Reply(reply)
            && reply.status == 200 && reply.with_body && files::header_texts(reply.headers@)
            == service_headers(file),
        _ => step matches FetchStep::Reply(reply) && empty_reply(reply, 404),
    }
}

fn bare(status: u16) -> (r: FetchStep)
    ensures
        r matches FetchStep::Reply(reply) && empty_reply(reply, status),
{
    FetchStep::Reply(PictureReply { status, headers: Vec::new(), with_body: false })
}

/// What to do next about a fetch: the bytes, under the same download headers the
/// drive serves, and a year of `immutable`, because the handle can never outlive
/// its bytes.
pub fn service_download(
    account: &Option<User>,
    file: Option<&Result<Option<File>, StoreError>>,
    has_bytes: Option<bool>,
) -> (r: FetchStep)
    ensures
        fetch_is(
            r,
            *account,
            match file {
                Some(file) => Some(*file),
                None => None,
            },
            has_bytes,
        ),
{
    if account.is_none() {
        return bare(401);
    }
    let file = match file {
        None => return FetchStep::LookFile,
        Some(Ok(Some(file))) => file,
        Some(_) => return bare(404),
    };
    match has_bytes {
        None => FetchStep::LookBytes,
        Some(false) => bare(404),
        Some(true) => {
            let mut disposition = text::glue(
                "attachment; filename=\"",
                &media::ascii_name(&file.name),
            );
            disposition.append("\"");
            let mut headers: Vec<Header> = Vec::new();
            files::put_header(
                &mut headers,
                "content-disposition",
                address::header_or(&disposition, "attachment"),
            );
            put_fitting(&mut headers, "content-type", &file.mime);
            files::put_header(&mut headers, "cache-control", "private, max-age=31536000, immutable");
            assert(files::header_texts(headers@) =~= service_headers(*file));
            FetchStep::Reply(PictureReply { status: 200, headers, with_body: true })
        },
    }
}

// ---- Taking it away, and reading the quota -----------------------------------------
/// What to do next about a call that asks the store one thing.
#[derive(Debug)]
pub enum AskStep {
    /// Ask the store.
    Ask,
    Answer(Reply),
}

/// What to do next about a call that asks the store one thing, as a value.
pub enum AskModel {
    Ask,
    Answer(ReplyModel),
}

impl View for AskStep {
    type V = AskModel;

    open spec fn view(&self) -> AskModel {
        match *self {
            AskStep::Ask => AskModel::Ask,
            AskStep::Answer(reply) => AskModel::Answer(reply@),
        }
    }
}

/// What to do next about a delete. A machine client's delete is a delete, also
/// of what is not there.
pub open spec fn delete_after(account: Option<User>, outcome: Option<Result<(), StoreError>>) -> AskModel {
    match (account, outcome) {
        (None, _) => AskModel::Answer(ReplyModel::Unauthorized),
        (Some(_), None) => AskModel::Ask,
        (Some(_), Some(Ok(_))) => AskModel::Answer(ReplyModel::Done),
        (Some(_), Some(Err(_))) => AskModel::Answer(ReplyModel::Refused("Unavailable"@)),
    }
}

/// What to do next about a delete, see [`delete_after`].
pub fn service_delete(account: &Option<User>, outcome: Option<Result<(), StoreError>>) -> (r: AskStep)
    ensures
        r@ == delete_after(*account, outcome),
{
    if account.is_none() {
        return AskStep::Answer(Reply::Unauthorized);
    }
    match outcome {
        None => AskStep::Ask,
        Some(Ok(_)) => AskStep::Answer(Reply::Done),
        Some(Err(_)) => AskStep::Answer(Reply::Refused("Unavailable")),
    }
}

/// What to do next about a quota question: the account's ceiling and what it
/// holds, off its fresh row.
pub open spec fn status_after(
    account: Option<User>,
    fresh: Option<Result<Option<User>, StoreError>>,
) -> AskModel {
    match (account, fresh) {
        (None, _) => AskModel::Answer(ReplyModel::Unauthorized),
        (Some(_), None) => AskModel::Ask,
        (Some(_), Some(Ok(Some(row)))) => AskModel::Answer(
            ReplyModel::Status(row.quota_bytes as nat, row.used_bytes as nat),
        ),
        (Some(_), Some(_)) => AskModel::Answer(ReplyModel::Refused("Unavailable"@)),
    }
}

/// What to do next about a quota question, see [`status_after`].
pub fn service_status(
    account: &Option<User>,
    fresh: Option<&Result<Option<User>, StoreError>>,
) -> (r: AskStep)
    ensures
        r@ == status_after(
            *account,
            match fresh {
                Some(fresh) => Some(*fresh),
                None => None,
            },
        ),
{
    if account.is_none() {
        return AskStep::Answer(Reply::Unauthorized);
    }
    match fresh {
        None => AskStep::Ask,
        Some(Ok(Some(row))) => AskStep::Answer(
            Reply::Status { quota_bytes: row.quota_bytes, used_bytes: row.used_bytes },
        ),
        Some(_) => AskStep::Answer(Reply::Refused("Unavailable")),
    }
}

/// Without a key that opens, every call reads nothing and is answered the one
/// word, whatever it asked; a fetch, which has no words, the bare status.
pub proof fn law_a_stranger_hears_one_word(
    fields: Option<Seq<ServiceField>>,
    outcome: Option<Result<(), StoreError>>,
    fresh: Option<Result<Option<User>, StoreError>>,
    step: FetchStep,
    file: Option<Result<Option<File>, StoreError>>,
    has_bytes: Option<bool>,
)
    ensures
        push_after(None, fields) == PushModel::Answer(ReplyModel::Unauthorized),
        delete_after(None, outcome) == AskModel::Answer(ReplyModel::Unauthorized),
        status_after(None, fresh) == AskModel::Answer(ReplyModel::Unauthorized),
        fetch_is(step, None, file, has_bytes) ==> match step {
            FetchStep::Reply(reply) => empty_reply(reply, 401),
            _ => false,
        },
{
}

// ---- The family ----------------------------------------------------------------------
/// One service of the family, as its directory lists it.
#[derive(Debug)]
pub struct FamilyRow {
    pub key: String,
    pub name: String,
    pub url: String,
    /// The ceiling the directory states for the service, if it states one.
    pub limit_bytes: Option<u64>,
}

/// The ceiling the first row of a key states, from `i` on.
pub open spec fn limit_in(family: Seq<FamilyRow>, key: Seq<char>, i: int) -> Option<u64>
    decreases family.len() - i,
{
    if i < 0 || i >= family.len() {
        None
    } else if family[i].key@ == key {
        family[i].limit_bytes
    } else {
        limit_in(family, key, i + 1)
    }
}

/// The ceiling the family states for a service, if it states one.
pub fn family_limit(family: &Vec<FamilyRow>, key: &str) -> (r: Option<u64>)
    ensures
        r == limit_in(family@, key@, 0),
{
    let mut i: usize = 0;
    while i < family.len()
        invariant
            i <= family.len(),
            limit_in(family@, key@, 0) == limit_in(family@, key@, i as int),
        decreases family.len() - i,
    {
        if text::same(&family[i].key, key) {
            return family[i].limit_bytes;
        }
        i += 1;
    }
    None
}

/// What to do next about the family's limits.
#[derive(Debug)]
pub enum LimitStep {
    /// List the services that hold a key.
    List,
    /// Give the service this ceiling, or the house default where it has none.
    Apply { service: String, limit: Option<u64>, default_quota_bytes: u64 },
    Done,
    /// The store failed; the next beat asks again.
    Failed(StoreError),
}

/// The first failed write from `i` on.
pub open spec fn first_failed(outcomes: Seq<Result<(), StoreError>>, i: int) -> Option<StoreError>
    decreases outcomes.len() - i,
{
    if i < 0 || i >= outcomes.len() {
        None
    } else {
        match outcomes[i] {
            Err(error) => Some(error),
            Ok(_) => first_failed(outcomes, i + 1),
        }
    }
}

/// Whether a step is the one the family's limits call for: every keyed service
/// in turn, and none after a failure.
pub open spec fn limits_are(
    step: LimitStep,
    family: Seq<FamilyRow>,
    services: Option<Result<Vec<String>, StoreError>>,
    outcomes: Seq<Result<(), StoreError>>,
    default_quota_bytes: u64,
) -> bool {
    match services {
        None => step is List,
        Some(Err(error)) => step == LimitStep::Failed(error),
        Some(Ok(services)) => match first_failed(outcomes, 0) {
            Some(error) => step == LimitStep::Failed(error),
            None => if outcomes.len() < services@.len() {
                step matches LimitStep::Apply { service, limit, default_quota_bytes: fallback }
                    && service@ == services@[outcomes.len() as int]@ && limit == limit_in(
                    family,
                    service@,
                    0,
                ) && fallback == default_quota_bytes
            } else {
                step is Done
            },
        },
    }
}

fn failed_among(outcomes: &Vec<Result<(), StoreError>>) -> (r: Option<StoreError>)
    ensures
        r == first_failed(outcomes@, 0),
{
    let mut i: usize = 0;
    while i < outcomes.len()
        invariant
            i <= outcomes.len(),
            first_failed(outcomes@, 0) == first_failed(outcomes@, i as int),
        decreases outcomes.len() - i,
    {
        match outcomes[i] {
            Err(error) => return Some(error),
            Ok(_) => {},
        }
        i += 1;
    }
    None
}

/// Takes every service key's ceiling from a freshly fetched family: the limit
/// the directory states for the service's key, or the house default when it
/// states none.
pub fn apply_family_limits(
    family: &Vec<FamilyRow>,
    services: Option<&Result<Vec<String>, StoreError>>,
    outcomes: &Vec<Result<(), StoreError>>,
    default_quota_bytes: u64,
) -> (r: LimitStep)
    ensures
        limits_are(
            r,
            family@,
            match services {
                Some(services) => Some(*services),
                None => None,
            },
            outcomes@,
            default_quota_bytes,
        ),
{
    let services = match services {
        None => return LimitStep::List,
        Some(Err(error)) => return LimitStep::Failed(*error),
        Some(Ok(services)) => services,
    };
    if let Some(error) = failed_among(outcomes) {
        return LimitStep::Failed(error);
    }
    if outcomes.len() < services.len() {
        let service = services[outcomes.len()].clone();
        let limit: Option<u64> = family_limit(family, &service);
        LimitStep::Apply { service, limit, default_quota_bytes }
    } else {
        LimitStep::Done
    }
}

/// Whether a key is among the keyed services.
pub open spec fn is_keyed(keyed: Seq<String>, key: Seq<char>) -> bool {
    exists|i: int| 0 <= i < keyed.len() && (#[trigger] keyed[i])@ == key
}

/// The rows not keyed yet, in their order.
pub open spec fn unkeyed(family: Seq<FamilyRow>, keyed: Seq<String>) -> Seq<FamilyRow>
    decreases family.len(),
{
    if family.len() == 0 {
        Seq::empty()
    } else if is_keyed(keyed, family.last().key@) {
        unkeyed(family.drop_last(), keyed)
    } else {
        unkeyed(family.drop_last(), keyed).push(family.last())
    }
}

fn holds_key(keyed: &Vec<String>, key: &str) -> (r: bool)
    ensures
        r == is_keyed(keyed@, key@),
{
    let mut i: usize = 0;
    while i < keyed.len()
        invariant
            i <= keyed.len(),
            forall|k: int| 0 <= k < i ==> (#[trigger] keyed@[k])@ != key@,
        decreases keyed.len() - i,
    {
        if text::same(&keyed[i], key) {
            assert(keyed@[i as int]@ == key@);
            return true;
        }
        i += 1;
    }
    false
}

fn without_keyed(family: Vec<FamilyRow>, keyed: &Vec<String>) -> (r: Vec<FamilyRow>)
    ensures
        r@ == unkeyed(family@, keyed@),
{
    let ghost all = family@;
    let mut rest = family;
    let mut out: Vec<FamilyRow> = Vec::new();
    let ghost mut k: int = 0;
    while rest.len() > 0
        invariant
            0 <= k,
            k + rest.len() == all.len(),
            rest@ == all.skip(k),
            out@ == unkeyed(all.take(k), keyed@),
        decreases rest.len(),
    {
        let row = rest.remove(0);
        proof {
            assert(all[k] == row);
            assert(all.take(k + 1).drop_last() == all.take(k));
            assert(all.take(k + 1).last() == row);
            assert(rest@ =~= all.skip(k + 1));
            k = k + 1;
        }
        if !holds_key(keyed, &row.key) {
            out.push(row);
        }
    }
    assert(all.take(k) =~= all);
    out
}

/// Whether rows are the services a key can be minted for, see
/// [`mintable_services`].
pub open spec fn mintable(
    rows: Result<Vec<FamilyRow>, Refusal>,
    family: Result<Option<Vec<FamilyRow>>, StoreError>,
    keyed: Result<Vec<String>, StoreError>,
) -> bool {
    match (family, keyed) {
        (Ok(Some(family)), Ok(keyed)) => rows matches Ok(rows) && rows@ == unkeyed(
            family@,
            keyed@,
        ),
        (Ok(None), Ok(_)) => rows matches Ok(rows) && rows@.len() == 0,
        _ => rows == Err::<Vec<FamilyRow>, Refusal>(Refusal::Unavailable),
    }
}

/// The mintable services: named by the family's last filed list, and not keyed
/// yet. A list never filed, or not readable, names none.
pub fn mintable_services(
    family: Result<Option<Vec<FamilyRow>>, StoreError>,
    keyed: &Result<Vec<String>, StoreError>,
) -> (r: Result<Vec<FamilyRow>, Refusal>)
    ensures
        mintable(r, family, *keyed),
{
    match (family, keyed) {
        (Ok(Some(family)), Ok(keyed)) => Ok(without_keyed(family, keyed)),
        (Ok(None), Ok(_)) => Ok(Vec::new()),
        _ => Err(Refusal::Unavailable),
    }
}

/// A keyed service is never offered a second key, and every other one of the
/// family is offered one.
pub proof fn law_one_key_per_service(family: Seq<FamilyRow>, keyed: Seq<String>)
    ensures
        forall|i: int|
            0 <= i < unkeyed(family, keyed).len() ==> !is_keyed(
                keyed,
                (#[trigger] unkeyed(family, keyed)[i]).key@,
            ),
        forall|i: int|
            0 <= i < family.len() && !is_keyed(keyed, (#[trigger] family[i]).key@) ==> unkeyed(
                family,
                keyed,
            ).contains(family[i]),
    decreases family.len(),
{
    if family.len() > 0 {
        law_one_key_per_service(family.drop_last(), keyed);
        let head = unkeyed(family.drop_last(), keyed);
        let whole = unkeyed(family, keyed);
        assert forall|i: int|
            0 <= i < family.len() && !is_keyed(
                keyed,
                (#[trigger] family[i]).key@,
            ) implies whole.contains(family[i]) by {
            if i < family.len() - 1 {
                assert(family.drop_last()[i] == family[i]);
                let at = choose|at: int| 0 <= at < head.len() && head[at] == family[i];
                assert(whole[at] == family[i]);
            } else {
                assert(whole[whole.len() - 1] == family[i]);
            }
        }
    }
}

} // verus!
