//! The machine API: what a service hears of its own files and of its limits.
use crate::address;
use crate::files;
use crate::media;
use crate::model::{File, StoreError, User};
use crate::refusal::Refusal;
use crate::service;
use crate::service::{
    AskModel, FamilyRow, FetchStep, LimitStep, PushModel, ReplyModel, ServiceField,
};
use vstd::prelude::*;

verus! {

/// Whether no field of a form is of the kind of `field`.
pub open spec fn names_no_handle(fields: Seq<ServiceField>) -> bool {
    forall|i: int| 0 <= i < fields.len() ==> !(#[trigger] fields[i] is ExternalId)
}

/// Whether no field of a form names the file.
pub open spec fn names_no_file(fields: Seq<ServiceField>) -> bool {
    forall|i: int| 0 <= i < fields.len() ==> !(#[trigger] fields[i] is Name)
}

/// Whether no field of a form holds bytes.
pub open spec fn holds_no_bytes(fields: Seq<ServiceField>) -> bool {
    forall|i: int| 0 <= i < fields.len() ==> !(#[trigger] fields[i] is File)
}

proof fn lemma_last_handle(before: Seq<ServiceField>, value: Option<String>, after: Seq<ServiceField>)
    requires
        names_no_handle(after),
    ensures
        service::handle_in(before + seq![ServiceField::ExternalId(value)] + after)
            == service::filled(value),
    decreases after.len(),
{
    let whole = before + seq![ServiceField::ExternalId(value)] + after;
    if after.len() > 0 {
        assert(whole.drop_last() =~= before + seq![ServiceField::ExternalId(value)]
            + after.drop_last());
        assert(whole.last() == after.last());
        assert(!(after[after.len() - 1] is ExternalId));
        lemma_last_handle(before, value, after.drop_last());
    } else {
        assert(whole.last() == ServiceField::ExternalId(value));
    }
}

proof fn lemma_last_name(before: Seq<ServiceField>, value: Option<String>, after: Seq<ServiceField>)
    requires
        names_no_file(after),
    ensures
        service::name_in(before + seq![ServiceField::Name(value)] + after) == service::filled(
            value,
        ),
    decreases after.len(),
{
    let whole = before + seq![ServiceField::Name(value)] + after;
    if after.len() > 0 {
        assert(whole.drop_last() =~= before + seq![ServiceField::Name(value)] + after.drop_last());
        assert(whole.last() == after.last());
        assert(!(after[after.len() - 1] is Name));
        lemma_last_name(before, value, after.drop_last());
    } else {
        assert(whole.last() == ServiceField::Name(value));
    }
}

proof fn lemma_last_bytes(before: Seq<ServiceField>, bytes: Vec<u8>, after: Seq<ServiceField>)
    requires
        holds_no_bytes(after),
    ensures
        service::bytes_in(before + seq![ServiceField::File(bytes)] + after) == Some(bytes@),
    decreases after.len(),
{
    let whole = before + seq![ServiceField::File(bytes)] + after;
    if after.len() > 0 {
        assert(whole.drop_last() =~= before + seq![ServiceField::File(bytes)] + after.drop_last());
        assert(whole.last() == after.last());
        assert(!(after[after.len() - 1] is File));
        lemma_last_bytes(before, bytes, after.drop_last());
    } else {
        assert(whole.last() == ServiceField::File(bytes));
    }
}

proof fn lemma_missing_field(fields: Seq<ServiceField>)
    ensures
        names_no_handle(fields) ==> service::handle_in(fields) is None,
        names_no_file(fields) ==> service::name_in(fields) is None,
        holds_no_bytes(fields) ==> service::bytes_in(fields) is None,
    decreases fields.len(),
{
    if fields.len() > 0 {
        lemma_missing_field(fields.drop_last());
        let last = fields[fields.len() - 1];
        assert(names_no_handle(fields) ==> names_no_handle(fields.drop_last()) && !(
        last is ExternalId));
        assert(names_no_file(fields) ==> names_no_file(fields.drop_last()) && !(last is Name));
        assert(holds_no_bytes(fields) ==> holds_no_bytes(fields.drop_last()) && !(last is File));
    }
}

/// A push files exactly the bytes, the name and the handle its form holds, in
/// whatever order the three came.
pub proof fn law_a_push_files_what_it_holds(
    account: User,
    handle: String,
    name: String,
    bytes: Vec<u8>,
    fields: Seq<ServiceField>,
    at: (int, int, int),
)
    requires
        handle@.len() > 0,
        name@.len() > 0,
        !service::broke_off(fields),
        0 <= at.0 < fields.len() && fields[at.0] == ServiceField::ExternalId(Some(handle)),
        0 <= at.1 < fields.len() && fields[at.1] == ServiceField::Name(Some(name)),
        0 <= at.2 < fields.len() && fields[at.2] == ServiceField::File(bytes),
        names_no_handle(fields.skip(at.0 + 1)),
        names_no_file(fields.skip(at.1 + 1)),
        holds_no_bytes(fields.skip(at.2 + 1)),
    ensures
        service::push_after(Some(account), Some(fields)) == PushModel::Insert(
            handle@,
            name@,
            bytes@,
        ),
{
    lemma_last_handle(fields.take(at.0), Some(handle), fields.skip(at.0 + 1));
    lemma_last_name(fields.take(at.1), Some(name), fields.skip(at.1 + 1));
    lemma_last_bytes(fields.take(at.2), bytes, fields.skip(at.2 + 1));
    assert(fields.take(at.0) + seq![ServiceField::ExternalId(Some(handle))] + fields.skip(at.0 + 1)
        =~= fields);
    assert(fields.take(at.1) + seq![ServiceField::Name(Some(name))] + fields.skip(at.1 + 1)
        =~= fields);
    assert(fields.take(at.2) + seq![ServiceField::File(bytes)] + fields.skip(at.2 + 1) =~= fields);
}

/// A push without a handle, a name or bytes is a bad request, one that broke off
/// is unavailable, and nothing is read for a caller without an account.
pub proof fn law_a_push_needs_all_three(account: User, fields: Seq<ServiceField>)
    ensures
        service::push_after(None, Some(fields)) == PushModel::Answer(ReplyModel::Unauthorized),
        service::push_after(None, None) == PushModel::Answer(ReplyModel::Unauthorized),
        service::push_after(Some(account), None) == PushModel::Read,
        service::broke_off(fields) ==> service::push_after(Some(account), Some(fields))
            == PushModel::Answer(ReplyModel::Refused("Unavailable"@)),
        !service::broke_off(fields) && (names_no_handle(fields) || names_no_file(fields)
            || holds_no_bytes(fields)) ==> service::push_after(Some(account), Some(fields))
            == PushModel::Answer(ReplyModel::Refused("BadRequest"@)),
{
    lemma_missing_field(fields);
}

/// A filed push is answered with the file's id, a full store in its own word,
/// and every other failure as unavailable.
pub proof fn law_a_filed_push_names_its_file(id: String, error: StoreError)
    ensures
        service::filed_of(Ok(id)) == ReplyModel::Filed(id@),
        service::filed_of(Err(StoreError::QuotaExceeded)) == ReplyModel::Refused(
            "QuotaExceeded"@,
        ),
        error != StoreError::QuotaExceeded ==> service::filed_of(Err(error)) == ReplyModel::Refused(
            "Unavailable"@,
        ),
{
}

/// Whether a reply says nothing but its status.
pub open spec fn says_only(step: FetchStep, status: u16) -> bool {
    step matches FetchStep::Reply(reply) && reply.status == status && !reply.with_body
        && reply.headers@.len() == 0
}

/// A fetch looks the handle up, then the bytes, and answers with them; a handle
/// or bytes that are not there are a 404, and no account is a 401.
pub proof fn law_a_fetch_answers_with_the_bytes(
    step: FetchStep,
    account: Option<User>,
    found: Option<Result<Option<File>, StoreError>>,
    has_bytes: Option<bool>,
)
    requires
        service::fetch_is(step, account, found, has_bytes),
    ensures
        account is None ==> says_only(step, 401),
        account is Some && found is None ==> step is LookFile,
        account is Some && found is Some && !(found->0 matches Ok(Some(_))) ==> says_only(
            step,
            404,
        ),
        account is Some && (found matches Some(Ok(Some(_)))) && has_bytes is None ==> step
            is LookBytes,
        account is Some && (found matches Some(Ok(Some(_)))) && has_bytes == Some(false)
            ==> says_only(step, 404),
        match (account, found, has_bytes) {
            (Some(_), Some(Ok(Some(file))), Some(true)) => step matches FetchStep::Reply(reply)
                && reply.status == 200 && reply.with_body && files::header_texts(
                reply.headers@,
            ).len() >= 2 && files::header_texts(reply.headers@)[0].0 == "content-disposition"@
                && "attachment"@.is_prefix_of(files::header_texts(reply.headers@)[0].1) && (
            address::fits_header(service::service_disposition(file.name@)) ==> files::header_texts(
                reply.headers@,
            )[0].1 == "attachment; filename=\""@ + media::plain_name(file.name@) + "\""@)
                && files::header_texts(reply.headers@).last() == (
                "cache-control"@,
                "private, max-age=31536000, immutable"@,
            ) && (address::fits_header(file.mime@) ==> files::header_texts(reply.headers@)[1] == (
                "content-type"@,
                file.mime@,
            )),
            _ => true,
        },
{
    match (account, found, has_bytes) {
        (Some(_), Some(Ok(Some(file))), Some(true)) => {
            reveal_strlit("attachment");
            reveal_strlit("attachment; filename=\"");
            let texts = service::service_headers(file);
            assert(texts[0].0 == "content-disposition"@);
            let value = texts[0].1;
            assert(value.subrange(0, "attachment"@.len() as int) =~= "attachment"@);
        },
        _ => {},
    }
}

/// A delete that went through is done, a delete that failed is unavailable.
pub proof fn law_deletes_and_statuses(account: User, row: User, error: StoreError)
    ensures
        service::delete_after(Some(account), None) == AskModel::Ask,
        service::delete_after(Some(account), Some(Ok(()))) == AskModel::Answer(ReplyModel::Done),
        service::delete_after(Some(account), Some(Err(error))) == AskModel::Answer(
            ReplyModel::Refused("Unavailable"@),
        ),
        service::status_after(Some(account), None) == AskModel::Ask,
        service::status_after(Some(account), Some(Ok(Some(row)))) == AskModel::Answer(
            ReplyModel::Status(row.quota_bytes as nat, row.used_bytes as nat),
        ),
        service::status_after(Some(account), Some(Ok(None))) == AskModel::Answer(
            ReplyModel::Refused("Unavailable"@),
        ),
        service::status_after(Some(account), Some(Err(error))) == AskModel::Answer(
            ReplyModel::Refused("Unavailable"@),
        ),
{
}

proof fn lemma_limit_at(family: Seq<FamilyRow>, key: Seq<char>, i: int, at: int)
    requires
        0 <= i <= at < family.len(),
        family[at].key@ == key,
        forall|j: int| i <= j < at ==> (#[trigger] family[j]).key@ != key,
    ensures
        service::limit_in(family, key, i) == family[at].limit_bytes,
    decreases at - i,
{
    if i < at {
        lemma_limit_at(family, key, i + 1, at);
    }
}

proof fn lemma_no_limit(family: Seq<FamilyRow>, key: Seq<char>, i: int)
    requires
        0 <= i <= family.len(),
        forall|j: int| i <= j < family.len() ==> (#[trigger] family[j]).key@ != key,
    ensures
        service::limit_in(family, key, i) is None,
    decreases family.len() - i,
{
    if i < family.len() {
        lemma_no_limit(family, key, i + 1);
    }
}

proof fn lemma_none_failed(outcomes: Seq<Result<(), StoreError>>, i: int)
    requires
        0 <= i <= outcomes.len(),
        forall|j: int| i <= j < outcomes.len() ==> #[trigger] outcomes[j] is Ok,
    ensures
        service::first_failed(outcomes, i) is None,
    decreases outcomes.len() - i,
{
    if i < outcomes.len() {
        lemma_none_failed(outcomes, i + 1);
    }
}

/// Every service that holds a key gets its turn, in the list's order, with the
/// ceiling the directory states for it, or none where it states none, and the
/// house default beside it. After the last one it is done.
pub proof fn law_every_service_gets_its_limit(
    step: LimitStep,
    family: Seq<FamilyRow>,
    services: Vec<String>,
    outcomes: Seq<Result<(), StoreError>>,
    default_quota_bytes: u64,
    at: int,
)
    requires
        service::limits_are(step, family, Some(Ok(services)), outcomes, default_quota_bytes),
        forall|j: int| 0 <= j < outcomes.len() ==> #[trigger] outcomes[j] is Ok,
    ensures
        outcomes.len() >= services@.len() ==> step is Done,
        outcomes.len() < services@.len() ==> match step {
            LimitStep::Apply { service, limit, default_quota_bytes: fallback } => {
                &&& service@ == services@[outcomes.len() as int]@
                &&& fallback == default_quota_bytes
                &&& 0 <= at < family.len() && family[at].key@ == service@ && (forall|j: int|
                    0 <= j < at ==> (#[trigger] family[j]).key@ != service@) ==> limit
                    == family[at].limit_bytes
                &&& (forall|j: int|
                    0 <= j < family.len() ==> (#[trigger] family[j]).key@ != service@) ==> limit
                    is None
            },
            _ => false,
        },
{
    lemma_none_failed(outcomes, 0);
    if outcomes.len() < services@.len() {
        let key = services@[outcomes.len() as int]@;
        if 0 <= at < family.len() && family[at].key@ == key && (forall|j: int|
            0 <= j < at ==> (#[trigger] family[j]).key@ != key) {
            lemma_limit_at(family, key, 0, at);
        }
        if forall|j: int| 0 <= j < family.len() ==> (#[trigger] family[j]).key@ != key {
            lemma_no_limit(family, key, 0);
        }
    }
}

proof fn lemma_first_failed(outcomes: Seq<Result<(), StoreError>>, i: int, at: int)
    requires
        0 <= i <= at < outcomes.len(),
        outcomes[at] is Err,
        forall|j: int| i <= j < at ==> #[trigger] outcomes[j] is Ok,
    ensures
        service::first_failed(outcomes, i) == Some(outcomes[at]->Err_0),
    decreases at - i,
{
    if i < at {
        assert(outcomes[i] is Ok);
        lemma_first_failed(outcomes, i + 1, at);
    }
}

/// The first failure ends the round, and before anything else the services are
/// listed.
pub proof fn law_the_first_failure_ends_the_round(
    step: LimitStep,
    listing: LimitStep,
    unlisted: LimitStep,
    family: Seq<FamilyRow>,
    services: Vec<String>,
    outcomes: Seq<Result<(), StoreError>>,
    default_quota_bytes: u64,
    at: int,
    error: StoreError,
)
    requires
        service::limits_are(step, family, Some(Ok(services)), outcomes, default_quota_bytes),
        service::limits_are(listing, family, None, outcomes, default_quota_bytes),
        service::limits_are(unlisted, family, Some(Err(error)), outcomes, default_quota_bytes),
        0 <= at < outcomes.len(),
        outcomes[at] is Err,
        forall|j: int| 0 <= j < at ==> #[trigger] outcomes[j] is Ok,
    ensures
        step == LimitStep::Failed(outcomes[at]->Err_0),
        listing is List,
        unlisted == LimitStep::Failed(error),
{
    lemma_first_failed(outcomes, 0, at);
}

/// A key can be minted for a service of the family exactly where it holds none
/// yet; without a directory there is no family, and a store that fails to say
/// offers none.
pub proof fn law_keys_are_minted_once(
    rows: Result<Vec<FamilyRow>, Refusal>,
    family: Vec<FamilyRow>,
    keyed: Vec<String>,
    at: int,
)
    requires
        service::mintable(rows, Ok(Some(family)), Ok(keyed)),
    ensures
        rows is Ok,
        forall|i: int, j: int|
            #![trigger rows->Ok_0@[i], keyed@[j]]
            0 <= i < rows->Ok_0@.len() && 0 <= j < keyed@.len() ==> rows->Ok_0@[i].key@
                != keyed@[j]@,
        0 <= at < family@.len() && (forall|j: int|
            0 <= j < keyed@.len() ==> (#[trigger] keyed@[j])@ != family@[at].key@)
            ==> rows->Ok_0@.contains(family@[at]),
{
    service::law_one_key_per_service(family@, keyed@);
    let out = rows->Ok_0@;
    assert forall|i: int, j: int|
        #![trigger out[i], keyed@[j]]
        0 <= i < out.len() && 0 <= j < keyed@.len() implies out[i].key@ != keyed@[j]@ by {
        assert(!service::is_keyed(keyed@, out[i].key@));
    }
}

/// The last field of a name counts: an empty handle or an empty name there is a
/// bad request, whatever came before it.
pub proof fn law_an_empty_field_is_a_bad_request(
    account: User,
    before: Seq<ServiceField>,
    after: Seq<ServiceField>,
    value: Option<String>,
)
    requires
        value is None || value->0@.len() == 0,
    ensures
        ({
            let fields = before + seq![ServiceField::ExternalId(value)] + after;
            names_no_handle(after) && !service::broke_off(fields) ==> service::push_after(
                Some(account),
                Some(fields),
            ) == PushModel::Answer(ReplyModel::Refused("BadRequest"@))
        }),
        ({
            let fields = before + seq![ServiceField::Name(value)] + after;
            names_no_file(after) && !service::broke_off(fields) ==> service::push_after(
                Some(account),
                Some(fields),
            ) == PushModel::Answer(ReplyModel::Refused("BadRequest"@))
        }),
{
    if names_no_handle(after) {
        lemma_last_handle(before, value, after);
    }
    if names_no_file(after) {
        lemma_last_name(before, value, after);
    }
}

} // verus!
