//! Every provisioned member's face.
//!
//! What admits is the session, not the id: any signed-in browser may fetch any
//! member's face. Caching is by version: the tag is the row's photo version, and
//! an address that already carries that version is kept for a year, so a changed
//! photo is a changed address. Any other spelling revalidates.
use crate::address;
use crate::files;
use crate::files::{Header, PictureReply};
use crate::model::{StoreError, User};
use crate::query;
use crate::refusal::Refusal;
use crate::text;
use vstd::prelude::*;

verus! {

/// What the identity directory said about a photo.
#[derive(Debug)]
pub enum PhotoReply {
    Unasked,
    /// It did not answer.
    Failed,
    /// It answered bytes of this type.
    Bytes(String),
}

/// What to do next about a face.
#[derive(Debug)]
pub enum AvatarStep {
    /// Look the member's row up.
    LookRow,
    /// Ask the directory for the photo of this subject.
    LookPhoto(String),
    Reply(PictureReply),
}

/// The tag of a photo version.
pub open spec fn version_tag(version: int) -> Seq<char> {
    "\"p"@ + text::int_numeral(version) + "\""@
}

/// Whether the address carries the row's own photo version.
pub open spec fn is_stamped(query: Option<Seq<char>>, version: int) -> bool {
    match query {
        Some(query) => query::value_of(query, "v"@) == Some(text::int_numeral(version)),
        None => false,
    }
}

/// The headers every face carries.
pub open spec fn version_headers(query: Option<Seq<char>>, version: int) -> Seq<(Seq<char>, Seq<char>)> {
    seq![
        ("etag"@, version_tag(version)),
        (
            "cache-control"@,
            if is_stamped(query, version) {
                files::forever()
            } else {
                "private, no-cache"@
            },
        ),
    ]
}

/// Whether a step is the one a request for a face calls for. An unknown id, a
/// failing store and a silent directory read the same.
pub open spec fn avatar_is(
    step: AvatarStep,
    user: Result<User, Refusal>,
    row: Option<Result<Option<User>, StoreError>>,
    query: Option<Seq<char>>,
    if_none_match: Option<Seq<char>>,
    photo: PhotoReply,
) -> bool {
    match (user, row) {
        (Err(_), _) => step matches AvatarStep::Reply(reply) && reply.status == 401
            && reply.headers@.len() == 0 && !reply.with_body,
        (Ok(_), None) => step is LookRow,
        (Ok(_), Some(Ok(Some(row)))) => {
            let headers = version_headers(query, row.photo_version as int);
            if if_none_match == Some(version_tag(row.photo_version as int)) {
                step matches AvatarStep::Reply(reply) && reply.status == 304 && !reply.with_body
                    && files::header_texts(reply.headers@) == headers
            } else {
                match photo {
                    PhotoReply::Unasked => step matches AvatarStep::LookPhoto(sub) && sub@
                        == row.oidc_sub@,
                    PhotoReply::Failed => step matches AvatarStep::Reply(reply) && reply.status
                        == 404 && reply.headers@.len() == 0 && !reply.with_body,
                    PhotoReply::Bytes(mime) => step matches AvatarStep::Reply(reply)
                        && reply.status == 200 && reply.with_body && files::header_texts(
                        reply.headers@,
                    ) == headers.push(
                        (
                            "content-type"@,
                            if address::fits_header(mime@) {
                                mime@
                            } else {
                                "application/octet-stream"@
                            },
                        ),
                    ),
                }
            }
        },
        (Ok(_), Some(_)) => step matches AvatarStep::Reply(reply) && reply.status == 404
            && reply.headers@.len() == 0 && !reply.with_body,
    }
}

/// The version an address carries, if it carries one.
pub fn stamped_version(query: Option<&str>) -> (r: Option<String>)
    ensures
        text::opt_text(r) == match text::opt_str(query) {
            Some(query) => query::value_of(query, "v"@),
            None => None,
        },
{
    match query {
        Some(query) => query::query_value(query, "v"),
        None => None,
    }
}

fn bare(status: u16) -> (r: AvatarStep)
    ensures
        r matches AvatarStep::Reply(reply) && reply.status == status && reply.headers@.len() == 0
            && !reply.with_body,
{
    AvatarStep::Reply(PictureReply { status, headers: Vec::new(), with_body: false })
}

/// What to do next about a face. A browser that holds the row's own tag is told
/// so without the directory being asked at all.
pub fn avatar(
    user: &Result<User, Refusal>,
    row: Option<&Result<Option<User>, StoreError>>,
    query: Option<&str>,
    if_none_match: Option<&str>,
    photo: &PhotoReply,
) -> (r: AvatarStep)
    ensures
        avatar_is(
            r,
            *user,
            match row {
                Some(row) => Some(*row),
                None => None,
            },
            text::opt_str(query),
            text::opt_str(if_none_match),
            *photo,
        ),
{
    if user.is_err() {
        return bare(401);
    }
    let row = match row {
        None => return AvatarStep::LookRow,
        Some(Ok(Some(row))) => row,
        Some(_) => return bare(404),
    };
    let version = text::signed_decimal(row.photo_version);
    let mut tag = text::glue("\"p", &version);
    tag.append("\"");
    let fresh = match stamped_version(query) {
        Some(stamped) => text::same(&stamped, &version),
        None => false,
    };
    let mut headers: Vec<Header> = Vec::new();
    files::put_header(&mut headers, "etag", &tag);
    files::put_header(
        &mut headers,
        "cache-control",
        if fresh {
            "private, max-age=31536000, immutable"
        } else {
            "private, no-cache"
        },
    );
    assert(files::header_texts(headers@) =~= version_headers(
        text::opt_str(query),
        row.photo_version as int,
    ));
    let held = match if_none_match {
        Some(value) => text::same(value, &tag),
        None => false,
    };
    if held {
        return AvatarStep::Reply(PictureReply { status: 304, headers, with_body: false });
    }
    match photo {
        PhotoReply::Unasked => AvatarStep::LookPhoto(row.oidc_sub.clone()),
        PhotoReply::Failed => bare(404),
        PhotoReply::Bytes(mime) => {
            files::put_header(
                &mut headers,
                "content-type",
                address::header_or(mime, "application/octet-stream"),
            );
            AvatarStep::Reply(PictureReply { status: 200, headers, with_body: true })
        },
    }
}

/// A year of `immutable` is only ever granted to an address that carries the
/// row's current version: once the version moves, the old address revalidates and
/// the old tag no longer matches.
pub proof fn law_no_old_face_is_pinned(query: Option<Seq<char>>, old_version: int, version: int)
    requires
        is_stamped(query, old_version),
        old_version != version,
    ensures
        !is_stamped(query, version),
        version_headers(query, version)[1] == ("cache-control"@, "private, no-cache"@),
        version_tag(version) != version_tag(old_version),
{
    text::law_int_numeral_is_read_back(old_version);
    text::law_int_numeral_is_read_back(version);
    let (a, b) = (text::int_numeral(old_version), text::int_numeral(version));
    if version_tag(version) == version_tag(old_version) {
        let (head, tail) = ("\"p"@, "\""@);
        assert((head + a + tail).subrange(head.len() as int, (head + a + tail).len() - tail.len())
            =~= a);
        assert((head + b + tail).subrange(head.len() as int, (head + b + tail).len() - tail.len())
            =~= b);
    }
}

} // verus!
