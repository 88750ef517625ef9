//! The person behind the current request, the role guards, and the plumbing
//! every route shares.
//!
//! Every guard here is the real one. The UI hides what a role may not do, but
//! the answer that matters is the one given in this module, on the server.
use crate::clock::Moment;
use crate::model::{StoreError, User};
use crate::text;
use vstd::prelude::*;

pub use crate::address::{back_to, call_id, carrying, refusal_of, same_origin};
pub use crate::refusal::Refusal;
pub use crate::secrets::{stash_shown_secret, take_shown_secret};

verus! {

// ---- The directory connection --------------------------------------------
/// The live state of the identity-directory connection, as the Connection card
/// displays it. There is one of it, which the mirror writes and every reader
/// shares: a copy would go stale.
#[derive(Debug)]
pub struct DirectoryHealth {
    stream: bool,
    last_event: i64,
    last_pass: i64,
}

/// A [`DirectoryHealth`] as a value: whether the stream is open, and the Unix
/// seconds of the last event and the last full pass, 0 before the first.
pub struct HealthModel {
    pub connected: bool,
    pub last_event: int,
    pub last_pass: int,
}

/// How long ago `at` was, or nothing where it never was. A clock set back
/// reads as no time at all.
pub open spec fn age_of(at: int, now: int) -> Option<int> {
    if at > 0 {
        Some(
            if now > at {
                now - at
            } else {
                0
            },
        )
    } else {
        None
    }
}

/// See [`age_of`].
pub fn age_at(at: i64, now: i64) -> (r: Option<i64>)
    ensures
        match r {
            Some(age) => age_of(at as int, now as int) == Some(age as int),
            None => age_of(at as int, now as int) is None,
        },
{
    if at > 0 {
        Some(
            if now > at {
                now - at
            } else {
                0
            },
        )
    } else {
        None
    }
}

impl View for DirectoryHealth {
    type V = HealthModel;

    closed spec fn view(&self) -> HealthModel {
        HealthModel {
            connected: self.stream,
            last_event: self.last_event as int,
            last_pass: self.last_pass as int,
        }
    }
}

impl Default for DirectoryHealth {
    fn default() -> (r: Self)
        ensures
            !r@.connected,
            r@.last_event == 0,
            r@.last_pass == 0,
    {
        DirectoryHealth { stream: false, last_event: 0, last_pass: 0 }
    }
}

/// The standing once the stream opened.
pub open spec fn stream_up(health: HealthModel) -> HealthModel {
    HealthModel { connected: true, ..health }
}

/// The standing once the stream ended or failed.
pub open spec fn stream_down(health: HealthModel) -> HealthModel {
    HealthModel { connected: false, ..health }
}

/// The standing once a roster event came through at `now`.
pub open spec fn event_noted(health: HealthModel, now: int) -> HealthModel {
    HealthModel { connected: true, last_event: now, ..health }
}

/// The standing once a full roster pass committed at `now`.
pub open spec fn pass_noted(health: HealthModel, now: int) -> HealthModel {
    HealthModel { last_pass: now, ..health }
}

impl DirectoryHealth {
    /// Connecting, with nothing heard yet.
    pub fn new() -> (r: Self)
        ensures
            !r@.connected,
            r@.last_event == 0,
            r@.last_pass == 0,
    {
        DirectoryHealth { stream: false, last_event: 0, last_pass: 0 }
    }

    /// The stream opened.
    pub fn connected(&mut self)
        ensures
            final(self)@ == stream_up(old(self)@),
    {
        self.stream = true;
    }

    /// The stream ended or failed; the task will dial again.
    pub fn reconnecting(&mut self)
        ensures
            final(self)@ == stream_down(old(self)@),
    {
        self.stream = false;
    }

    /// A roster event came through the live stream at `now`: it is connected,
    /// and this is the moment it last said anything.
    pub fn note_event_at(&mut self, now: i64)
        ensures
            final(self)@ == event_noted(old(self)@, now as int),
    {
        self.stream = true;
        self.last_event = now;
    }

    /// A full roster pass committed at `now`.
    pub fn note_pass_at(&mut self, now: i64)
        ensures
            final(self)@ == pass_noted(old(self)@, now as int),
    {
        self.last_pass = now;
    }

    /// A roster event came through the live stream just now.
    pub fn note_event(&mut self)
        ensures
            final(self)@.connected,
            final(self)@.last_pass == old(self)@.last_pass,
            -377_705_116_800 <= final(self)@.last_event <= 253_402_300_799,
    {
        self.note_event_at(Moment::now().unix_seconds());
    }

    /// A full roster pass committed just now: the mirror healed (or was already
    /// true), however quiet the live feed has been.
    pub fn note_pass(&mut self)
        ensures
            final(self)@.connected == old(self)@.connected,
            final(self)@.last_event == old(self)@.last_event,
            -377_705_116_800 <= final(self)@.last_pass <= 253_402_300_799,
    {
        self.note_pass_at(Moment::now().unix_seconds());
    }

    /// Whether the card shows the green dot.
    pub fn stream_connected(&self) -> (r: bool)
        ensures
            r == self@.connected,
    {
        self.stream
    }

    /// Seconds from the last roster event to `now`, or nothing before the
    /// first one.
    pub fn last_event_age_at(&self, now: i64) -> (r: Option<i64>)
        ensures
            match r {
                Some(age) => age_of(self@.last_event, now as int) == Some(age as int),
                None => age_of(self@.last_event, now as int) is None,
            },
    {
        age_at(self.last_event, now)
    }

    /// Seconds from the last full pass to `now`, or nothing before the first
    /// one.
    pub fn last_pass_age_at(&self, now: i64) -> (r: Option<i64>)
        ensures
            match r {
                Some(age) => age_of(self@.last_pass, now as int) == Some(age as int),
                None => age_of(self@.last_pass, now as int) is None,
            },
    {
        age_at(self.last_pass, now)
    }

    /// Seconds since the last roster event, or `None` before the first one.
    pub fn last_event_age_secs(&self) -> (r: Option<i64>)
        ensures
            r is Some <==> self@.last_event > 0,
            match r {
                Some(age) => exists|now: int|
                    -377_705_116_800 <= now <= 253_402_300_799 && #[trigger] age_of(
                        self@.last_event,
                        now,
                    ) == Some(age as int),
                None => true,
            },
    {
        let now: i64 = Moment::now().unix_seconds();
        self.last_event_age_at(now)
    }

    /// Seconds since the last full roster pass, or `None` before the first
    /// one.
    pub fn last_pass_age_secs(&self) -> (r: Option<i64>)
        ensures
            r is Some <==> self@.last_pass > 0,
            match r {
                Some(age) => exists|now: int|
                    -377_705_116_800 <= now <= 253_402_300_799 && #[trigger] age_of(
                        self@.last_pass,
                        now,
                    ) == Some(age as int),
                None => true,
            },
    {
        let now: i64 = Moment::now().unix_seconds();
        self.last_pass_age_at(now)
    }
}

// ---- Origins and labels ---------------------------------------------------
/// The origin public links carry: the saved address where one is set, else the
/// configured one.
pub open spec fn origin_of(
    setting: Result<Option<String>, StoreError>,
    configured: Seq<char>,
) -> Seq<char> {
    match setting {
        Ok(Some(base)) => if text::trimmed(base@).len() > 0 {
            text::trimmed(base@)
        } else {
            configured
        },
        _ => configured,
    }
}

/// The origin the public links carry: the `base_url` an admin saved on the
/// running install when one is set, else the configured origin.
pub fn share_origin(setting: &Result<Option<String>, StoreError>, configured: &str) -> (r: String)
    ensures
        r@ == origin_of(*setting, configured@),
{
    if let Ok(Some(base)) = setting {
        let base = text::trim(base);
        if base.as_str().unicode_len() > 0 {
            return base;
        }
    }
    configured.to_owned()
}

/// The per-file ceiling a filed setting names: its number where that fits 64
/// bits, else the configured one.
pub open spec fn ceiling_named(filed: Option<Seq<char>>, configured: u64) -> u64 {
    match filed {
        Some(filed) => match text::read_unsigned(filed) {
            Some(n) => if n <= u64::MAX {
                n as u64
            } else {
                configured
            },
            None => configured,
        },
        None => configured,
    }
}

/// The per-file ceiling in force: the one an admin filed on the running install,
/// else the configured one, which also stands in where the setting cannot be
/// read.
pub fn effective_upload_limit(setting: &Result<Option<String>, StoreError>, configured: u64) -> (r: u64)
    ensures
        r == ceiling_named(
            match *setting {
                Ok(filed) => text::opt_text(filed),
                Err(_) => None,
            },
            configured,
        ),
{
    match setting {
        Ok(Some(filed)) => match text::parse_u64(filed) {
            Some(bytes) => bytes,
            None => configured,
        },
        _ => configured,
    }
}

/// The row a link's sealed token is kept under.
pub open spec fn token_row_of(link_id: Seq<char>) -> Seq<char> {
    "share_token:"@ + link_id
}

/// The setting row a link's sealed token waits on.
pub fn share_token_row(link_id: &str) -> (r: String)
    ensures
        r@ == token_row_of(link_id@),
{
    text::glue("share_token:", link_id)
}

/// The address of a link whose token was opened.
pub open spec fn link_address(origin: Seq<char>, opened: Option<Seq<char>>) -> Option<Seq<char>> {
    match opened {
        Some(token) => Some(origin + "/s/"@ + token),
        None => None,
    }
}

/// The full public address of a share link, from the token its creation sealed.
/// `None` when the address cannot be told again: a link minted before the
/// sealing carries no row, and a key lost since minting opens nothing.
pub fn share_link_url(origin: &str, opened: Option<&str>) -> (r: Option<String>)
    ensures
        text::opt_text(r) == link_address(origin@, text::opt_str(opened)),
{
    match opened {
        Some(token) => {
            let mut out = text::glue(origin, "/s/");
            out.append(token);
            Some(out)
        },
        None => None,
    }
}

/// The client a request is rate limited as.
pub open spec fn label_of(forwarded: Option<Seq<char>>) -> Seq<char> {
    match forwarded {
        Some(raw) => {
            let first = text::trimmed(raw.take(text::first_at(raw, ',')));
            if first.len() > 0 {
                first
            } else {
                "unknown"@
            }
        },
        None => "unknown"@,
    }
}

/// A stable-enough label for the client, for rate limiting: the first address
/// of `x-forwarded-for`, or `unknown`.
pub fn client_label(forwarded: Option<&str>) -> (r: String)
    ensures
        r@ == label_of(text::opt_str(forwarded)),
{
    let raw = match forwarded {
        Some(raw) => raw,
        None => return "unknown".to_owned(),
    };
    proof {
        text::lemma_first_at(raw@, ',');
    }
    let first = match text::split_once(raw, ',') {
        Some((first, _)) => text::trim(&first),
        None => {
            assert(raw@.take(raw@.len() as int) == raw@);
            text::trim(raw)
        },
    };
    if first.as_str().unicode_len() > 0 {
        first
    } else {
        "unknown".to_owned()
    }
}

// ---- The stylesheet guard -------------------------------------------------
/// The SHA-256 digest of a run of bytes.
pub uninterp spec fn sha256_of(bytes: Seq<u8>) -> Seq<u8>;

/// `sha2::Sha256::digest`: the thirty-two bytes of the digest.
#[verifier::external_body]
fn sha256(bytes: &[u8]) -> (r: Vec<u8>)
    ensures
        r@ == sha256_of(bytes@),
        r@.len() == 32,
{
    <sha2::Sha256 as sha2::Digest>::digest(bytes).to_vec()
}

/// The two hexadecimal digits of each byte, in order.
pub open spec fn hex_of(bytes: Seq<u8>) -> Seq<char>
    decreases bytes.len(),
{
    if bytes.len() == 0 {
        Seq::empty()
    } else {
        hex_of(bytes.drop_last()).push(text::digit(bytes.last() as int / 16)).push(
            text::digit(bytes.last() as int % 16),
        )
    }
}

/// The fingerprint of a stylesheet.
pub open spec fn fingerprint_of(bytes: Seq<u8>) -> Seq<char> {
    "sha256:"@ + hex_of(sha256_of(bytes))
}

/// Whether an asset is the bundled stylesheet.
pub open spec fn is_stylesheet(name: Seq<char>) -> bool {
    "main-"@.is_prefix_of(name) && ".css"@.is_suffix_of(name)
}

/// The two hexadecimal digits of each byte.
pub fn hex_text(bytes: &Vec<u8>) -> (r: String)
    ensures
        r@ == hex_of(bytes@),
{
    let mut out = String::new();
    let mut i: usize = 0;
    while i < bytes.len()
        invariant
            i <= bytes.len(),
            out@ == hex_of(bytes@.take(i as int)),
        decreases bytes.len() - i,
    {
        let b: u64 = bytes[i] as u64;
        proof {
            assert(bytes@.take(i + 1).drop_last() == bytes@.take(i as int));
        }
        out.push(text::digit_of(b / 16));
        out.push(text::digit_of(b % 16));
        i += 1;
    }
    assert(bytes@.take(i as int) == bytes@);
    out
}

/// Whether a position is that of the first stylesheet, see
/// [`bundled_stylesheet`].
pub open spec fn finds_stylesheet(at: Option<usize>, names: Seq<String>) -> bool {
    match at {
        Some(i) => {
            &&& i < names.len()
            &&& is_stylesheet(names[i as int]@)
            &&& forall|k: int| 0 <= k < i ==> !is_stylesheet(#[trigger] names[k]@)
        },
        None => forall|k: int| 0 <= k < names.len() ==> !is_stylesheet(#[trigger] names[k]@),
    }
}

/// The bundle's stylesheet among its assets: the first one named like it.
pub fn bundled_stylesheet(names: &Vec<String>) -> (r: Option<usize>)
    ensures
        finds_stylesheet(r, names@),
{
    let mut i: usize = 0;
    while i < names.len()
        invariant
            i <= names.len(),
            forall|k: int| 0 <= k < i ==> !is_stylesheet(#[trigger] names@[k]@),
        decreases names.len() - i,
    {
        if text::starts_with(&names[i], "main-") && text::ends_with(&names[i], ".css") {
            return Some(i);
        }
        i += 1;
    }
    None
}

/// What the boot says of a bundle without a stylesheet.
pub fn no_stylesheet(dir: &str) -> (r: String)
    ensures
        r@ == "the asset bundle at "@ + dir@ + " carries no stylesheet"@,
{
    let mut out = text::glue("the asset bundle at ", dir);
    out.append(" carries no stylesheet");
    out
}

/// What the guard makes of a stylesheet with that fingerprint.
pub open spec fn guarded(
    dir: Seq<char>,
    name: Seq<char>,
    actual: Seq<char>,
    expected: Seq<char>,
) -> Result<Seq<char>, Seq<char>> {
    if actual == expected {
        Ok("assets  stylesheet "@ + name + " ("@ + actual + ")"@)
    } else {
        Err(
            "the asset bundle at "@ + dir + " is from another build: stylesheet "@ + name + " is "@
                + actual + " but this binary was compiled against "@ + expected
                + "; run `topcoat asset bundle` and redeploy"@,
        )
    }
}

/// The guard's answer for a stylesheet whose fingerprint is known.
pub fn guard_fingerprint(dir: &str, name: &str, actual: &str, expected: &str) -> (r: Result<
    String,
    String,
>)
    ensures
        match r {
            Ok(line) => guarded(dir@, name@, actual@, expected@) == Ok::<Seq<char>, Seq<char>>(line@),
            Err(problem) => guarded(dir@, name@, actual@, expected@) == Err::<Seq<char>, Seq<char>>(
                problem@,
            ),
        },
{
    if text::same(actual, expected) {
        let mut out = text::glue("assets  stylesheet ", name);
        out.append(" (");
        out.append(actual);
        out.append(")");
        Ok(out)
    } else {
        let mut out = text::glue("the asset bundle at ", dir);
        out.append(" is from another build: stylesheet ");
        out.append(name);
        out.append(" is ");
        out.append(actual);
        out.append(" but this binary was compiled against ");
        out.append(expected);
        out.append("; run `topcoat asset bundle` and redeploy");
        Err(out)
    }
}

/// Whether an answer tells of the bundled stylesheet, see [`stylesheet_guard`].
pub open spec fn guards(
    answer: Result<String, String>,
    dir: Seq<char>,
    name: Seq<char>,
    read: Result<Vec<u8>, String>,
    expected: Seq<char>,
) -> bool {
    match read {
        Ok(bytes) => match answer {
            Ok(line) => guarded(dir, name, fingerprint_of(bytes@), expected) == Ok::<
                Seq<char>,
                Seq<char>,
            >(line@),
            Err(problem) => guarded(dir, name, fingerprint_of(bytes@), expected) == Err::<
                Seq<char>,
                Seq<char>,
            >(problem@),
        },
        Err(problem) => match answer {
            Ok(_) => false,
            Err(told) => told@ == "the bundled stylesheet "@ + name + " could not be read: "@
                + problem@,
        },
    }
}

/// The stylesheet this binary serves must be the one compiled into it: hashes
/// the bundle's bytes against the fingerprint stamped into the binary, so a
/// foreign bundle refuses the boot instead of serving under it. Returns the
/// startup log line naming the served fingerprint, or the reason the boot must
/// not proceed.
pub fn stylesheet_guard(
    dir: &str,
    name: &str,
    read: &Result<Vec<u8>, String>,
    expected: &str,
) -> (r: Result<String, String>)
    ensures
        guards(r, dir@, name@, *read, expected@),
{
    match read {
        Err(problem) => {
            let mut out = text::glue("the bundled stylesheet ", name);
            out.append(" could not be read: ");
            out.append(problem);
            Err(out)
        },
        Ok(bytes) => {
            let digest = sha256(bytes.as_slice());
            let actual = text::glue("sha256:", &hex_text(&digest));
            guard_fingerprint(dir, name, &actual, expected)
        },
    }
}

// ---- Who is asking --------------------------------------------------------
/// What the identity provider vouches for.
#[derive(Debug)]
pub struct Claims {
    pub sub: String,
    pub email: String,
    pub name: String,
    pub photo_version: i64,
}

/// What the store is told of a person: the row is inserted on first sight and
/// refreshed on every later one.
#[derive(Debug)]
pub struct Provision {
    pub sub: String,
    pub email: String,
    pub name: String,
    /// `None` leaves the flag to the store: the first user ever is the admin.
    pub admin: Option<bool>,
    pub photo_version: i64,
    pub default_quota_bytes: u64,
}

/// Whether a row is asked for on the strength of claims, see [`provision_of`].
pub open spec fn provisions(asked: Provision, claims: Claims, default_quota_bytes: u64) -> bool {
    &&& asked.sub@ == claims.sub@
    &&& asked.email@ == claims.email@
    &&& asked.name@ == claims.name@
    &&& asked.admin is None
    &&& asked.photo_version == claims.photo_version
    &&& asked.default_quota_bytes == default_quota_bytes
}

/// The row a signed-in person's claims provision.
pub fn provision_of(claims: &Claims, default_quota_bytes: u64) -> (r: Provision)
    ensures
        provisions(r, *claims, default_quota_bytes),
{
    Provision {
        sub: claims.sub.clone(),
        email: claims.email.clone(),
        name: claims.name.clone(),
        admin: None,
        photo_version: claims.photo_version,
        default_quota_bytes,
    }
}

/// The person behind a request, by what provisioning the claims answered.
pub open spec fn current_of(seen: Option<Result<User, StoreError>>) -> Result<Option<User>, StoreError> {
    match seen {
        None => Ok(None),
        Some(Ok(user)) => if user.disabled {
            Ok(None)
        } else {
            Ok(Some(user))
        },
        Some(Err(problem)) => Err(problem),
    }
}

/// The person behind this request, or nobody, or the store failing to say.
///
/// `seen` is what provisioning the claims answered, or nothing for a browser
/// that carries no session. A disabled account reads as nobody. A store error
/// is not nobody: a busy database is a fact about the database, not about
/// whether this browser is signed in.
pub fn current_user(seen: Option<Result<User, StoreError>>) -> (r: Result<Option<User>, StoreError>)
    ensures
        r == current_of(seen),
{
    match seen {
        None => Ok(None),
        Some(Ok(user)) => if user.disabled {
            Ok(None)
        } else {
            Ok(Some(user))
        },
        Some(Err(problem)) => Err(problem),
    }
}

/// The person behind this request, or the refusal the caller returns as-is.
pub open spec fn required_user(current: Result<Option<User>, StoreError>) -> Result<User, Refusal> {
    match current {
        Ok(Some(user)) => Ok(user),
        Ok(None) => Err(Refusal::SignInFirst),
        Err(_) => Err(Refusal::Unavailable),
    }
}

/// The person behind this request, or a refusal the caller can return as-is.
pub fn require_user(current: Result<Option<User>, StoreError>) -> (r: Result<User, Refusal>)
    ensures
        r == required_user(current),
{
    match current {
        Ok(Some(user)) => Ok(user),
        Ok(None) => Err(Refusal::SignInFirst),
        Err(_) => Err(Refusal::Unavailable),
    }
}

/// The admin behind this request, or the refusal the caller returns as-is.
pub open spec fn required_admin(user: Result<User, Refusal>) -> Result<User, Refusal> {
    match user {
        Ok(user) => if user.admin {
            Ok(user)
        } else {
            Err(Refusal::Forbidden)
        },
        Err(refusal) => Err(refusal),
    }
}

/// The admin behind this request. Anyone else is refused here, not merely
/// hidden from in the UI.
pub fn require_admin(user: Result<User, Refusal>) -> (r: Result<User, Refusal>)
    ensures
        r == required_admin(user),
{
    match user {
        Ok(user) => if user.admin {
            Ok(user)
        } else {
            Err(Refusal::Forbidden)
        },
        Err(refusal) => Err(refusal),
    }
}

/// The status of the sign-in probe.
pub open spec fn probe_status(current: Result<Option<User>, StoreError>) -> u16 {
    match current {
        Ok(Some(_)) => 204u16,
        Ok(None) => 401u16,
        Err(_) => 500u16,
    }
}

/// The sign-in probe's status: 204 while this browser carries a live session,
/// 401 the moment it does not, 500 where the store fails. Only a real sign-out
/// draws the 401.
pub fn me(current: &Result<Option<User>, StoreError>) -> (status: u16)
    ensures
        status == probe_status(*current),
{
    match current {
        Ok(Some(_)) => 204,
        Ok(None) => 401,
        Err(_) => 500,
    }
}

/// The key a service presents.
pub open spec fn presented_key(authorization: Option<Seq<char>>) -> Option<Seq<char>> {
    match authorization {
        Some(value) => if "Bearer "@.is_prefix_of(value) && text::trimmed(
            value.skip("Bearer "@.len() as int),
        ).len() > 0 {
            Some(text::trimmed(value.skip("Bearer "@.len() as int)))
        } else {
            None
        },
        None => None,
    }
}

/// The bearer key of an `Authorization` header, if it carries one.
pub fn bearer_key(authorization: Option<&str>) -> (r: Option<String>)
    ensures
        text::opt_text(r) == presented_key(text::opt_str(authorization)),
{
    let value = match authorization {
        Some(value) => value,
        None => return None,
    };
    let rest = match text::strip_prefix(value, "Bearer ") {
        Some(rest) => rest,
        None => return None,
    };
    let token = text::trim(&rest);
    if token.as_str().unicode_len() == 0 {
        None
    } else {
        Some(token)
    }
}

/// The service behind a request.
pub open spec fn client_of(found: Option<Result<Option<User>, StoreError>>) -> Option<User> {
    match found {
        Some(Ok(Some(user))) => if user.disabled {
            None
        } else {
            Some(user)
        },
        _ => None,
    }
}

/// The service behind this request, by what the store says of its bearer key.
/// A disabled account reads as no key at all.
pub fn service_client(found: Option<Result<Option<User>, StoreError>>) -> (r: Option<User>)
    ensures
        r == client_of(found),
{
    match found {
        Some(Ok(Some(user))) => if user.disabled {
            None
        } else {
            Some(user)
        },
        _ => None,
    }
}

/// A store failure is never a sign-in prompt, and a sign-in prompt is drawn
/// only by nobody being there.
pub proof fn law_only_a_sign_out_asks_to_sign_in(seen: Option<Result<User, StoreError>>)
    ensures
        ({
            let current = match seen {
                None => Ok(None),
                Some(Ok(user)) => if user.disabled {
                    Ok(None)
                } else {
                    Ok(Some(user))
                },
                Some(Err(problem)) => Err(problem),
            };
            required_user(current) == Err::<User, Refusal>(Refusal::SignInFirst) <==> match seen {
                None => true,
                Some(Ok(user)) => user.disabled,
                Some(Err(_)) => false,
            }
        }),
{
}

// ---- Caching --------------------------------------------------------------
/// The cache directive a response is given.
pub open spec fn directive_for(content_type: Option<Seq<char>>, has_cache_control: bool) -> Option<Seq<char>> {
    match content_type {
        Some(value) => if "text/html"@.is_prefix_of(value) && !has_cache_control {
            Some("no-cache"@)
        } else {
            None
        },
        None => None,
    }
}

/// The cache directive a response cannot choose for itself: every document is
/// revalidated on every load, unless it already carries a directive.
pub fn cache_directives(content_type: Option<&str>, has_cache_control: bool) -> (r: Option<
    &'static str,
>)
    ensures
        text::opt_str(r) == directive_for(text::opt_str(content_type), has_cache_control),
{
    match content_type {
        Some(value) => if text::starts_with(value, "text/html") && !has_cache_control {
            Some("no-cache")
        } else {
            None
        },
        None => None,
    }
}

} // verus!
