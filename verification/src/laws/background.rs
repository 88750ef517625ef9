//! What runs beside the pages: the directory's mirror, the family's list, the
//! probes, the live feed, and the faces.
use crate::address;
use crate::avatar;
use crate::avatar::{AvatarStep, PhotoReply};
use crate::clock;
use crate::clock::Moment;
use crate::files;
use crate::health;
use crate::health::{Round, Sibling};
use crate::live;
use crate::live::{Heard, LiveModel, Topic};
use crate::model::{StoreError, User};
use crate::query;
use crate::refusal::Refusal;
use crate::server;
use crate::server::{HealthModel, Provision};
use crate::sync;
use crate::sync::{
    BucketKeys, CommandModel, DirectoryEvent, EventStep, FamilyAct, FamilyHeard, Member, SyncAct, SyncHeard,
};
use crate::text;
use vstd::prelude::*;

verus! {

/// A member is mirrored as the directory has them, admin or not, and the
/// disabled flag is written exactly where the row differs from the directory's
/// word.
pub proof fn law_members_are_mirrored(
    asked: Provision,
    member: Member,
    default_quota_bytes: u64,
    user: User,
    error: StoreError,
)
    requires
        sync::mirrors(asked, member, default_quota_bytes),
    ensures
        asked.sub@ == member.sub@ && asked.email@ == member.email@ && asked.name@ == member.name@,
        asked.admin == Some(member.admin),
        asked.photo_version == member.photo_version,
        asked.default_quota_bytes == default_quota_bytes,
        user.disabled == member.disabled ==> sync::flag_for(Ok(user), member) is None,
        user.disabled != member.disabled ==> sync::flag_for(Ok(user), member) == Some(
            member.disabled,
        ),
        sync::flag_for(Err(error), member) is None,
{
}

/// An event about a member mirrors them, a revocation wakes the tabs of the
/// account its subject names, if there is one.
pub proof fn law_events_are_applied(member: Member, sub: String, user: User, error: StoreError)
    ensures
        sync::step_for(DirectoryEvent::Profile(member)) == EventStep::Mirror(member),
        sync::step_for(DirectoryEvent::Revoked { sub }) == EventStep::Wake(sub),
        sync::woken(Ok(Some(user))) == Some(user.id@),
        sync::woken(Ok(None)) is None,
        sync::woken(Err(error)) is None,
{
}

/// One round of the mirror: every member is listed, mirrored, and then the live
/// stream is opened and listened to; anything that fails waits, twice as long as
/// the time before and never longer than half a minute, and then lists again.
pub proof fn law_the_mirror_goes_round(wait: int)
    requires
        1 <= wait <= 30,
    ensures
        sync::sync_after(wait, SyncHeard::Listed) == (SyncAct::MirrorAll, 1int),
        sync::sync_after(wait, SyncHeard::Mirrored) == (SyncAct::Open, wait),
        sync::sync_after(wait, SyncHeard::Opened) == (SyncAct::Listen, wait),
        sync::sync_after(wait, SyncHeard::Applied) == (SyncAct::Listen, wait),
        sync::sync_after(wait, SyncHeard::Slept) == (SyncAct::List, wait),
        sync::sync_after(wait, SyncHeard::ListFailed).0 == SyncAct::Sleep(wait as u64),
        sync::sync_after(wait, SyncHeard::OpenRefused) == sync::sync_after(
            wait,
            SyncHeard::ListFailed,
        ),
        sync::sync_after(wait, SyncHeard::StreamEnded) == sync::sync_after(
            wait,
            SyncHeard::ListFailed,
        ),
        2 * wait <= 30 ==> sync::sync_after(wait, SyncHeard::ListFailed).1 == 2 * wait,
        2 * wait > 30 ==> sync::sync_after(wait, SyncHeard::ListFailed).1 == 30,
{
}

/// The health page sees the stream as it is: up once it opened or an event came
/// through, down once it failed in any way; an event and a pass are stamped when
/// they happen, and by nothing else.
pub proof fn law_health_follows_the_mirror(before: HealthModel, heard: SyncHeard, now: int)
    ensures
        heard == SyncHeard::Opened || heard == SyncHeard::Applied ==> sync::health_after(
            before,
            heard,
            now,
        ).connected,
        heard == SyncHeard::ListFailed || heard == SyncHeard::OpenRefused || heard
            == SyncHeard::StreamEnded ==> !sync::health_after(before, heard, now).connected,
        heard == SyncHeard::Listed || heard == SyncHeard::Slept || heard == SyncHeard::Mirrored
            ==> sync::health_after(before, heard, now).connected == before.connected,
        sync::health_after(before, heard, now).last_event == if heard == SyncHeard::Applied {
            now
        } else {
            before.last_event
        },
        sync::health_after(before, heard, now).last_pass == if heard == SyncHeard::Mirrored {
            now
        } else {
            before.last_pass
        },
{
}

/// Ages are counted from the stamp, none before there is one, and never
/// backwards.
pub proof fn law_ages(at: int, now: int)
    ensures
        at <= 0 ==> server::age_of(at, now) is None,
        0 < at <= now ==> server::age_of(at, now) == Some(now - at),
        at > 0 && now < at ==> server::age_of(at, now) == Some(0int),
{
}

/// One round of the family's list: this app announces itself where it has an
/// address, fetches the list, takes the limits from it, files it, and waits; a
/// silent directory waits at once.
pub proof fn law_the_family_goes_round(origin: Seq<char>)
    ensures
        origin.len() > 0 ==> sync::family_after(origin, FamilyHeard::Woke) == FamilyAct::Register,
        origin.len() == 0 ==> sync::family_after(origin, FamilyHeard::Woke) == FamilyAct::Fetch,
        sync::family_after(origin, FamilyHeard::Registered) == FamilyAct::Fetch,
        sync::family_after(origin, FamilyHeard::Fetched) == FamilyAct::Limit,
        sync::family_after(origin, FamilyHeard::Limited) == FamilyAct::File,
        sync::family_after(origin, FamilyHeard::Silent) == FamilyAct::Sleep(300),
        sync::family_after(origin, FamilyHeard::Filed) == sync::family_after(
            origin,
            FamilyHeard::Silent,
        ),
{
}

proof fn lemma_options(args: Seq<Seq<char>>, i: int, dry_run: bool, yes: bool)
    requires
        0 <= i <= args.len(),
        forall|k: int|
            i <= k < args.len() ==> #[trigger] args[k] == "--dry-run"@ || args[k] == "--yes"@,
    ensures
        sync::options_after(args, i, dry_run, yes) == CommandModel::Reconcile(
            dry_run || args.skip(i).contains("--dry-run"@),
            yes || args.skip(i).contains("--yes"@),
        ),
    decreases args.len() - i,
{
    reveal_strlit("--dry-run");
    reveal_strlit("--yes");
    assert("--dry-run"@.len() != "--yes"@.len());
    let rest = args.skip(i);
    if i < args.len() {
        let next = args.skip(i + 1);
        assert(rest[0] == args[i]);
        assert(rest.drop_first() =~= next);
        assert forall|word: Seq<char>| #[trigger] rest.contains(word) == (args[i] == word
            || next.contains(word)) by {
            if next.contains(word) {
                let k = choose|k: int| 0 <= k < next.len() && next[k] == word;
                assert(rest[k + 1] == word);
            }
            if rest.contains(word) && args[i] != word {
                let k = choose|k: int| 0 <= k < rest.len() && rest[k] == word;
                assert(next[k - 1] == word);
            }
        }
        assert(args[i] == "--dry-run"@ || args[i] == "--yes"@);
        lemma_options(args, i + 1, dry_run || args[i] == "--dry-run"@, yes || args[i] == "--yes"@);
    }
}

proof fn lemma_unknown_option(args: Seq<Seq<char>>, i: int, at: int, dry_run: bool, yes: bool)
    requires
        0 <= i <= at < args.len(),
        args[at] != "--dry-run"@ && args[at] != "--yes"@,
        forall|k: int|
            i <= k < at ==> #[trigger] args[k] == "--dry-run"@ || args[k] == "--yes"@,
    ensures
        sync::options_after(args, i, dry_run, yes) == CommandModel::Unknown(args[at]),
    decreases at - i,
{
    if i < at {
        assert(args[i] == "--dry-run"@ || args[i] == "--yes"@);
        if args[i] == "--dry-run"@ {
            lemma_unknown_option(args, i + 1, at, true, yes);
        } else {
            lemma_unknown_option(args, i + 1, at, dry_run, true);
        }
    }
}

/// The command line serves unless its first word asks to reconcile; that takes
/// its two options in any order, and refuses the first word it does not know.
pub proof fn law_the_command_line(args: Seq<Seq<char>>, at: int)
    ensures
        args.len() < 2 || args[1] != "reconcile"@ ==> sync::command_of(args) == CommandModel::Serve,
        args.len() >= 2 && args[1] == "reconcile"@ && (forall|k: int|
            2 <= k < args.len() ==> #[trigger] args[k] == "--dry-run"@ || args[k] == "--yes"@)
            ==> sync::command_of(args) == CommandModel::Reconcile(
            args.skip(2).contains("--dry-run"@),
            args.skip(2).contains("--yes"@),
        ),
        args.len() >= 2 && args[1] == "reconcile"@ && 2 <= at < args.len() && args[at]
            != "--dry-run"@ && args[at] != "--yes"@ && (forall|k: int|
            2 <= k < at ==> #[trigger] args[k] == "--dry-run"@ || args[k] == "--yes"@)
            ==> sync::command_of(args) == CommandModel::Unknown(args[at]),
{
    if args.len() >= 2 && (forall|k: int|
        2 <= k < args.len() ==> #[trigger] args[k] == "--dry-run"@ || args[k] == "--yes"@) {
        lemma_options(args, 2, false, false);
    }
    if args.len() >= 2 && 2 <= at < args.len() && args[at] != "--dry-run"@ && args[at] != "--yes"@
        && (forall|k: int|
        2 <= k < at ==> #[trigger] args[k] == "--dry-run"@ || args[k] == "--yes"@) {
        lemma_unknown_option(args, 2, at, false, false);
    }
}

/// The bucket's keys are the first two lines of their file: the id, then the
/// secret.
pub proof fn law_bucket_keys(keys: Option<BucketKeys>, id: Seq<char>, secret: Seq<char>)
    requires
        sync::keys_in(keys, id + seq!['\n'] + secret),
        text::free_of(id, '\n') && text::free_of(secret, '\n'),
        text::trimmed(id) == id && id.len() > 0,
        text::trimmed(secret) == secret && secret.len() > 0,
    ensures
        keys is Some,
        keys->0.access_key_id@ == id,
        keys->0.secret_access_key@ == secret,
{
    text::lemma_split_front(id, '\n', secret);
    text::lemma_split_none(secret, '\n');
    let lines = text::split_on(id + seq!['\n'] + secret, '\n');
    assert(lines =~= seq![id, secret]);
    assert(lines.drop_last() =~= seq![id]);
    assert(seq![id].drop_last() =~= Seq::<Seq<char>>::empty());
    assert(sync::filled_lines(Seq::<Seq<char>>::empty()) =~= Seq::<Seq<char>>::empty());
    assert(sync::filled_lines(seq![id]) =~= seq![id]);
    assert(sync::filled_lines(lines) =~= seq![id, secret]);
}

/// A row is purged once it lay in the trash for its days: the cutoff is that many
/// days before now.
pub proof fn law_the_purge_cutoff(cutoff: Option<Moment>, now: int, days: u32)
    requires
        sync::cuts_off(cutoff, now, days),
    ensures
        cutoff is Some ==> now - cutoff->0@ == days * 86_400 * 1_000_000_000,
        clock::in_calendar(now - days * 86_400 * 1_000_000_000) ==> cutoff is Some,
{
}

/// A probe is up exactly where the answer was a success that begins with ok, and
/// keeps no more than its first letters.
pub proof fn law_probes(success: bool, body: Seq<char>, ms: nat)
    ensures
        !success ==> health::read_as(success, body, ms) is None,
        success && text::trimmed(body) == "ok"@ ==> health::read_as(success, body, ms) == Some(
            ("ok"@, ms),
        ),
        health::read_as(success, body, ms) is Some <==> success && text::trimmed(body).len() >= 2
            && text::trimmed(body)[0] == 'o' && text::trimmed(body)[1] == 'k',
        health::read_as(success, body, ms) is Some ==> {
            let (shown, took) = health::read_as(success, body, ms)->0;
            &&& took == ms
            &&& shown.len() <= 64
            &&& shown.is_prefix_of(text::trimmed(body))
            &&& text::trimmed(body).len() <= 64 ==> shown == text::trimmed(body)
        },
{
    reveal_strlit("ok");
    let word = text::trimmed(body);
    if word.len() >= 2 && word[0] == 'o' && word[1] == 'k' {
        assert(word.subrange(0, 2) =~= "ok"@);
    }
    if "ok"@.is_prefix_of(word) {
        assert(word.subrange(0, 2)[0] == word[0] && word.subrange(0, 2)[1] == word[1]);
        let shown = health::at_most(word, 64);
        assert(word.subrange(0, shown.len() as int) =~= shown);
    }
    if word == "ok"@ {
        assert(word.subrange(0, 2) =~= word);
    }
}

proof fn lemma_slashes(s: Seq<char>)
    ensures
        health::without_slashes(s).is_prefix_of(s),
        health::without_slashes(s).len() > 0 ==> health::without_slashes(s).last() != '/',
        forall|i: int| health::without_slashes(s).len() <= i < s.len() ==> #[trigger] s[i] == '/',
    decreases s.len(),
{
    if s.len() > 0 && s.last() == '/' {
        lemma_slashes(s.drop_last());
        let out = health::without_slashes(s);
        assert(s.subrange(0, out.len() as int) =~= s.drop_last().subrange(0, out.len() as int));
        assert forall|i: int| out.len() <= i < s.len() implies #[trigger] s[i] == '/' by {
            if i < s.len() - 1 {
                assert(s.drop_last()[i] == s[i]);
            }
        }
    } else {
        assert(s.subrange(0, s.len() as int) =~= s);
    }
}

/// An address is announced and probed without the slashes behind it, whatever
/// else it holds.
pub proof fn law_addresses_without_slashes(url: Seq<char>)
    ensures
        sync::announced(None).len() == 0,
        ({
            let base = sync::announced(Some(url));
            &&& base.is_prefix_of(url)
            &&& base.len() > 0 ==> base.last() != '/'
            &&& forall|i: int| base.len() <= i < url.len() ==> #[trigger] url[i] == '/'
            &&& health::probed_at(url) == base + "/healthz"@
        }),
{
    lemma_slashes(url);
}

/// A round of probes is used again only for the siblings it was read for, and
/// only within its window.
pub proof fn law_rounds_are_reused(round: Round, now: int, siblings: Seq<Sibling>, i: int)
    ensures
        now >= round.read_at_ms + 30_000 ==> health::reused(round, now, siblings) is None,
        now < round.read_at_ms + 30_000 && round.readings@.len() == siblings.len() && (forall|j: int|
            0 <= j < siblings.len() ==> (#[trigger] round.readings@[j]).key@ == siblings[j].key@
                && round.readings@[j].url@ == siblings[j].url@) ==> health::reused(
            round,
            now,
            siblings,
        ) is Some,
        round.readings@.len() != siblings.len() ==> health::reused(round, now, siblings) is None,
        0 <= i < siblings.len() && i < round.readings@.len() && (round.readings@[i].key@
            != siblings[i].key@ || round.readings@[i].url@ != siblings[i].url@) ==> health::reused(
            round,
            now,
            siblings,
        ) is None,
        health::reused(round, now, siblings) is Some && 0 <= i < siblings.len() ==> {
            &&& health::reused(round, now, siblings)->0.len() == siblings.len()
            &&& health::reused(round, now, siblings)->0[i] == round.readings@[i].probe
        },
{
}

/// A change is told to the account it is about, under its kind, its owner and
/// its number; a change of the accounts to every admin too, and to nobody else.
/// Lost changes ask for a re-read, and the end of the window ends the feed.
pub proof fn law_changes_reach_whom_they_concern(id: String, seq: u64, me: Seq<char>, admin: bool)
    ensures
        live::live_after(Heard::Lagged, me, admin) == LiveModel::Resync,
        live::live_after(Heard::Over, me, admin) == LiveModel::End,
        live::live_after(Heard::Closed, me, admin) == LiveModel::End,
        id@ == me ==> {
            &&& live::live_after(Heard::Change { topic: Topic::Library(id), seq }, me, admin)
                == LiveModel::Send("library"@, me, seq as nat)
            &&& live::live_after(Heard::Change { topic: Topic::Shares(id), seq }, me, admin)
                == LiveModel::Send("shares"@, me, seq as nat)
            &&& live::live_after(Heard::Change { topic: Topic::Trash(id), seq }, me, admin)
                == LiveModel::Send("trash"@, me, seq as nat)
            &&& live::live_after(Heard::Change { topic: Topic::Profile(id), seq }, me, admin)
                == LiveModel::Send("profile"@, me, seq as nat)
            &&& live::live_after(Heard::Change { topic: Topic::Revoked(id), seq }, me, admin)
                == LiveModel::Send("revoked"@, me, seq as nat)
        },
        id@ == me || admin ==> live::live_after(
            Heard::Change { topic: Topic::Admin(id), seq },
            me,
            admin,
        ) == LiveModel::Send("admin"@, id@, seq as nat),
        id@ != me ==> {
            &&& live::live_after(Heard::Change { topic: Topic::Library(id), seq }, me, admin)
                == LiveModel::Silence
            &&& live::live_after(Heard::Change { topic: Topic::Shares(id), seq }, me, admin)
                == LiveModel::Silence
            &&& live::live_after(Heard::Change { topic: Topic::Trash(id), seq }, me, admin)
                == LiveModel::Silence
            &&& live::live_after(Heard::Change { topic: Topic::Profile(id), seq }, me, admin)
                == LiveModel::Silence
            &&& live::live_after(Heard::Change { topic: Topic::Revoked(id), seq }, me, admin)
                == LiveModel::Silence
        },
        id@ != me && !admin ==> live::live_after(
            Heard::Change { topic: Topic::Admin(id), seq },
            me,
            admin,
        ) == LiveModel::Silence,
{
}

/// A feed waits for what is left of its window, and not at all once the server
/// stops or the window is over.
pub proof fn law_feeds_wait_out_their_window(
    left: Option<u64>,
    stopping: bool,
    now_ms: u64,
    deadline_ms: u64,
)
    requires
        live::waits(left, stopping, now_ms, deadline_ms),
    ensures
        stopping || now_ms >= deadline_ms ==> left is None,
        !stopping && now_ms < deadline_ms ==> left is Some && now_ms + left->0 == deadline_ms,
{
}

/// Whether a step says nothing but its status.
pub open spec fn answers_only(step: AvatarStep, status: u16) -> bool {
    step matches AvatarStep::Reply(reply) && reply.status == status && !reply.with_body
        && reply.headers@.len() == 0
}

/// A face is shown to the signed in alone; the row is looked up, then the photo
/// of the row's own subject, and a browser that holds this version already is
/// told so. A row or a photo that is not there is a 404.
pub proof fn law_faces(
    step: AvatarStep,
    user: Result<User, Refusal>,
    found: Option<Result<Option<User>, StoreError>>,
    query: Option<Seq<char>>,
    held: Option<Seq<char>>,
    photo: PhotoReply,
    row: User,
)
    requires
        avatar::avatar_is(step, user, found, query, held, photo),
    ensures
        user is Err ==> answers_only(step, 401),
        user is Ok && found is None ==> step is LookRow,
        user is Ok && found is Some && !(found->0 matches Ok(Some(_))) ==> answers_only(step, 404),
        user is Ok && found == Some(Ok::<Option<User>, StoreError>(Some(row))) ==> {
            let tag = "\"p"@ + text::int_numeral(row.photo_version as int) + "\""@;
            let stamped = query is Some && query::value_of(query->0, "v"@) == Some(
                text::int_numeral(row.photo_version as int),
            );
            &&& held == Some(tag) ==> (step matches AvatarStep::Reply(reply) && reply.status == 304
                && !reply.with_body && files::header_texts(reply.headers@)[0] == ("etag"@, tag))
            &&& held == Some(tag) || photo is Bytes ==> (step matches AvatarStep::Reply(reply)
                && files::header_texts(reply.headers@)[1] == (
                "cache-control"@,
                if stamped {
                    "private, max-age=31536000, immutable"@
                } else {
                    "private, no-cache"@
                },
            ))
            &&& held != Some(tag) && photo is Unasked ==> (step matches AvatarStep::LookPhoto(sub)
                && sub@ == row.oidc_sub@)
            &&& held != Some(tag) && photo is Failed ==> answers_only(step, 404)
            &&& held != Some(tag) && photo is Bytes ==> (step matches AvatarStep::Reply(reply)
                && reply.status == 200 && reply.with_body && files::header_texts(
                reply.headers@,
            ).len() == 3 && files::header_texts(reply.headers@)[0] == ("etag"@, tag)
                && files::header_texts(reply.headers@)[2].0 == "content-type"@ && (
            address::fits_header(photo->Bytes_0@) ==> files::header_texts(reply.headers@)[2].1
                == photo->Bytes_0@))
        },
{
}

} // verus!
