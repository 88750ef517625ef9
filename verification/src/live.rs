//! The live channel: one long-lived connection per open tab, carrying the news
//! that something changed.
//!
//! What travels here is a topic and nothing else, never a row, never a name. The
//! client is told only which surface moved and re-fetches it through the
//! ordinary route, where the ordinary owner check answers. What is left to get
//! right is not naming somebody else's surface to this reader.
use crate::text;
use vstd::prelude::*;

verus! {

/// How many seconds one connection is held before the server ends it and the
/// browser opens another.
#[derive(Clone, Copy, Debug)]
pub struct LiveWindow(pub u64);

impl Default for LiveWindow {
    fn default() -> (r: Self)
        ensures
            r.0 == 300,
    {
        LiveWindow(300)
    }
}

/// A surface that moved, with its owner's id.
#[derive(Debug)]
pub enum Topic {
    Library(String),
    Shares(String),
    Trash(String),
    Admin(String),
    Profile(String),
    Revoked(String),
}

/// The word of a topic.
pub open spec fn kind_of(topic: Topic) -> Seq<char> {
    match topic {
        Topic::Library(_) => "library"@,
        Topic::Shares(_) => "shares"@,
        Topic::Trash(_) => "trash"@,
        Topic::Admin(_) => "admin"@,
        Topic::Profile(_) => "profile"@,
        Topic::Revoked(_) => "revoked"@,
    }
}

/// The owner a topic is about.
pub open spec fn owner_of(topic: Topic) -> Seq<char> {
    match topic {
        Topic::Library(id) => id@,
        Topic::Shares(id) => id@,
        Topic::Trash(id) => id@,
        Topic::Admin(id) => id@,
        Topic::Profile(id) => id@,
        Topic::Revoked(id) => id@,
    }
}

impl Topic {
    pub fn kind(&self) -> (r: &'static str)
        ensures
            r@ == kind_of(*self),
    {
        match self {
            Topic::Library(_) => "library",
            Topic::Shares(_) => "shares",
            Topic::Trash(_) => "trash",
            Topic::Admin(_) => "admin",
            Topic::Profile(_) => "profile",
            Topic::Revoked(_) => "revoked",
        }
    }

    pub fn id(&self) -> (r: &str)
        ensures
            r@ == owner_of(*self),
    {
        match self {
            Topic::Library(id) => id.as_str(),
            Topic::Shares(id) => id.as_str(),
            Topic::Trash(id) => id.as_str(),
            Topic::Admin(id) => id.as_str(),
            Topic::Profile(id) => id.as_str(),
            Topic::Revoked(id) => id.as_str(),
        }
    }
}

/// Whether a reader may be told that a surface moved.
pub open spec fn is_heard(topic: Topic, me: Seq<char>, admin: bool) -> bool {
    owner_of(topic) == me || (topic is Admin && admin)
}

/// Whether this reader may be told that this surface moved. A reader hears only
/// their own; the one exception is the admin surface, which an admin hears
/// about: someone who can act on every account may be told every account moved.
pub fn may_hear(topic: &Topic, me: &str, admin: bool) -> (r: bool)
    ensures
        r == is_heard(*topic, me@, admin),
{
    if text::same(topic.id(), me) {
        return true;
    }
    match topic {
        Topic::Admin(_) => admin,
        _ => false,
    }
}

/// A frame the client reads as "you may have missed something; re-read
/// everything you are showing".
pub fn resync_frame() -> (r: &'static str)
    ensures
        r@ == "{\"topic\":\"resync\"}"@,
{
    "{\"topic\":\"resync\"}"
}

/// Whether a wait is what is left of the window, see [`live_wait`].
pub open spec fn waits(left: Option<u64>, stopping: bool, now_ms: u64, deadline_ms: u64) -> bool {
    match left {
        Some(left) => !stopping && now_ms < deadline_ms && left == deadline_ms - now_ms,
        None => stopping || now_ms >= deadline_ms,
    }
}

/// How long to wait for the next announcement, in milliseconds; nothing where
/// the stream ends: the process is going down, or the window has run out.
pub fn live_wait(stopping: bool, now_ms: u64, deadline_ms: u64) -> (r: Option<u64>)
    ensures
        waits(r, stopping, now_ms, deadline_ms),
{
    if stopping || now_ms >= deadline_ms {
        None
    } else {
        Some(deadline_ms - now_ms)
    }
}

/// What ended a wait.
#[derive(Debug)]
pub enum Heard {
    /// The window ran out, or the server was told to stop.
    Over,
    /// The store is gone, which means the process is going.
    Closed,
    /// Announcements were dropped; which ones is unknowable.
    Lagged,
    Change { topic: Topic, seq: u64 },
}

/// What one announcement looks like on the wire.
#[derive(Debug)]
pub struct Frame {
    pub topic: &'static str,
    /// The owner the topic is about: a handle for the client to route on.
    pub id: String,
    pub seq: u64,
}

/// What a stream does about what it heard.
#[derive(Debug)]
pub enum LiveStep {
    /// End; the browser reconnects by itself and authenticates again.
    End,
    /// Say nothing, and wait on.
    Silence,
    /// Tell the client to re-read everything.
    Resync,
    Send(Frame),
}

/// What a stream does about what it heard, as a value.
pub enum LiveModel {
    End,
    Silence,
    Resync,
    Send(Seq<char>, Seq<char>, nat),
}

impl View for LiveStep {
    type V = LiveModel;

    open spec fn view(&self) -> LiveModel {
        match *self {
            LiveStep::End => LiveModel::End,
            LiveStep::Silence => LiveModel::Silence,
            LiveStep::Resync => LiveModel::Resync,
            LiveStep::Send(frame) => LiveModel::Send(frame.topic@, frame.id@, frame.seq as nat),
        }
    }
}

/// What a reader's stream does about what it heard.
pub open spec fn live_after(heard: Heard, me: Seq<char>, admin: bool) -> LiveModel {
    match heard {
        Heard::Over => LiveModel::End,
        Heard::Closed => LiveModel::End,
        Heard::Lagged => LiveModel::Resync,
        Heard::Change { topic, seq } => if is_heard(topic, me, admin) {
            LiveModel::Send(kind_of(topic), owner_of(topic), seq as nat)
        } else {
            LiveModel::Silence
        },
    }
}

/// What a reader's stream does about what it heard. Another owner's surface is
/// not merely unsent: it is never named.
pub fn live(heard: Heard, me: &str, admin: bool) -> (r: LiveStep)
    ensures
        r@ == live_after(heard, me@, admin),
{
    match heard {
        Heard::Over => LiveStep::End,
        Heard::Closed => LiveStep::End,
        Heard::Lagged => LiveStep::Resync,
        Heard::Change { topic, seq } => if may_hear(&topic, me, admin) {
            LiveStep::Send(Frame { topic: topic.kind(), id: topic.id().to_owned(), seq })
        } else {
            LiveStep::Silence
        },
    }
}

/// A frame names the reader's own surface, or, to an admin, the admin surface;
/// nothing else ever reaches the wire.
pub proof fn law_a_frame_names_only_the_own(heard: Heard, me: Seq<char>, admin: bool)
    ensures
        match live_after(heard, me, admin) {
            LiveModel::Send(kind, id, _) => id == me || (admin && kind == "admin"@),
            _ => true,
        },
{
}

} // verus!
