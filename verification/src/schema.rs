//! The typed form of one unit of work.
use crate::payload::{RawValue, Tree};
use vstd::prelude::*;

verus! {

/// What happened to the feature, and so which operation the remote layer is asked for.
#[derive(Clone, Copy, Debug, PartialEq, Eq, Structural)]
pub enum EventKind {
    Create,
    Update,
    Delete,
    /// A tag this version does not know. Such a job is never sent.
    Unknown,
}

impl EventKind {
    /// The kind that a tag on the wire stands for.
    pub open spec fn of_tag(tag: Seq<char>) -> EventKind {
        if tag == "create"@ {
            EventKind::Create
        } else if tag == "update"@ {
            EventKind::Update
        } else if tag == "delete"@ {
            EventKind::Delete
        } else {
            EventKind::Unknown
        }
    }

    /// Reads the kind off its tag. Tags are matched as they are written.
    pub fn from_tag(tag: &str) -> (kind: EventKind)
        ensures
            kind == Self::of_tag(tag@),
    {
        let tag = String::from_str(tag);
        if tag == String::from_str("create") {
            EventKind::Create
        } else if tag == String::from_str("update") {
            EventKind::Update
        } else if tag == String::from_str("delete") {
            EventKind::Delete
        } else {
            EventKind::Unknown
        }
    }

    /// The tag of a known kind; `"unknown"` for the rest.
    pub open spec fn spec_tag(self) -> Seq<char> {
        match self {
            EventKind::Create => "create"@,
            EventKind::Update => "update"@,
            EventKind::Delete => "delete"@,
            EventKind::Unknown => "unknown"@,
        }
    }

    /// The tag of a known kind; `"unknown"` for the rest.
    pub fn tag(self) -> (tag: &'static str)
        ensures
            tag@ == self.spec_tag(),
            Self::of_tag(tag@) == self,
    {
        proof {
            reveal_strlit("create");
            reveal_strlit("update");
            reveal_strlit("delete");
            reveal_strlit("unknown");
            assert("create"@.len() == 6 && "update"@.len() == 6 && "delete"@.len() == 6);
            assert("create"@[0] == 'c' && "update"@[0] == 'u' && "delete"@[0] == 'd');
            assert("unknown"@.len() == 7);
        }
        match self {
            EventKind::Create => "create",
            EventKind::Update => "update",
            EventKind::Delete => "delete",
            EventKind::Unknown => "unknown",
        }
    }
}

/// Where a feature goes: the endpoint, the layer to write into, and the
/// transport credentials the endpoint may ask for besides the bearer token.
#[derive(Debug, PartialEq, Eq)]
pub struct Destination {
    pub url: String,
    pub username: String,
    pub password: String,
    pub layer: String,
}

/// A destination as a mathematical value.
pub struct DestinationView {
    pub url: Seq<char>,
    pub username: Seq<char>,
    pub password: Seq<char>,
    pub layer: Seq<char>,
}

impl View for Destination {
    type V = DestinationView;

    open spec fn view(&self) -> DestinationView {
        DestinationView {
            url: self.url@,
            username: self.username@,
            password: self.password@,
            layer: self.layer@,
        }
    }
}

impl Clone for Destination {
    fn clone(&self) -> (out: Destination)
        ensures
            out@ == self@,
    {
        Destination {
            url: self.url.clone(),
            username: self.username.clone(),
            password: self.password.clone(),
            layer: self.layer.clone(),
        }
    }
}

/// The bearer token of a job, the instant it expires (seconds since the
/// epoch), and the referer the remote service validates the token against.
#[derive(Debug, PartialEq, Eq)]
pub struct Auth {
    pub token: String,
    pub expires_at: u32,
    pub referer: String,
}

/// The credentials of a job as a mathematical value.
pub struct AuthView {
    pub token: Seq<char>,
    pub expires_at: int,
    pub referer: Seq<char>,
}

impl View for Auth {
    type V = AuthView;

    open spec fn view(&self) -> AuthView {
        AuthView { token: self.token@, expires_at: self.expires_at as int, referer: self.referer@ }
    }
}

impl Clone for Auth {
    fn clone(&self) -> (out: Auth)
        ensures
            out@ == self@,
    {
        Auth {
            token: self.token.clone(),
            expires_at: self.expires_at,
            referer: self.referer.clone(),
        }
    }
}

/// How a job asks to be handled.
#[derive(Clone, Copy, Debug, PartialEq, Eq, Structural)]
pub struct Options {
    pub logging_enabled: bool,
}

/// One unit of work, decoded from a single queue record.
///
/// A job is built by the decoder and offers no way to change it afterwards.
#[derive(Debug, PartialEq)]
pub struct Job {
    id: i32,
    event_kind: EventKind,
    feature: RawValue,
    destination: Destination,
    auth: Auth,
    options: Options,
}

/// A job as a mathematical value.
pub struct JobView {
    pub id: int,
    pub event_kind: EventKind,
    pub feature: Tree,
    pub destination: DestinationView,
    pub auth: AuthView,
    pub options: Options,
}

impl View for Job {
    type V = JobView;

    closed spec fn view(&self) -> JobView {
        JobView {
            id: self.id as int,
            event_kind: self.event_kind,
            feature: self.feature@,
            destination: self.destination@,
            auth: self.auth@,
            options: self.options,
        }
    }
}

impl Job {
    pub(crate) fn new(
        id: i32,
        event_kind: EventKind,
        feature: RawValue,
        destination: Destination,
        auth: Auth,
        options: Options,
    ) -> (job: Job)
        ensures
            job@ == (JobView {
                id: id as int,
                event_kind,
                feature: feature@,
                destination: destination@,
                auth: auth@,
                options,
            }),
    {
        Job { id, event_kind, feature, destination, auth, options }
    }

    /// The identifier of the originating change. It may repeat on redelivery.
    pub fn id(&self) -> (id: i32)
        ensures
            id as int == self@.id,
    {
        self.id
    }

    pub fn event_kind(&self) -> (kind: EventKind)
        ensures
            kind == self@.event_kind,
    {
        self.event_kind
    }

    /// The feature, exactly as the record carried it.
    pub fn feature(&self) -> (feature: &RawValue)
        ensures
            feature@ == self@.feature,
    {
        &self.feature
    }

    pub fn destination(&self) -> (destination: &Destination)
        ensures
            destination@ == self@.destination,
    {
        &self.destination
    }

    pub fn auth(&self) -> (auth: &Auth)
        ensures
            auth@ == self@.auth,
    {
        &self.auth
    }

    pub fn options(&self) -> (options: Options)
        ensures
            options == self@.options,
    {
        self.options
    }
}

impl Clone for Job {
    fn clone(&self) -> (out: Job)
        ensures
            out@ == self@,
    {
        Job {
            id: self.id,
            event_kind: self.event_kind,
            feature: self.feature.clone(),
            destination: self.destination.clone(),
            auth: self.auth.clone(),
            options: self.options,
        }
    }
}

} // verus!
