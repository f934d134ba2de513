//! From one raw record payload to a job, or to the reason it is malformed.
//!
//! Every required member must be present and of the right type. The members
//! are checked in a fixed order and the first one that fails is named:
//! `id`, `type`, `feat`, `body` (`url`, `username`, `password`, `layer`),
//! `secrets` (`token`, `expires`, `referer`), `options` (`logging`).
//! Members that the schema does not know are ignored.
use crate::payload::{RawValue, Tree};
use crate::schema::{Auth, AuthView, Destination, DestinationView, EventKind, Job, JobView, Options};
use vstd::prelude::*;

verus! {

/// A member of the record schema, by its name on the wire.
#[derive(Clone, Copy, Debug, PartialEq, Eq, Structural)]
pub enum Field {
    Id,
    Type,
    Feat,
    Body,
    Url,
    Username,
    Password,
    Layer,
    Secrets,
    Token,
    Expires,
    Referer,
    Options,
    Logging,
}

impl Field {
    /// The member's name on the wire.
    pub open spec fn wire(self) -> Seq<char> {
        match self {
            Field::Id => "id"@,
            Field::Type => "type"@,
            Field::Feat => "feat"@,
            Field::Body => "body"@,
            Field::Url => "url"@,
            Field::Username => "username"@,
            Field::Password => "password"@,
            Field::Layer => "layer"@,
            Field::Secrets => "secrets"@,
            Field::Token => "token"@,
            Field::Expires => "expires"@,
            Field::Referer => "referer"@,
            Field::Options => "options"@,
            Field::Logging => "logging"@,
        }
    }

    /// The member's name on the wire.
    pub fn name(self) -> (name: &'static str)
        ensures
            name@ == self.wire(),
    {
        match self {
            Field::Id => "id",
            Field::Type => "type",
            Field::Feat => "feat",
            Field::Body => "body",
            Field::Url => "url",
            Field::Username => "username",
            Field::Password => "password",
            Field::Layer => "layer",
            Field::Secrets => "secrets",
            Field::Token => "token",
            Field::Expires => "expires",
            Field::Referer => "referer",
            Field::Options => "options",
            Field::Logging => "logging",
        }
    }
}

/// Why a record is malformed. Such a record stays malformed on redelivery.
#[derive(Clone, Copy, Debug, PartialEq, Eq, Structural)]
pub enum DecodeError {
    /// The member is absent.
    MissingField(Field),
    /// The member is present and holds a value of another type, or a number
    /// outside the range of its type, or a feature that is not well formed.
    TypeMismatch(Field),
}

impl DecodeError {
    /// The member at fault.
    pub fn field(self) -> (field: Field)
        ensures
            self == DecodeError::MissingField(field) || self == DecodeError::TypeMismatch(field),
    {
        match self {
            DecodeError::MissingField(field) => field,
            DecodeError::TypeMismatch(field) => field,
        }
    }
}

/// A member that must be a text.
pub open spec fn read_text(parent: Tree, field: Field) -> Result<Seq<char>, DecodeError> {
    match parent.get(field.wire()) {
        None => Err(DecodeError::MissingField(field)),
        Some(Tree::Text(text)) => Ok(text),
        Some(_) => Err(DecodeError::TypeMismatch(field)),
    }
}

/// A member that must be an integer from `low` to `high`.
pub open spec fn read_integer(parent: Tree, field: Field, low: int, high: int) -> Result<
    int,
    DecodeError,
> {
    match parent.get(field.wire()) {
        None => Err(DecodeError::MissingField(field)),
        Some(Tree::Integer(n)) => if low <= n <= high {
            Ok(n)
        } else {
            Err(DecodeError::TypeMismatch(field))
        },
        Some(_) => Err(DecodeError::TypeMismatch(field)),
    }
}

/// A member that must be `true` or `false`.
pub open spec fn read_flag(parent: Tree, field: Field) -> Result<bool, DecodeError> {
    match parent.get(field.wire()) {
        None => Err(DecodeError::MissingField(field)),
        Some(Tree::Bool(flag)) => Ok(flag),
        Some(_) => Err(DecodeError::TypeMismatch(field)),
    }
}

/// A member that must be a record.
pub open spec fn read_group(parent: Tree, field: Field) -> Result<Tree, DecodeError> {
    match parent.get(field.wire()) {
        None => Err(DecodeError::MissingField(field)),
        Some(Tree::Record(members)) => Ok(Tree::Record(members)),
        Some(_) => Err(DecodeError::TypeMismatch(field)),
    }
}

/// The feature is taken as it stands when the validator accepted it.
pub open spec fn read_feature(parent: Tree, accepted: bool) -> Result<Tree, DecodeError> {
    match parent.get(Field::Feat.wire()) {
        None => Err(DecodeError::MissingField(Field::Feat)),
        Some(feature) => if accepted {
            Ok(feature)
        } else {
            Err(DecodeError::TypeMismatch(Field::Feat))
        },
    }
}

/// The `body` group: where the feature goes.
pub open spec fn read_destination(raw: Tree) -> Result<DestinationView, DecodeError> {
    match read_group(raw, Field::Body) {
        Err(e) => Err(e),
        Ok(body) => match read_text(body, Field::Url) {
            Err(e) => Err(e),
            Ok(url) => match read_text(body, Field::Username) {
                Err(e) => Err(e),
                Ok(username) => match read_text(body, Field::Password) {
                    Err(e) => Err(e),
                    Ok(password) => match read_text(body, Field::Layer) {
                        Err(e) => Err(e),
                        Ok(layer) => Ok(DestinationView { url, username, password, layer }),
                    },
                },
            },
        },
    }
}

/// The `secrets` group: the token, its expiry and its referer.
pub open spec fn read_auth(raw: Tree) -> Result<AuthView, DecodeError> {
    match read_group(raw, Field::Secrets) {
        Err(e) => Err(e),
        Ok(secrets) => match read_text(secrets, Field::Token) {
            Err(e) => Err(e),
            Ok(token) => match read_integer(secrets, Field::Expires, 0, u32::MAX as int) {
                Err(e) => Err(e),
                Ok(expires_at) => match read_text(secrets, Field::Referer) {
                    Err(e) => Err(e),
                    Ok(referer) => Ok(AuthView { token, expires_at, referer }),
                },
            },
        },
    }
}

/// The `options` group.
pub open spec fn read_options(raw: Tree) -> Result<Options, DecodeError> {
    match read_group(raw, Field::Options) {
        Err(e) => Err(e),
        Ok(options) => match read_flag(options, Field::Logging) {
            Err(e) => Err(e),
            Ok(logging_enabled) => Ok(Options { logging_enabled }),
        },
    }
}

/// The job that a payload decodes to, or the first member at fault.
/// `feature_accepted` is the validator's verdict on the `feat` member.
pub open spec fn decode_spec(raw: Tree, feature_accepted: bool) -> Result<JobView, DecodeError> {
    match read_integer(raw, Field::Id, i32::MIN as int, i32::MAX as int) {
        Err(e) => Err(e),
        Ok(id) => match read_text(raw, Field::Type) {
            Err(e) => Err(e),
            Ok(tag) => match read_feature(raw, feature_accepted) {
                Err(e) => Err(e),
                Ok(feature) => match read_destination(raw) {
                    Err(e) => Err(e),
                    Ok(destination) => match read_auth(raw) {
                        Err(e) => Err(e),
                        Ok(auth) => match read_options(raw) {
                            Err(e) => Err(e),
                            Ok(options) => Ok(
                                JobView {
                                    id,
                                    event_kind: EventKind::of_tag(tag),
                                    feature,
                                    destination,
                                    auth,
                                    options,
                                },
                            ),
                        },
                    },
                },
            },
        },
    }
}

/// Whether `geojson::Feature` parses the text as a feature.
pub uninterp spec fn geojson_accepts(text: Seq<char>) -> bool;

/// The validator's verdict on the `feat` member of a payload; `false` where there is none.
pub open spec fn feature_verdict(raw: Tree) -> bool {
    match raw.get(Field::Feat.wire()) {
        Some(feature) => geojson_accepts(feature.json()),
        None => false,
    }
}

/// What a decoding result says, with the job by its view.
pub open spec fn decoded(out: Result<Job, DecodeError>) -> Result<JobView, DecodeError> {
    match out {
        Ok(job) => Ok(job@),
        Err(e) => Err(e),
    }
}

/// Parses the text with `geojson::Feature::from_str` and says whether a
/// feature came out. The parser reads nothing but the text, so its verdict
/// is a function of the text, and that is all the contract claims: it gives
/// the verdict its name.
#[verifier::external_body]
fn feature_text_accepted(text: &str) -> (accepted: bool)
    ensures
        accepted == geojson_accepts(text@),
{
    text.parse::<geojson::Feature>().is_ok()
}

fn text_member(parent: &RawValue, field: Field) -> (out: Result<String, DecodeError>)
    ensures
        match out {
            Ok(text) => read_text(parent@, field) == Ok::<Seq<char>, DecodeError>(text@),
            Err(e) => read_text(parent@, field) == Err::<Seq<char>, DecodeError>(e),
        },
{
    match parent.member(field.name()) {
        None => Err(DecodeError::MissingField(field)),
        Some(RawValue::Text(text)) => Ok(text.clone()),
        Some(_) => Err(DecodeError::TypeMismatch(field)),
    }
}

fn integer_member(parent: &RawValue, field: Field, low: i64, high: i64) -> (out: Result<
    i64,
    DecodeError,
>)
    ensures
        match out {
            Ok(n) => read_integer(parent@, field, low as int, high as int) == Ok::<int, DecodeError>(
                n as int,
            ),
            Err(e) => read_integer(parent@, field, low as int, high as int) == Err::<
                int,
                DecodeError,
            >(e),
        },
{
    match parent.member(field.name()) {
        None => Err(DecodeError::MissingField(field)),
        Some(RawValue::Integer(n)) => {
            if low <= *n && *n <= high {
                Ok(*n)
            } else {
                Err(DecodeError::TypeMismatch(field))
            }
        },
        Some(_) => Err(DecodeError::TypeMismatch(field)),
    }
}

fn flag_member(parent: &RawValue, field: Field) -> (out: Result<bool, DecodeError>)
    ensures
        out == read_flag(parent@, field),
{
    match parent.member(field.name()) {
        None => Err(DecodeError::MissingField(field)),
        Some(RawValue::Bool(flag)) => Ok(*flag),
        Some(_) => Err(DecodeError::TypeMismatch(field)),
    }
}

fn group_member<'a>(parent: &'a RawValue, field: Field) -> (out: Result<&'a RawValue, DecodeError>)
    ensures
        match out {
            Ok(group) => read_group(parent@, field) == Ok::<Tree, DecodeError>(group@),
            Err(e) => read_group(parent@, field) == Err::<Tree, DecodeError>(e),
        },
{
    match parent.member(field.name()) {
        None => Err(DecodeError::MissingField(field)),
        Some(group) => match group {
            RawValue::Record(_) => Ok(group),
            _ => Err(DecodeError::TypeMismatch(field)),
        },
    }
}

fn destination_of(raw: &RawValue) -> (out: Result<Destination, DecodeError>)
    ensures
        match out {
            Ok(destination) => read_destination(raw@) == Ok::<DestinationView, DecodeError>(
                destination@,
            ),
            Err(e) => read_destination(raw@) == Err::<DestinationView, DecodeError>(e),
        },
{
    let body = group_member(raw, Field::Body)?;
    let url = text_member(body, Field::Url)?;
    let username = text_member(body, Field::Username)?;
    let password = text_member(body, Field::Password)?;
    let layer = text_member(body, Field::Layer)?;
    Ok(Destination { url, username, password, layer })
}

fn auth_of(raw: &RawValue) -> (out: Result<Auth, DecodeError>)
    ensures
        match out {
            Ok(auth) => read_auth(raw@) == Ok::<AuthView, DecodeError>(auth@),
            Err(e) => read_auth(raw@) == Err::<AuthView, DecodeError>(e),
        },
{
    let secrets = group_member(raw, Field::Secrets)?;
    let token = text_member(secrets, Field::Token)?;
    let expires = integer_member(secrets, Field::Expires, 0, 0xffff_ffff)?;
    let referer = text_member(secrets, Field::Referer)?;
    Ok(Auth { token, expires_at: expires as u32, referer })
}

fn options_of(raw: &RawValue) -> (out: Result<Options, DecodeError>)
    ensures
        out == read_options(raw@),
{
    let options = group_member(raw, Field::Options)?;
    let logging_enabled = flag_member(options, Field::Logging)?;
    Ok(Options { logging_enabled })
}

/// Decodes a payload, given the validator's verdict on its `feat` member.
pub fn decode_with(raw: &RawValue, feature_accepted: bool) -> (out: Result<Job, DecodeError>)
    ensures
        decoded(out) == decode_spec(raw@, feature_accepted),
{
    let id = integer_member(raw, Field::Id, -0x8000_0000, 0x7fff_ffff)?;
    let tag = text_member(raw, Field::Type)?;
    let feature = match raw.member(Field::Feat.name()) {
        None => { return Err(DecodeError::MissingField(Field::Feat)); },
        Some(feature) => {
            if !feature_accepted {
                return Err(DecodeError::TypeMismatch(Field::Feat));
            }
            feature.clone()
        },
    };
    let destination = destination_of(raw)?;
    let auth = auth_of(raw)?;
    let options = options_of(raw)?;
    let kind = EventKind::from_tag(tag.as_str());
    Ok(Job::new(id as i32, kind, feature, destination, auth, options))
}

/// Decodes one raw record payload into a job.
///
/// Succeeds exactly when every required member is present and of its type
/// and the feature validator accepts the `feat` member, written out as JSON
/// text; otherwise names the first member at fault. Nothing but the payload
/// is read.
pub fn decode(raw: &RawValue) -> (out: Result<Job, DecodeError>)
    ensures
        decoded(out) == decode_spec(raw@, feature_verdict(raw@)),
{
    let accepted = match raw.member(Field::Feat.name()) {
        Some(feature) => feature_text_accepted(feature.to_json().as_str()),
        None => false,
    };
    decode_with(raw, accepted)
}

} // verus!
