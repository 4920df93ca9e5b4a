//! Request-level decisions of the web endpoints.
//!
//! The handlers themselves live outside the verified core: they read
//! requests, query storage and serialise replies.  Every decision they take
//! on plain values stands here, with an exact contract: which error a
//! request earns, how a vote is normalised, when a write is over quota, and
//! how a write request's indices are composed into text.

use vstd::prelude::*;
use crate::message::Message;
use crate::pack::Pack;
use crate::util::spec_is_housing_zone;
use crate::util::is_housing_zone;

verus! {

/// Every failure a request can be answered with.
#[derive(Clone, Copy, Debug, PartialEq, Eq, Structural)]
pub enum WebError {
    MissingAuthToken,
    InvalidAuthToken,
    InvalidPackId,
    InvalidIndex,
    TooManyMessages,
    NoSuchMessage,
    InvalidExtraCode,
    MissingWard,
    UnnecessaryWard,
}

impl WebError {
    /// The HTTP status the error is reported with.
    pub open spec fn spec_status(self) -> int {
        match self {
            WebError::MissingAuthToken => 400,
            WebError::InvalidAuthToken => 400,
            WebError::InvalidPackId => 404,
            WebError::InvalidIndex => 404,
            WebError::TooManyMessages => 400,
            WebError::NoSuchMessage => 404,
            WebError::InvalidExtraCode => 400,
            WebError::MissingWard => 400,
            WebError::UnnecessaryWard => 400,
        }
    }

    /// The HTTP status the error is reported with.
    pub fn status(&self) -> (code: u16)
        ensures
            code == self.spec_status(),
    {
        match self {
            WebError::InvalidPackId => 404,
            WebError::InvalidIndex => 404,
            WebError::NoSuchMessage => 404,
            _ => 400,
        }
    }

    /// The machine-readable error code of the reply.
    pub open spec fn spec_code(self) -> Seq<char> {
        match self {
            WebError::MissingAuthToken => "missing_auth_token"@,
            WebError::InvalidAuthToken => "invalid_auth_token"@,
            WebError::InvalidPackId => "invalid_pack_id"@,
            WebError::InvalidIndex => "invalid_index"@,
            WebError::TooManyMessages => "too_many_messages"@,
            WebError::NoSuchMessage => "no_such_message"@,
            WebError::InvalidExtraCode => "invalid_extra_code"@,
            WebError::MissingWard => "missing_ward"@,
            WebError::UnnecessaryWard => "unnecessary_ward"@,
        }
    }

    /// The machine-readable error code of the reply.
    pub fn code(&self) -> (code: &'static str)
        ensures
            code@ == self.spec_code(),
    {
        match self {
            WebError::MissingAuthToken => "missing_auth_token",
            WebError::InvalidAuthToken => "invalid_auth_token",
            WebError::InvalidPackId => "invalid_pack_id",
            WebError::InvalidIndex => "invalid_index",
            WebError::TooManyMessages => "too_many_messages",
            WebError::NoSuchMessage => "no_such_message",
            WebError::InvalidExtraCode => "invalid_extra_code",
            WebError::MissingWard => "missing_ward",
            WebError::UnnecessaryWard => "unnecessary_ward",
        }
    }

    /// The human-readable description of the reply.
    pub open spec fn spec_description(self) -> Seq<char> {
        match self {
            WebError::MissingAuthToken => "an auth token was not provided"@,
            WebError::InvalidAuthToken => "the auth token was not valid"@,
            WebError::InvalidPackId => "the server does not have a pack registered with that id"@,
            WebError::InvalidIndex => "one of the provided indices was out of range"@,
            WebError::TooManyMessages => "you have run out of messages - delete one and try again"@,
            WebError::NoSuchMessage => "no message with that id was found"@,
            WebError::InvalidExtraCode => "that extra code was not found"@,
            WebError::MissingWard => "a ward was not provided - try updating the plugin"@,
            WebError::UnnecessaryWard => "a ward was provided but not necessary - try updating the plugin"@,
        }
    }

    /// The human-readable description of the reply.
    pub fn description(&self) -> (text: &'static str)
        ensures
            text@ == self.spec_description(),
    {
        match self {
            WebError::MissingAuthToken => "an auth token was not provided",
            WebError::InvalidAuthToken => "the auth token was not valid",
            WebError::InvalidPackId => "the server does not have a pack registered with that id",
            WebError::InvalidIndex => "one of the provided indices was out of range",
            WebError::TooManyMessages => "you have run out of messages - delete one and try again",
            WebError::NoSuchMessage => "no message with that id was found",
            WebError::InvalidExtraCode => "that extra code was not found",
            WebError::MissingWard => "a ward was not provided - try updating the plugin",
            WebError::UnnecessaryWard => "a ward was provided but not necessary - try updating the plugin",
        }
    }
}

/// The query string of a location request.
pub struct GetLocationQuery {
    pub ward: Option<u32>,
}

impl GetLocationQuery {
    /// Check this query's ward against the zone it asks about.
    pub fn validate(&self, territory: u32) -> (outcome: Result<(), WebError>)
        ensures
            outcome == spec_validate_ward(territory, self.ward),
    {
        validate_ward(territory, self.ward)
    }
}

/// The ward rule of a location query: a housing zone needs a ward, any
/// other zone refuses one.
pub open spec fn spec_validate_ward(territory: u32, ward: Option<u32>) -> Result<(), WebError> {
    if spec_is_housing_zone(territory) && ward is None {
        Result::Err(WebError::MissingWard)
    } else if !spec_is_housing_zone(territory) && ward is Some {
        Result::Err(WebError::UnnecessaryWard)
    } else {
        Result::Ok(())
    }
}

/// Check the ward rule for a location query.
pub fn validate_ward(territory: u32, ward: Option<u32>) -> (outcome: Result<(), WebError>)
    ensures
        outcome == spec_validate_ward(territory, ward),
{
    let housing = is_housing_zone(territory);
    if housing && ward.is_none() {
        Result::Err(WebError::MissingWard)
    } else if !housing && ward.is_some() {
        Result::Err(WebError::UnnecessaryWard)
    } else {
        Result::Ok(())
    }
}

/// Collapse a raw vote byte to the stored value: any negative vote counts
/// as a downvote, everything else as an upvote.
pub fn normalize_vote(vote: i8) -> (stored: i8)
    ensures
        vote < 0 ==> stored == -1,
        vote >= 0 ==> stored == 1,
{
    if vote < 0 {
        -1
    } else {
        1
    }
}

/// The write quota rule: a user may store messages up to the configured
/// maximum plus their granted extra allowance.
pub open spec fn spec_check_quota(existing: i64, max_messages: i32, extra: i64) -> Result<
    (),
    WebError,
> {
    if existing >= max_messages + extra {
        Result::Err(WebError::TooManyMessages)
    } else {
        Result::Ok(())
    }
}

/// Check whether a user with `existing` stored messages may write another.
pub fn check_quota(existing: i64, max_messages: i32, extra: i64) -> (outcome: Result<
    (),
    WebError,
>)
    ensures
        outcome == spec_check_quota(existing, max_messages, extra),
{
    if existing as i128 >= max_messages as i128 + extra as i128 {
        Result::Err(WebError::TooManyMessages)
    } else {
        Result::Ok(())
    }
}

/// How redeeming an extra-allowance token updates its remaining uses: an
/// unlimited token (marked -1) stays unlimited, any other never drops below
/// zero.  A token left at zero is discarded by the caller.
pub fn redeem_token_uses(uses: i64) -> (remaining: i64)
    ensures
        uses == -1 ==> remaining == -1,
        uses != -1 && uses <= 1 ==> remaining == 0,
        uses > 1 ==> remaining == uses - 1,
{
    if uses == -1 {
        -1
    } else if uses <= 1 {
        0
    } else {
        uses - 1
    }
}

/// The word selection a write request resolves to.  A `List` template draws
/// from its own private list, so only the word index counts and the list
/// slot is pinned to zero; a `Basic` template needs both indices.
pub open spec fn spec_word_selection(is_list: bool, list: Option<usize>, word: Option<usize>) -> Option<
    (usize, usize),
> {
    if is_list {
        match word {
            Option::Some(w) => Option::Some((0usize, w)),
            Option::None => Option::None,
        }
    } else {
        match (list, word) {
            (Option::Some(l), Option::Some(w)) => Option::Some((l, w)),
            _ => Option::None,
        }
    }
}

/// Resolve the word selection of one clause of a write request.
pub fn word_selection(is_list: bool, list: Option<usize>, word: Option<usize>) -> (selection:
    Option<(usize, usize)>)
    ensures
        selection == spec_word_selection(is_list, list, word),
{
    if is_list {
        match word {
            Option::Some(w) => Option::Some((0usize, w)),
            Option::None => Option::None,
        }
    } else {
        match (list, word) {
            (Option::Some(l), Option::Some(w)) => Option::Some((l, w)),
            _ => Option::None,
        }
    }
}

/// Whether the template at `idx` of the pack exists and carries its own
/// word list.
pub open spec fn spec_template_is_list(pack: Pack, idx: int) -> bool {
    0 <= idx < pack.templates@.len() && pack.templates@[idx] is List
}

fn template_is_list(pack: &Pack, idx: usize) -> (is_list: bool)
    ensures
        is_list == spec_template_is_list(*pack, idx as int),
{
    if idx < pack.templates.len() {
        matches!(&pack.templates[idx], crate::pack::Template::List { .. })
    } else {
        false
    }
}

/// The text a write request composes to, or the one error it earns.
pub open spec fn spec_compose_message(pack: Pack, msg: Message) -> Result<Seq<char>, WebError> {
    let word_1 = spec_word_selection(
        spec_template_is_list(pack, msg.template_1 as int),
        msg.word_1_list,
        msg.word_1_word,
    );
    let word_2 = spec_word_selection(
        match msg.template_2 {
            Option::Some(t2) => spec_template_is_list(pack, t2 as int),
            Option::None => false,
        },
        msg.word_2_list,
        msg.word_2_word,
    );
    match pack.spec_format(
        msg.template_1 as int,
        word_1,
        msg.conjunction,
        msg.template_2,
        word_2,
    ) {
        Option::Some(text) => Result::Ok(text),
        Option::None => Result::Err(WebError::InvalidIndex),
    }
}

/// Compose the text of a write request against its pack: the word
/// selections are resolved as the template shapes demand, then the pack
/// formats the clauses.  `InvalidIndex` exactly when some chosen index does
/// not resolve.
pub fn compose_message(pack: &Pack, msg: &Message) -> (composed: Result<String, WebError>)
    ensures
        match composed {
            Result::Ok(s) => spec_compose_message(*pack, *msg) == Result::<Seq<char>, WebError>::Ok(
                s@,
            ),
            Result::Err(e) => spec_compose_message(*pack, *msg) == Result::<
                Seq<char>,
                WebError,
            >::Err(e),
        },
{
    let template_1_is_list = template_is_list(pack, msg.template_1);
    let word_1 = word_selection(template_1_is_list, msg.word_1_list, msg.word_1_word);
    let template_2_is_list = match msg.template_2 {
        Option::Some(t2) => template_is_list(pack, t2),
        Option::None => false,
    };
    let word_2 = word_selection(template_2_is_list, msg.word_2_list, msg.word_2_word);
    match pack.format(msg.template_1, word_1, msg.conjunction, msg.template_2, word_2) {
        Option::Some(text) => Result::Ok(text),
        Option::None => Result::Err(WebError::InvalidIndex),
    }
}

} // verus!
