//! Error types of the library, each with the text it is shown with.

use vstd::prelude::*;
use vstd::string::*;

verus! {

/// The text shown for an [`UnsupportedType`] error.
pub open spec fn unsupported_type_text(unsupported_type: Seq<char>) -> Seq<char> {
    "unsupported enum type: "@ + unsupported_type
}

/// The text shown for an [`InvalidInput`] error.
pub open spec fn invalid_input_text(reason: Seq<char>) -> Seq<char> {
    "invalid input data: "@ + reason
}

/// The text shown for an [`UnsupportedPartType`] error.
pub open spec fn unsupported_part_type_text(part_type: Seq<char>, api_type: Seq<char>) -> Seq<char> {
    "unsupported part type ("@ + part_type + ") for API "@ + api_type
}

/// The text shown for a [`StreamParamError`].
pub open spec fn stream_param_text(should_stream: bool) -> Seq<char> {
    if should_stream {
        "stream is set to False, but a method that implies streaming has been called"@
    } else {
        "stream is set to True, but a method that does not imply streaming has been called"@
    }
}

/// The text shown for an [`InvalidTtl`] error.
pub open spec fn invalid_ttl_text(ttl: Seq<char>) -> Seq<char> {
    "The requested TTL is not supported: "@ + ttl
}

/// The text shown for an [`InvalidAntRequestConversion`] error.
pub open spec fn invalid_ant_request_text(reason: Seq<char>) -> Seq<char> {
    "Unable to convert request to Anthropic request: "@ + reason
}

/// A string did not name any variant of the enum it was parsed into.
#[derive(Debug)]
pub struct UnsupportedType {
    pub unsupported_type: String,
}

impl UnsupportedType {
    /// The human-readable text of this error.
    pub fn message(&self) -> (res: String)
        ensures
            res@ == unsupported_type_text(self.unsupported_type@),
    {
        let mut res = String::from_str("unsupported enum type: ");
        res.append(self.unsupported_type.as_str());
        res
    }
}

/// Input data was rejected, for the reason given.
#[derive(Debug)]
pub struct InvalidInput {
    pub reason: String,
}

impl InvalidInput {
    /// The human-readable text of this error.
    pub fn message(&self) -> (res: String)
        ensures
            res@ == invalid_input_text(self.reason@),
    {
        let mut res = String::from_str("invalid input data: ");
        res.append(self.reason.as_str());
        res
    }
}

/// A message part that the target API cannot carry.
#[derive(Debug)]
pub struct UnsupportedPartType {
    pub part_type: String,
    pub api_type: String,
}

impl UnsupportedPartType {
    /// The human-readable text of this error.
    pub fn message(&self) -> (res: String)
        ensures
            res@ == unsupported_part_type_text(self.part_type@, self.api_type@),
    {
        let mut res = String::from_str("unsupported part type (");
        res.append(self.part_type.as_str());
        res.append(") for API ");
        res.append(self.api_type.as_str());
        res
    }
}

/// The `stream` flag of a request disagrees with the method it was sent through.
#[derive(Debug)]
pub struct StreamParamError {
    pub should_stream: bool,
}

impl StreamParamError {
    /// The human-readable text of this error.
    pub fn message(&self) -> (res: String)
        ensures
            res@ == stream_param_text(self.should_stream),
    {
        if self.should_stream {
            String::from_str(
                "stream is set to False, but a method that implies streaming has been called",
            )
        } else {
            String::from_str(
                "stream is set to True, but a method that does not imply streaming has been called",
            )
        }
    }
}

/// A prompt-cache time-to-live that the API does not offer.
#[derive(Debug)]
pub struct InvalidTtl {
    pub ttl: String,
}

impl InvalidTtl {
    /// The human-readable text of this error.
    pub fn message(&self) -> (res: String)
        ensures
            res@ == invalid_ttl_text(self.ttl@),
    {
        let mut res = String::from_str("The requested TTL is not supported: ");
        res.append(self.ttl.as_str());
        res
    }
}

/// A request could not be turned into an Anthropic request.
#[derive(Debug)]
pub struct InvalidAntRequestConversion {
    pub reason: String,
}

impl InvalidAntRequestConversion {
    /// The human-readable text of this error.
    pub fn message(&self) -> (res: String)
        ensures
            res@ == invalid_ant_request_text(self.reason@),
    {
        let mut res = String::from_str("Unable to convert request to Anthropic request: ");
        res.append(self.reason.as_str());
        res
    }

    /// The conversion error that wraps an [`InvalidTtl`]: its reason is that error's text.
    pub fn from_invalid_ttl(value: InvalidTtl) -> (res: Self)
        ensures
            res.reason@ == invalid_ttl_text(value.ttl@),
    {
        Self { reason: value.message() }
    }

    /// The conversion error that wraps an [`UnsupportedPartType`]: its reason is that error's text.
    pub fn from_unsupported_part_type(value: UnsupportedPartType) -> (res: Self)
        ensures
            res.reason@ == unsupported_part_type_text(value.part_type@, value.api_type@),
    {
        Self { reason: value.message() }
    }
}

} // verus!
