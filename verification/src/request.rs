//! What one turn of the client asks for, and how it is derived from the
//! sizes the operator gives.

use vstd::prelude::*;

use crate::header::HEADER_LEN;

verus! {

/// The sizes of one request/response turn.
///
/// The header counts towards the request size the operator asked for, so the
/// payload is eight bytes shorter than that size.
#[derive(Clone, Copy, Debug, PartialEq, Eq, Structural)]
pub struct TransferRequest {
    /// Number of bytes the peer is asked to send back.
    pub requested_response_bytes: u64,
    /// Number of payload bytes uploaded after the header.
    pub payload_bytes_to_send: u64,
}

/// Why a pair of sizes cannot be turned into a [`TransferRequest`].
#[derive(Debug, PartialEq, Eq)]
pub enum ConfigError {
    /// The response size is not a size string; `detail` is the parser's message.
    MalformedResponseSize { detail: String },
    /// The request size is not a size string; `detail` is the parser's message.
    MalformedRequestSize { detail: String },
    /// The request size leaves no room for the header.
    RequestTooSmall,
}

/// [`ConfigError`] with its messages as character sequences.
pub enum ConfigFault {
    MalformedResponseSize { detail: Seq<char> },
    MalformedRequestSize { detail: Seq<char> },
    RequestTooSmall,
}

impl View for ConfigError {
    type V = ConfigFault;

    open spec fn view(&self) -> ConfigFault {
        match self {
            ConfigError::MalformedResponseSize { detail } => ConfigFault::MalformedResponseSize {
                detail: detail@,
            },
            ConfigError::MalformedRequestSize { detail } => ConfigFault::MalformedRequestSize {
                detail: detail@,
            },
            ConfigError::RequestTooSmall => ConfigFault::RequestTooSmall,
        }
    }
}

/// A parser outcome with its message as a character sequence.
pub open spec fn parsed_view(parsed: Result<u64, String>) -> Result<u64, Seq<char>> {
    match parsed {
        Ok(size) => Ok(size),
        Err(detail) => Err(detail@),
    }
}

/// The outcome of configuration with the error, if any, viewed as a [`ConfigFault`].
pub open spec fn outcome_view(outcome: Result<TransferRequest, ConfigError>) -> Result<
    TransferRequest,
    ConfigFault,
> {
    match outcome {
        Ok(request) => Ok(request),
        Err(error) => Err(error@),
    }
}

/// The request that a request size and a response size, both in bytes, stand for.
pub open spec fn request_for(request_size: u64, response_size: u64) -> Result<
    TransferRequest,
    ConfigFault,
> {
    if request_size < 8 {
        Err(ConfigFault::RequestTooSmall)
    } else {
        Ok(
            TransferRequest {
                requested_response_bytes: response_size,
                payload_bytes_to_send: (request_size - 8) as u64,
            },
        )
    }
}

/// The request that two parser outcomes stand for. A malformed response size
/// is reported before anything is said about the request size.
pub open spec fn request_for_parsed(
    request_size: Result<u64, Seq<char>>,
    response_size: Result<u64, Seq<char>>,
) -> Result<TransferRequest, ConfigFault> {
    match response_size {
        Err(detail) => Err(ConfigFault::MalformedResponseSize { detail }),
        Ok(response) => match request_size {
            Err(detail) => Err(ConfigFault::MalformedRequestSize { detail }),
            Ok(request) => request_for(request, response),
        },
    }
}

/// What the size-string parser makes of `text`: the number of bytes, or its
/// message for a string it does not accept.
pub uninterp spec fn parsed_byte_size(text: Seq<char>) -> Result<u64, Seq<char>>;

/// Calls `<bytesize::ByteSize as core::str::FromStr>::from_str` and unwraps
/// the byte count with `ByteSize::as_u64`.
///
/// The parser reads nothing but its argument, so its outcome is a function of
/// the text; the contract gives that function a name and claims nothing more.
#[verifier::external_body]
fn parse_byte_size(text: &str) -> (parsed: Result<u64, String>)
    ensures
        parsed_view(parsed) == parsed_byte_size(text@),
{
    match text.parse::<bytesize::ByteSize>() {
        Ok(size) => Ok(size.as_u64()),
        Err(detail) => Err(detail),
    }
}

impl TransferRequest {
    /// Derives the request from sizes in bytes.
    ///
    /// `request_size` is the whole upload, header included; sizes below the
    /// header length are rejected.
    pub fn from_sizes(request_size: u64, response_size: u64) -> (outcome: Result<
        TransferRequest,
        ConfigError,
    >)
        ensures
            outcome_view(outcome) == request_for(request_size, response_size),
    {
        if request_size < HEADER_LEN as u64 {
            Err(ConfigError::RequestTooSmall)
        } else {
            Ok(
                TransferRequest {
                    requested_response_bytes: response_size,
                    payload_bytes_to_send: request_size - HEADER_LEN as u64,
                },
            )
        }
    }

    /// Derives the request from the two outcomes of size-string parsing.
    pub fn from_parsed(request_size: Result<u64, String>, response_size: Result<u64, String>) -> (outcome:
        Result<TransferRequest, ConfigError>)
        ensures
            outcome_view(outcome) == request_for_parsed(
                parsed_view(request_size),
                parsed_view(response_size),
            ),
    {
        match response_size {
            Err(detail) => Err(ConfigError::MalformedResponseSize { detail }),
            Ok(response) => match request_size {
                Err(detail) => Err(ConfigError::MalformedRequestSize { detail }),
                Ok(request) => TransferRequest::from_sizes(request, response),
            },
        }
    }

    /// Parses the two size strings and derives the request from them.
    pub fn parse(request_size: &str, response_size: &str) -> (outcome: Result<
        TransferRequest,
        ConfigError,
    >)
        ensures
            outcome_view(outcome) == request_for_parsed(
                parsed_byte_size(request_size@),
                parsed_byte_size(response_size@),
            ),
    {
        let response = parse_byte_size(response_size);
        let request = parse_byte_size(request_size);
        TransferRequest::from_parsed(request, response)
    }

    /// Total number of bytes one turn writes to the stream: header and payload.
    pub open spec fn upload_bytes(self) -> nat {
        (8 + self.payload_bytes_to_send) as nat
    }
}

/// A request derived from a request size accounts for all of it: header and
/// payload together are exactly the size that was asked for.
pub proof fn lemma_request_covers_request_size(request_size: u64, response_size: u64)
    ensures
        request_for(request_size, response_size) is Ok <==> request_size >= 8,
        request_for(request_size, response_size) matches Ok(request) ==> ({
            &&& request.upload_bytes() == request_size
            &&& request.requested_response_bytes == response_size
        }),
{
}

} // verus!
