//! As much of the Redis wire protocol as the proxy needs: decoding a request,
//! finding its command, and encoding an error reply.

use url::Url;
use vstd::prelude::*;
use vstd::string::StringExecFns;
use vstd::string::StringSliceAdditionalSpecFns;
use vstd::utf8::encode_utf8;
use vstd::utf8::valid_utf8;

verus! {

/// A value of the wire protocol.
#[derive(Debug, PartialEq, Eq)]
pub enum RespValue {
    /// The null bulk string, `$-1\r\n`.
    Null,
    /// The null array, `*-1\r\n`.
    NullArray,
    /// A simple string, sent behind `+`.
    String(String),
    /// An error, sent behind `-`.
    Error(String),
    /// An integer, sent behind `:`.
    Integer(i64),
    /// A bulk string, sent behind `$` and its length.
    Bulk(String),
    /// A bulk string that is kept as bytes.
    BufBulk(Vec<u8>),
    /// An array, sent behind `*` and its length.
    Array(Vec<RespValue>),
}

/// Why a request's command could not be read.
#[derive(Debug, PartialEq, Eq)]
pub enum RespErrors {
    /// The request holds no complete value.
    DecodeError,
    /// The request is not well-formed; the text says why.
    DecoderFeedError(String),
    /// The request is an array without items.
    RespArrEmptyError,
    /// The first item of the request is not a string.
    UnsupportedRespArrValError,
    /// The request is not an array.
    UnsupportedRespValError,
}

impl RespErrors {
    /// The error in words.
    pub fn to_string(&self) -> (s: String)
        ensures
            s@ == match *self {
                RespErrors::DecodeError => "Error decoding request body to RESP values"@,
                RespErrors::DecoderFeedError(reason) =>
                    "Error feeding request body to RESP decoder: "@ + reason@,
                RespErrors::RespArrEmptyError => "Error as RESP array is empty"@,
                RespErrors::UnsupportedRespArrValError =>
                    "Error as unsupported resp array value type for a redis command"@,
                RespErrors::UnsupportedRespValError =>
                    "Error as resp value type not supported for redis command"@,
            },
    {
        match self {
            RespErrors::DecodeError => String::from_str(
                "Error decoding request body to RESP values",
            ),
            RespErrors::DecoderFeedError(reason) => {
                let mut s = String::from_str("Error feeding request body to RESP decoder: ");
                s.append(reason.as_str());
                s
            },
            RespErrors::RespArrEmptyError => String::from_str("Error as RESP array is empty"),
            RespErrors::UnsupportedRespArrValError => String::from_str(
                "Error as unsupported resp array value type for a redis command",
            ),
            RespErrors::UnsupportedRespValError => String::from_str(
                "Error as resp value type not supported for redis command",
            ),
        }
    }
}

/// The `Value` of the `resp` crate. Nothing inside it is visible to the
/// verifier.
#[verifier::external_type_specification]
#[verifier::external_body]
pub struct ExValue(resp::Value);

/// What a fresh decoder of the `resp` crate makes of a buffer: `Err` with the
/// decoder's complaint where the buffer breaks the protocol, else the first
/// value that the buffer holds in full, if it holds one. The grammar is the
/// crate's and is not spelled out here.
pub uninterp spec fn resp_decode(bytes: Seq<u8>) -> Result<Option<RespValue>, String>;

/// Rewrites a `Value` of the `resp` crate as a [`RespValue`], variant by
/// variant and item by item. Trusted; nothing is claimed of the result.
#[verifier::external_body]
fn own_value(value: resp::Value) -> RespValue {
    match value {
        resp::Value::Null => RespValue::Null,
        resp::Value::NullArray => RespValue::NullArray,
        resp::Value::String(s) => RespValue::String(s),
        resp::Value::Error(s) => RespValue::Error(s),
        resp::Value::Integer(i) => RespValue::Integer(i),
        resp::Value::Bulk(s) => RespValue::Bulk(s),
        resp::Value::BufBulk(b) => RespValue::BufBulk(b),
        resp::Value::Array(items) => RespValue::Array(items.into_iter().map(own_value).collect()),
    }
}

/// Makes a decoder with `Decoder::new`, hands it the buffer with
/// `Decoder::feed` and takes the first value with `Decoder::read`. Trusted:
/// the outcome depends on the bytes alone.
///
/// The decoder reserves room for as many items as an array announces (fewer
/// than 2^29) before it has seen them, and descends one call per level of
/// nesting.
#[verifier::external_body]
fn feed_and_read(bytes: &[u8]) -> (fed: Result<Option<RespValue>, String>)
    ensures
        fed == resp_decode(bytes@),
{
    let mut decoder = resp::Decoder::new();
    match decoder.feed(bytes) {
        Ok(_) => Ok(decoder.read().map(own_value)),
        Err(err) => Err(err.to_string()),
    }
}

/// What [`decode`] returns for an outcome of the decoder.
pub open spec fn decode_result(fed: Result<Option<RespValue>, String>) -> Result<
    RespValue,
    RespErrors,
> {
    match fed {
        Ok(Some(value)) => Ok(value),
        Ok(None) => Err(RespErrors::DecodeError),
        Err(reason) => Err(RespErrors::DecoderFeedError(reason)),
    }
}

/// Turns an outcome of the decoder into the value it found, or into the error
/// that says why there is none.
pub fn decoded(fed: Result<Option<RespValue>, String>) -> (r: Result<RespValue, RespErrors>)
    ensures
        r == decode_result(fed),
{
    match fed {
        Ok(Some(value)) => Ok(value),
        Ok(None) => Err(RespErrors::DecodeError),
        Err(reason) => Err(RespErrors::DecoderFeedError(reason)),
    }
}

/// Decodes the first value of a request. Bytes behind it are ignored.
///
/// Fails with `DecoderFeedError` where the request breaks the protocol, and
/// with `DecodeError` where it holds no complete value.
pub fn decode(req_body: &str) -> (r: Result<RespValue, RespErrors>)
    ensures
        r == decode_result(resp_decode(req_body.spec_bytes())),
{
    decoded(feed_and_read(req_body.as_bytes()))
}

/// The command of a request: the first item of the array, where that is a
/// bulk string or a simple string.
pub open spec fn command_of(value: RespValue) -> Result<Seq<char>, RespErrors> {
    match value {
        RespValue::Array(items) => if items@.len() == 0 {
            Err(RespErrors::RespArrEmptyError)
        } else {
            match items@[0] {
                RespValue::Bulk(s) => Ok(s@),
                RespValue::String(s) => Ok(s@),
                _ => Err(RespErrors::UnsupportedRespArrValError),
            }
        },
        _ => Err(RespErrors::UnsupportedRespValError),
    }
}

/// The text of an outcome, where it is one.
pub open spec fn ok_text(r: Result<String, RespErrors>) -> Result<Seq<char>, RespErrors> {
    match r {
        Ok(s) => Ok(s@),
        Err(e) => Err(e),
    }
}

/// Reads the command of a decoded request.
///
/// Fails with `UnsupportedRespValError` where the value is not an array, with
/// `RespArrEmptyError` where the array is empty, and with
/// `UnsupportedRespArrValError` where its first item is not a string.
pub fn fetch_redis_command(resp_vals: RespValue) -> (r: Result<String, RespErrors>)
    ensures
        ok_text(r) == command_of(resp_vals),
{
    match resp_vals {
        RespValue::Array(items) => {
            if items.len() == 0 {
                return Err(RespErrors::RespArrEmptyError);
            }
            match &items[0] {
                RespValue::Bulk(s) => Ok(s.clone()),
                RespValue::String(s) => Ok(s.clone()),
                _ => Err(RespErrors::UnsupportedRespArrValError),
            }
        },
        _ => Err(RespErrors::UnsupportedRespValError),
    }
}

/// The bytes of an error reply: `-`, the message, and the line end.
pub open spec fn error_frame(message: Seq<char>) -> Seq<u8> {
    seq![0x2du8] + encode_utf8(message) + seq![0x0du8, 0x0au8]
}

/// Encodes `Value::Error` of the `resp` crate with `Value::encode`. Trusted:
/// the bytes are `-`, the message in UTF-8, and `\r\n`.
#[verifier::external_body]
fn encode_error(message: String) -> (bytes: Vec<u8>)
    ensures
        bytes@ == error_frame(message@),
{
    resp::Value::Error(message).encode()
}

/// Encodes a message as an error reply of the wire protocol. The message is
/// sent as it is: one that holds a line end yields a reply that a client
/// reads as more than one.
pub fn encode_error_message(err_message: String) -> (r: Result<Vec<u8>, RespErrors>)
    ensures
        r matches Ok(bytes) && bytes@ == error_frame(err_message@),
{
    Ok(encode_error(err_message))
}

/// Why an upstream address yields no host name.
#[derive(Debug, Clone, Copy, PartialEq, Eq, Structural)]
pub enum HostNameError {
    /// The address is no URL, with or without a scheme in front.
    InvalidAddress,
    /// The address is a URL without a host.
    MissingHost,
}

impl HostNameError {
    /// The error in words.
    pub fn to_string(&self) -> (s: String)
        ensures
            s@ == match *self {
                HostNameError::InvalidAddress => "Error parsing the redis address"@,
                HostNameError::MissingHost => "Error fetching the hostname from redis address"@,
            },
    {
        match self {
            HostNameError::InvalidAddress => String::from_str("Error parsing the redis address"),
            HostNameError::MissingHost => String::from_str(
                "Error fetching the hostname from redis address",
            ),
        }
    }
}

/// The error of the `url` crate's parser.
#[verifier::external_type_specification]
#[verifier::external_body]
pub struct ExParseError(url::ParseError);

/// What the `url` crate makes of a text: `None` where it is no URL, else the
/// URL's host as the crate spells it, if the URL has one. The grammar is the
/// crate's and is not spelled out here.
pub uninterp spec fn url_host(input: Seq<char>) -> Option<Option<Seq<char>>>;

/// What [`url_host`] says of an outcome of the parser.
pub open spec fn parsed_host(parsed: Result<Option<String>, url::ParseError>) -> Option<
    Option<Seq<char>>,
> {
    match parsed {
        Ok(Some(host)) => Some(Some(host@)),
        Ok(None) => Some(None),
        Err(_) => None,
    }
}

/// Parses with `Url::parse` and takes the host with `Url::host_str`.
/// Trusted: the outcome depends on the text alone.
#[verifier::external_body]
fn parse_host(input: &str) -> (parsed: Result<Option<String>, url::ParseError>)
    ensures
        parsed_host(parsed) == url_host(input@),
{
    Url::parse(input).map(|url| url.host_str().map(String::from))
}

/// The host of an address, given what the parser makes of the address as it
/// stands (`direct`) and with `redis://` in front (`prefixed`): the host of
/// the first where it has one, else that of the second.
pub open spec fn chosen_host(
    direct: Option<Option<Seq<char>>>,
    prefixed: Option<Option<Seq<char>>>,
) -> Result<Seq<char>, HostNameError> {
    match direct {
        Some(Some(host)) => Ok(host),
        _ => match prefixed {
            Some(Some(host)) => Ok(host),
            Some(None) => Err(HostNameError::MissingHost),
            None => Err(HostNameError::InvalidAddress),
        },
    }
}

/// The text of an outcome, where it is one.
pub open spec fn host_text(r: Result<String, HostNameError>) -> Result<Seq<char>, HostNameError> {
    match r {
        Ok(s) => Ok(s@),
        Err(e) => Err(e),
    }
}

/// The characters of a parsed host.
pub open spec fn host_chars(parsed: Option<Option<String>>) -> Option<Option<Seq<char>>> {
    match parsed {
        Some(Some(host)) => Some(Some(host@)),
        Some(None) => Some(None),
        None => None,
    }
}

/// Picks the host of an address from what the parser made of the address as
/// it stands and with `redis://` in front.
pub fn choose_host(direct: Option<Option<String>>, prefixed: Option<Option<String>>) -> (r: Result<
    String,
    HostNameError,
>)
    ensures
        host_text(r) == chosen_host(host_chars(direct), host_chars(prefixed)),
{
    match direct {
        Some(Some(host)) => Ok(host),
        _ => match prefixed {
            Some(Some(host)) => Ok(host),
            Some(None) => Err(HostNameError::MissingHost),
            None => Err(HostNameError::InvalidAddress),
        },
    }
}

/// Parses a text as a URL and keeps the host.
fn host_in(input: &str) -> (r: Option<Option<String>>)
    ensures
        host_chars(r) == url_host(input@),
{
    match parse_host(input) {
        Ok(host) => Some(host),
        Err(_) => None,
    }
}

/// The host name of the upstream address, for the TLS handshake.
///
/// The address is read as a URL. Where that yields no host, as for a plain
/// `host:port`, it is read again with the scheme `redis://` in front.
pub fn get_host_name(redis_server_addr: &str) -> (r: Result<String, HostNameError>)
    ensures
        host_text(r) == chosen_host(
            url_host(redis_server_addr@),
            url_host("redis://"@ + redis_server_addr@),
        ),
{
    let direct = host_in(redis_server_addr);
    let prefixed = match direct {
        Some(Some(_)) => None,
        _ => {
            let mut with_scheme = String::from_str("redis://");
            with_scheme.append(redis_server_addr);
            host_in(with_scheme.as_str())
        },
    };
    choose_host(direct, prefixed)
}

} // verus!
