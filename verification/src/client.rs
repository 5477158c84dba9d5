//! The client's side of the protocol: the request lines it sends, how it reads
//! the server's reply, and what each operation makes of that reply.
use vstd::prelude::*;
use vstd::utf8::{decode_utf8, valid_utf8};
use crate::error::{ChxError, ChxErrorView};
use crate::text::{
    chars_of, concat_str, decode_lossy, string_of, trim, trim_str, utf8_lossy,
};

verus! {

/// The request line that asks for the value of `key`.
pub open spec fn spec_get_request(key: Seq<char>) -> Seq<char> {
    "G "@ + key + "\n"@
}

/// The request line that stores `value` under `key`.
pub open spec fn spec_set_request(key: Seq<char>, value: Seq<char>) -> Seq<char> {
    "S "@ + key + " "@ + value + "\n"@
}

/// The request line that deletes `key`.
pub open spec fn spec_del_request(key: Seq<char>) -> Seq<char> {
    "D "@ + key + "\n"@
}

/// What the client makes of a reply: `!e` and a message is an error sent by
/// the server, `>` and data is the data, a bare `!` acknowledges with no data,
/// anything else is invalid. The reply is trimmed first.
pub open spec fn spec_parse_reply(text: Seq<char>) -> Result<Seq<char>, ChxErrorView> {
    let r = trim(text);
    if r.len() >= 2 && r[0] == '!' && r[1] == 'e' {
        Err(ChxErrorView::ResponseError(r.skip(2)))
    } else if r.len() >= 1 && r[0] == '>' {
        Ok(r.skip(1))
    } else if r.len() >= 1 && r[0] == '!' {
        Ok(Seq::empty())
    } else {
        Err(ChxErrorView::InvalidResponse)
    }
}

/// A reply as character sequences.
pub open spec fn reply_view(r: Result<String, ChxError>) -> Result<Seq<char>, ChxErrorView> {
    match r {
        Ok(s) => Ok(s@),
        Err(e) => Err(e@),
    }
}

/// What a GET makes of the parsed reply: no data, or the server's
/// "Key not found" error, means that the key is absent.
pub open spec fn spec_get_result(r: Result<Seq<char>, ChxErrorView>) -> Result<
    Option<Seq<char>>,
    ChxErrorView,
> {
    match r {
        Ok(s) => if s.len() == 0 {
            Ok(None)
        } else {
            Ok(Some(s))
        },
        Err(e) => match e {
            ChxErrorView::ResponseError(m) => if m == "Key not found"@ {
                Ok(None)
            } else {
                Err(e)
            },
            _ => Err(e),
        },
    }
}

/// A GET's outcome as character sequences.
pub open spec fn get_result_view(r: Result<Option<String>, ChxError>) -> Result<
    Option<Seq<char>>,
    ChxErrorView,
> {
    match r {
        Ok(Some(s)) => Ok(Some(s@)),
        Ok(None) => Ok(None),
        Err(e) => Err(e@),
    }
}

/// What a SET or a DEL makes of the parsed reply: any data acknowledges.
pub open spec fn spec_acknowledge(r: Result<Seq<char>, ChxErrorView>) -> Result<(), ChxErrorView> {
    match r {
        Ok(_) => Ok(()),
        Err(e) => Err(e),
    }
}

/// The request line that asks for the value of `key`.
pub fn get_request(key: &str) -> (line: String)
    ensures
        line@ == spec_get_request(key@),
{
    let head = concat_str("G ", key);
    concat_str(head.as_str(), "\n")
}

/// The request line that stores `value` under `key`.
pub fn set_request(key: &str, value: &str) -> (line: String)
    ensures
        line@ == spec_set_request(key@, value@),
{
    let head = concat_str("S ", key);
    let head = concat_str(head.as_str(), " ");
    let head = concat_str(head.as_str(), value);
    concat_str(head.as_str(), "\n")
}

/// The request line that deletes `key`.
pub fn del_request(key: &str) -> (line: String)
    ensures
        line@ == spec_del_request(key@),
{
    let head = concat_str("D ", key);
    concat_str(head.as_str(), "\n")
}

/// Reads the text of a reply.
pub fn parse_reply(text: &str) -> (r: Result<String, ChxError>)
    ensures
        reply_view(r) == spec_parse_reply(text@),
{
    let trimmed = trim_str(text);
    let chars = chars_of(trimmed.as_str());
    let n = chars.len();
    if n >= 2 && chars[0] == '!' && chars[1] == 'e' {
        Err(ChxError::ResponseError(string_of(&chars, 2, n)))
    } else if n >= 1 && chars[0] == '>' {
        Ok(string_of(&chars, 1, n))
    } else if n >= 1 && chars[0] == '!' {
        Ok(String::new())
    } else {
        Err(ChxError::InvalidResponse)
    }
}

/// Reads the bytes of a reply: they are decoded lossily as UTF-8, then read
/// as `parse_reply` reads text.
pub fn parse_response(bytes: &[u8]) -> (r: Result<String, ChxError>)
    ensures
        reply_view(r) == spec_parse_reply(utf8_lossy(bytes@)),
        valid_utf8(bytes@) ==> reply_view(r) == spec_parse_reply(decode_utf8(bytes@)),
{
    let text = decode_lossy(bytes);
    parse_reply(text.as_str())
}

/// What a GET makes of its reply: `Some` with the data, or `None` where the
/// key is absent.
pub fn get_result(reply: Result<String, ChxError>) -> (r: Result<Option<String>, ChxError>)
    ensures
        get_result_view(r) == spec_get_result(reply_view(reply)),
{
    match reply {
        Ok(s) => {
            if s.as_str().is_empty() {
                Ok(None)
            } else {
                Ok(Some(s))
            }
        },
        Err(ChxError::ResponseError(m)) => {
            let not_found = "Key not found".to_owned();
            if m == not_found {
                Ok(None)
            } else {
                Err(ChxError::ResponseError(m))
            }
        },
        Err(e) => Err(e),
    }
}

/// What a SET or a DEL makes of its reply.
pub fn acknowledge(reply: Result<String, ChxError>) -> (r: Result<(), ChxError>)
    ensures
        match r {
            Ok(()) => spec_acknowledge(reply_view(reply)) == Ok::<(), ChxErrorView>(()),
            Err(e) => spec_acknowledge(reply_view(reply)) == Err::<(), ChxErrorView>(e@),
        },
{
    match reply {
        Ok(_) => Ok(()),
        Err(e) => Err(e),
    }
}

} // verus!
