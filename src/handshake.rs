//! The protocol side of a connectivity probe: the bytes a validator sends to a proxy and
//! how it reads the proxy's replies. The socket I/O is the caller's.

use vstd::prelude::*;
use vstd::string::StringExecFns;
use crate::proxy::ValidationErrorKind;
use crate::screenshot::{base64_len, base64_of, encode_base64};

verus! {

pub open spec fn is_digit(b: u8) -> bool {
    48 <= b <= 57
}

/// The status code of an HTTP/1.x reply: the reply starts with `HTTP/1.`, a digit, a
/// space and three digits.
pub open spec fn http_status_spec(r: Seq<u8>) -> Option<u16> {
    if r.len() >= 12 && r[0] == 72 && r[1] == 84 && r[2] == 84 && r[3] == 80 && r[4] == 47
        && r[5] == 49 && r[6] == 46 && is_digit(r[7]) && r[8] == 32 && is_digit(r[9])
        && is_digit(r[10]) && is_digit(r[11]) {
        Some(((r[9] - 48) * 100 + (r[10] - 48) * 10 + (r[11] - 48)) as u16)
    } else {
        None
    }
}

/// The verdict on a proxy's reply to `CONNECT`: any 2xx status succeeds, 407 means the
/// credentials were refused, anything else is a protocol error.
pub open spec fn connect_verdict(r: Seq<u8>) -> Result<(), ValidationErrorKind> {
    match http_status_spec(r) {
        Some(s) => if 200 <= s < 300 {
            Ok(())
        } else if s == 407 {
            Err(ValidationErrorKind::AuthRejected)
        } else {
            Err(ValidationErrorKind::ProtocolError)
        },
        None => Err(ValidationErrorKind::ProtocolError),
    }
}

/// The status code of an HTTP/1.x reply (see `http_status_spec`).
pub fn http_status(reply: &[u8]) -> (r: Option<u16>)
    ensures
        r == http_status_spec(reply@),
{
    if reply.len() >= 12 && reply[0] == 72 && reply[1] == 84 && reply[2] == 84 && reply[3] == 80
        && reply[4] == 47 && reply[5] == 49 && reply[6] == 46 && 48 <= reply[7] && reply[7] <= 57
        && reply[8] == 32 && 48 <= reply[9] && reply[9] <= 57 && 48 <= reply[10] && reply[10] <= 57
        && 48 <= reply[11] && reply[11] <= 57 {
        let s: u16 = (reply[9] - 48) as u16 * 100 + (reply[10] - 48) as u16 * 10 + (reply[11] - 48) as u16;
        Some(s)
    } else {
        None
    }
}

/// The verdict on a reply to `CONNECT` (see `connect_verdict`).
pub fn check_connect_reply(reply: &[u8]) -> (r: Result<(), ValidationErrorKind>)
    ensures
        r == connect_verdict(reply@),
{
    match http_status(reply) {
        Some(s) => {
            if 200 <= s && s < 300 {
                Ok(())
            } else if s == 407 {
                Err(ValidationErrorKind::AuthRejected)
            } else {
                Err(ValidationErrorKind::ProtocolError)
            }
        },
        None => Err(ValidationErrorKind::ProtocolError),
    }
}

/// The `CONNECT` request for `target` (`host:port`), with Basic credentials when given.
pub open spec fn connect_request_spec(target: Seq<char>, auth: Option<Seq<char>>) -> Seq<char> {
    "CONNECT "@ + target + " HTTP/1.1\r\nHost: "@ + target + "\r\n"@ + match auth {
        Some(a) => "Proxy-Authorization: Basic "@ + a + "\r\n"@,
        None => Seq::empty(),
    } + "\r\n"@
}

/// The `CONNECT` request for `target`; `encoded_credentials` is the Base64 form of
/// `user:password` when the proxy needs them.
pub fn connect_request(target: &str, encoded_credentials: Option<&str>) -> (r: String)
    ensures
        r@ == connect_request_spec(target@, match encoded_credentials {
            Some(a) => Some(a@),
            None => None,
        }),
{
    let mut s = <String as StringExecFns>::from_str("CONNECT ");
    s.append(target);
    s.append(" HTTP/1.1\r\nHost: ");
    s.append(target);
    s.append("\r\n");
    match encoded_credentials {
        Some(a) => {
            s.append("Proxy-Authorization: Basic ");
            s.append(a);
            s.append("\r\n");
        },
        None => {},
    }
    s.append("\r\n");
    proof {
        let auth = match encoded_credentials {
            Some(a) => Some(a@),
            None => None::<Seq<char>>,
        };
        assert(s@ =~= connect_request_spec(target@, auth));
    }
    s
}

/// The Base64 form of `bytes`, the UTF-8 of `user:password`, for a `Proxy-Authorization`
/// header.
pub fn encode_credentials(bytes: &Vec<u8>) -> (r: String)
    requires
        base64_len(bytes@.len()) <= usize::MAX,
    ensures
        r@ == base64_of(bytes@),
{
    encode_base64(bytes)
}

/// What a SOCKS5 client does after the server's method choice.
#[derive(Debug, Clone, Copy, PartialEq, Eq, Structural)]
pub enum Socks5Step {
    /// The server needs no authentication: the proxy is usable.
    Ready,
    /// The server chose username/password authentication.
    Authenticate,
    Failed(ValidationErrorKind),
}

/// The SOCKS5 greeting: version 5, offering "no authentication", and username/password
/// too when the client has credentials.
pub open spec fn socks5_greeting_spec(with_credentials: bool) -> Seq<u8> {
    if with_credentials {
        seq![5u8, 2u8, 0u8, 2u8]
    } else {
        seq![5u8, 1u8, 0u8]
    }
}

pub fn socks5_greeting(with_credentials: bool) -> (r: Vec<u8>)
    ensures
        r@ == socks5_greeting_spec(with_credentials),
{
    let r = if with_credentials {
        vec![5u8, 2u8, 0u8, 2u8]
    } else {
        vec![5u8, 1u8, 0u8]
    };
    proof {
        assert(r@ =~= socks5_greeting_spec(with_credentials));
    }
    r
}

/// The step after the server's method choice `r`: "no authentication" is ready,
/// username/password needs the sub-negotiation when it was offered, "no acceptable
/// method" means the credentials were refused, and anything else is a protocol error.
pub open spec fn socks5_method_step_spec(r: Seq<u8>, with_credentials: bool) -> Socks5Step {
    if r.len() < 2 || r[0] != 5 {
        Socks5Step::Failed(ValidationErrorKind::ProtocolError)
    } else if r[1] == 0 {
        Socks5Step::Ready
    } else if r[1] == 2 && with_credentials {
        Socks5Step::Authenticate
    } else if r[1] == 255 {
        Socks5Step::Failed(ValidationErrorKind::AuthRejected)
    } else {
        Socks5Step::Failed(ValidationErrorKind::ProtocolError)
    }
}

pub fn socks5_method_step(reply: &[u8], with_credentials: bool) -> (r: Socks5Step)
    ensures
        r == socks5_method_step_spec(reply@, with_credentials),
{
    if reply.len() < 2 || reply[0] != 5 {
        Socks5Step::Failed(ValidationErrorKind::ProtocolError)
    } else if reply[1] == 0 {
        Socks5Step::Ready
    } else if reply[1] == 2 && with_credentials {
        Socks5Step::Authenticate
    } else if reply[1] == 255 {
        Socks5Step::Failed(ValidationErrorKind::AuthRejected)
    } else {
        Socks5Step::Failed(ValidationErrorKind::ProtocolError)
    }
}

/// The username/password request: version 1, then each field with its length in one
/// byte; `None` when a field is empty or longer than 255 bytes.
pub open spec fn socks5_auth_request_spec(user: Seq<u8>, password: Seq<u8>) -> Option<Seq<u8>> {
    if 1 <= user.len() <= 255 && 1 <= password.len() <= 255 {
        Some(seq![1u8, user.len() as u8] + user + seq![password.len() as u8] + password)
    } else {
        None
    }
}

pub fn socks5_auth_request(user: &[u8], password: &[u8]) -> (r: Option<Vec<u8>>)
    ensures
        r matches Some(v) ==> socks5_auth_request_spec(user@, password@) == Some(v@),
        r is None ==> socks5_auth_request_spec(user@, password@) is None,
{
    if user.len() == 0 || user.len() > 255 || password.len() == 0 || password.len() > 255 {
        return None;
    }
    let mut out: Vec<u8> = vec![1u8, user.len() as u8];
    let mut i: usize = 0;
    while i < user.len()
        invariant
            i <= user@.len(),
            out@ == seq![1u8, user@.len() as u8] + user@.take(i as int),
        decreases user@.len() - i,
    {
        out.push(user[i]);
        proof {
            assert(user@.take(i + 1) =~= user@.take(i as int).push(user@[i as int]));
        }
        i = i + 1;
    }
    out.push(password.len() as u8);
    let mut j: usize = 0;
    while j < password.len()
        invariant
            j <= password@.len(),
            user@.take(user@.len() as int) == user@,
            out@ == seq![1u8, user@.len() as u8] + user@ + seq![password@.len() as u8] + password@.take(j as int),
        decreases password@.len() - j,
    {
        out.push(password[j]);
        proof {
            assert(password@.take(j + 1) =~= password@.take(j as int).push(password@[j as int]));
        }
        j = j + 1;
    }
    proof {
        assert(password@.take(password@.len() as int) =~= password@);
        assert(out@ =~= seq![1u8, user@.len() as u8] + user@ + seq![password@.len() as u8] + password@);
    }
    Some(out)
}

/// The verdict on the server's reply `r` to the username/password request: version 1
/// and status 0 succeed, another status means the credentials were refused.
pub open spec fn socks5_auth_verdict(r: Seq<u8>) -> Result<(), ValidationErrorKind> {
    if r.len() < 2 || r[0] != 1 {
        Err(ValidationErrorKind::ProtocolError)
    } else if r[1] == 0 {
        Ok(())
    } else {
        Err(ValidationErrorKind::AuthRejected)
    }
}

pub fn check_socks5_auth_reply(reply: &[u8]) -> (r: Result<(), ValidationErrorKind>)
    ensures
        r == socks5_auth_verdict(reply@),
{
    if reply.len() < 2 || reply[0] != 1 {
        Err(ValidationErrorKind::ProtocolError)
    } else if reply[1] == 0 {
        Ok(())
    } else {
        Err(ValidationErrorKind::AuthRejected)
    }
}

/// Bytes per second for `bytes` moved in `elapsed_ms` milliseconds (taken as at least
/// one), saturating at the largest `u64`.
pub open spec fn bandwidth_spec(bytes: u64, elapsed_ms: u64) -> int {
    let v = (bytes as int * 1000) / (if elapsed_ms == 0 { 1 } else { elapsed_ms as int });
    if v > u64::MAX { u64::MAX as int } else { v }
}

pub fn bandwidth_estimate(bytes: u64, elapsed_ms: u64) -> (r: u64)
    ensures
        r == bandwidth_spec(bytes, elapsed_ms),
{
    let ms: u128 = if elapsed_ms == 0 { 1 } else { elapsed_ms as u128 };
    let v: u128 = bytes as u128 * 1000 / ms;
    if v > u64::MAX as u128 {
        u64::MAX
    } else {
        v as u64
    }
}

} // verus!
