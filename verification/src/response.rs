//! The error taxonomy and the response envelope.
//!
//! Every outbound response is a JSON object carrying a `status`
//! discriminator: successes splice `"status":"success"` into the payload
//! object itself (a flattened sibling key, not a nested wrapper), failures
//! are `{"status":"failure","error":<message>}` with a transport status code
//! chosen by the error kind. A success payload that is neither a JSON
//! object nor the null literal cannot be enveloped and is refused as a
//! server fault.

use vstd::prelude::*;

use vstd::string::StrSliceExecFns;
use vstd::string::StringExecFns;

verus! {

/// Closed taxonomy of the failures an endpoint can report.
#[derive(Clone, PartialEq, Eq, Debug)]
pub enum ApiError {
    /// An internal fault with a detail string that is logged, not shown.
    Unknown(String),
    /// A failure of the persistence collaborator.
    DatabaseError(String),
    UserNotFound,
    NotLoggedIn,
    IncorrectCredentials,
    /// Input data failed validation.
    InvalidInput(String),
    /// The email the user wanted is already taken.
    EmailTaken,
    /// Only officers can perform the action.
    OfficerRequired,
}

impl ApiError {
    /// The transport status code reported with this error.
    pub open spec fn status_of(&self) -> u16 {
        match self {
            ApiError::Unknown(_) => 500,
            ApiError::DatabaseError(_) => 500,
            ApiError::UserNotFound => 404,
            ApiError::NotLoggedIn => 403,
            ApiError::IncorrectCredentials => 401,
            ApiError::InvalidInput(_) => 400,
            ApiError::EmailTaken => 400,
            ApiError::OfficerRequired => 401,
        }
    }

    /// The human-readable message carried in the failure envelope.
    pub open spec fn message_of(&self) -> Seq<char> {
        match self {
            ApiError::Unknown(msg) => "unknown error: "@ + msg@,
            ApiError::DatabaseError(msg) => "database error: "@ + msg@,
            ApiError::UserNotFound => "user not found"@,
            ApiError::NotLoggedIn => "not logged in"@,
            ApiError::IncorrectCredentials => "incorrect credentials"@,
            ApiError::InvalidInput(msg) => "invalid input: "@ + msg@,
            ApiError::EmailTaken => "email taken"@,
            ApiError::OfficerRequired => "officer permissions required"@,
        }
    }

    /// Transport status code for this error kind.
    pub fn status_code(&self) -> (r: u16)
        ensures
            r == self.status_of(),
    {
        match self {
            ApiError::Unknown(_) => 500,
            ApiError::DatabaseError(_) => 500,
            ApiError::UserNotFound => 404,
            ApiError::NotLoggedIn => 403,
            ApiError::IncorrectCredentials => 401,
            ApiError::InvalidInput(_) => 400,
            ApiError::EmailTaken => 400,
            ApiError::OfficerRequired => 401,
        }
    }

    /// Render the human-readable message for this error.
    pub fn message(&self) -> (r: String)
        ensures
            r@ == self.message_of(),
    {
        match self {
            ApiError::Unknown(msg) => {
                let mut s = String::from_str("unknown error: ");
                s.append(msg.as_str());
                s
            },
            ApiError::DatabaseError(msg) => {
                let mut s = String::from_str("database error: ");
                s.append(msg.as_str());
                s
            },
            ApiError::UserNotFound => String::from_str("user not found"),
            ApiError::NotLoggedIn => String::from_str("not logged in"),
            ApiError::IncorrectCredentials => String::from_str("incorrect credentials"),
            ApiError::InvalidInput(msg) => {
                let mut s = String::from_str("invalid input: ");
                s.append(msg.as_str());
                s
            },
            ApiError::EmailTaken => String::from_str("email taken"),
            ApiError::OfficerRequired => String::from_str("officer permissions required"),
        }
    }
}

/// `null`
pub open spec fn null_bytes() -> Seq<u8> {
    seq![110u8, 117u8, 108u8, 108u8]
}

/// `"status":"success"}`
pub open spec fn success_tail() -> Seq<u8> {
    seq![
        34u8,
        115u8,
        116u8,
        97u8,
        116u8,
        117u8,
        115u8,
        34u8,
        58u8,
        34u8,
        115u8,
        117u8,
        99u8,
        99u8,
        101u8,
        115u8,
        115u8,
        34u8,
        125u8,
    ]
}

/// `{"status":"failure","error":"`
pub open spec fn failure_prefix() -> Seq<u8> {
    seq![
        123u8,
        34u8,
        115u8,
        116u8,
        97u8,
        116u8,
        117u8,
        115u8,
        34u8,
        58u8,
        34u8,
        102u8,
        97u8,
        105u8,
        108u8,
        117u8,
        114u8,
        101u8,
        34u8,
        44u8,
        34u8,
        101u8,
        114u8,
        114u8,
        111u8,
        114u8,
        34u8,
        58u8,
        34u8,
    ]
}

/// Lower-case hexadecimal digit of a value below sixteen.
pub open spec fn hex_digit(n: u8) -> u8 {
    if n < 10 {
        (48 + n) as u8
    } else {
        (87 + n) as u8
    }
}

/// JSON string escaping of one byte: quote, backslash and the common
/// control shorthands get a backslash escape, other control bytes a
/// `\u00XX` escape, everything else passes through.
pub open spec fn escape_byte(b: u8) -> Seq<u8> {
    if b == 34 {
        seq![92u8, 34u8]
    } else if b == 92 {
        seq![92u8, 92u8]
    } else if b == 10 {
        seq![92u8, 110u8]
    } else if b == 13 {
        seq![92u8, 114u8]
    } else if b == 9 {
        seq![92u8, 116u8]
    } else if b < 32 {
        seq![92u8, 117u8, 48u8, 48u8, hex_digit(b / 16), hex_digit(b % 16)]
    } else {
        seq![b]
    }
}

/// JSON string escaping of a byte sequence.
pub open spec fn json_escaped(s: Seq<u8>) -> Seq<u8>
    decreases s.len(),
{
    if s.len() == 0 {
        Seq::empty()
    } else {
        json_escaped(s.drop_last()) + escape_byte(s.last())
    }
}

/// The failure envelope for an error: `{"status":"failure","error":"..."}`
/// with the message JSON-escaped.
pub open spec fn failure_body_of(e: &ApiError) -> Seq<u8> {
    failure_prefix() + json_escaped(vstd::utf8::encode_utf8(e.message_of())) + seq![34u8, 125u8]
}

/// The success envelope for a serialized payload: the null literal becomes
/// the bare status object; an object gets `"status":"success"` spliced in
/// before its closing brace; anything else cannot be enveloped.
pub open spec fn success_body(payload: Seq<u8>) -> Option<Seq<u8>> {
    if payload == null_bytes() {
        Some(seq![123u8] + success_tail())
    } else if payload.len() > 0 && payload.last() == 125 {
        if payload.len() == 2 {
            Some(payload.drop_last() + success_tail())
        } else {
            Some(payload.drop_last() + seq![44u8] + success_tail())
        }
    } else {
        None
    }
}

fn push_success_tail(v: &mut Vec<u8>)
    ensures
        final(v)@ == old(v)@ + success_tail(),
{
    v.push(34);
    v.push(115);
    v.push(116);
    v.push(97);
    v.push(116);
    v.push(117);
    v.push(115);
    v.push(34);
    v.push(58);
    v.push(34);
    v.push(115);
    v.push(117);
    v.push(99);
    v.push(99);
    v.push(101);
    v.push(115);
    v.push(115);
    v.push(34);
    v.push(125);
    proof {
        assert(v@ =~= old(v)@ + success_tail());
    }
}

fn push_failure_prefix(v: &mut Vec<u8>)
    ensures
        final(v)@ == old(v)@ + failure_prefix(),
{
    v.push(123);
    v.push(34);
    v.push(115);
    v.push(116);
    v.push(97);
    v.push(116);
    v.push(117);
    v.push(115);
    v.push(34);
    v.push(58);
    v.push(34);
    v.push(102);
    v.push(97);
    v.push(105);
    v.push(108);
    v.push(117);
    v.push(114);
    v.push(101);
    v.push(34);
    v.push(44);
    v.push(34);
    v.push(101);
    v.push(114);
    v.push(114);
    v.push(111);
    v.push(114);
    v.push(34);
    v.push(58);
    v.push(34);
    proof {
        assert(v@ =~= old(v)@ + failure_prefix());
    }
}

/// Append the JSON escaping of `s`.
fn push_escaped(v: &mut Vec<u8>, s: &[u8])
    ensures
        final(v)@ == old(v)@ + json_escaped(s@),
{
    let mut m: usize = 0;
    proof {
        assert(s@.take(0) =~= Seq::<u8>::empty());
    }
    while m < s.len()
        invariant
            0 <= m <= s@.len(),
            v@ == old(v)@ + json_escaped(s@.take(m as int)),
        decreases s@.len() - m,
    {
        proof {
            assert(s@.take(m + 1).drop_last() =~= s@.take(m as int));
            assert(s@.take(m + 1).last() == s@[m as int]);
        }
        let b = s[m];
        if b == 34 {
            v.push(92);
            v.push(34);
        } else if b == 92 {
            v.push(92);
            v.push(92);
        } else if b == 10 {
            v.push(92);
            v.push(110);
        } else if b == 13 {
            v.push(92);
            v.push(114);
        } else if b == 9 {
            v.push(92);
            v.push(116);
        } else if b < 32 {
            v.push(92);
            v.push(117);
            v.push(48);
            v.push(48);
            let hi = b / 16;
            let lo = b % 16;
            v.push(if hi < 10 { 48 + hi } else { 87 + hi });
            v.push(if lo < 10 { 48 + lo } else { 87 + lo });
        } else {
            v.push(b);
        }
        proof {
            assert(v@ =~= old(v)@ + json_escaped(s@.take(m + 1)));
        }
        m += 1;
    }
    proof {
        assert(s@.take(s@.len() as int) =~= s@);
    }
}

/// Build the failure envelope and its transport status code for an error.
pub fn render_failure(e: &ApiError) -> (r: (Vec<u8>, u16))
    ensures
        r.0@ == failure_body_of(e),
        r.1 == e.status_of(),
{
    let msg = e.message();
    let msg_bytes = msg.as_str().as_bytes_vec();
    let mut body: Vec<u8> = Vec::new();
    push_failure_prefix(&mut body);
    push_escaped(&mut body, msg_bytes.as_slice());
    body.push(34);
    body.push(125);
    let status = e.status_code();
    proof {
        assert(body@ =~= failure_body_of(e));
    }
    (body, status)
}

/// The envelope's success path is owed for every session payload: a
/// serialized session is always an object that can take the spliced
/// `"status":"success"` key before its closing brace.
pub proof fn lemma_session_payload_envelopes(t: crate::auth::UserSession)
    ensures
        success_body(crate::wire::serial_of(t)) == Some(
            crate::wire::serial_of(t).drop_last() + seq![44u8] + success_tail(),
        ),
{
    crate::wire::lemma_serial_shape(t);
}

/// A handler's outcome on its way to the wire: either the serialized
/// payload of a success, or a typed error.
pub struct ApiResponse(pub Result<Vec<u8>, ApiError>);

impl vstd::std_specs::convert::FromSpecImpl<Result<Vec<u8>, ApiError>> for ApiResponse {
    open spec fn obeys_from_spec() -> bool {
        true
    }

    open spec fn from_spec(r: Result<Vec<u8>, ApiError>) -> Self {
        ApiResponse(r)
    }
}

impl From<Result<Vec<u8>, ApiError>> for ApiResponse {
    fn from(r: Result<Vec<u8>, ApiError>) -> (s: Self) {
        ApiResponse(r)
    }
}

impl ApiResponse {
    /// Encode the outcome as wire bytes plus a transport status code.
    /// Successes that satisfy the envelope rule answer 200; failures carry
    /// their own code; a success payload that cannot be enveloped is
    /// refused as a bare server fault.
    pub fn respond(self) -> (r: Result<(Vec<u8>, u16), u16>)
        ensures
            match self.0 {
                Ok(payload) => match success_body(payload@) {
                    Some(b) => r matches Ok(p) && p.0@ == b && p.1 == 200,
                    None => r == Err::<(Vec<u8>, u16), u16>(500u16),
                },
                Err(e) => r matches Ok(p) && p.0@ == failure_body_of(&e) && p.1 == e.status_of(),
            },
    {
        match self.0 {
            Ok(payload) => {
                let is_null = payload.len() == 4 && payload[0] == 110 && payload[1] == 117
                    && payload[2] == 108 && payload[3] == 108;
                proof {
                    if payload@ == null_bytes() {
                        assert(payload@[0] == 110 && payload@[1] == 117 && payload@[2] == 108
                            && payload@[3] == 108);
                    }
                    if is_null {
                        assert(payload@ =~= null_bytes());
                    }
                }
                if is_null {
                    let mut body: Vec<u8> = Vec::new();
                    body.push(123);
                    push_success_tail(&mut body);
                    proof {
                        assert(body@ =~= seq![123u8] + success_tail());
                    }
                    return Ok((body, 200));
                }
                if payload.len() == 0 {
                    return Err(500);
                }
                let last = payload[payload.len() - 1];
                if last != 125 {
                    return Err(500);
                }
                let mut body = payload;
                let _ = body.pop();
                if body.len() != 1 {
                    body.push(44);
                }
                push_success_tail(&mut body);
                proof {
                    if payload@.len() == 2 {
                        assert(body@ =~= payload@.drop_last() + success_tail());
                    } else {
                        assert(body@ =~= payload@.drop_last() + seq![44u8] + success_tail());
                    }
                }
                Ok((body, 200))
            },
            Err(e) => {
                let rendered = render_failure(&e);
                Ok(rendered)
            },
        }
    }
}

} // verus!
