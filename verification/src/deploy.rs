//! The deployment status protocol: decoding of the binary status frames and
//! the client-side state machine that folds them into an outcome.
//!
//! A binary frame is a tagged message. The tag is a 32-bit little-endian
//! variant index; strings are a 64-bit little-endian byte length followed by
//! UTF-8 bytes; a string list is a 64-bit little-endian count followed by
//! that many strings.

use vstd::prelude::*;

use crate::json::{expect, parse_number, skip_ws, spec_expect, spec_parse_number, spec_skip_ws};
use crate::strutil::string_from_utf8;
use vstd::slice::{slice_subrange, slice_to_vec};

verus! {

/// A processing phase reported by the platform while it checks and
/// distributes a deployment.
#[derive(Debug, Clone, Copy, PartialEq, Eq, Structural)]
pub enum State {
    SIZE,
    SECURITY,
    STRUCTURE,
    UPLOAD,
    DNS,
    ERROR,
}

/// One decoded status message.
#[derive(Debug)]
pub enum Message {
    STATE(State),
    DOMAINS(Vec<String>),
    ERROR(String),
    SUCCESS,
}

/// The ghost shape of a status message, with strings as character
/// sequences.
pub ghost enum MessageView {
    State(State),
    Domains(Seq<Seq<char>>),
    Error(Seq<char>),
    Success,
}

/// Relates a decoded message to its ghost shape.
pub open spec fn message_matches(m: Message, v: MessageView) -> bool {
    match (m, v) {
        (Message::STATE(s), MessageView::State(sv)) => s == sv,
        (Message::DOMAINS(ds), MessageView::Domains(dv)) => ds@.map_values(|d: String| d@) == dv,
        (Message::ERROR(e), MessageView::Error(ev)) => e@ == ev,
        (Message::SUCCESS, MessageView::Success) => true,
        _ => false,
    }
}

// ---------------------------------------------------------------------------
// Wire format
// ---------------------------------------------------------------------------
/// The number spelled by four little-endian bytes at `pos`.
pub open spec fn spec_u32_le(b: Seq<u8>, pos: int) -> int {
    b[pos] + 256 * b[pos + 1] + 65536 * b[pos + 2] + 16777216 * b[pos + 3]
}

/// The number spelled by eight little-endian bytes at `pos`.
pub open spec fn spec_u64_le(b: Seq<u8>, pos: int) -> int {
    b[pos] + 0x100 * b[pos + 1] + 0x1_0000 * b[pos + 2] + 0x100_0000 * b[pos + 3] + 0x1_0000_0000
        * b[pos + 4] + 0x100_0000_0000 * b[pos + 5] + 0x1_0000_0000_0000 * b[pos + 6]
        + 0x100_0000_0000_0000 * b[pos + 7]
}

/// A string at `pos`: its characters and the position after it.
pub open spec fn spec_take_string(b: Seq<u8>, pos: int) -> Option<(Seq<char>, int)> {
    if pos + 8 <= b.len() {
        let n = spec_u64_le(b, pos);
        if pos + 8 + n <= b.len() && vstd::utf8::valid_utf8(b.subrange(pos + 8, pos + 8 + n)) {
            Some((vstd::utf8::decode_utf8(b.subrange(pos + 8, pos + 8 + n)), pos + 8 + n))
        } else {
            None
        }
    } else {
        None
    }
}

/// `count` strings starting at `pos`: their characters and the position
/// after the last one.
pub open spec fn spec_take_strings(b: Seq<u8>, pos: int, count: int) -> Option<
    (Seq<Seq<char>>, int),
>
    decreases count,
{
    if count <= 0 {
        Some((Seq::empty(), pos))
    } else {
        match spec_take_string(b, pos) {
            None => None,
            Some((s, next)) => match spec_take_strings(b, next, count - 1) {
                None => None,
                Some((rest, end)) => Some((seq![s] + rest, end)),
            },
        }
    }
}

/// What a binary status frame decodes to, if anything. Trailing bytes after
/// a complete message are tolerated.
pub open spec fn spec_decode_message(b: Seq<u8>) -> Option<MessageView> {
    if b.len() < 4 {
        None
    } else {
        let tag = spec_u32_le(b, 0);
        if tag == 0 {
            if b.len() >= 8 {
                spec_state_of(spec_u32_le(b, 4))
            } else {
                None
            }
        } else if tag == 1 {
            if b.len() >= 12 {
                match spec_take_strings(b, 12, spec_u64_le(b, 4)) {
                    Some((ds, _)) => Some(MessageView::Domains(ds)),
                    None => None,
                }
            } else {
                None
            }
        } else if tag == 2 {
            match spec_take_string(b, 4) {
                Some((s, _)) => Some(MessageView::Error(s)),
                None => None,
            }
        } else if tag == 3 {
            Some(MessageView::Success)
        } else {
            None
        }
    }
}

/// The state a variant index stands for.
pub open spec fn spec_state_of(tag: int) -> Option<MessageView> {
    if tag == 0 {
        Some(MessageView::State(State::SIZE))
    } else if tag == 1 {
        Some(MessageView::State(State::SECURITY))
    } else if tag == 2 {
        Some(MessageView::State(State::STRUCTURE))
    } else if tag == 3 {
        Some(MessageView::State(State::UPLOAD))
    } else if tag == 4 {
        Some(MessageView::State(State::DNS))
    } else if tag == 5 {
        Some(MessageView::State(State::ERROR))
    } else {
        None
    }
}

/// A frame that cannot be decoded is a fatal protocol error.
#[derive(Debug, Clone, Copy, PartialEq, Eq, Structural)]
pub enum ProtocolError {
    UnknownMessage,
}

fn read_u32_le(b: &[u8], pos: usize) -> (r: u32)
    requires
        pos + 4 <= b@.len(),
    ensures
        r == spec_u32_le(b@, pos as int),
{
    (b[pos] as u32) + 256 * (b[pos + 1] as u32) + 65536 * (b[pos + 2] as u32) + 16777216 * (b[pos
        + 3] as u32)
}

fn read_u64_le(b: &[u8], pos: usize) -> (r: u64)
    requires
        pos + 8 <= b@.len(),
    ensures
        r == spec_u64_le(b@, pos as int),
{
    (b[pos] as u64) + 0x100 * (b[pos + 1] as u64) + 0x1_0000 * (b[pos + 2] as u64) + 0x100_0000 * (
    b[pos + 3] as u64) + 0x1_0000_0000 * (b[pos + 4] as u64) + 0x100_0000_0000 * (b[pos + 5] as u64)
        + 0x1_0000_0000_0000 * (b[pos + 6] as u64) + 0x100_0000_0000_0000 * (b[pos + 7] as u64)
}

fn take_string(b: &[u8], pos: usize) -> (r: Option<(String, usize)>)
    ensures
        match r {
            Some((s, next)) => spec_take_string(b@, pos as int) == Some((s@, next as int)),
            None => spec_take_string(b@, pos as int) is None,
        },
{
    let blen = b.len();
    if pos >= blen || blen - pos < 8 {
        return None;
    }
    let n = read_u64_le(b, pos);
    if n > (blen - pos - 8) as u64 {
        return None;
    }
    let start = pos + 8;
    let end = start + (n as usize);
    let bytes = slice_to_vec(slice_subrange(b, start, end));
    match string_from_utf8(bytes) {
        Some(s) => Some((s, end)),
        None => None,
    }
}

fn take_strings(b: &[u8], pos: usize, count: u64) -> (r: Option<(Vec<String>, usize)>)
    ensures
        match r {
            Some((ds, next)) => spec_take_strings(b@, pos as int, count as int) == Some(
                (ds@.map_values(|d: String| d@), next as int),
            ),
            None => spec_take_strings(b@, pos as int, count as int) is None,
        },
    decreases count,
{
    if count == 0 {
        let ds: Vec<String> = Vec::new();
        proof {
            assert(ds@.map_values(|d: String| d@) =~= Seq::<Seq<char>>::empty());
        }
        return Some((ds, pos));
    }
    match take_string(b, pos) {
        None => None,
        Some((s, next)) => match take_strings(b, next, count - 1) {
            None => None,
            Some((rest, end)) => {
                let ghost sview = s@;
                let mut ds: Vec<String> = Vec::new();
                ds.push(s);
                let mut rest = rest;
                let ghost restview = rest@.map_values(|d: String| d@);
                ds.append(&mut rest);
                proof {
                    assert(ds@.map_values(|d: String| d@) =~= seq![sview] + restview);
                }
                Some((ds, end))
            },
        },
    }
}

/// Decodes one binary status frame; exactly the frames the wire format
/// admits are accepted, and anything else is a protocol error.
pub fn decode_message(b: &[u8]) -> (r: Result<Message, ProtocolError>)
    ensures
        match r {
            Ok(m) => spec_decode_message(b@) matches Some(v) && message_matches(m, v),
            Err(_) => spec_decode_message(b@) is None,
        },
{
    let blen = b.len();
    if blen < 4 {
        return Err(ProtocolError::UnknownMessage);
    }
    let tag = read_u32_le(b, 0);
    if tag == 0 {
        if blen < 8 {
            return Err(ProtocolError::UnknownMessage);
        }
        let state_tag = read_u32_le(b, 4);
        let state = if state_tag == 0 {
            State::SIZE
        } else if state_tag == 1 {
            State::SECURITY
        } else if state_tag == 2 {
            State::STRUCTURE
        } else if state_tag == 3 {
            State::UPLOAD
        } else if state_tag == 4 {
            State::DNS
        } else if state_tag == 5 {
            State::ERROR
        } else {
            return Err(ProtocolError::UnknownMessage);
        };
        Ok(Message::STATE(state))
    } else if tag == 1 {
        if blen < 12 {
            return Err(ProtocolError::UnknownMessage);
        }
        let count = read_u64_le(b, 4);
        match take_strings(b, 12, count) {
            Some((ds, _)) => Ok(Message::DOMAINS(ds)),
            None => Err(ProtocolError::UnknownMessage),
        }
    } else if tag == 2 {
        match take_string(b, 4) {
            Some((s, _)) => Ok(Message::ERROR(s)),
            None => Err(ProtocolError::UnknownMessage),
        }
    } else if tag == 3 {
        Ok(Message::SUCCESS)
    } else {
        Err(ProtocolError::UnknownMessage)
    }
}

// ---------------------------------------------------------------------------
// Session state machine
// ---------------------------------------------------------------------------
/// What a finished status session reports.
#[derive(Debug)]
pub enum SessionStep {
    /// Keep reading frames.
    Continue,
    /// Terminal success; the accumulated domains are on the session.
    Succeeded,
    /// Terminal failure with the message to show.
    Failed(String),
}

/// One status connection: the domains reported so far.
#[derive(Debug)]
pub struct DeploymentSession {
    pub domains: Vec<String>,
}

/// The generic failure text used when the platform gives no message.
pub open spec fn spec_generic_error() -> Seq<char> {
    "An error occurred."@
}

impl DeploymentSession {
    /// A fresh session with no domains yet.
    pub fn new() -> (r: DeploymentSession)
        ensures
            r.domains@ =~= Seq::<String>::empty(),
    {
        DeploymentSession { domains: Vec::new() }
    }

    /// Folds one decoded message into the session: domains accumulate,
    /// `SUCCESS` ends the session successfully, an `ERROR` message or the
    /// `ERROR` state ends it with a failure, and every other state keeps it
    /// going. An empty error message becomes the generic failure text.
    pub fn apply(&mut self, m: Message) -> (r: SessionStep)
        ensures
            match m {
                Message::STATE(s) => final(self).domains@ == old(self).domains@ && if s
                    == State::ERROR {
                    r matches SessionStep::Failed(t) && t@ == spec_generic_error()
                } else {
                    r is Continue
                },
                Message::DOMAINS(ds) => r is Continue && final(self).domains@ == old(self).domains@
                    + ds@,
                Message::ERROR(e) => final(self).domains@ == old(self).domains@ && (r matches
                    SessionStep::Failed(t) && if e@.len() == 0 {
                    t@ == spec_generic_error()
                } else {
                    t@ == e@
                }),
                Message::SUCCESS => r is Succeeded && final(self).domains@ == old(self).domains@,
            },
    {
        match m {
            Message::STATE(s) => {
                if s == State::ERROR {
                    SessionStep::Failed(String::from_str("An error occurred."))
                } else {
                    SessionStep::Continue
                }
            },
            Message::DOMAINS(mut ds) => {
                self.domains.append(&mut ds);
                SessionStep::Continue
            },
            Message::ERROR(e) => {
                if e.as_str().unicode_len() == 0 {
                    SessionStep::Failed(String::from_str("An error occurred."))
                } else {
                    SessionStep::Failed(e)
                }
            },
            Message::SUCCESS => SessionStep::Succeeded,
        }
    }

    /// Folds one raw frame: a binary frame is decoded and applied, a text
    /// frame is progress text for display only, and a frame that does not
    /// decode is a fatal protocol error.
    pub fn apply_binary(&mut self, b: &[u8]) -> (r: Result<SessionStep, ProtocolError>)
        ensures
            match r {
                Ok(_) => spec_decode_message(b@) is Some,
                Err(_) => spec_decode_message(b@) is None && final(self).domains@ == old(
                    self,
                ).domains@,
            },
    {
        match decode_message(b) {
            Ok(m) => Ok(self.apply(m)),
            Err(e) => Err(e),
        }
    }
}

/// The progress text shown for each reported state.
pub fn state_text(s: State) -> (r: &'static str)
    ensures
        s == State::SIZE ==> r@ == "Checking size of deployment."@,
        s == State::SECURITY ==> r@ == "Validating deployment security."@,
        s == State::STRUCTURE ==> r@ == "Validating deployment structure."@,
        s == State::UPLOAD ==> r@ == "Preparing deployment for distribution."@,
        s == State::DNS ==> r@ == "Triggering deployment distribution."@,
        s == State::ERROR ==> r@ == "An error occurred."@,
{
    match s {
        State::SIZE => "Checking size of deployment.",
        State::SECURITY => "Validating deployment security.",
        State::STRUCTURE => "Validating deployment structure.",
        State::UPLOAD => "Preparing deployment for distribution.",
        State::DNS => "Triggering deployment distribution.",
        State::ERROR => "An error occurred.",
    }
}

/// Whether an upload chunk of the fixed read size was the last one: the
/// archive streams in 1024-byte chunks, and a short chunk signals the end
/// of the stream.
pub fn chunk_is_final(len: usize) -> (r: bool)
    ensures
        r == (len < 1024),
{
    len < 1024
}

// ---------------------------------------------------------------------------
// The creation response
// ---------------------------------------------------------------------------
/// What the creation endpoint's response means for the client.
#[derive(Debug)]
pub enum CreateOutcome {
    /// The platform accepted the archive and assigned this deployment id.
    Created(u64),
    /// The token was rejected.
    Unauthorized,
    /// The account, organisation or project is suspended; all three false
    /// means the platform refused without saying why.
    Suspended { account: bool, organisation: bool, project: bool },
    /// The platform asked the client to slow down; the body is its message.
    RateLimited(String),
    /// Any other failure; there is no retry.
    Fatal,
}

/// The body of a successful creation response: `{"deployment":<id>}`,
/// with JSON whitespace tolerated around every token.
pub open spec fn spec_parse_create_body(s: Seq<char>) -> Option<int> {
    match spec_expect("{"@, spec_skip_ws(s)) {
        None => None,
        Some(s1) => match spec_expect("\"deployment\""@, spec_skip_ws(s1)) {
            None => None,
            Some(s2) => match spec_expect(":"@, spec_skip_ws(s2)) {
                None => None,
                Some(s3) => match spec_parse_number(spec_skip_ws(s3)) {
                    None => None,
                    Some((id, s4)) => match spec_expect("}"@, spec_skip_ws(s4)) {
                        None => None,
                        Some(s5) => if spec_skip_ws(s5).len() == 0 {
                            Some(id as int)
                        } else {
                            None
                        },
                    },
                },
            },
        },
    }
}

/// A boolean token.
pub open spec fn spec_parse_bool(s: Seq<char>) -> Option<(bool, Seq<char>)> {
    match spec_expect("true"@, s) {
        Some(s1) => Some((true, s1)),
        None => match spec_expect("false"@, s) {
            Some(s1) => Some((false, s1)),
            None => None,
        },
    }
}

/// One `"key": bool` field read after skipping whitespace: the value and
/// the suffix after it.
pub open spec fn spec_parse_bool_field(key: Seq<char>, s: Seq<char>) -> Option<(bool, Seq<char>)> {
    match spec_expect(key, spec_skip_ws(s)) {
        None => None,
        Some(s1) => match spec_expect(":"@, spec_skip_ws(s1)) {
            None => None,
            Some(s2) => spec_parse_bool(spec_skip_ws(s2)),
        },
    }
}

/// The body of a suspension response:
/// `{"account":b,"organisation":b,"project":b}`, with JSON whitespace
/// tolerated around every token.
pub open spec fn spec_parse_suspension(s: Seq<char>) -> Option<(bool, bool, bool)> {
    match spec_expect("{"@, spec_skip_ws(s)) {
        None => None,
        Some(s1) => match spec_parse_bool_field("\"account\""@, s1) {
            None => None,
            Some((account, s2)) => match spec_expect(","@, spec_skip_ws(s2)) {
                None => None,
                Some(s3) => match spec_parse_bool_field("\"organisation\""@, s3) {
                    None => None,
                    Some((organisation, s4)) => match spec_expect(","@, spec_skip_ws(s4)) {
                        None => None,
                        Some(s5) => match spec_parse_bool_field("\"project\""@, s5) {
                            None => None,
                            Some((project, s6)) => match spec_expect("}"@, spec_skip_ws(s6)) {
                                None => None,
                                Some(s7) => if spec_skip_ws(s7).len() == 0 {
                                    Some((account, organisation, project))
                                } else {
                                    None
                                },
                            },
                        },
                    },
                },
            },
        },
    }
}

fn parse_bool_field(s: &str, pos: usize, key: &str) -> (r: Option<(bool, usize)>)
    requires
        pos <= s@.len(),
    ensures
        match r {
            Some((b, next)) => pos <= next <= s@.len() && spec_parse_bool_field(
                key@,
                s@.skip(pos as int),
            ) == Some((b, s@.skip(next as int))),
            None => spec_parse_bool_field(key@, s@.skip(pos as int)) is None,
        },
{
    let p1 = match expect(s, skip_ws(s, pos), key) {
        Some(p) => p,
        None => { return None; },
    };
    let p2 = match expect(s, skip_ws(s, p1), ":") {
        Some(p) => p,
        None => { return None; },
    };
    parse_bool(s, skip_ws(s, p2))
}

fn parse_bool(s: &str, pos: usize) -> (r: Option<(bool, usize)>)
    requires
        pos <= s@.len(),
    ensures
        match r {
            Some((b, next)) => pos <= next <= s@.len() && spec_parse_bool(s@.skip(pos as int))
                == Some((b, s@.skip(next as int))),
            None => spec_parse_bool(s@.skip(pos as int)) is None,
        },
{
    match expect(s, pos, "true") {
        Some(p) => Some((true, p)),
        None => match expect(s, pos, "false") {
            Some(p) => Some((false, p)),
            None => None,
        },
    }
}

/// Interprets the creation response exactly as the protocol demands: 401
/// is unauthorized; 403 carries three suspension booleans (an unreadable
/// body is fatal); 429 surfaces the raw body as a rate-limit message; any
/// other non-2xx status, or a 2xx body that is not `{"deployment":<id>}`,
/// is fatal with no retry.
pub fn interpret_create_response(status: u16, body: &str) -> (r: CreateOutcome)
    ensures
        status == 401 ==> r is Unauthorized,
        status == 403 ==> match spec_parse_suspension(body@) {
            Some((a, o, p)) => (r matches CreateOutcome::Suspended {
                account,
                organisation,
                project,
            } && account == a && organisation == o && project == p),
            None => r is Fatal,
        },
        status == 429 ==> (r matches CreateOutcome::RateLimited(m) && m@ == body@),
        status != 401 && status != 403 && status != 429 ==> {
            &&& !(200 <= status < 300) ==> r is Fatal
            &&& 200 <= status < 300 ==> match spec_parse_create_body(body@) {
                Some(id) => (r matches CreateOutcome::Created(got) && got == id),
                None => r is Fatal,
            }
        },
{
    proof {
        assert(body@.skip(0) =~= body@);
    }
    if status == 401 {
        return CreateOutcome::Unauthorized;
    }
    if status == 403 {
        let p1 = match expect(body, skip_ws(body, 0), "{") {
            Some(p) => p,
            None => { return CreateOutcome::Fatal; },
        };
        let (account, p2) = match parse_bool_field(body, p1, "\"account\"") {
            Some(v) => v,
            None => { return CreateOutcome::Fatal; },
        };
        let p3 = match expect(body, skip_ws(body, p2), ",") {
            Some(p) => p,
            None => { return CreateOutcome::Fatal; },
        };
        let (organisation, p4) = match parse_bool_field(body, p3, "\"organisation\"") {
            Some(v) => v,
            None => { return CreateOutcome::Fatal; },
        };
        let p5 = match expect(body, skip_ws(body, p4), ",") {
            Some(p) => p,
            None => { return CreateOutcome::Fatal; },
        };
        let (project, p6) = match parse_bool_field(body, p5, "\"project\"") {
            Some(v) => v,
            None => { return CreateOutcome::Fatal; },
        };
        let p7 = match expect(body, skip_ws(body, p6), "}") {
            Some(p) => p,
            None => { return CreateOutcome::Fatal; },
        };
        let p8 = skip_ws(body, p7);
        if p8 != body.unicode_len() {
            proof {
                assert(body@.skip(p8 as int).len() != 0);
            }
            return CreateOutcome::Fatal;
        }
        proof {
            assert(body@.skip(p8 as int).len() == 0);
        }
        return CreateOutcome::Suspended { account, organisation, project };
    }
    if status == 429 {
        return CreateOutcome::RateLimited(String::from_str(body));
    }
    if !(200 <= status && status < 300) {
        return CreateOutcome::Fatal;
    }
    let p1 = match expect(body, skip_ws(body, 0), "{") {
        Some(p) => p,
        None => { return CreateOutcome::Fatal; },
    };
    let p2 = match expect(body, skip_ws(body, p1), "\"deployment\"") {
        Some(p) => p,
        None => { return CreateOutcome::Fatal; },
    };
    let p3 = match expect(body, skip_ws(body, p2), ":") {
        Some(p) => p,
        None => { return CreateOutcome::Fatal; },
    };
    let (id, p4) = match parse_number(body, skip_ws(body, p3)) {
        Some(v) => v,
        None => { return CreateOutcome::Fatal; },
    };
    let p5 = match expect(body, skip_ws(body, p4), "}") {
        Some(p) => p,
        None => { return CreateOutcome::Fatal; },
    };
    let p6 = skip_ws(body, p5);
    if p6 != body.unicode_len() {
        proof {
            assert(body@.skip(p6 as int).len() != 0);
        }
        return CreateOutcome::Fatal;
    }
    proof {
        assert(body@.skip(p6 as int).len() == 0);
    }
    CreateOutcome::Created(id)
}

} // verus!
