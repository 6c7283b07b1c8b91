//! The pet's side of the control channel: what a connection's bytes are
//! answered, how a validated request becomes the pet's own representation,
//! and the request text that the command-line client sends.
//!
//! The pipe itself, the worker thread and the bounded channel belong to the
//! caller, which hands the outcome of each step back in as a plain value.
use vstd::prelude::*;
use vstd::utf8::{decode_utf8, valid_utf8};
use crate::behavior::PetAction;
use crate::json::{decimal, json_string, push_decimal, push_json_string};
use crate::protocol::{
    build_command, build_query, member_before, opt_view, outcome_view, push_decimal_member_before,
    push_string_member_before, spec_command_json, spec_query_json, spec_validate,
    validate_decoded, Motion, Request, Response, ValidateError, ValidateErrorModel, WireCommand,
    WireCommandModel, WireRequest, WireRequestModel, MAX_MESSAGE_BYTES,
};
use crate::text::{chars_of, contains, push_str, str_contains, str_eq};

verus! {

/// A validated request, in the pet's own representation.
#[derive(Debug, Clone)]
pub enum ValidatedRequest {
    Expression(ValidatedExpression),
    Command { id: Option<String>, command: ValidatedCommand },
}

/// A validated `expression` request.
#[derive(Debug, Clone)]
pub struct ValidatedExpression {
    pub id: Option<String>,
    pub text: Option<String>,
    pub motion: Option<Motion>,
    pub priority: crate::protocol::Priority,
    pub duration_ms: Option<u64>,
}

/// A validated command.
#[derive(Debug, Clone)]
pub enum ValidatedCommand {
    Show,
    Hide,
    ResetPosition,
    DismissBubble,
    Character(String),
}

impl View for ValidatedCommand {
    type V = WireCommandModel;

    open spec fn view(&self) -> WireCommandModel {
        match self {
            ValidatedCommand::Show => WireCommandModel::Show,
            ValidatedCommand::Hide => WireCommandModel::Hide,
            ValidatedCommand::ResetPosition => WireCommandModel::ResetPosition,
            ValidatedCommand::DismissBubble => WireCommandModel::DismissBubble,
            ValidatedCommand::Character(c) => WireCommandModel::Character(c@),
        }
    }
}

impl View for ValidatedRequest {
    type V = WireRequestModel;

    open spec fn view(&self) -> WireRequestModel {
        match self {
            ValidatedRequest::Expression(e) => WireRequestModel::Expression {
                id: opt_view(e.id),
                text: opt_view(e.text),
                motion: e.motion,
                priority: e.priority,
                duration_ms: e.duration_ms,
            },
            ValidatedRequest::Command { id, command } => WireRequestModel::Command {
                id: opt_view(*id),
                command: command@,
            },
        }
    }
}

impl ValidatedRequest {
    /// The request's id, whichever kind it is.
    pub open spec fn spec_id(&self) -> Option<Seq<char>> {
        match self@ {
            WireRequestModel::Expression { id, .. } => id,
            WireRequestModel::Command { id, .. } => id,
        }
    }

    /// The request's id.
    pub fn id(&self) -> (r: Option<String>)
        ensures
            opt_view(r) == self.spec_id(),
    {
        let i = match self {
            ValidatedRequest::Expression(e) => &e.id,
            ValidatedRequest::Command { id, .. } => id,
        };
        match i {
            Some(s) => Some(s.clone()),
            None => None,
        }
    }
}

/// The pet action that a semantic motion plays.
pub open spec fn spec_motion_action(m: Motion) -> PetAction {
    match m {
        Motion::Idle => PetAction::Idle,
        Motion::Blink => PetAction::Blink,
        Motion::Nod => PetAction::Nod,
        Motion::Shake => PetAction::Shake,
    }
}

/// Semantic motion to the pet's own action.
pub fn motion_to_action(m: Motion) -> (r: PetAction)
    ensures
        r == spec_motion_action(m),
{
    match m {
        Motion::Idle => PetAction::Idle,
        Motion::Blink => PetAction::Blink,
        Motion::Nod => PetAction::Nod,
        Motion::Shake => PetAction::Shake,
    }
}

/// The bubble priority that a request priority gets.
pub open spec fn spec_presentation_priority(
    p: crate::protocol::Priority,
) -> crate::presentation::Priority {
    match p {
        crate::protocol::Priority::Low => crate::presentation::Priority::Idle,
        crate::protocol::Priority::Normal => crate::presentation::Priority::System,
        crate::protocol::Priority::High => crate::presentation::Priority::User,
    }
}

/// Request priority to bubble priority: low, normal and high become idle,
/// system and user.
pub fn priority_to_presentation(p: crate::protocol::Priority) -> (r:
    crate::presentation::Priority)
    ensures
        r == spec_presentation_priority(p),
{
    match p {
        crate::protocol::Priority::Low => crate::presentation::Priority::Idle,
        crate::protocol::Priority::Normal => crate::presentation::Priority::System,
        crate::protocol::Priority::High => crate::presentation::Priority::User,
    }
}

/// What decoding and validation make of a message: `None` is text that did
/// not decode as a request.
pub open spec fn spec_parse_outcome(decoded: Option<Request>) -> Result<
    WireRequestModel,
    ValidateErrorModel,
> {
    match decoded {
        Some(q) => spec_validate(q),
        None => Err(ValidateErrorModel::InvalidJson),
    }
}

fn from_wire(w: WireRequest) -> (r: ValidatedRequest)
    ensures
        r@ == w@,
{
    match w {
        WireRequest::Expression { id, text, motion, priority, duration_ms } =>
            ValidatedRequest::Expression(
            ValidatedExpression { id, text, motion, priority, duration_ms },
        ),
        WireRequest::Command { id, command } => {
            let cmd = match command {
                WireCommand::Show => ValidatedCommand::Show,
                WireCommand::Hide => ValidatedCommand::Hide,
                WireCommand::ResetPosition => ValidatedCommand::ResetPosition,
                WireCommand::DismissBubble => ValidatedCommand::DismissBubble,
                WireCommand::Character(c) => ValidatedCommand::Character(c),
            };
            ValidatedRequest::Command { id, command: cmd }
        },
    }
}

/// Validates a decoded message and converts it; a refusal comes back as the
/// error's message.
pub fn parse_request(decoded: Option<Request>) -> (r: Result<ValidatedRequest, String>)
    ensures
        match spec_parse_outcome(decoded) {
            Ok(w) => r is Ok && r->Ok_0@ == w,
            Err(e) => r is Err && r->Err_0@ == ValidateError::spec_message(e),
        },
{
    match validate_decoded(decoded) {
        Ok(w) => Ok(from_wire(w)),
        Err(e) => Err(e.to_string()),
    }
}

/// `std::str::from_utf8`, owned: the text that the bytes encode, or `None`
/// when they are not UTF-8.
///
/// The contract claims what the standard library documents: the conversion
/// succeeds exactly on valid UTF-8 (vstd's `valid_utf8`, the Unicode
/// definition), and then yields the decoded characters.
#[verifier::external_body]
fn utf8_text(bytes: &[u8]) -> (r: Option<String>)
    ensures
        r is Some <==> valid_utf8(bytes@),
        r is Some ==> r->0@ == decode_utf8(bytes@),
{
    match std::str::from_utf8(bytes) {
        Ok(s) => Some(s.to_string()),
        Err(_) => None,
    }
}

/// Whether `serde_json::from_slice::<serde_json::Value>` accepts the bytes:
/// they hold exactly one JSON value, with nothing but whitespace around it.
pub uninterp spec fn json_value_ok(b: Seq<u8>) -> bool;

/// `serde_json::from_slice::<serde_json::Value>`, reporting whether it succeeds.
///
/// The contract names the outcome only: it depends on the bytes alone; the
/// JSON grammar behind it is not stated.
#[verifier::external_body]
pub(crate) fn is_complete_json(bytes: &[u8]) -> (r: bool)
    ensures
        r == json_value_ok(bytes@),
{
    serde_json::from_slice::<serde_json::Value>(bytes).is_ok()
}

/// Whether reading a message stops after a read of `n` bytes that brought
/// the buffer's filled prefix to `total` bytes: the stream has ended, the
/// buffer is full, or the filled prefix already holds one whole JSON value.
pub fn read_finished(buf: &[u8], total: usize, n: usize) -> (r: bool)
    requires
        total <= buf@.len(),
    ensures
        r == (n == 0 || total == buf@.len() || json_value_ok(buf@.take(total as int))),
{
    if n == 0 || total == buf.len() {
        return true;
    }
    let filled = vstd::slice::slice_subrange(buf, 0, total);
    assert(filled@ == buf@.take(total as int));
    is_complete_json(filled)
}

/// The first step with a message's bytes.
#[derive(Debug)]
pub enum Screened {
    /// Nothing to answer (no bytes, or the internal wake-up message).
    Ignore,
    /// Answer with this and stop.
    Reply(Response),
    /// Text to decode as a request.
    Text(String),
}

/// The internal message that wakes the server for shutdown.
pub open spec fn stop_marker() -> Seq<char> {
    "__stop"@
}

/// `resp` refuses with `msg` and no id.
pub open spec fn is_refusal(resp: Response, msg: Seq<char>) -> bool {
    &&& !resp.ok
    &&& resp.id is None
    &&& resp.accepted is None
    &&& resp.error is Some
    &&& resp.error->0@ == msg
}

/// Screens the bytes of one message before decoding: empty ones are ignored,
/// too long or non-UTF-8 ones refused, the wake-up message ignored.
pub fn screen_message(bytes: &[u8]) -> (r: Screened)
    ensures
        bytes@.len() == 0 ==> r is Ignore,
        bytes@.len() > MAX_MESSAGE_BYTES ==> r is Reply && is_refusal(
            r->Reply_0,
            "message too large"@,
        ),
        0 < bytes@.len() <= MAX_MESSAGE_BYTES && !valid_utf8(bytes@) ==> r is Reply
            && is_refusal(r->Reply_0, "invalid utf-8"@),
        0 < bytes@.len() <= MAX_MESSAGE_BYTES && valid_utf8(bytes@) && contains(
            decode_utf8(bytes@),
            stop_marker(),
        ) ==> r is Ignore,
        0 < bytes@.len() <= MAX_MESSAGE_BYTES && valid_utf8(bytes@) && !contains(
            decode_utf8(bytes@),
            stop_marker(),
        ) ==> r is Text && r->Text_0@ == decode_utf8(bytes@),
{
    if bytes.len() == 0 {
        return Screened::Ignore;
    }
    if bytes.len() > MAX_MESSAGE_BYTES {
        return Screened::Reply(Response::err(None, "message too large"));
    }
    match utf8_text(bytes) {
        None => Screened::Reply(Response::err(None, "invalid utf-8")),
        Some(text) => {
            let v = chars_of(text.as_str());
            if str_contains(v.as_slice(), "__stop") {
                Screened::Ignore
            } else {
                Screened::Text(text)
            }
        },
    }
}

/// Decodes nothing itself: takes the decoding's outcome and either admits the
/// request or gives the refusal to send back (with no id).
pub fn admit_request(decoded: Option<Request>) -> (r: Result<ValidatedRequest, Response>)
    ensures
        match spec_parse_outcome(decoded) {
            Ok(w) => r is Ok && r->Ok_0@ == w,
            Err(e) => r is Err && is_refusal(r->Err_0, ValidateError::spec_message(e)),
        },
{
    match parse_request(decoded) {
        Ok(req) => Ok(req),
        Err(msg) => Err(Response::err(None, msg.as_str())),
    }
}

/// What handing an admitted request to the bounded queue gave.
#[derive(Debug, Clone, Copy, PartialEq, Eq, Structural)]
pub enum SendOutcome {
    Sent,
    Full,
    Disconnected,
}

/// The answer to an admitted request, once the queue has taken it or not.
pub fn queue_response(id: Option<String>, outcome: SendOutcome) -> (r: Response)
    ensures
        r.id == id,
        outcome == SendOutcome::Sent ==> r.ok && r.accepted == Some(true) && r.error is None,
        outcome == SendOutcome::Full ==> !r.ok && r.accepted is None && r.error is Some
            && r.error->0@ == "queue_full"@,
        outcome == SendOutcome::Disconnected ==> !r.ok && r.accepted is None && r.error is Some
            && r.error->0@ == "server_shutting_down"@,
{
    match outcome {
        SendOutcome::Sent => Response::ok(id),
        SendOutcome::Full => Response::err(id, "queue_full"),
        SendOutcome::Disconnected => Response::err(id, "server_shutting_down"),
    }
}

// ---------- command-line client ----------

/// The text of each argument.
pub open spec fn args_view(args: Seq<String>) -> Seq<Seq<char>> {
    args.map_values(|s: String| s@)
}

/// Argument `i`, if there is one.
pub open spec fn arg_at(args: Seq<Seq<char>>, i: int) -> Option<Seq<char>> {
    if 0 <= i < args.len() {
        Some(args[i])
    } else {
        None
    }
}

/// Argument `i`, or the empty text.
pub open spec fn arg_or_empty(args: Seq<Seq<char>>, i: int) -> Seq<char> {
    if 0 <= i < args.len() {
        args[i]
    } else {
        Seq::empty()
    }
}

/// An ASCII decimal digit.
pub open spec fn is_digit(c: char) -> bool {
    '0' <= c && c <= '9'
}

/// The value of a string of decimal digits.
pub open spec fn digits_value(s: Seq<char>) -> nat
    decreases s.len(),
{
    if s.len() == 0 {
        0
    } else {
        digits_value(s.drop_last()) * 10 + ((s.last() as int) - ('0' as int)) as nat
    }
}

/// `str::parse::<u32>`: an optional `+`, then one or more ASCII digits whose
/// value fits in a `u32`.
pub open spec fn spec_parse_u32(s: Seq<char>) -> Option<u32> {
    let body = unsigned_body(s);
    if body.len() > 0 && all_digits(body) && digits_value(body) <= u32::MAX {
        Some(digits_value(body) as u32)
    } else {
        None
    }
}

/// The text after an optional leading `+`.
pub open spec fn unsigned_body(s: Seq<char>) -> Seq<char> {
    if s.len() > 0 && s[0] == '+' {
        s.subrange(1, s.len() as int)
    } else {
        s
    }
}

/// Every character is an ASCII digit.
pub open spec fn all_digits(s: Seq<char>) -> bool {
    forall|i: int| 0 <= i < s.len() ==> is_digit(#[trigger] s[i])
}

proof fn lemma_digits_value_grows(s: Seq<char>, c: char)
    requires
        is_digit(c),
    ensures
        digits_value(s.push(c)) >= digits_value(s),
        digits_value(s.push(c)) == digits_value(s) * 10 + ((c as int) - ('0' as int)),
{
    assert(s.push(c).drop_last() =~= s);
}

/// Parses a decimal `u32` as `str::parse::<u32>` does.
pub fn parse_u32(s: &str) -> (r: Option<u32>)
    ensures
        r == spec_parse_u32(s@),
{
    let v = chars_of(s);
    let start: usize = if v.len() > 0 && v[0] == '+' {
        1
    } else {
        0
    };
    let ghost body = v@.subrange(start as int, v@.len() as int);
    assert(body =~= unsigned_body(s@));
    if start >= v.len() {
        return None;
    }
    let mut acc: u64 = 0;
    let mut i: usize = start;
    while i < v.len()
        invariant
            v@ == s@,
            body == unsigned_body(s@),
            start <= i <= v@.len(),
            body == v@.subrange(start as int, v@.len() as int),
            forall|k: int| start <= k < i ==> is_digit(#[trigger] v@[k]),
            acc == digits_value(v@.subrange(start as int, i as int)),
            acc <= u32::MAX,
        decreases v@.len() - i,
    {
        let c = v[i];
        if !('0' <= c && c <= '9') {
            assert(body[i - start] == c);
            assert(!is_digit(body[i - start]));
            return None;
        }
        proof {
            lemma_digits_value_grows(v@.subrange(start as int, i as int), c);
            assert(v@.subrange(start as int, i as int).push(c) =~= v@.subrange(
                start as int,
                i + 1,
            ));
        }
        let d: u64 = (c as u32 - '0' as u32) as u64;
        let next: u64 = acc * 10 + d;
        if next > 0xffff_ffff {
            proof {
                assert(body.subrange(0, (i + 1 - start) as int) =~= v@.subrange(
                    start as int,
                    i + 1,
                ));
                lemma_prefix_too_large(body, (i + 1 - start) as int);
            }
            return None;
        }
        acc = next;
        i = i + 1;
    }
    assert(v@.subrange(start as int, i as int) =~= body);
    Some(acc as u32)
}

/// Digits whose prefix is already too large for a `u32` do not parse.
proof fn lemma_prefix_too_large(body: Seq<char>, k: int)
    requires
        0 <= k <= body.len(),
        digits_value(body.subrange(0, k)) > u32::MAX,
    ensures
        !(all_digits(body) && digits_value(body) <= u32::MAX),
{
    if all_digits(body) {
        lemma_digits_prefix_bound(body, k);
    }
}

/// A string of digits is worth at least any of its prefixes.
proof fn lemma_digits_prefix_bound(s: Seq<char>, k: int)
    requires
        0 <= k <= s.len(),
        forall|i: int| 0 <= i < s.len() ==> is_digit(#[trigger] s[i]),
    ensures
        digits_value(s.subrange(0, k)) <= digits_value(s),
    decreases s.len() - k,
{
    if k < s.len() {
        lemma_digits_prefix_bound(s, k + 1);
        lemma_digits_value_grows(s.subrange(0, k), s[k]);
        assert(s.subrange(0, k).push(s[k]) =~= s.subrange(0, k + 1));
    } else {
        assert(s.subrange(0, k) =~= s);
    }
}

/// The options of `send` (`--motion`, `--priority`, `--duration`) from
/// argument `i` on; a later option overrides an earlier one, and a duration
/// that does not parse clears it.
pub open spec fn scan_send_options(
    args: Seq<Seq<char>>,
    i: int,
    motion: Option<Seq<char>>,
    priority: Option<Seq<char>>,
    duration: Option<u32>,
) -> (Option<Seq<char>>, Option<Seq<char>>, Option<u32>)
    decreases args.len() + 1 - i,
{
    if i < 0 || i >= args.len() {
        (motion, priority, duration)
    } else if args[i] == "--motion"@ {
        scan_send_options(args, i + 2, arg_at(args, i + 1), priority, duration)
    } else if args[i] == "--priority"@ {
        scan_send_options(args, i + 2, motion, arg_at(args, i + 1), duration)
    } else if args[i] == "--duration"@ {
        scan_send_options(
            args,
            i + 2,
            motion,
            priority,
            match arg_at(args, i + 1) {
                Some(a) => spec_parse_u32(a),
                None => None,
            },
        )
    } else {
        scan_send_options(args, i + 1, motion, priority, duration)
    }
}

/// The JSON text that `send` writes (keys in lexicographic order; motion and
/// priority are passed on as given, for the pet to validate).
pub open spec fn spec_send_json(
    text: Seq<char>,
    motion: Option<Seq<char>>,
    priority: Option<Seq<char>>,
    duration: Option<u32>,
) -> Seq<char> {
    "{"@ + member_before(
        "\"duration_ms\":"@,
        match duration {
            Some(d) => Some(decimal(d as nat)),
            None => None,
        },
    ) + member_before(
        "\"motion\":"@,
        match motion {
            Some(m) => Some(json_string(m)),
            None => None,
        },
    ) + member_before(
        "\"priority\":"@,
        match priority {
            Some(p) => Some(json_string(p)),
            None => None,
        },
    ) + "\"text\":"@ + json_string(text) + ",\"type\":\"expression\",\"version\":1}"@
}

/// The JSON text that `motion` writes.
pub open spec fn spec_motion_json(motion: Seq<char>) -> Seq<char> {
    "{\"motion\":"@ + json_string(motion) + ",\"type\":\"expression\",\"version\":1}"@
}

/// The request that a command line sends, or `None` when it is no client
/// invocation (fewer than two arguments, or an unknown subcommand).
pub open spec fn spec_cli_request(args: Seq<Seq<char>>) -> Option<Seq<char>> {
    if args.len() < 2 {
        None
    } else {
        let sub = args[1];
        if sub == "send"@ {
            let opts = scan_send_options(args, 3, None, None, None);
            Some(spec_send_json(arg_or_empty(args, 2), opts.0, opts.1, opts.2))
        } else if sub == "motion"@ {
            Some(spec_motion_json(arg_or_empty(args, 2)))
        } else if sub == "hide"@ {
            Some(spec_command_json("hide"@, None))
        } else if sub == "show"@ {
            Some(spec_command_json("show"@, None))
        } else if sub == "dismiss"@ {
            Some(spec_command_json("dismiss_bubble"@, None))
        } else if sub == "reset"@ {
            Some(spec_command_json("reset_position"@, None))
        } else if sub == "character"@ {
            Some(spec_command_json("character"@, Some(arg_or_empty(args, 2))))
        } else if sub == "status"@ || sub == "query"@ {
            Some(spec_query_json("status"@))
        } else {
            None
        }
    }
}

fn arg_str(args: &[String], i: usize) -> (r: Option<&str>)
    ensures
        match arg_at(args_view(args@), i as int) {
            Some(a) => r is Some && r->0@ == a,
            None => r is None,
        },
{
    if i < args.len() {
        assert(args_view(args@)[i as int] == args@[i as int]@);
        Some(args[i].as_str())
    } else {
        None
    }
}

fn arg_text(args: &[String], i: usize) -> (r: &str)
    ensures
        r@ == arg_or_empty(args_view(args@), i as int),
{
    if i < args.len() {
        assert(args_view(args@)[i as int] == args@[i as int]@);
        args[i].as_str()
    } else {
        proof {
            reveal_strlit("");
        }
        ""
    }
}

/// Skips an option and its value: the scan goes on two arguments further, or
/// stops at the end.
fn step_two(
    args: &[String],
    i: usize,
    acc: Ghost<(Option<Seq<char>>, Option<Seq<char>>, Option<u32>)>,
) -> (j: usize)
    requires
        i < args@.len(),
    ensures
        i < j <= args@.len(),
        scan_send_options(args_view(args@), j as int, acc@.0, acc@.1, acc@.2)
            == scan_send_options(args_view(args@), i + 2, acc@.0, acc@.1, acc@.2),
{
    if args.len() - i > 2 {
        i + 2
    } else {
        let ghost a = args_view(args@);
        assert(scan_send_options(a, i + 2, acc@.0, acc@.1, acc@.2) == (acc@.0, acc@.1, acc@.2));
        assert(scan_send_options(a, args@.len() as int, acc@.0, acc@.1, acc@.2) == (
            acc@.0,
            acc@.1,
            acc@.2,
        ));
        args.len()
    }
}

fn send_request_text(args: &[String]) -> (r: String)
    requires
        args@.len() >= 2,
    ensures
        ({
            let a = args_view(args@);
            let opts = scan_send_options(a, 3, None, None, None);
            r@ == spec_send_json(arg_or_empty(a, 2), opts.0, opts.1, opts.2)
        }),
{
    let ghost a = args_view(args@);
    let text = arg_text(args, 2);
    let mut motion: Option<&str> = None;
    let mut priority: Option<&str> = None;
    let mut duration: Option<u32> = None;
    let mut i: usize = 3;
    while i < args.len()
        invariant
            a == args_view(args@),
            3 <= i,
            scan_send_options(a, i as int, opt_str(motion), opt_str(priority), duration)
                == scan_send_options(a, 3, None, None, None),
        decreases args@.len() - i,
    {
        let arg = args[i].as_str();
        assert(a[i as int] == arg@);
        if str_eq(arg, "--motion") {
            motion = arg_str(args, i + 1);
            i = step_two(args, i, Ghost((opt_str(motion), opt_str(priority), duration)));
        } else if str_eq(arg, "--priority") {
            priority = arg_str(args, i + 1);
            i = step_two(args, i, Ghost((opt_str(motion), opt_str(priority), duration)));
        } else if str_eq(arg, "--duration") {
            duration = match arg_str(args, i + 1) {
                Some(d) => parse_u32(d),
                None => None,
            };
            i = step_two(args, i, Ghost((opt_str(motion), opt_str(priority), duration)));
        } else {
            i = i + 1;
        }
    }
    let mut s = String::from_str("{");
    let d64: Option<u64> = match duration {
        Some(d) => Some(d as u64),
        None => None,
    };
    push_decimal_member_before(&mut s, "\"duration_ms\":", d64);
    push_string_member_before(&mut s, "\"motion\":", motion);
    push_string_member_before(&mut s, "\"priority\":", priority);
    push_str(&mut s, "\"text\":");
    push_json_string(&mut s, text);
    push_str(&mut s, ",\"type\":\"expression\",\"version\":1}");
    proof {
        assert(match d64 {
            Some(d) => Some(decimal(d as nat)),
            None => None,
        } == match duration {
            Some(d) => Some(decimal(d as nat)),
            None => None,
        });
        assert(match motion {
            Some(v) => Some(json_string(v@)),
            None => None,
        } == match opt_str(motion) {
            Some(m) => Some(json_string(m)),
            None => None,
        });
        assert(match priority {
            Some(v) => Some(json_string(v@)),
            None => None,
        } == match opt_str(priority) {
            Some(m) => Some(json_string(m)),
            None => None,
        });
    }
    s
}

/// The view of an optional string slice.
pub open spec fn opt_str(o: Option<&str>) -> Option<Seq<char>> {
    match o {
        Some(s) => Some(s@),
        None => None,
    }
}

/// The request text for a command line (`desktop-pet <subcommand> ...`), or
/// `None` when the arguments are no client invocation.
pub fn cli_request(args: &[String]) -> (r: Option<String>)
    ensures
        match spec_cli_request(args_view(args@)) {
            Some(t) => r is Some && r->0@ == t,
            None => r is None,
        },
{
    if args.len() < 2 {
        return None;
    }
    let ghost a = args_view(args@);
    let sub = args[1].as_str();
    assert(a[1] == sub@);
    if str_eq(sub, "send") {
        Some(send_request_text(args))
    } else if str_eq(sub, "motion") {
        let m = arg_text(args, 2);
        let mut s = String::from_str("{\"motion\":");
        push_json_string(&mut s, m);
        push_str(&mut s, ",\"type\":\"expression\",\"version\":1}");
        Some(s)
    } else if str_eq(sub, "hide") {
        Some(build_command("hide", None))
    } else if str_eq(sub, "show") {
        Some(build_command("show", None))
    } else if str_eq(sub, "dismiss") {
        Some(build_command("dismiss_bubble", None))
    } else if str_eq(sub, "reset") {
        Some(build_command("reset_position", None))
    } else if str_eq(sub, "character") {
        Some(build_command("character", Some(arg_text(args, 2))))
    } else if str_eq(sub, "status") || str_eq(sub, "query") {
        Some(build_query("status"))
    } else {
        None
    }
}

/// What the client prints: the reply, or a failure object around the error.
pub open spec fn spec_cli_output(result: Result<Seq<char>, Seq<char>>) -> Seq<char> {
    match result {
        Ok(resp) => resp,
        Err(e) => "{\"ok\":false,\"error\":\""@ + e + "\"}"@,
    }
}

/// The text that the client prints for the outcome of its request.
pub fn cli_output(result: Result<String, String>) -> (r: String)
    ensures
        r@ == spec_cli_output(
            match result {
                Ok(s) => Ok(s@),
                Err(e) => Err(e@),
            },
        ),
{
    match result {
        Ok(resp) => resp,
        Err(e) => {
            let mut s = String::from_str("{\"ok\":false,\"error\":\"");
            push_str(&mut s, e.as_str());
            push_str(&mut s, "\"}");
            s
        },
    }
}

} // verus!
