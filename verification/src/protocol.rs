//! The wire protocol shared by the desktop pet and its agent process: requests,
//! responses, their validation and the JSON text that clients send.
//!
//! Turning raw JSON text into a [`Request`] is a `serde` derive, done by the
//! caller; everything after that (validation, defaults, clamping, responses and
//! request text) is here.
use vstd::prelude::*;
use crate::json::{decimal, json_string, push_decimal, push_json_string};
use crate::text::{char_count, is_blank, is_blank_str, push_str, str_eq};

verus! {

/// Protocol version.
pub const PROTOCOL_VERSION: u32 = 1;

/// Largest accepted message, in bytes.
pub const MAX_MESSAGE_BYTES: usize = 16384;

/// Largest accepted text, in Unicode scalar values.
pub const MAX_TEXT_CHARS: usize = 1000;

/// Shortest display duration, in milliseconds.
pub const MIN_DURATION_MS: u64 = 500;

/// Longest display duration, in milliseconds.
pub const MAX_DURATION_MS: u64 = 30000;

/// Semantic motions that clients may ask for.
#[derive(Debug, Clone, Copy, PartialEq, Eq, Structural)]
pub enum Motion {
    Idle,
    Blink,
    Nod,
    Shake,
}

impl Motion {
    /// What `parse` accepts: the capitalised or the lower-case name.
    pub open spec fn spec_parse(s: Seq<char>) -> Option<Motion> {
        if s == "Idle"@ || s == "idle"@ {
            Some(Motion::Idle)
        } else if s == "Blink"@ || s == "blink"@ {
            Some(Motion::Blink)
        } else if s == "Nod"@ || s == "nod"@ {
            Some(Motion::Nod)
        } else if s == "Shake"@ || s == "shake"@ {
            Some(Motion::Shake)
        } else {
            None
        }
    }

    /// The wire name of a motion.
    pub open spec fn spec_name(self) -> Seq<char> {
        match self {
            Motion::Idle => "Idle"@,
            Motion::Blink => "Blink"@,
            Motion::Nod => "Nod"@,
            Motion::Shake => "Shake"@,
        }
    }

    /// The motion a name denotes.
    pub fn parse(s: &str) -> (r: Option<Motion>)
        ensures
            r == Motion::spec_parse(s@),
    {
        if str_eq(s, "Idle") || str_eq(s, "idle") {
            Some(Motion::Idle)
        } else if str_eq(s, "Blink") || str_eq(s, "blink") {
            Some(Motion::Blink)
        } else if str_eq(s, "Nod") || str_eq(s, "nod") {
            Some(Motion::Nod)
        } else if str_eq(s, "Shake") || str_eq(s, "shake") {
            Some(Motion::Shake)
        } else {
            None
        }
    }

    /// The motion's wire name.
    pub fn name(self) -> (r: &'static str)
        ensures
            r@ == self.spec_name(),
    {
        match self {
            Motion::Idle => "Idle",
            Motion::Blink => "Blink",
            Motion::Nod => "Nod",
            Motion::Shake => "Shake",
        }
    }
}

/// Priority a client may give a request (a closed set, no free integers).
#[derive(Debug, Clone, Copy, PartialEq, Eq, Structural)]
pub enum Priority {
    Low,
    Normal,
    High,
}

impl Priority {
    /// What `parse` accepts: the lower-case or the capitalised name.
    pub open spec fn spec_parse(s: Seq<char>) -> Option<Priority> {
        if s == "low"@ || s == "Low"@ {
            Some(Priority::Low)
        } else if s == "normal"@ || s == "Normal"@ {
            Some(Priority::Normal)
        } else if s == "high"@ || s == "High"@ {
            Some(Priority::High)
        } else {
            None
        }
    }

    /// The wire name of a priority.
    pub open spec fn spec_name(self) -> Seq<char> {
        match self {
            Priority::Low => "low"@,
            Priority::Normal => "normal"@,
            Priority::High => "high"@,
        }
    }

    /// The priority a name denotes.
    pub fn parse(s: &str) -> (r: Option<Priority>)
        ensures
            r == Priority::spec_parse(s@),
    {
        if str_eq(s, "low") || str_eq(s, "Low") {
            Some(Priority::Low)
        } else if str_eq(s, "normal") || str_eq(s, "Normal") {
            Some(Priority::Normal)
        } else if str_eq(s, "high") || str_eq(s, "High") {
            Some(Priority::High)
        } else {
            None
        }
    }

    /// The priority's wire name.
    pub fn name(self) -> (r: &'static str)
        ensures
            r@ == self.spec_name(),
    {
        match self {
            Priority::Low => "low",
            Priority::Normal => "normal",
            Priority::High => "high",
        }
    }
}

/// A request as it arrives, after JSON decoding and before validation.
#[derive(Debug, Clone)]
pub enum Request {
    Expression(ExpressionRequest),
    Command(CommandRequest),
}

/// The fields of an `expression` request; absent fields are `None` (version 0).
#[derive(Debug, Clone)]
pub struct ExpressionRequest {
    pub version: u32,
    pub id: Option<String>,
    pub text: Option<String>,
    pub motion: Option<String>,
    pub priority: Option<String>,
    pub duration_ms: Option<u64>,
    pub source: Option<String>,
}

/// The fields of a `command` request.
#[derive(Debug, Clone)]
pub struct CommandRequest {
    pub version: u32,
    pub id: Option<String>,
    pub command: String,
    pub character: Option<String>,
}

/// A validated request, independent of any platform.
#[derive(Debug, Clone)]
pub enum WireRequest {
    Expression {
        id: Option<String>,
        text: Option<String>,
        motion: Option<Motion>,
        priority: Priority,
        duration_ms: Option<u64>,
    },
    Command { id: Option<String>, command: WireCommand },
}

/// A validated command.
#[derive(Debug, Clone)]
pub enum WireCommand {
    Show,
    Hide,
    ResetPosition,
    DismissBubble,
    Character(String),
}

/// Why a request was refused.
#[derive(Debug, Clone)]
pub enum ValidateError {
    InvalidJson,
    UnsupportedVersion(u32),
    Empty,
    TextTooLong,
    UnknownMotion(String),
    UnknownCommand(String),
    UnknownPriority(String),
}

/// The view of an optional string.
pub open spec fn opt_view(o: Option<String>) -> Option<Seq<char>> {
    match o {
        Some(s) => Some(s@),
        None => None,
    }
}

/// Model of a [`WireCommand`].
pub enum WireCommandModel {
    Show,
    Hide,
    ResetPosition,
    DismissBubble,
    Character(Seq<char>),
}

/// Model of a [`WireRequest`].
pub enum WireRequestModel {
    Expression {
        id: Option<Seq<char>>,
        text: Option<Seq<char>>,
        motion: Option<Motion>,
        priority: Priority,
        duration_ms: Option<u64>,
    },
    Command { id: Option<Seq<char>>, command: WireCommandModel },
}

/// Model of a [`ValidateError`].
pub enum ValidateErrorModel {
    InvalidJson,
    UnsupportedVersion(u32),
    Empty,
    TextTooLong,
    UnknownMotion(Seq<char>),
    UnknownCommand(Seq<char>),
    UnknownPriority(Seq<char>),
}

impl View for WireCommand {
    type V = WireCommandModel;

    open spec fn view(&self) -> WireCommandModel {
        match self {
            WireCommand::Show => WireCommandModel::Show,
            WireCommand::Hide => WireCommandModel::Hide,
            WireCommand::ResetPosition => WireCommandModel::ResetPosition,
            WireCommand::DismissBubble => WireCommandModel::DismissBubble,
            WireCommand::Character(c) => WireCommandModel::Character(c@),
        }
    }
}

impl View for WireRequest {
    type V = WireRequestModel;

    open spec fn view(&self) -> WireRequestModel {
        match self {
            WireRequest::Expression { id, text, motion, priority, duration_ms } =>
                WireRequestModel::Expression {
                id: opt_view(*id),
                text: opt_view(*text),
                motion: *motion,
                priority: *priority,
                duration_ms: *duration_ms,
            },
            WireRequest::Command { id, command } => WireRequestModel::Command {
                id: opt_view(*id),
                command: command@,
            },
        }
    }
}

impl View for ValidateError {
    type V = ValidateErrorModel;

    open spec fn view(&self) -> ValidateErrorModel {
        match self {
            ValidateError::InvalidJson => ValidateErrorModel::InvalidJson,
            ValidateError::UnsupportedVersion(v) => ValidateErrorModel::UnsupportedVersion(*v),
            ValidateError::Empty => ValidateErrorModel::Empty,
            ValidateError::TextTooLong => ValidateErrorModel::TextTooLong,
            ValidateError::UnknownMotion(m) => ValidateErrorModel::UnknownMotion(m@),
            ValidateError::UnknownCommand(c) => ValidateErrorModel::UnknownCommand(c@),
            ValidateError::UnknownPriority(p) => ValidateErrorModel::UnknownPriority(p@),
        }
    }
}

/// The view of a validation outcome.
pub open spec fn outcome_view(r: Result<WireRequest, ValidateError>) -> Result<
    WireRequestModel,
    ValidateErrorModel,
> {
    match r {
        Ok(w) => Ok(w@),
        Err(e) => Err(e@),
    }
}

/// `d.clamp(MIN_DURATION_MS, MAX_DURATION_MS)`.
pub open spec fn clamp_duration(d: u64) -> u64 {
    if d < MIN_DURATION_MS {
        MIN_DURATION_MS
    } else if d > MAX_DURATION_MS {
        MAX_DURATION_MS
    } else {
        d
    }
}

/// A version that the protocol accepts: 0 (absent) or the current one.
pub open spec fn version_ok(v: u32) -> bool {
    v == 0 || v == PROTOCOL_VERSION
}

/// Text that counts as present: some, and not only whitespace.
pub open spec fn has_text(t: Option<String>) -> bool {
    t is Some && !is_blank(t->0@)
}

/// What validation makes of an expression request.
pub open spec fn spec_validate_expression(e: ExpressionRequest) -> Result<
    WireRequestModel,
    ValidateErrorModel,
> {
    if !version_ok(e.version) {
        Err(ValidateErrorModel::UnsupportedVersion(e.version))
    } else if e.text is Some && e.text->0@.len() > MAX_TEXT_CHARS {
        Err(ValidateErrorModel::TextTooLong)
    } else if e.motion is Some && Motion::spec_parse(e.motion->0@) is None {
        Err(ValidateErrorModel::UnknownMotion(e.motion->0@))
    } else if e.priority is Some && Priority::spec_parse(e.priority->0@) is None {
        Err(ValidateErrorModel::UnknownPriority(e.priority->0@))
    } else {
        let motion = match e.motion {
            Some(m) => Motion::spec_parse(m@),
            None => None,
        };
        let priority = match e.priority {
            Some(p) => Priority::spec_parse(p@)->0,
            None => Priority::Normal,
        };
        if !has_text(e.text) && motion is None {
            Err(ValidateErrorModel::Empty)
        } else {
            Ok(
                WireRequestModel::Expression {
                    id: opt_view(e.id),
                    text: if has_text(e.text) {
                        opt_view(e.text)
                    } else {
                        None
                    },
                    motion,
                    priority,
                    duration_ms: match e.duration_ms {
                        Some(d) => Some(clamp_duration(d)),
                        None => None,
                    },
                },
            )
        }
    }
}

/// The command named by `name`, if the protocol knows it.
pub open spec fn spec_command(name: Seq<char>, character: Option<String>) -> Option<
    WireCommandModel,
> {
    if name == "show"@ {
        Some(WireCommandModel::Show)
    } else if name == "hide"@ {
        Some(WireCommandModel::Hide)
    } else if name == "reset_position"@ {
        Some(WireCommandModel::ResetPosition)
    } else if name == "dismiss_bubble"@ {
        Some(WireCommandModel::DismissBubble)
    } else if name == "character"@ {
        Some(
            WireCommandModel::Character(
                match character {
                    Some(c) => c@,
                    None => Seq::empty(),
                },
            ),
        )
    } else {
        None
    }
}

/// What validation makes of a command request.
pub open spec fn spec_validate_command(c: CommandRequest) -> Result<
    WireRequestModel,
    ValidateErrorModel,
> {
    if !version_ok(c.version) {
        Err(ValidateErrorModel::UnsupportedVersion(c.version))
    } else {
        match spec_command(c.command@, c.character) {
            Some(cmd) => Ok(WireRequestModel::Command { id: opt_view(c.id), command: cmd }),
            None => Err(ValidateErrorModel::UnknownCommand(c.command@)),
        }
    }
}

/// What validation makes of a decoded request.
pub open spec fn spec_validate(req: Request) -> Result<WireRequestModel, ValidateErrorModel> {
    match req {
        Request::Expression(e) => spec_validate_expression(e),
        Request::Command(c) => spec_validate_command(c),
    }
}

fn clamp_duration_exec(d: u64) -> (r: u64)
    ensures
        r == clamp_duration(d),
{
    if d < MIN_DURATION_MS {
        MIN_DURATION_MS
    } else if d > MAX_DURATION_MS {
        MAX_DURATION_MS
    } else {
        d
    }
}

fn validate_expression(e: ExpressionRequest) -> (r: Result<WireRequest, ValidateError>)
    ensures
        outcome_view(r) == spec_validate_expression(e),
{
    let ghost e0 = e;
    if e.version != 0 && e.version != PROTOCOL_VERSION {
        return Err(ValidateError::UnsupportedVersion(e.version));
    }
    if let Some(t) = &e.text {
        if char_count(t.as_str()) > MAX_TEXT_CHARS {
            return Err(ValidateError::TextTooLong);
        }
    }
    let motion = match &e.motion {
        Some(m) => match Motion::parse(m.as_str()) {
            Some(x) => Some(x),
            None => {
                return Err(ValidateError::UnknownMotion(m.clone()));
            },
        },
        None => None,
    };
    let priority = match &e.priority {
        Some(p) => match Priority::parse(p.as_str()) {
            Some(x) => x,
            None => {
                return Err(ValidateError::UnknownPriority(p.clone()));
            },
        },
        None => Priority::Normal,
    };
    let present = match &e.text {
        Some(t) => !is_blank_str(t.as_str()),
        None => false,
    };
    if !present && motion.is_none() {
        return Err(ValidateError::Empty);
    }
    let duration_ms = match e.duration_ms {
        Some(d) => Some(clamp_duration_exec(d)),
        None => None,
    };
    let text = if present {
        e.text
    } else {
        None
    };
    Ok(WireRequest::Expression { id: e.id, text, motion, priority, duration_ms })
}

fn validate_command(c: CommandRequest) -> (r: Result<WireRequest, ValidateError>)
    ensures
        outcome_view(r) == spec_validate_command(c),
{
    if c.version != 0 && c.version != PROTOCOL_VERSION {
        return Err(ValidateError::UnsupportedVersion(c.version));
    }
    let name = c.command.as_str();
    let command = if str_eq(name, "show") {
        WireCommand::Show
    } else if str_eq(name, "hide") {
        WireCommand::Hide
    } else if str_eq(name, "reset_position") {
        WireCommand::ResetPosition
    } else if str_eq(name, "dismiss_bubble") {
        WireCommand::DismissBubble
    } else if str_eq(name, "character") {
        let ch = match &c.character {
            Some(x) => x.clone(),
            None => String::new(),
        };
        WireCommand::Character(ch)
    } else {
        return Err(ValidateError::UnknownCommand(String::from_str(name)));
    };
    Ok(WireRequest::Command { id: c.id, command })
}

/// Validates a decoded request (the part of `parse` after JSON decoding).
pub fn validate(req: Request) -> (r: Result<WireRequest, ValidateError>)
    ensures
        outcome_view(r) == spec_validate(req),
{
    match req {
        Request::Expression(e) => validate_expression(e),
        Request::Command(c) => validate_command(c),
    }
}

/// `parse` given the outcome of JSON decoding: `None` when the text was not a request.
pub fn validate_decoded(decoded: Option<Request>) -> (r: Result<WireRequest, ValidateError>)
    ensures
        decoded is None ==> outcome_view(r) == Err::<WireRequestModel, ValidateErrorModel>(
            ValidateErrorModel::InvalidJson,
        ),
        decoded is Some ==> outcome_view(r) == spec_validate(decoded->0),
{
    match decoded {
        Some(req) => validate(req),
        None => Err(ValidateError::InvalidJson),
    }
}

impl WireRequest {
    /// The request's id, whichever kind it is.
    pub open spec fn spec_id(&self) -> Option<Seq<char>> {
        match self@ {
            WireRequestModel::Expression { id, .. } => id,
            WireRequestModel::Command { id, .. } => id,
        }
    }

    /// The request's id.
    pub fn id(&self) -> (r: Option<String>)
        ensures
            opt_view(r) == self.spec_id(),
    {
        let i = match self {
            WireRequest::Expression { id, .. } => id,
            WireRequest::Command { id, .. } => id,
        };
        match i {
            Some(s) => Some(s.clone()),
            None => None,
        }
    }
}

impl ValidateError {
    /// The message of an error, as the protocol reports it.
    pub open spec fn spec_message(e: ValidateErrorModel) -> Seq<char> {
        match e {
            ValidateErrorModel::InvalidJson => "invalid json"@,
            ValidateErrorModel::UnsupportedVersion(v) => "unsupported protocol version: "@ + decimal(
                v as nat,
            ),
            ValidateErrorModel::Empty => "request must contain text or motion"@,
            ValidateErrorModel::TextTooLong => "text exceeds "@ + decimal(MAX_TEXT_CHARS as nat)
                + " characters"@,
            ValidateErrorModel::UnknownMotion(m) => "unknown motion: "@ + m,
            ValidateErrorModel::UnknownCommand(c) => "unknown command: "@ + c,
            ValidateErrorModel::UnknownPriority(p) => "unknown priority: "@ + p,
        }
    }

    /// The message of this error (what its `Display` wrote).
    pub fn to_string(&self) -> (r: String)
        ensures
            r@ == ValidateError::spec_message(self@),
    {
        let mut s = String::new();
        match self {
            ValidateError::InvalidJson => push_str(&mut s, "invalid json"),
            ValidateError::UnsupportedVersion(v) => {
                push_str(&mut s, "unsupported protocol version: ");
                push_decimal(&mut s, *v as u64);
            },
            ValidateError::Empty => push_str(&mut s, "request must contain text or motion"),
            ValidateError::TextTooLong => {
                push_str(&mut s, "text exceeds ");
                push_decimal(&mut s, MAX_TEXT_CHARS as u64);
                push_str(&mut s, " characters");
            },
            ValidateError::UnknownMotion(m) => {
                push_str(&mut s, "unknown motion: ");
                push_str(&mut s, m.as_str());
            },
            ValidateError::UnknownCommand(c) => {
                push_str(&mut s, "unknown command: ");
                push_str(&mut s, c.as_str());
            },
            ValidateError::UnknownPriority(p) => {
                push_str(&mut s, "unknown priority: ");
                push_str(&mut s, p.as_str());
            },
        }
        s
    }
}

/// A reply to a request.
#[derive(Debug, Clone)]
pub struct Response {
    pub ok: bool,
    pub id: Option<String>,
    pub accepted: Option<bool>,
    pub error: Option<String>,
}

/// JSON text of a boolean.
pub open spec fn json_bool(b: bool) -> Seq<char> {
    if b {
        "true"@
    } else {
        "false"@
    }
}

/// The JSON text of a response: fields in declaration order, absent ones left out.
pub open spec fn spec_response_json(r: Response) -> Seq<char> {
    "{\"ok\":"@ + json_bool(r.ok) + (if r.id is Some {
        ",\"id\":"@ + json_string(r.id->0@)
    } else {
        Seq::empty()
    }) + (if r.accepted is Some {
        ",\"accepted\":"@ + json_bool(r.accepted->0)
    } else {
        Seq::empty()
    }) + (if r.error is Some {
        ",\"error\":"@ + json_string(r.error->0@)
    } else {
        Seq::empty()
    }) + "}"@
}

fn push_json_bool(s: &mut String, b: bool)
    ensures
        final(s)@ == old(s)@ + json_bool(b),
{
    if b {
        push_str(s, "true");
    } else {
        push_str(s, "false");
    }
}

impl Response {
    /// An accepted request.
    pub fn ok(id: Option<String>) -> (r: Response)
        ensures
            r.ok,
            r.id == id,
            r.accepted == Some(true),
            r.error is None,
    {
        Response { ok: true, id, accepted: Some(true), error: None }
    }

    /// A refused request, with its reason.
    pub fn err(id: Option<String>, error: &str) -> (r: Response)
        ensures
            !r.ok,
            r.id == id,
            r.accepted is None,
            r.error is Some && r.error->0@ == error@,
    {
        Response { ok: false, id, accepted: None, error: Some(error.to_owned()) }
    }

    /// Compact JSON text of the response.
    pub fn to_json(&self) -> (r: String)
        ensures
            r@ == spec_response_json(*self),
    {
        let mut s = String::new();
        push_str(&mut s, "{\"ok\":");
        push_json_bool(&mut s, self.ok);
        if let Some(id) = &self.id {
            push_str(&mut s, ",\"id\":");
            push_json_string(&mut s, id.as_str());
        }
        if let Some(a) = self.accepted {
            push_str(&mut s, ",\"accepted\":");
            push_json_bool(&mut s, a);
        }
        if let Some(e) = &self.error {
            push_str(&mut s, ",\"error\":");
            push_json_string(&mut s, e.as_str());
        }
        push_str(&mut s, "}");
        s
    }
}

/// The view of an optional string slice.
pub open spec fn opt_str_view(o: Option<&str>) -> Option<Seq<char>> {
    match o {
        Some(s) => Some(s@),
        None => None,
    }
}

/// Text of an optional JSON member followed by a comma.
pub open spec fn member_before(key: Seq<char>, value: Option<Seq<char>>) -> Seq<char> {
    match value {
        Some(v) => key + v + ","@,
        None => Seq::empty(),
    }
}

/// Text of an optional JSON member preceded by a comma.
pub open spec fn member_after(key: Seq<char>, value: Option<Seq<char>>) -> Seq<char> {
    match value {
        Some(v) => ","@ + key + v,
        None => Seq::empty(),
    }
}

/// The JSON text of an `expression` request (keys in lexicographic order).
pub open spec fn spec_expression_json(
    text: Option<Seq<char>>,
    motion: Option<Motion>,
    priority: Priority,
    duration_ms: Option<u64>,
    id: Option<Seq<char>>,
) -> Seq<char> {
    "{"@ + member_before(
        "\"duration_ms\":"@,
        match duration_ms {
            Some(d) => Some(decimal(d as nat)),
            None => None,
        },
    ) + member_before(
        "\"id\":"@,
        match id {
            Some(i) => Some(json_string(i)),
            None => None,
        },
    ) + member_before(
        "\"motion\":"@,
        match motion {
            Some(m) => Some(json_string(m.spec_name())),
            None => None,
        },
    ) + "\"priority\":"@ + json_string(priority.spec_name()) + member_after(
        "\"text\":"@,
        match text {
            Some(t) => Some(json_string(t)),
            None => None,
        },
    ) + ",\"type\":\"expression\",\"version\":"@ + decimal(PROTOCOL_VERSION as nat) + "}"@
}

/// The JSON text of a `command` request (keys in lexicographic order).
pub open spec fn spec_command_json(command: Seq<char>, character: Option<Seq<char>>) -> Seq<char> {
    "{"@ + member_before(
        "\"character\":"@,
        match character {
            Some(c) => Some(json_string(c)),
            None => None,
        },
    ) + "\"command\":"@ + json_string(command) + ",\"type\":\"command\",\"version\":"@ + decimal(
        PROTOCOL_VERSION as nat,
    ) + "}"@
}

pub(crate) fn push_decimal_member_before(s: &mut String, key: &str, value: Option<u64>)
    ensures
        final(s)@ == old(s)@ + member_before(
            key@,
            match value {
                Some(d) => Some(decimal(d as nat)),
                None => None,
            },
        ),
{
    let ghost s0 = s@;
    if let Some(d) = value {
        push_str(s, key);
        push_decimal(s, d);
        push_str(s, ",");
        assert(s@ =~= s0 + (key@ + decimal(d as nat) + ","@));
    } else {
        assert(s@ =~= s0 + Seq::<char>::empty());
    }
}

pub(crate) fn push_string_member_before(s: &mut String, key: &str, value: Option<&str>)
    ensures
        final(s)@ == old(s)@ + member_before(
            key@,
            match value {
                Some(v) => Some(json_string(v@)),
                None => None,
            },
        ),
{
    let ghost s0 = s@;
    if let Some(v) = value {
        push_str(s, key);
        push_json_string(s, v);
        push_str(s, ",");
        assert(s@ =~= s0 + (key@ + json_string(v@) + ","@));
    } else {
        assert(s@ =~= s0 + Seq::<char>::empty());
    }
}

pub(crate) fn push_string_member_after(s: &mut String, key: &str, value: Option<&str>)
    ensures
        final(s)@ == old(s)@ + member_after(
            key@,
            match value {
                Some(v) => Some(json_string(v@)),
                None => None,
            },
        ),
{
    let ghost s0 = s@;
    if let Some(v) = value {
        push_str(s, ",");
        push_str(s, key);
        push_json_string(s, v);
        assert(s@ =~= s0 + (","@ + key@ + json_string(v@)));
    } else {
        assert(s@ =~= s0 + Seq::<char>::empty());
    }
}

/// Builds the JSON text of an `expression` request.
pub fn build_expression(
    text: Option<&str>,
    motion: Option<Motion>,
    priority: Priority,
    duration_ms: Option<u64>,
    id: Option<&str>,
) -> (r: String)
    ensures
        r@ == spec_expression_json(
            opt_str_view(text),
            motion,
            priority,
            duration_ms,
            opt_str_view(id),
        ),
{
    let mut s = String::from_str("{");
    push_decimal_member_before(&mut s, "\"duration_ms\":", duration_ms);
    push_string_member_before(&mut s, "\"id\":", id);
    let mname = match motion {
        Some(m) => Some(m.name()),
        None => None,
    };
    push_string_member_before(&mut s, "\"motion\":", mname);
    push_str(&mut s, "\"priority\":");
    push_json_string(&mut s, priority.name());
    push_string_member_after(&mut s, "\"text\":", text);
    push_str(&mut s, ",\"type\":\"expression\",\"version\":");
    push_decimal(&mut s, PROTOCOL_VERSION as u64);
    push_str(&mut s, "}");
    proof {
        assert(match id {
            Some(v) => Some(json_string(v@)),
            None => None,
        } == match opt_str_view(id) {
            Some(i) => Some(json_string(i)),
            None => None,
        });
        assert(match text {
            Some(v) => Some(json_string(v@)),
            None => None,
        } == match opt_str_view(text) {
            Some(i) => Some(json_string(i)),
            None => None,
        });
    }
    s
}

/// Builds the JSON text of a `command` request.
pub fn build_command(command: &str, character: Option<&str>) -> (r: String)
    ensures
        r@ == spec_command_json(command@, opt_str_view(character)),
{
    let mut s = String::from_str("{");
    push_string_member_before(&mut s, "\"character\":", character);
    push_str(&mut s, "\"command\":");
    push_json_string(&mut s, command);
    push_str(&mut s, ",\"type\":\"command\",\"version\":");
    push_decimal(&mut s, PROTOCOL_VERSION as u64);
    push_str(&mut s, "}");
    proof {
        assert(match character {
            Some(v) => Some(json_string(v@)),
            None => None,
        } == match opt_str_view(character) {
            Some(i) => Some(json_string(i)),
            None => None,
        });
    }
    s
}

/// The JSON text of a read-only query (keys in lexicographic order).
pub open spec fn spec_query_json(kind: Seq<char>) -> Seq<char> {
    "{\"query\":"@ + json_string(kind) + ",\"type\":\"query\",\"version\":"@ + decimal(
        PROTOCOL_VERSION as nat,
    ) + "}"@
}

/// Builds the JSON text of a read-only query such as `status`.
pub fn build_query(kind: &str) -> (r: String)
    ensures
        r@ == spec_query_json(kind@),
{
    let mut s = String::from_str("{\"query\":");
    push_json_string(&mut s, kind);
    push_str(&mut s, ",\"type\":\"query\",\"version\":");
    push_decimal(&mut s, PROTOCOL_VERSION as u64);
    push_str(&mut s, "}");
    s
}

/// Parsing a motion's name gives the motion back.
pub proof fn lemma_motion_name_roundtrip(m: Motion)
    ensures
        Motion::spec_parse(m.spec_name()) == Some(m),
{
    reveal_strlit("Idle");
    reveal_strlit("idle");
    reveal_strlit("Blink");
    reveal_strlit("blink");
    reveal_strlit("Nod");
    reveal_strlit("nod");
    reveal_strlit("Shake");
    assert("Idle"@.len() == 4);
    assert("idle"@.len() == 4);
    assert("Blink"@.len() == 5);
    assert("blink"@.len() == 5);
    assert("Nod"@.len() == 3);
    assert("nod"@.len() == 3);
    assert("Shake"@.len() == 5);
    assert("Shake"@[0] != "Blink"@[0]);
    assert("Shake"@[0] != "blink"@[0]);
}

/// Parsing a priority's name gives the priority back.
pub proof fn lemma_priority_name_roundtrip(p: Priority)
    ensures
        Priority::spec_parse(p.spec_name()) == Some(p),
{
    reveal_strlit("low");
    reveal_strlit("Low");
    reveal_strlit("normal");
    reveal_strlit("Normal");
    reveal_strlit("high");
    assert("low"@.len() == 3);
    assert("Low"@.len() == 3);
    assert("normal"@.len() == 6);
    assert("Normal"@.len() == 6);
    assert("high"@.len() == 4);
}

/// A request that validates carries text that is not blank or a motion, a
/// duration inside the protocol's bounds, and text within the length limit.
pub proof fn lemma_validated_expression_well_formed(req: Request)
    requires
        spec_validate(req) matches Ok(WireRequestModel::Expression { .. }),
    ensures
        spec_validate(req) matches Ok(
            WireRequestModel::Expression { text, motion, duration_ms, .. },
        ) && (text is Some || motion is Some) && (text is Some ==> !is_blank(text->0)
            && text->0.len() <= MAX_TEXT_CHARS) && (duration_ms is Some ==> MIN_DURATION_MS
            <= duration_ms->0 <= MAX_DURATION_MS),
{
}

/// What decoding the text of
/// `spec_expression_json(text, motion, priority, duration_ms, id)` gives,
/// member by member: the version written, each optional member present
/// exactly when it was written, the motion and the priority as their names,
/// and no source (the builder writes none).
pub open spec fn decodes_expression(
    e: ExpressionRequest,
    text: Option<Seq<char>>,
    motion: Option<Motion>,
    priority: Priority,
    duration_ms: Option<u64>,
    id: Option<Seq<char>>,
) -> bool {
    &&& e.version == PROTOCOL_VERSION
    &&& opt_view(e.id) == id
    &&& opt_view(e.text) == text
    &&& opt_view(e.motion) == match motion {
        Some(m) => Some(m.spec_name()),
        None => None,
    }
    &&& opt_view(e.priority) == Some(priority.spec_name())
    &&& e.duration_ms == duration_ms
    &&& e.source is None
}

/// Building then validating gives the expression back: the request that
/// [`build_expression`] encodes, once decoded, validates to the same id,
/// motion and priority, the text when it is not blank, and the duration
/// clamped to the protocol's bounds, provided the text is within the length
/// limit and there is text that is not blank or a motion.
pub proof fn lemma_build_then_validate(
    text: Option<Seq<char>>,
    motion: Option<Motion>,
    priority: Priority,
    duration_ms: Option<u64>,
    id: Option<Seq<char>>,
    decoded: ExpressionRequest,
)
    requires
        decodes_expression(decoded, text, motion, priority, duration_ms, id),
        text is Some ==> text->0.len() <= MAX_TEXT_CHARS,
        (text is Some && !is_blank(text->0)) || motion is Some,
    ensures
        spec_validate(Request::Expression(decoded)) == Ok::<WireRequestModel, ValidateErrorModel>(
            WireRequestModel::Expression {
                id,
                text: if text is Some && !is_blank(text->0) {
                    text
                } else {
                    None
                },
                motion,
                priority,
                duration_ms: match duration_ms {
                    Some(d) => Some(clamp_duration(d)),
                    None => None,
                },
            },
        ),
{
    if motion is Some {
        lemma_motion_name_roundtrip(motion->0);
    }
    lemma_priority_name_roundtrip(priority);
}

} // verus!
