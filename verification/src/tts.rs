//! The speech controller: a single slot, newest request first.
//!
//! A new request replaces the one that has not started and interrupts the one
//! that plays; stopping drops both. Every request carries a generation number,
//! and a job whose generation is no longer the latest (or that predates a stop)
//! is not played. The worker thread, its condition variable and the audio
//! device are the caller's; it asks this controller what to do at each step.
use vstd::prelude::*;
use crate::json::{decimal, push_decimal};
use crate::text::{is_blank, is_blank_str, push_str};

verus! {

/// A request waiting for the speech worker.
#[derive(Debug)]
pub struct TtsJob {
    pub generation: u64,
    pub text: String,
}

/// The speech controller's state.
#[derive(Debug)]
pub struct TtsController {
    enabled: bool,
    generation: u64,
    stops: u64,
    job: Option<TtsJob>,
}

/// Model of the controller.
pub struct TtsModel {
    pub enabled: bool,
    /// Generation of the latest request (or stop).
    pub generation: u64,
    /// Number of stops so far.
    pub stops: u64,
    /// The waiting request: its generation and text.
    pub job: Option<(u64, Seq<char>)>,
}

impl View for TtsController {
    type V = TtsModel;

    closed spec fn view(&self) -> TtsModel {
        TtsModel {
            enabled: self.enabled,
            generation: self.generation,
            stops: self.stops,
            job: match self.job {
                Some(j) => Some((j.generation, j.text@)),
                None => None,
            },
        }
    }
}

/// The state after a request to read `text` aloud.
pub open spec fn spec_speak(m: TtsModel, text: Seq<char>) -> TtsModel {
    if m.enabled && !is_blank(text) {
        let g = m.generation.wrapping_add(1);
        TtsModel { enabled: m.enabled, generation: g, stops: m.stops, job: Some((g, text)) }
    } else {
        m
    }
}

/// The state after a stop.
pub open spec fn spec_stop(m: TtsModel) -> TtsModel {
    TtsModel {
        enabled: m.enabled,
        generation: m.generation.wrapping_add(1),
        stops: m.stops.wrapping_add(1),
        job: None,
    }
}

/// A job of generation `g`, taken when `last_stop` stops had been seen, is
/// still the one to play.
pub open spec fn is_current(m: TtsModel, g: u64, last_stop: u64) -> bool {
    g == m.generation && m.stops == last_stop
}

/// What the worker does with a job it has taken.
#[derive(Debug, Clone, Copy, PartialEq, Eq, Structural)]
pub enum JobStart {
    /// A newer request replaced it.
    Superseded,
    /// A stop came since the worker last looked: note this count and skip it.
    Stopped(u64),
    /// Synthesise and play it.
    Play,
}

impl TtsController {
    /// A controller with nothing requested yet.
    pub fn new(enabled: bool) -> (r: TtsController)
        ensures
            r@.enabled == enabled,
            r@.generation == 0,
            r@.stops == 0,
            r@.job is None,
    {
        TtsController { enabled, generation: 0, stops: 0, job: None }
    }

    /// Speech is on.
    pub fn is_enabled(&self) -> (r: bool)
        ensures
            r == self@.enabled,
    {
        self.enabled
    }

    /// Number of stops so far (the worker starts from it).
    pub fn stop_count(&self) -> (r: u64)
        ensures
            r == self@.stops,
    {
        self.stops
    }

    /// Asks for `text` to be read aloud. Disabled, or for blank text, nothing
    /// happens and the result is `false`; otherwise the request takes the slot
    /// with a new generation, and the result is `true`: stop what plays now.
    pub fn speak(&mut self, text: &str) -> (interrupt: bool)
        ensures
            interrupt == (old(self)@.enabled && !is_blank(text@)),
            final(self)@ == spec_speak(old(self)@, text@),
    {
        if !self.enabled || is_blank_str(text) {
            return false;
        }
        let g = self.generation.wrapping_add(1);
        self.generation = g;
        self.job = Some(TtsJob { generation: g, text: String::from_str(text) });
        true
    }

    /// Stops what plays and drops what waits.
    pub fn stop(&mut self)
        ensures
            final(self)@ == spec_stop(old(self)@),
    {
        self.generation = self.generation.wrapping_add(1);
        self.stops = self.stops.wrapping_add(1);
        self.job = None;
    }

    /// The worker takes the waiting request, if any.
    pub fn take_job(&mut self) -> (r: Option<TtsJob>)
        ensures
            match r {
                Some(j) => old(self)@.job == Some((j.generation, j.text@)),
                None => old(self)@.job is None,
            },
            final(self)@ == (TtsModel { job: None, ..old(self)@ }),
    {
        self.job.take()
    }

    /// Whether the worker should play a job of generation `g` that it has
    /// taken, `last_stop` being the stop count it saw last.
    pub fn job_start(&self, g: u64, last_stop: u64) -> (r: JobStart)
        ensures
            g != self@.generation ==> r == JobStart::Superseded,
            g == self@.generation && self@.stops != last_stop ==> r == JobStart::Stopped(
                self@.stops,
            ),
            is_current(self@, g, last_stop) ==> r == JobStart::Play,
    {
        if g != self.generation {
            JobStart::Superseded
        } else if self.stops != last_stop {
            JobStart::Stopped(self.stops)
        } else {
            JobStart::Play
        }
    }

    /// While a job of generation `g` plays: whether to cut it off.
    pub fn should_interrupt(&self, g: u64, last_stop: u64) -> (r: bool)
        ensures
            r == !is_current(self@, g, last_stop),
    {
        g != self.generation || self.stops != last_stop
    }
}

/// The name of a temporary audio file: `tts_<ms>_<n>.<ext>`, from the clock in
/// milliseconds and a counter, never from the text.
pub open spec fn spec_unique_name(ms: u64, n: u64, ext: Seq<char>) -> Seq<char> {
    "tts_"@ + decimal(ms as nat) + "_"@ + decimal(n as nat) + "."@ + ext
}

/// A temporary file name for synthesised audio.
pub fn unique_name(ms: u64, n: u64, ext: &str) -> (r: String)
    ensures
        r@ == spec_unique_name(ms, n, ext@),
{
    let mut s = String::from_str("tts_");
    push_decimal(&mut s, ms);
    push_str(&mut s, "_");
    push_decimal(&mut s, n);
    push_str(&mut s, ".");
    push_str(&mut s, ext);
    assert(s@ == spec_unique_name(ms, n, ext@));
    s
}

/// The counter behind temporary file names: each name takes the next
/// number, wrapping like the atomic counter it stands for.
#[derive(Debug)]
pub struct TempNames {
    next: u64,
}

impl View for TempNames {
    type V = u64;

    closed spec fn view(&self) -> u64 {
        self.next
    }
}

impl TempNames {
    /// A counter that starts at 0.
    pub fn new() -> (r: TempNames)
        ensures
            r@ == 0,
    {
        TempNames { next: 0 }
    }

    /// The next temporary file name, at clock time `ms`: it carries the
    /// counter's current number, which then moves on by one.
    pub fn name(&mut self, ms: u64, ext: &str) -> (r: String)
        ensures
            r@ == spec_unique_name(ms, old(self)@, ext@),
            final(self)@ == old(self)@.wrapping_add(1),
    {
        let n = self.next;
        self.next = n.wrapping_add(1);
        unique_name(ms, n, ext)
    }
}

proof fn lemma_decimal_nonempty(n: nat)
    ensures
        decimal(n).len() >= 1,
    decreases n,
{
    if n >= 10 {
        lemma_decimal_nonempty(n / 10);
    }
}

proof fn lemma_digit_injective(a: nat, b: nat)
    requires
        a < 10,
        b < 10,
        crate::json::digit(a) == crate::json::digit(b),
    ensures
        a == b,
{
    assert(crate::json::digit(a) as int == '0' as int + a);
    assert(crate::json::digit(b) as int == '0' as int + b);
}

proof fn lemma_decimal_injective(a: nat, b: nat)
    requires
        decimal(a) == decimal(b),
    ensures
        a == b,
    decreases a,
{
    if a < 10 && b < 10 {
        assert(decimal(a) == seq![crate::json::digit(a)]);
        assert(decimal(b) == seq![crate::json::digit(b)]);
        assert(decimal(a)[0] == crate::json::digit(a));
        assert(decimal(b)[0] == crate::json::digit(b));
        lemma_digit_injective(a, b);
    } else if a < 10 {
        lemma_decimal_nonempty(b / 10);
        assert(decimal(b).len() == decimal(b / 10).len() + 1);
    } else if b < 10 {
        lemma_decimal_nonempty(a / 10);
        assert(decimal(a).len() == decimal(a / 10).len() + 1);
    } else {
        assert(decimal(a).drop_last() == decimal(a / 10));
        assert(decimal(b).drop_last() == decimal(b / 10));
        lemma_decimal_injective(a / 10, b / 10);
        assert(decimal(a).last() == crate::json::digit(a % 10));
        assert(decimal(b).last() == crate::json::digit(b % 10));
        lemma_digit_injective(a % 10, b % 10);
    }
}

/// Names taken one after another differ: their numbers are consecutive, so
/// two names at the same clock time never coincide (short of the counter
/// wrapping around).
pub proof fn lemma_temp_names_differ(n: u64, ms: u64, ext: Seq<char>)
    requires
        n < u64::MAX,
    ensures
        spec_unique_name(ms, n, ext) != spec_unique_name(ms, n.wrapping_add(1), ext),
{
    let m = (n + 1) as u64;
    assert(n.wrapping_add(1) == m);
    let p = "tts_"@ + decimal(ms as nat) + "_"@;
    let d1 = decimal(n as nat);
    let d2 = decimal(m as nat);
    let q = "."@ + ext;
    let a = spec_unique_name(ms, n, ext);
    let b = spec_unique_name(ms, m, ext);
    assert(a =~= p + d1 + q);
    assert(b =~= p + d2 + q);
    if a == b {
        assert(d1.len() == d2.len());
        assert(d1 =~= a.subrange(p.len() as int, (p.len() + d1.len()) as int));
        assert(d2 =~= b.subrange(p.len() as int, (p.len() + d2.len()) as int));
        lemma_decimal_injective(n as nat, m as nat);
    }
}

/// The newest request wins: after two requests, the second one waits in the
/// slot under the latest generation, and the first one's generation no longer
/// plays (nor cuts in) even if the worker had already taken it.
pub proof fn lemma_latest_request_wins(m: TtsModel, a: Seq<char>, b: Seq<char>, last_stop: u64)
    requires
        m.enabled,
        !is_blank(a),
        !is_blank(b),
        m.generation < u64::MAX - 1,
    ensures
        ({
            let m1 = spec_speak(m, a);
            let m2 = spec_speak(m1, b);
            &&& m1.job == Some((m1.generation, a))
            &&& m2.job == Some((m2.generation, b))
            &&& !is_current(m2, m1.generation, last_stop)
        }),
{
}

/// A stop drops the waiting request and ends every job taken before it.
pub proof fn lemma_stop_cancels(m: TtsModel, g: u64, last_stop: u64)
    requires
        g <= m.generation < u64::MAX,
    ensures
        spec_stop(m).job is None,
        !is_current(spec_stop(m), g, last_stop),
{
}

/// Requests are ignored while speech is disabled, and blank text never
/// becomes a request.
pub proof fn lemma_ignored_requests(m: TtsModel, text: Seq<char>)
    requires
        !m.enabled || is_blank(text),
    ensures
        spec_speak(m, text) == m,
{
}

} // verus!
