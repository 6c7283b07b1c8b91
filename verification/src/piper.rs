//! The Piper speech provider's decisions: which files it needs, the command
//! line it runs, what its run is turned into, and its diagnostic report.
//!
//! Running the process (stdin, the deadline, killing it), the file checks and
//! the temporary output file are the caller's; each of their outcomes comes
//! back here as a plain value.
use vstd::prelude::*;
use crate::audio::{parse_outcome, parse_wav, spec_parse_wav, AudioOutput};
use crate::json::{decimal, push_decimal, push_signed, signed_decimal};
use crate::text::{is_blank, is_blank_str, push_str};

verus! {

/// Where the Piper runtime and voice are.
#[derive(Debug, Clone)]
pub struct PiperConfig {
    /// The Python interpreter that runs `-m piper`.
    pub exe: String,
    /// The voice model (`.onnx`).
    pub model: String,
    /// The voice configuration (`.onnx.json`); empty means next to the model.
    pub config: String,
}

/// The Piper provider.
#[derive(Debug)]
pub struct PiperProvider {
    pub cfg: PiperConfig,
    pub timeout_secs: u64,
}

/// The voice configuration's path: the configured one, or the model's path
/// with `.json` appended.
pub open spec fn spec_config_path(cfg: PiperConfig) -> Seq<char> {
    if cfg.config@.len() != 0 {
        cfg.config@
    } else {
        cfg.model@ + ".json"@
    }
}

/// Why synthesis cannot start, given which files exist.
pub open spec fn spec_validate(cfg: PiperConfig, exe_is_file: bool, model_is_file: bool) -> Option<
    Seq<char>,
> {
    if is_blank(cfg.exe@) {
        Some("piper runtime (exe/python) not configured"@)
    } else if !exe_is_file {
        Some("piper runtime not found: "@ + cfg.exe@)
    } else if is_blank(cfg.model@) {
        Some("piper model not configured"@)
    } else if !model_is_file {
        Some("piper model not found: "@ + cfg.model@)
    } else {
        None
    }
}

/// The arguments after the interpreter: `-m piper -m <model> [-c <config>] -f <out>`.
pub open spec fn spec_command_args(cfg: PiperConfig, config_is_file: bool, out: Seq<char>) -> Seq<
    Seq<char>,
> {
    seq!["-m"@, "piper"@, "-m"@, cfg.model@] + (if config_is_file {
        seq!["-c"@, spec_config_path(cfg)]
    } else {
        Seq::empty()
    }) + seq!["-f"@, out]
}

/// How an optional exit code is printed (`{:?}`).
pub open spec fn exit_code_text(code: Option<i32>) -> Seq<char> {
    match code {
        Some(c) => "Some("@ + signed_decimal(c as int) + ")"@,
        None => "None"@,
    }
}

/// How a Piper run ended.
#[derive(Debug)]
pub enum PiperRun {
    /// The deadline passed and the process was killed.
    TimedOut,
    /// The process exited unsuccessfully, with this code if it had one.
    Failed(Option<i32>),
    /// The process succeeded; the output file's bytes, or why it could not be read.
    Output(Result<Vec<u8>, String>),
}

/// What a Piper run is turned into.
pub open spec fn spec_finish(timeout_secs: u64, run: PiperRun) -> Result<
    (Seq<i16>, u32, u16, u16),
    Seq<char>,
> {
    match run {
        PiperRun::TimedOut => Err("piper timeout after "@ + decimal(timeout_secs as nat) + "s"@),
        PiperRun::Failed(code) => Err("piper exited with code "@ + exit_code_text(code)),
        PiperRun::Output(Err(e)) => Err("read piper output failed: "@ + e@),
        PiperRun::Output(Ok(bytes)) => match spec_parse_wav(bytes@) {
            Err(e) => Err(e),
            Ok(a) => if a.0.len() == 0 {
                Err("piper produced empty audio"@)
            } else {
                Ok(a)
            },
        },
    }
}

/// The first step of a synthesis.
#[derive(Debug)]
pub enum PiperStart {
    /// Nothing to run: this is the result.
    Done(AudioOutput),
    /// Run the process.
    Run,
}

/// A diagnostic line under a path: not configured, present or missing.
pub open spec fn presence_line(configured: bool, exists: bool, what: Seq<char>) -> Seq<char> {
    if !configured {
        "  -> "@ + what + " not configured"@
    } else if exists {
        "  -> ok"@
    } else {
        "  -> MISSING"@
    }
}

/// The diagnostic report, line by line.
pub open spec fn spec_check_report(
    cfg: PiperConfig,
    exe_is_file: bool,
    model_is_file: bool,
    config_is_file: bool,
    synthesis: Result<(usize, u32), Seq<char>>,
) -> Seq<Seq<char>> {
    seq![
        "exe: "@ + cfg.exe@,
        presence_line(cfg.exe@.len() != 0, exe_is_file, "exe"@),
        "model: "@ + cfg.model@,
        presence_line(cfg.model@.len() != 0, model_is_file, "model"@),
        "config: "@ + spec_config_path(cfg),
        presence_line(true, config_is_file, "config"@),
        match synthesis {
            Ok((n, hz)) => "short synthesis: ok ("@ + decimal(n as nat) + " samples, "@ + decimal(
                hz as nat,
            ) + " Hz)"@,
            Err(e) => "short synthesis: FAILED ("@ + e + ")"@,
        },
    ]
}

fn presence(configured: bool, exists: bool, what: &str) -> (r: String)
    ensures
        r@ == presence_line(configured, exists, what@),
{
    if !configured {
        let mut s = String::from_str("  -> ");
        push_str(&mut s, what);
        push_str(&mut s, " not configured");
        s
    } else if exists {
        String::from_str("  -> ok")
    } else {
        String::from_str("  -> MISSING")
    }
}

fn labelled(label: &str, value: &str) -> (r: String)
    ensures
        r@ == label@ + value@,
{
    let mut s = String::from_str(label);
    push_str(&mut s, value);
    s
}

impl PiperProvider {
    /// A provider with a copy of the settings.
    pub fn new(cfg: &PiperConfig, timeout_secs: u64) -> (r: PiperProvider)
        ensures
            r.cfg.exe@ == cfg.exe@,
            r.cfg.model@ == cfg.model@,
            r.cfg.config@ == cfg.config@,
            r.timeout_secs == timeout_secs,
    {
        PiperProvider {
            cfg: PiperConfig {
                exe: cfg.exe.clone(),
                model: cfg.model.clone(),
                config: cfg.config.clone(),
            },
            timeout_secs,
        }
    }

    /// The voice configuration's path.
    pub fn config_path(&self) -> (r: String)
        ensures
            r@ == spec_config_path(self.cfg),
    {
        if !self.cfg.config.as_str().is_empty() {
            self.cfg.config.clone()
        } else {
            labelled(self.cfg.model.as_str(), ".json")
        }
    }

    /// Checks that the runtime and the model are configured and exist.
    pub fn validate(&self, exe_is_file: bool, model_is_file: bool) -> (r: Result<(), String>)
        ensures
            match spec_validate(self.cfg, exe_is_file, model_is_file) {
                Some(e) => r is Err && r->Err_0@ == e,
                None => r is Ok,
            },
    {
        if is_blank_str(self.cfg.exe.as_str()) {
            return Err(String::from_str("piper runtime (exe/python) not configured"));
        }
        if !exe_is_file {
            return Err(labelled("piper runtime not found: ", self.cfg.exe.as_str()));
        }
        if is_blank_str(self.cfg.model.as_str()) {
            return Err(String::from_str("piper model not configured"));
        }
        if !model_is_file {
            return Err(labelled("piper model not found: ", self.cfg.model.as_str()));
        }
        Ok(())
    }

    /// The first step of synthesising `text`: refuse when the files are not
    /// there, give empty audio for blank text, else run the process.
    pub fn start(&self, text: &str, exe_is_file: bool, model_is_file: bool) -> (r: Result<
        PiperStart,
        String,
    >)
        ensures
            match spec_validate(self.cfg, exe_is_file, model_is_file) {
                Some(e) => r is Err && r->Err_0@ == e,
                None => if is_blank(text@) {
                    r is Ok && r->Ok_0 is Done && r->Ok_0->Done_0.pcm_i16@.len() == 0
                        && r->Ok_0->Done_0.sample_rate == 16000 && r->Ok_0->Done_0.channels == 1
                        && r->Ok_0->Done_0.bits_per_sample == 16
                } else {
                    r is Ok && r->Ok_0 is Run
                },
            },
    {
        match self.validate(exe_is_file, model_is_file) {
            Err(e) => Err(e),
            Ok(()) => if is_blank_str(text) {
                Ok(PiperStart::Done(AudioOutput::empty()))
            } else {
                Ok(PiperStart::Run)
            },
        }
    }

    /// The arguments to pass to the interpreter.
    pub fn command_args(&self, config_is_file: bool, out: &str) -> (r: Vec<String>)
        ensures
            r@.map_values(|s: String| s@) == spec_command_args(self.cfg, config_is_file, out@),
    {
        let mut v: Vec<String> = Vec::new();
        v.push(String::from_str("-m"));
        v.push(String::from_str("piper"));
        v.push(String::from_str("-m"));
        v.push(self.cfg.model.clone());
        if config_is_file {
            v.push(String::from_str("-c"));
            v.push(self.config_path());
        }
        v.push(String::from_str("-f"));
        v.push(String::from_str(out));
        assert(v@.map_values(|s: String| s@) =~= spec_command_args(self.cfg, config_is_file, out@));
        v
    }

    /// Seconds to wait for the process: the timeout, at least one.
    pub fn wait_secs(&self) -> (r: u64)
        ensures
            r == if self.timeout_secs == 0 {
                1
            } else {
                self.timeout_secs
            },
    {
        if self.timeout_secs == 0 {
            1
        } else {
            self.timeout_secs
        }
    }

    /// Turns a run's outcome into audio or an error.
    pub fn finish(&self, run: PiperRun) -> (r: Result<AudioOutput, String>)
        requires
            run matches PiperRun::Output(Ok(b)) ==> b@.len() <= isize::MAX,
        ensures
            parse_outcome(r) == spec_finish(self.timeout_secs, run),
    {
        match run {
            PiperRun::TimedOut => {
                let mut s = String::from_str("piper timeout after ");
                push_decimal(&mut s, self.timeout_secs);
                push_str(&mut s, "s");
                assert(s@ == "piper timeout after "@ + decimal(self.timeout_secs as nat) + "s"@);
                Err(s)
            },
            PiperRun::Failed(code) => {
                let mut s = String::from_str("piper exited with code ");
                match code {
                    Some(c) => {
                        push_str(&mut s, "Some(");
                        push_signed(&mut s, c as i64);
                        push_str(&mut s, ")");
                    },
                    None => push_str(&mut s, "None"),
                }
                assert(s@ == "piper exited with code "@ + exit_code_text(code));
                Err(s)
            },
            PiperRun::Output(Err(e)) => Err(labelled("read piper output failed: ", e.as_str())),
            PiperRun::Output(Ok(bytes)) => {
                let audio = parse_wav(bytes.as_slice());
                match audio {
                    Err(e) => Err(e),
                    Ok(a) => if a.pcm_i16.len() == 0 {
                        Err(String::from_str("piper produced empty audio"))
                    } else {
                        Ok(a)
                    },
                }
            },
        }
    }

    /// The diagnostic report: each path, whether it is there, and how a short
    /// synthesis went (its sample count and rate, or its error).
    pub fn check(
        &self,
        exe_is_file: bool,
        model_is_file: bool,
        config_is_file: bool,
        synthesis: Result<(usize, u32), String>,
    ) -> (r: Vec<String>)
        ensures
            r@.map_values(|s: String| s@) == spec_check_report(
                self.cfg,
                exe_is_file,
                model_is_file,
                config_is_file,
                match synthesis {
                    Ok(x) => Ok(x),
                    Err(e) => Err(e@),
                },
            ),
    {
        let ghost syn = match &synthesis {
            Ok(x) => Ok(*x),
            Err(e) => Err(e@),
        };
        let mut lines: Vec<String> = Vec::new();
        lines.push(labelled("exe: ", self.cfg.exe.as_str()));
        lines.push(presence(!self.cfg.exe.as_str().is_empty(), exe_is_file, "exe"));
        lines.push(labelled("model: ", self.cfg.model.as_str()));
        lines.push(presence(!self.cfg.model.as_str().is_empty(), model_is_file, "model"));
        let cp = self.config_path();
        lines.push(labelled("config: ", cp.as_str()));
        lines.push(presence(true, config_is_file, "config"));
        let last = match synthesis {
            Ok((n, hz)) => {
                let mut s = String::from_str("short synthesis: ok (");
                push_decimal(&mut s, n as u64);
                push_str(&mut s, " samples, ");
                push_decimal(&mut s, hz as u64);
                push_str(&mut s, " Hz)");
                s
            },
            Err(e) => {
                let mut s = String::from_str("short synthesis: FAILED (");
                push_str(&mut s, e.as_str());
                push_str(&mut s, ")");
                s
            },
        };
        lines.push(last);
        assert(lines@.map_values(|s: String| s@) =~= spec_check_report(
            self.cfg,
            exe_is_file,
            model_is_file,
            config_is_file,
            syn,
        ));
        lines
    }
}

} // verus!
