use desktop_pet::session::chat_turn;
use desktop_pet::audio::AudioOutput;
use desktop_pet::config::AgentConfig;
use desktop_pet::conversation::Conversation;
use desktop_pet::piper::{PiperConfig, PiperProvider, PiperRun, PiperStart};
use desktop_pet::protocol::{Motion, Priority};
use desktop_pet::session::{present_reply, AgentSession, ResultStep};
use desktop_pet::speech::sanitize;
use desktop_pet::tts::{unique_name, JobStart, TempNames, TtsController};
use desktop_pet::autostart::{toggle, AutostartChange};
use desktop_pet::status::{position_near_pet, StatusSnapshot};
use desktop_pet::input_window::{input_action, InputAction, InputEvent};

fn session(limit: usize) -> AgentSession {
    let mut cfg = AgentConfig::default();
    cfg.history_limit = limit;
    AgentSession::new(Conversation::new(&cfg))
}

#[test]
fn newest_speech_request_wins() {
    let mut c = TtsController::new(true);
    assert!(c.speak("first"));
    assert!(c.speak("second"));
    let job = c.take_job().unwrap();
    assert_eq!(job.text, "second");
    assert_eq!(job.generation, 2);
    assert_eq!(c.job_start(job.generation, 0), JobStart::Play);
    assert_eq!(c.job_start(1, 0), JobStart::Superseded);
    assert!(c.take_job().is_none());
    assert!(!c.should_interrupt(2, 0));
}

#[test]
fn speech_ignores_blank_text_and_disabled_controller() {
    let mut c = TtsController::new(true);
    assert!(!c.speak("   "));
    assert!(c.take_job().is_none());
    let mut off = TtsController::new(false);
    assert!(!off.is_enabled());
    assert!(!off.speak("hello"));
    assert!(off.take_job().is_none());
}

#[test]
fn stop_cancels_waiting_and_playing_jobs() {
    let mut c = TtsController::new(true);
    c.speak("hello");
    let job = c.take_job().unwrap();
    c.speak("again");
    c.stop();
    assert!(c.take_job().is_none());
    assert!(c.should_interrupt(job.generation, 0));
    assert_eq!(c.job_start(job.generation, 0), JobStart::Superseded);
    c.speak("after stop");
    let j = c.take_job().unwrap();
    assert_eq!(c.job_start(j.generation, 0), JobStart::Stopped(1));
    assert_eq!(c.job_start(j.generation, 1), JobStart::Play);
}

#[test]
fn temporary_audio_names() {
    assert_eq!(unique_name(1700000000123, 4, "wav"), "tts_1700000000123_4.wav");
}

#[test]
fn autostart_toggle_flips() {
    assert_eq!(toggle(true), AutostartChange::Disable);
    assert_eq!(toggle(false), AutostartChange::Enable);
}

#[test]
fn session_records_successful_rounds() {
    let mut s = session(12);
    let g = s.submit("hello").unwrap();
    assert_eq!(g, 1);
    assert!(s.is_thinking());
    assert_eq!(s.submit("again"), None);
    match s.on_result(g, Ok("hi there".to_string())) {
        ResultStep::Reply(r) => assert_eq!(r, "hi there"),
        other => panic!("unexpected {:?}", other),
    }
    assert!(!s.is_thinking());
    assert_eq!(s.last_reply(), "hi there");
    let h = s.history();
    assert_eq!(h.len(), 2);
    assert_eq!((h[0].role, h[0].content.as_str()), ("user", "hello"));
    assert_eq!((h[1].role, h[1].content.as_str()), ("assistant", "hi there"));
}

#[test]
fn session_drops_stale_and_cancelled_results() {
    let mut s = session(12);
    let g = s.submit("one").unwrap();
    s.cancel();
    assert!(!s.is_thinking());
    assert!(matches!(s.on_result(g, Ok("late".to_string())), ResultStep::Stale));
    assert!(s.history().is_empty());
    let g2 = s.submit("two").unwrap();
    assert_eq!(g2, 2);
    assert!(matches!(s.on_result(g, Ok("old".to_string())), ResultStep::Stale));
    assert!(s.is_thinking());
    match s.on_result(g2, Err("http status 500".to_string())) {
        ResultStep::Failed(e) => assert_eq!(e, "http status 500"),
        other => panic!("unexpected {:?}", other),
    }
    assert!(s.history().is_empty());
    assert_eq!(s.last_reply(), "");
}

#[test]
fn session_history_keeps_the_latest_rounds() {
    let mut s = session(1);
    for i in 0..3 {
        let g = s.submit(&format!("q{}", i)).unwrap();
        s.on_result(g, Ok(format!("a{}", i)));
    }
    let h = s.history();
    assert_eq!(h.len(), 2);
    assert_eq!(h[0].content, "q2");
    assert_eq!(h[1].content, "a2");
    s.clear();
    assert!(s.history().is_empty());
}

#[test]
fn submit_failure_frees_the_session() {
    let mut s = session(12);
    s.submit("x").unwrap();
    s.submit_failed();
    assert!(!s.is_thinking());
    assert_eq!(s.submit("y"), Some(2));
}

#[test]
fn reply_presentation() {
    let out = present_reply("  你好？\n");
    assert_eq!(out.bubble.text, "你好？");
    assert_eq!(out.bubble.motion, Some(Motion::Nod));
    assert_eq!(out.bubble.priority, Priority::Normal);
    assert_eq!(out.speech, sanitize("  你好？\n", "你好？".len()));

    let long = "a".repeat(100);
    let out = present_reply(&long);
    assert_eq!(out.bubble.text.chars().count(), 81);
    assert!(out.bubble.text.ends_with('…'));
    assert_eq!(out.bubble.motion, None);

    let out = present_reply("");
    assert_eq!(out.bubble.text, "");
    assert_eq!(out.speech, "");
}

fn piper(exe: &str, model: &str, config: &str, timeout: u64) -> PiperProvider {
    PiperProvider::new(
        &PiperConfig { exe: exe.to_string(), model: model.to_string(), config: config.to_string() },
        timeout,
    )
}

#[test]
fn piper_paths_and_validation() {
    let p = piper("py.exe", "voice.onnx", "", 30);
    assert_eq!(p.config_path(), "voice.onnx.json");
    assert_eq!(piper("py.exe", "voice.onnx", "v.json", 30).config_path(), "v.json");
    assert_eq!(
        piper(" ", "m", "", 1).validate(true, true).unwrap_err(),
        "piper runtime (exe/python) not configured"
    );
    assert_eq!(p.validate(false, true).unwrap_err(), "piper runtime not found: py.exe");
    assert_eq!(
        piper("py.exe", "", "", 1).validate(true, true).unwrap_err(),
        "piper model not configured"
    );
    assert_eq!(p.validate(true, false).unwrap_err(), "piper model not found: voice.onnx");
    assert!(p.validate(true, true).is_ok());
}

#[test]
fn piper_start_and_arguments() {
    let p = piper("py.exe", "voice.onnx", "", 0);
    assert_eq!(p.wait_secs(), 1);
    assert_eq!(piper("py.exe", "voice.onnx", "", 9).wait_secs(), 9);
    match p.start("  ", true, true) {
        Ok(PiperStart::Done(a)) => assert!(a.is_empty()),
        other => panic!("unexpected {:?}", other),
    }
    assert!(matches!(p.start("hi", true, true), Ok(PiperStart::Run)));
    assert!(p.start("hi", false, true).is_err());
    assert_eq!(
        p.command_args(true, "out.wav"),
        vec!["-m", "piper", "-m", "voice.onnx", "-c", "voice.onnx.json", "-f", "out.wav"]
    );
    assert_eq!(
        p.command_args(false, "out.wav"),
        vec!["-m", "piper", "-m", "voice.onnx", "-f", "out.wav"]
    );
}

#[test]
fn piper_run_outcomes() {
    let p = piper("py.exe", "voice.onnx", "", 30);
    assert_eq!(p.finish(PiperRun::TimedOut).unwrap_err(), "piper timeout after 30s");
    assert_eq!(p.finish(PiperRun::Failed(Some(-2))).unwrap_err(), "piper exited with code Some(-2)");
    assert_eq!(p.finish(PiperRun::Failed(None)).unwrap_err(), "piper exited with code None");
    assert_eq!(
        p.finish(PiperRun::Output(Err("denied".to_string()))).unwrap_err(),
        "read piper output failed: denied"
    );
    assert_eq!(p.finish(PiperRun::Output(Ok(vec![1, 2, 3]))).unwrap_err(), "not a wav");
    let empty = AudioOutput::empty().to_wav();
    assert_eq!(p.finish(PiperRun::Output(Ok(empty))).unwrap_err(), "piper produced empty audio");
    let a = AudioOutput { pcm_i16: vec![1, -1, 300], sample_rate: 22050, channels: 1, bits_per_sample: 16 };
    let got = p.finish(PiperRun::Output(Ok(a.to_wav()))).unwrap();
    assert_eq!(got.pcm_i16, vec![1, -1, 300]);
    assert_eq!(got.sample_rate, 22050);
}

#[test]
fn piper_check_report() {
    let p = piper("py.exe", "", "", 30);
    let lines = p.check(true, false, false, Ok((4800, 22050)));
    assert_eq!(
        lines,
        vec![
            "exe: py.exe",
            "  -> ok",
            "model: ",
            "  -> model not configured",
            "config: .json",
            "  -> MISSING",
            "short synthesis: ok (4800 samples, 22050 Hz)",
        ]
    );
    let p = piper("", "m.onnx", "c.json", 30);
    let lines = p.check(false, true, true, Err("boom".to_string()));
    assert_eq!(lines[1], "  -> exe not configured");
    assert_eq!(lines[3], "  -> ok");
    assert_eq!(lines[4], "config: c.json");
    assert_eq!(lines[5], "  -> ok");
    assert_eq!(lines[6], "short synthesis: FAILED (boom)");
}

#[test]
fn console_chat_turns() {
    let mut cfg = AgentConfig::default();
    cfg.bubble_max_chars = 5;
    let mut conv = Conversation::new(&cfg);
    let shown = chat_turn(&mut conv, &cfg, "你好", Ok("  你好呀，今天想聊什么？\r\n".to_string()));
    assert_eq!(shown.text, "你好呀，今…");
    assert_eq!(shown.motion, None);
    assert_eq!(shown.priority, Priority::Normal);
    assert_eq!(conv.history().len(), 2);
    assert_eq!(conv.history()[1].content, "  你好呀，今天想聊什么？\r\n");
    let shown = chat_turn(&mut conv, &cfg, "again", Err("transport: refused".to_string()));
    assert_eq!(shown.text, "……");
    assert_eq!(shown.motion, None);
    assert_eq!(conv.history().len(), 2);
    let shown = chat_turn(&mut conv, &cfg, "q", Ok("好吗？".to_string()));
    assert_eq!(shown.motion, Some(Motion::Nod));
}

#[test]
fn stop_count_and_wav_limits() {
    let mut c = TtsController::new(true);
    assert_eq!(c.stop_count(), 0);
    c.stop();
    c.stop();
    assert_eq!(c.stop_count(), 2);
    let a = AudioOutput { pcm_i16: vec![0; 10], sample_rate: 16000, channels: 1, bits_per_sample: 16 };
    assert!(a.fits_wav());
    let b = AudioOutput { pcm_i16: vec![], sample_rate: u32::MAX, channels: 2, bits_per_sample: 16 };
    assert!(!b.fits_wav());
    let c2 = AudioOutput { pcm_i16: vec![], sample_rate: 8000, channels: u16::MAX, bits_per_sample: 16 };
    assert!(!c2.fits_wav());
}

fn pet_at(rect: [i32; 4], online: bool) -> Option<StatusSnapshot> {
    Some(StatusSnapshot {
        online,
        visible: true,
        window_rect: rect,
        active_character: "default".to_string(),
        visible_rect: None,
    })
}

#[test]
fn input_window_opens_above_the_pet() {
    assert_eq!(position_near_pet(&pet_at([1000, 600, 1400, 1000], true), (5, 5)), (960, 352));
}

#[test]
fn input_window_goes_below_a_pet_at_the_top_and_off_the_left_edge() {
    assert_eq!(position_near_pet(&pet_at([10, 100, 410, 500], true), (5, 5)), (8, 508));
}

#[test]
fn input_window_halves_a_negative_width_toward_zero() {
    // width -51: half is -25; 300 - 25 - 240 = 35
    assert_eq!(position_near_pet(&pet_at([300, 400, 249, 700], true), (5, 5)), (35, 152));
}

#[test]
fn input_window_without_a_pet_follows_the_cursor() {
    assert_eq!(position_near_pet(&None, (500, 400)), (310, 325));
    assert_eq!(position_near_pet(&pet_at([1000, 600, 1400, 1000], false), (500, 400)), (310, 325));
}

#[test]
fn enter_sends_shift_enter_breaks_line_escape_hides() {
    assert_eq!(input_action(InputEvent::Key(0x0D, false), false, 0), InputAction::Send);
    assert_eq!(input_action(InputEvent::Key(0x0D, true), false, 0), InputAction::Default);
    assert_eq!(input_action(InputEvent::Key(0x1B, false), true, 0), InputAction::Hide);
    assert_eq!(input_action(InputEvent::Key(0x41, false), false, 0), InputAction::Default);
    assert_eq!(input_action(InputEvent::Close, false, 0), InputAction::Hide);
}

#[test]
fn send_button_stops_a_request_in_flight() {
    assert_eq!(input_action(InputEvent::Command(1002, 0), false, 0), InputAction::Send);
    assert_eq!(input_action(InputEvent::Command(1002, 0), true, 0), InputAction::Cancel);
    assert_eq!(input_action(InputEvent::Command(1002, 1), false, 0), InputAction::Nothing);
    assert_eq!(input_action(InputEvent::Command(1001, 0), false, 0), InputAction::Nothing);
}

#[test]
fn hotkey_wake_and_tray_click_show_the_window() {
    assert_eq!(input_action(InputEvent::Hotkey(1), false, 0), InputAction::Focus);
    assert_eq!(input_action(InputEvent::Hotkey(2), false, 0), InputAction::Nothing);
    assert_eq!(input_action(InputEvent::Wake, false, 0), InputAction::Focus);
    assert_eq!(input_action(InputEvent::TrayMouse(0x0202), false, 0), InputAction::Focus);
    assert_eq!(input_action(InputEvent::TrayMouse(0x0203), false, 0), InputAction::Focus);
    assert_eq!(input_action(InputEvent::TrayMouse(0x0205), false, 0), InputAction::ShowTrayMenu);
    assert_eq!(input_action(InputEvent::TrayMouse(0x0200), false, 0), InputAction::Nothing);
}

#[test]
fn agent_tray_menu_commands() {
    assert_eq!(input_action(InputEvent::TrayCommand(1), false, 2), InputAction::Focus);
    assert_eq!(input_action(InputEvent::TrayCommand(2), false, 2), InputAction::ClearConversation);
    assert_eq!(input_action(InputEvent::TrayCommand(3), false, 2), InputAction::ToggleAutostart);
    assert_eq!(input_action(InputEvent::TrayCommand(4), false, 2), InputAction::Exit);
    assert_eq!(input_action(InputEvent::TrayCommand(6), false, 2), InputAction::OpenMemory);
    assert_eq!(input_action(InputEvent::TrayCommand(51), false, 2), InputAction::SwitchPersona(1));
    assert_eq!(input_action(InputEvent::TrayCommand(52), false, 2), InputAction::Nothing);
    assert_eq!(input_action(InputEvent::TrayCommand(0), false, 2), InputAction::Nothing);
}

#[test]
fn pet_tray_broadcasts_reach_the_agent() {
    assert_eq!(input_action(InputEvent::OpenMemoryBroadcast, false, 0), InputAction::OpenMemory);
    assert_eq!(input_action(InputEvent::OpenPersonaBroadcast, false, 0), InputAction::OpenPersonaMenu);
    assert_eq!(input_action(InputEvent::QuitBroadcast, true, 0), InputAction::Exit);
}

#[test]
fn stale_result_is_dropped_whatever_the_history_limit() {
    let mut s = session(usize::MAX);
    let g = s.submit("hello").unwrap();
    s.cancel();
    assert!(matches!(s.on_result(g, Ok("late".to_string())), ResultStep::Stale));
    assert!(s.history().is_empty());
    assert!(!s.is_thinking());
}

#[test]
fn temp_names_are_numbered_in_turn() {
    let mut names = TempNames::new();
    assert_eq!(names.name(1700000000123, "wav"), "tts_1700000000123_0.wav");
    assert_eq!(names.name(1700000000123, "wav"), "tts_1700000000123_1.wav");
    assert_eq!(names.name(5, "mp3"), "tts_5_2.mp3");
}
