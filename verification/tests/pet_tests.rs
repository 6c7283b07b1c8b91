use desktop_pet::rng::Rng;
use desktop_pet::audio::{parse_wav, AudioOutput};
use desktop_pet::behavior::{
    ActionQueue, PetAction, PetEvent, QueueDecision, Scheduler, PRI_CONTROL, PRI_FORCE,
    PRI_NORMAL,
};
use desktop_pet::character::{
    scan_outcomes,
    check_package, display_name, motion_group, resolve_active, CharacterAssets, ParametersMeta,
};
use desktop_pet::config::{default_active, CharacterConfig, Config, VirtualScreen, WindowConfig};
use desktop_pet::presentation::{compute_position, estimated_display_ms, PetExpression, Priority, Rect, SpeechQueue};

#[test]
fn wav_round_trip() {
    let a = AudioOutput { pcm_i16: vec![0, 1, -1, i16::MAX, i16::MIN], sample_rate: 22050, channels: 2, bits_per_sample: 16 };
    let wav = a.to_wav();
    assert_eq!(&wav[0..4], b"RIFF");
    assert_eq!(&wav[8..12], b"WAVE");
    assert_eq!(wav.len(), 44 + 10);
    assert_eq!(u32::from_le_bytes([wav[4], wav[5], wav[6], wav[7]]), 36 + 10);
    let b = parse_wav(&wav).unwrap();
    assert_eq!(b.pcm_i16, a.pcm_i16);
    assert_eq!((b.sample_rate, b.channels, b.bits_per_sample), (22050, 2, 16));
}

#[test]
fn wav_header_fields() {
    let a = AudioOutput { pcm_i16: vec![7], sample_rate: 16000, channels: 1, bits_per_sample: 16 };
    let w = a.to_wav();
    assert_eq!(&w[12..16], b"fmt ");
    assert_eq!(u32::from_le_bytes([w[16], w[17], w[18], w[19]]), 16);
    assert_eq!(u16::from_le_bytes([w[20], w[21]]), 1);
    assert_eq!(u16::from_le_bytes([w[22], w[23]]), 1);
    assert_eq!(u32::from_le_bytes([w[24], w[25], w[26], w[27]]), 16000);
    assert_eq!(u32::from_le_bytes([w[28], w[29], w[30], w[31]]), 32000);
    assert_eq!(u16::from_le_bytes([w[32], w[33]]), 2);
    assert_eq!(u16::from_le_bytes([w[34], w[35]]), 16);
    assert_eq!(&w[36..40], b"data");
    assert_eq!(&w[44..46], &[7, 0]);
}

#[test]
fn wav_errors() {
    assert_eq!(parse_wav(b"short").unwrap_err(), "not a wav");
    let mut w = AudioOutput { pcm_i16: vec![1], sample_rate: 8000, channels: 1, bits_per_sample: 16 }.to_wav();
    w[34] = 8;
    assert_eq!(parse_wav(&w).unwrap_err(), "unsupported bits: 8");
    let e = AudioOutput::empty();
    assert!(e.is_empty());
    assert_eq!((e.sample_rate, e.channels, e.bits_per_sample), (16000, 1, 16));
}

#[test]
fn wav_skips_unknown_chunks() {
    let mut w: Vec<u8> = Vec::new();
    w.extend_from_slice(b"RIFF");
    w.extend_from_slice(&0u32.to_le_bytes());
    w.extend_from_slice(b"WAVE");
    w.extend_from_slice(b"LIST");
    w.extend_from_slice(&3u32.to_le_bytes());
    w.extend_from_slice(&[1, 2, 3, 0]);
    w.extend_from_slice(b"fmt ");
    w.extend_from_slice(&16u32.to_le_bytes());
    w.extend_from_slice(&1u16.to_le_bytes());
    w.extend_from_slice(&1u16.to_le_bytes());
    w.extend_from_slice(&44100u32.to_le_bytes());
    w.extend_from_slice(&88200u32.to_le_bytes());
    w.extend_from_slice(&2u16.to_le_bytes());
    w.extend_from_slice(&16u16.to_le_bytes());
    w.extend_from_slice(b"data");
    w.extend_from_slice(&4u32.to_le_bytes());
    w.extend_from_slice(&[0x34, 0x12, 0xff, 0xff]);
    let a = parse_wav(&w).unwrap();
    assert_eq!(a.pcm_i16, vec![0x1234, -1]);
    assert_eq!(a.sample_rate, 44100);
}

#[test]
fn actions_and_names() {
    assert_eq!(PetAction::ResetPosition.name(), "ResetPosition");
    assert!(PetAction::Quit.is_control());
    assert!(!PetAction::Nod.is_control());
}

#[test]
fn queue_puts_control_first_and_dedups() {
    let mut q = ActionQueue::new();
    q.handle(&PetEvent::LeftClick);
    q.handle(&PetEvent::LeftClick);
    q.handle(&PetEvent::DoubleClick);
    q.handle(&PetEvent::PointerEnter);
    assert_eq!(q.len(), 2);
    q.handle(&PetEvent::MenuQuit);
    assert_eq!(q.take_control(), Some(PetAction::Quit));
    assert_eq!(q.take_control(), None);
    assert_eq!(q.take_best(), Some((PetAction::Shake, PRI_FORCE)));
    assert_eq!(q.take_best(), Some((PetAction::Nod, PRI_NORMAL)));
    assert_eq!(q.take_best(), None);
}

#[test]
fn queue_is_bounded() {
    let mut q = ActionQueue::new();
    q.enqueue(PetAction::Nod, 1);
    q.enqueue(PetAction::Shake, 1);
    q.enqueue(PetAction::Blink, 1);
    q.enqueue(PetAction::Idle, 1);
    assert_eq!(q.len(), 4);
    q.enqueue(PetAction::ResetPosition, PRI_CONTROL);
    q.enqueue(PetAction::ResetPosition, PRI_CONTROL);
    assert_eq!(q.len(), 6);
}

#[test]
fn scheduler_runs_one_action_at_a_time() {
    let mut s = Scheduler::new();
    assert_eq!(s.next(false), QueueDecision::Idle);
    s.handle(&PetEvent::LeftClick);
    s.handle(&PetEvent::DoubleClick);
    assert_eq!(s.next(true), QueueDecision::Wait);
    assert_eq!(s.next(false), QueueDecision::Start(PetAction::Shake));
    assert_eq!(s.next(false), QueueDecision::Wait);
    s.handle(&PetEvent::MenuReset);
    assert_eq!(s.next(false), QueueDecision::Control(PetAction::ResetPosition));
    assert!(!s.observe(false, false));
    assert!(!s.observe(true, false));
    assert!(s.observe(false, false));
    assert_eq!(s.next(false), QueueDecision::Start(PetAction::Nod));
    assert!(s.observe(false, true));
    assert_eq!(s.next(false), QueueDecision::Idle);
    s.start_idle(PetAction::Blink);
    assert_eq!(s.next(false), QueueDecision::Wait);
}

#[test]
fn config_defaults() {
    let c = Config::default();
    assert_eq!(c.window, WindowConfig { x: 200, y: 200, width: 640, height: 640 });
    assert_eq!(c.character.active_character, "default");
    assert_eq!(CharacterConfig::default().active_character, default_active());
}

#[test]
fn saved_position_is_kept_on_screen() {
    let screen = VirtualScreen { x: 0, y: 0, width: 1920, height: 1080 };
    let mut c = Config::default();
    c.window.x = 5000;
    c.window.y = -2000;
    assert!(c.clamp_to_screen(screen));
    assert_eq!((c.window.x, c.window.y), (1820, -540));
    assert!(!c.clamp_to_screen(screen));
    let mut d = Config::default();
    assert!(!d.clamp_to_screen(screen));
    assert!(!d.clamp_to_screen(VirtualScreen { x: 0, y: 0, width: 0, height: 1080 }));
}

#[test]
fn bubble_queue_rules() {
    let mut q: SpeechQueue<u32> = SpeechQueue::new();
    q.offer("hello".to_string(), Priority::User, 1);
    q.offer("hello".to_string(), Priority::User, 2);
    q.offer("  ".to_string(), Priority::User, 3);
    assert_eq!(q.len(), 1);
    q.offer("idle".to_string(), Priority::Idle, 4);
    q.offer("hello".to_string(), Priority::System, 5);
    assert_eq!(q.len(), 2);
    let first = q.pop_front().unwrap();
    assert_eq!((first.text.as_str(), first.priority, first.duration), ("idle", Priority::Idle, 4));
    let second = q.pop_front().unwrap();
    assert_eq!((second.text.as_str(), second.priority), ("hello", Priority::System));
    assert!(q.pop_front().is_none());
}

#[test]
fn bubble_queue_drops_lowest_when_full() {
    let mut q: SpeechQueue<()> = SpeechQueue::new();
    q.offer("i0".to_string(), Priority::Idle, ());
    for k in 1..8 {
        q.offer(format!("u{}", k), Priority::User, ());
    }
    assert_eq!(q.len(), 8);
    q.offer("new".to_string(), Priority::System, ());
    assert_eq!(q.len(), 8);
    assert_eq!(q.pop_front().unwrap().text, "u1");
    q.clear();
    assert_eq!(q.len(), 0);
}

#[test]
fn bubble_placement() {
    let pet = Rect { left: 1000, top: 500, right: 1400, bottom: 900 };
    assert_eq!(compute_position(pet, 200, 80, None), (1100, 412));
    let top = Rect { left: 1000, top: 20, right: 1400, bottom: 420 };
    assert_eq!(compute_position(top, 200, 80, None), (1100, 428));
    let right = Rect { left: 1800, top: 500, right: 2200, bottom: 900 };
    assert_eq!(compute_position(right, 200, 80, None), (1716, 412));
    let wa = Rect { left: 0, top: 0, right: 800, bottom: 600 };
    assert_eq!(compute_position(Rect { left: -300, top: 10, right: -100, bottom: 590 }, 100, 50, Some(wa)), (4, 546));
    assert_eq!(Priority::User.rank(), 2);
}

#[test]
fn character_choices() {
    let a = CharacterAssets { dir: "characters/default".to_string(), name: "haru".to_string() };
    assert_eq!(a.action_group("Nod"), "Nod");
    assert_eq!(a.action_group("Wave"), "Idle");
    assert_eq!(ParametersMeta::default().mouth_open, "ParamMouthOpenY");
    assert_eq!(display_name("cat", ""), "cat");
    assert_eq!(display_name("cat", "Kitty"), "Kitty");
    let motions = vec![("Nod".to_string(), "TapBody".to_string()), ("Nod".to_string(), "Other".to_string())];
    assert_eq!(motion_group(&motions, "Nod"), "TapBody");
    assert_eq!(motion_group(&motions, "Shake"), "Shake");
    let ids = vec!["a".to_string(), "b".to_string()];
    assert_eq!(resolve_active(&ids, "b"), Some(1));
    assert_eq!(resolve_active(&ids, "zzz"), Some(0));
    assert_eq!(resolve_active(&[], "a"), None);
}

#[test]
fn character_package_checks() {
    assert!(check_package("cat", "model/cat.model3.json", false, false).is_ok());
    assert_eq!(check_package(" ", "m", false, false).unwrap_err(), "character.json: id is empty");
    assert_eq!(
        check_package("cat", "/abs/m.json", true, false).unwrap_err(),
        "character.json: model3 must be relative, got /abs/m.json"
    );
    assert_eq!(
        check_package("cat", "../m.json", false, true).unwrap_err(),
        "character.json: model3 must not contain '..' (path escape): ../m.json"
    );
}


#[test]
fn xorshift_generator() {
    fn step(mut x: u64) -> u64 {
        x ^= x << 13;
        x ^= x >> 7;
        x ^= x << 17;
        x
    }
    let mut r = Rng::new(0);
    let a = r.next_u64();
    assert_eq!(a, step(1));
    let b = r.next_u64();
    assert_eq!(b, step(a));
    let mut r2 = Rng::new(12345);
    let bits = r2.next_bits24();
    assert_eq!(bits as u64, step(12345) >> 40);
    assert!(bits < 1 << 24);
    let mut r3 = Rng::new(u64::MAX);
    for _ in 0..1000 {
        assert_ne!(r3.next_u64(), 0);
    }
}

#[test]
fn presenting_expressions() {
    let mut q: SpeechQueue<Option<f32>> = SpeechQueue::new();
    let e = PetExpression::TextAndMotion { text: "hi".to_string(), action: PetAction::Nod, priority: Priority::User, duration: Some(3.5) };
    assert_eq!(e.text(), Some("hi"));
    assert_eq!(e.motion(), Some(PetAction::Nod));
    assert_eq!(e.priority(), Priority::User);
    assert_eq!(e.duration(), Some(&3.5));
    let p = q.present(e);
    assert_eq!(p.motion, Some(PetAction::Nod));
    assert!(p.suppress_idle);
    assert_eq!(q.len(), 1);
    let p = q.present(PetExpression::Motion { action: PetAction::Shake, priority: Priority::System });
    assert_eq!(p.motion, Some(PetAction::Shake));
    assert!(!p.suppress_idle);
    assert_eq!(q.len(), 1);
    let p = q.present(PetExpression::Text { text: "idle line".to_string(), priority: Priority::Idle, duration: None });
    assert_eq!(p.motion, None);
    assert!(!p.suppress_idle);
    let first = q.pop_front().unwrap();
    assert_eq!((first.text.as_str(), first.duration), ("hi", Some(3.5)));
    assert_eq!(q.pop_front().unwrap().duration, None);
}

#[test]
fn display_time_estimates() {
    assert_eq!(estimated_display_ms(""), 2000);
    assert_eq!(estimated_display_ms("hello"), 2000);
    assert_eq!(estimated_display_ms("hello world!"), 2700);
    assert_eq!(estimated_display_ms("你好呀你好呀"), 2700);
    assert_eq!(estimated_display_ms(&"字".repeat(300)), 12000);
    assert_eq!(estimated_display_ms(&"a".repeat(210)), 12000);
}

#[test]
fn greeting_is_queued_as_a_system_line() {
    let mut q: SpeechQueue<Option<f32>> = SpeechQueue::new();
    q.greet(None);
    q.greet(Some(String::new()));
    assert_eq!(q.len(), 0);
    q.greet(Some("你好呀".to_string()));
    assert_eq!(q.len(), 1);
    let line = q.pop_front().unwrap();
    assert_eq!((line.text.as_str(), line.priority, line.duration), ("你好呀", Priority::System, None));
}

#[test]
fn bad_character_packages_are_skipped() {
    let outcomes: Vec<Result<&str, String>> = vec![
        Ok("alpha"),
        Err("character.json: id is empty".to_string()),
        Ok("beta"),
        Err("model3 not found: x".to_string()),
    ];
    let (packages, errors) = scan_outcomes(outcomes);
    assert_eq!(packages, vec!["alpha", "beta"]);
    assert_eq!(errors, vec!["character.json: id is empty".to_string(), "model3 not found: x".to_string()]);
    let (none, no_errors) = scan_outcomes::<u8>(Vec::new());
    assert!(none.is_empty() && no_errors.is_empty());
}
