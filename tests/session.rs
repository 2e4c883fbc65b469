use audio_core::context::{ContextLog, TranscriptSegment, MAX_CONTEXT_ITEMS, PROMPT_PREAMBLE};
use audio_core::device::{default_flags, device_list, device_records, find_device_index, DeviceChoice, SpeakerInput};
use audio_core::schema::{migrations, MigrationKind};
use audio_core::session::{
    negotiated_rate, InitOutcome, OverflowMonitor, OverflowVerdict, SessionControl,
};

#[test]
fn stop_twice_is_harmless() {
    let mut s = SessionControl::new();
    assert!(!s.stop());
    s.start();
    assert!(s.delivery_allowed());
    assert!(s.stop());
    assert!(!s.delivery_allowed());
    assert!(!s.stop());
    assert!(!s.delivery_allowed());
    assert!(!s.is_running());
}

#[test]
fn overflow_watermarks() {
    let mut m = OverflowMonitor::new();
    assert_eq!(m.record_push(10, 10), OverflowVerdict::Continue);
    for i in 1..=51u32 {
        let v = m.record_push(3, 10);
        if i == 25 {
            assert_eq!(v, OverflowVerdict::Warn);
        } else if i > 50 {
            assert_eq!(v, OverflowVerdict::Stop);
        } else {
            assert_eq!(v, OverflowVerdict::Continue);
        }
    }
    assert_eq!(m.consecutive_drops(), 51);
    assert_eq!(m.record_push(10, 10), OverflowVerdict::Continue);
    assert_eq!(m.consecutive_drops(), 0);
}

#[test]
fn init_rate_fallback() {
    assert_eq!(negotiated_rate(InitOutcome::Ready(48000)), 48000);
    assert_eq!(negotiated_rate(InitOutcome::Failed), 44100);
    assert_eq!(negotiated_rate(InitOutcome::TimedOut), 44100);
    assert_eq!(negotiated_rate(InitOutcome::Ready(0)), 44100);
}

#[test]
fn speaker_input_filters_default_ids() {
    assert!(SpeakerInput::new(None).unwrap().device_id().is_none());
    assert!(SpeakerInput::new(Some(String::new())).unwrap().device_id().is_none());
    assert!(SpeakerInput::new(Some("default".to_string())).unwrap().device_id().is_none());
    let s = SpeakerInput::new(Some("dev-2".to_string())).unwrap();
    assert_eq!(s.device_id().unwrap(), "dev-2");
}

#[test]
fn device_choice_falls_back_to_default() {
    let ids = vec!["a".to_string(), "dev-2".to_string(), "dev-2".to_string()];
    assert_eq!(find_device_index(&ids, &"dev-2".to_string()), Some(1));
    assert_eq!(find_device_index(&ids, &"x".to_string()), None);
    let s = SpeakerInput::new(Some("dev-2".to_string())).unwrap();
    assert_eq!(s.choose_device(&ids), DeviceChoice::Listed(1));
    let gone = SpeakerInput::new(Some("gone".to_string())).unwrap();
    assert_eq!(gone.choose_device(&ids), DeviceChoice::Default);
    let none = SpeakerInput::new(None).unwrap();
    assert_eq!(none.choose_device(&ids), DeviceChoice::Default);
}

fn seg(speaker: &str, text: &str, ts: u64, is_final: bool) -> TranscriptSegment {
    TranscriptSegment { speaker: speaker.to_string(), text: text.to_string(), timestamp: ts, is_final }
}

#[test]
fn context_maps_roles_and_renders() {
    let mut c = ContextLog::new();
    c.add_transcript(seg("user", "hello", 1, true));
    c.add_transcript(seg("spk2", "ignored", 2, false));
    c.add_transcript(seg("spk2", "why?", 3, true));
    c.add_assistant_reply("say hi".to_string(), 4);
    assert_eq!(c.len(), 3);
    assert_eq!(c.transcript(), "USER: hello\nINTERVIEWER: why?\nASSISTANT: say hi\n");
}

#[test]
fn context_drops_oldest_past_limit() {
    let mut c = ContextLog::new();
    for i in 0..(MAX_CONTEXT_ITEMS as u64 + 1) {
        c.add_transcript(seg("user", &format!("t{}", i), i, true));
    }
    assert_eq!(c.len(), MAX_CONTEXT_ITEMS);
    assert!(c.transcript().starts_with("USER: t1\n"));
}

#[test]
fn device_list_skips_empty_ids() {
    let entries = vec![
        ("id-1".to_string(), "Speakers".to_string()),
        (String::new(), "Ghost".to_string()),
        ("id-3".to_string(), "Headset".to_string()),
    ];
    let list = device_list(entries);
    assert_eq!(list.len(), 2);
    assert_eq!((list[0].id.as_str(), list[0].name.as_str()), ("id-1", "Speakers"));
    assert_eq!((list[1].id.as_str(), list[1].name.as_str()), ("id-3", "Headset"));
}

#[test]
fn prompt_starts_with_instruction() {
    let mut c = ContextLog::new();
    c.add_transcript(seg("host", "Tell me about yourself", 10, true));
    let p = c.prompt();
    assert_eq!(p, format!("{}INTERVIEWER: Tell me about yourself\n", PROMPT_PREAMBLE));
    assert!(p.starts_with("You are an interview assistant."));
}

#[test]
fn schema_migrations_in_order() {
    let m = migrations();
    assert_eq!(m.len(), 3);
    let versions: Vec<i64> = m.iter().map(|x| x.version).collect();
    assert_eq!(versions, vec![1, 2, 3]);
    assert_eq!(m[0].description, "create_meetings_table");
    assert_eq!(m[2].description, "create_chunks_table");
    assert!(m[1].sql.contains("CREATE TABLE IF NOT EXISTS transcripts"));
    assert!(m.iter().all(|x| x.kind == MigrationKind::Up));
}

#[test]
fn default_device_is_flagged() {
    let ids = vec!["a".to_string(), "b".to_string()];
    let d = "b".to_string();
    assert_eq!(default_flags(&ids, Some(&d)), vec![false, true]);
    assert_eq!(default_flags(&ids, None), vec![false, false]);
}

#[test]
fn input_device_records_keep_every_entry() {
    let entries = vec![(String::new(), "Built-in".to_string()), ("mic-2".to_string(), "USB".to_string())];
    let list = device_records(entries);
    assert_eq!(list.len(), 2);
    assert_eq!((list[0].id.as_str(), list[0].name.as_str()), ("", "Built-in"));
    assert_eq!((list[1].id.as_str(), list[1].name.as_str()), ("mic-2", "USB"));
}

#[test]
fn assistant_reply_never_evicts() {
    let mut c = ContextLog::new();
    for i in 0..(MAX_CONTEXT_ITEMS as u64) {
        c.add_transcript(seg("user", &format!("t{}", i), i, true));
    }
    c.add_assistant_reply("answer".to_string(), 500);
    assert_eq!(c.len(), MAX_CONTEXT_ITEMS + 1);
    assert!(c.transcript().starts_with("USER: t0\n"));
    assert!(c.transcript().ends_with("ASSISTANT: answer\n"));
    c.add_transcript(seg("host", "next", 501, true));
    assert_eq!(c.len(), MAX_CONTEXT_ITEMS + 1);
    assert!(c.transcript().starts_with("USER: t1\n"));
}

#[test]
fn device_choice_takes_first_match() {
    let ids = vec!["x".to_string(), "dup".to_string(), "dup".to_string()];
    let s = SpeakerInput::new(Some("dup".to_string())).unwrap();
    assert_eq!(s.choose_device(&ids), DeviceChoice::Listed(1));
}
