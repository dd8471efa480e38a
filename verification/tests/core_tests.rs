use rio_core::Action;
use rio_core::Parser;
use rio_core::LevelFilter;
use rio_core::LoggerRegistry;
use rio_core::SchedDecision;
use rio_core::SchedEvent;
use rio_core::Scheduler;
use rio_core::encode_paste;
use rio_core::level_enabled;
use rio_core::setup_logs_by_filter_level;
use rio_core::split_env_pair;
use rio_core::terminfo_name;

fn feed_all(parser: &mut Parser, bytes: &[u8]) -> Vec<Action> {
    parser.feed(bytes)
}

#[test]
fn print_and_execute_actions() {
    let mut p = Parser::new();
    let acts = feed_all(&mut p, b"A\n");
    assert_eq!(acts, vec![Action::Print('A' as u32), Action::Execute(0x0a)]);
}

#[test]
fn csi_split_across_chunks_matches_whole() {
    let mut p1 = Parser::new();
    let mut whole = feed_all(&mut p1, b"\x1b[10;5H");
    let mut p2 = Parser::new();
    let mut split = feed_all(&mut p2, b"\x1b[1");
    split.extend(feed_all(&mut p2, b"0;5H"));
    assert_eq!(whole.len(), 1);
    assert_eq!(whole, split);
    match whole.remove(0) {
        Action::Csi { final_byte, params, inters, marker } => {
            assert_eq!(final_byte, b'H');
            assert_eq!(params, vec![10, 5]);
            assert!(inters.is_empty());
            assert_eq!(marker, 0);
        }
        other => panic!("unexpected action {:?}", other),
    }
}

#[test]
fn every_split_of_a_mixed_stream_agrees() {
    let bytes: &[u8] = b"ab\x1b[2J\x1b]0;T\x07\xc3\xa9\x1b[?2004h";
    let mut reference = Parser::new();
    let expected = feed_all(&mut reference, bytes);
    for cut in 0..=bytes.len() {
        let mut p = Parser::new();
        let mut acts = feed_all(&mut p, &bytes[..cut]);
        acts.extend(feed_all(&mut p, &bytes[cut..]));
        assert_eq!(acts, expected, "split at {}", cut);
    }
}

#[test]
fn osc_title_dispatch() {
    let mut p = Parser::new();
    let acts = feed_all(&mut p, b"\x1b]0;MyTitle\x07");
    assert_eq!(acts, vec![Action::Osc { payload: b"0;MyTitle".to_vec() }]);
}

#[test]
fn utf8_decoding_and_replacement() {
    let mut p = Parser::new();
    let acts = feed_all(&mut p, &[0xc3, 0xa9]);
    assert_eq!(acts, vec![Action::Print(0xe9)]);
    let acts2 = feed_all(&mut p, &[0xc3, 0x41]);
    assert_eq!(
        acts2,
        vec![Action::Print(0xfffd), Action::Print('A' as u32)]
    );
    let acts3 = feed_all(&mut p, &[0xff]);
    assert_eq!(acts3, vec![Action::Print(0xfffd)]);
}

#[test]
fn oversized_parameter_saturates() {
    let mut p = Parser::new();
    let acts = feed_all(&mut p, b"\x1b[99999999A");
    match &acts[0] {
        Action::Csi { params, .. } => assert_eq!(params, &vec![65535]),
        other => panic!("unexpected action {:?}", other),
    }
}

#[test]
fn logger_installs_once() {
    let mut reg = LoggerRegistry { installed: false, max_level: LevelFilter::Off };
    assert!(setup_logs_by_filter_level(&mut reg, LevelFilter::Info).is_ok());
    assert!(reg.installed);
    assert_eq!(reg.max_level, LevelFilter::Info);
    assert!(setup_logs_by_filter_level(&mut reg, LevelFilter::Debug).is_err());
    assert_eq!(reg.max_level, LevelFilter::Info);
}

#[test]
fn level_filtering() {
    assert!(level_enabled(LevelFilter::Error, LevelFilter::Info));
    assert!(!level_enabled(LevelFilter::Trace, LevelFilter::Info));
    assert!(!level_enabled(LevelFilter::Error, LevelFilter::Off));
}

#[test]
fn env_pair_splitting() {
    assert_eq!(
        split_env_pair(b"TERM=rio"),
        Some((b"TERM".to_vec(), b"rio".to_vec()))
    );
    assert_eq!(split_env_pair(b"NOEQUALS"), None);
    assert_eq!(split_env_pair(b"A=B=C"), None);
}

#[test]
fn terminfo_fallback() {
    assert_eq!(terminfo_name(true), "rio");
    assert_eq!(terminfo_name(false), "xterm-256color");
}

#[test]
fn scheduler_coalesces_and_trails() {
    let mut s = Scheduler::new();
    assert_eq!(s.on_event(SchedEvent::OutputProcessed), None);
    assert_eq!(s.on_event(SchedEvent::OutputProcessed), None);
    assert_eq!(s.on_event(SchedEvent::FrameTick), Some(SchedDecision::Redraw));
    assert_eq!(s.on_event(SchedEvent::FrameTick), None);
}

#[test]
fn latest_resize_wins() {
    let mut s = Scheduler::new();
    assert_eq!(s.on_event(SchedEvent::ResizeRequest { rows: 10, cols: 20 }), None);
    assert_eq!(s.on_event(SchedEvent::ResizeRequest { rows: 30, cols: 40 }), None);
    assert_eq!(
        s.on_event(SchedEvent::ResizeDebounce),
        Some(SchedDecision::ApplyResize { rows: 30, cols: 40 })
    );
    assert_eq!(s.on_event(SchedEvent::ResizeDebounce), None);
}

#[test]
fn bracketed_paste_framing() {
    let plain = encode_paste(b"hi", false);
    assert_eq!(plain, b"hi".to_vec());
    let wrapped = encode_paste(b"hi", true);
    assert_eq!(wrapped, b"\x1b[200~hi\x1b[201~".to_vec());
}
