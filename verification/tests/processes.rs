use scratchbar::ctrl_ipc::{
    check_version, goes_to_work, mk_mismatch_text, reads_on, Delivery, FrameReader, Ready, Start, StopAct, StopState,
    VERSION,
};
use scratchbar::display_panel::{on_term_event, PanelEvent, PanelTermEvent, TuiInteract};
use scratchbar::inst::{
    bin_mode, end_act, first_report, get_log_inst_counter, mk_inst_log_name, panel_command,
    panel_mode, proc_mode, sizes_to_report, term_act, EndAct, Mode, PanelMode, ProcMode, TermAct,
    TermUpdate, INTERNAL_INST_ARG, PANEL_PROC_ARG,
};
use scratchbar::logging::{format_log, use_color, LogRecord};
use scratchbar::tui::{CustomId, InteractKind, Location, Size, Sizes};

fn s(text: &str) -> String {
    text.to_owned()
}

#[test]
fn both_sides_have_the_same_version() {
    assert!(check_version(&s(VERSION)).is_ok());
    for version in ["0.0.0", "0.1", "0.1.0 ", "a \"quoted\"\n version"] {
        let mismatch = check_version(&s(version)).unwrap_err();
        assert_eq!(mismatch.version, version);
        let expected = format!(
            "Cannot run controller built against version {version:?} under version {VERSION:?}"
        );
        assert_eq!(mismatch.message(), expected);
    }
    assert_eq!(
        mk_mismatch_text("1", "2"),
        "Cannot run controller built against version 1 under version 2"
    );
}

#[test]
fn messages_are_read_back_from_any_pieces() {
    let sent = [vec![1, 2, 0], vec![0], vec![3, 0]];
    let stream: Vec<u8> = sent.concat();
    for cut in 0..=stream.len() {
        let mut reader = FrameReader::new();
        let mut received = reader.push(&stream[..cut].to_vec());
        received.extend(reader.push(&stream[cut..].to_vec()));
        assert_eq!(received, sent);
        assert_eq!(reader.finish(), None);
    }
}

#[test]
fn unfinished_message_is_kept() {
    let mut reader = FrameReader::new();
    assert_eq!(reader.push(&vec![1, 0, 2]), vec![vec![1, 0]]);
    assert!(reader.push(&vec![3]).is_empty());
    assert_eq!(reader.finish(), Some(vec![2, 3]));
}

#[test]
fn reading_ends_when_nobody_listens() {
    assert!(reads_on(Delivery::Delivered) && reads_on(Delivery::Garbled));
    assert!(!reads_on(Delivery::Refused));
}

#[test]
fn first_end_of_a_connection_counts() {
    let mut state = StopState::new();
    assert_eq!(state.stopped(false), StopAct::Report);
    assert_eq!(state.stopped(false), StopAct::Nothing);
    assert_eq!(state.stopped(true), StopAct::LogDebug);
    let mut state = StopState::new();
    assert_eq!(state.stopped(true), StopAct::Report);
    assert_eq!(state.stopped(true), StopAct::LogError);
}

#[test]
fn work_waits_for_the_other_side() {
    let mut ready = Ready::new();
    assert_eq!(ready.wait(), None);
    ready.set_ready();
    ready.drop_guard();
    assert_eq!(ready.wait(), Some(true));
    let mut dropped = Ready::new();
    dropped.drop_guard();
    dropped.set_ready();
    assert_eq!(dropped.wait(), Some(false));
    assert!(goes_to_work(Start::Ready(true)));
    assert!(!goes_to_work(Start::Ready(false)) && !goes_to_work(Start::NobodyWaits));
}

#[test]
fn log_lines() {
    let mut record = LogRecord {
        now: s("noon"),
        level: s("INFO"),
        file: Some(s("a.rs")),
        line: Some(12),
        message: s("hello"),
    };
    assert_eq!(
        format_log(&record, false, &Some(s("BAR")), 7),
        "[noon] BAR (7) INFO [a.rs:12] hello"
    );
    record.file = None;
    record.line = None;
    assert_eq!(
        format_log(&record, true, &None, 7),
        "[\x1b[35mnoon\x1b[0m] UNKNOWN (7) INFO [<unknown>:?] hello"
    );
}

#[test]
fn color_can_be_asked_for() {
    for word in ["never", "no", "off", "false"] {
        assert!(!use_color(&Some(s(word)), true));
    }
    for word in ["always", "yes", "on", "true"] {
        assert!(use_color(&Some(s(word)), false));
    }
    for word in [Some(s("auto")), None] {
        assert!(use_color(&word, true) && !use_color(&word, false));
    }
}

#[test]
fn terminals_do_what_they_are_told() {
    let socket = Some(s("unix:x"));
    let print = TermUpdate::Print(vec![1, 2]);
    assert!(matches!(term_act(print, &None), TermAct::Write(bytes) if bytes == vec![1, 2]));
    assert!(matches!(term_act(TermUpdate::Flush, &None), TermAct::Flush));
    let remote = || TermUpdate::RemoteControl(vec![s("ls")]);
    match term_act(remote(), &socket) {
        TermAct::Run(command) => {
            assert_eq!(command.program, "kitten");
            assert_eq!(command.args, vec!["@", "--to", "unix:x", "ls"]);
        }
        other => panic!("{other:?}"),
    }
    assert!(matches!(term_act(remote(), &None), TermAct::NoSocket));
    match term_act(TermUpdate::Shell(s("sh"), vec![s("-c")]), &None) {
        TermAct::Run(command) => assert_eq!((command.program, command.args), (s("sh"), vec![s("-c")])),
        other => panic!("{other:?}"),
    }
    let command = panel_command(vec![s("--edge=top")], &s("/bin/bar"), INTERNAL_INST_ARG);
    assert_eq!(command.args, vec!["panel", "--edge=top", "/bin/bar", "--internal-inst"]);
}

#[test]
fn processes_are_numbered() {
    let mut counter = 0;
    assert_eq!(get_log_inst_counter(&mut counter), 0);
    assert_eq!(mk_inst_log_name(get_log_inst_counter(&mut counter), "BAR"), "(T1)BAR");
    let more: Vec<u64> = (0..5).map(|_| get_log_inst_counter(&mut counter)).collect();
    assert_eq!(more, vec![2, 3, 4, 5, 6]);
    counter = u64::MAX;
    assert_eq!(get_log_inst_counter(&mut counter), u64::MAX);
    assert_eq!(counter, 0);
}

#[test]
fn sizes_are_reported() {
    let size = Size { width: 1, height: 2 };
    let sizes = Sizes { cell_size: size, font_size: size };
    assert_eq!(first_report(Some(sizes)), Ok(sizes));
    assert!(first_report(None).is_err());
    assert_eq!(sizes_to_report(true, Ok(Some(sizes))), Some(sizes));
    assert_eq!(sizes_to_report(false, Ok(Some(sizes))), None);
    assert_eq!(sizes_to_report(true, Ok(None)), None);
    assert_eq!(sizes_to_report(true, Err(())), None);
}

#[test]
fn processes_are_ended() {
    assert!(matches!(end_act(Some(true)), EndAct::Nothing));
    assert!(matches!(end_act(Some(false)), EndAct::LogStatus));
    assert!(matches!(end_act(None), EndAct::Kill));
}

#[test]
fn arguments_choose_the_program() {
    assert!(matches!(bin_mode(&Some(s(INTERNAL_INST_ARG))), Mode::Inst));
    assert!(matches!(bin_mode(&Some(s("other"))), Mode::Host));
    assert!(matches!(bin_mode(&None), Mode::Host));
    assert!(matches!(panel_mode(&None), PanelMode::Controller));
    assert!(matches!(panel_mode(&Some(s(PANEL_PROC_ARG))), PanelMode::Panel));
    assert!(matches!(panel_mode(&Some(s("x"))), PanelMode::BadArguments));
    let mode = |first: Option<&str>, second: Option<&str>| proc_mode(&first.map(s), &second.map(s));
    assert!(matches!(mode(None, None), ProcMode::Controller));
    assert!(matches!(mode(Some("internal"), Some("bar")), ProcMode::BarPanel));
    assert!(matches!(mode(Some("internal"), Some("menu")), ProcMode::MenuPanel));
    assert!(matches!(mode(Some("internal"), None), ProcMode::MissingMode));
    assert!(matches!(mode(Some("internal"), Some("x")), ProcMode::BadArguments));
    assert!(matches!(mode(Some("x"), None), ProcMode::BadArguments));
}

#[test]
fn panel_tells_of_the_mouse() {
    let interact = TuiInteract {
        location: Location { x: 1, y: 2 },
        target: Some(CustomId::from_bytes(vec![1])),
        kind: InteractKind::Hover,
    };
    match on_term_event(PanelTermEvent::Mouse(Some(interact))) {
        Some(PanelEvent::Interact(it)) => assert_eq!(it.location, Location { x: 1, y: 2 }),
        None => panic!("an event is expected"),
    }
    match on_term_event(PanelTermEvent::FocusLost) {
        Some(PanelEvent::Interact(it)) => {
            assert!(it.target.is_none());
            assert_eq!(it.kind, InteractKind::Hover);
        }
        None => panic!("an event is expected"),
    }
    assert!(on_term_event(PanelTermEvent::Mouse(None)).is_none());
    assert!(on_term_event(PanelTermEvent::FocusGained).is_none());
    assert!(on_term_event(PanelTermEvent::Key).is_none());
    assert!(on_term_event(PanelTermEvent::Resize).is_none());
}
