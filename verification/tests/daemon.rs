use llmman::daemon::{
    build_fingerprint, ensure_model_pulled, listening_inode, pid_listening_on, serve_args, ByteOrder,
    server_plan, start_step, stop_step, Process, Progress, ProgressAction, ProgressLine,
    ServerPlan, StartStep, StopStep, KILL_POLLS, PORT, SERVER, START_POLLS, STOP_POLLS,
};
use llmman::ffi::{consume, is_c_string, is_changed, GoResponse};

#[test]
fn build_fingerprint_is_stable_and_nonempty() {
    let a = build_fingerprint(b"a program");
    let b = build_fingerprint(b"a program");
    assert_eq!(a, b);
    assert!(!a.is_empty());
    assert_ne!(a, build_fingerprint(b"another program"));
}

#[test]
fn a_fingerprint_is_the_digest_in_hexadecimal() {
    assert_eq!(
        build_fingerprint(b"abc"),
        "ba7816bf8f01cfea414140de5dae2223b00361a396177a9cb410ff61f20015ad"
    );
    assert_eq!(
        build_fingerprint(b""),
        "e3b0c44298fc1c149afbf4c8996fb92427ae41e4649b934ca495991b7852b855"
    );
}

#[test]
fn a_server_of_another_build_is_replaced() {
    assert_eq!(SERVER, "http://127.0.0.1:17434");
    assert_eq!(PORT, 17434);
    assert_eq!(server_plan(false, None, "x"), ServerPlan::Start);
    assert_eq!(server_plan(false, Some("x"), "x"), ServerPlan::Start);
    assert_eq!(server_plan(true, Some("x"), "x"), ServerPlan::Reuse);
    assert_eq!(server_plan(true, Some("y"), "x"), ServerPlan::Replace);
    assert_eq!(server_plan(true, None, "x"), ServerPlan::Replace);
    // An unknown build is never the right one.
    assert_eq!(server_plan(true, Some(""), ""), ServerPlan::Replace);
}

#[test]
fn a_model_may_be_loaded_at_once() {
    assert_eq!(serve_args(""), vec!["serve"]);
    assert_eq!(serve_args("gemma"), vec!["serve", "gemma"]);
}

#[test]
fn starting_and_stopping_is_waited_for_so_long() {
    assert_eq!(start_step(0, true), StartStep::Ready);
    assert_eq!(start_step(START_POLLS - 1, false), StartStep::Wait);
    assert_eq!(start_step(START_POLLS, false), StartStep::GiveUp);
    assert_eq!(start_step(START_POLLS, true), StartStep::Ready);
    let steps: Vec<StopStep> =
        (0..=STOP_POLLS + KILL_POLLS).map(|n| stop_step(n, true)).collect();
    for (n, step) in steps.iter().enumerate() {
        let expected = if n as u32 == STOP_POLLS - 1 {
            StopStep::Kill
        } else if n as u32 == STOP_POLLS + KILL_POLLS {
            StopStep::GiveUp
        } else {
            StopStep::Wait
        };
        assert_eq!(*step, expected);
    }
    assert_eq!(stop_step(0, false), StopStep::Stopped);
    assert_eq!(stop_step(STOP_POLLS, false), StopStep::Stopped);
}

#[test]
fn only_a_model_that_is_there_is_not_pulled() {
    assert!(!ensure_model_pulled(Some(true)));
    assert!(ensure_model_pulled(Some(false)));
    assert!(ensure_model_pulled(None));
}

const TABLE: &str = "  sl  local_address rem_address   st tx_queue rx_queue tr tm->when retrnsmt   uid  timeout inode
   9: 00000000:1F90 00000000:0000 0A 00000000:00000000 00:00000000 00000000  1000        0 999 1
   8: 0200007F:1F92 00000000:0000 0A 00000000:00000000 00:00000000 00000000  1000        0 888 1
   0: 0100007F:1F90 00000000:0000 01 00000000:00000000 00:00000000 00000000  1000        0 111 1
   1: 0100007F:1F90 00000000:0000 0A 00000000:00000000 00:00000000 00000000  1000        0 222 1
   2: 0100007F:1f91 00000000:0000 0A 00000000:00000000 00:00000000 00000000  1000        0 333 1
   3: short 0A
   4: 0100007F:1F90 00000000:0000 0A 00000000:00000000 00:00000000 00000000  1000        0 444 1
";

fn process(name: &str, links: &[&str]) -> Process {
    Process { name: name.to_string(), links: links.iter().map(|l| l.to_string()).collect() }
}

#[test]
fn the_table_of_sockets_is_searched_for_listeners() {
    assert_eq!(listening_inode(TABLE, ByteOrder::Little, 0x1f90).unwrap(), "222");
    assert_eq!(listening_inode(TABLE, ByteOrder::Little, 0x1f91).unwrap(), "333");
    assert!(listening_inode(TABLE, ByteOrder::Little, 0x1f92).is_none());
    assert!(listening_inode("", ByteOrder::Little, 80).is_none());
    // Listeners of other addresses do not count.
    let other = TABLE.lines().nth(1).unwrap();
    assert!(listening_inode(&format!("heading\n{other}"), ByteOrder::Little, 0x1f90).is_none());
    // On a machine of the other byte order, the address reads the other way.
    let big = TABLE.replace("0100007F", "7F000001");
    assert_eq!(listening_inode(&big, ByteOrder::Big, 0x1f90).unwrap(), "222");
    assert!(listening_inode(&big, ByteOrder::Little, 0x1f90).is_none());
    assert!(listening_inode(TABLE, ByteOrder::Big, 0x1f90).is_none());
    // The first line is never one of the table.
    let row = TABLE.lines().nth(4).unwrap();
    assert!(listening_inode(row, ByteOrder::Little, 0x1f90).is_none());
    assert_eq!(listening_inode(&format!("heading\n{row}"), ByteOrder::Little, 0x1f90).unwrap(), "222");
}

#[test]
fn a_listener_is_the_process_that_holds_the_socket() {
    let processes = vec![
        process("self", &["socket:[222]"]),
        process("10", &["/dev/null", "socket:[2222]", "socket:[333]"]),
        process("11", &["pipe:[1]", "socket:[222]"]),
        process("12", &["socket:[222]"]),
        process("9", &["socket:[999]", "socket:[888]"]),
    ];
    assert_eq!(pid_listening_on(TABLE, ByteOrder::Little, &processes, 0x1f90), Some(11));
    assert_eq!(pid_listening_on(TABLE, ByteOrder::Little, &processes, 0x1f91), Some(10));
    assert_eq!(pid_listening_on(TABLE, ByteOrder::Little, &processes, 0x1f92), None);
    assert_eq!(pid_listening_on(TABLE, ByteOrder::Little, &vec![], 0x1f90), None);
    let signed = vec![process("+13", &["socket:[222]"])];
    assert_eq!(pid_listening_on(TABLE, ByteOrder::Little, &signed, 0x1f90), Some("+13".parse().unwrap()));
}

fn line(status: Option<&str>, error: Option<&str>, bytes: Option<(u64, u64)>) -> ProgressLine {
    ProgressLine {
        status: status.map(str::to_string),
        error: error.map(str::to_string),
        total: bytes.map(|b| b.0),
        completed: bytes.map(|b| b.1),
    }
}

fn printed(p: &mut Progress, l: &ProgressLine) -> Option<String> {
    match p.on_line("ref", Some(l)) {
        ProgressAction::Status(s) => s,
        _ => panic!(),
    }
}

#[test]
fn a_status_is_printed_once_and_one_success_is_enough() {
    let mut p = Progress::new();
    assert_eq!(p.finish("ref"), Err("ref: stream ended without a success status".to_string()));
    let pulling = line(Some("pulling"), None, None);
    assert_eq!(printed(&mut p, &pulling).as_deref(), Some("pulling"));
    assert_eq!(printed(&mut p, &pulling), None);
    assert_eq!(printed(&mut p, &line(Some("success"), None, None)).as_deref(), Some("success"));
    assert!(p.saw_success);
    assert_eq!(printed(&mut p, &line(None, None, None)), None);
    assert_eq!(printed(&mut p, &line(Some(""), Some(""), Some((0, 0)))), None);
    assert_eq!(p.finish("ref"), Ok(()));
    assert!(matches!(p.on_line("ref", None), ProgressAction::Skip));
    // Whatever is said behind a success, it was one.
    let cleaning = line(Some("cleaning up"), None, None);
    assert_eq!(printed(&mut p, &cleaning).as_deref(), Some("cleaning up"));
    assert_eq!(p.finish("ref"), Ok(()));
}

#[test]
fn an_error_names_the_reference() {
    let mut p = Progress::new();
    match p.on_line("ref", Some(&line(Some("success"), Some("no"), Some((5, 1))))) {
        ProgressAction::Fail(m) => assert_eq!(m, "ref: no"),
        _ => panic!(),
    }
    match p.on_line("ref", Some(&line(None, Some("no such ref here"), None))) {
        ProgressAction::Fail(m) => assert_eq!(m, "no such ref here"),
        _ => panic!(),
    }
    assert!(!p.saw_success);
}

#[test]
fn bytes_move_the_bar() {
    let mut p = Progress::new();
    match p.on_line("ref", Some(&line(Some("layer"), None, Some((10, 4))))) {
        ProgressAction::Bar { total, position, message } => {
            assert_eq!((total, position, message.as_deref()), (10, 4, Some("layer")))
        }
        _ => panic!(),
    }
    match p.on_line("ref", Some(&line(None, None, Some((10, 11))))) {
        ProgressAction::Bar { total, position, message } => {
            assert_eq!((total, position, message), (10, 10, None))
        }
        _ => panic!(),
    }
    let mut counted = line(None, None, Some((10, 0)));
    counted.completed = None;
    assert!(matches!(p.on_line("ref", Some(&counted)), ProgressAction::Bar { position: 0, .. }));
    assert_eq!(p.last_status, "");
}

#[test]
fn answers_of_the_registry_client() {
    let answer = |ok| GoResponse { ok, data: "d".to_string(), error: "e".to_string() };
    assert_eq!(consume(answer(true)), Ok("d".to_string()));
    assert_eq!(consume(answer(false)), Err("e".to_string()));
    assert!(is_c_string("abc"));
    assert!(!is_c_string("a\0c"));
    assert!(is_changed("changed"));
    assert!(!is_changed("unchanged"));
}
