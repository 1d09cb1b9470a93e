use llmman::cmd::readline::{Key, Readline, ReadlineError, Step};
use llmman::cmd::run::{
    begin_turn, chat_request, on_cooked_line, prompt_from_input, ChatChunk, ChatReply, Msg, Repl,
    ReplAction, RunArgs, RunMode,
};

// ---------------------------------------------------------------------------
// The editor
// ---------------------------------------------------------------------------

/// Feeds bytes as if each was typed on its own, and gives all that is echoed.
fn type_bytes(r: &mut Readline, bytes: &[u8]) -> (Vec<u8>, Option<Result<Option<String>, ReadlineError>>) {
    let mut echo = Vec::new();
    for (i, b) in bytes.iter().enumerate() {
        let Step { echo: e, done } = r.feed(Key::Byte { byte: *b, more: false });
        echo.extend(e);
        if done.is_some() {
            assert_eq!(i + 1, bytes.len());
            return (echo, done);
        }
    }
    (echo, None)
}

/// Feeds bytes that were all there at once, until a line is complete; gives it and
/// the number of bytes that were read.
fn paste_bytes(r: &mut Readline, bytes: &[u8]) -> (Option<String>, usize) {
    for (i, b) in bytes.iter().enumerate() {
        let step = r.feed(Key::Byte { byte: *b, more: i + 1 < bytes.len() });
        match step.done {
            Some(Ok(line)) => return (line, i + 1),
            Some(Err(_)) => panic!(),
            None => {}
        }
    }
    panic!()
}

fn editor() -> Readline {
    let mut r = Readline::new();
    assert_eq!(r.begin("> "), b"> ");
    r
}

fn typed(bytes: &[u8]) -> Option<String> {
    match type_bytes(&mut editor(), bytes).1 {
        Some(Ok(line)) => line,
        _ => panic!(),
    }
}

#[test]
fn typed_text_comes_back() {
    let (echo, done) = type_bytes(&mut editor(), "h\té\r".as_bytes());
    assert_eq!(echo, "h\té\n".as_bytes());
    assert!(matches!(done, Some(Ok(Some(l))) if l == "h\té"));
    assert_eq!(typed(b"\r").unwrap(), "");
    assert_eq!(typed(b"a\xffb\r").unwrap(), "a\u{fffd}b");
    // Other control characters are not taken.
    assert_eq!(typed(b"a\x01\x0b\x1fb\r").unwrap(), "ab");
}

#[test]
fn backspace_takes_a_whole_character_back() {
    assert_eq!(typed("aé\x7fb\r".as_bytes()).unwrap(), "ab");
    assert_eq!(typed("a\x7f\x7f\x7fb\r".as_bytes()).unwrap(), "b");
    let mut r = editor();
    assert_eq!(type_bytes(&mut r, b"a\x7f").0, b"a\x08 \x08");
    assert!(type_bytes(&mut r, b"\x7f").0.is_empty());
}

#[test]
fn a_line_feed_goes_on_and_backspace_undoes_it() {
    let mut r = editor();
    assert_eq!(type_bytes(&mut r, b"one\n").0, b"one\n. ");
    assert_eq!(type_bytes(&mut r, b"two\n").0, b"two\n. ");
    assert!(matches!(type_bytes(&mut r, b"x\r").1, Some(Ok(Some(l))) if l == "one\ntwo\nx"));
    let mut r = editor();
    type_bytes(&mut r, b"one\n");
    assert_eq!(type_bytes(&mut r, b"\x7f").0, b"\r\x1b[K\x1b[A\r\x1b[K> one");
    assert!(matches!(type_bytes(&mut r, b"!\r").1, Some(Ok(Some(l))) if l == "one!"));
}

#[test]
fn interrupts_and_the_end_of_input() {
    assert!(matches!(type_bytes(&mut editor(), b"a\x03").1, Some(Err(ReadlineError::Interrupted))));
    assert!(matches!(type_bytes(&mut editor(), b"\x04").1, Some(Ok(None))));
    // In a line, or behind one, it does nothing.
    assert_eq!(typed(b"a\x04\r").unwrap(), "a");
    assert_eq!(typed(b"a\n\x04\r").unwrap(), "a\n");
    let mut r = editor();
    type_bytes(&mut r, b"abc");
    assert!(matches!(r.feed(Key::Closed).done, Some(Ok(None))));
    // Within the tail of a sequence only the sequence is given up.
    let mut r = editor();
    type_bytes(&mut r, b"abc\x1b[2");
    assert!(r.feed(Key::Closed).done.is_none());
    assert!(matches!(type_bytes(&mut r, b"\r").1, Some(Ok(Some(l))) if l == "abc"));
}

#[test]
fn sequences_leave_the_text_alone() {
    // Arrows, delete, pages, and a key with alt.
    assert_eq!(typed(b"a\x1b[Ab\x1b[3~c\x1b[5~\x1b[6~d\x1bxe\r").unwrap(), "abcde");
    let mut r = editor();
    type_bytes(&mut r, b"\x1b[299");
    assert!(!r.pasting());
}

#[test]
fn marks_of_a_paste() {
    let mut r = editor();
    assert!(!r.pasting());
    type_bytes(&mut r, b"\x1b[200~");
    assert!(r.pasting());
    type_bytes(&mut r, b"\x1b[201~");
    assert!(!r.pasting());
}

#[test]
fn a_pasted_line_feed_submits() {
    let mut r = editor();
    let paste = b"\x1b[200~one\ntwo\x1b[201~";
    let (line, read) = paste_bytes(&mut r, paste);
    assert_eq!((line.as_deref(), read), (Some("one"), 10));
    assert!(r.pasting());
    r.begin(". ");
    let mut rest = paste[10..].to_vec();
    rest.push(b'\r');
    let (line, _) = paste_bytes(&mut r, &rest);
    assert_eq!(line.as_deref(), Some("two"));
    assert!(!r.pasting());
}

// ---------------------------------------------------------------------------
// The loop
// ---------------------------------------------------------------------------

fn read(r: &mut Repl, line: &str) -> ReplAction {
    r.on_read(Ok(Some(line.to_string())), false)
}

fn sent(a: ReplAction) -> Option<String> {
    match a {
        ReplAction::Submit(s) => Some(s),
        ReplAction::Continue => None,
        _ => panic!(),
    }
}

#[test]
fn commands_and_turns() {
    let mut r = Repl::new();
    assert_eq!(r.prompt(), "> ");
    assert!(matches!(read(&mut r, " /bye "), ReplAction::Quit));
    assert!(matches!(read(&mut r, "/exit"), ReplAction::Quit));
    assert!(matches!(read(&mut r, "/clear"), ReplAction::Clear));
    assert!(matches!(read(&mut r, "/?"), ReplAction::Help));
    assert!(matches!(read(&mut r, "/byes"), ReplAction::Help));
    assert_eq!(sent(read(&mut r, " \t")), None);
    assert_eq!(sent(read(&mut r, " hi ")).unwrap(), " hi ");
    assert!(matches!(r.on_read(Ok(None), false), ReplAction::Quit));
}

#[test]
fn quoted_blocks() {
    let mut r = Repl::new();
    assert_eq!(sent(read(&mut r, "\"\"\"one line\"\"\"")).unwrap(), "one line");
    assert_eq!(sent(read(&mut r, "  \"\"\"  \"\"\"")), None);
    assert_eq!(sent(read(&mut r, "\"\"\"first")), None);
    assert_eq!(r.prompt(), ". ");
    // Commands and blank lines are text within a block.
    assert_eq!(sent(read(&mut r, "/bye")), None);
    assert_eq!(sent(read(&mut r, "")), None);
    assert_eq!(sent(read(&mut r, "last\"\"\"")).unwrap(), "first\n/bye\n\nlast");
    assert_eq!(r.prompt(), "> ");
    // Line feeds at the end do not count.
    read(&mut r, "\"\"\"a");
    assert_eq!(sent(read(&mut r, "\"\"\"")).unwrap(), "a");
    read(&mut r, "\"\"\"");
    assert_eq!(sent(read(&mut r, "\"\"\"")), None);
}

#[test]
fn a_paste_is_one_input() {
    let mut r = Repl::new();
    assert_eq!(sent(r.on_read(Ok(Some("one".to_string())), true)), None);
    assert_eq!(r.prompt(), ". ");
    assert_eq!(sent(r.on_read(Ok(Some("/bye".to_string())), true)), None);
    assert_eq!(sent(read(&mut r, "three")).unwrap(), "one\n/bye\nthree");
    assert_eq!(r.prompt(), "> ");
}

#[test]
fn an_interrupt_drops_what_is_open() {
    let mut r = Repl::new();
    read(&mut r, "\"\"\"a");
    let a = r.on_read(Err(ReadlineError::Interrupted), false);
    assert!(matches!(a, ReplAction::Continue));
    assert_eq!(r.prompt(), "> ");
    r.on_read(Ok(Some("a".to_string())), true);
    r.on_read(Err(ReadlineError::Interrupted), true);
    assert_eq!(sent(read(&mut r, "b")).unwrap(), "b");
}

#[test]
fn lines_of_a_plain_terminal() {
    assert!(matches!(on_cooked_line(None), ReplAction::Quit));
    assert!(matches!(on_cooked_line(Some("/bye\r\n")), ReplAction::Quit));
    assert!(matches!(on_cooked_line(Some("/exit\n")), ReplAction::Quit));
    assert!(matches!(on_cooked_line(Some("/clear\n")), ReplAction::Clear));
    assert_eq!(sent(on_cooked_line(Some("/help\n"))).unwrap(), "/help");
    assert_eq!(sent(on_cooked_line(Some(" \r\n"))), None);
    assert_eq!(sent(on_cooked_line(Some(" a \r\n"))).unwrap(), " a ");
}

fn run_args(words: &[&str]) -> RunArgs {
    RunArgs {
        model: "m".to_string(),
        think: Some(false),
        num_predict: Some(3),
        prompt: words.iter().map(|w| w.to_string()).collect(),
    }
}

#[test]
fn ways_to_run() {
    assert!(matches!(run_args(&["a", "b c"]).mode(true), RunMode::OneShot(p) if p == "a b c"));
    assert!(matches!(run_args(&[]).mode(true), RunMode::Interactive));
    assert!(matches!(run_args(&[""]).mode(false), RunMode::FromInput));
    assert_eq!(prompt_from_input(" a b \n").unwrap(), "a b");
    assert!(prompt_from_input(" \n").is_none());
    let o = run_args(&[]).options();
    assert_eq!((o.think, o.num_predict), (Some(false), Some(3)));
}

fn chunk(content: &str, thinking: Option<&str>, done: bool) -> ChatChunk {
    ChatChunk {
        message: Some(Msg {
            role: "assistant".to_string(),
            content: content.to_string(),
            thinking: thinking.map(str::to_string),
        }),
        done,
    }
}

#[test]
fn a_turn_and_its_reply() {
    let mut messages: Vec<Msg> = Vec::new();
    begin_turn(&mut messages, "hi".to_string());
    let req = chat_request("m", &messages, run_args(&[]).options());
    assert_eq!((req.model, req.messages.len(), req.stream), ("m", 1, true));
    assert_eq!((req.think, req.options.unwrap().num_predict), (Some(false), Some(3)));
    let mut plain = run_args(&[]).options();
    plain.num_predict = None;
    assert!(chat_request("m", &messages, plain).options.is_none());

    let mut reply = ChatReply::new();
    let mut out = String::new();
    let mut err = String::new();
    let mut stops = Vec::new();
    for c in [
        Some(chunk("", Some("hm"), false)),
        Some(chunk("", Some("m"), false)),
        None,
        Some(chunk("a", None, false)),
        Some(chunk("b", None, true)),
    ] {
        let o = reply.on_line(c.as_ref());
        out.push_str(&o.out);
        err.push_str(&o.err);
        stops.push(o.stop);
    }
    assert_eq!((out.as_str(), err.as_str()), ("ab", "Thinking: hmm\n"));
    assert_eq!(stops, vec![false, false, false, false, true]);
    reply.finish(&mut messages);
    let roles: Vec<(&str, &str)> =
        messages.iter().map(|m| (m.role.as_str(), m.content.as_str())).collect();
    assert_eq!(roles, vec![("user", "hi"), ("assistant", "ab")]);
}

#[test]
fn thinking_and_answer_in_one_chunk() {
    let mut reply = ChatReply::new();
    let o = reply.on_line(Some(&chunk("a", Some("t"), false)));
    assert_eq!((o.err.as_str(), o.out.as_str()), ("Thinking: t\n", "a"));
    assert!(!reply.thinking_open);
    let o = reply.on_line(Some(&ChatChunk { message: None, done: true }));
    assert_eq!((o.err.as_str(), o.out.as_str(), o.stop), ("", "", true));
}
