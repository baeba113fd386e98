use paperticker::framing::{
    bad_request, framed, holds_request, reply_text, too_long, unreachable_at, unreadable_reply,
    Frame, Framer, REQUEST_LIMIT,
};
use paperticker::proto::Response;

fn texts(frames: &[Frame]) -> Vec<String> {
    frames
        .iter()
        .map(|f| match f {
            Frame::Line(bytes) => String::from_utf8(bytes.clone()).unwrap(),
            Frame::Oversized => "<oversized>".to_string(),
        })
        .collect()
}

fn message(r: Response) -> String {
    match r {
        Response::Error { message } => message,
        other => panic!("{other:?}"),
    }
}

#[test]
fn lines_come_out_whole_however_they_arrive() {
    let input = b"{\"op\":\"ping\"}\r\n\nsummary\nrest";
    let mut whole = Framer::new();
    let at_once = texts(&whole.feed(input));
    assert_eq!(at_once, vec!["{\"op\":\"ping\"}", "", "summary"]);

    let mut bytewise = Framer::new();
    let mut one_by_one = vec![];
    for b in input {
        one_by_one.extend(texts(&bytewise.feed(&[*b])));
    }
    assert_eq!(one_by_one, at_once);
    assert_eq!(whole.finish(), Some(b"rest".to_vec()));
    assert_eq!(bytewise.finish(), Some(b"rest".to_vec()));
}

#[test]
fn a_stream_that_ends_with_a_line_has_nothing_left() {
    let mut f = Framer::new();
    assert_eq!(texts(&f.feed(b"a\r")), Vec::<String>::new());
    assert_eq!(texts(&f.feed(b"\n")), vec!["a"]);
    assert_eq!(f.finish(), None);
}

#[test]
fn a_request_of_exactly_the_limit_is_accepted() {
    let mut f = Framer::new();
    let mut line = vec![b'x'; REQUEST_LIMIT];
    line.push(b'\n');
    let frames = f.feed(&line);
    assert_eq!(frames.len(), 1);
    assert!(matches!(&frames[0], Frame::Line(l) if l.len() == 65536));
    assert_eq!(texts(&f.feed(b"next\n")), vec!["next"]);
}

#[test]
fn an_oversized_line_closes_the_stream() {
    let mut f = Framer::new();
    assert!(f.feed(&vec![b'x'; REQUEST_LIMIT]).is_empty());
    assert_eq!(texts(&f.feed(b"y")), vec!["<oversized>"]);
    assert!(f.feed(b"z\nping\n").is_empty());
    assert_eq!(f.finish(), None);
    assert_eq!(message(too_long()), "request exceeds 64 KiB");
}

#[test]
fn blank_lines_hold_no_request() {
    assert!(!holds_request(""));
    assert!(!holds_request(" \t\u{2003}"));
    assert!(holds_request(" x "));
}

#[test]
fn replies_are_trimmed_and_a_hangup_is_an_error() {
    assert_eq!(reply_text("{}\r\n").unwrap(), "{}");
    assert_eq!(reply_text("\n").unwrap(), "");
    assert_eq!(reply_text("").unwrap_err(), "daemon closed the connection");
    assert_eq!(unreadable_reply("a\n"), "parsing daemon reply: \"a\\n\"");
    assert_eq!(unreachable_at("/s"), "connecting to /s");
    assert_eq!(framed("{}".to_string()), "{}\n");
    assert_eq!(message(bad_request("eof")), "bad request: eof");
}
