use erniebot_rs::json::JsonVal;
use erniebot_rs::response::Response;
use erniebot_rs::stream::{StreamPoll, StreamResponse};

fn frame(text: &str) -> Response {
    Response::new(JsonVal::Obj(vec![(
        "result".to_string(),
        JsonVal::Str(text.to_string()),
    )]))
}

fn expect_item(q: &mut StreamResponse, expected: &str) {
    match q.try_next() {
        StreamPoll::Item(f) => assert_eq!(f.get_result().unwrap(), expected),
        _ => panic!("expected a buffered frame"),
    }
}

#[test]
fn drain_after_close_yields_all_then_end() {
    let mut q = StreamResponse::new();
    q.push(frame("F1"));
    q.push(frame("F2"));
    q.push(frame("F3"));
    q.close();
    expect_item(&mut q, "F1");
    expect_item(&mut q, "F2");
    expect_item(&mut q, "F3");
    assert!(matches!(q.try_next(), StreamPoll::End));
    assert!(matches!(q.try_next(), StreamPoll::End));
}

#[test]
fn drain_interleaved_yields_same_sequence() {
    let mut q = StreamResponse::new();
    q.push(frame("F1"));
    expect_item(&mut q, "F1");
    assert!(matches!(q.try_next(), StreamPoll::Pending));
    q.push(frame("F2"));
    q.push(frame("F3"));
    q.close();
    expect_item(&mut q, "F2");
    expect_item(&mut q, "F3");
    assert!(matches!(q.try_next(), StreamPoll::End));
}

#[test]
fn push_after_close_is_dropped() {
    let mut q = StreamResponse::new();
    q.push(frame("kept"));
    q.close();
    q.push(frame("late"));
    expect_item(&mut q, "kept");
    assert!(matches!(q.try_next(), StreamPoll::End));
}

#[test]
fn empty_open_stream_is_pending() {
    let mut q = StreamResponse::new();
    assert!(matches!(q.try_next(), StreamPoll::Pending));
}
