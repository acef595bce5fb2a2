use brace_util_future::stream::{FutureStream, Next, StreamEvent, Turn};
use futures::executor::block_on;
use futures::stream::{iter, Iter, StreamExt};

type Items<'a> = Iter<std::vec::IntoIter<&'a str>>;

/// A computation that completes after a number of polls with a producer of
/// the given items.
struct Delayed<'a> {
    polls_left: u32,
    items: Vec<&'a str>,
}

/// Runs one turn: polls what the handle holds once and hands the answer to it.
fn turn<'a>(handle: &mut FutureStream<Delayed<'a>, Items<'a>>) -> Turn<&'a str> {
    let ev = match handle {
        FutureStream::Future(delayed) => {
            if delayed.polls_left == 0 {
                StreamEvent::Computed(Some(iter(std::mem::take(&mut delayed.items))))
            } else {
                delayed.polls_left -= 1;
                StreamEvent::Computed(None)
            }
        }
        FutureStream::Stream(items) => StreamEvent::Produced(match block_on(items.next()) {
            Some(x) => Next::Item(x),
            None => Next::Done,
        }),
    };
    handle.poll_turn(ev)
}

/// Polls until an item or exhaustion comes; a turn that asks for a wake must
/// have put the producer in place.
fn next<'a>(handle: &mut FutureStream<Delayed<'a>, Items<'a>>) -> Option<&'a str> {
    loop {
        let t = turn(handle);
        match t.answer {
            Next::Item(x) => return Some(x),
            Next::Done => return None,
            Next::NotYet => {
                if t.wake {
                    assert!(handle.is_ready());
                }
            }
        }
    }
}

#[test]
fn stream_test_future() {
    let mut stream = FutureStream::future(Delayed {
        polls_left: 100,
        items: vec!["a", "b", "c"],
    });

    assert_eq!(next(&mut stream), Some("a"));
    assert_eq!(next(&mut stream), Some("b"));
    assert_eq!(next(&mut stream), Some("c"));
    assert_eq!(next(&mut stream), None);
}

#[test]
fn test_stream() {
    let mut stream = FutureStream::stream(iter(vec!["d", "e", "f"]));

    assert_eq!(next(&mut stream), Some("d"));
    assert_eq!(next(&mut stream), Some("e"));
    assert_eq!(next(&mut stream), Some("f"));
    assert_eq!(next(&mut stream), None);
}

#[test]
fn ready_stream_stays_exhausted() {
    let mut stream = FutureStream::<Delayed, Items>::stream(iter(vec!["a", "b", "c"]));
    let answers: Vec<Next<&str>> = (0..6).map(|_| turn(&mut stream).answer).collect();
    assert_eq!(
        answers,
        vec![
            Next::Item("a"),
            Next::Item("b"),
            Next::Item("c"),
            Next::Done,
            Next::Done,
            Next::Done
        ]
    );
}

#[test]
fn pending_stream_observed_sequence() {
    let mut stream = FutureStream::future(Delayed {
        polls_left: 3,
        items: vec!["a", "b", "c"],
    });
    let turns: Vec<Turn<&str>> = (0..9).map(|_| turn(&mut stream)).collect();
    let wakes: Vec<bool> = turns.iter().map(|t| t.wake).collect();
    assert_eq!(
        wakes,
        vec![false, false, false, true, false, false, false, false, false]
    );
    let answers: Vec<Next<&str>> = turns.into_iter().map(|t| t.answer).collect();
    assert_eq!(
        answers,
        vec![
            Next::NotYet,
            Next::NotYet,
            Next::NotYet,
            Next::NotYet,
            Next::Item("a"),
            Next::Item("b"),
            Next::Item("c"),
            Next::Done,
            Next::Done
        ]
    );
}

#[test]
fn completion_swaps_in_the_producer_and_wakes() {
    let mut stream = FutureStream::<u8, u16>::future(1);
    assert!(!stream.is_ready());
    let t = stream.poll_turn::<u32>(StreamEvent::Computed(None));
    assert_eq!(t, Turn { answer: Next::NotYet, wake: false });
    assert_eq!(stream, FutureStream::Future(1));
    let t = stream.poll_turn::<u32>(StreamEvent::Computed(Some(40)));
    assert_eq!(t, Turn { answer: Next::NotYet, wake: true });
    assert_eq!(stream, FutureStream::Stream(40));
    assert!(stream.is_ready());
}

#[test]
fn ready_handle_forwards_unchanged() {
    let mut stream = FutureStream::<u8, u16>::stream(2);
    assert!(stream.is_ready());
    let t = stream.poll_turn(StreamEvent::Produced(Next::Item(11u32)));
    assert_eq!(t, Turn { answer: Next::Item(11), wake: false });
    let t = stream.poll_turn::<u32>(StreamEvent::Produced(Next::Done));
    assert_eq!(t, Turn { answer: Next::Done, wake: false });
    let t = stream.poll_turn::<u32>(StreamEvent::Produced(Next::NotYet));
    assert_eq!(t, Turn { answer: Next::NotYet, wake: false });
    assert_eq!(stream, FutureStream::Stream(2));
}

#[test]
fn empty_producer_is_exhausted_at_once() {
    let mut stream = FutureStream::future(Delayed {
        polls_left: 0,
        items: vec![],
    });
    assert_eq!(next(&mut stream), None);
    assert_eq!(next(&mut stream), None);
}
