use readline::history::HistoryStore;
use readline::{Event, Readline};

fn feed(rl: &mut Readline, input: &[u8]) -> Vec<Event> {
    let mut events = Vec::new();
    for &b in input {
        let r = rl.step(b);
        if let Some(ev) = r.event {
            events.push(ev);
        }
    }
    events
}

#[test]
fn test_cursor_stays_in_bounds() {
    let mut rl = Readline::new(b"> ".to_vec(), None);
    feed(&mut rl, b"ab");
    assert_eq!(rl.buffer.cursor, 2);

    // left arrows past the start clamp at 0
    for _ in 0..5 {
        feed(&mut rl, b"\x1B[\x44");
    }
    assert_eq!(rl.buffer.cursor, 0);

    // right arrows past the end clamp at the length
    for _ in 0..7 {
        feed(&mut rl, b"\x1B[\x43");
    }
    assert_eq!(rl.buffer.cursor, 2);
    assert_eq!(rl.buffer.content, b"ab".to_vec());
}

#[test]
fn test_boundary_deletes_keep_content() {
    let mut rl = Readline::new(b"> ".to_vec(), None);
    feed(&mut rl, b"ab");

    // Delete at the right edge changes nothing and asks for no redraw
    for _ in 0..3 {
        let r = rl.step(0x7E);
        assert_eq!(r.output, Vec::<u8>::new());
    }
    assert_eq!(rl.buffer.content, b"ab".to_vec());

    // Backspace at the left edge changes nothing and asks for no redraw
    feed(&mut rl, b"\x1B[\x44\x1B[\x44");
    for _ in 0..3 {
        let r = rl.step(0x7F);
        assert_eq!(r.output, Vec::<u8>::new());
    }
    assert_eq!(rl.buffer.content, b"ab".to_vec());
    assert_eq!(rl.buffer.cursor, 0);
}

#[test]
fn test_empty_submit_adds_no_history() {
    let mut rl = Readline::new(b"> ".to_vec(), None);
    let r = rl.step(b'\r');
    match r.event {
        Some(Event::Line(l)) => assert_eq!(l, Vec::<u8>::new()),
        _ => panic!("expected an empty submitted line"),
    }
    assert!(r.append.is_none());
    assert_eq!(rl.history.entries.len(), 0);

    // the same after real entries exist
    feed(&mut rl, b"one\r");
    assert_eq!(rl.history.entries.len(), 1);
    let r = rl.step(b'\r');
    assert!(r.append.is_none());
    assert_eq!(rl.history.entries.len(), 1);
}

#[test]
fn test_push_then_reload_round_trip() {
    let mut log = b"one\ntwo\n".to_vec();
    let line = b"three".to_vec();
    log.extend_from_slice(&HistoryStore::encode_entry(&line));

    let hs = HistoryStore::load(&log);
    assert_eq!(
        hs.entries,
        vec![b"one".to_vec(), b"two".to_vec(), b"three".to_vec()]
    );
    assert_eq!(hs.nav_pos, 3);
}

#[test]
fn test_up_past_oldest_and_down_past_newest() {
    let log = b"alpha\nbeta\n".to_vec();
    let mut rl = Readline::new(b"> ".to_vec(), Some(&log));

    // up twice reaches the oldest entry; further ups keep showing it
    feed(&mut rl, b"\x1B[\x41\x1B[\x41");
    assert_eq!(rl.buffer.content, b"alpha".to_vec());
    for _ in 0..4 {
        let r2 = rl.step(0x1B);
        assert_eq!(r2.output, Vec::<u8>::new());
        let r3 = rl.step(b'[');
        assert_eq!(r3.output, Vec::<u8>::new());
        let r = rl.step(0x41);
        assert_eq!(r.output, Vec::<u8>::new());
        assert_eq!(rl.buffer.content, b"alpha".to_vec());
    }
    assert_eq!(rl.history.nav_pos, 0);

    // down goes back to the newest entry, then to the blank live line
    feed(&mut rl, b"\x1B[\x42");
    assert_eq!(rl.buffer.content, b"beta".to_vec());
    feed(&mut rl, b"\x1B[\x42");
    assert_eq!(rl.buffer.content, Vec::<u8>::new());
    assert_eq!(rl.history.nav_pos, 2);

    // at the live line, a further down is a no-op
    let r2 = rl.step(0x1B);
    let r3 = rl.step(b'[');
    let r = rl.step(0x42);
    assert_eq!(r2.output, Vec::<u8>::new());
    assert_eq!(r3.output, Vec::<u8>::new());
    assert_eq!(r.output, Vec::<u8>::new());
    assert_eq!(rl.buffer.content, Vec::<u8>::new());
    assert_eq!(rl.history.nav_pos, 2);
}

#[test]
fn test_history_position_survives_edits() {
    // recalling an entry seeds the buffer; left/right edits do not move the
    // history position until the next up/down or submission
    let log = b"first\nsecond\n".to_vec();
    let mut rl = Readline::new(b"> ".to_vec(), Some(&log));

    feed(&mut rl, b"\x1B[\x41");
    assert_eq!(rl.buffer.content, b"second".to_vec());
    assert_eq!(rl.history.nav_pos, 1);

    feed(&mut rl, b"\x1B[\x44\x1B[\x44x");
    assert_eq!(rl.buffer.content, b"secoxnd".to_vec());
    assert_eq!(rl.history.nav_pos, 1);

    // up now recalls the entry before the one recalled last
    feed(&mut rl, b"\x1B[\x41");
    assert_eq!(rl.buffer.content, b"first".to_vec());
}
