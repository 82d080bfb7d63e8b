use readline::{Event, Readline};

fn next_event(rl: &mut Readline, input: &[u8], pos: &mut usize) -> Event {
    loop {
        assert!(*pos < input.len(), "input ran out before an event");
        let b = input[*pos];
        *pos += 1;
        let r = rl.step(b);
        if let Some(ev) = r.event {
            return ev;
        }
    }
}

fn expect_line(rl: &mut Readline, input: &[u8], pos: &mut usize, want: &[u8]) {
    match next_event(rl, input, pos) {
        Event::Line(l) => assert_eq!(l, want.to_vec()),
        Event::Interrupt => panic!("expected a submitted line"),
    }
}

#[test]
fn test_arrows_updown() {
    // \x03 is Ctrl-C
    // \r is Enter
    // \x1B\x01\x41 is up arrow, \x1B\x01\x42 is down arrow

    let input =
        b"test command -r one\rnot the previous command\r\x1B\x01\x41\x1B\x01\x41\x1B\x01\x42\r\x03";
    let mut pos = 0usize;

    let mut rl = Readline::new(b"arrows updown > ".to_vec(), None);

    expect_line(&mut rl, input, &mut pos, b"test command -r one");
    expect_line(&mut rl, input, &mut pos, b"not the previous command");
    // two ups reach the oldest entry, one down comes back to the newest
    expect_line(&mut rl, input, &mut pos, b"not the previous command");

    match next_event(&mut rl, input, &mut pos) {
        Event::Interrupt => {}
        Event::Line(_) => panic!("expected an interrupt"),
    }
}
