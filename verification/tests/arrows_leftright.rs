use readline::{Event, Readline};

fn next_event(rl: &mut Readline, input: &[u8], pos: &mut usize) -> Event {
    loop {
        assert!(*pos < input.len(), "input ran out before an event");
        let b = input[*pos];
        *pos += 1;
        let r = rl.step(b);
        if let Some(ev) = r.event {
            return ev;
        }
    }
}

#[test]
fn test_arrows_leftright() {
    // \x7E is Delete
    // \x03 is Ctrl-C
    // \r is Enter
    // \x1B\x01\x43 is right arrow, \x1B\x01\x44 is left arrow

    // A wrong command is typed, the cursor walks back and forward, the wrong
    // letter is deleted and the right one put in its place.
    let input =
        b"ls -la Deskrop\x1B\x01\x44\x1B\x01\x44\x1B\x01\x44\x1B\x01\x44\x1B\x01\x43\x7Et\r\x03";
    let mut pos = 0usize;

    let mut rl = Readline::new(b"arrows leftright > ".to_vec(), None);

    match next_event(&mut rl, input, &mut pos) {
        Event::Line(l) => assert_eq!(l, b"ls -la Desktop".to_vec()),
        Event::Interrupt => panic!("expected a submitted line"),
    }

    match next_event(&mut rl, input, &mut pos) {
        Event::Interrupt => {}
        Event::Line(_) => panic!("expected an interrupt"),
    }
}
