use readline::{Event, Readline};

fn next_event(rl: &mut Readline, input: &[u8], pos: &mut usize) -> Event {
    loop {
        assert!(*pos < input.len(), "input ran out before an event");
        let b = input[*pos];
        *pos += 1;
        let r = rl.step(b);
        if let Some(ev) = r.event {
            return ev;
        }
    }
}

#[test]
fn test_backspace() {
    // \x7F is Backspace
    // \x03 is Ctrl-C
    // \r is Enter

    // A wrong command is typed, parts of it are erased and replaced until the
    // right command stands.
    let input = b"ls -la Deskrop\x7F\x7F\x7Ftop\x7F\x7F\x7F\x7F\x7F\x7F\x7FDownloads\r\x03";
    let mut pos = 0usize;

    let mut rl = Readline::new(b"arrows > ".to_vec(), None);

    match next_event(&mut rl, input, &mut pos) {
        Event::Line(l) => assert_eq!(l, b"ls -la Downloads".to_vec()),
        Event::Interrupt => panic!("expected a submitted line"),
    }

    match next_event(&mut rl, input, &mut pos) {
        Event::Interrupt => {}
        Event::Line(_) => panic!("expected an interrupt"),
    }
}
