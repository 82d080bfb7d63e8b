use readline::{Event, Readline};

// Drives the engine byte by byte; what `step` asks to append to the backing
// log goes into `file`, standing in for the durable history file.
fn next_event(rl: &mut Readline, input: &[u8], pos: &mut usize, file: &mut Vec<u8>) -> Event {
    loop {
        assert!(*pos < input.len(), "input ran out before an event");
        let b = input[*pos];
        *pos += 1;
        let r = rl.step(b);
        if let Some(a) = r.append {
            file.extend_from_slice(&a);
        }
        if let Some(ev) = r.event {
            return ev;
        }
    }
}

fn expect_line(rl: &mut Readline, input: &[u8], pos: &mut usize, file: &mut Vec<u8>, want: &[u8]) {
    match next_event(rl, input, pos, file) {
        Event::Line(l) => assert_eq!(l, want.to_vec()),
        Event::Interrupt => panic!("expected a submitted line"),
    }
}

#[test]
fn test_simple() {
    let mut file: Vec<u8> = Vec::new();

    let input = b"test command -r test\rthis is the second command -m 123\r\x1B\x01\x41\r\x03";
    let mut pos = 0usize;

    let mut rl = Readline::new(b"simple > ".to_vec(), Some(&file));

    expect_line(&mut rl, input, &mut pos, &mut file, b"test command -r test");
    expect_line(
        &mut rl,
        input,
        &mut pos,
        &mut file,
        b"this is the second command -m 123",
    );
    // one up arrow recalls the newest entry, Enter submits it again
    expect_line(
        &mut rl,
        input,
        &mut pos,
        &mut file,
        b"this is the second command -m 123",
    );

    match next_event(&mut rl, input, &mut pos, &mut file) {
        Event::Interrupt => {}
        Event::Line(_) => panic!("expected an interrupt"),
    }

    drop(rl);

    // a new session over the same backing log must see the persisted history
    let input = b"\x1B\x01\x41\r";
    let mut pos = 0usize;
    let mut rl = Readline::new(b"simple > ".to_vec(), Some(&file));

    let mut file2: Vec<u8> = Vec::new();
    expect_line(
        &mut rl,
        input,
        &mut pos,
        &mut file2,
        b"this is the second command -m 123",
    );
}
