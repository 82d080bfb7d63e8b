//! The engine: one session's state and the dispatch of decoded key events.
//!
//! The engine is driven one input byte at a time: [`Readline::step`] decodes
//! the byte, mutates the line buffer and the history store as the event asks,
//! and hands back everything the surrounding program must do — the bytes to
//! write to the terminal, the bytes to append (and flush) to the history's
//! backing log if one is configured, and the completed line or interrupt, if
//! this byte finished one. The surrounding program owns the byte source, the
//! terminal and the log file; a read failure is its to surface and ends the
//! loop without touching the session state.

use crate::buffer::LineBuffer;
use crate::buffer::move_left_spec;
use crate::buffer::move_right_spec;
use crate::bytes::clone_bytes;
use crate::history::HistoryStore;
use crate::history::encode_entry_spec;
use crate::history::navigate_down_spec;
use crate::history::navigate_up_spec;
use crate::history::parse_log;
use crate::keys::DecodeState;
use crate::keys::KeyEvent;
use crate::keys::decode_byte;
use crate::keys::decode_spec;
use crate::render::render_full;
use crate::render::render_full_spec;
use vstd::prelude::*;

verus! {

/// What one call to the read loop ends with: a submitted line or Ctrl-C.
pub enum Event {
    Line(Vec<u8>),
    Interrupt,
}

/// Everything one input byte asks of the surrounding program.
pub struct StepResult {
    /// Bytes to write to the terminal.
    pub output: Vec<u8>,
    /// Bytes to append to the history's backing log, if one is configured;
    /// the append must be durably flushed before the line is handed on.
    pub append: Option<Vec<u8>>,
    /// The completed line or interrupt, if this byte finished one.
    pub event: Option<Event>,
}

/// One line-editing session: prompt, line buffer, history and decoder state.
pub struct Readline {
    pub prompt: Vec<u8>,
    pub buffer: LineBuffer,
    pub history: HistoryStore,
    pub decoder: DecodeState,
}

impl Readline {
    /// The buffer's cursor and the history's navigation cursor are in bounds
    /// and no history entry is empty.
    pub open spec fn wf(&self) -> bool {
        &&& self.buffer.wf()
        &&& self.history.wf()
    }

    /// A fresh session: empty buffer, history loaded from the backing log's
    /// bytes if one is configured, navigation at the live line.
    pub fn new(prompt: Vec<u8>, log: Option<&Vec<u8>>) -> (r: Readline)
        ensures
            r.wf(),
            r.prompt@ == prompt@,
            r.buffer.content@ == Seq::<u8>::empty(),
            r.buffer.cursor == 0,
            r.decoder == DecodeState::Idle,
            match log {
                Some(l) => r.history.entries_view() == parse_log(l@),
                None => r.history.entries_view() == Seq::<Seq<u8>>::empty(),
            },
            r.history.nav_pos == r.history.entries@.len(),
    {
        let history = match log {
            Some(l) => HistoryStore::load(l),
            None => HistoryStore::new(),
        };
        Readline { prompt, buffer: LineBuffer::new(), history, decoder: DecodeState::Idle }
    }

    /// The prompt, as shown before the edited text.
    pub fn get_prompt(&self) -> (r: Vec<u8>)
        ensures
            r@ == self.prompt@,
    {
        clone_bytes(&self.prompt)
    }

    /// Replaces the prompt; nothing else changes.
    pub fn set_prompt(&mut self, prompt: Vec<u8>)
        ensures
            final(self).prompt@ == prompt@,
            final(self).buffer == old(self).buffer,
            final(self).history == old(self).history,
            final(self).decoder == old(self).decoder,
    {
        self.prompt = prompt;
    }

    /// The bytes of a full redraw of the current line: printed once when the
    /// loop starts and after every submitted line.
    pub fn render_current(&self) -> (out: Vec<u8>)
        requires
            self.wf(),
        ensures
            out@ == render_full_spec(self.prompt@, self.buffer.content@, self.buffer.cursor as int),
    {
        render_full(&self.prompt, &self.buffer)
    }

    /// Feeds one input byte to the session.
    ///
    /// The byte steps the decoder; a decoded event mutates the line buffer
    /// and the history store, and the result carries the terminal bytes, the
    /// log append and the finished event, if any.
    pub fn step(&mut self, b: u8) -> (r: StepResult)
        requires
            old(self).wf(),
            old(self).buffer.content@.len() < usize::MAX,
        ensures
            final(self).wf(),
            final(self).prompt@ == old(self).prompt@,
            final(self).decoder == decode_spec(old(self).decoder, b).0,
            ({
                let prompt = old(self).prompt@;
                let content = old(self).buffer.content@;
                let cursor = old(self).buffer.cursor as int;
                let entries = old(self).history.entries_view();
                let nav = old(self).history.nav_pos as int;
                match decode_spec(old(self).decoder, b).1 {
                    None => {
                        &&& final(self).buffer == old(self).buffer
                        &&& final(self).history == old(self).history
                        &&& r.output@ == Seq::<u8>::empty()
                        &&& r.append is None
                        &&& r.event is None
                    },
                    Some(ev) => match ev {
                        KeyEvent::Unrecognized => {
                            &&& final(self).buffer == old(self).buffer
                            &&& final(self).history == old(self).history
                            &&& r.output@ == Seq::<u8>::empty()
                            &&& r.append is None
                            &&& r.event is None
                        },
                        KeyEvent::Interrupt => {
                            &&& final(self).buffer == old(self).buffer
                            &&& final(self).history == old(self).history
                            &&& r.output@ == Seq::<u8>::empty()
                            &&& r.append is None
                            &&& r.event matches Some(Event::Interrupt)
                        },
                        KeyEvent::Enter => {
                            &&& final(self).buffer.content@ == Seq::<u8>::empty()
                            &&& final(self).buffer.cursor == 0
                            &&& final(self).history.entries_view() == if content.len() > 0 {
                                entries.push(content)
                            } else {
                                entries
                            }
                            &&& final(self).history.nav_pos == final(self).history.entries@.len()
                            &&& r.output@ == seq![13u8, 10u8]
                            &&& (content.len() > 0 ==> (r.append matches Some(a) && a@
                                == encode_entry_spec(content)))
                            &&& (content.len() == 0 ==> r.append is None)
                            &&& r.event matches Some(Event::Line(l)) && l@ == content
                        },
                        KeyEvent::Char(c) => {
                            &&& final(self).history == old(self).history
                            &&& final(self).buffer.content@ == content.insert(cursor, c)
                            &&& final(self).buffer.cursor == cursor + 1
                            &&& r.output@ == if cursor == content.len() {
                                seq![c]
                            } else {
                                render_full_spec(
                                    prompt,
                                    final(self).buffer.content@,
                                    final(self).buffer.cursor as int,
                                )
                            }
                            &&& r.append is None
                            &&& r.event is None
                        },
                        KeyEvent::Backspace => {
                            &&& final(self).history == old(self).history
                            &&& (final(self).buffer.content@, final(self).buffer.cursor as int)
                                == crate::buffer::delete_left_spec(content, cursor)
                            &&& r.output@ == if cursor > 0 {
                                render_full_spec(
                                    prompt,
                                    final(self).buffer.content@,
                                    final(self).buffer.cursor as int,
                                )
                            } else {
                                Seq::<u8>::empty()
                            }
                            &&& r.append is None
                            &&& r.event is None
                        },
                        KeyEvent::Delete => {
                            &&& final(self).history == old(self).history
                            &&& (final(self).buffer.content@, final(self).buffer.cursor as int)
                                == crate::buffer::delete_right_spec(content, cursor)
                            &&& r.output@ == if cursor < content.len() {
                                render_full_spec(
                                    prompt,
                                    final(self).buffer.content@,
                                    final(self).buffer.cursor as int,
                                )
                            } else {
                                Seq::<u8>::empty()
                            }
                            &&& r.append is None
                            &&& r.event is None
                        },
                        KeyEvent::ArrowLeft => {
                            &&& final(self).history == old(self).history
                            &&& final(self).buffer.content@ == content
                            &&& final(self).buffer.cursor as int == move_left_spec(cursor)
                            &&& r.output@ == if cursor > 0 {
                                render_full_spec(prompt, content, cursor - 1)
                            } else {
                                Seq::<u8>::empty()
                            }
                            &&& r.append is None
                            &&& r.event is None
                        },
                        KeyEvent::ArrowRight => {
                            &&& final(self).history == old(self).history
                            &&& final(self).buffer.content@ == content
                            &&& final(self).buffer.cursor as int == move_right_spec(
                                content.len() as int,
                                cursor,
                            )
                            &&& r.output@ == if cursor < content.len() {
                                render_full_spec(prompt, content, cursor + 1)
                            } else {
                                Seq::<u8>::empty()
                            }
                            &&& r.append is None
                            &&& r.event is None
                        },
                        KeyEvent::ArrowUp => {
                            &&& final(self).history.entries == old(self).history.entries
                            &&& final(self).history.nav_pos as int == navigate_up_spec(
                                entries,
                                nav,
                            ).0
                            &&& match navigate_up_spec(entries, nav).1 {
                                Some(text) => {
                                    &&& final(self).buffer.content@ == text
                                    &&& final(self).buffer.cursor == text.len()
                                    &&& r.output@ == render_full_spec(
                                        prompt,
                                        text,
                                        text.len() as int,
                                    )
                                },
                                None => {
                                    &&& final(self).buffer == old(self).buffer
                                    &&& r.output@ == Seq::<u8>::empty()
                                },
                            }
                            &&& r.append is None
                            &&& r.event is None
                        },
                        KeyEvent::ArrowDown => {
                            &&& final(self).history.entries == old(self).history.entries
                            &&& final(self).history.nav_pos as int == navigate_down_spec(
                                entries,
                                nav,
                            ).0
                            &&& match navigate_down_spec(entries, nav).1 {
                                Some(text) => {
                                    &&& final(self).buffer.content@ == text
                                    &&& final(self).buffer.cursor == text.len()
                                    &&& r.output@ == render_full_spec(
                                        prompt,
                                        text,
                                        text.len() as int,
                                    )
                                },
                                None => {
                                    &&& final(self).buffer == old(self).buffer
                                    &&& r.output@ == Seq::<u8>::empty()
                                },
                            }
                            &&& r.append is None
                            &&& r.event is None
                        },
                    },
                }
            }),
    {
        let (d2, ev) = decode_byte(self.decoder, b);
        self.decoder = d2;
        match ev {
            None => StepResult { output: Vec::new(), append: None, event: None },
            Some(KeyEvent::Unrecognized) => StepResult {
                output: Vec::new(),
                append: None,
                event: None,
            },
            Some(KeyEvent::Interrupt) => StepResult {
                output: Vec::new(),
                append: None,
                event: Some(Event::Interrupt),
            },
            Some(KeyEvent::Enter) => {
                let line = self.buffer.take_and_clear();
                let append = if line.len() > 0 {
                    Some(HistoryStore::encode_entry(&line))
                } else {
                    None
                };
                self.history.push(clone_bytes(&line));
                let mut output: Vec<u8> = Vec::new();
                output.push(13);
                output.push(10);
                proof {
                    assert(output@ =~= seq![13u8, 10u8]);
                }
                StepResult { output, append, event: Some(Event::Line(line)) }
            },
            Some(KeyEvent::Char(c)) => {
                let at_end = self.buffer.cursor == self.buffer.content.len();
                self.buffer.insert_at_cursor(c);
                let output = if at_end {
                    let mut out: Vec<u8> = Vec::new();
                    out.push(c);
                    proof {
                        assert(out@ =~= seq![c]);
                    }
                    out
                } else {
                    render_full(&self.prompt, &self.buffer)
                };
                StepResult { output, append: None, event: None }
            },
            Some(KeyEvent::Backspace) => {
                let output = if self.buffer.delete_left() {
                    render_full(&self.prompt, &self.buffer)
                } else {
                    Vec::new()
                };
                StepResult { output, append: None, event: None }
            },
            Some(KeyEvent::Delete) => {
                let output = if self.buffer.delete_right() {
                    render_full(&self.prompt, &self.buffer)
                } else {
                    Vec::new()
                };
                StepResult { output, append: None, event: None }
            },
            Some(KeyEvent::ArrowLeft) => {
                let output = if self.buffer.move_left() {
                    render_full(&self.prompt, &self.buffer)
                } else {
                    Vec::new()
                };
                StepResult { output, append: None, event: None }
            },
            Some(KeyEvent::ArrowRight) => {
                let output = if self.buffer.move_right() {
                    render_full(&self.prompt, &self.buffer)
                } else {
                    Vec::new()
                };
                StepResult { output, append: None, event: None }
            },
            Some(KeyEvent::ArrowUp) => {
                let output = match self.history.navigate_up() {
                    Some(text) => {
                        self.buffer.replace(text);
                        render_full(&self.prompt, &self.buffer)
                    },
                    None => Vec::new(),
                };
                StepResult { output, append: None, event: None }
            },
            Some(KeyEvent::ArrowDown) => {
                let output = match self.history.navigate_down() {
                    Some(text) => {
                        self.buffer.replace(text);
                        render_full(&self.prompt, &self.buffer)
                    },
                    None => Vec::new(),
                };
                StepResult { output, append: None, event: None }
            },
        }
    }
}

} // verus!
