//! The renderer: the exact terminal bytes that keep the visible line in step
//! with the line buffer.
//!
//! A full redraw clears the line (`ESC [ 2 K` and a carriage return), prints
//! the prompt and the content, and places the visible cursor with an absolute
//! column escape (`ESC [ col G`), the column being `prompt.len() + cursor + 1`
//! in 1-based terms. Appending at the end of the line needs only the one new
//! byte, since the terminal cursor advances by itself.

use crate::buffer::LineBuffer;
use vstd::prelude::*;

verus! {

/// The decimal digits of `n`, most significant first.
pub open spec fn dec_digits(n: nat) -> Seq<u8>
    decreases n,
{
    if n < 10 {
        seq![(48 + n) as u8]
    } else {
        dec_digits(n / 10).push((48 + n % 10) as u8)
    }
}

/// Appends the decimal digits of `n` to `out`.
pub fn push_decimal(out: &mut Vec<u8>, n: u128)
    ensures
        final(out)@ == old(out)@ + dec_digits(n as nat),
    decreases n,
{
    if n < 10 {
        out.push(48 + n as u8);
        proof {
            assert(out@ =~= old(out)@ + dec_digits(n as nat));
        }
    } else {
        push_decimal(out, n / 10);
        out.push(48 + (n % 10) as u8);
        proof {
            assert((n / 10) as nat == n as nat / 10);
            assert((n % 10) as nat == n as nat % 10);
            assert(out@ =~= old(out)@ + dec_digits(n as nat));
        }
    }
}

/// The clear-line prefix of a full redraw: `ESC [ 2 K` and a carriage return.
pub open spec fn clear_line_seq() -> Seq<u8> {
    seq![27u8, 91u8, 50u8, 75u8, 13u8]
}

/// The absolute-column escape `ESC [ col G`.
pub open spec fn column_seq(col: nat) -> Seq<u8> {
    seq![27u8, 91u8] + dec_digits(col) + seq![71u8]
}

/// A full redraw: clear the line, print prompt and content, and place the
/// visible cursor at column `prompt.len() + cursor + 1`.
pub open spec fn render_full_spec(prompt: Seq<u8>, content: Seq<u8>, cursor: int) -> Seq<u8> {
    clear_line_seq() + prompt + content + column_seq((prompt.len() + cursor + 1) as nat)
}

/// Produces the bytes of a full redraw of `prompt` and `buf`.
pub fn render_full(prompt: &Vec<u8>, buf: &LineBuffer) -> (out: Vec<u8>)
    requires
        buf.wf(),
    ensures
        out@ == render_full_spec(prompt@, buf.content@, buf.cursor as int),
{
    let mut out: Vec<u8> = Vec::new();
    out.push(27);
    out.push(91);
    out.push(50);
    out.push(75);
    out.push(13);
    proof {
        assert(out@ =~= clear_line_seq());
    }
    crate::bytes::append_bytes(&mut out, prompt);
    crate::bytes::append_bytes(&mut out, &buf.content);
    out.push(27);
    out.push(91);
    let col: u128 = prompt.len() as u128 + buf.cursor as u128 + 1;
    push_decimal(&mut out, col);
    out.push(71);
    proof {
        assert(col as nat == (prompt@.len() + buf.cursor + 1) as nat);
        assert(out@ =~= render_full_spec(prompt@, buf.content@, buf.cursor as int));
    }
    out
}

} // verus!
