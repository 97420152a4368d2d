//! The backtrace builder: turning the VM's activation records, captured at
//! the moment of failure, into an ordered sequence of human-readable frame
//! descriptions.
//!
//! The capture walks the active call frames from the innermost outwards, so
//! the frames arrive innermost first; the builder keeps that order, one
//! formatted line per frame. Each line carries the source location, the
//! current line (blank if unknown) and a best-effort name: the explicit
//! name and kind when the VM can supply one, `[main]` for the top-level
//! chunk, `[native]` for a host function, and a generic `function
//! <source:line>` otherwise.

use vstd::prelude::*;

verus! {

/// The decimal digit character for one digit value.
pub open spec fn digit(d: nat) -> char
    recommends
        d < 10,
{
    if d == 0 {
        '0'
    } else if d == 1 {
        '1'
    } else if d == 2 {
        '2'
    } else if d == 3 {
        '3'
    } else if d == 4 {
        '4'
    } else if d == 5 {
        '5'
    } else if d == 6 {
        '6'
    } else if d == 7 {
        '7'
    } else if d == 8 {
        '8'
    } else {
        '9'
    }
}

/// The decimal digits of a number, most significant first.
pub open spec fn dec_digits(n: nat) -> Seq<char>
    decreases n,
{
    if n < 10 {
        seq![digit(n)]
    } else {
        dec_digits(n / 10).push(digit(n % 10))
    }
}

/// The decimal rendering of an integer, with a leading minus sign when it
/// is negative.
pub open spec fn int_dec(n: int) -> Seq<char> {
    if n < 0 {
        seq!['-'] + dec_digits((-n) as nat)
    } else {
        dec_digits(n as nat)
    }
}

/// One decimal digit as a borrowed string.
fn digit_str(d: u64) -> (r: &'static str)
    requires
        d < 10,
    ensures
        r@ == seq![digit(d as nat)],
{
    let r: &'static str = if d == 0 {
        "0"
    } else if d == 1 {
        "1"
    } else if d == 2 {
        "2"
    } else if d == 3 {
        "3"
    } else if d == 4 {
        "4"
    } else if d == 5 {
        "5"
    } else if d == 6 {
        "6"
    } else if d == 7 {
        "7"
    } else if d == 8 {
        "8"
    } else {
        "9"
    };
    proof {
        reveal_strlit("0");
        reveal_strlit("1");
        reveal_strlit("2");
        reveal_strlit("3");
        reveal_strlit("4");
        reveal_strlit("5");
        reveal_strlit("6");
        reveal_strlit("7");
        reveal_strlit("8");
        reveal_strlit("9");
        assert(r@ =~= seq![digit(d as nat)]);
    }
    r
}

/// Append the decimal digits of `n`, most significant first.
fn append_dec_digits(n: u64, out: &mut String)
    ensures
        final(out)@ == old(out)@ + dec_digits(n as nat),
    decreases n,
{
    if n >= 10 {
        append_dec_digits(n / 10, out);
        out.append(digit_str(n % 10));
        proof {
            assert(out@ =~= old(out)@ + dec_digits(n as nat));
        }
    } else {
        out.append(digit_str(n));
    }
}

/// Append the decimal rendering of `n`, with its sign.
pub fn append_int_dec(n: i64, out: &mut String)
    ensures
        final(out)@ == old(out)@ + int_dec(n as int),
{
    if n < 0 {
        out.append("-");
        let mag = (-(n as i128)) as u64;
        append_dec_digits(mag, out);
        proof {
            reveal_strlit("-");
            assert(old(out)@ + "-"@ + dec_digits(mag as nat) =~= old(out)@ + int_dec(n as int));
        }
    } else {
        append_dec_digits(n as u64, out);
    }
}

/// One activation record as the capture reports it: the source location,
/// the current line (non-positive when unknown), what kind of name the VM
/// could give the frame and the name itself (an empty kind means none),
/// what kind of function runs in the frame, and the line its definition
/// starts on.
pub struct FrameInfo {
    pub short_src: String,
    pub currentline: i32,
    pub namewhat: String,
    pub name: String,
    pub what: String,
    pub linedefined: i32,
}

/// The best-effort name of a frame: the explicit name and kind when the VM
/// supplied one, `[main]` for the top-level chunk, `[native]` for a host
/// function, and a generic description by definition site otherwise.
pub open spec fn frame_name_spec(f: FrameInfo) -> Seq<char> {
    if f.namewhat@.len() > 0 {
        f.namewhat@ + " '"@ + f.name@ + "'"@
    } else if f.what@.len() > 0 && f.what@[0] == 'm' {
        "[main]"@
    } else if f.what@.len() > 0 && f.what@[0] == 'C' {
        "[native]"@
    } else {
        "function <"@ + f.short_src@ + ":"@ + int_dec(f.linedefined as int) + ">"@
    }
}

/// The formatted description of one frame: source, current line (blank if
/// unknown) and name.
pub open spec fn frame_line_spec(f: FrameInfo) -> Seq<char> {
    f.short_src@ + ":"@ + (if f.currentline > 0 {
        int_dec(f.currentline as int)
    } else {
        Seq::<char>::empty()
    }) + " in "@ + frame_name_spec(f)
}

/// Format one activation record.
pub fn frame_line(f: &FrameInfo) -> (r: String)
    ensures
        r@ == frame_line_spec(*f),
{
    let mut out = f.short_src.clone();
    out.append(":");
    if f.currentline > 0 {
        append_int_dec(f.currentline as i64, &mut out);
    }
    out.append(" in ");
    if f.namewhat.as_str().unicode_len() > 0 {
        out.append(f.namewhat.as_str());
        out.append(" '");
        out.append(f.name.as_str());
        out.append("'");
    } else if f.what.as_str().unicode_len() > 0 && f.what.as_str().get_char(0) == 'm' {
        out.append("[main]");
    } else if f.what.as_str().unicode_len() > 0 && f.what.as_str().get_char(0) == 'C' {
        out.append("[native]");
    } else {
        out.append("function <");
        out.append(f.short_src.as_str());
        out.append(":");
        append_int_dec(f.linedefined as i64, &mut out);
        out.append(">");
    }
    proof {
        assert(out@ =~= frame_line_spec(*f));
    }
    out
}

/// Format a captured backtrace, one line per frame, keeping the capture
/// order: the capture walks frames from the innermost outwards, so the
/// innermost failing frame comes first and the top-level chunk last.
pub fn backtrace_lines(frames: &Vec<FrameInfo>) -> (r: Vec<String>)
    ensures
        r@.len() == frames@.len(),
        forall|i: int| 0 <= i < frames@.len() ==> #[trigger] r@[i]@ == frame_line_spec(frames@[i]),
{
    let mut out: Vec<String> = Vec::new();
    let n = frames.len();
    let mut i: usize = 0;
    while i < n
        invariant
            i <= n,
            n == frames@.len(),
            out@.len() == i,
            forall|j: int| 0 <= j < i ==> #[trigger] out@[j]@ == frame_line_spec(frames@[j]),
        decreases n - i,
    {
        out.push(frame_line(&frames[i]));
        i += 1;
    }
    out
}

/// The lines of a backtrace describe the captured frames in order: with
/// the frames captured innermost first, the first line describes the
/// innermost failing frame and the last line the outermost (top-level)
/// one.
pub proof fn lemma_backtrace_order(frames: Seq<FrameInfo>, lines: Seq<String>)
    requires
        lines.len() == frames.len(),
        forall|i: int| 0 <= i < frames.len() ==> #[trigger] lines[i]@ == frame_line_spec(frames[i]),
        frames.len() > 0,
    ensures
        lines[0]@ == frame_line_spec(frames[0]),
        lines[lines.len() - 1]@ == frame_line_spec(frames.last()),
{
}

} // verus!
