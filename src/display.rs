//! Small text computations for showing session state: truncation, compact
//! elapsed time, the busy spinner, and the input cursor column.
use vstd::prelude::*;

use crate::text::{concat_str, decimal, decimal_string};

verus! {

/// `n` dots.
pub open spec fn dots(n: nat) -> Seq<char>
    decreases n,
{
    if n == 0 {
        Seq::empty()
    } else {
        dots((n - 1) as nat).push('.')
    }
}

/// At most `max` characters of `s`: `s` itself if it fits, else its first
/// `max - 3` characters and `...`, or only dots when `max` is 3 or less.
pub open spec fn truncated(s: Seq<char>, max: nat) -> Seq<char> {
    if max == 0 {
        Seq::empty()
    } else if s.len() <= max {
        s
    } else if max <= 3 {
        dots(max)
    } else {
        s.take(max - 3) + dots(3)
    }
}

fn dot_string(n: usize) -> (r: String)
    ensures
        r@ == dots(n as nat),
{
    let mut r = String::new();
    let mut i: usize = 0;
    while i < n
        invariant
            i <= n,
            r@ == dots(i as nat),
        decreases n - i,
    {
        proof {
            reveal_strlit(".");
        }
        assert("."@ =~= seq!['.']);
        r.append(".");
        i = i + 1;
        assert(r@ =~= dots(i as nat));
    }
    r
}

/// `input` cut to at most `max_chars` characters, marked with `...` when cut.
pub fn truncate_with_ellipsis(input: &str, max_chars: usize) -> (r: String)
    ensures
        r@ == truncated(input@, max_chars as nat),
{
    if max_chars == 0 {
        return String::new();
    }
    let n = input.unicode_len();
    if n <= max_chars {
        return String::from_str(input);
    }
    if max_chars <= 3 {
        return dot_string(max_chars);
    }
    let head = input.substring_char(0, max_chars - 3);
    let tail = dot_string(3);
    assert(head@ =~= input@.take(max_chars - 3));
    concat_str(head, tail.as_str())
}

pub open spec fn ms_suffix() -> Seq<char> {
    seq!['m', 's']
}

/// Elapsed milliseconds as compact text: `1h`, `1h5m`, `2m`, `2m7s`,
/// `3.4s` (tenths truncated) or `250ms`.
pub open spec fn elapsed_text(ms: u64) -> Seq<char> {
    let secs = ms / 1000;
    if secs >= 3600 {
        let h = secs / 3600;
        let m = (secs % 3600) / 60;
        if m == 0 {
            decimal(h as nat) + seq!['h']
        } else {
            decimal(h as nat) + seq!['h'] + decimal(m as nat) + seq!['m']
        }
    } else if secs >= 60 {
        let m = secs / 60;
        let s = secs % 60;
        if s == 0 {
            decimal(m as nat) + seq!['m']
        } else {
            decimal(m as nat) + seq!['m'] + decimal(s as nat) + seq!['s']
        }
    } else if ms >= 1000 {
        decimal(secs as nat) + seq!['.'] + decimal(((ms % 1000) / 100) as nat) + seq!['s']
    } else {
        decimal(ms as nat) + ms_suffix()
    }
}

/// Elapsed time in milliseconds, as compact text.
pub fn format_elapsed_compact(elapsed_ms: u64) -> (r: String)
    ensures
        r@ == elapsed_text(elapsed_ms),
{
    proof {
        reveal_strlit("h");
        reveal_strlit("m");
        reveal_strlit("s");
        reveal_strlit(".");
        reveal_strlit("ms");
    }
    let secs = elapsed_ms / 1000;
    let mut r;
    if secs >= 3600 {
        let h = secs / 3600;
        let m = (secs % 3600) / 60;
        r = concat_str(decimal_string(h).as_str(), "h");
        if m != 0 {
            r.append(decimal_string(m).as_str());
            r.append("m");
        }
    } else if secs >= 60 {
        let m = secs / 60;
        let s = secs % 60;
        r = concat_str(decimal_string(m).as_str(), "m");
        if s != 0 {
            r.append(decimal_string(s).as_str());
            r.append("s");
        }
    } else if elapsed_ms >= 1000 {
        r = concat_str(decimal_string(secs).as_str(), ".");
        r.append(decimal_string((elapsed_ms % 1000) / 100).as_str());
        r.append("s");
    } else {
        r = concat_str(decimal_string(elapsed_ms).as_str(), "ms");
        assert("ms"@ =~= ms_suffix());
    }
    assert(r@ =~= elapsed_text(elapsed_ms));
    r
}

/// Milliseconds that each spinner frame is shown.
pub const SPINNER_FRAME_MS: u64 = 160;

/// Number of spinner frames.
pub const SPINNER_FRAMES: u64 = 4;

/// The spinner frame shown after `elapsed_ms` milliseconds.
pub fn spinner_frame_index(elapsed_ms: u64) -> (r: usize)
    ensures
        r == (elapsed_ms / SPINNER_FRAME_MS) % SPINNER_FRAMES,
        r < SPINNER_FRAMES,
{
    ((elapsed_ms / SPINNER_FRAME_MS) % SPINNER_FRAMES) as usize
}

/// The spinner frames, each padded to three columns.
pub open spec fn spinner_frame(i: nat) -> Seq<char> {
    if i == 0 {
        seq!['.', ' ', ' ']
    } else if i == 2 {
        seq!['.', '.', '.']
    } else {
        seq!['.', '.', ' ']
    }
}

/// The spinner after `elapsed_ms` milliseconds, three columns wide.
pub fn spinner_display(elapsed_ms: u64) -> (r: String)
    ensures
        r@ == spinner_frame(((elapsed_ms / SPINNER_FRAME_MS) % SPINNER_FRAMES) as nat),
{
    proof {
        reveal_strlit(".  ");
        reveal_strlit("...");
        reveal_strlit(".. ");
    }
    let i = spinner_frame_index(elapsed_ms);
    let r = if i == 0 {
        String::from_str(".  ")
    } else if i == 2 {
        String::from_str("...")
    } else {
        String::from_str(".. ")
    };
    assert(r@ =~= spinner_frame(i as nat));
    r
}

/// The text after the last newline of `s`, or all of `s` if it has none.
pub open spec fn last_line(s: Seq<char>) -> Seq<char>
    decreases s.len(),
{
    if s.len() == 0 {
        s
    } else if s.last() == '\n' {
        Seq::empty()
    } else {
        last_line(s.drop_last()).push(s.last())
    }
}

/// The columns that `s` takes on a terminal.
pub uninterp spec fn text_width(s: Seq<char>) -> nat;

/// Relies on `unicode_width::UnicodeWidthStr::width`: the display width of
/// the string, a function of its characters alone; the empty string has
/// width zero.
#[verifier::external_body]
fn display_width(s: &str) -> (r: usize)
    ensures
        r == text_width(s@),
        s@.len() == 0 ==> r == 0,
{
    unicode_width::UnicodeWidthStr::width(s)
}

fn last_line_of(s: &str) -> (r: &str)
    ensures
        r@ == last_line(s@),
{
    let n = s.unicode_len();
    let mut start = n;
    assert(s@.subrange(n as int, n as int) =~= Seq::<char>::empty());
    assert(s@.subrange(0, n as int) =~= s@);
    assert(last_line(s@) + Seq::<char>::empty() =~= last_line(s@));
    while start > 0 && s.get_char(start - 1) != '\n'
        invariant
            n == s@.len(),
            start <= n,
            last_line(s@) == last_line(s@.subrange(0, start as int)) + s@.subrange(
                start as int,
                n as int,
            ),
        decreases start,
    {
        let ghost pre = s@.subrange(0, start as int);
        assert(pre.drop_last() =~= s@.subrange(0, start - 1));
        assert(last_line(pre) == last_line(s@.subrange(0, start - 1)).push(pre.last()));
        assert(last_line(s@.subrange(0, start - 1)).push(pre.last()) + s@.subrange(start as int, n as int)
            =~= last_line(s@.subrange(0, start - 1)) + s@.subrange(start - 1, n as int));
        start = start - 1;
    }
    assert(last_line(s@.subrange(0, start as int)) =~= Seq::<char>::empty());
    assert(last_line(s@) =~= s@.subrange(start as int, n as int));
    s.substring_char(start, n)
}

/// A column `width` columns into a box `inner_width` columns wide, kept
/// on the box's last column at most; zero in a box too narrow to hold one.
pub open spec fn capped_column(width: nat, inner_width: u16) -> u16 {
    if inner_width <= 1 {
        0
    } else if width < inner_width - 1 {
        width as u16
    } else {
        (inner_width - 1) as u16
    }
}

/// The column of the input cursor in a box `inner_width` columns wide: the
/// width of the input's last line, kept inside the box.
pub open spec fn cursor_column(input: Seq<char>, inner_width: u16) -> u16 {
    capped_column(text_width(last_line(input)), inner_width)
}

/// The cursor column after text `width` columns wide.
pub fn cap_column(width: usize, inner_width: u16) -> (r: u16)
    ensures
        r == capped_column(width as nat, inner_width),
{
    if inner_width <= 1 {
        0
    } else if width < (inner_width - 1) as usize {
        width as u16
    } else {
        inner_width - 1
    }
}

/// Where the cursor stands after `input` in a box `inner_width` columns wide.
pub fn cursor_position(input: &str, inner_width: u16) -> (r: (u16, u16))
    ensures
        r == (cursor_column(input@, inner_width), 0u16),
{
    if inner_width <= 1 {
        return (0, 0);
    }
    let width = display_width(last_line_of(input));
    (cap_column(width, inner_width), 0)
}

} // verus!
