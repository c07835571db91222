//! The session log: a bounded record of what was run and what it printed.

use vstd::prelude::*;

verus! {

/// The log never holds more lines than this.
pub const MAX_CHAT_LINES: usize = 600;

#[derive(Clone, Copy, Debug, PartialEq, Eq)]
pub enum ChatLineKind {
    Info,
    Command,
    Stdout,
    Stderr,
}

#[derive(Clone, Debug)]
pub struct ChatLine {
    pub kind: ChatLineKind,
    pub text: String,
}

/// The lines of a log as kinds and texts.
pub open spec fn line_views(lines: Seq<ChatLine>) -> Seq<(ChatLineKind, Seq<char>)> {
    Seq::new(lines.len(), |i: int| (lines[i].kind, lines[i].text@))
}

/// How many of the oldest lines leave when a log of `len` lines takes one more.
pub open spec fn overflow_after_push(len: nat) -> nat {
    if len + 1 > MAX_CHAT_LINES {
        (len + 1 - MAX_CHAT_LINES) as nat
    } else {
        0
    }
}

/// The log after one more line: the line stands last, and the oldest
/// lines leave where the log would pass its limit.
pub open spec fn log_pushed(
    lines: Seq<(ChatLineKind, Seq<char>)>,
    kind: ChatLineKind,
    text: Seq<char>,
) -> Seq<(ChatLineKind, Seq<char>)> {
    lines.push((kind, text)).skip(overflow_after_push(lines.len()) as int)
}

/// The scroll offset after one more line: back to the newest line while the
/// log follows its end, and moved with the lines that left.
pub open spec fn scroll_after_push(scroll: usize, len: nat, follow: bool) -> usize {
    let kept: usize = if follow {
        0
    } else {
        scroll
    };
    if kept >= overflow_after_push(len) {
        (kept - overflow_after_push(len)) as usize
    } else {
        0
    }
}

/// Appends a line, evicts the oldest lines over the limit, and returns how
/// many left.
pub fn push_bounded(lines: &mut Vec<ChatLine>, kind: ChatLineKind, text: String) -> (evicted: usize)
    ensures
        line_views(final(lines)@) == log_pushed(line_views(old(lines)@), kind, text@),
        evicted == overflow_after_push(old(lines)@.len()),
        old(lines)@.len() <= MAX_CHAT_LINES ==> final(lines)@.len() <= MAX_CHAT_LINES,
{
    let ghost before = line_views(lines@);
    let ghost all = before.push((kind, text@));
    if lines.len() < MAX_CHAT_LINES {
        lines.push(ChatLine { kind, text });
        assert(line_views(lines@) =~= all);
        assert(all.skip(0) == all);
        return 0;
    }
    // One line comes and `overflow` lines leave: keep what follows them.
    let overflow: usize = lines.len() - MAX_CHAT_LINES + 1;
    let mut kept = lines.split_off(overflow);
    kept.push(ChatLine { kind, text });
    *lines = kept;
    assert(line_views(lines@) =~= all.skip(overflow as int));
    overflow
}

/// The scroll offset after moving by `delta` lines: up by a positive
/// `delta`, never past the oldest line; down by a negative one, never past 0.
pub open spec fn scrolled(scroll: usize, len: nat, delta: int) -> int {
    if delta > 0 {
        let limit = if len > 0 {
            len - 1
        } else {
            0
        };
        let up = if scroll + delta > usize::MAX {
            usize::MAX as int
        } else {
            scroll + delta
        };
        if up < limit {
            up
        } else {
            limit
        }
    } else if delta < 0 {
        if scroll + delta > 0 {
            scroll + delta
        } else {
            0
        }
    } else {
        scroll as int
    }
}

/// The scroll offset after moving by `delta` lines.
pub fn scroll_by(scroll: usize, len: usize, delta: isize) -> (r: usize)
    ensures
        r == scrolled(scroll, len as nat, delta as int),
{
    if delta > 0 {
        let limit: usize = if len > 0 {
            len - 1
        } else {
            0
        };
        let step: usize = delta as usize;
        let up: usize = if scroll > usize::MAX - step {
            usize::MAX
        } else {
            scroll + step
        };
        if up < limit {
            up
        } else {
            limit
        }
    } else if delta < 0 {
        let down: i128 = scroll as i128 + delta as i128;
        if down > 0 {
            down as usize
        } else {
            0
        }
    } else {
        scroll
    }
}

/// The index of the first line that a view of `rows` lines shows, for a log
/// of `len` lines scrolled up by `scroll`: the offset is first brought into
/// `0..=len - visible`, with at least one line visible.
pub open spec fn window_start(len: nat, rows: nat, scroll: nat) -> int {
    let visible = if rows > 0 {
        rows
    } else {
        1
    };
    let max_offset = if len > visible {
        len - visible
    } else {
        0
    };
    let offset = if scroll < max_offset {
        scroll as int
    } else {
        max_offset
    };
    if len > visible + offset {
        len - (visible + offset)
    } else {
        0
    }
}

/// The index of the first line that the view shows.
pub fn visible_start(len: usize, rows: usize, scroll: usize) -> (start: usize)
    ensures
        start == window_start(len as nat, rows as nat, scroll as nat),
        start <= len,
{
    let visible: usize = if rows > 0 {
        rows
    } else {
        1
    };
    let max_offset: usize = if len > visible {
        len - visible
    } else {
        0
    };
    let offset: usize = if scroll < max_offset {
        scroll
    } else {
        max_offset
    };
    if len > visible && len - visible > offset {
        len - visible - offset
    } else {
        0
    }
}

} // verus!
