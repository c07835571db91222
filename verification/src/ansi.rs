//! The interpreter of terminal colour codes: one raw line in, styled segments out.
//!
//! Only SGR sequences (`ESC [ params m`) change the style. Any other control
//! sequence that `ESC [` introduces is dropped whole: its parameter
//! characters (`0` to `?`), its intermediate characters (space to `/`) and the
//! one character that ends it.

use crate::text::{
    chars_of, copy_range, count_leading_from, is_ascii_digit, leading, rows, split_tokens,
    string_of, tokens, CharClass,
};
use vstd::prelude::*;

verus! {

#[derive(Clone, Copy, Debug, PartialEq, Eq)]
pub enum Color {
    Reset,
    Black,
    Red,
    Green,
    Yellow,
    Blue,
    Magenta,
    Cyan,
    Gray,
    DarkGray,
    LightRed,
    LightGreen,
    LightYellow,
    LightBlue,
    LightMagenta,
    LightCyan,
    White,
    Rgb(u8, u8, u8),
    Indexed(u8),
}

/// What a style says of one text attribute.
#[derive(Clone, Copy, Debug, PartialEq, Eq)]
pub enum Toggle {
    /// Nothing: the attribute is inherited.
    Unset,
    /// The attribute is switched on.
    On,
    /// The attribute is switched off.
    Off,
}

#[derive(Clone, Copy, Debug, PartialEq, Eq)]
pub struct TextStyle {
    pub fg: Option<Color>,
    pub bg: Option<Color>,
    pub bold: Toggle,
    pub dim: Toggle,
    pub italic: Toggle,
    pub underlined: Toggle,
}

impl TextStyle {
    /// The style that sets nothing.
    pub open spec fn plain() -> TextStyle {
        TextStyle {
            fg: None,
            bg: None,
            bold: Toggle::Unset,
            dim: Toggle::Unset,
            italic: Toggle::Unset,
            underlined: Toggle::Unset,
        }
    }

    /// The style that sets nothing.
    pub fn new() -> (s: TextStyle)
        ensures
            s == TextStyle::plain(),
    {
        TextStyle {
            fg: None,
            bg: None,
            bold: Toggle::Unset,
            dim: Toggle::Unset,
            italic: Toggle::Unset,
            underlined: Toggle::Unset,
        }
    }

    /// The style with the foreground set.
    pub fn with_fg(self, color: Color) -> (s: TextStyle)
        ensures
            s == (TextStyle { fg: Some(color), ..self }),
    {
        TextStyle { fg: Some(color), ..self }
    }

    /// The style with the background set.
    pub fn with_bg(self, color: Color) -> (s: TextStyle)
        ensures
            s == (TextStyle { bg: Some(color), ..self }),
    {
        TextStyle { bg: Some(color), ..self }
    }

    /// The style with bold switched on.
    pub fn bolded(self) -> (s: TextStyle)
        ensures
            s == (TextStyle { bold: Toggle::On, ..self }),
    {
        TextStyle { bold: Toggle::On, ..self }
    }
}

/// A run of text with one style.
#[derive(Clone, Debug, PartialEq, Eq)]
pub struct Segment {
    pub text: String,
    pub style: TextStyle,
}

/// The segments as texts and styles.
pub open spec fn segment_views(v: Seq<Segment>) -> Seq<(Seq<char>, TextStyle)> {
    Seq::new(v.len(), |i: int| (v[i].text@, v[i].style))
}

// ---------------------------------------------------------------------------
// Colours
// ---------------------------------------------------------------------------

/// The colour of a foreground code: 30 to 37 the standard eight, 90 to 97
/// the bright eight, `Reset` for anything else.
pub open spec fn ansi_color(code: u16) -> Color {
    if code == 30 {
        Color::Black
    } else if code == 31 {
        Color::Red
    } else if code == 32 {
        Color::Green
    } else if code == 33 {
        Color::Yellow
    } else if code == 34 {
        Color::Blue
    } else if code == 35 {
        Color::Magenta
    } else if code == 36 {
        Color::Cyan
    } else if code == 37 {
        Color::Gray
    } else if code == 90 {
        Color::DarkGray
    } else if code == 91 {
        Color::LightRed
    } else if code == 92 {
        Color::LightGreen
    } else if code == 93 {
        Color::LightYellow
    } else if code == 94 {
        Color::LightBlue
    } else if code == 95 {
        Color::LightMagenta
    } else if code == 96 {
        Color::LightCyan
    } else if code == 97 {
        Color::White
    } else {
        Color::Reset
    }
}

/// The colour of a foreground code.
pub fn map_ansi_color(code: u16) -> (c: Color)
    ensures
        c == ansi_color(code),
{
    match code {
        30 => Color::Black,
        31 => Color::Red,
        32 => Color::Green,
        33 => Color::Yellow,
        34 => Color::Blue,
        35 => Color::Magenta,
        36 => Color::Cyan,
        37 => Color::Gray,
        90 => Color::DarkGray,
        91 => Color::LightRed,
        92 => Color::LightGreen,
        93 => Color::LightYellow,
        94 => Color::LightBlue,
        95 => Color::LightMagenta,
        96 => Color::LightCyan,
        97 => Color::White,
        _ => Color::Reset,
    }
}

/// A colour component: values over 255 count as 255.
pub open spec fn component(v: u16) -> u8 {
    if v > 255 {
        255u8
    } else {
        v as u8
    }
}

fn component_of(v: u16) -> (r: u8)
    ensures
        r == component(v),
{
    if v > 255 {
        255
    } else {
        v as u8
    }
}

// ---------------------------------------------------------------------------
// Parameters
// ---------------------------------------------------------------------------

/// The number that a run of decimal digits writes.
pub open spec fn digits_value(d: Seq<char>) -> nat
    decreases d.len(),
{
    if d.len() == 0 {
        0
    } else {
        (digits_value(d.drop_last()) * 10 + (d.last() as u32 - '0' as u32)) as nat
    }
}

/// Whether every character is a decimal digit.
pub open spec fn all_digits(d: Seq<char>) -> bool {
    forall|i: int| 0 <= i < d.len() ==> is_ascii_digit(#[trigger] d[i])
}

/// The digits of a parameter: what follows one optional plus sign.
pub open spec fn unsigned_part(part: Seq<char>) -> Seq<char> {
    if part.len() > 0 && part[0] == '+' {
        part.skip(1)
    } else {
        part
    }
}

/// A parameter as a 16-bit number: at least one decimal digit behind an
/// optional plus sign, and a value of at most 65535.
pub open spec fn parsed_u16(part: Seq<char>) -> Option<u16> {
    let d = unsigned_part(part);
    if d.len() > 0 && all_digits(d) && digits_value(d) <= 65535 {
        Some(digits_value(d) as u16)
    } else {
        None
    }
}

/// Reads a parameter as a 16-bit number.
pub fn parse_u16(part: &Vec<char>) -> (r: Option<u16>)
    ensures
        r == parsed_u16(part@),
{
    let start: usize = if part.len() > 0 && part[0] == '+' {
        1
    } else {
        0
    };
    let ghost d = unsigned_part(part@);
    assert(d == part@.skip(start as int));
    if start == part.len() {
        return None;
    }
    let mut acc: u32 = 0;
    let mut over = false;
    let mut i: usize = start;
    while i < part.len()
        invariant
            start <= i <= part.len(),
            d == part@.skip(start as int),
            d == unsigned_part(part@),
            all_digits(d.take(i - start)),
            !over ==> acc == digits_value(d.take(i - start)) && acc <= 65535,
            over ==> digits_value(d.take(i - start)) > 65535,
        decreases part.len() - i,
    {
        let c = part[i];
        let ghost prev = d.take(i - start);
        let ghost next = d.take(i - start + 1);
        assert(next.drop_last() == prev);
        assert(next.last() == c);
        assert(d[i - start] == c);
        if !('0' <= c && c <= '9') {
            assert(!is_ascii_digit(d[i - start]));
            return None;
        }
        assert forall|j: int| 0 <= j < next.len() implies is_ascii_digit(#[trigger] next[j]) by {
            if j < prev.len() {
                assert(next[j] == prev[j]);
            }
        }
        if !over {
            let digit: u32 = c as u32 - '0' as u32;
            acc = acc * 10 + digit;
            if acc > 65535 {
                over = true;
            }
        }
        i += 1;
    }
    assert(d.take(d.len() as int) == d);
    if over {
        None
    } else {
        Some(acc as u16)
    }
}

/// The parameters that parse, in order; the others are left out.
pub open spec fn parsed_params(parts: Seq<Seq<char>>) -> Seq<u16>
    decreases parts.len(),
{
    if parts.len() == 0 {
        Seq::empty()
    } else {
        let before = parsed_params(parts.drop_last());
        match parsed_u16(parts.last()) {
            Some(v) => before.push(v),
            None => before,
        }
    }
}

/// The numeric parameters of the text between `ESC [` and `m`.
pub open spec fn sgr_params(seq: Seq<char>) -> Seq<u16> {
    parsed_params(tokens(seq, CharClass::Is(';')))
}

/// Reads the numeric parameters of an SGR sequence.
pub fn sgr_params_of(seq: &Vec<char>) -> (out: Vec<u16>)
    ensures
        out@ == sgr_params(seq@),
{
    let parts = split_tokens(seq, CharClass::Is(';'));
    let mut out: Vec<u16> = Vec::new();
    let mut i: usize = 0;
    while i < parts.len()
        invariant
            i <= parts.len(),
            out@ == parsed_params(rows(parts@).take(i as int)),
        decreases parts.len() - i,
    {
        proof {
            let next = rows(parts@).take(i + 1);
            assert(next.drop_last() == rows(parts@).take(i as int));
            assert(next.last() == parts@[i as int]@);
        }
        match parse_u16(&parts[i]) {
            Some(v) => out.push(v),
            None => {},
        }
        i += 1;
    }
    assert(rows(parts@).take(parts.len() as int) == rows(parts@));
    out
}

// ---------------------------------------------------------------------------
// Codes
// ---------------------------------------------------------------------------

/// The style after one parameter that stands alone.
pub open spec fn code_applied(code: u16, style: TextStyle, base: TextStyle, default_fg: Color) -> TextStyle {
    if code == 0 {
        base
    } else if code == 1 {
        TextStyle { bold: Toggle::On, ..style }
    } else if code == 3 {
        TextStyle { italic: Toggle::On, ..style }
    } else if code == 4 {
        TextStyle { underlined: Toggle::On, ..style }
    } else if code == 22 {
        TextStyle { bold: Toggle::Off, dim: Toggle::Off, ..style }
    } else if code == 23 {
        TextStyle { italic: Toggle::Off, ..style }
    } else if code == 24 {
        TextStyle { underlined: Toggle::Off, ..style }
    } else if (30 <= code <= 37) || (90 <= code <= 97) {
        TextStyle { fg: Some(ansi_color(code)), ..style }
    } else if code == 39 {
        TextStyle { fg: Some(default_fg), ..style }
    } else if (40 <= code <= 47) || (100 <= code <= 107) {
        TextStyle { bg: Some(ansi_color((code - 10) as u16)), ..style }
    } else if code == 49 {
        TextStyle { bg: Some(Color::Reset), ..style }
    } else {
        style
    }
}

/// The style with an extended colour in the foreground or the background.
pub open spec fn colored(style: TextStyle, foreground: bool, color: Color) -> TextStyle {
    if foreground {
        TextStyle { fg: Some(color), ..style }
    } else {
        TextStyle { bg: Some(color), ..style }
    }
}

/// The style after the parameters from index `i` on. 38 and 48 take the
/// parameters behind them where these spell an indexed (`5;N`) or an RGB
/// (`2;R;G;B`) colour, and are skipped alone where they do not.
pub open spec fn codes_applied(
    params: Seq<u16>,
    i: int,
    style: TextStyle,
    base: TextStyle,
    default_fg: Color,
) -> TextStyle
    decreases params.len() - i,
{
    if i < 0 || i >= params.len() {
        style
    } else if params[i] == 38 || params[i] == 48 {
        if i + 2 < params.len() && params[i + 1] == 5 {
            codes_applied(
                params,
                i + 3,
                colored(style, params[i] == 38, Color::Indexed(component(params[i + 2]))),
                base,
                default_fg,
            )
        } else if i + 4 < params.len() && params[i + 1] == 2 {
            codes_applied(
                params,
                i + 5,
                colored(
                    style,
                    params[i] == 38,
                    Color::Rgb(
                        component(params[i + 2]),
                        component(params[i + 3]),
                        component(params[i + 4]),
                    ),
                ),
                base,
                default_fg,
            )
        } else {
            codes_applied(params, i + 1, style, base, default_fg)
        }
    } else {
        codes_applied(params, i + 1, code_applied(params[i], style, base, default_fg), base, default_fg)
    }
}

/// The style after an SGR sequence with the parameter text `seq`. A
/// sequence without a parameter that parses resets the style to `base`.
pub open spec fn sgr_applied(seq: Seq<char>, style: TextStyle, base: TextStyle, default_fg: Color) -> TextStyle {
    if sgr_params(seq).len() == 0 {
        base
    } else {
        codes_applied(sgr_params(seq), 0, style, base, default_fg)
    }
}

fn apply_code(code: u16, style: TextStyle, base: TextStyle, default_fg: Color) -> (s: TextStyle)
    ensures
        s == code_applied(code, style, base, default_fg),
{
    if code == 0 {
        base
    } else if code == 1 {
        TextStyle { bold: Toggle::On, ..style }
    } else if code == 3 {
        TextStyle { italic: Toggle::On, ..style }
    } else if code == 4 {
        TextStyle { underlined: Toggle::On, ..style }
    } else if code == 22 {
        TextStyle { bold: Toggle::Off, dim: Toggle::Off, ..style }
    } else if code == 23 {
        TextStyle { italic: Toggle::Off, ..style }
    } else if code == 24 {
        TextStyle { underlined: Toggle::Off, ..style }
    } else if (30 <= code && code <= 37) || (90 <= code && code <= 97) {
        TextStyle { fg: Some(map_ansi_color(code)), ..style }
    } else if code == 39 {
        TextStyle { fg: Some(default_fg), ..style }
    } else if (40 <= code && code <= 47) || (100 <= code && code <= 107) {
        TextStyle { bg: Some(map_ansi_color(code - 10)), ..style }
    } else if code == 49 {
        TextStyle { bg: Some(Color::Reset), ..style }
    } else {
        style
    }
}

fn apply_color(style: TextStyle, foreground: bool, color: Color) -> (s: TextStyle)
    ensures
        s == colored(style, foreground, color),
{
    if foreground {
        TextStyle { fg: Some(color), ..style }
    } else {
        TextStyle { bg: Some(color), ..style }
    }
}

/// Applies the parameter text of one SGR sequence to `style`.
pub fn apply_sgr_chars(seq: &Vec<char>, style: TextStyle, base: TextStyle, default_fg: Color) -> (s:
    TextStyle)
    ensures
        s == sgr_applied(seq@, style, base, default_fg),
{
    let params = sgr_params_of(seq);
    if params.len() == 0 {
        return base;
    }
    let mut current = style;
    let mut i: usize = 0;
    while i < params.len()
        invariant
            i <= params.len(),
            codes_applied(params@, 0, style, base, default_fg) == codes_applied(
                params@,
                i as int,
                current,
                base,
                default_fg,
            ),
        decreases params.len() - i,
    {
        let code = params[i];
        if code == 38 || code == 48 {
            if params.len() - i > 2 && params[i + 1] == 5 {
                let color = Color::Indexed(component_of(params[i + 2]));
                current = apply_color(current, code == 38, color);
                i += 3;
            } else if params.len() - i > 4 && params[i + 1] == 2 {
                let color = Color::Rgb(
                    component_of(params[i + 2]),
                    component_of(params[i + 3]),
                    component_of(params[i + 4]),
                );
                current = apply_color(current, code == 38, color);
                i += 5;
            } else {
                i += 1;
            }
        } else {
            current = apply_code(code, current, base, default_fg);
            i += 1;
        }
    }
    current
}

/// Applies one SGR sequence, given by the text between `ESC [` and `m`.
pub fn apply_sgr_sequence(seq: &str, style: &mut TextStyle, default_style: TextStyle, default_fg: Color)
    ensures
        *final(style) == sgr_applied(seq@, *old(style), default_style, default_fg),
{
    let chars = chars_of(seq);
    *style = apply_sgr_chars(&chars, *style, default_style, default_fg);
}

// ---------------------------------------------------------------------------
// Lines
// ---------------------------------------------------------------------------

/// The character that starts a control sequence.
pub open spec fn escape() -> char {
    '\u{1b}'
}

/// The segments with the buffered text added, where there is any.
pub open spec fn flushed(
    done: Seq<(Seq<char>, TextStyle)>,
    buffer: Seq<char>,
    style: TextStyle,
) -> Seq<(Seq<char>, TextStyle)> {
    if buffer.len() > 0 {
        done.push((buffer, style))
    } else {
        done
    }
}

/// The index of the character that ends the control sequence whose
/// parameters start at `from`; the length of the text where nothing ends it.
pub open spec fn sequence_end(text: Seq<char>, from: int) -> int {
    let p = leading(text.skip(from), CharClass::Between('0', '?'));
    let q = leading(text.skip(from + p), CharClass::Between(' ', '/'));
    from + p + q
}

/// Whether the control sequence whose parameters start at `from` is an SGR
/// sequence: digits and semicolons, then `m`.
pub open spec fn is_sgr(text: Seq<char>, from: int) -> bool {
    let end = sequence_end(text, from);
    &&& end < text.len()
    &&& text[end] == 'm'
    &&& forall|k: int| from <= k < end ==> is_ascii_digit(#[trigger] text[k]) || text[k] == ';'
}

/// The segments of `text` from `pos` on, with `style` in force, `buffer`
/// read and not yet emitted, and `done` emitted.
pub open spec fn scanned(
    text: Seq<char>,
    pos: int,
    style: TextStyle,
    buffer: Seq<char>,
    done: Seq<(Seq<char>, TextStyle)>,
    base: TextStyle,
    default_fg: Color,
) -> Seq<(Seq<char>, TextStyle)>
    decreases text.len() - pos,
{
    if pos < 0 || pos >= text.len() {
        flushed(done, buffer, style)
    } else if text[pos] == escape() && pos + 1 < text.len() && text[pos + 1] == '[' {
        let end = sequence_end(text, pos + 2);
        let next = if end < text.len() {
            end + 1
        } else {
            text.len() as int
        };
        let style_after = if is_sgr(text, pos + 2) {
            sgr_applied(text.subrange(pos + 2, end), style, base, default_fg)
        } else {
            style
        };
        scanned(text, next, style_after, Seq::empty(), flushed(done, buffer, style), base, default_fg)
    } else {
        scanned(text, pos + 1, style, buffer.push(text[pos]), done, base, default_fg)
    }
}

/// The styled segments of one raw line. A line without visible text gives
/// one empty segment in the base style.
pub open spec fn ansi_segments(text: Seq<char>, base: TextStyle, default_fg: Color) -> Seq<
    (Seq<char>, TextStyle),
> {
    let found = scanned(text, 0, base, Seq::empty(), Seq::empty(), base, default_fg);
    if found.len() == 0 {
        seq![(Seq::<char>::empty(), base)]
    } else {
        found
    }
}

fn flush(done: &mut Vec<Segment>, buffer: &mut Vec<char>, style: TextStyle)
    ensures
        segment_views(final(done)@) == flushed(segment_views(old(done)@), old(buffer)@, style),
        final(buffer)@.len() == 0,
{
    if buffer.len() > 0 {
        let text = string_of(buffer);
        let ghost before = segment_views(done@);
        done.push(Segment { text, style });
        assert(segment_views(done@) =~= before.push((buffer@, style)));
        buffer.clear();
    }
}

fn only_digits_and_semicolons(text: &Vec<char>, from: usize, to: usize) -> (r: bool)
    requires
        from <= to <= text.len(),
    ensures
        r == forall|k: int| from <= k < to ==> is_ascii_digit(#[trigger] text@[k]) || text@[k] == ';',
{
    let mut k: usize = from;
    while k < to
        invariant
            from <= k <= to <= text.len(),
            forall|j: int| from <= j < k ==> is_ascii_digit(#[trigger] text@[j]) || text@[j] == ';',
        decreases to - k,
    {
        let c = text[k];
        if !(('0' <= c && c <= '9') || c == ';') {
            return false;
        }
        k += 1;
    }
    true
}

/// Splits one raw line into styled segments.
pub fn parse_ansi_spans(text: &str, default_style: TextStyle, default_fg: Color) -> (out: Vec<Segment>)
    ensures
        segment_views(out@) == ansi_segments(text@, default_style, default_fg),
{
    let chars = chars_of(text);
    let mut out: Vec<Segment> = Vec::new();
    let mut buffer: Vec<char> = Vec::new();
    let mut style = default_style;
    let mut pos: usize = 0;
    let ghost whole = scanned(
        text@,
        0,
        default_style,
        Seq::empty(),
        Seq::empty(),
        default_style,
        default_fg,
    );
    assert(segment_views(out@) =~= Seq::empty());
    while pos < chars.len()
        invariant
            pos <= chars.len(),
            chars@ == text@,
            whole == scanned(
                text@,
                pos as int,
                style,
                buffer@,
                segment_views(out@),
                default_style,
                default_fg,
            ),
        decreases chars.len() - pos,
    {
        let c = chars[pos];
        if c == '\u{1b}' && chars.len() - pos > 1 && chars[pos + 1] == '[' {
            let from: usize = pos + 2;
            let p = count_leading_from(&chars, from, CharClass::Between('0', '?'));
            let q = count_leading_from(&chars, from + p, CharClass::Between(' ', '/'));
            let end: usize = from + p + q;
            assert(end == sequence_end(text@, from as int));
            let sgr = end < chars.len() && chars[end] == 'm' && only_digits_and_semicolons(
                &chars,
                from,
                end,
            );
            assert(sgr == is_sgr(text@, from as int));
            flush(&mut out, &mut buffer, style);
            assert(buffer@ =~= Seq::empty());
            if sgr {
                let seq = copy_range(&chars, from, end);
                style = apply_sgr_chars(&seq, style, default_style, default_fg);
            }
            pos = if end < chars.len() {
                end + 1
            } else {
                chars.len()
            };
        } else {
            buffer.push(c);
            pos += 1;
        }
    }
    flush(&mut out, &mut buffer, style);
    if out.len() == 0 {
        out.push(Segment { text: String::new(), style: default_style });
        assert(segment_views(out@) =~= seq![(Seq::<char>::empty(), default_style)]);
    }
    out
}

} // verus!
