//! What the renderer needs computed: text that fits, links, symbols, and
//! where things go.

use vstd::prelude::*;
use vstd::utf8::encode_utf8;
use crate::text;
use crate::model::{lemma_views_push, opt_view, views};
use crate::signal::types::{MessageStatus, Reaction, ReactionView};

verus! {

/// A clickable link region detected in the rendered buffer.
#[derive(Debug, Clone)]
pub struct LinkRegion {
    pub x: u16,
    pub y: u16,
    pub url: String,
    pub text: String,
}

/// The colors in which delivery states and sender names are drawn.
#[derive(Debug, Clone, Copy, PartialEq, Eq, Structural)]
pub enum Tint {
    Red,
    DarkGray,
    White,
    Green,
    Cyan,
    Magenta,
    Yellow,
    Blue,
    LightRed,
    LightGreen,
    LightCyan,
    LightMagenta,
}

/// The color that stands for a delivery state.
pub open spec fn status_tint(status: MessageStatus) -> Tint {
    match status {
        MessageStatus::Failed => Tint::Red,
        MessageStatus::Sending => Tint::DarkGray,
        MessageStatus::Sent => Tint::DarkGray,
        MessageStatus::Delivered => Tint::White,
        MessageStatus::Read => Tint::Green,
        MessageStatus::Viewed => Tint::Cyan,
    }
}

/// The symbol that stands for a delivery state: a Unicode symbol, or a
/// Nerd Font glyph.
pub open spec fn status_glyph(status: MessageStatus, nerd_fonts: bool) -> Seq<char> {
    match status {
        MessageStatus::Failed => if nerd_fonts {
            "\u{f055c}"@
        } else {
            "\u{2717}"@
        },
        MessageStatus::Sending => if nerd_fonts {
            "\u{f0996}"@
        } else {
            "\u{25cc}"@
        },
        MessageStatus::Sent => if nerd_fonts {
            "\u{f0954}"@
        } else {
            "\u{25cb}"@
        },
        MessageStatus::Delivered => if nerd_fonts {
            "\u{f012c}"@
        } else {
            "\u{2713}"@
        },
        MessageStatus::Read => if nerd_fonts {
            "\u{f012d}"@
        } else {
            "\u{25cf}"@
        },
        MessageStatus::Viewed => if nerd_fonts {
            "\u{f0208}"@
        } else {
            "\u{25c9}"@
        },
    }
}

/// Map a delivery state to its display symbol and color. Without colors
/// every state is dark gray.
pub fn status_symbol(status: MessageStatus, nerd_fonts: bool, color: bool) -> (r: (
    &'static str,
    Tint,
))
    ensures
        r.0@ == status_glyph(status, nerd_fonts),
        r.1 == if color {
            status_tint(status)
        } else {
            Tint::DarkGray
        },
{
    let (unicode_sym, nerd_sym, colored): (&'static str, &'static str, Tint) = match status {
        MessageStatus::Failed => ("\u{2717}", "\u{f055c}", Tint::Red),
        MessageStatus::Sending => ("\u{25cc}", "\u{f0996}", Tint::DarkGray),
        MessageStatus::Sent => ("\u{25cb}", "\u{f0954}", Tint::DarkGray),
        MessageStatus::Delivered => ("\u{2713}", "\u{f012c}", Tint::White),
        MessageStatus::Read => ("\u{25cf}", "\u{f012d}", Tint::Green),
        MessageStatus::Viewed => ("\u{25c9}", "\u{f0208}", Tint::Cyan),
    };
    let sym = if nerd_fonts {
        nerd_sym
    } else {
        unicode_sym
    };
    let fg = if color {
        colored
    } else {
        Tint::DarkGray
    };
    (sym, fg)
}

/// The hash of a name: over its bytes, thirty-one times the hash so far
/// plus the byte, in 32 bits.
pub open spec fn name_hash(bytes: Seq<u8>) -> u32
    decreases bytes.len(),
{
    if bytes.len() == 0 {
        0
    } else {
        ((name_hash(bytes.drop_last()) * 31 + bytes.last()) % 0x1_0000_0000) as u32
    }
}

/// The color at a place of the palette for sender names.
pub open spec fn palette(index: int) -> Tint {
    if index == 0 {
        Tint::Cyan
    } else if index == 1 {
        Tint::Magenta
    } else if index == 2 {
        Tint::Yellow
    } else if index == 3 {
        Tint::Blue
    } else if index == 4 {
        Tint::LightRed
    } else if index == 5 {
        Tint::LightGreen
    } else if index == 6 {
        Tint::LightCyan
    } else {
        Tint::LightMagenta
    }
}

/// The color of a sender's name: green for the user, else one of eight
/// colors by the hash of the name.
pub open spec fn name_tint(name: Seq<char>) -> Tint {
    if name == "you"@ {
        Tint::Green
    } else {
        palette(name_hash(encode_utf8(name)) as int % 8)
    }
}

/// Hash a sender name to one of eight distinct colors. `you` always gets
/// green.
pub fn sender_color(name: &str) -> (r: Tint)
    ensures
        r == name_tint(name@),
{
    if name.eq("you") {
        return Tint::Green;
    }
    let bytes = name.as_bytes();
    let mut hash: u32 = 0;
    let mut i: usize = 0;
    proof {
        assert(bytes@.take(0) =~= Seq::<u8>::empty());
    }
    while i < bytes.len()
        invariant
            i <= bytes@.len(),
            hash == name_hash(bytes@.take(i as int)),
        decreases bytes@.len() - i,
    {
        proof {
            assert(bytes@.take(i + 1).drop_last() =~= bytes@.take(i as int));
            assert(bytes@.take(i + 1).last() == bytes@[i as int]);
        }
        let wide: u64 = (hash as u64) * 31 + (bytes[i] as u64);
        hash = (wide % 0x1_0000_0000) as u32;
        i += 1;
    }
    proof {
        assert(bytes@.take(bytes@.len() as int) =~= bytes@);
    }
    let index = hash % 8;
    if index == 0 {
        Tint::Cyan
    } else if index == 1 {
        Tint::Magenta
    } else if index == 2 {
        Tint::Yellow
    } else if index == 3 {
        Tint::Blue
    } else if index == 4 {
        Tint::LightRed
    } else if index == 5 {
        Tint::LightGreen
    } else if index == 6 {
        Tint::LightCyan
    } else {
        Tint::LightMagenta
    }
}

/// The text cut to `max_width`: the text itself where it has no more bytes
/// than that; else its first `max_width - 1` characters and an ellipsis;
/// just the ellipsis for a width of one or none.
pub open spec fn truncated(s: Seq<char>, max_width: usize) -> Seq<char> {
    if encode_utf8(s).len() <= max_width {
        s
    } else if max_width <= 1 {
        seq!['\u{2026}']
    } else if s.len() <= max_width - 1 {
        s.push('\u{2026}')
    } else {
        s.take(max_width - 1).push('\u{2026}')
    }
}

/// Truncate a string to fit within `max_width`, appending an ellipsis if
/// truncated.
pub fn truncate(s: &str, max_width: usize) -> (r: String)
    ensures
        r@ == truncated(s@, max_width),
{
    if s.as_bytes().len() <= max_width {
        return String::from_str(s);
    }
    let mut out = if max_width <= 1 {
        String::new()
    } else {
        let v = text::chars(s);
        let keep = if v.len() <= max_width - 1 {
            v.len()
        } else {
            max_width - 1
        };
        proof {
            assert(v@.subrange(0, keep as int) =~= v@.take(keep as int));
            assert(v@.take(v@.len() as int) =~= v@);
        }
        text::from_chars(&v, 0, keep)
    };
    out.push('\u{2026}');
    proof {
        assert(Seq::<char>::empty().push('\u{2026}') =~= seq!['\u{2026}']);
    }
    out
}

/// The URL in a text: what begins at the first `file:///` and ends before
/// the next whitespace; without one, the same for `https://`, then for
/// `http://`; the text itself where it holds none of them.
pub open spec fn url_in(text: Seq<char>) -> Seq<char> {
    let file = text::find_from(text, "file:///"@, 0);
    let https = text::find_from(text, "https://"@, 0);
    let http = text::find_from(text, "http://"@, 0);
    if file < text.len() {
        text.subrange(file, text::find_whitespace_from(text, file))
    } else if https < text.len() {
        text.subrange(https, text::find_whitespace_from(text, https))
    } else if http < text.len() {
        text.subrange(http, text::find_whitespace_from(text, http))
    } else {
        text
    }
}

/// The position of the first whitespace at or after `from`.
pub fn find_whitespace_exec(v: &Vec<char>, from: usize) -> (r: usize)
    requires
        from <= v.len(),
    ensures
        r == text::find_whitespace_from(v@, from as int),
        from <= r <= v.len(),
{
    let mut i: usize = from;
    while i < v.len() && !v[i].is_whitespace()
        invariant
            from <= i <= v.len(),
            text::find_whitespace_from(v@, from as int) == text::find_whitespace_from(
                v@,
                i as int,
            ),
        decreases v.len() - i,
    {
        i += 1;
    }
    i
}

/// Extract a URL from link-styled text.
pub fn extract_url(text: &str) -> (r: String)
    ensures
        r@ == url_in(text@),
{
    let v = text::chars(text);
    let file = text::chars("file:///");
    let https = text::chars("https://");
    let http = text::chars("http://");
    let at_file = text::find_from_exec(&v, &file, 0);
    let start = if at_file < v.len() {
        at_file
    } else {
        let at_https = text::find_from_exec(&v, &https, 0);
        if at_https < v.len() {
            at_https
        } else {
            let at_http = text::find_from_exec(&v, &http, 0);
            if at_http < v.len() {
                at_http
            } else {
                return String::from_str(text);
            }
        }
    };
    let end = find_whitespace_exec(&v, start);
    text::from_chars(&v, start, end)
}

/// `n` times the character `c`.
pub open spec fn repeated(c: char, n: int) -> Seq<char> {
    Seq::new(
        if n > 0 {
            n as nat
        } else {
            0
        },
        |i: int| c,
    )
}

/// A line of `width` columns with the label in the middle of a rule; the
/// rule is one longer at the right where the rest is odd. A label of
/// `width` bytes or more stands alone.
pub open spec fn separator(label: Seq<char>, width: usize) -> Seq<char> {
    let bytes = encode_utf8(label).len();
    let pad_total = if width > bytes {
        width - bytes
    } else {
        0
    };
    let pad_left = pad_total / 2;
    repeated('\u{2500}', pad_left) + label + repeated('\u{2500}', pad_total - pad_left)
}

/// Appends `n` times the character `c`.
fn push_repeated(out: &mut String, c: char, n: usize)
    ensures
        final(out)@ == old(out)@ + repeated(c, n as int),
{
    let mut i: usize = 0;
    proof {
        assert(out@ + repeated(c, 0) =~= out@);
    }
    while i < n
        invariant
            i <= n,
            out@ == old(out)@ + repeated(c, i as int),
        decreases n - i,
    {
        out.push(c);
        proof {
            assert(old(out)@ + repeated(c, i + 1) =~= (old(out)@ + repeated(c, i as int)).push(c));
        }
        i += 1;
    }
}

/// Build a centered separator line: rule, label, rule.
pub fn build_separator(label: &str, width: usize) -> (r: String)
    ensures
        r@ == separator(label@, width),
{
    let bytes = label.as_bytes().len();
    let pad_total = if width > bytes {
        width - bytes
    } else {
        0
    };
    let pad_left = pad_total / 2;
    let pad_right = pad_total - pad_left;
    let mut out = String::new();
    push_repeated(&mut out, '\u{2500}', pad_left);
    out.append(label);
    push_repeated(&mut out, '\u{2500}', pad_right);
    proof {
        assert(Seq::<char>::empty() + repeated('\u{2500}', pad_left as int) =~= repeated(
            '\u{2500}',
            pad_left as int,
        ));
    }
    out
}

/// Where a popup goes: its left column, top row, width and height.
#[derive(Debug, Clone, Copy, PartialEq, Eq, Structural)]
pub struct PopupPlace {
    pub x: u16,
    pub y: u16,
    pub width: u16,
    pub height: u16,
}

/// The smaller of two numbers.
pub open spec fn least(a: int, b: int) -> int {
    if a < b {
        a
    } else {
        b
    }
}

/// The difference of two numbers, or 0 where the second is the greater.
pub open spec fn minus(a: int, b: int) -> int {
    if a > b {
        a - b
    } else {
        0
    }
}

/// The place of a popup in the middle of an area: as wide and as high as
/// preferred, but leaving four columns and two rows of the area free.
pub fn centered_popup(area_width: u16, area_height: u16, pref_width: u16, pref_height: u16) -> (r:
    PopupPlace)
    ensures
        r.width == least(pref_width as int, minus(area_width as int, 4)),
        r.height == least(pref_height as int, minus(area_height as int, 2)),
        r.x == minus(area_width as int, r.width as int) / 2,
        r.y == minus(area_height as int, r.height as int) / 2,
{
    let max_w = if area_width > 4 {
        area_width - 4
    } else {
        0
    };
    let max_h = if area_height > 2 {
        area_height - 2
    } else {
        0
    };
    let w = if pref_width < max_w {
        pref_width
    } else {
        max_w
    };
    let h = if pref_height < max_h {
        pref_height
    } else {
        max_h
    };
    let x = if area_width > w {
        (area_width - w) / 2
    } else {
        0
    };
    let y = if area_height > h {
        (area_height - h) / 2
    } else {
        0
    };
    PopupPlace { x, y, width: w, height: h }
}

/// The escape sequence that makes `text` a terminal hyperlink to `url`.
pub fn osc8_link(url: &str, text: &str) -> (r: String)
    ensures
        r@ == "\x1b]8;;"@ + url@ + "\x07"@ + text@ + "\x1b]8;;\x07"@,
{
    let mut out = text::concat3("\x1b]8;;", url, "\x07");
    out.append(text);
    out.append("\x1b]8;;\x07");
    out
}

/// A piece of a message's text: plain, or a link.
#[derive(Debug, Clone, PartialEq, Eq)]
pub struct TextSpan {
    pub text: String,
    pub is_link: bool,
}

/// What a [`TextSpan`] holds.
pub struct TextSpanView {
    pub text: Seq<char>,
    pub is_link: bool,
}

impl View for TextSpan {
    type V = TextSpanView;

    open spec fn view(&self) -> TextSpanView {
        TextSpanView { text: self.text@, is_link: self.is_link }
    }
}

/// The smallest of three numbers.
pub open spec fn least3(a: int, b: int, c: int) -> int {
    least(a, least(b, c))
}

/// The position of the first URI at or after `from`: where `https://`,
/// `http://` or `file:///` begins; the length of the text where none does.
pub open spec fn next_uri(text: Seq<char>, from: int) -> int {
    least3(
        text::find_from(text, "https://"@, from),
        text::find_from(text, "http://"@, from),
        text::find_from(text, "file:///"@, from),
    )
}

/// The pieces of the text from `from` on: each URI is a link that runs
/// from the beginning of its scheme to the next whitespace behind it, and
/// what stands between the links is plain.
pub open spec fn spans_from(text: Seq<char>, from: int) -> Seq<TextSpanView>
    decreases text.len() - from,
{
    if from < 0 || from >= text.len() {
        Seq::empty()
    } else {
        let at = next_uri(text, from);
        if from <= at < text.len() {
            let end = text::find_whitespace_from(text, at + 1);
            let plain = if at > from {
                seq![TextSpanView { text: text.subrange(from, at), is_link: false }]
            } else {
                Seq::empty()
            };
            if at < end <= text.len() {
                plain.push(TextSpanView { text: text.subrange(at, end), is_link: true })
                    + spans_from(text, end)
            } else {
                plain
            }
        } else {
            seq![TextSpanView { text: text.subrange(from, text.len() as int), is_link: false }]
        }
    }
}

/// The link of an attachment notice, `[image: name](file:///path)` or
/// `[attachment: name](file:///path)`: what is shown, which is the part in
/// square brackets, and the URI, which runs from `file:///` to the next
/// whitespace or closing bracket. None for a text that is no such notice,
/// or has no closing square bracket or no URI.
pub open spec fn notice_link(body: Seq<char>) -> Option<(Seq<char>, Seq<char>)> {
    let bracket = text::find_char(body, ']');
    let uri = text::find_from(body, "file:///"@, 0);
    if (text::has_prefix(body, "[image:"@) || text::has_prefix(body, "[attachment:"@)) && bracket
        < body.len() && 0 <= uri < body.len() {
        Some((body.take(bracket + 1), body.subrange(uri, uri_end(body, uri))))
    } else {
        None
    }
}

/// The position at or after `from` of the first whitespace or closing
/// round bracket; the length of the text where there is none.
pub open spec fn uri_end(text: Seq<char>, from: int) -> int
    decreases text.len() - from,
{
    if from < 0 || from >= text.len() {
        text.len() as int
    } else if text::is_whitespace(text[from]) || text[from] == ')' {
        from
    } else {
        uri_end(text, from + 1)
    }
}

/// The pieces in which a message's text is drawn, and the URI behind it
/// where the text is an attachment notice.
pub open spec fn styled_spans(body: Seq<char>) -> (Seq<TextSpanView>, Option<Seq<char>>) {
    match notice_link(body) {
        Some(link) => (seq![TextSpanView { text: link.0, is_link: true }], Some(link.1)),
        None => (spans_from(body, 0), None),
    }
}

/// Split a message body into spans, marking any URI (`https://`, `http://`,
/// `file:///`) as a link.
///
/// For an attachment notice the part in square brackets is the one visible
/// link, and the URI in round brackets is returned beside the spans.
pub fn styled_uri_spans(body: &str) -> (r: (Vec<TextSpan>, Option<String>))
    ensures
        views(r.0@) == styled_spans(body@).0,
        opt_view(r.1) == styled_spans(body@).1,
{
    let v = text::chars(body);
    let image = text::chars("[image:");
    let attachment = text::chars("[attachment:");
    let file = text::chars("file:///");
    let https = text::chars("https://");
    let http = text::chars("http://");
    let mut spans: Vec<TextSpan> = Vec::new();
    if text::occurs_at_exec(&v, &image, 0) || text::occurs_at_exec(&v, &attachment, 0) {
        let bracket = text::find_char_exec(&v, ']');
        if bracket < v.len() {
            let uri = text::find_from_exec(&v, &file, 0);
            if uri < v.len() {
                let mut end: usize = uri;
                while end < v.len() && !(v[end].is_whitespace() || v[end] == ')')
                    invariant
                        uri <= end <= v.len(),
                        uri_end(v@, uri as int) == uri_end(v@, end as int),
                    decreases v.len() - end,
                {
                    end += 1;
                }
                let shown = TextSpan { text: text::from_chars(&v, 0, bracket + 1), is_link: true };
                proof {
                    assert(v@.subrange(0, bracket + 1) =~= v@.take(bracket + 1));
                    lemma_views_push(spans@, shown);
                    assert(views(spans@) =~= Seq::<TextSpanView>::empty());
                }
                spans.push(shown);
                proof {
                    assert(views(spans@) =~= seq![shown@]);
                }
                return (spans, Some(text::from_chars(&v, uri, end)));
            }
        }
    }
    let mut from: usize = 0;
    proof {
        assert(views(spans@) =~= Seq::<TextSpanView>::empty());
        assert(views(spans@) + spans_from(v@, 0) =~= spans_from(v@, 0));
    }
    while from < v.len()
        invariant
            from <= v.len(),
            https@ == "https://"@,
            http@ == "http://"@,
            file@ == "file:///"@,
            views(spans@) + spans_from(v@, from as int) == spans_from(v@, 0),
        decreases v.len() - from,
    {
        let a = text::find_from_exec(&v, &https, from);
        let b = text::find_from_exec(&v, &http, from);
        let c = text::find_from_exec(&v, &file, from);
        let bc = if b < c {
            b
        } else {
            c
        };
        let at = if a < bc {
            a
        } else {
            bc
        };
        let ghost done = views(spans@);
        if at >= from && at < v.len() {
            if at > from {
                let plain = TextSpan { text: text::from_chars(&v, from, at), is_link: false };
                proof {
                    lemma_views_push(spans@, plain);
                }
                spans.push(plain);
            }
            let end = find_whitespace_exec(&v, at + 1);
            let link = TextSpan { text: text::from_chars(&v, at, end), is_link: true };
            proof {
                lemma_views_push(spans@, link);
            }
            spans.push(link);
            proof {
                let plain_part = if at > from {
                    seq![TextSpanView { text: v@.subrange(from as int, at as int), is_link: false }]
                } else {
                    Seq::empty()
                };
                assert(views(spans@) =~= done + plain_part.push(link@));
                assert(done + (plain_part.push(link@) + spans_from(v@, end as int)) =~= (done
                    + plain_part.push(link@)) + spans_from(v@, end as int));
            }
            from = end;
        } else {
            let plain = TextSpan { text: text::from_chars(&v, from, v.len()), is_link: false };
            proof {
                lemma_views_push(spans@, plain);
            }
            spans.push(plain);
            proof {
                assert(views(spans@) =~= done + seq![plain@]);
                assert(spans_from(v@, v@.len() as int) =~= Seq::<TextSpanView>::empty());
                assert(views(spans@) + spans_from(v@, v@.len() as int)
                    =~= views(spans@));
            }
            from = v.len();
        }
    }
    proof {
        assert(spans_from(v@, v@.len() as int) =~= Seq::<TextSpanView>::empty());
        assert(views(spans@) + Seq::<TextSpanView>::empty()
            =~= views(spans@));
    }
    (spans, None)
}

/// The number of rows that a line of `width` columns takes in a view of
/// `inner_width` columns: one for an empty line, else as many as it needs
/// when wrapped.
pub open spec fn wrapped_rows(width: usize, inner_width: usize) -> int {
    let columns = if inner_width > 0 {
        inner_width as int
    } else {
        1
    };
    if width == 0 {
        1
    } else {
        (width + columns - 1) / columns
    }
}

/// The index of the line that covers row `target` of the wrapped text,
/// counting the rows of the first `n` lines from `rows_before` on; `-1`
/// where the text ends before that row.
pub open spec fn line_at_row(
    widths: Seq<usize>,
    inner_width: usize,
    target: int,
    from: int,
    rows_before: int,
) -> int
    decreases widths.len() - from,
{
    if from < 0 || from >= widths.len() {
        -1
    } else if rows_before + wrapped_rows(widths[from], inner_width) > target {
        from
    } else {
        line_at_row(
            widths,
            inner_width,
            target,
            from + 1,
            rows_before + wrapped_rows(widths[from], inner_width),
        )
    }
}

/// The message that line `line` or the nearest line above it belongs to.
pub open spec fn owner_of_line(owners: Seq<Option<usize>>, line: int) -> Option<usize>
    decreases line + 1,
{
    if line < 0 {
        None
    } else if line < owners.len() && owners[line].is_some() {
        owners[line]
    } else {
        owner_of_line(owners, line - 1)
    }
}

/// The message at the bottom of the visible part of the wrapped text.
pub open spec fn focused_message(
    widths: Seq<usize>,
    owners: Seq<Option<usize>>,
    inner_width: usize,
    scroll_y: usize,
    available_height: usize,
) -> Option<usize> {
    let target = scroll_y + if available_height > 0 {
        available_height - 1
    } else {
        0
    };
    let line = line_at_row(widths, inner_width, target, 0, 0);
    owner_of_line(owners, line)
}

/// Find the message at the bottom of the visible viewport: the one that
/// the line in the last visible row belongs to, or the nearest line above
/// it that belongs to a message.
///
/// `widths` holds the width of each line before wrapping and `owners` the
/// message that each line belongs to, if any.
pub fn find_focused_message(
    widths: &Vec<usize>,
    owners: &Vec<Option<usize>>,
    inner_width: usize,
    scroll_y: usize,
    available_height: usize,
) -> (r: Option<usize>)
    ensures
        r == focused_message(widths@, owners@, inner_width, scroll_y, available_height),
{
    let target: u128 = scroll_y as u128 + if available_height > 0 {
        (available_height - 1) as u128
    } else {
        0
    };
    let columns: u128 = if inner_width > 0 {
        inner_width as u128
    } else {
        1
    };
    let mut rows: u128 = 0;
    let mut idx: usize = 0;
    let mut line: Option<usize> = None;
    while idx < widths.len() && line.is_none()
        invariant
            idx <= widths@.len(),
            columns == if inner_width > 0 {
                inner_width as int
            } else {
                1
            },
            rows <= idx * 0x1_0000_0000_0000_0000,
            match line {
                Some(l) => l < widths@.len() && line_at_row(
                    widths@,
                    inner_width,
                    target as int,
                    0,
                    0,
                ) == l,
                None => line_at_row(widths@, inner_width, target as int, 0, 0) == line_at_row(
                    widths@,
                    inner_width,
                    target as int,
                    idx as int,
                    rows as int,
                ),
            },
        decreases widths@.len() - idx + if line.is_none() { 1int } else { 0int },
    {
        let w = widths[idx] as u128;
        let h: u128 = if w == 0 {
            1
        } else {
            (w + columns - 1) / columns
        };
        proof {
            assert(h <= 0x1_0000_0000_0000_0000) by {
                assert(w < 0x1_0000_0000_0000_0000);
                if w > 0 {
                    assert((w + columns - 1) / (columns as int) <= w) by (nonlinear_arith)
                        requires
                            w >= 1,
                            columns >= 1,
                    ;
                }
            }
            assert(h == wrapped_rows(widths@[idx as int], inner_width));
            assert((idx + 1) * 0x1_0000_0000_0000_0000 == idx * 0x1_0000_0000_0000_0000
                + 0x1_0000_0000_0000_0000) by (nonlinear_arith);
            assert(idx * 0x1_0000_0000_0000_0000 <= 0xffff_ffff_ffff_ffff
                * 0x1_0000_0000_0000_0000) by (nonlinear_arith)
                requires
                    idx <= 0xffff_ffff_ffff_ffff,
            ;
        }
        if rows + h > target {
            line = Some(idx);
        } else {
            rows = rows + h;
            idx += 1;
        }
    }
    let mut li: usize = match line {
        Some(l) => l,
        None => {
            return None;
        },
    };
    loop
        invariant
            target == scroll_y + if available_height > 0 {
                available_height - 1
            } else {
                0
            },
            owner_of_line(owners@, line_at_row(widths@, inner_width, target as int, 0, 0))
                == owner_of_line(owners@, li as int),
        decreases li,
    {
        if li < owners.len() {
            match owners[li] {
                Some(m) => {
                    return Some(m);
                },
                None => {},
            }
        }
        if li == 0 {
            proof {
                assert(owner_of_line(owners@, -1) == None::<usize>);
            }
            return None;
        }
        li -= 1;
    }
}

/// The reactions to a message that show one emoji.
#[derive(Debug, Clone, PartialEq, Eq)]
pub struct ReactionGroup {
    pub emoji: String,
    /// Who reacted with the emoji, in the order of the reactions.
    pub senders: Vec<String>,
}

/// The senders of the reactions that show `emoji`, in order.
pub open spec fn senders_of(
    reactions: Seq<ReactionView>,
    emoji: Seq<char>,
) -> Seq<Seq<char>>
    decreases reactions.len(),
{
    if reactions.len() == 0 {
        Seq::empty()
    } else {
        let rest = senders_of(reactions.drop_last(), emoji);
        if reactions.last().emoji == emoji {
            rest.push(reactions.last().sender)
        } else {
            rest
        }
    }
}

/// Whether the groups are those of the reactions: in the order of their
/// emojis, none of them twice; each with the senders of the reactions that
/// show its emoji, of which there is at least one; and none of the
/// reactions without a group.
pub open spec fn groups_of(
    groups: Seq<ReactionGroup>,
    reactions: Seq<ReactionView>,
) -> bool {
    &&& forall|a: int, b: int|
        0 <= a < b < groups.len() ==> text::lex_lt(groups[a].emoji@, groups[b].emoji@)
    &&& forall|g: int|
        0 <= g < groups.len() ==> views((#[trigger] groups[g]).senders@)
            == senders_of(reactions, groups[g].emoji@) && groups[g].senders@.len() > 0
    &&& forall|i: int| 0 <= i < reactions.len() ==> shows(groups, (#[trigger] reactions[i]).emoji)
}

/// Whether one of the groups shows the emoji.
pub open spec fn shows(groups: Seq<ReactionGroup>, emoji: Seq<char>) -> bool {
    exists|g: int| 0 <= g < groups.len() && (#[trigger] groups[g]).emoji@ == emoji
}

/// Group the reactions to a message by emoji, for the summary line under
/// the message; see [`groups_of`].
pub fn group_reactions(reactions: &Vec<Reaction>) -> (groups: Vec<
    ReactionGroup,
>)
    ensures
        groups_of(groups@, views(reactions@)),
{
    let ghost all = views(reactions@);
    let mut groups: Vec<ReactionGroup> = Vec::new();
    let mut k: usize = 0;
    proof {
        assert(all.take(0) =~= Seq::empty());
    }
    while k < reactions.len()
        invariant
            k <= reactions@.len(),
            all == views(reactions@),
            groups_of(groups@, all.take(k as int)),
        decreases reactions@.len() - k,
    {
        let ghost seen = all.take(k as int);
        let ghost next = all.take(k + 1);
        let ghost before = groups@;
        proof {
            assert(next.drop_last() =~= seen);
            assert(next.last() == reactions@[k as int]@);
        }
        let emoji = text::chars(reactions[k].emoji.as_str());
        let mut j: usize = 0;
        let mut found = false;
        while j < groups.len() && !found
            invariant
                j <= groups@.len(),
                groups@ == before,
                emoji@ == reactions@[k as int].emoji@,
                forall|a: int| 0 <= a < j ==> text::lex_lt((#[trigger] before[a]).emoji@, emoji@),
                found ==> j < groups@.len() && crate::text::lex_le(
                    emoji@,
                    before[j as int].emoji@,
                ),
            decreases groups@.len() - j + if found { 0int } else { 1int },
        {
            let other = text::chars(groups[j].emoji.as_str());
            if crate::text::lex_le_exec(&emoji, &other) {
                found = true;
            } else {
                proof {
                    crate::text::lemma_lex_total(emoji@, other@);
                    if other@ == emoji@ {
                        text::lemma_lex_reflexive(emoji@);
                    }
                }
                j += 1;
            }
        }
        let same = j < groups.len() && groups[j].emoji.as_str().eq(reactions[k].emoji.as_str());
        if same {
            let sender = reactions[k].sender.clone();
            proof {
                lemma_views_push(groups@[j as int].senders@, sender);
            }
            groups[j].senders.push(sender);
            proof {
                let after = groups@;
                assert forall|g: int| 0 <= g < after.len() implies views(
                    (#[trigger] after[g]).senders@,
                ) == senders_of(next, after[g].emoji@) && after[g].senders@.len() > 0 by {
                    if g != j {
                        assert(after[g] == before[g]);
                        assert(text::lex_lt(before[g].emoji@, before[j as int].emoji@) || text::lex_lt(
                            before[j as int].emoji@,
                            before[g].emoji@,
                        ));
                    }
                }
                assert forall|a: int, b: int| 0 <= a < b < after.len() implies text::lex_lt(
                    after[a].emoji@,
                    after[b].emoji@,
                ) by {
                    assert(after[a].emoji == before[a].emoji);
                    assert(after[b].emoji == before[b].emoji);
                }
                assert forall|i: int| 0 <= i < next.len() implies shows(
                    after,
                    (#[trigger] next[i]).emoji,
                ) by {
                    if i < k {
                        assert(next[i] == seen[i]);
                        assert(shows(before, seen[i].emoji));
                        let g = choose|g: int|
                            0 <= g < before.len() && (#[trigger] before[g]).emoji@ == seen[i].emoji;
                        assert(after[g].emoji == before[g].emoji);
                    } else {
                        assert(after[j as int].emoji@ == next[i].emoji);
                    }
                }
            }
        } else {
            let mut senders: Vec<String> = Vec::new();
            let sender = reactions[k].sender.clone();
            proof {
                lemma_views_push(senders@, sender);
                assert(views(senders@) =~= Seq::<Seq<char>>::empty());
            }
            senders.push(sender);
            let group = ReactionGroup { emoji: reactions[k].emoji.clone(), senders };
            groups.insert(j, group);
            proof {
                let after = groups@;
                let e = emoji@;
                assert(after =~= before.insert(j as int, group));
                // no group showed this emoji before
                assert forall|g: int| 0 <= g < before.len() implies (#[trigger] before[g]).emoji@
                    != e by {
                    if g > j {
                        assert(text::lex_lt(before[j as int].emoji@, before[g].emoji@));
                        if before[g].emoji@ == e {
                            text::lemma_lex_antisymmetric(e, before[j as int].emoji@);
                        }
                    }
                }
                assert(senders_of(seen, e) =~= Seq::<Seq<char>>::empty()) by {
                    lemma_no_group_no_sender(before, seen, e);
                }
                assert forall|g: int| 0 <= g < after.len() implies views(
                    (#[trigger] after[g]).senders@,
                ) == senders_of(next, after[g].emoji@) && after[g].senders@.len() > 0 by {
                    if g < j {
                        assert(after[g] == before[g]);
                    } else if g > j {
                        assert(after[g] == before[g - 1]);
                    } else {
                        assert(views(after[g].senders@) =~= seq![
                            reactions@[k as int].sender@,
                        ]);
                    }
                }
                assert forall|a: int, b: int| 0 <= a < b < after.len() implies text::lex_lt(
                    after[a].emoji@,
                    after[b].emoji@,
                ) by {
                    if b < j {
                        assert(after[a] == before[a] && after[b] == before[b]);
                    } else if b == j {
                        assert(after[a] == before[a]);
                    } else if a == j {
                        assert(after[b] == before[b - 1]);
                        if b - 1 > j {
                            assert(text::lex_lt(before[j as int].emoji@, before[b - 1].emoji@));
                            text::lemma_lex_transitive(e, before[j as int].emoji@, before[b - 1].emoji@);
                        }
                    } else if a < j {
                        assert(after[a] == before[a] && after[b] == before[b - 1]);
                        if b - 1 == j {
                            text::lemma_lex_transitive(before[a].emoji@, e, before[j as int].emoji@);
                            if before[a].emoji@ == before[j as int].emoji@ {
                                text::lemma_lex_antisymmetric(e, before[a].emoji@);
                            }
                        }
                    } else {
                        assert(after[a] == before[a - 1] && after[b] == before[b - 1]);
                    }
                }
                assert forall|i: int| 0 <= i < next.len() implies shows(
                    after,
                    (#[trigger] next[i]).emoji,
                ) by {
                    if i < k {
                        assert(next[i] == seen[i]);
                        assert(shows(before, seen[i].emoji));
                        let g = choose|g: int|
                            0 <= g < before.len() && (#[trigger] before[g]).emoji@ == seen[i].emoji;
                        if g < j {
                            assert(after[g] == before[g]);
                        } else {
                            assert(after[g + 1] == before[g]);
                        }
                    } else {
                        assert(after[j as int].emoji@ == next[i].emoji);
                    }
                }
            }
        }
        k += 1;
    }
    proof {
        assert(all.take(all.len() as int) =~= all);
    }
    groups
}

/// An emoji that no group shows is shown by no reaction.
proof fn lemma_no_group_no_sender(
    groups: Seq<ReactionGroup>,
    reactions: Seq<ReactionView>,
    emoji: Seq<char>,
)
    requires
        groups_of(groups, reactions),
        forall|g: int| 0 <= g < groups.len() ==> (#[trigger] groups[g]).emoji@ != emoji,
    ensures
        senders_of(reactions, emoji).len() == 0,
{
    assert forall|i: int| 0 <= i < reactions.len() implies (#[trigger] reactions[i]).emoji
        != emoji by {
        assert(shows(groups, reactions[i].emoji));
    }
    lemma_absent_emoji(reactions, emoji);
}

/// An emoji that no reaction shows has no senders.
proof fn lemma_absent_emoji(reactions: Seq<ReactionView>, emoji: Seq<char>)
    requires
        forall|i: int| 0 <= i < reactions.len() ==> (#[trigger] reactions[i]).emoji != emoji,
    ensures
        senders_of(reactions, emoji).len() == 0,
    decreases reactions.len(),
{
    if reactions.len() > 0 {
        assert forall|i: int| 0 <= i < reactions.len() - 1 implies (#[trigger] reactions.drop_last()[i]).emoji
            != emoji by {
            assert(reactions.drop_last()[i] == reactions[i]);
        }
        lemma_absent_emoji(reactions.drop_last(), emoji);
        assert(reactions.last() == reactions[reactions.len() - 1]);
    }
}

/// A cell of the rendered screen, as far as links are concerned.
#[derive(Debug, Clone, PartialEq, Eq)]
pub struct ScreenCell {
    /// What the cell shows; empty for the cells behind a wide character.
    pub symbol: String,
    /// Whether the cell is drawn in the style of links.
    pub is_link: bool,
}

/// What a [`ScreenCell`] holds.
pub struct ScreenCellView {
    pub symbol: Seq<char>,
    pub is_link: bool,
}

/// What a [`LinkRegion`] holds.
pub struct LinkRegionView {
    pub x: u16,
    pub y: u16,
    pub url: Seq<char>,
    pub text: Seq<char>,
}

impl View for LinkRegion {
    type V = LinkRegionView;

    open spec fn view(&self) -> LinkRegionView {
        LinkRegionView { x: self.x, y: self.y, url: self.url@, text: self.text@ }
    }
}

/// What the cells of a row hold; `None` for a place without cell.
pub open spec fn row_view(row: Seq<Option<ScreenCell>>) -> Seq<Option<ScreenCellView>> {
    Seq::new(
        row.len(),
        |i: int|
            match row[i] {
                Some(c) => Some(ScreenCellView { symbol: c.symbol@, is_link: c.is_link }),
                None => None,
            },
    )
}

/// Whether the place holds a cell in the style of links.
pub open spec fn link_at(row: Seq<Option<ScreenCellView>>, x: int) -> bool {
    0 <= x < row.len() && match row[x] {
        Some(c) => c.is_link,
        None => false,
    }
}

/// The end of the run of link cells that begins at `x`: the first place
/// behind it that holds no link cell.
pub open spec fn run_end(row: Seq<Option<ScreenCellView>>, x: int) -> int
    decreases row.len() - x,
{
    if link_at(row, x) {
        run_end(row, x + 1)
    } else {
        x
    }
}

/// What the cells from `x` to `end` show.
pub open spec fn run_text(row: Seq<Option<ScreenCellView>>, x: int, end: int) -> Seq<char>
    decreases end - x,
{
    if x >= end || !(0 <= x < row.len()) {
        Seq::empty()
    } else {
        (match row[x] {
            Some(c) => c.symbol,
            None => Seq::empty(),
        }) + run_text(row, x + 1, end)
    }
}

/// What the scan of a row has found so far: the links, and of the last of
/// them its URL and whether it reached the right edge.
pub struct RowScan {
    pub regions: Seq<LinkRegionView>,
    pub last_url: Option<Seq<char>>,
    pub reached_edge: bool,
}

/// The scan of a row from `x` on.
///
/// Each run of link cells that shows anything is a link. Its URL is the one
/// found in its text; a link at the left edge, though, continues the link
/// that reached the right edge in the row above (`wrap_url`), and has that
/// link's URL.
pub open spec fn row_scanned(
    row: Seq<Option<ScreenCellView>>,
    x: int,
    so_far: RowScan,
    wrap_url: Option<Seq<char>>,
    origin_x: u16,
    y: u16,
) -> RowScan
    decreases row.len() - x,
{
    if x < 0 || x >= row.len() {
        so_far
    } else if link_at(row, x) {
        let end = run_end(row, x);
        let text = run_text(row, x, end);
        if end <= x || end > row.len() {
            so_far
        } else if text.len() == 0 {
            row_scanned(row, end, so_far, wrap_url, origin_x, y)
        } else {
            let url = match wrap_url {
                Some(u) => if x == 0 {
                    u
                } else {
                    url_in(text)
                },
                None => url_in(text),
            };
            row_scanned(
                row,
                end,
                RowScan {
                    regions: so_far.regions.push(
                        LinkRegionView { x: (origin_x + x) as u16, y, url, text },
                    ),
                    last_url: Some(url),
                    reached_edge: end >= row.len(),
                },
                wrap_url,
                origin_x,
                y,
            )
        }
    } else {
        row_scanned(row, x + 1, so_far, wrap_url, origin_x, y)
    }
}

/// What the scan of the first `n` rows has found: the links, and the URL
/// that a link at the left edge of the next row continues.
pub open spec fn rows_scanned(
    rows: Seq<Seq<Option<ScreenCellView>>>,
    n: int,
    origin_x: u16,
    origin_y: u16,
) -> (Seq<LinkRegionView>, Option<Seq<char>>)
    decreases n,
{
    if n <= 0 || n > rows.len() {
        (Seq::empty(), None)
    } else {
        let above = rows_scanned(rows, n - 1, origin_x, origin_y);
        let row = row_scanned(
            rows[n - 1],
            0,
            RowScan { regions: Seq::empty(), last_url: None, reached_edge: false },
            above.1,
            origin_x,
            (origin_y + n - 1) as u16,
        );
        (
            above.0 + row.regions,
            if row.reached_edge {
                row.last_url
            } else {
                None
            },
        )
    }
}

/// What the rows of cells hold.
pub open spec fn grid_view(rows: Seq<Vec<Option<ScreenCell>>>) -> Seq<Seq<Option<ScreenCellView>>> {
    Seq::new(rows.len(), |i: int| row_view(rows[i]@))
}

/// The run of link cells from `x` on ends where [`run_end`] says, behind
/// `x`.
proof fn lemma_run_end(row: Seq<Option<ScreenCellView>>, x: int)
    requires
        link_at(row, x),
    ensures
        x < run_end(row, x) <= row.len(),
    decreases row.len() - x,
{
    assert(run_end(row, x) == run_end(row, x + 1));
    if link_at(row, x + 1) {
        lemma_run_end(row, x + 1);
    } else {
        assert(run_end(row, x + 1) == x + 1);
    }
}

/// The text of a run with one more cell.
proof fn lemma_run_text_push(row: Seq<Option<ScreenCellView>>, x: int, end: int)
    requires
        0 <= x <= end < row.len(),
    ensures
        run_text(row, x, end + 1) == run_text(row, x, end) + match row[end] {
            Some(c) => c.symbol,
            None => Seq::empty(),
        },
    decreases end - x,
{
    let last = match row[end] {
        Some(c) => c.symbol,
        None => Seq::empty(),
    };
    if x < end {
        lemma_run_text_push(row, x + 1, end);
        let first = match row[x] {
            Some(c) => c.symbol,
            None => Seq::empty(),
        };
        assert(first + (run_text(row, x + 1, end) + last) =~= (first + run_text(row, x + 1, end))
            + last);
    } else {
        assert(run_text(row, x + 1, end + 1) =~= Seq::<char>::empty());
        assert(last + Seq::<char>::empty() =~= Seq::<char>::empty() + last);
    }
}

/// Scans one row of the rendered screen for links.
fn scan_row(
    row: &Vec<Option<ScreenCell>>,
    wrap_url: &Option<String>,
    origin_x: u16,
    y: u16,
    regions: &mut Vec<LinkRegion>,
) -> (next_wrap: Option<String>)
    requires
        origin_x + row@.len() <= u16::MAX,
    ensures
        ({
            let scan = row_scanned(
                row_view(row@),
                0,
                RowScan { regions: Seq::empty(), last_url: None, reached_edge: false },
                opt_view(*wrap_url),
                origin_x,
                y,
            );
            &&& views(final(regions)@) == views(old(regions)@) + scan.regions
            &&& opt_view(next_wrap) == if scan.reached_edge {
                scan.last_url
            } else {
                None
            }
        }),
{
    let ghost cells = row_view(row@);
    let ghost start = RowScan { regions: Seq::empty(), last_url: None, reached_edge: false };
    let ghost wrap = opt_view(*wrap_url);
    let ghost before = views(regions@);
    let mut last_url: Option<String> = None;
    let mut reached_edge = false;
    let ghost mut found: Seq<LinkRegionView> = Seq::empty();
    let mut x: usize = 0;
    proof {
        assert(before + found =~= before);
    }
    while x < row.len()
        invariant
            x <= row@.len(),
            origin_x + row@.len() <= u16::MAX,
            cells == row_view(row@),
            wrap == opt_view(*wrap_url),
            views(regions@) == before + found,
            row_scanned(cells, 0, start, wrap, origin_x, y) == row_scanned(
                cells,
                x as int,
                RowScan { regions: found, last_url: opt_view(last_url), reached_edge },
                wrap,
                origin_x,
                y,
            ),
        decreases row@.len() - x,
    {
        let is_link = match &row[x] {
            Some(c) => c.is_link,
            None => false,
        };
        if !is_link {
            x += 1;
            continue ;
        }
        let start_x = x;
        let mut text = String::new();
        let mut end: usize = x;
        proof {
            lemma_run_end(cells, x as int);
        }
        let mut going = true;
        while going && end < row.len()
            invariant
                start_x <= end <= row@.len(),
                cells == row_view(row@),
                run_end(cells, start_x as int) == run_end(cells, end as int),
                text@ == run_text(cells, start_x as int, end as int),
                !going ==> !link_at(cells, end as int),
            decreases row@.len() - end + if going { 1int } else { 0int },
        {
            match &row[end] {
                Some(c) => {
                    if c.is_link {
                        proof {
                            lemma_run_text_push(cells, start_x as int, end as int);
                        }
                        text.append(c.symbol.as_str());
                        end += 1;
                    } else {
                        going = false;
                    }
                },
                None => {
                    going = false;
                },
            }
        }
        proof {
            assert(!link_at(cells, end as int));
            assert(end == run_end(cells, start_x as int));
        }
        x = end;
        if text.as_str().is_empty() {
            continue ;
        }
        let url = match wrap_url {
            Some(u) => if start_x == 0 {
                u.clone()
            } else {
                extract_url(text.as_str())
            },
            None => extract_url(text.as_str()),
        };
        last_url = Some(url.clone());
        reached_edge = end >= row.len();
        let region = LinkRegion { x: origin_x + start_x as u16, y, url, text };
        proof {
            lemma_views_push(regions@, region);
            assert(before + found.push(region@) =~= (before + found).push(region@));
            found = found.push(region@);
        }
        regions.push(region);
    }
    if reached_edge {
        last_url
    } else {
        None
    }
}

/// Scan the rendered screen for links: runs of cells in the style of
/// links.
///
/// `rows` holds the cells of an area of the screen whose upper left corner
/// is at column `origin_x` and row `origin_y`, row by row. Each run that
/// shows anything becomes a region with its place, its text, and the URL
/// found in the text. A link that reaches the right edge continues at the
/// left edge of the next row, where the run has the URL of the link above.
pub fn collect_link_regions(
    rows: &Vec<Vec<Option<ScreenCell>>>,
    origin_x: u16,
    origin_y: u16,
) -> (regions: Vec<LinkRegion>)
    requires
        origin_y + rows@.len() <= u16::MAX,
        forall|i: int| 0 <= i < rows@.len() ==> origin_x + (#[trigger] rows@[i])@.len() <= u16::MAX,
    ensures
        views(regions@) == rows_scanned(
            grid_view(rows@),
            rows@.len() as int,
            origin_x,
            origin_y,
        ).0,
{
    let mut regions: Vec<LinkRegion> = Vec::new();
    let mut wrap_url: Option<String> = None;
    let mut i: usize = 0;
    proof {
        assert(views(regions@) =~= Seq::<LinkRegionView>::empty());
    }
    while i < rows.len()
        invariant
            i <= rows@.len(),
            origin_y + rows@.len() <= u16::MAX,
            forall|k: int|
                0 <= k < rows@.len() ==> origin_x + (#[trigger] rows@[k])@.len() <= u16::MAX,
            views(regions@) == rows_scanned(grid_view(rows@), i as int, origin_x, origin_y).0,
            opt_view(wrap_url) == rows_scanned(grid_view(rows@), i as int, origin_x, origin_y).1,
        decreases rows@.len() - i,
    {
        proof {
            assert(grid_view(rows@)[i as int] == row_view(rows@[i as int]@));
        }
        let next = scan_row(&rows[i], &wrap_url, origin_x, origin_y + i as u16, &mut regions);
        wrap_url = next;
        i += 1;
    }
    regions
}

} // verus!
