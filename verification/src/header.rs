//! Header bar content: the compact token count, the usage summary, model
//! name truncation and the choice of layout for the available width.

use vstd::prelude::*;
use vstd::arithmetic::power2::*;
use unicode_width::UnicodeWidthStr;

use crate::text::{decimal_text, digit_char, push_char, push_decimal, push_spaces, spaces};

verus! {

/// `num / den` rounded to the nearest integer, ties to the even one.
pub open spec fn round_half_even(num: nat, den: nat) -> nat
    recommends
        den > 0,
{
    let q = num / den;
    let r = num % den;
    if 2 * r < den {
        q
    } else if 2 * r > den {
        q + 1
    } else if q % 2 == 0 {
        q
    } else {
        q + 1
    }
}

/// The binary exponent of `num / den` for `num >= den > 0`: the `e` with
/// `den * 2^e <= num < den * 2^(e+1)`.
pub open spec fn binade(num: nat, den: nat) -> nat
    decreases num - den,
    when den > 0 && num >= den
{
    if num < 2 * den {
        0
    } else {
        1 + binade(num, 2 * den)
    }
}

/// The IEEE-754 double nearest to `num / den` (ties to even), for
/// `num >= den > 0`, written as `(m, k)`: the double is `m / 2^k`, with a
/// 53-bit significand `m`.
pub open spec fn nearest_double(num: nat, den: nat) -> (nat, nat) {
    let k = (52 - binade(num, den)) as nat;
    (round_half_even(num * pow2(k), den), k)
}

/// `num / den`, computed as a double, then rounded to tenths the way `{:.1}`
/// prints it (ties to even): the count of tenths.
pub open spec fn double_quotient_tenths(num: nat, den: nat) -> nat {
    let (m, k) = nearest_double(num, den);
    round_half_even(10 * m, pow2(k))
}

/// A count of tenths as `{:.1}` prints it: `12.3` for 123.
pub open spec fn tenths_text(tenths: nat) -> Seq<char> {
    decimal_text(tenths / 10).push('.').push(digit_char(tenths % 10))
}

/// The compact token count: plain below a thousand, then thousands with a
/// `k`, then millions with an `M`, one decimal each, as the `f64` quotient
/// `tokens / 1_000` (or `/ 1_000_000`) prints with `{:.1}`.
pub open spec fn token_count_text(tokens: nat) -> Seq<char> {
    if tokens >= 1_000_000 {
        tenths_text(double_quotient_tenths(tokens, 1_000_000)).push('M')
    } else if tokens >= 1_000 {
        tenths_text(double_quotient_tenths(tokens, 1_000)).push('k')
    } else {
        decimal_text(tokens)
    }
}

fn round_half_even_exec(num: u128, den: u128) -> (r: u128)
    requires
        den > 0,
        den < u128::MAX / 2,
        num < u128::MAX / 2,
    ensures
        r == round_half_even(num as nat, den as nat),
{
    let q = num / den;
    let rem = num % den;
    assert(q <= num) by (nonlinear_arith)
        requires q == num / den, den > 0;
    if 2 * rem < den {
        q
    } else if 2 * rem > den {
        q + 1
    } else if q % 2 == 0 {
        q
    } else {
        q + 1
    }
}

/// The tenths of `num / den` computed as a double (see
/// `double_quotient_tenths`).
fn quotient_tenths(num: u32, den: u32) -> (r: u128)
    requires
        den >= 1000,
        num >= den,
    ensures
        r == double_quotient_tenths(num as nat, den as nat),
{
    let t = num as u128;
    let d = den as u128;
    // Find the binade: d * 2^e <= t < d * 2^(e+1).
    let mut e: u32 = 0;
    let mut scaled: u128 = d;
    proof {
        lemma2_to64();
    }
    while t >= 2 * scaled
        invariant
            t == num,
            d == den,
            d >= 1000,
            scaled <= t,
            scaled >= 1000,
            t < 0x1_0000_0000,
            e < 32,
            scaled == d * pow2(e as nat),
            binade(t as nat, d as nat) == e + binade(t as nat, scaled as nat),
            pow2(e as nat) <= scaled,
        decreases t - scaled,
    {
        proof {
            assert(binade(t as nat, scaled as nat) == 1 + binade(t as nat, (2 * scaled) as nat));
            lemma_pow2_unfold((e + 1) as nat);
            assert(scaled * 2 == d * pow2((e + 1) as nat)) by (nonlinear_arith)
                requires scaled == d * pow2(e as nat), pow2((e + 1) as nat) == 2 * pow2(e as nat);
            if e + 1 > 32 {
                lemma_pow2_strictly_increases(32, (e + 1) as nat);
            }
            lemma2_to64();
        }
        scaled = 2 * scaled;
        e = e + 1;
    }
    let k: u32 = 52 - e;
    // 2^k as an integer.
    let mut p: u128 = 1;
    let mut i: u32 = 0;
    while i < k
        invariant
            i <= k,
            k <= 52,
            p == pow2(i as nat),
        decreases k - i,
    {
        proof {
            lemma_pow2_unfold((i + 1) as nat);
            lemma_pow2_strictly_increases((i + 1) as nat, 64);
            lemma2_to64();
        }
        p = 2 * p;
        i = i + 1;
    }
    proof {
        lemma_pow2_strictly_increases(k as nat, 64);
        lemma2_to64();
        lemma_pow2_pos(k as nat);
    }
    assert(t * p < 0x1_0000_0000 * 0x1_0000_0000_0000_0000) by (nonlinear_arith)
        requires t < 0x1_0000_0000, p < 0x1_0000_0000_0000_0000;
    let m = round_half_even_exec(t * p, d);
    assert(m <= t * p) by (nonlinear_arith)
        requires m == round_half_even((t * p) as nat, d as nat), d >= 1000, t * p < 0x1_0000_0000 * 0x1_0000_0000_0000_0000;
    let tenths = round_half_even_exec(10 * m, p);
    assert(tenths <= 10 * m) by (nonlinear_arith)
        requires tenths == round_half_even((10 * m) as nat, p as nat), p >= 1;
    tenths
}

/// Format a token count for compact display (e.g. `12.3k`, `1.2M`).
pub fn format_token_count(tokens: u32) -> (s: String)
    ensures
        s@ == token_count_text(tokens as nat),
{
    let mut s = String::new();
    if tokens >= 1_000_000 {
        let tenths = quotient_tenths(tokens, 1_000_000);
        push_decimal(&mut s, tenths / 10);
        push_char(&mut s, '.');
        push_decimal(&mut s, tenths % 10);
        push_char(&mut s, 'M');
    } else if tokens >= 1_000 {
        let tenths = quotient_tenths(tokens, 1_000);
        push_decimal(&mut s, tenths / 10);
        push_char(&mut s, '.');
        push_decimal(&mut s, tenths % 10);
        push_char(&mut s, 'k');
    } else {
        push_decimal(&mut s, tokens as u128);
    }
    s
}

/// `text` cut to `keep` characters followed by `...` when it has more than
/// `max` characters; `text` itself otherwise.
pub open spec fn truncated_text(text: Seq<char>, max: nat, keep: nat) -> Seq<char> {
    if text.len() > max {
        text.take(keep as int) + "..."@
    } else {
        text
    }
}

/// Shortens `text` by characters (never inside a multi-byte character):
/// more than `max` characters become the first `keep` followed by `...`.
pub fn truncate_text(text: &str, max: usize, keep: usize) -> (r: String)
    requires
        keep <= max,
    ensures
        r@ == truncated_text(text@, max as nat, keep as nat),
{
    if text.unicode_len() > max {
        let mut r = text.substring_char(0, keep).to_owned();
        r.append("...");
        r
    } else {
        text.to_owned()
    }
}

/// The name shown for the model in the full header: at most 25 characters,
/// long names cut to 22 followed by `...`.
pub fn model_display_name(model: &str) -> (r: String)
    ensures
        r@ == truncated_text(model@, 25, 22),
{
    truncate_text(model, 25, 22)
}

/// A list of strings joined with `sep` between consecutive items.
pub open spec fn joined(parts: Seq<Seq<char>>, sep: Seq<char>) -> Seq<char>
    decreases parts.len(),
{
    if parts.len() == 0 {
        seq![]
    } else if parts.len() == 1 {
        parts[0]
    } else {
        joined(parts.drop_last(), sep) + sep + parts.last()
    }
}

/// The pieces of the usage summary, in order: the session token count when
/// there is one, the context utilisation when known, the cost when shown.
pub open spec fn usage_parts(total_tokens: nat, ctx_percent: Option<u32>, cost: Option<Seq<char>>) -> Seq<Seq<char>> {
    let session: Seq<Seq<char>> = if total_tokens > 0 {
        seq!["session "@ + token_count_text(total_tokens)]
    } else {
        seq![]
    };
    let ctx: Seq<Seq<char>> = match ctx_percent {
        Some(p) => seq!["ctx "@ + decimal_text(p as nat) + "%"@],
        None => seq![],
    };
    let costs: Seq<Seq<char>> = match cost {
        Some(c) => seq![c],
        None => seq![],
    };
    session + ctx + costs
}

/// The usage summary on the right of the header: nothing when there are no
/// tokens and the cost is negligible, or when there is no part to show;
/// else the parts joined with ` · `.
pub open spec fn usage_summary(
    total_tokens: nat,
    ctx_percent: Option<u32>,
    cost: Option<Seq<char>>,
    cost_negligible: bool,
) -> Option<Seq<char>> {
    let parts = usage_parts(total_tokens, ctx_percent, cost);
    if (total_tokens == 0 && cost_negligible) || parts.len() == 0 {
        None
    } else {
        Some(joined(parts, " · "@))
    }
}

/// Builds the token/cost summary for the right side of the header.
/// `ctx_percent` is the context utilisation, when the context window and
/// the last prompt size are known; `cost` is the formatted session cost
/// when it is at or above the display threshold, and `cost_negligible`
/// tells whether it is below that threshold. A cost that compares neither
/// way (not a number) is neither shown nor negligible.
pub fn usage_text(
    total_tokens: u32,
    ctx_percent: Option<u32>,
    cost: Option<&str>,
    cost_negligible: bool,
) -> (r: Option<String>)
    ensures
        r matches Some(s) ==> usage_summary(total_tokens as nat, ctx_percent, opt_view(cost), cost_negligible) == Some(s@),
        r is None <==> usage_summary(total_tokens as nat, ctx_percent, opt_view(cost), cost_negligible) is None,
{
    if total_tokens == 0 && cost_negligible {
        return None;
    }
    let ghost parts = usage_parts(total_tokens as nat, ctx_percent, opt_view(cost));
    let ghost sep = " · "@;
    let mut out = String::new();
    let mut count: usize = 0;
    if total_tokens > 0 {
        out.append("session ");
        let tokens = format_token_count(total_tokens);
        out.append(tokens.as_str());
        count = 1;
        assert(parts[0] == out@);
    }
    assert(out@ == joined(parts.take(count as int), sep)) by {
        if count == 1 {
            assert(parts.take(1) == seq![parts[0]]);
        } else {
            assert(parts.take(0) =~= Seq::<Seq<char>>::empty());
        }
    }
    if let Some(p) = ctx_percent {
        let ghost before = out@;
        let mut part = String::new();
        part.append("ctx ");
        push_decimal(&mut part, p as u128);
        part.append("%");
        assert(parts[count as int] == part@);
        if count > 0 {
            out.append(" · ");
        }
        out.append(part.as_str());
        proof {
            let next = parts.take(count + 1);
            assert(next.drop_last() == parts.take(count as int));
            assert(next.last() == part@);
            if count == 0 {
                assert(next == seq![part@]);
            }
        }
        count = count + 1;
        assert(out@ == joined(parts.take(count as int), sep));
    }
    if let Some(c) = cost {
        assert(parts[count as int] == c@);
        if count > 0 {
            out.append(" · ");
        }
        out.append(c);
        proof {
            let next = parts.take(count + 1);
            assert(next.drop_last() == parts.take(count as int));
            assert(next.last() == c@);
            if count == 0 {
                assert(next == seq![c@]);
            }
        }
        count = count + 1;
        assert(out@ == joined(parts.take(count as int), sep));
    }
    assert(parts.len() == count);
    assert(parts.take(count as int) == parts);
    if count == 0 {
        None
    } else {
        Some(out)
    }
}

/// The view of an optional string.
pub open spec fn opt_view(s: Option<&str>) -> Option<Seq<char>> {
    match s {
        Some(t) => Some(t@),
        None => None,
    }
}

/// The displayed width, in terminal columns, of a string, as
/// `unicode_width::UnicodeWidthStr::width` computes it.
pub uninterp spec fn str_width(s: Seq<char>) -> usize;

/// The displayed width of `s` (`UnicodeWidthStr::width`).
///
/// Trusted: the crate's rules (UAX #11 widths plus emoji and script
/// ligatures) take pages; the result depends on the string alone, so it is
/// named `str_width` and nothing more is claimed of it.
#[verifier::external_body]
fn display_width(s: &str) -> (w: usize)
    ensures
        w == str_width(s@),
{
    s.width()
}

/// What each piece of the header is, so that the renderer can style it.
#[derive(Clone, Copy, Debug, PartialEq, Eq, Structural)]
pub enum SegmentRole {
    /// `[MODE]`, in the mode's colour, bold.
    ModeBadge,
    /// The first letter of the mode label, in the mode's colour.
    ModeInitial,
    /// The model name, muted.
    Model,
    /// The separator between the left and right parts.
    Separator,
    /// The usage summary, muted.
    Usage,
    /// The streaming indicator.
    Streaming,
    /// Unstyled filler: single spaces and the padding.
    Plain,
}

/// One styled piece of the header line.
pub struct HeaderSegment {
    pub text: String,
    pub role: SegmentRole,
}

impl View for HeaderSegment {
    type V = (Seq<char>, SegmentRole);

    open spec fn view(&self) -> (Seq<char>, SegmentRole) {
        (self.text@, self.role)
    }
}

/// Which of the four layouts fits the available width.
#[derive(Clone, Copy, Debug, PartialEq, Eq, Structural)]
pub enum HeaderLayout {
    /// `[MODE] model | <padding> usage ●`, padded to the full width.
    Full { padding: usize },
    /// `[MODE] model`, the model name cut to 10 characters.
    Compact,
    /// `[MODE]` alone.
    Minimal,
    /// The first letter of the mode label.
    ModeInitial,
}

/// The widths that decide the layout.
#[derive(Clone, Copy, Debug, PartialEq, Eq, Structural)]
pub struct HeaderWidths {
    pub mode: usize,
    pub model: usize,
    pub separator: usize,
    pub streaming: usize,
    pub usage: usize,
}

/// Width of the right part: usage and indicator, with a space between them
/// when both take room.
pub open spec fn right_width(w: HeaderWidths) -> int {
    w.streaming + w.usage + if w.streaming > 0 && w.usage > 0 { 1int } else { 0int }
}

/// Width of the left part: badge, a space, model name.
pub open spec fn left_width(w: HeaderWidths) -> int {
    w.mode + 1 + w.model
}

/// The layout chosen for `available` columns. `has_right` tells whether
/// there is usage or a streaming indicator, which brings the separator.
pub open spec fn header_layout(w: HeaderWidths, has_right: bool, available: int) -> HeaderLayout {
    let sep = if has_right { w.separator as int } else { 0int };
    let used = left_width(w) + sep + right_width(w);
    let model_min = if w.model < 10 { w.model as int } else { 10int };
    if available >= used + 2 {
        HeaderLayout::Full { padding: (available - used) as usize }
    } else if available >= w.mode + 1 + model_min {
        HeaderLayout::Compact
    } else if available >= w.mode {
        HeaderLayout::Minimal
    } else {
        HeaderLayout::ModeInitial
    }
}

/// Chooses the layout for `available` columns from the widths of the
/// header's parts: the full layout when everything fits with two columns
/// to spare, else the compact one when the badge and up to ten columns of
/// model name fit, else the badge alone, else the mode's first letter.
pub fn choose_layout(w: HeaderWidths, has_right: bool, available: usize) -> (r: HeaderLayout)
    ensures
        r == header_layout(w, has_right, available as int),
{
    let sep: u128 = if has_right { w.separator as u128 } else { 0 };
    let right: u128 = w.streaming as u128 + w.usage as u128 + if w.streaming > 0 && w.usage > 0 { 1 } else { 0 };
    let used: u128 = w.mode as u128 + 1 + w.model as u128 + sep + right;
    let model_min: u128 = if w.model < 10 { w.model as u128 } else { 10 };
    let avail = available as u128;
    if avail >= used + 2 {
        HeaderLayout::Full { padding: (avail - used) as usize }
    } else if avail >= w.mode as u128 + 1 + model_min {
        HeaderLayout::Compact
    } else if avail >= w.mode as u128 {
        HeaderLayout::Minimal
    } else {
        HeaderLayout::ModeInitial
    }
}

/// The streaming indicator.
pub open spec fn streaming_mark() -> Seq<char> {
    "●"@
}

/// The separator between the left and right parts.
pub open spec fn separator_mark() -> Seq<char> {
    " │ "@
}

/// `[LABEL]`.
pub open spec fn mode_badge_text(label: Seq<char>) -> Seq<char> {
    "["@ + label + "]"@
}

/// The widths of the header's parts.
pub open spec fn header_widths(label: Seq<char>, model: Seq<char>, is_streaming: bool, usage: Option<Seq<char>>) -> HeaderWidths {
    HeaderWidths {
        mode: str_width(mode_badge_text(label)),
        model: str_width(truncated_text(model, 25, 22)),
        separator: str_width(separator_mark()),
        streaming: if is_streaming { str_width(streaming_mark()) } else { 0 },
        usage: match usage {
            Some(u) => str_width(u),
            None => 0,
        },
    }
}

/// The pieces of the header line, in order, for the given content and
/// `available` columns.
pub open spec fn header_line(
    label: Seq<char>,
    model: Seq<char>,
    is_streaming: bool,
    usage: Option<Seq<char>>,
    available: int,
) -> Seq<(Seq<char>, SegmentRole)> {
    let has_right = usage is Some || is_streaming;
    let badge = (mode_badge_text(label), SegmentRole::ModeBadge);
    let space = (" "@, SegmentRole::Plain);
    match header_layout(header_widths(label, model, is_streaming, usage), has_right, available) {
        HeaderLayout::Full { padding } => {
            let left = seq![badge, space, (truncated_text(model, 25, 22), SegmentRole::Model)];
            let sep = if has_right { seq![(separator_mark(), SegmentRole::Separator)] } else { seq![] };
            let pad = if padding > 0 { seq![(spaces(padding as nat), SegmentRole::Plain)] } else { seq![] };
            let used = match usage {
                Some(u) => if is_streaming {
                    seq![(u, SegmentRole::Usage), space]
                } else {
                    seq![(u, SegmentRole::Usage)]
                },
                None => seq![],
            };
            let mark = if is_streaming { seq![(streaming_mark(), SegmentRole::Streaming)] } else { seq![] };
            left + sep + pad + used + mark
        },
        HeaderLayout::Compact => seq![badge, space, (truncated_text(model, 10, 7), SegmentRole::Model)],
        HeaderLayout::Minimal => seq![badge],
        HeaderLayout::ModeInitial => seq![
            (label.take(if label.len() < 1 { label.len() as int } else { 1int }), SegmentRole::ModeInitial),
        ],
    }
}

fn segment(text: String, role: SegmentRole) -> (s: HeaderSegment)
    ensures
        s@ == (text@, role),
{
    HeaderSegment { text, role }
}

fn literal(s: &str) -> (r: String)
    ensures
        r@ == s@,
{
    s.to_owned()
}

/// Lays out the header line: `[MODE] model | ... usage ●` when it fits in
/// `available` columns, falling back to the compact, minimal and one-letter
/// forms. A mode label must start with a one-byte (ASCII) character, since
/// the one-letter form keeps its first byte.
pub fn plan_header(
    mode_label: &str,
    model: &str,
    is_streaming: bool,
    usage: Option<&str>,
    available: usize,
) -> (r: Vec<HeaderSegment>)
    requires
        mode_label@.len() > 0 ==> (mode_label@[0] as u32) < 0x80,
    ensures
        r@.len() == header_line(mode_label@, model@, is_streaming, opt_view(usage), available as int).len(),
        forall|i: int| 0 <= i < r@.len() ==> #[trigger] r@[i]@ == header_line(mode_label@, model@, is_streaming, opt_view(usage), available as int)[i],
{
    let ghost line = header_line(mode_label@, model@, is_streaming, opt_view(usage), available as int);
    let mut badge = literal("[");
    badge.append(mode_label);
    badge.append("]");
    let model_name = model_display_name(model);
    let separator = " │ ";
    let mark = "●";
    let widths = HeaderWidths {
        mode: display_width(badge.as_str()),
        model: display_width(model_name.as_str()),
        separator: display_width(separator),
        streaming: if is_streaming { display_width(mark) } else { 0 },
        usage: match usage {
            Some(u) => display_width(u),
            None => 0,
        },
    };
    let has_right = usage.is_some() || is_streaming;
    let mut segments: Vec<HeaderSegment> = Vec::new();
    match choose_layout(widths, has_right, available) {
        HeaderLayout::Full { padding } => {
            segments.push(segment(badge, SegmentRole::ModeBadge));
            segments.push(segment(literal(" "), SegmentRole::Plain));
            segments.push(segment(model_name, SegmentRole::Model));
            if has_right {
                segments.push(segment(literal(separator), SegmentRole::Separator));
            }
            if padding > 0 {
                let mut pad = String::new();
                push_spaces(&mut pad, padding);
                segments.push(segment(pad, SegmentRole::Plain));
            }
            if let Some(u) = usage {
                segments.push(segment(literal(u), SegmentRole::Usage));
                if is_streaming {
                    segments.push(segment(literal(" "), SegmentRole::Plain));
                }
            }
            if is_streaming {
                segments.push(segment(literal(mark), SegmentRole::Streaming));
            }
        },
        HeaderLayout::Compact => {
            segments.push(segment(badge, SegmentRole::ModeBadge));
            segments.push(segment(literal(" "), SegmentRole::Plain));
            segments.push(segment(truncate_text(model, 10, 7), SegmentRole::Model));
        },
        HeaderLayout::Minimal => {
            segments.push(segment(badge, SegmentRole::ModeBadge));
        },
        HeaderLayout::ModeInitial => {
            let n: usize = if mode_label.unicode_len() < 1 { 0 } else { 1 };
            segments.push(segment(literal(mode_label.substring_char(0, n)), SegmentRole::ModeInitial));
        },
    }
    assert(segments@.map_values(|s: HeaderSegment| s@) == line);
    segments
}

/// In the full layout the header fills the available width exactly: left
/// part, separator (when shown), padding and right part add up to it.
/// Spelled out: badge, one space, model name, the separator when shown,
/// the padding, the usage summary, the streaming mark and the one space
/// between those two when both take room add up to `available`; and the
/// full layout is chosen only when that leaves at least two columns of
/// padding.
pub proof fn lemma_full_layout_fills_width(w: HeaderWidths, has_right: bool, available: usize)
    ensures
        header_layout(w, has_right, available as int) matches HeaderLayout::Full { padding } ==> {
            &&& w.mode + 1 + w.model + (if has_right { w.separator as int } else { 0int }) + padding
                + w.usage + w.streaming + (if w.streaming > 0 && w.usage > 0 { 1int } else { 0int })
                == available
            &&& padding >= 2
        },
        left_width(w) + (if has_right { w.separator as int } else { 0int }) + right_width(w) + 2
            <= available ==> header_layout(w, has_right, available as int) is Full,
{
}

/// In the full layout the usage summary, when present, is placed last
/// before the streaming mark, right after the padding: nothing but the
/// padding lies between the left part and it.
pub proof fn lemma_full_layout_shows_usage(
    label: Seq<char>,
    model: Seq<char>,
    is_streaming: bool,
    usage: Seq<char>,
    available: usize,
)
    ensures
        ({
            let w = header_widths(label, model, is_streaming, Some(usage));
            let line = header_line(label, model, is_streaming, Some(usage), available as int);
            header_layout(w, true, available as int) matches HeaderLayout::Full { padding } ==> {
                &&& line.len() == (if padding > 0 { 6int } else { 5int }) + (if is_streaming { 2int } else { 0int })
                &&& line[line.len() - (if is_streaming { 3int } else { 1int })] == (usage, SegmentRole::Usage)
                &&& padding > 0 ==> line[4] == (spaces(padding as nat), SegmentRole::Plain)
                &&& w.mode + 1 + w.model + w.separator + padding + str_width(usage) + w.streaming
                    + (if w.streaming > 0 && str_width(usage) > 0 { 1int } else { 0int }) == available
            }
        }),
{
    let w = header_widths(label, model, is_streaming, Some(usage));
    let line = header_line(label, model, is_streaming, Some(usage), available as int);
    if let HeaderLayout::Full { padding } = header_layout(w, true, available as int) {
        let badge = (mode_badge_text(label), SegmentRole::ModeBadge);
        let space = (" "@, SegmentRole::Plain);
        let left = seq![badge, space, (truncated_text(model, 25, 22), SegmentRole::Model)];
        let sep = seq![(separator_mark(), SegmentRole::Separator)];
        let pad: Seq<(Seq<char>, SegmentRole)> = if padding > 0 { seq![(spaces(padding as nat), SegmentRole::Plain)] } else { seq![] };
        let used: Seq<(Seq<char>, SegmentRole)> = if is_streaming { seq![(usage, SegmentRole::Usage), space] } else { seq![(usage, SegmentRole::Usage)] };
        let mark: Seq<(Seq<char>, SegmentRole)> = if is_streaming { seq![(streaming_mark(), SegmentRole::Streaming)] } else { seq![] };
        assert(line == left + sep + pad + used + mark);
        if padding > 0 {
            assert((left + sep + pad)[4] == (spaces(padding as nat), SegmentRole::Plain));
        }
        let n = (left + sep + pad).len() as int;
        assert((left + sep + pad + used + mark)[n] == (usage, SegmentRole::Usage));
    }
}

/// The model name shown in the full header has at most 25 characters, and
/// is the whole name when that has at most 25.
pub proof fn lemma_model_display_bounded(model: Seq<char>)
    ensures
        truncated_text(model, 25, 22).len() <= 25,
        model.len() <= 25 ==> truncated_text(model, 25, 22) == model,
{
    reveal_strlit("...");
}

/// The usage summary spelled out: with session tokens it starts with
/// `session <count>`, followed by `ctx <p>%` whenever a context figure is
/// given and by the cost whenever one is shown, each after ` · `; the cost
/// never removes the context figure.
pub proof fn lemma_usage_with_tokens(total_tokens: nat, ctx_percent: Option<u32>, cost: Option<Seq<char>>, cost_negligible: bool)
    requires
        total_tokens > 0,
    ensures
        ({
            let session = "session "@ + token_count_text(total_tokens);
            let with_ctx = match ctx_percent {
                Some(p) => session + " · "@ + "ctx "@ + decimal_text(p as nat) + "%"@,
                None => session,
            };
            let full = match cost {
                Some(c) => with_ctx + " · "@ + c,
                None => with_ctx,
            };
            usage_summary(total_tokens, ctx_percent, cost, cost_negligible) == Some(full)
        }),
{
    let parts = usage_parts(total_tokens, ctx_percent, cost);
    let sep = " · "@;
    let session = "session "@ + token_count_text(total_tokens);
    assert(parts[0] == session);
    assert(parts.take(1) == seq![session]);
    reveal_with_fuel(joined, 2);
    if ctx_percent is Some {
        assert(parts.take(2).drop_last() == parts.take(1));
        if cost is Some {
            assert(parts.take(3).drop_last() == parts.take(2));
            assert(parts.take(3) == parts);
            assert(joined(parts.take(2), sep) == joined(parts.take(1), sep) + sep + parts[1]);
        } else {
            assert(parts.take(2) == parts);
        }
    } else if cost is Some {
        assert(parts.take(2).drop_last() == parts.take(1));
        assert(parts.take(2) == parts);
    } else {
        assert(parts.take(1) == parts);
    }
}

/// Without session tokens and with a cost that is not negligible, the
/// summary is the context figure and the cost, whichever are given.
pub proof fn lemma_usage_without_tokens(ctx_percent: Option<u32>, cost: Option<Seq<char>>)
    ensures
        ({
            let ctx = match ctx_percent {
                Some(p) => Some("ctx "@ + decimal_text(p as nat) + "%"@),
                None => None,
            };
            let expected = match (ctx, cost) {
                (Some(x), Some(c)) => Some(x + " · "@ + c),
                (Some(x), None) => Some(x),
                (None, Some(c)) => Some(c),
                (None, None) => None,
            };
            usage_summary(0, ctx_percent, cost, false) == expected
        }),
{
    let parts = usage_parts(0, ctx_percent, cost);
    let sep = " · "@;
    reveal_with_fuel(joined, 2);
    if ctx_percent is Some && cost is Some {
        assert(parts.drop_last() == seq![parts[0]]);
    }
}

/// The usage summary is absent exactly when there are no session tokens
/// and either the cost is negligible or there is neither a context figure
/// nor a cost to show.
pub proof fn lemma_usage_absent(
    total_tokens: nat,
    ctx_percent: Option<u32>,
    cost: Option<Seq<char>>,
    cost_negligible: bool,
)
    ensures
        usage_summary(total_tokens, ctx_percent, cost, cost_negligible) is None <==> (total_tokens == 0 && (
        cost_negligible || (ctx_percent is None && cost is None))),
{
    let parts = usage_parts(total_tokens, ctx_percent, cost);
    if total_tokens > 0 || ctx_percent is Some || cost is Some {
        assert(parts.len() > 0);
    }
}

} // verus!
