use vstd::prelude::*;

use crate::text::{chars_of, decimal, push_decimal, push_str, string_from_chars};

verus! {

/// How a stat value shows its sign.
#[derive(Clone, Copy, PartialEq, Eq, Structural, Debug)]
pub enum SignMode {
    /// Only a minus sign for negative values.
    Default,
    /// `+` for zero and positive values, `-` for negative ones.
    ShowSign,
    /// No sign: the magnitude.
    Absolute,
}

/// The text around a stat value.
pub struct ValueTemplate {
    pub prefix: String,
    pub suffix: String,
    pub sign_mode: SignMode,
}

/// The colours a stat line uses.
#[derive(Clone, Copy, PartialEq, Eq, Structural, Debug)]
pub enum SegColor {
    Text,
    Positive,
    Negative,
    Gold,
    Gray,
}

/// `n` in decimal, with a leading `-` when negative.
pub open spec fn signed_decimal(n: int) -> Seq<char> {
    if n < 0 { seq!['-'] + decimal((-n) as nat) } else { decimal(n as nat) }
}

/// A displayed (already rounded) value `n` written with a sign mode.
pub open spec fn signed_text(n: int, mode: SignMode) -> Seq<char> {
    match mode {
        SignMode::Default => signed_decimal(n),
        SignMode::ShowSign => if n >= 0 { seq!['+'] + decimal(n as nat) } else { signed_decimal(n) },
        SignMode::Absolute => decimal(if n < 0 { (-n) as nat } else { n as nat }),
    }
}

/// The text of the displayed value `display` (the stat value rounded, in
/// percent for percentage stats) with `template`'s prefix, sign and suffix.
pub fn format_display_value(display: i32, template: &ValueTemplate) -> (s: String)
    ensures
        s@ == template.prefix@ + signed_text(display as int, template.sign_mode) + template.suffix@,
{
    let mut out: Vec<char> = Vec::new();
    push_str(&mut out, template.prefix.as_str());
    let ghost before = out@;
    let wide = display as i64;
    let magnitude: u64 = if wide < 0 { (-wide) as u64 } else { wide as u64 };
    match template.sign_mode {
        SignMode::Default => {
            if wide < 0 {
                out.push('-');
            }
        },
        SignMode::ShowSign => {
            if wide < 0 {
                out.push('-');
            } else {
                out.push('+');
            }
        },
        SignMode::Absolute => {},
    }
    push_decimal(&mut out, magnitude);
    proof {
        assert(out@ =~= before + signed_text(display as int, template.sign_mode));
    }
    push_str(&mut out, template.suffix.as_str());
    string_from_chars(&out)
}

/// The template a value uses: the negative template, if there is one, for a negative value.
pub fn pick_template<'a>(is_negative: bool, template: &'a ValueTemplate, negative: &'a Option<ValueTemplate>) -> (t: &'a ValueTemplate)
    ensures
        t == (match *negative {
            Some(n) => if is_negative { &n } else { template },
            None => template,
        }),
{
    if is_negative {
        if let Some(n) = negative {
            return n;
        }
    }
    template
}

/// The colour of a value by whether it helps: a non-negative value helps
/// unless lower is better.
pub fn benefit_color(nonnegative: bool, lower_is_better: bool) -> (c: SegColor)
    ensures
        c == (if nonnegative != lower_is_better { SegColor::Positive } else { SegColor::Negative }),
{
    if nonnegative != lower_is_better { SegColor::Positive } else { SegColor::Negative }
}

/// The tier label `T<tier + 1>`.
pub open spec fn tier_text(tier: nat) -> Seq<char> {
    seq!['T'] + decimal(tier + 1)
}

/// The tier label `T<tier + 1>` (tiers count from 0, labels from 1).
pub fn tier_tag(tier: usize) -> (s: String)
    requires
        tier < usize::MAX,
    ensures
        s@ == tier_text(tier as nat),
{
    let mut out: Vec<char> = Vec::new();
    out.push('T');
    push_decimal(&mut out, tier as u64 + 1);
    assert(out@ =~= tier_text(tier as nat));
    string_from_chars(&out)
}

/// A stat value as a stat line shows it: rounded to a whole number, as a
/// plain number and as a percentage, and which side of zero it lies on.
#[derive(Clone, Copy, PartialEq, Eq, Structural, Debug)]
pub struct ShownValue {
    pub plain: i32,
    pub percent: i32,
    /// The value is below zero.
    pub negative: bool,
    /// The value is zero or above.
    pub nonnegative: bool,
}

/// The value zero, shown for values that are missing.
pub open spec fn zero_value() -> ShownValue {
    ShownValue { plain: 0, percent: 0, negative: false, nonnegative: true }
}

/// Value `i` of `values`, or zero past the end.
pub open spec fn value_at(values: Seq<ShownValue>, i: usize) -> ShownValue {
    if i < values.len() { values[i as int] } else { zero_value() }
}

/// The template a value is written with: the negative template, if there is
/// one, for a value below zero.
pub open spec fn chosen_template(v: ShownValue, template: ValueTemplate, negative: Option<ValueTemplate>) -> ValueTemplate {
    match negative {
        Some(n) => if v.negative { n } else { template },
        None => template,
    }
}

/// The text of `v` written with its template, as a percentage or as a plain number.
pub open spec fn value_text(v: ShownValue, is_percent: bool, template: ValueTemplate, negative: Option<ValueTemplate>) -> Seq<char> {
    let t = chosen_template(v, template, negative);
    t.prefix@ + signed_text((if is_percent { v.percent } else { v.plain }) as int, t.sign_mode) + t.suffix@
}

/// The colour of a value that helps (positive) or hurts (negative).
pub open spec fn gain_color(nonnegative: bool, lower_is_better: bool) -> SegColor {
    if nonnegative != lower_is_better { SegColor::Positive } else { SegColor::Negative }
}

fn value_of(values: &Vec<ShownValue>, i: usize) -> (v: ShownValue)
    ensures
        v == value_at(values@, i),
{
    if i < values.len() {
        values[i]
    } else {
        ShownValue { plain: 0, percent: 0, negative: false, nonnegative: true }
    }
}

/// The text of `v` with the template it calls for.
pub fn pick_and_format(v: ShownValue, template: &ValueTemplate, negative: &Option<ValueTemplate>, is_percent: bool) -> (s: String)
    ensures
        s@ == value_text(v, is_percent, *template, *negative),
{
    let t = pick_template(v.negative, template, negative);
    let display = if is_percent { v.percent } else { v.plain };
    format_display_value(display, t)
}

/// A piece of a stat description: a value (by its index among the stat's
/// values, with how it is written) or a fixed label.
pub enum FormatSpan {
    Value {
        index: usize,
        is_percent: bool,
        lower_is_better: bool,
        template: ValueTemplate,
        negative_template: Option<ValueTemplate>,
    },
    Label(String),
}

/// A coloured piece of text of a stat line.
pub struct Segment {
    pub text: String,
    pub color: SegColor,
}

/// The texts and colours of `v`.
pub open spec fn segs(v: Seq<Segment>) -> Seq<(Seq<char>, SegColor)> {
    v.map_values(|s: Segment| (s.text@, s.color))
}

fn push_seg(out: &mut Vec<Segment>, text: String, color: SegColor)
    ensures
        segs(final(out)@) == segs(old(out)@).push((text@, color)),
{
    let ghost t = text@;
    out.push(Segment { text, color });
    assert(segs(out@) =~= segs(old(out)@).push((t, color)));
}

fn push_lit(out: &mut Vec<Segment>, text: &str, color: SegColor)
    ensures
        segs(final(out)@) == segs(old(out)@).push((text@, color)),
{
    push_seg(out, string_from_chars(&chars_of(text)), color);
}

/// The pieces of every span of `spans`, in order, each given by `f`.
pub open spec fn over_spans(spans: Seq<FormatSpan>, f: spec_fn(FormatSpan) -> Seq<(Seq<char>, SegColor)>) -> Seq<(Seq<char>, SegColor)>
    decreases spans.len(),
{
    if spans.len() == 0 {
        Seq::empty()
    } else {
        over_spans(spans.drop_last(), f) + f(spans.last())
    }
}

proof fn lemma_over_spans_step(spans: Seq<FormatSpan>, f: spec_fn(FormatSpan) -> Seq<(Seq<char>, SegColor)>, k: int)
    requires
        0 <= k < spans.len(),
    ensures
        over_spans(spans.take(k + 1), f) == over_spans(spans.take(k), f) + f(spans[k]),
{
    assert(spans.take(k + 1).drop_last() =~= spans.take(k));
}

/// A label in `color`.
pub open spec fn label_seg(text: String, color: SegColor) -> Seq<(Seq<char>, SegColor)> {
    seq![(text@, color)]
}

/// A span with fixed values: each value in the colour of whether it helps.
pub open spec fn fixed_span(values: Seq<ShownValue>) -> spec_fn(FormatSpan) -> Seq<(Seq<char>, SegColor)> {
    |span: FormatSpan| match span {
        FormatSpan::Value { index, is_percent, lower_is_better, template, negative_template } => {
            let v = value_at(values, index);
            seq![(value_text(v, is_percent, template, negative_template), gain_color(v.nonnegative, lower_is_better))]
        },
        FormatSpan::Label(text) => label_seg(text, SegColor::Text),
    }
}

/// Range `i` of `ranges`, or zero to zero past the end.
pub open spec fn range_at(ranges: Seq<(ShownValue, ShownValue)>, i: usize) -> (ShownValue, ShownValue) {
    if i < ranges.len() { ranges[i as int] } else { (zero_value(), zero_value()) }
}

/// A span with value ranges: `min - max`, each end in the colour of whether it helps.
pub open spec fn range_span(ranges: Seq<(ShownValue, ShownValue)>) -> spec_fn(FormatSpan) -> Seq<(Seq<char>, SegColor)> {
    |span: FormatSpan| match span {
        FormatSpan::Value { index, is_percent, lower_is_better, template, negative_template } => {
            let (lo, hi) = range_at(ranges, index);
            seq![
                (value_text(lo, is_percent, template, negative_template), gain_color(lo.nonnegative, lower_is_better)),
                (" - "@, SegColor::Text),
                (value_text(hi, is_percent, template, negative_template), gain_color(hi.nonnegative, lower_is_better)),
            ]
        },
        FormatSpan::Label(text) => label_seg(text, SegColor::Text),
    }
}

/// A span all in one colour.
pub open spec fn uniform_span(values: Seq<ShownValue>, color: SegColor) -> spec_fn(FormatSpan) -> Seq<(Seq<char>, SegColor)> {
    |span: FormatSpan| match span {
        FormatSpan::Value { index, is_percent, template, negative_template, .. } => {
            seq![(value_text(value_at(values, index), is_percent, template, negative_template), color)]
        },
        FormatSpan::Label(text) => label_seg(text, color),
    }
}

/// A span comparing values: old (red) ` -> ` new (green).
pub open spec fn inline_span(old: Seq<ShownValue>, new: Seq<ShownValue>) -> spec_fn(FormatSpan) -> Seq<(Seq<char>, SegColor)> {
    |span: FormatSpan| match span {
        FormatSpan::Value { index, is_percent, template, negative_template, .. } => seq![
            (value_text(value_at(old, index), is_percent, template, negative_template), SegColor::Negative),
            (" -> "@, SegColor::Text),
            (value_text(value_at(new, index), is_percent, template, negative_template), SegColor::Positive),
        ],
        FormatSpan::Label(text) => label_seg(text, SegColor::Text),
    }
}

/// A span of a stat snapshot: the current value, and, when a preview
/// differs from it, ` → ` and the previewed value in the colour of whether
/// the change helps (`rises`: the preview is above the current value).
pub open spec fn snapshot_span(current: ShownValue, preview: ShownValue, show: bool, rises: bool) -> spec_fn(FormatSpan) -> Seq<(Seq<char>, SegColor)> {
    |span: FormatSpan| match span {
        FormatSpan::Value { is_percent, lower_is_better, template, negative_template, .. } => {
            seq![(value_text(current, is_percent, template, negative_template), SegColor::Text)] + if show {
                seq![
                    (" \u{2192} "@, SegColor::Text),
                    (value_text(preview, is_percent, template, negative_template), if rises != lower_is_better { SegColor::Positive } else { SegColor::Negative }),
                ]
            } else {
                Seq::empty()
            }
        },
        FormatSpan::Label(text) => label_seg(text, SegColor::Text),
    }
}

/// Flag `i` of `flags`, or false past the end.
pub open spec fn flag_at(flags: Seq<bool>, i: usize) -> bool {
    i < flags.len() && flags[i as int]
}

/// A span of effective values: the effective value (green when it differs
/// from the raw value), then ` (raw)` in gray when they differ.
pub open spec fn effective_span(effective: Seq<ShownValue>, raw: Seq<ShownValue>, differs: Seq<bool>) -> spec_fn(FormatSpan) -> Seq<(Seq<char>, SegColor)> {
    |span: FormatSpan| match span {
        FormatSpan::Value { index, is_percent, template, negative_template, .. } => {
            let d = flag_at(differs, index);
            seq![(value_text(value_at(effective, index), is_percent, template, negative_template), if d { SegColor::Positive } else { SegColor::Text })]
                + if d {
                seq![
                    (" ("@, SegColor::Gray),
                    (value_text(value_at(raw, index), is_percent, template, negative_template), SegColor::Gray),
                    (")"@, SegColor::Gray),
                ]
            } else {
                Seq::empty()
            }
        },
        FormatSpan::Label(text) => label_seg(text, SegColor::Text),
    }
}

/// The values and tier of one side of a modifier comparison.
pub struct DiffSide {
    pub values: Vec<ShownValue>,
    pub tier: usize,
}

/// How a stat line is drawn. `Diff`'s `values_differ` tells whether the two
/// sides' values differ; `Effective`'s `differs` whether each effective value
/// differs from its raw value; `Snapshot`'s `changed` whether the preview
/// differs from the current value and `rises` whether it is above it.
pub enum StatRenderMode {
    Fixed { values: Vec<ShownValue> },
    Range { ranges: Vec<(ShownValue, ShownValue)> },
    Diff { old: Option<DiffSide>, new: Option<DiffSide>, rerolled: bool, values_differ: bool },
    Effective { effective: Vec<ShownValue>, raw: Vec<ShownValue>, differs: Vec<bool> },
    Snapshot { current: ShownValue, preview: Option<ShownValue>, changed: bool, rises: bool },
}

/// ` [T<tier + 1>]` in `color`.
pub open spec fn tier_suffix(tier: nat, color: SegColor) -> Seq<(Seq<char>, SegColor)> {
    seq![(" ["@ + tier_text(tier) + "]"@, color)]
}

/// The tiers closing an inline comparison: ` [T<old>->T<new>]` with the old
/// tier red and the new green when they differ, else ` [T<old>]`.
pub open spec fn inline_tiers(old: nat, new: nat) -> Seq<(Seq<char>, SegColor)> {
    if old != new {
        seq![
            (" ["@, SegColor::Text),
            (tier_text(old), SegColor::Negative),
            ("->"@, SegColor::Text),
            (tier_text(new), SegColor::Positive),
            ("]"@, SegColor::Text),
        ]
    } else {
        tier_suffix(old, SegColor::Text)
    }
}

/// A modifier comparison: `[empty]` in gray with neither side; a new
/// modifier in green and a lost one in red; a changed one inline; an
/// unchanged one in gold if it was rerolled, else in the text colour.
pub open spec fn diff_segments(
    spans: Seq<FormatSpan>,
    old: Option<DiffSide>,
    new: Option<DiffSide>,
    rerolled: bool,
    values_differ: bool,
) -> Seq<(Seq<char>, SegColor)> {
    match (old, new) {
        (None, None) => seq![("[empty]"@, SegColor::Gray)],
        (None, Some(n)) => over_spans(spans, uniform_span(n.values@, SegColor::Positive)) + tier_suffix(n.tier as nat, SegColor::Positive),
        (Some(o), None) => over_spans(spans, uniform_span(o.values@, SegColor::Negative)) + tier_suffix(o.tier as nat, SegColor::Negative),
        (Some(o), Some(n)) => if values_differ || o.tier != n.tier {
            over_spans(spans, inline_span(o.values@, n.values@)) + inline_tiers(o.tier as nat, n.tier as nat)
        } else if rerolled {
            over_spans(spans, uniform_span(o.values@, SegColor::Gold)) + tier_suffix(o.tier as nat, SegColor::Gold)
        } else {
            over_spans(spans, uniform_span(o.values@, SegColor::Text)) + tier_suffix(o.tier as nat, SegColor::Text)
        },
    }
}

/// The pieces of a stat line drawn in `mode`.
pub open spec fn line_segments(spans: Seq<FormatSpan>, mode: StatRenderMode) -> Seq<(Seq<char>, SegColor)> {
    match mode {
        StatRenderMode::Fixed { values } => over_spans(spans, fixed_span(values@)),
        StatRenderMode::Range { ranges } => over_spans(spans, range_span(ranges@)),
        StatRenderMode::Diff { old, new, rerolled, values_differ } => diff_segments(spans, old, new, rerolled, values_differ),
        StatRenderMode::Effective { effective, raw, differs } => over_spans(spans, effective_span(effective@, raw@, differs@)),
        StatRenderMode::Snapshot { current, preview, changed, rises } => over_spans(
            spans,
            snapshot_span(
                current,
                match preview { Some(p) => p, None => current },
                preview is Some && changed,
                rises,
            ),
        ),
    }
}

/// The tiers of a mode's comparison sides can be numbered from 1.
pub open spec fn tiers_fit(mode: StatRenderMode) -> bool {
    match mode {
        StatRenderMode::Diff { old, new, .. } => (old matches Some(o) ==> o.tier < usize::MAX)
            && (new matches Some(n) ==> n.tier < usize::MAX),
        _ => true,
    }
}

/// The text of a stat description with fixed values, without colours.
pub open spec fn plain_text(spans: Seq<FormatSpan>, values: Seq<ShownValue>) -> Seq<char>
    decreases spans.len(),
{
    if spans.len() == 0 {
        Seq::empty()
    } else {
        plain_text(spans.drop_last(), values) + match spans.last() {
            FormatSpan::Value { index, is_percent, template, negative_template, .. } => value_text(
                value_at(values, index),
                is_percent,
                template,
                negative_template,
            ),
            FormatSpan::Label(text) => text@,
        }
    }
}

/// The texts of `pieces` written one after another.
pub open spec fn joined(pieces: Seq<(Seq<char>, SegColor)>) -> Seq<char>
    decreases pieces.len(),
{
    if pieces.len() == 0 {
        Seq::empty()
    } else {
        joined(pieces.drop_last()) + pieces.last().0
    }
}

proof fn lemma_joined_concat(a: Seq<(Seq<char>, SegColor)>, b: Seq<(Seq<char>, SegColor)>)
    ensures
        joined(a + b) == joined(a) + joined(b),
    decreases b.len(),
{
    if b.len() == 0 {
        assert(a + b =~= a);
    } else {
        lemma_joined_concat(a, b.drop_last());
        assert((a + b).drop_last() =~= a + b.drop_last());
    }
}

/// The plain text of a stat description is the text of its fixed-value line
/// with the colours left out.
pub proof fn lemma_plain_text_is_fixed_line(spans: Seq<FormatSpan>, values: Seq<ShownValue>)
    ensures
        plain_text(spans, values) == joined(over_spans(spans, fixed_span(values))),
    decreases spans.len(),
{
    if spans.len() > 0 {
        lemma_plain_text_is_fixed_line(spans.drop_last(), values);
        let f = fixed_span(values);
        lemma_joined_concat(over_spans(spans.drop_last(), f), f(spans.last()));
        let piece = f(spans.last());
        assert(joined(piece) == joined(piece.drop_last()) + piece.last().0);
        assert(piece.drop_last().len() == 0);
        assert(joined(piece.drop_last()) =~= Seq::<char>::empty());
        assert(joined(piece) =~= piece.last().0);
    }
}

/// A line drawn in one colour has one piece per span, every piece in that
/// colour, and its text is the plain text of the stat description.
pub proof fn lemma_uniform_line(spans: Seq<FormatSpan>, values: Seq<ShownValue>, color: SegColor)
    ensures
        over_spans(spans, uniform_span(values, color)).len() == spans.len(),
        forall|i: int| 0 <= i < spans.len() ==> (#[trigger] over_spans(spans, uniform_span(values, color))[i]).1 == color,
        joined(over_spans(spans, uniform_span(values, color))) == plain_text(spans, values),
    decreases spans.len(),
{
    if spans.len() > 0 {
        let f = uniform_span(values, color);
        lemma_uniform_line(spans.drop_last(), values, color);
        let rest = over_spans(spans.drop_last(), f);
        let piece = f(spans.last());
        assert(piece.len() == 1);
        assert(over_spans(spans, f) == rest + piece);
        assert forall|i: int| 0 <= i < spans.len() implies (#[trigger] over_spans(spans, f)[i]).1 == color by {
            if i < rest.len() {
                assert(over_spans(spans, f)[i] == rest[i]);
            } else {
                assert(over_spans(spans, f)[i] == piece[0]);
            }
        }
        lemma_joined_concat(rest, piece);
        assert(joined(piece) == joined(piece.drop_last()) + piece.last().0);
        assert(joined(piece.drop_last()) =~= Seq::<char>::empty());
        assert(joined(piece) =~= piece.last().0);
    }
}

/// In the stats panel, a changed preview of a value is shown after an arrow
/// in the positive colour exactly when the change helps: a rise of a stat
/// where higher is better, or a fall of one where lower is better; else in
/// the negative colour. The current value is in the text colour, and without
/// a change only the current value is shown.
pub proof fn lemma_snapshot_change_colour(
    index: usize,
    is_percent: bool,
    lower_is_better: bool,
    template: ValueTemplate,
    negative_template: Option<ValueTemplate>,
    current: ShownValue,
    preview: ShownValue,
    changed: bool,
    rises: bool,
)
    ensures
        ({
            let span = FormatSpan::Value { index, is_percent, lower_is_better, template, negative_template };
            let line = over_spans(seq![span], snapshot_span(current, preview, changed, rises));
            &&& line.len() == (if changed { 3int } else { 1int })
            &&& line[0] == (value_text(current, is_percent, template, negative_template), SegColor::Text)
            &&& changed ==> line[1] == (" \u{2192} "@, SegColor::Text)
            &&& changed ==> line[2].0 == value_text(preview, is_percent, template, negative_template)
            &&& changed && rises && !lower_is_better ==> line[2].1 == SegColor::Positive
            &&& changed && !rises && lower_is_better ==> line[2].1 == SegColor::Positive
            &&& changed && rises && lower_is_better ==> line[2].1 == SegColor::Negative
            &&& changed && !rises && !lower_is_better ==> line[2].1 == SegColor::Negative
        }),
{
    let span = FormatSpan::Value { index, is_percent, lower_is_better, template, negative_template };
    let f = snapshot_span(current, preview, changed, rises);
    assert(seq![span].drop_last() =~= Seq::<FormatSpan>::empty());
    assert(over_spans(Seq::<FormatSpan>::empty(), f) == Seq::<(Seq<char>, SegColor)>::empty());
    assert(seq![span].last() == span);
    assert(over_spans(seq![span], f) =~= f(span));
}

/// The stats panel's line is the snapshot line of its values: with a preview
/// that differs, the previewed value is compared; without one, or without a
/// difference, only the current value is shown.
pub proof fn lemma_stats_panel_line(spans: Seq<FormatSpan>, current: ShownValue, preview: Option<ShownValue>, changed: bool, rises: bool)
    ensures
        line_segments(spans, (StatRenderMode::Snapshot { current, preview, changed, rises })) == over_spans(
            spans,
            snapshot_span(current, match preview { Some(p) => p, None => current }, preview is Some && changed, rises),
        ),
        preview is None ==> line_segments(spans, (StatRenderMode::Snapshot { current, preview, changed, rises }))
            == over_spans(spans, snapshot_span(current, current, false, rises)),
{
}

fn flag_of(flags: &Vec<bool>, i: usize) -> (b: bool)
    ensures
        b == flag_at(flags@, i),
{
    i < flags.len() && flags[i]
}

fn range_of(ranges: &Vec<(ShownValue, ShownValue)>, i: usize) -> (r: (ShownValue, ShownValue))
    ensures
        r == range_at(ranges@, i),
{
    if i < ranges.len() {
        ranges[i]
    } else {
        let z = ShownValue { plain: 0, percent: 0, negative: false, nonnegative: true };
        (z, z)
    }
}

fn collect_fixed(spans: &Vec<FormatSpan>, values: &Vec<ShownValue>) -> (out: Vec<Segment>)
    ensures
        segs(out@) == over_spans(spans@, fixed_span(values@)),
{
    let ghost f = fixed_span(values@);
    let mut out: Vec<Segment> = Vec::new();
    let mut k: usize = 0;
    while k < spans.len()
        invariant
            0 <= k <= spans.len(),
            f == fixed_span(values@),
            segs(out@) == over_spans(spans@.take(k as int), f),
        decreases spans.len() - k,
    {
        proof {
            lemma_over_spans_step(spans@, f, k as int);
        }
        let ghost before = segs(out@);
        match &spans[k] {
            FormatSpan::Value { index, is_percent, lower_is_better, template, negative_template } => {
                let v = value_of(values, *index);
                let text = pick_and_format(v, template, negative_template, *is_percent);
                push_seg(&mut out, text, benefit_color(v.nonnegative, *lower_is_better));
            },
            FormatSpan::Label(text) => {
                push_seg(&mut out, text.clone(), SegColor::Text);
            },
        }
        assert(segs(out@) =~= before + f(spans@[k as int]));
        k = k + 1;
    }
    assert(spans@.take(spans.len() as int) =~= spans@);
    out
}

fn collect_range(spans: &Vec<FormatSpan>, ranges: &Vec<(ShownValue, ShownValue)>) -> (out: Vec<Segment>)
    ensures
        segs(out@) == over_spans(spans@, range_span(ranges@)),
{
    let ghost f = range_span(ranges@);
    let mut out: Vec<Segment> = Vec::new();
    let mut k: usize = 0;
    while k < spans.len()
        invariant
            0 <= k <= spans.len(),
            f == range_span(ranges@),
            segs(out@) == over_spans(spans@.take(k as int), f),
        decreases spans.len() - k,
    {
        proof {
            lemma_over_spans_step(spans@, f, k as int);
        }
        let ghost before = segs(out@);
        match &spans[k] {
            FormatSpan::Value { index, is_percent, lower_is_better, template, negative_template } => {
                let (lo, hi) = range_of(ranges, *index);
                let lo_text = pick_and_format(lo, template, negative_template, *is_percent);
                let hi_text = pick_and_format(hi, template, negative_template, *is_percent);
                push_seg(&mut out, lo_text, benefit_color(lo.nonnegative, *lower_is_better));
                push_lit(&mut out, " - ", SegColor::Text);
                push_seg(&mut out, hi_text, benefit_color(hi.nonnegative, *lower_is_better));
            },
            FormatSpan::Label(text) => {
                push_seg(&mut out, text.clone(), SegColor::Text);
            },
        }
        assert(segs(out@) =~= before + f(spans@[k as int]));
        k = k + 1;
    }
    assert(spans@.take(spans.len() as int) =~= spans@);
    out
}

fn collect_uniform(spans: &Vec<FormatSpan>, values: &Vec<ShownValue>, color: SegColor, out: &mut Vec<Segment>)
    ensures
        segs(final(out)@) == segs(old(out)@) + over_spans(spans@, uniform_span(values@, color)),
{
    let ghost f = uniform_span(values@, color);
    let ghost start = segs(out@);
    let mut k: usize = 0;
    while k < spans.len()
        invariant
            0 <= k <= spans.len(),
            f == uniform_span(values@, color),
            segs(out@) == start + over_spans(spans@.take(k as int), f),
        decreases spans.len() - k,
    {
        proof {
            lemma_over_spans_step(spans@, f, k as int);
        }
        let ghost before = segs(out@);
        match &spans[k] {
            FormatSpan::Value { index, is_percent, template, negative_template, .. } => {
                let v = value_of(values, *index);
                push_seg(out, pick_and_format(v, template, negative_template, *is_percent), color);
            },
            FormatSpan::Label(text) => {
                push_seg(out, text.clone(), color);
            },
        }
        assert(segs(out@) =~= before + f(spans@[k as int]));
        assert(segs(out@) =~= start + over_spans(spans@.take(k as int + 1), f));
        k = k + 1;
    }
    assert(spans@.take(spans.len() as int) =~= spans@);
}

fn collect_inline(spans: &Vec<FormatSpan>, old: &Vec<ShownValue>, new: &Vec<ShownValue>) -> (out: Vec<Segment>)
    ensures
        segs(out@) == over_spans(spans@, inline_span(old@, new@)),
{
    let ghost f = inline_span(old@, new@);
    let mut out: Vec<Segment> = Vec::new();
    let mut k: usize = 0;
    while k < spans.len()
        invariant
            0 <= k <= spans.len(),
            f == inline_span(old@, new@),
            segs(out@) == over_spans(spans@.take(k as int), f),
        decreases spans.len() - k,
    {
        proof {
            lemma_over_spans_step(spans@, f, k as int);
        }
        let ghost before = segs(out@);
        match &spans[k] {
            FormatSpan::Value { index, is_percent, template, negative_template, .. } => {
                let o = value_of(old, *index);
                let n = value_of(new, *index);
                push_seg(&mut out, pick_and_format(o, template, negative_template, *is_percent), SegColor::Negative);
                push_lit(&mut out, " -> ", SegColor::Text);
                push_seg(&mut out, pick_and_format(n, template, negative_template, *is_percent), SegColor::Positive);
            },
            FormatSpan::Label(text) => {
                push_seg(&mut out, text.clone(), SegColor::Text);
            },
        }
        assert(segs(out@) =~= before + f(spans@[k as int]));
        k = k + 1;
    }
    assert(spans@.take(spans.len() as int) =~= spans@);
    out
}

fn collect_snapshot(spans: &Vec<FormatSpan>, current: ShownValue, preview: ShownValue, show: bool, rises: bool) -> (out: Vec<Segment>)
    ensures
        segs(out@) == over_spans(spans@, snapshot_span(current, preview, show, rises)),
{
    let ghost f = snapshot_span(current, preview, show, rises);
    let mut out: Vec<Segment> = Vec::new();
    let mut k: usize = 0;
    while k < spans.len()
        invariant
            0 <= k <= spans.len(),
            f == snapshot_span(current, preview, show, rises),
            segs(out@) == over_spans(spans@.take(k as int), f),
        decreases spans.len() - k,
    {
        proof {
            lemma_over_spans_step(spans@, f, k as int);
        }
        let ghost before = segs(out@);
        match &spans[k] {
            FormatSpan::Value { is_percent, lower_is_better, template, negative_template, .. } => {
                push_seg(&mut out, pick_and_format(current, template, negative_template, *is_percent), SegColor::Text);
                if show {
                    push_lit(&mut out, " \u{2192} ", SegColor::Text);
                    let color = if rises != *lower_is_better { SegColor::Positive } else { SegColor::Negative };
                    push_seg(&mut out, pick_and_format(preview, template, negative_template, *is_percent), color);
                }
            },
            FormatSpan::Label(text) => {
                push_seg(&mut out, text.clone(), SegColor::Text);
            },
        }
        assert(segs(out@) =~= before + f(spans@[k as int]));
        k = k + 1;
    }
    assert(spans@.take(spans.len() as int) =~= spans@);
    out
}

fn collect_effective(spans: &Vec<FormatSpan>, effective: &Vec<ShownValue>, raw: &Vec<ShownValue>, differs: &Vec<bool>) -> (out: Vec<Segment>)
    ensures
        segs(out@) == over_spans(spans@, effective_span(effective@, raw@, differs@)),
{
    let ghost f = effective_span(effective@, raw@, differs@);
    let mut out: Vec<Segment> = Vec::new();
    let mut k: usize = 0;
    while k < spans.len()
        invariant
            0 <= k <= spans.len(),
            f == effective_span(effective@, raw@, differs@),
            segs(out@) == over_spans(spans@.take(k as int), f),
        decreases spans.len() - k,
    {
        proof {
            lemma_over_spans_step(spans@, f, k as int);
        }
        let ghost before = segs(out@);
        match &spans[k] {
            FormatSpan::Value { index, is_percent, template, negative_template, .. } => {
                let d = flag_of(differs, *index);
                let e = value_of(effective, *index);
                push_seg(
                    &mut out,
                    pick_and_format(e, template, negative_template, *is_percent),
                    if d { SegColor::Positive } else { SegColor::Text },
                );
                if d {
                    push_lit(&mut out, " (", SegColor::Gray);
                    let r = value_of(raw, *index);
                    push_seg(&mut out, pick_and_format(r, template, negative_template, *is_percent), SegColor::Gray);
                    push_lit(&mut out, ")", SegColor::Gray);
                }
            },
            FormatSpan::Label(text) => {
                push_seg(&mut out, text.clone(), SegColor::Text);
            },
        }
        assert(segs(out@) =~= before + f(spans@[k as int]));
        k = k + 1;
    }
    assert(spans@.take(spans.len() as int) =~= spans@);
    out
}

fn push_tier_suffix(out: &mut Vec<Segment>, tier: usize, color: SegColor)
    requires
        tier < usize::MAX,
    ensures
        segs(final(out)@) == segs(old(out)@) + tier_suffix(tier as nat, color),
{
    let mut cs: Vec<char> = Vec::new();
    push_str(&mut cs, " [");
    let t = tier_tag(tier);
    push_str(&mut cs, t.as_str());
    push_str(&mut cs, "]");
    push_seg(out, string_from_chars(&cs), color);
    assert(segs(out@) =~= segs(old(out)@) + tier_suffix(tier as nat, color));
}

fn push_inline_tiers(out: &mut Vec<Segment>, old_tier: usize, new_tier: usize)
    requires
        old_tier < usize::MAX,
        new_tier < usize::MAX,
    ensures
        segs(final(out)@) == segs(old(out)@) + inline_tiers(old_tier as nat, new_tier as nat),
{
    if old_tier != new_tier {
        push_lit(out, " [", SegColor::Text);
        push_seg(out, tier_tag(old_tier), SegColor::Negative);
        push_lit(out, "->", SegColor::Text);
        push_seg(out, tier_tag(new_tier), SegColor::Positive);
        push_lit(out, "]", SegColor::Text);
        assert(segs(out@) =~= segs(old(out)@) + inline_tiers(old_tier as nat, new_tier as nat));
    } else {
        push_tier_suffix(out, old_tier, SegColor::Text);
    }
}

fn collect_diff(spans: &Vec<FormatSpan>, old: &Option<DiffSide>, new: &Option<DiffSide>, rerolled: bool, values_differ: bool) -> (out: Vec<Segment>)
    requires
        old matches Some(o) ==> o.tier < usize::MAX,
        new matches Some(n) ==> n.tier < usize::MAX,
    ensures
        segs(out@) == diff_segments(spans@, *old, *new, rerolled, values_differ),
{
    let mut out: Vec<Segment> = Vec::new();
    match (old, new) {
        (None, None) => {
            push_lit(&mut out, "[empty]", SegColor::Gray);
            assert(segs(out@) =~= seq![("[empty]"@, SegColor::Gray)]);
        },
        (None, Some(n)) => {
            collect_uniform(spans, &n.values, SegColor::Positive, &mut out);
            push_tier_suffix(&mut out, n.tier, SegColor::Positive);
            assert(segs(out@) =~= over_spans(spans@, uniform_span(n.values@, SegColor::Positive)) + tier_suffix(n.tier as nat, SegColor::Positive));
        },
        (Some(o), None) => {
            collect_uniform(spans, &o.values, SegColor::Negative, &mut out);
            push_tier_suffix(&mut out, o.tier, SegColor::Negative);
            assert(segs(out@) =~= over_spans(spans@, uniform_span(o.values@, SegColor::Negative)) + tier_suffix(o.tier as nat, SegColor::Negative));
        },
        (Some(o), Some(n)) => {
            if values_differ || o.tier != n.tier {
                out = collect_inline(spans, &o.values, &n.values);
                push_inline_tiers(&mut out, o.tier, n.tier);
            } else {
                let color = if rerolled { SegColor::Gold } else { SegColor::Text };
                collect_uniform(spans, &o.values, color, &mut out);
                push_tier_suffix(&mut out, o.tier, color);
                assert(segs(out@) =~= over_spans(spans@, uniform_span(o.values@, color)) + tier_suffix(o.tier as nat, color));
            }
        },
    }
    out
}

/// The coloured pieces of a stat line drawn in `mode`.
pub fn collect_segments(spans: &Vec<FormatSpan>, mode: &StatRenderMode) -> (out: Vec<Segment>)
    requires
        tiers_fit(*mode),
    ensures
        segs(out@) == line_segments(spans@, *mode),
{
    match mode {
        StatRenderMode::Fixed { values } => collect_fixed(spans, values),
        StatRenderMode::Range { ranges } => collect_range(spans, ranges),
        StatRenderMode::Diff { old, new, rerolled, values_differ } => collect_diff(spans, old, new, *rerolled, *values_differ),
        StatRenderMode::Effective { effective, raw, differs } => collect_effective(spans, effective, raw, differs),
        StatRenderMode::Snapshot { current, preview, changed, rises } => {
            let shown = match preview {
                Some(p) => *p,
                None => *current,
            };
            let show = preview.is_some() && *changed;
            collect_snapshot(spans, *current, shown, show, *rises)
        },
    }
}

/// Builds stat lines from stat descriptions.
pub struct StatLineBuilder;

impl StatLineBuilder {
    /// The text of a stat description with fixed values, without colours.
    pub fn format_to_string(spans: &Vec<FormatSpan>, values: &Vec<ShownValue>) -> (s: String)
        ensures
            s@ == plain_text(spans@, values@),
    {
        let mut out: Vec<char> = Vec::new();
        let mut k: usize = 0;
        while k < spans.len()
            invariant
                0 <= k <= spans.len(),
                out@ == plain_text(spans@.take(k as int), values@),
            decreases spans.len() - k,
        {
            proof {
                assert(spans@.take(k as int + 1).drop_last() =~= spans@.take(k as int));
            }
            match &spans[k] {
                FormatSpan::Value { index, is_percent, template, negative_template, .. } => {
                    let v = value_of(values, *index);
                    let text = pick_and_format(v, template, negative_template, *is_percent);
                    push_str(&mut out, text.as_str());
                },
                FormatSpan::Label(text) => {
                    push_str(&mut out, text.as_str());
                },
            }
            k = k + 1;
        }
        assert(spans@.take(spans.len() as int) =~= spans@);
        string_from_chars(&out)
    }
}

/// The limit line of a rune tooltip: `Max <n>`, or `∞` without a limit.
pub fn limit_label(limit: Option<u32>) -> (s: String)
    ensures
        s@ == (match limit {
            Some(n) => "Max "@ + decimal(n as nat),
            None => "\u{221e}"@,
        }),
{
    match limit {
        Some(n) => {
            let mut out: Vec<char> = Vec::new();
            push_str(&mut out, "Max ");
            push_decimal(&mut out, n as u64);
            string_from_chars(&out)
        },
        None => string_from_chars(&chars_of("\u{221e}")),
    }
}

} // verus!
