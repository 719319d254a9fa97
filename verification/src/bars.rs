//! Geometry of the spectrum-bar frames: where each bar's column lies, and the
//! rows covered by a bar and by its floating peak cap, in pixels.
use vstd::prelude::*;

verus! {

/// Gap between two bars, in pixels.
pub const BAR_SPACING: u32 = 3;

/// Width of each of `num_bars` bars sharing `content_width` pixels with
/// `BAR_SPACING` pixels between neighbours (never below two pixels).
pub open spec fn bar_width(content_width: nat, num_bars: nat) -> nat
    recommends
        num_bars >= 1,
{
    let gaps: int = (num_bars - 1) * BAR_SPACING;
    let free: nat = if content_width >= gaps { (content_width - gaps) as nat } else { 0 };
    let w = free / num_bars;
    if w < 2 { 2 } else { w }
}

/// Left edge of bar `i` when the content starts at `margin_x` and bars are
/// `width` pixels wide.
pub open spec fn bar_left(margin_x: nat, width: nat, i: nat) -> nat {
    margin_x + i * (width + BAR_SPACING as nat)
}

/// `bar_width` never exceeds the content width when there is room for at least
/// two pixels per bar.
proof fn lemma_bar_width_bound(content_width: nat, num_bars: nat)
    requires
        num_bars >= 1,
    ensures
        bar_width(content_width, num_bars) >= 2,
        bar_width(content_width, num_bars) <= if content_width < 2 { 2 } else { content_width },
{
    let gaps: int = (num_bars - 1) * BAR_SPACING;
    let free: nat = if content_width >= gaps { (content_width - gaps) as nat } else { 0 };
    assert(free / num_bars <= free) by (nonlinear_arith)
        requires
            num_bars >= 1,
    ;
}

/// Law: bars are laid out left to right without overlapping, each followed by
/// a gap of exactly `BAR_SPACING` pixels.
pub proof fn lemma_bars_do_not_overlap(margin_x: nat, width: nat, i: nat)
    ensures
        bar_left(margin_x, width, i) + width + BAR_SPACING == bar_left(margin_x, width, i + 1),
{
    assert((i + 1) * (width + BAR_SPACING) == i * (width + BAR_SPACING) + width + BAR_SPACING)
        by (nonlinear_arith);
}

/// The pixel arithmetic of laying out `num_bars` bars of width `width` from
/// `margin_x` stays within `u32`: the step between bars and the right edge of
/// the last bar fit.
pub open spec fn bar_layout_fits(margin_x: nat, width: nat, num_bars: nat) -> bool {
    &&& width + BAR_SPACING <= u32::MAX
    &&& bar_left(margin_x, width, (num_bars - 1) as nat) + width <= u32::MAX
}

/// The columns `[left, right)` of `num_bars` bars drawn in a frame `frame_width`
/// pixels wide with a margin of `margin_x` pixels on each side, or `None` when
/// the layout's pixel arithmetic would overflow `u32` (see `bar_layout_fits`).
pub fn spectrum_bar_columns(frame_width: u32, margin_x: u32, num_bars: usize) -> (columns: Option<Vec<(u32, u32)>>)
    requires
        1 <= num_bars <= u32::MAX,
        2 * margin_x <= frame_width,
    ensures
        ({
            let w = bar_width((frame_width - 2 * margin_x) as nat, num_bars as nat);
            &&& columns is Some <==> bar_layout_fits(margin_x as nat, w, num_bars as nat)
            &&& columns matches Some(cols) ==> {
                &&& cols@.len() == num_bars
                &&& forall|i: int|
                    0 <= i < num_bars ==> #[trigger] cols@[i] == (
                        bar_left(margin_x as nat, w, i as nat) as u32,
                        (bar_left(margin_x as nat, w, i as nat) + w) as u32,
                    )
            }
        }),
{
    let content_w: u32 = frame_width - 2 * margin_x;
    let n: u32 = num_bars as u32;
    let ghost w_spec = bar_width(content_w as nat, num_bars as nat);
    proof {
        lemma_bar_width_bound(content_w as nat, num_bars as nat);
    }
    // More than a u32's worth of gaps cannot fit whatever the bar width.
    if n - 1 > (u32::MAX - 2) / 5 {
        proof {
            assert(bar_left(margin_x as nat, w_spec, (n - 1) as nat) + w_spec > u32::MAX)
                by (nonlinear_arith)
                requires
                    n - 1 > (u32::MAX - 2) / 5,
                    w_spec >= 2,
                    bar_left(margin_x as nat, w_spec, (n - 1) as nat) == margin_x + (n - 1) * (
                    w_spec + 3),
            ;
        }
        return None;
    }
    let gaps: u32 = (n - 1) * BAR_SPACING;
    let free: u32 = if content_w >= gaps { content_w - gaps } else { 0 };
    let w0: u32 = free / n;
    let bar_w: u32 = if w0 < 2 { 2 } else { w0 };
    assert(bar_w == w_spec);
    if bar_w > u32::MAX - BAR_SPACING {
        return None;
    }
    let step: u32 = bar_w + BAR_SPACING;
    // The last bar's right edge, computed without overflowing.
    let k: u64 = (n - 1) as u64;
    let st: u64 = step as u64;
    proof {
        assert(k * st <= 858993458 * 4294967295) by (nonlinear_arith)
            requires
                k <= 858993458,
                st <= 4294967295,
        ;
    }
    let last: u64 = (margin_x as u64) + k * st + (bar_w as u64);
    assert(last == bar_left(margin_x as nat, w_spec, (n - 1) as nat) + w_spec);
    if last > u32::MAX as u64 {
        return None;
    }
    let mut columns: Vec<(u32, u32)> = Vec::with_capacity(num_bars);
    let mut i: usize = 0;
    while i < num_bars
        invariant
            i <= num_bars <= u32::MAX,
            n == num_bars,
            bar_w == w_spec,
            step == w_spec + 3,
            bar_left(margin_x as nat, w_spec, (num_bars - 1) as nat) + w_spec <= u32::MAX,
            columns@.len() == i,
            forall|k: int|
                0 <= k < i ==> #[trigger] columns@[k] == (
                    bar_left(margin_x as nat, w_spec, k as nat) as u32,
                    (bar_left(margin_x as nat, w_spec, k as nat) + w_spec) as u32,
                ),
        decreases num_bars - i,
    {
        proof {
            assert(bar_left(margin_x as nat, w_spec, i as nat) <= bar_left(
                margin_x as nat,
                w_spec,
                (num_bars - 1) as nat,
            )) by (nonlinear_arith)
                requires
                    i <= num_bars - 1,
                    bar_left(margin_x as nat, w_spec, i as nat) == margin_x + i * (w_spec + 3),
                    bar_left(margin_x as nat, w_spec, (num_bars - 1) as nat) == margin_x + (num_bars
                        - 1) * (w_spec + 3),
            ;
        }
        let left: u32 = margin_x + (i as u32) * step;
        columns.push((left, left + bar_w));
        i = i + 1;
    }
    Some(columns)
}

/// Rows `[top, bottom)` of a bar `height` pixels tall standing on row `base_y`
/// (clipped at the top of the frame).
pub fn bar_rows(base_y: u32, height: u32) -> (rows: (u32, u32))
    ensures
        rows == (if height <= base_y { (base_y - height) as u32 } else { 0u32 }, base_y),
{
    (base_y.saturating_sub(height), base_y)
}

/// Rows `[top, bottom)` of the three-pixel peak cap floating four pixels above a
/// peak `peak_height` pixels tall on row `base_y` (clipped at the top).
pub fn peak_cap_rows(base_y: u32, peak_height: u32) -> (rows: (u32, u32))
    requires
        peak_height + 4 <= u32::MAX,
    ensures
        ({
            let bottom = if peak_height + 4 <= base_y { base_y - (peak_height + 4) } else { 0 };
            rows == (if bottom >= 3 { (bottom - 3) as u32 } else { 0u32 }, bottom as u32)
        }),
{
    let peak_y = base_y.saturating_sub(peak_height + 4);
    (peak_y.saturating_sub(3), peak_y)
}

} // verus!
