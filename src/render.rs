use vstd::prelude::*;
use crate::layout::{spec_timeline_width, Layout, LayoutConfig, Rect};
use crate::view::{
    FillStyle, StreamingSection, Timeline, TimelineEntry, TimelineEntryView, TimelineRendererError,
    VoiceSection,
};

verus! {

/// One drawing step of the report image. Colours are those of the entry's
/// visuals; positions are in pixels.
#[derive(Debug, Clone, Copy, PartialEq, Eq, Structural)]
pub enum DrawOp {
    /// Fill the whole image white.
    Clear,
    /// A thin vertical line across the bar area at `x`, and above it the
    /// label of tick `index`.
    Tick { index: usize, x: u64, top: u64, bottom: u64 },
    /// The avatar of entry `entry`, clipped to a circle of `size` centred at
    /// (`center_x`, `center_y`).
    Avatar { entry: usize, center_x: u64, center_y: u64, size: u64 },
    /// A voice section filled in the style's shader.
    Fill { entry: usize, rect: Rect, style: FillStyle },
    /// The 2 px outline of a voice section, in the active colour.
    Outline { entry: usize, rect: Rect },
    /// The 5 px outline of a streaming section, in the streaming colour.
    Streaming { entry: usize, rect: Rect },
    /// The grey left and right edges of the bar area.
    EndCaps { rect: Rect },
}

/// The pixel column of `offset` on an axis of `span` milliseconds drawn over
/// `bb`.
pub open spec fn x_at(bb: Rect, offset: u64, span: u64) -> u64 {
    (bb.x + bb.width * offset / (span as int)) as u64
}

/// The bar of a cell: the strip from 3/14 to 11/14 of its height.
pub open spec fn bar_of(cell: Rect, start: u64, end: u64, span: u64) -> Rect {
    let x0 = x_at(cell, start, span);
    let x1 = x_at(cell, end, span);
    Rect {
        x: x0,
        y: (cell.y + cell.height * 3 / 14) as u64,
        width: (x1 - x0) as u64,
        height: (cell.height * 11 / 14 - cell.height * 3 / 14) as u64,
    }
}

pub open spec fn entry_cell(layout: Layout, i: int) -> Rect {
    Rect {
        x: (layout.margin.left + layout.avatar_column_width) as u64,
        y: (layout.margin.top + layout.label_area_height + i * layout.entry_height) as u64,
        width: layout.timeline_width,
        height: layout.entry_height,
    }
}

pub open spec fn headline_cell(layout: Layout, i: int) -> Rect {
    Rect {
        x: layout.margin.left as u64,
        y: (layout.margin.top + layout.label_area_height + i * layout.entry_height) as u64,
        width: layout.avatar_column_width,
        height: layout.entry_height,
    }
}

pub open spec fn full_bb(layout: Layout) -> Rect {
    Rect {
        x: (layout.margin.left + layout.avatar_column_width) as u64,
        y: (layout.margin.top + layout.label_area_height) as u64,
        width: layout.timeline_width,
        height: layout.total_entry_height,
    }
}

/// The steps of one entry: its avatar, the fills of its voice sections, their
/// outlines over the fills, and the streaming outlines last.
pub open spec fn entry_ops(layout: Layout, span: u64, i: int, e: TimelineEntryView) -> Seq<DrawOp> {
    let cell = entry_cell(layout, i);
    let head = headline_cell(layout, i);
    seq![
        DrawOp::Avatar {
            entry: i as usize,
            center_x: (head.x + head.width / 2) as u64,
            center_y: (head.y + head.height / 2) as u64,
            size: layout.avatar_size,
        },
    ] + e.voice_sections.map_values(
        |s: VoiceSection| DrawOp::Fill { entry: i as usize, rect: bar_of(cell, s.start, s.end, span), style: s.fill_style },
    ) + e.voice_sections.map_values(
        |s: VoiceSection| DrawOp::Outline { entry: i as usize, rect: bar_of(cell, s.start, s.end, span) },
    ) + e.streaming_sections.map_values(
        |s: StreamingSection| DrawOp::Streaming { entry: i as usize, rect: bar_of(cell, s.start, s.end, span) },
    )
}

/// The steps of the entries, in order.
pub open spec fn entries_ops(layout: Layout, span: u64, es: Seq<TimelineEntryView>) -> Seq<DrawOp>
    decreases es.len(),
{
    if es.len() == 0 {
        Seq::empty()
    } else {
        entries_ops(layout, span, es.drop_last()) + entry_ops(layout, span, es.len() - 1, es.last())
    }
}

pub open spec fn tick_ops(layout: Layout, span: u64, offsets: Seq<u64>) -> Seq<DrawOp> {
    let bb = full_bb(layout);
    offsets.map(
        |k: int, o: u64| DrawOp::Tick { index: k as usize, x: x_at(bb, o, span), top: bb.y, bottom: (bb.y + bb.height) as u64 },
    )
}

/// The whole image: cleared, the ticks, the entries, the end caps.
pub open spec fn plan_of(layout: Layout, span: u64, offsets: Seq<u64>, es: Seq<TimelineEntryView>) -> Seq<DrawOp> {
    seq![DrawOp::Clear] + tick_ops(layout, span, offsets) + entries_ops(layout, span, es) + seq![
        DrawOp::EndCaps { rect: full_bb(layout) },
    ]
}

/// Sections lie within an axis of `span`.
pub open spec fn sections_fit(e: TimelineEntryView, span: u64) -> bool {
    &&& forall|k: int| 0 <= k < e.voice_sections.len() ==> {
        let s = #[trigger] e.voice_sections[k];
        s.start <= s.end <= span
    }
    &&& forall|k: int| 0 <= k < e.streaming_sections.len() ==> {
        let s = #[trigger] e.streaming_sections[k];
        s.start <= s.end <= span
    }
}

fn x_at_exec(bb: Rect, offset: u64, span: u64) -> (r: u64)
    requires
        span > 0,
        offset <= span,
        bb.x + bb.width <= u64::MAX,
    ensures
        r == x_at(bb, offset, span),
        r == bb.x + bb.width * offset / (span as int),
        bb.x <= r <= bb.x + bb.width,
{
    proof {
        assert((bb.width as u128) * (offset as u128) <= (u64::MAX as u128) * (u64::MAX as u128)) by (nonlinear_arith)
            requires
                bb.width <= u64::MAX,
                offset <= u64::MAX,
        ;
    }
    let part = (bb.width as u128 * offset as u128 / span as u128) as u64;
    proof {
        assert(bb.width * offset / (span as int) <= bb.width) by (nonlinear_arith)
            requires
                span > 0,
                0 <= offset <= span,
                bb.width >= 0,
        {
            assert(bb.width * offset <= bb.width * span);
            vstd::arithmetic::div_mod::lemma_div_is_ordered(bb.width * offset, bb.width * span, span as int);
            vstd::arithmetic::div_mod::lemma_div_multiples_vanish(bb.width as int, span as int);
        }
        assert(0 <= bb.width * offset / (span as int)) by (nonlinear_arith)
            requires
                span > 0,
                offset >= 0,
                bb.width >= 0,
        ;
    }
    bb.x + part
}

fn bar_exec(cell: Rect, start: u64, end: u64, span: u64) -> (r: Rect)
    requires
        span > 0,
        start <= end <= span,
        cell.x + cell.width <= u64::MAX,
        cell.y + cell.height <= u64::MAX,
    ensures
        r == bar_of(cell, start, end, span),
{
    let x0 = x_at_exec(cell, start, span);
    let x1 = x_at_exec(cell, end, span);
    proof {
        assert(cell.width * start / (span as int) <= cell.width * end / (span as int)) by (nonlinear_arith)
            requires
                span > 0,
                start <= end,
                cell.width >= 0,
        {
            assert(cell.width * start <= cell.width * end);
            vstd::arithmetic::div_mod::lemma_div_is_ordered(cell.width * start, cell.width * end, span as int);
        }
        assert(cell.height * 3 / 14 <= cell.height * 11 / 14) by (nonlinear_arith)
            requires
                cell.height >= 0,
        {
            vstd::arithmetic::div_mod::lemma_div_is_ordered(cell.height * 3, cell.height * 11, 14);
        }
    }
    let h = cell.height as u128;
    let top = (h * 3 / 14) as u64;
    let bottom = (h * 11 / 14) as u64;
    Rect { x: x0, y: cell.y + top, width: x1 - x0, height: bottom - top }
}

/// The drawing steps of a report image for `entries` over an axis of `span`
/// milliseconds, with ticks at `offsets` (see `plan_of`).
#[verifier::rlimit(60)]
pub fn plan(layout: &Layout, span: u64, offsets: &Vec<u64>, entries: &Vec<TimelineEntry>) -> (r: Vec<DrawOp>)
    requires
        layout.wf(),
        layout.n_entries == entries@.len(),
        span > 0,
        forall|k: int| 0 <= k < offsets@.len() ==> #[trigger] offsets@[k] <= span,
        forall|i: int| 0 <= i < entries@.len() ==> sections_fit((#[trigger] entries@[i])@, span),
    ensures
        r@ == plan_of(*layout, span, offsets@, entries@.map_values(|e: TimelineEntry| e@)),
{
    let ghost es = entries@.map_values(|e: TimelineEntry| e@);
    let mut out: Vec<DrawOp> = Vec::new();
    out.push(DrawOp::Clear);
    let bb = layout.full_timeline_bb();
    let mut k: usize = 0;
    while k < offsets.len()
        invariant
            k <= offsets@.len(),
            layout.wf(),
            span > 0,
            bb == full_bb(*layout),
            forall|q: int| 0 <= q < offsets@.len() ==> #[trigger] offsets@[q] <= span,
            out@ == seq![DrawOp::Clear] + tick_ops(*layout, span, offsets@.take(k as int)),
        decreases offsets@.len() - k,
    {
        let x = x_at_exec(bb, offsets[k], span);
        out.push(DrawOp::Tick { index: k, x, top: bb.y, bottom: bb.y + bb.height });
        k = k + 1;
        assert(out@ =~= seq![DrawOp::Clear] + tick_ops(*layout, span, offsets@.take(k as int)));
    }
    assert(offsets@.take(k as int) == offsets@);
    let ghost base = out@;
    let mut i: usize = 0;
    while i < entries.len()
        invariant
            i <= entries@.len(),
            layout.wf(),
            layout.n_entries == entries@.len(),
            span > 0,
            es == entries@.map_values(|e: TimelineEntry| e@),
            forall|q: int| 0 <= q < entries@.len() ==> sections_fit((#[trigger] entries@[q])@, span),
            out@ == base + entries_ops(*layout, span, es.take(i as int)),
        decreases entries@.len() - i,
    {
        let e = &entries[i];
        let cell = layout.timeline_bb_for_entry(i);
        let head = layout.headline_bb_for_entry(i);
        proof {
            assert(i * layout.entry_height + layout.entry_height <= layout.n_entries * layout.entry_height) by (nonlinear_arith)
                requires
                    i < layout.n_entries,
                    layout.entry_height >= 0,
            ;
            assert(es.take(i + 1).drop_last() == es.take(i as int));
            assert(es.take(i + 1).last() == e@);
            assert(sections_fit(entries@[i as int]@, span));
        }
        let ghost prefix = out@;
        out.push(DrawOp::Avatar {
            entry: i,
            center_x: head.x + head.width / 2,
            center_y: head.y + head.height / 2,
            size: layout.avatar_size,
        });
        let ghost with_avatar = out@;
        let mut j: usize = 0;
        while j < e.voice_sections.len()
            invariant
                j <= e.voice_sections@.len(),
                cell == entry_cell(*layout, i as int),
                cell.x + cell.width <= u64::MAX,
                cell.y + cell.height <= u64::MAX,
                span > 0,
                sections_fit(e@, span),
                out@ == with_avatar + e.voice_sections@.take(j as int).map_values(
                    |s: VoiceSection| DrawOp::Fill { entry: i as usize, rect: bar_of(cell, s.start, s.end, span), style: s.fill_style },
                ),
            decreases e.voice_sections@.len() - j,
        {
            let s = e.voice_sections[j];
            let rect = bar_exec(cell, s.start, s.end, span);
            out.push(DrawOp::Fill { entry: i, rect, style: s.fill_style });
            j = j + 1;
            assert(out@ =~= with_avatar + e.voice_sections@.take(j as int).map_values(
                |s: VoiceSection| DrawOp::Fill { entry: i as usize, rect: bar_of(cell, s.start, s.end, span), style: s.fill_style },
            ));
        }
        assert(e.voice_sections@.take(j as int) == e.voice_sections@);
        let ghost with_fills = out@;
        let mut j: usize = 0;
        while j < e.voice_sections.len()
            invariant
                j <= e.voice_sections@.len(),
                cell == entry_cell(*layout, i as int),
                cell.x + cell.width <= u64::MAX,
                cell.y + cell.height <= u64::MAX,
                span > 0,
                sections_fit(e@, span),
                out@ == with_fills + e.voice_sections@.take(j as int).map_values(
                    |s: VoiceSection| DrawOp::Outline { entry: i as usize, rect: bar_of(cell, s.start, s.end, span) },
                ),
            decreases e.voice_sections@.len() - j,
        {
            let s = e.voice_sections[j];
            let rect = bar_exec(cell, s.start, s.end, span);
            out.push(DrawOp::Outline { entry: i, rect });
            j = j + 1;
            assert(out@ =~= with_fills + e.voice_sections@.take(j as int).map_values(
                |s: VoiceSection| DrawOp::Outline { entry: i as usize, rect: bar_of(cell, s.start, s.end, span) },
            ));
        }
        assert(e.voice_sections@.take(j as int) == e.voice_sections@);
        let ghost with_outlines = out@;
        let mut j: usize = 0;
        while j < e.streaming_sections.len()
            invariant
                j <= e.streaming_sections@.len(),
                cell == entry_cell(*layout, i as int),
                cell.x + cell.width <= u64::MAX,
                cell.y + cell.height <= u64::MAX,
                span > 0,
                sections_fit(e@, span),
                out@ == with_outlines + e.streaming_sections@.take(j as int).map_values(
                    |s: StreamingSection| DrawOp::Streaming { entry: i as usize, rect: bar_of(cell, s.start, s.end, span) },
                ),
            decreases e.streaming_sections@.len() - j,
        {
            let s = e.streaming_sections[j];
            assert(e@.streaming_sections[j as int] == s);
            let rect = bar_exec(cell, s.start, s.end, span);
            out.push(DrawOp::Streaming { entry: i, rect });
            j = j + 1;
            assert(out@ =~= with_outlines + e.streaming_sections@.take(j as int).map_values(
                |s: StreamingSection| DrawOp::Streaming { entry: i as usize, rect: bar_of(cell, s.start, s.end, span) },
            ));
        }
        assert(e.streaming_sections@.take(j as int) == e.streaming_sections@);
        proof {
            assert(out@ =~= prefix + entry_ops(*layout, span, i as int, e@));
        }
        i = i + 1;
    }
    assert(es.take(i as int) =~= es);
    out.push(DrawOp::EndCaps { rect: bb });
    assert(out@ =~= plan_of(*layout, span, offsets@, es));
    out
}

fn sections_fit_exec(e: &TimelineEntry, span: u64) -> (r: bool)
    ensures
        r == sections_fit(e@, span),
{
    let mut k: usize = 0;
    while k < e.voice_sections.len()
        invariant
            k <= e.voice_sections@.len(),
            forall|q: int| 0 <= q < k ==> {
                let s = #[trigger] e.voice_sections@[q];
                s.start <= s.end <= span
            },
        decreases e.voice_sections@.len() - k,
    {
        let s = e.voice_sections[k];
        if !(s.start <= s.end && s.end <= span) {
            assert(e@.voice_sections[k as int] == s);
            return false;
        }
        k = k + 1;
    }
    let mut k: usize = 0;
    while k < e.streaming_sections.len()
        invariant
            k <= e.streaming_sections@.len(),
            forall|q: int| 0 <= q < e.voice_sections@.len() ==> {
                let s = #[trigger] e.voice_sections@[q];
                s.start <= s.end <= span
            },
            forall|q: int| 0 <= q < k ==> {
                let s = #[trigger] e.streaming_sections@[q];
                s.start <= s.end <= span
            },
        decreases e.streaming_sections@.len() - k,
    {
        let s = e.streaming_sections[k];
        if !(s.start <= s.end && s.end <= span) {
            assert(e@.streaming_sections[k as int] == s);
            return false;
        }
        k = k + 1;
    }
    true
}

/// The image can be drawn: the axis is not empty, the image's sides fit in
/// 32 bits, and every tick and section lies on the axis.
pub open spec fn drawable(config: LayoutConfig, t: Timeline, offsets: Seq<u64>) -> bool {
    let span = t.terminated_at - t.created_at;
    let height = config.spec_total_height(t.entries@.len() as int);
    &&& config.aspect_ratio_policy.target_height_ratio > 0
    &&& span > 0
    &&& height <= u32::MAX
    &&& spec_timeline_width(config.aspect_ratio_policy, height, config.spec_fixed_width(), config.min_timeline_width as int)
        + config.spec_fixed_width() <= u32::MAX
    &&& forall|k: int| 0 <= k < offsets.len() ==> #[trigger] offsets[k] <= span
    &&& forall|i: int| 0 <= i < t.entries@.len() ==> sections_fit((#[trigger] t.entries@[i])@, span as u64)
}

/// The layout and drawing steps of `timeline` with ticks at `offsets`, or an
/// error when the image cannot be drawn.
pub fn render_plan(config: &LayoutConfig, timeline: &Timeline, offsets: &Vec<u64>) -> (r: Result<
    (Layout, Vec<DrawOp>),
    TimelineRendererError,
>)
    ensures
        r is Err <==> !drawable(*config, *timeline, offsets@),
        r matches Ok((layout, ops)) ==> {
            let span = (timeline.terminated_at - timeline.created_at) as u64;
            &&& layout.wf()
            &&& layout.n_entries == timeline.entries@.len()
            &&& layout.margin == config.margin
            &&& layout.label_area_height == config.label_area_height
            &&& layout.entry_height == config.entry_height
            &&& layout.avatar_column_width == config.avatar_column_width
            &&& layout.avatar_size == config.avatar_size
            &&& layout.total_entry_height == timeline.entries@.len() * config.entry_height
            &&& layout.total_width == layout.timeline_width + config.spec_fixed_width()
            &&& layout.total_height == config.spec_total_height(timeline.entries@.len() as int)
            &&& layout.timeline_width == spec_timeline_width(
                config.aspect_ratio_policy,
                config.spec_total_height(timeline.entries@.len() as int),
                config.spec_fixed_width(),
                config.min_timeline_width as int,
            )
            &&& ops@ == plan_of(layout, span, offsets@, timeline@.entries)
        },
{
    if config.aspect_ratio_policy.target_height_ratio == 0 || timeline.terminated_at <= timeline.created_at {
        return Err(TimelineRendererError::PixelmapCreationError);
    }
    let span = timeline.terminated_at - timeline.created_at;
    let n = timeline.entries.len();
    proof {
        assert((n as u128) * (config.entry_height as u128) <= (u64::MAX as u128) * (u32::MAX as u128)) by (nonlinear_arith)
            requires
                n <= u64::MAX,
                config.entry_height <= u32::MAX,
        ;
    }
    let height: u128 = config.label_area_height as u128 + n as u128 * config.entry_height as u128
        + config.margin.top as u128 + config.margin.bottom as u128;
    if height > u32::MAX as u128 {
        return Err(TimelineRendererError::PixelmapCreationError);
    }
    let fixed: u64 = config.avatar_column_width as u64 + config.margin.left as u64 + config.margin.right as u64;
    let width = config.aspect_ratio_policy.calculate_timeline_width(
        height as u64,
        fixed,
        config.min_timeline_width as u64,
    );
    if width > u32::MAX as u64 || width + fixed > u32::MAX as u64 {
        return Err(TimelineRendererError::PixelmapCreationError);
    }
    let mut k: usize = 0;
    while k < offsets.len()
        invariant
            k <= offsets@.len(),
            timeline.terminated_at > timeline.created_at,
            span == timeline.terminated_at - timeline.created_at,
            forall|q: int| 0 <= q < k ==> #[trigger] offsets@[q] <= span,
        decreases offsets@.len() - k,
    {
        if offsets[k] > span {
            assert(offsets@[k as int] > span);
            return Err(TimelineRendererError::PixelmapCreationError);
        }
        k = k + 1;
    }
    let mut i: usize = 0;
    while i < n
        invariant
            i <= n,
            n == timeline.entries@.len(),
            timeline.terminated_at > timeline.created_at,
            span == timeline.terminated_at - timeline.created_at,
            forall|q: int| 0 <= q < i ==> sections_fit((#[trigger] timeline.entries@[q])@, span),
        decreases n - i,
    {
        if !sections_fit_exec(&timeline.entries[i], span) {
            assert(!sections_fit(timeline.entries@[i as int]@, span));
            return Err(TimelineRendererError::PixelmapCreationError);
        }
        i = i + 1;
    }
    let layout = config.calculate(n);
    let ops = plan(&layout, span, offsets, &timeline.entries);
    Ok((layout, ops))
}

} // verus!
