use vstd::prelude::*;

verus! {

/// Blank space around the image, in pixels.
#[derive(Debug, Clone, Copy, PartialEq, Eq, Structural)]
pub struct Margin {
    pub left: u32,
    pub top: u32,
    pub right: u32,
    pub bottom: u32,
}

impl Margin {
    pub fn horizontal(&self) -> (r: u64)
        ensures
            r == self.left + self.right,
    {
        self.left as u64 + self.right as u64
    }

    pub fn vertical(&self) -> (r: u64)
        ensures
            r == self.top + self.bottom,
    {
        self.top as u64 + self.bottom as u64
    }
}

/// The width to height proportion that the image aims at.
#[derive(Debug, Clone, Copy, PartialEq, Eq, Structural)]
pub struct AspectRatioPolicy {
    pub target_width_ratio: u32,
    pub target_height_ratio: u32,
}

/// The timeline width that brings an image of `total_height` to the target
/// proportion, never below `min_timeline_width`.
pub open spec fn spec_timeline_width(
    policy: AspectRatioPolicy,
    total_height: int,
    fixed_components_width: int,
    min_timeline_width: int,
) -> int {
    let desired = policy.target_width_ratio * total_height / (policy.target_height_ratio as int)
        - fixed_components_width;
    if desired < min_timeline_width {
        min_timeline_width
    } else {
        desired
    }
}

impl AspectRatioPolicy {
    pub fn discord_thumbnail_4_3() -> (r: AspectRatioPolicy)
        ensures
            r == (AspectRatioPolicy { target_width_ratio: 4, target_height_ratio: 3 }),
    {
        AspectRatioPolicy { target_width_ratio: 4, target_height_ratio: 3 }
    }

    pub fn calculate_timeline_width(
        &self,
        total_height: u64,
        fixed_components_width: u64,
        min_timeline_width: u64,
    ) -> (r: u64)
        requires
            self.target_height_ratio > 0,
            total_height <= u32::MAX,
        ensures
            r == spec_timeline_width(
                *self,
                total_height as int,
                fixed_components_width as int,
                min_timeline_width as int,
            ),
    {
        let w = self.target_width_ratio as u64;
        proof {
            assert(w * total_height <= u32::MAX * u32::MAX) by (nonlinear_arith)
                requires
                    w <= u32::MAX,
                    total_height <= u32::MAX,
            ;
        }
        let desired_width = w * total_height / (self.target_height_ratio as u64);
        if desired_width < fixed_components_width || desired_width - fixed_components_width
            < min_timeline_width {
            min_timeline_width
        } else {
            desired_width - fixed_components_width
        }
    }
}

/// An axis-aligned rectangle in pixels.
#[derive(Debug, Clone, Copy, PartialEq, Eq, Structural)]
pub struct Rect {
    pub x: u64,
    pub y: u64,
    pub width: u64,
    pub height: u64,
}

/// Sizes of the report image's parts, in pixels.
#[derive(Debug, Clone, Copy, PartialEq, Eq, Structural)]
pub struct LayoutConfig {
    pub margin: Margin,
    pub label_area_height: u32,
    pub avatar_column_width: u32,
    pub min_timeline_width: u32,
    pub aspect_ratio_policy: AspectRatioPolicy,
    pub entry_height: u32,
    pub avatar_size: u32,
}

impl LayoutConfig {
    /// The sizes of the report image: 10 px margins, a 20 px label row, a
    /// 100 px avatar column, 70 px per entry, 64 px avatars, a timeline at
    /// least 900 px wide, and a 4:3 target.
    pub fn report_default() -> (r: LayoutConfig)
        ensures
            r == (LayoutConfig {
                margin: Margin { left: 10, top: 10, right: 10, bottom: 10 },
                label_area_height: 20,
                avatar_column_width: 100,
                min_timeline_width: 900,
                aspect_ratio_policy: AspectRatioPolicy { target_width_ratio: 4, target_height_ratio: 3 },
                entry_height: 70,
                avatar_size: 64,
            }),
    {
        LayoutConfig {
            margin: Margin { left: 10, top: 10, right: 10, bottom: 10 },
            label_area_height: 20,
            avatar_column_width: 100,
            min_timeline_width: 900,
            aspect_ratio_policy: AspectRatioPolicy::discord_thumbnail_4_3(),
            entry_height: 70,
            avatar_size: 64,
        }
    }

    pub open spec fn spec_total_height(self, n_entries: int) -> int {
        self.label_area_height + n_entries * self.entry_height + self.margin.top + self.margin.bottom
    }

    pub open spec fn spec_fixed_width(self) -> int {
        self.avatar_column_width + self.margin.left + self.margin.right
    }

    /// The sizes of the report image for `n_entries` participants.
    pub fn calculate(&self, n_entries: usize) -> (r: Layout)
        requires
            self.aspect_ratio_policy.target_height_ratio > 0,
            self.spec_total_height(n_entries as int) <= u32::MAX,
            spec_timeline_width(
                self.aspect_ratio_policy,
                self.spec_total_height(n_entries as int),
                self.spec_fixed_width(),
                self.min_timeline_width as int,
            ) + self.spec_fixed_width() <= u32::MAX,
        ensures
            r.wf(),
            r.n_entries == n_entries,
            r.total_entry_height == n_entries * self.entry_height,
            r.total_height == self.spec_total_height(n_entries as int),
            r.timeline_width == spec_timeline_width(
                self.aspect_ratio_policy,
                self.spec_total_height(n_entries as int),
                self.spec_fixed_width(),
                self.min_timeline_width as int,
            ),
            r.total_width == r.timeline_width + self.spec_fixed_width(),
            r.margin == self.margin,
            r.label_area_height == self.label_area_height,
            r.entry_height == self.entry_height,
            r.avatar_column_width == self.avatar_column_width,
            r.avatar_size == self.avatar_size,
    {
        proof {
            assert(n_entries * self.entry_height <= self.spec_total_height(n_entries as int)) by (nonlinear_arith)
                requires
                    self.spec_total_height(n_entries as int) == self.label_area_height + n_entries
                        * self.entry_height + self.margin.top + self.margin.bottom,
                    self.label_area_height >= 0,
                    self.margin.top >= 0,
                    self.margin.bottom >= 0,
            ;
        }
        let total_entry_height = n_entries as u64 * self.entry_height as u64;
        let total_height = self.label_area_height as u64 + total_entry_height + self.margin.vertical();
        let fixed = self.fixed_content_width();
        let timeline_width = self.aspect_ratio_policy.calculate_timeline_width(
            total_height,
            fixed,
            self.min_timeline_width as u64,
        );
        Layout {
            n_entries,
            total_width: timeline_width + fixed,
            total_height,
            margin: self.margin,
            label_area_height: self.label_area_height as u64,
            entry_height: self.entry_height as u64,
            total_entry_height,
            avatar_column_width: self.avatar_column_width as u64,
            timeline_width,
            avatar_size: self.avatar_size as u64,
        }
    }

    fn fixed_content_width(&self) -> (r: u64)
        ensures
            r == self.spec_fixed_width(),
    {
        self.avatar_column_width as u64 + self.margin.horizontal()
    }
}

/// The computed sizes of one report image, in pixels.
#[derive(Debug, Clone, Copy, PartialEq, Eq, Structural)]
pub struct Layout {
    pub n_entries: usize,
    pub total_width: u64,
    pub total_height: u64,
    pub margin: Margin,
    pub label_area_height: u64,
    pub entry_height: u64,
    pub total_entry_height: u64,
    pub avatar_column_width: u64,
    pub timeline_width: u64,
    pub avatar_size: u64,
}

impl Layout {
    /// The layout fits the image: every part lies within its height.
    pub open spec fn wf(self) -> bool {
        &&& self.total_entry_height == self.n_entries * self.entry_height
        &&& self.total_height == self.label_area_height + self.total_entry_height + self.margin.top
            + self.margin.bottom
        &&& self.total_height <= u32::MAX
        &&& self.total_width == self.timeline_width + self.avatar_column_width + self.margin.left
            + self.margin.right
        &&& self.total_width <= u32::MAX
        &&& self.avatar_column_width <= u32::MAX
    }

    pub fn total_width(&self) -> (r: u64)
        ensures
            r == self.total_width,
    {
        self.total_width
    }

    pub fn total_height(&self) -> (r: u64)
        ensures
            r == self.total_height,
    {
        self.total_height
    }

    pub fn avatar_size(&self) -> (r: u64)
        ensures
            r == self.avatar_size,
    {
        self.avatar_size
    }

    /// The area of all bars, right of the avatar column and below the labels.
    pub fn full_timeline_bb(&self) -> (r: Rect)
        requires
            self.wf(),
        ensures
            r == (Rect {
                x: (self.margin.left + self.avatar_column_width) as u64,
                y: (self.margin.top + self.label_area_height) as u64,
                width: self.timeline_width,
                height: self.total_entry_height,
            }),
    {
        Rect {
            x: self.margin.left as u64 + self.avatar_column_width,
            y: self.margin.top as u64 + self.label_area_height,
            width: self.timeline_width,
            height: self.total_entry_height,
        }
    }

    /// The bar cell of the `i`-th entry.
    pub fn timeline_bb_for_entry(&self, i: usize) -> (r: Rect)
        requires
            self.wf(),
            i < self.n_entries,
        ensures
            r == (Rect {
                x: (self.margin.left + self.avatar_column_width) as u64,
                y: (self.margin.top + self.label_area_height + i * self.entry_height) as u64,
                width: self.timeline_width,
                height: self.entry_height,
            }),
    {
        let y = self.entry_y(i);
        Rect {
            x: self.margin.left as u64 + self.avatar_column_width,
            y,
            width: self.timeline_width,
            height: self.entry_height,
        }
    }

    /// The avatar cell of the `i`-th entry.
    pub fn headline_bb_for_entry(&self, i: usize) -> (r: Rect)
        requires
            self.wf(),
            i < self.n_entries,
        ensures
            r == (Rect {
                x: self.margin.left as u64,
                y: (self.margin.top + self.label_area_height + i * self.entry_height) as u64,
                width: self.avatar_column_width,
                height: self.entry_height,
            }),
    {
        let y = self.entry_y(i);
        Rect { x: self.margin.left as u64, y, width: self.avatar_column_width, height: self.entry_height }
    }

    fn entry_y(&self, i: usize) -> (r: u64)
        requires
            self.wf(),
            i < self.n_entries,
        ensures
            r == self.margin.top + self.label_area_height + i * self.entry_height,
    {
        proof {
            assert(i * self.entry_height <= self.n_entries * self.entry_height) by (nonlinear_arith)
                requires
                    i < self.n_entries,
                    self.entry_height >= 0,
            ;
        }
        self.margin.top as u64 + self.label_area_height + i as u64 * self.entry_height
    }
}

} // verus!
