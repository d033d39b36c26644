//! Scroll state management for the viewer.
//!
//! All positions are whole pixels. The state keeps three offsets: the
//! current scroll position, the smooth-scrolling target and the derived
//! maximum, plus the bookkeeping for dragging the scroll thumb. Every
//! transition clamps the offsets it touches into `[0, max_scroll_y]`.

use vstd::prelude::*;

verus! {

/// Scroll state for the viewer.
///
/// `scroll_y` is the current offset, `target_scroll_y` the offset smooth
/// scrolling is heading to, and `max_scroll_y` the derived upper bound,
/// recomputed from content and viewport heights and never set directly by
/// navigation.
#[derive(Clone, Copy, Debug, PartialEq, Eq, Structural)]
pub struct ScrollState {
    pub scroll_y: u64,
    pub max_scroll_y: u64,
    pub target_scroll_y: u64,
    pub is_dragging: bool,
    pub drag_start_y: u32,
    pub drag_start_scroll: u64,
}

impl ScrollState {
    /// Both user-visible offsets lie inside the scrollable range.
    pub open spec fn wf(self) -> bool {
        self.scroll_y <= self.max_scroll_y && self.target_scroll_y <= self.max_scroll_y
    }

    pub fn new() -> (s: Self)
        ensures
            s.scroll_y == 0,
            s.max_scroll_y == 0,
            s.target_scroll_y == 0,
            !s.is_dragging,
            s.drag_start_y == 0,
            s.drag_start_scroll == 0,
            s.wf(),
    {
        ScrollState {
            scroll_y: 0,
            max_scroll_y: 0,
            target_scroll_y: 0,
            is_dragging: false,
            drag_start_y: 0,
            drag_start_scroll: 0,
        }
    }

    /// Scroll up by `amount` pixels, stopping at the top.
    pub fn scroll_up(&mut self, amount: u64)
        ensures
            final(self).scroll_y == if old(self).scroll_y >= amount {
                old(self).scroll_y - amount
            } else {
                0
            },
            *final(self) == (ScrollState { scroll_y: final(self).scroll_y, ..*old(self) }),
    {
        if self.scroll_y >= amount {
            self.scroll_y = self.scroll_y - amount;
        } else {
            self.scroll_y = 0;
        }
    }

    /// Scroll down by `amount` pixels, stopping at `max_scroll_y`.
    pub fn scroll_down(&mut self, amount: u64)
        ensures
            final(self).scroll_y == vstd::math::min(
                old(self).scroll_y + amount,
                old(self).max_scroll_y as int,
            ),
            *final(self) == (ScrollState { scroll_y: final(self).scroll_y, ..*old(self) }),
    {
        if self.scroll_y < self.max_scroll_y && amount < self.max_scroll_y - self.scroll_y {
            self.scroll_y = self.scroll_y + amount;
        } else {
            self.scroll_y = self.max_scroll_y;
        }
    }

    /// Scroll up by one page: 80% of the viewport height.
    pub fn page_up(&mut self, viewport_height: u32)
        ensures
            final(self).scroll_y == if old(self).scroll_y >= page_amount(viewport_height) {
                old(self).scroll_y - page_amount(viewport_height)
            } else {
                0
            },
            *final(self) == (ScrollState { scroll_y: final(self).scroll_y, ..*old(self) }),
    {
        let amount: u64 = (viewport_height as u64) * 8 / 10;
        self.scroll_up(amount);
    }

    /// Scroll down by one page: 80% of the viewport height.
    pub fn page_down(&mut self, viewport_height: u32)
        ensures
            final(self).scroll_y == vstd::math::min(
                old(self).scroll_y + page_amount(viewport_height),
                old(self).max_scroll_y as int,
            ),
            *final(self) == (ScrollState { scroll_y: final(self).scroll_y, ..*old(self) }),
    {
        let amount: u64 = (viewport_height as u64) * 8 / 10;
        self.scroll_down(amount);
    }

    /// Jump to the top of the document.
    pub fn scroll_to_top(&mut self)
        ensures
            final(self).scroll_y == 0,
            *final(self) == (ScrollState { scroll_y: 0, ..*old(self) }),
    {
        self.scroll_y = 0;
    }

    /// Jump to the bottom of the document.
    pub fn scroll_to_bottom(&mut self)
        ensures
            final(self).scroll_y == old(self).max_scroll_y,
            *final(self) == (ScrollState { scroll_y: final(self).scroll_y, ..*old(self) }),
    {
        self.scroll_y = self.max_scroll_y;
    }

    /// Recompute the scroll bound from content and viewport heights and
    /// re-clamp both offsets against it. The current offset is kept where
    /// it is unless the new bound forces it down; it is never reset.
    pub fn set_max_scroll(&mut self, content_height: u64, viewport_height: u32)
        ensures
            final(self).max_scroll_y == if content_height >= viewport_height {
                content_height - viewport_height
            } else {
                0
            },
            final(self).scroll_y == vstd::math::min(
                old(self).scroll_y as int,
                final(self).max_scroll_y as int,
            ),
            final(self).target_scroll_y == vstd::math::min(
                old(self).target_scroll_y as int,
                final(self).max_scroll_y as int,
            ),
            final(self).is_dragging == old(self).is_dragging,
            final(self).drag_start_y == old(self).drag_start_y,
            final(self).drag_start_scroll == old(self).drag_start_scroll,
            final(self).wf(),
    {
        if content_height >= viewport_height as u64 {
            self.max_scroll_y = content_height - viewport_height as u64;
        } else {
            self.max_scroll_y = 0;
        }
        if self.scroll_y > self.max_scroll_y {
            self.scroll_y = self.max_scroll_y;
        }
        if self.target_scroll_y > self.max_scroll_y {
            self.target_scroll_y = self.max_scroll_y;
        }
    }

    /// Re-clamp the current offset into the valid range.
    pub fn reclamp(&mut self)
        ensures
            final(self).scroll_y == vstd::math::min(
                old(self).scroll_y as int,
                old(self).max_scroll_y as int,
            ),
            *final(self) == (ScrollState { scroll_y: final(self).scroll_y, ..*old(self) }),
    {
        if self.scroll_y > self.max_scroll_y {
            self.scroll_y = self.max_scroll_y;
        }
    }

    /// Set the smooth-scrolling target, clamped into the valid range.
    pub fn smooth_scroll_to(&mut self, target: u64)
        ensures
            final(self).target_scroll_y == vstd::math::min(
                target as int,
                old(self).max_scroll_y as int,
            ),
            *final(self) == (ScrollState {
                target_scroll_y: final(self).target_scroll_y,
                ..*old(self)
            }),
    {
        if target > self.max_scroll_y {
            self.target_scroll_y = self.max_scroll_y;
        } else {
            self.target_scroll_y = target;
        }
    }

    /// Advance the smooth-scrolling animation by `delta_ms` milliseconds.
    ///
    /// The offset moves toward the target by the fraction
    /// `min(1000, 10 * delta_ms) / 1000` of the remaining distance and
    /// snaps exactly onto the target once the step rounds down to nothing.
    pub fn update_smooth_scroll(&mut self, delta_ms: u64)
        ensures
            final(self).scroll_y == smooth_step(
                old(self).scroll_y,
                old(self).target_scroll_y,
                delta_ms,
            ),
            *final(self) == (ScrollState { scroll_y: final(self).scroll_y, ..*old(self) }),
    {
        let factor: u64 = if delta_ms >= 100 {
            1000
        } else {
            delta_ms * 10
        };
        assert(factor == vstd::math::min(1000, 10 * delta_ms as int));
        if self.scroll_y < self.target_scroll_y {
            let diff: u64 = self.target_scroll_y - self.scroll_y;
            proof {
                lemma_scaled_step_bound(diff as int, factor as int);
            }
            let step: u64 = ((diff as u128) * (factor as u128) / 1000) as u64;
            if step == 0 {
                self.scroll_y = self.target_scroll_y;
            } else {
                self.scroll_y = self.scroll_y + step;
            }
        } else if self.scroll_y > self.target_scroll_y {
            let diff: u64 = self.scroll_y - self.target_scroll_y;
            proof {
                lemma_scaled_step_bound(diff as int, factor as int);
            }
            let step: u64 = ((diff as u128) * (factor as u128) / 1000) as u64;
            if step == 0 {
                self.scroll_y = self.target_scroll_y;
            } else {
                self.scroll_y = self.scroll_y - step;
            }
        } else {
            self.scroll_y = self.target_scroll_y;
        }
    }

    /// Begin dragging the scroll thumb at pointer position `mouse_y`.
    pub fn start_drag(&mut self, mouse_y: u32)
        ensures
            final(self).is_dragging,
            final(self).drag_start_y == mouse_y,
            final(self).drag_start_scroll == old(self).scroll_y,
            *final(self) == (ScrollState {
                is_dragging: true,
                drag_start_y: mouse_y,
                drag_start_scroll: old(self).scroll_y,
                ..*old(self)
            }),
    {
        self.is_dragging = true;
        self.drag_start_y = mouse_y;
        self.drag_start_scroll = self.scroll_y;
    }

    /// Stop dragging the scroll thumb.
    pub fn stop_drag(&mut self)
        ensures
            !final(self).is_dragging,
            *final(self) == (ScrollState { is_dragging: false, ..*old(self) }),
    {
        self.is_dragging = false;
    }

    /// While dragging, convert the pointer delta into a scroll delta
    /// proportional to `max_scroll_y / viewport_height` and steer the
    /// smooth-scrolling target to the clamped result.
    pub fn update_drag(&mut self, mouse_y: u32, viewport_height: u32)
        requires
            viewport_height > 0,
        ensures
            final(self).target_scroll_y == if old(self).is_dragging && old(self).max_scroll_y > 0 {
                drag_target(*old(self), mouse_y, viewport_height)
            } else {
                old(self).target_scroll_y as int
            },
            *final(self) == (ScrollState {
                target_scroll_y: final(self).target_scroll_y,
                ..*old(self)
            }),
    {
        if self.is_dragging && self.max_scroll_y > 0 {
            if mouse_y >= self.drag_start_y {
                let delta: u128 = (mouse_y - self.drag_start_y) as u128;
                proof {
                    lemma_drag_scale_bound(
                        delta as int,
                        self.max_scroll_y as int,
                        viewport_height as int,
                    );
                }
                let scroll_delta: u128 = delta * self.max_scroll_y as u128
                    / viewport_height as u128;
                let shifted: u128 = self.drag_start_scroll as u128 + scroll_delta;
                let clamped: u64 = if shifted >= self.max_scroll_y as u128 {
                    self.max_scroll_y
                } else {
                    shifted as u64
                };
                self.smooth_scroll_to(clamped);
            } else {
                let delta: u128 = (self.drag_start_y - mouse_y) as u128;
                proof {
                    lemma_drag_scale_bound(
                        delta as int,
                        self.max_scroll_y as int,
                        viewport_height as int,
                    );
                }
                let scroll_delta: u128 = delta * self.max_scroll_y as u128
                    / viewport_height as u128;
                let clamped: u64 = if self.drag_start_scroll as u128 >= scroll_delta {
                    let shifted: u128 = self.drag_start_scroll as u128 - scroll_delta;
                    if shifted >= self.max_scroll_y as u128 {
                        self.max_scroll_y
                    } else {
                        shifted as u64
                    }
                } else {
                    0
                };
                self.smooth_scroll_to(clamped);
            }
        }
    }
}

impl Default for ScrollState {
    fn default() -> (s: Self)
        ensures
            s == (ScrollState {
                scroll_y: 0,
                max_scroll_y: 0,
                target_scroll_y: 0,
                is_dragging: false,
                drag_start_y: 0,
                drag_start_scroll: 0,
            }),
    {
        ScrollState::new()
    }
}

/// Pixels moved by one page: 80% of the viewport height, rounded down.
pub open spec fn page_amount(viewport_height: u32) -> int {
    viewport_height * 8 / 10
}

/// The offset one smoothing tick of `delta_ms` milliseconds reaches when
/// moving from `from` toward `target`.
pub open spec fn smooth_step(from: u64, target: u64, delta_ms: u64) -> int {
    let factor = vstd::math::min(1000, 10 * delta_ms as int);
    let dist = vstd::math::abs(target - from);
    let step = dist * factor / 1000;
    if step == 0 {
        target as int
    } else if from < target {
        from + step
    } else {
        from - step
    }
}

/// The smooth-scrolling target a drag to pointer position `mouse_y` asks
/// for: the scroll position at the start of the drag, shifted by the
/// pointer delta scaled with `max_scroll_y / viewport_height`, clamped
/// into the valid range.
pub open spec fn drag_target(s: ScrollState, mouse_y: u32, viewport_height: u32) -> int {
    let scaled = if mouse_y >= s.drag_start_y {
        (mouse_y - s.drag_start_y) * (s.max_scroll_y as int) / (viewport_height as int)
    } else {
        -((s.drag_start_y - mouse_y) * (s.max_scroll_y as int) / (viewport_height as int))
    };
    let shifted = s.drag_start_scroll + scaled;
    if shifted <= 0 {
        0
    } else if shifted >= s.max_scroll_y {
        s.max_scroll_y as int
    } else {
        shifted
    }
}

/// The pointer delta scaled by `max_scroll / viewport_height` stays far
/// below the range of the 128-bit intermediates.
proof fn lemma_drag_scale_bound(delta: int, max_scroll: int, viewport_height: int)
    requires
        0 <= delta <= u32::MAX,
        0 <= max_scroll <= u64::MAX,
        viewport_height >= 1,
    ensures
        0 <= delta * max_scroll <= (u32::MAX as int) * (u64::MAX as int),
        0 <= delta * max_scroll / viewport_height <= (u32::MAX as int) * (u64::MAX as int),
{
    assert(0 <= delta * max_scroll <= (u32::MAX as int) * (u64::MAX as int))
        by (nonlinear_arith)
        requires
            0 <= delta <= u32::MAX,
            0 <= max_scroll <= u64::MAX,
    ;
    assert(0 <= delta * max_scroll / viewport_height <= delta * max_scroll)
        by (nonlinear_arith)
        requires
            0 <= delta * max_scroll,
            viewport_height >= 1,
    ;
}

/// A step scaled by at most 1000/1000 never exceeds the distance itself.
proof fn lemma_scaled_step_bound(diff: int, factor: int)
    requires
        0 <= diff <= u64::MAX,
        0 <= factor <= 1000,
    ensures
        0 <= diff * factor / 1000 <= diff,
{
    assert(0 <= diff * factor / 1000 <= diff) by (nonlinear_arith)
        requires
            0 <= diff,
            0 <= factor <= 1000,
    ;
}

} // verus!
