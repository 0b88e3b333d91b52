//! The ground: a fixed number of segments that scroll left and wrap around,
//! so that the strip never ends.

use crate::scene::{Entity, EntityId, Scene};
use vstd::prelude::*;

verus! {

/// Units the ground moves per tick; negative is leftwards.
pub const BASE_SPEED: i64 = -3;

/// Number of ground segments; they are registered in the slots `1` to `GROUND_SEGMENTS`.
pub const GROUND_SEGMENTS: u8 = 4;

/// Where a segment of the given width stands one tick after it stood at
/// `x`: it moves by `BASE_SPEED`, and once its left edge has passed
/// `-width` it is set to the right by the length of the whole strip.
pub open spec fn scrolled(x: int, width: int) -> int {
    if x + BASE_SPEED < -width {
        x + BASE_SPEED + GROUND_SEGMENTS * width
    } else {
        x + BASE_SPEED
    }
}

/// The registry after the segment in `slot` has scrolled, if there is one.
pub open spec fn segment_scrolled(entities: Map<EntityId, Entity>, slot: u8, width: u32) -> Map<
    EntityId,
    Entity,
> {
    let id = EntityId::Base(slot);
    if entities.dom().contains(id) {
        entities.insert(
            id,
            Entity {
                position: (
                    scrolled(entities[id].position.0 as int, width as int) as i64,
                    entities[id].position.1,
                ),
                ..entities[id]
            },
        )
    } else {
        entities
    }
}

/// The registry after the segments in the slots `1` to `count` have scrolled.
pub open spec fn ground_scrolled(entities: Map<EntityId, Entity>, count: u8, width: u32) -> Map<
    EntityId,
    Entity,
>
    decreases count,
{
    if count == 0 {
        entities
    } else {
        segment_scrolled(ground_scrolled(entities, (count - 1) as u8, width), count, width)
    }
}

/// Whether four segments at `xs` lie edge to edge, beginning with the one
/// at index `lead` and continuing cyclically.
pub open spec fn seamless(xs: Seq<int>, width: int, lead: int) -> bool {
    &&& xs.len() == 4
    &&& 0 <= lead < 4
    &&& xs[(lead + 1) % 4] == xs[lead] + width
    &&& xs[(lead + 2) % 4] == xs[lead] + 2 * width
    &&& xs[(lead + 3) % 4] == xs[lead] + 3 * width
}

/// The positions of four segments one tick later.
pub open spec fn all_scrolled(xs: Seq<int>, width: int) -> Seq<int> {
    Seq::new(4, |k: int| scrolled(xs[k], width))
}

/// The treadmill has neither gap nor overlap: if the four segments lie
/// edge to edge, are at least as wide as one tick's movement, and the
/// leftmost has not passed `-width`, then a tick later they still lie edge
/// to edge and the leftmost still has not passed `-width`. A segment that
/// wraps moves right by exactly four widths, and only the leftmost can wrap.
pub proof fn law_treadmill_stays_seamless(xs: Seq<int>, width: int, lead: int)
    requires
        seamless(xs, width, lead),
        width >= -BASE_SPEED,
        xs[lead] >= -width,
    ensures
        ({
            let wraps = xs[lead] + BASE_SPEED < -width;
            let next = if wraps { (lead + 1) % 4 } else { lead };
            let ys = all_scrolled(xs, width);
            &&& seamless(ys, width, next)
            &&& ys[next] >= -width
            &&& forall|k: int|
                0 <= k < 4 ==> #[trigger] ys[k] == if wraps && k == lead {
                    xs[k] + BASE_SPEED + 4 * width
                } else {
                    xs[k] + BASE_SPEED
                }
        }),
{
    let ys = all_scrolled(xs, width);
    assert(ys[0] == scrolled(xs[0], width));
    assert(ys[1] == scrolled(xs[1], width));
    assert(ys[2] == scrolled(xs[2], width));
    assert(ys[3] == scrolled(xs[3], width));
}

/// Scrolls the segment in `slot` by one tick, if it is registered.
pub fn scroll_segment(scene: &mut Scene, slot: u8, width: u32)
    requires
        old(scene).wf(),
        width >= 1,
    ensures
        final(scene).wf(),
        final(scene)@ == segment_scrolled(old(scene)@, slot, width),
{
    if let Some(segment) = scene.get(EntityId::Base(slot)) {
        let x: i64 = segment.position.0;
        let span: i64 = GROUND_SEGMENTS as i64 * width as i64;
        let moved: i64 = if x < -BASE_SPEED - width as i64 {
            x + (span + BASE_SPEED)
        } else {
            x + BASE_SPEED
        };
        scene.insert(Entity { position: (moved, segment.position.1), ..segment });
    }
}

} // verus!
