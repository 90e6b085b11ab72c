//! How a packed timeline maps back to the recording it was packed from.

use vstd::prelude::*;

verus! {

/// One point that the packed timeline and the recording share.
#[derive(Debug, Clone, Copy, PartialEq, Eq, Structural)]
pub struct TimelineAnchor {
    pub processed_sample: usize,
    pub original_sample: usize,
}

/// The shared points in order; none for a timeline that is the recording's own.
#[derive(Debug, Clone, PartialEq, Eq)]
pub struct TimelineMap {
    pub anchors: Vec<TimelineAnchor>,
}

impl View for TimelineMap {
    type V = Seq<TimelineAnchor>;

    open spec fn view(&self) -> Seq<TimelineAnchor> {
        self.anchors@
    }
}

impl TimelineMap {
    /// The recording's own timeline.
    pub fn identity() -> (map: TimelineMap)
        ensures
            map@ == Seq::<TimelineAnchor>::empty(),
    {
        TimelineMap { anchors: Vec::new() }
    }

    /// A timeline through the given points.
    pub fn from_anchors(anchors: Vec<TimelineAnchor>) -> (map: TimelineMap)
        ensures
            map@ == anchors@,
    {
        TimelineMap { anchors }
    }
}

/// Where a mapper puts sample `processed` of the timeline through `anchors`.
pub open spec fn mapped_original<O: Fn(&TimelineMap, usize) -> usize>(
    mapper: O,
    anchors: Seq<TimelineAnchor>,
    processed: usize,
) -> usize {
    choose|original: usize| #[trigger] maps_to(mapper, anchors, processed, original)
}

/// Whether a mapper may put `processed` of a timeline through `anchors` at `original`.
pub open spec fn maps_to<O: Fn(&TimelineMap, usize) -> usize>(
    mapper: O,
    anchors: Seq<TimelineAnchor>,
    processed: usize,
    original: usize,
) -> bool {
    exists|map: TimelineMap|
        map@ == anchors && #[trigger] call_ensures(mapper, (&map, processed), original)
}

/// Where a mapper puts each sample of each timeline.
pub open spec fn originals_of<O: Fn(&TimelineMap, usize) -> usize>(
    mapper: O,
) -> spec_fn(Seq<TimelineAnchor>, int) -> int {
    |anchors: Seq<TimelineAnchor>, processed: int|
        mapped_original(mapper, anchors, processed as usize) as int
}

/// Whether a mapper answers for every sample of every timeline, always the same for the
/// same points, and within the signed range of the machine word.
pub open spec fn maps<O: Fn(&TimelineMap, usize) -> usize>(mapper: O) -> bool {
    &&& forall|map: TimelineMap, processed: usize|
        #[trigger] call_requires(mapper, (&map, processed))
    &&& forall|map: TimelineMap, processed: usize, original: usize|
        #[trigger] call_ensures(mapper, (&map, processed), original) ==> original <= usize::MAX / 2
    &&& forall|a: TimelineMap, b: TimelineMap, processed: usize, x: usize, y: usize|
        a@ == b@ && #[trigger] call_ensures(mapper, (&a, processed), x)
            && #[trigger] call_ensures(mapper, (&b, processed), y) ==> x == y
}

/// Asks the mapper for one sample.
pub(crate) fn original_of<O: Fn(&TimelineMap, usize) -> usize>(
    mapper: &O,
    timeline: &TimelineMap,
    processed: usize,
) -> (original: usize)
    requires
        maps(*mapper),
    ensures
        original == originals_of(*mapper)(timeline@, processed as int),
        original <= usize::MAX / 2,
{
    let original: usize = mapper(timeline, processed);
    assert(maps_to(*mapper, timeline@, processed, original));
    original
}

} // verus!
