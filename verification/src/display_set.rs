//! Display-set assembly: the accumulator that groups the segments of one
//! epoch, the state derived from what it holds, and the frames that come
//! out of a whole stream.

use vstd::prelude::*;

use crate::decode::ods::{ObjectDefinition, ObjectModel};
use crate::decode::pcs::{CompositionModel, PresentationComposition};
use crate::decode::pds::{PaletteDefinition, PaletteModel};
use crate::decode::wds::WindowDefinition;
use crate::stream::{
    decode_segments,
    lemma_segments_well_formed,
    segment_models,
    segments_from,
    Segment,
    SegmentModel,
    StreamError,
};
use crate::time::Timestamp;

verus! {

/// How much of a display set an accumulator holds.
#[derive(Debug, Clone, Copy, PartialEq, Eq, Structural)]
pub enum DisplaySetState {
    /// No composition yet, or a composition without any window.
    Incomplete,
    /// Composition and windows, but palette or object are missing: a
    /// palette-only update or a composition that clears the screen.
    EmptyFrame,
    /// Composition, windows, palette and object: a frame to render.
    Complete,
}

/// A complete display set: one subtitle frame.
#[derive(Debug, Clone)]
pub struct DisplaySet {
    pub pts: Timestamp,
    pub pcs: PresentationComposition,
    pub wds: Vec<WindowDefinition>,
    pub pds: PaletteDefinition,
    pub ods: ObjectDefinition,
}

/// The accumulator of one epoch.
#[derive(Debug, Clone)]
pub struct DisplaySetBuilder {
    pub pts: Option<Timestamp>,
    pub pcs: Option<PresentationComposition>,
    pub wds: Vec<WindowDefinition>,
    pub pds: Option<PaletteDefinition>,
    pub ods: Option<ObjectDefinition>,
}

/// What a `DisplaySet` holds, as a mathematical value.
pub struct DisplaySetModel {
    pub pts: Timestamp,
    pub pcs: CompositionModel,
    pub wds: Seq<WindowDefinition>,
    pub pds: PaletteModel,
    pub ods: ObjectModel,
}

/// What a `DisplaySetBuilder` holds, as a mathematical value.
pub struct BuilderModel {
    pub pts: Option<Timestamp>,
    pub pcs: Option<CompositionModel>,
    pub wds: Seq<WindowDefinition>,
    pub pds: Option<PaletteModel>,
    pub ods: Option<ObjectModel>,
}

impl View for DisplaySet {
    type V = DisplaySetModel;

    open spec fn view(&self) -> DisplaySetModel {
        DisplaySetModel {
            pts: self.pts,
            pcs: self.pcs@,
            wds: self.wds@,
            pds: self.pds@,
            ods: self.ods@,
        }
    }
}

impl View for DisplaySetBuilder {
    type V = BuilderModel;

    open spec fn view(&self) -> BuilderModel {
        BuilderModel {
            pts: self.pts,
            pcs: match self.pcs {
                Some(pcs) => Some(pcs@),
                None => None,
            },
            wds: self.wds@,
            pds: match self.pds {
                Some(pds) => Some(pds@),
                None => None,
            },
            ods: match self.ods {
                Some(ods) => Some(ods@),
                None => None,
            },
        }
    }
}

impl DisplaySetModel {
    /// The composition declares as many objects as it lists, there is a
    /// window, and the bitmap fills its rectangle.
    pub open spec fn well_formed(self) -> bool {
        self.pcs.well_formed() && self.wds.len() > 0 && self.ods.well_formed()
    }
}

impl BuilderModel {
    /// Whatever composition and object the accumulator holds is well
    /// formed.
    pub open spec fn parts_well_formed(self) -> bool {
        (self.pcs is Some ==> self.pcs.unwrap().well_formed()) && (self.ods is Some
            ==> self.ods.unwrap().well_formed())
    }

    /// The accumulator at the start of an epoch.
    pub open spec fn empty() -> BuilderModel {
        BuilderModel { pts: None, pcs: None, wds: Seq::empty(), pds: None, ods: None }
    }

    /// The state derived from which parts are present.
    pub open spec fn state(self) -> DisplaySetState {
        if self.pts is Some && self.pcs is Some && self.wds.len() > 0 {
            if self.pds is Some && self.ods is Some {
                DisplaySetState::Complete
            } else {
                DisplaySetState::EmptyFrame
            }
        } else {
            DisplaySetState::Incomplete
        }
    }

    /// The accumulator after one more segment of the epoch. A composition
    /// sets the time and replaces the composition, windows are appended,
    /// palette and object replace what was held; an end marker changes
    /// nothing of the accumulator itself.
    pub open spec fn absorb(self, segment: SegmentModel) -> BuilderModel {
        match segment {
            SegmentModel::Pcs(pts, pcs) => BuilderModel { pts: Some(pts), pcs: Some(pcs), ..self },
            SegmentModel::Wds(_, wds) => BuilderModel { wds: self.wds + wds, ..self },
            SegmentModel::Pds(_, pds) => BuilderModel { pds: Some(pds), ..self },
            SegmentModel::Ods(_, ods) => BuilderModel { ods: Some(ods), ..self },
            SegmentModel::End => self,
        }
    }

    /// The frame that a complete accumulator holds.
    pub open spec fn frame(self) -> DisplaySetModel
        recommends
            self.state() == DisplaySetState::Complete,
    {
        DisplaySetModel {
            pts: self.pts.unwrap(),
            pcs: self.pcs.unwrap(),
            wds: self.wds,
            pds: self.pds.unwrap(),
            ods: self.ods.unwrap(),
        }
    }

    /// The frame of a complete accumulator, nothing of any other.
    pub open spec fn complete_frame(self) -> Option<DisplaySetModel> {
        if self.state() == DisplaySetState::Complete {
            Some(self.frame())
        } else {
            None
        }
    }
}

/// The accumulator as it stands after the segments `segments`: what the
/// segments since the last end marker have put into it.
pub open spec fn running(segments: Seq<SegmentModel>) -> BuilderModel
    decreases segments.len(),
{
    if segments.len() == 0 {
        BuilderModel::empty()
    } else if segments.last() is End {
        BuilderModel::empty()
    } else {
        running(segments.drop_last()).absorb(segments.last())
    }
}

/// The display sets that the segments `segments` have closed: one for each
/// end marker, holding what was accumulated before it. Segments after the
/// last end marker close nothing.
pub open spec fn assembled(segments: Seq<SegmentModel>) -> Seq<BuilderModel>
    decreases segments.len(),
{
    if segments.len() == 0 {
        Seq::empty()
    } else if segments.last() is End {
        assembled(segments.drop_last()).push(running(segments.drop_last()))
    } else {
        assembled(segments.drop_last())
    }
}

/// The models of a sequence of accumulators, one for one.
pub open spec fn builder_models(sets: Seq<DisplaySetBuilder>) -> Seq<BuilderModel> {
    sets.map_values(|set: DisplaySetBuilder| set@)
}

/// The models of a sequence of display sets, one for one.
pub open spec fn frame_models(frames: Seq<DisplaySet>) -> Seq<DisplaySetModel> {
    frames.map_values(|frame: DisplaySet| frame@)
}

/// The frames among `sets`: those that are complete, in their order.
pub open spec fn renderable(sets: Seq<BuilderModel>) -> Seq<DisplaySetModel> {
    sets.filter_map(|set: BuilderModel| set.complete_frame())
}

/// Well-formed segments keep the accumulator and every closed display set
/// well formed in their parts.
pub proof fn lemma_assembled_well_formed(segments: Seq<SegmentModel>)
    requires
        forall|k: int| 0 <= k < segments.len() ==> (#[trigger] segments[k]).well_formed(),
    ensures
        running(segments).parts_well_formed(),
        forall|k: int|
            0 <= k < assembled(segments).len() ==> (#[trigger] assembled(
                segments,
            )[k]).parts_well_formed(),
    decreases segments.len(),
{
    if segments.len() > 0 {
        let front = segments.drop_last();
        assert forall|k: int| 0 <= k < front.len() implies (#[trigger] front[k]).well_formed() by {
            assert(segments[k].well_formed());
        }
        lemma_assembled_well_formed(front);
        assert(segments.last() == segments[segments.len() - 1]);
        assert(segments.last().well_formed());
        assert forall|k: int| 0 <= k < assembled(segments).len() implies (#[trigger] assembled(
            segments,
        )[k]).parts_well_formed() by {
            if k < assembled(front).len() {
                assert(assembled(segments)[k] == assembled(front)[k]);
            }
        }
    }
}

/// Every frame among display sets that are well formed in their parts is
/// well formed: its composition declares as many objects as it lists, it
/// has a window, and its bitmap fills its rectangle.
pub proof fn lemma_renderable_well_formed(sets: Seq<BuilderModel>)
    requires
        forall|k: int| 0 <= k < sets.len() ==> (#[trigger] sets[k]).parts_well_formed(),
    ensures
        forall|k: int|
            0 <= k < renderable(sets).len() ==> (#[trigger] renderable(sets)[k]).well_formed(),
    decreases sets.len(),
{
    if sets.len() > 0 {
        let front = sets.drop_last();
        assert forall|k: int| 0 <= k < front.len() implies (#[trigger] front[k]).parts_well_formed(
        ) by {
            assert(sets[k].parts_well_formed());
        }
        lemma_renderable_well_formed(front);
        assert(sets.last() == sets[sets.len() - 1]);
        assert(sets.last().parts_well_formed());
        assert forall|k: int| 0 <= k < renderable(sets).len() implies (#[trigger] renderable(
            sets,
        )[k]).well_formed() by {
            if k < renderable(front).len() {
                assert(renderable(sets)[k] == renderable(front)[k]);
            }
        }
    }
}

/// Every frame that a stream decodes to is well formed.
pub proof fn lemma_frames_well_formed(s: Seq<u8>)
    ensures
        frames_of(s) is Ok ==> forall|k: int|
            0 <= k < frames_of(s).unwrap().len() ==> (#[trigger] frames_of(
                s,
            ).unwrap()[k]).well_formed(),
{
    if frames_of(s) is Ok {
        let segments = segments_from(s, 0).unwrap();
        lemma_segments_well_formed(s, 0);
        lemma_assembled_well_formed(segments);
        lemma_renderable_well_formed(assembled(segments));
    }
}

/// The transition rule. One more segment changes the accumulator and the
/// closed display sets as follows: an end marker closes the accumulator as
/// it stands and a fresh one begins; any other segment closes nothing and
/// is taken into the accumulator.
pub proof fn lemma_step(segments: Seq<SegmentModel>, next: SegmentModel)
    ensures
        next is End ==> assembled(segments.push(next)) == assembled(segments).push(
            running(segments),
        ) && running(segments.push(next)) == BuilderModel::empty(),
        !(next is End) ==> assembled(segments.push(next)) == assembled(segments) && running(
            segments.push(next),
        ) == running(segments).absorb(next),
{
    assert(segments.push(next).drop_last() == segments);
}

/// A composition, windows and an end marker make one display set, which is
/// an empty frame as long as any window was defined.
pub proof fn lemma_composition_windows_end(
    pts: Timestamp,
    pcs: CompositionModel,
    wds_pts: Timestamp,
    wds: Seq<WindowDefinition>,
)
    requires
        wds.len() > 0,
    ensures
        assembled(
            seq![SegmentModel::Pcs(pts, pcs), SegmentModel::Wds(wds_pts, wds), SegmentModel::End],
        ).len() == 1,
        assembled(
            seq![SegmentModel::Pcs(pts, pcs), SegmentModel::Wds(wds_pts, wds), SegmentModel::End],
        )[0].state() == DisplaySetState::EmptyFrame,
{
    let a = SegmentModel::Pcs(pts, pcs);
    let b = SegmentModel::Wds(wds_pts, wds);
    let none = Seq::<SegmentModel>::empty();
    lemma_step(none, a);
    lemma_step(none.push(a), b);
    lemma_step(none.push(a).push(b), SegmentModel::End);
    assert(seq![a, b, SegmentModel::End] == none.push(a).push(b).push(SegmentModel::End));
}

/// A composition, windows, a palette, an object and an end marker make one
/// display set, which is complete as long as any window was defined, and
/// holds exactly these four parts.
pub proof fn lemma_full_epoch_is_complete(
    pts: Timestamp,
    pcs: CompositionModel,
    wds: Seq<WindowDefinition>,
    pds: PaletteModel,
    ods: ObjectModel,
)
    requires
        wds.len() > 0,
    ensures
        assembled(
            seq![
                SegmentModel::Pcs(pts, pcs),
                SegmentModel::Wds(pts, wds),
                SegmentModel::Pds(pts, pds),
                SegmentModel::Ods(pts, ods),
                SegmentModel::End,
            ],
        ).len() == 1,
        assembled(
            seq![
                SegmentModel::Pcs(pts, pcs),
                SegmentModel::Wds(pts, wds),
                SegmentModel::Pds(pts, pds),
                SegmentModel::Ods(pts, ods),
                SegmentModel::End,
            ],
        )[0].complete_frame() == Some(DisplaySetModel { pts, pcs, wds, pds, ods }),
{
    let a = SegmentModel::Pcs(pts, pcs);
    let b = SegmentModel::Wds(pts, wds);
    let c = SegmentModel::Pds(pts, pds);
    let d = SegmentModel::Ods(pts, ods);
    let none = Seq::<SegmentModel>::empty();
    lemma_step(none, a);
    lemma_step(none.push(a), b);
    lemma_step(none.push(a).push(b), c);
    lemma_step(none.push(a).push(b).push(c), d);
    lemma_step(none.push(a).push(b).push(c).push(d), SegmentModel::End);
    assert(seq![a, b, c, d, SegmentModel::End] == none.push(a).push(b).push(c).push(d).push(
        SegmentModel::End,
    ));
    assert(Seq::<WindowDefinition>::empty() + wds == wds);
}

/// A composition closed at once, without any window, makes one display
/// set, which is incomplete.
pub proof fn lemma_composition_end_is_incomplete(pts: Timestamp, pcs: CompositionModel)
    ensures
        assembled(seq![SegmentModel::Pcs(pts, pcs), SegmentModel::End]).len() == 1,
        assembled(seq![SegmentModel::Pcs(pts, pcs), SegmentModel::End])[0].state()
            == DisplaySetState::Incomplete,
{
    let a = SegmentModel::Pcs(pts, pcs);
    let none = Seq::<SegmentModel>::empty();
    lemma_step(none, a);
    lemma_step(none.push(a), SegmentModel::End);
    assert(seq![a, SegmentModel::End] == none.push(a).push(SegmentModel::End));
}

/// Window segments of one epoch accumulate: after two of them the
/// accumulator holds the windows of the first followed by those of the
/// second, wherever in the epoch they come.
pub proof fn lemma_windows_accumulate(
    segments: Seq<SegmentModel>,
    first_pts: Timestamp,
    first: Seq<WindowDefinition>,
    second_pts: Timestamp,
    second: Seq<WindowDefinition>,
)
    ensures
        running(
            segments.push(SegmentModel::Wds(first_pts, first)).push(
                SegmentModel::Wds(second_pts, second),
            ),
        ).wds == running(segments).wds + first + second,
        running(
            segments.push(SegmentModel::Wds(first_pts, first)).push(
                SegmentModel::Wds(second_pts, second),
            ),
        ).wds.len() == running(segments).wds.len() + first.len() + second.len(),
{
    let a = SegmentModel::Wds(first_pts, first);
    let b = SegmentModel::Wds(second_pts, second);
    lemma_step(segments, a);
    lemma_step(segments.push(a), b);
}

/// The state of an accumulator never falls back within an epoch: once a
/// part is present, later segments of the epoch replace or extend it.
pub proof fn lemma_state_grows(acc: BuilderModel, next: SegmentModel)
    ensures
        acc.state() == DisplaySetState::Complete ==> acc.absorb(next).state()
            == DisplaySetState::Complete,
        acc.state() == DisplaySetState::EmptyFrame ==> acc.absorb(next).state()
            != DisplaySetState::Incomplete,
{
}

impl DisplaySet {
    /// The time at which the frame is to be shown.
    pub fn pts(&self) -> (pts: Timestamp)
        ensures
            pts == self.pts,
    {
        self.pts
    }

    /// The composition: video size and the placement of objects.
    pub fn pcs(&self) -> (pcs: &PresentationComposition)
        ensures
            pcs == &self.pcs,
    {
        &self.pcs
    }

    /// The windows of the epoch, in the order of their definition.
    pub fn wds(&self) -> (wds: &Vec<WindowDefinition>)
        ensures
            wds == &self.wds,
    {
        &self.wds
    }

    /// The palette under which the bitmap is shown.
    pub fn pds(&self) -> (pds: &PaletteDefinition)
        ensures
            pds == &self.pds,
    {
        &self.pds
    }

    /// The bitmap.
    pub fn ods(&self) -> (ods: &ObjectDefinition)
        ensures
            ods == &self.ods,
    {
        &self.ods
    }
}

impl Default for DisplaySetBuilder {
    fn default() -> (b: Self)
        ensures
            b@ == BuilderModel::empty(),
    {
        DisplaySetBuilder::new()
    }
}

impl DisplaySetBuilder {
    /// An accumulator that holds nothing.
    pub fn new() -> (b: Self)
        ensures
            b@ == BuilderModel::empty(),
            b@.state() == DisplaySetState::Incomplete,
    {
        Self { pts: None, pcs: None, wds: Vec::new(), pds: None, ods: None }
    }

    /// The state derived from which parts are present.
    pub fn state(&self) -> (s: DisplaySetState)
        ensures
            s == self@.state(),
    {
        if self.pts.is_none() {
            return DisplaySetState::Incomplete;
        }
        if self.pcs.is_some() && !self.wds.is_empty() {
            if self.pds.is_some() && self.ods.is_some() {
                return DisplaySetState::Complete;
            }
            return DisplaySetState::EmptyFrame;
        }
        DisplaySetState::Incomplete
    }

    /// Takes one segment of the epoch into the accumulator.
    pub fn absorb(&mut self, segment: Segment)
        ensures
            final(self)@ == old(self)@.absorb(segment@),
    {
        match segment {
            Segment::Pcs(pts, pcs) => {
                self.pts = Some(pts);
                self.pcs = Some(pcs);
            },
            Segment::Wds(_, wds) => {
                let mut wds = wds;
                self.wds.append(&mut wds);
            },
            Segment::Pds(_, pds) => {
                self.pds = Some(pds);
            },
            Segment::Ods(_, ods) => {
                self.ods = Some(ods);
            },
            Segment::End => {},
        }
    }

    /// The frame of a complete accumulator.
    pub fn build(self) -> (frame: DisplaySet)
        requires
            self@.state() == DisplaySetState::Complete,
        ensures
            frame@ == self@.frame(),
    {
        DisplaySet {
            pts: self.pts.unwrap(),
            pcs: self.pcs.unwrap(),
            wds: self.wds,
            pds: self.pds.unwrap(),
            ods: self.ods.unwrap(),
        }
    }

    /// The frame of this accumulator where it is complete, else `None`.
    pub fn try_build(self) -> (r: Option<DisplaySet>)
        ensures
            (match self@.complete_frame() {
                Some(frame) => r is Some && r->Some_0@ == frame,
                None => r is None,
            }),
    {
        match self.state() {
            DisplaySetState::Complete => Some(self.build()),
            _ => None,
        }
    }
}

/// Groups the segments of a stream into display sets: each end marker
/// closes the accumulator, whatever its state, and a fresh one begins.
pub fn assemble(segments: Vec<Segment>) -> (sets: Vec<DisplaySetBuilder>)
    ensures
        builder_models(sets@) == assembled(segment_models(segments@)),
{
    let ghost all = segment_models(segments@);
    let mut sets: Vec<DisplaySetBuilder> = Vec::new();
    let mut current = DisplaySetBuilder::new();
    for segment in it: segments
        invariant
            it.seq() == segments@,
            all == segment_models(segments@),
            builder_models(sets@) == assembled(all.take(it.index() as int)),
            current@ == running(all.take(it.index() as int)),
    {
        let ghost i = it.index() as int;
        let ghost before = builder_models(sets@);
        proof {
            assert(all.take(i + 1).drop_last() == all.take(i));
            assert(all.take(i + 1).last() == segment@);
        }
        match segment {
            Segment::End => {
                sets.push(current);
                current = DisplaySetBuilder::new();
                assert(builder_models(sets@) == before.push(running(all.take(i))));
            },
            other => {
                current.absorb(other);
            },
        }
    }
    assert(all.take(all.len() as int) == all);
    sets
}

/// Keeps the complete display sets, as frames, in their order.
pub fn complete_frames(sets: Vec<DisplaySetBuilder>) -> (frames: Vec<DisplaySet>)
    ensures
        frame_models(frames@) == renderable(builder_models(sets@)),
{
    let ghost all = builder_models(sets@);
    let mut frames: Vec<DisplaySet> = Vec::new();
    for set in it: sets
        invariant
            it.seq() == sets@,
            all == builder_models(sets@),
            frame_models(frames@) == renderable(all.take(it.index() as int)),
    {
        let ghost i = it.index() as int;
        let ghost before = frame_models(frames@);
        proof {
            assert(all.take(i + 1).drop_last() == all.take(i));
            assert(all.take(i + 1).last() == set@);
        }
        match set.try_build() {
            Some(frame) => {
                frames.push(frame);
                assert(frame_models(frames@) == before + seq![frame@]);
            },
            None => {},
        }
    }
    assert(all.take(all.len() as int) == all);
    frames
}

/// The frames that a stream of segments describes, or the first failure
/// of the walk over it.
pub open spec fn frames_of(s: Seq<u8>) -> Result<Seq<DisplaySetModel>, StreamError> {
    match segments_from(s, 0) {
        Ok(segments) => Ok(renderable(assembled(segments))),
        Err(e) => Err(e),
    }
}

/// Decodes a whole stream into its renderable frames: the segments are
/// framed and decoded, grouped into display sets at each end marker, and
/// the complete sets are kept.
pub fn decode_stream(bytes: &[u8]) -> (r: Result<Vec<DisplaySet>, StreamError>)
    ensures
        (match frames_of(bytes@) {
            Ok(frames) => r is Ok && frame_models(r->Ok_0@) == frames,
            Err(e) => r is Err && r->Err_0 == e,
        }),
        r is Ok ==> forall|k: int|
            0 <= k < r->Ok_0@.len() ==> (#[trigger] r->Ok_0@[k])@.well_formed(),
{
    match decode_segments(bytes) {
        Ok(segments) => {
            let frames = complete_frames(assemble(segments));
            proof {
                lemma_frames_well_formed(bytes@);
                let models = frames_of(bytes@).unwrap();
                assert(frame_models(frames@) == models);
                assert forall|k: int| 0 <= k < frames@.len() implies (#[trigger] frames@[k])@
                    .well_formed() by {
                    assert(frame_models(frames@)[k] == frames@[k]@);
                    assert(models[k].well_formed());
                }
            }
            Ok(frames)
        },
        Err(e) => Err(e),
    }
}

} // verus!
