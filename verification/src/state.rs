//! The state that a renderer keeps between frames, and what one frame does
//! to it.
//!
//! Faces gathered by the steps of a pass pile up out of sight. Once the pass
//! is complete they replace the faces on show, and the next pass starts from
//! the settings of that moment, which then stay fixed until it is complete.

use vstd::prelude::*;
use crate::function::{advanced, orbital, LatticeCursor};
use crate::instance::Instance;
use crate::sample::Sample;
use crate::vantage::Vantage;
use crate::voxel::{bound, in_volume, valid_resolution, THRESHOLD};

verus! {

/// What a frame did.
#[derive(Clone, Copy, Debug, PartialEq, Eq, Structural)]
pub enum Frame {
    /// A step of the pass was scanned; its faces joined those pending.
    Scanned,
    /// The pass was complete: the pending faces went on show, and the
    /// cursor went back to the start.
    Committed,
}

/// Everything the scan carries from one frame to the next.
pub struct ScanState {
    resolution: i16,
    vantage: Vantage,
    cursor: LatticeCursor,
    new_instances: Vec<Instance>,
    instances: Vec<Instance>,
}

impl ScanState {
    /// The resolution of the pass under way.
    pub closed spec fn resolution(&self) -> i16 {
        self.resolution
    }

    /// The vantage of the pass under way.
    pub closed spec fn vantage(&self) -> Vantage {
        self.vantage
    }

    /// Where the pass under way stands.
    pub closed spec fn cursor(&self) -> LatticeCursor {
        self.cursor
    }

    /// The faces gathered by the pass under way.
    pub closed spec fn pending(&self) -> Seq<Instance> {
        self.new_instances@
    }

    /// The faces on show: those of the last pass that was completed.
    pub closed spec fn shown(&self) -> Seq<Instance> {
        self.instances@
    }

    /// The resolution is one the scanner works with, the cursor fits it, and
    /// nothing is pending before the first slice has been scanned.
    pub open spec fn wf(&self) -> bool {
        &&& valid_resolution(self.resolution() as int)
        &&& self.cursor().wf(self.resolution() as int)
        &&& self.cursor().fresh(self.resolution() as int) ==> self.pending().len() == 0
    }

    /// No slice of the pass under way has been scanned: the next frame
    /// takes new settings.
    pub open spec fn at_start(&self) -> bool {
        self.cursor().fresh(self.resolution() as int)
    }

    /// Every slice of the pass under way has been scanned: the next frame
    /// commits.
    pub open spec fn complete(&self) -> bool {
        self.cursor().complete(self.resolution() as int)
    }

    /// The resolution that the next frame scans at, if `offered` is what it
    /// is offered: settings are taken at the start of a pass only.
    pub open spec fn next_resolution(&self, offered: i16) -> i16 {
        if self.at_start() {
            offered
        } else {
            self.resolution()
        }
    }

    /// The vantage that the next frame scans from, if `offered` is what it
    /// is offered.
    pub open spec fn next_vantage(&self, offered: Vantage) -> Vantage {
        if self.at_start() {
            offered
        } else {
            self.vantage()
        }
    }

    /// The major index at which the next frame's step takes up.
    pub open spec fn next_from(&self, offered: i16) -> int {
        if self.at_start() {
            -bound(offered as int)
        } else {
            self.cursor().next()
        }
    }

    /// The state before the first frame: nothing on show, nothing pending, a
    /// pass about to start.
    pub fn new(resolution: i16, vantage: Vantage) -> (state: ScanState)
        requires
            valid_resolution(resolution as int),
        ensures
            state.wf(),
            state.at_start(),
            state.cursor().records().solid().len() == 0,
            state.resolution() == resolution,
            state.vantage() == vantage,
            state.pending() == Seq::<Instance>::empty(),
            state.shown() == Seq::<Instance>::empty(),
    {
        ScanState {
            resolution,
            vantage,
            cursor: LatticeCursor::new(resolution),
            new_instances: Vec::new(),
            instances: Vec::new(),
        }
    }

    /// The resolution of the pass under way.
    pub fn current_resolution(&self) -> (resolution: i16)
        ensures
            resolution == self.resolution(),
    {
        self.resolution
    }

    /// The vantage of the pass under way.
    pub fn current_vantage(&self) -> (vantage: Vantage)
        ensures
            vantage == self.vantage(),
    {
        self.vantage
    }

    /// The major index of the next slice to scan.
    pub fn function_index(&self) -> (index: i16)
        ensures
            index == self.cursor().next(),
    {
        self.cursor.next_major_index()
    }

    /// Where the pass under way stands.
    pub fn lattice_cursor(&self) -> (cursor: &LatticeCursor)
        ensures
            *cursor == self.cursor(),
    {
        &self.cursor
    }

    /// The faces on show.
    pub fn instances(&self) -> (faces: &Vec<Instance>)
        ensures
            faces@ == self.shown(),
    {
        &self.instances
    }

    /// The faces gathered by the pass under way.
    pub fn new_instances(&self) -> (faces: &Vec<Instance>)
        ensures
            faces@ == self.pending(),
    {
        &self.new_instances
    }

    /// Whether the next frame starts a pass, and so takes new settings.
    pub fn at_pass_start(&self) -> (fresh: bool)
        requires
            self.wf(),
        ensures
            fresh == self.at_start(),
    {
        self.cursor.is_fresh(self.resolution)
    }

    /// Whether the pass under way is complete, so that the next frame commits.
    pub fn pass_complete(&self) -> (done: bool)
        requires
            self.wf(),
        ensures
            done == self.complete(),
    {
        self.cursor.is_complete(self.resolution)
    }

    /// Gives up the pass under way: what it has gathered is thrown away and
    /// the cursor goes back to the start. The faces on show stay.
    pub fn abandon(&mut self)
        requires
            old(self).wf(),
        ensures
            final(self).wf(),
            final(self).at_start(),
            final(self).cursor().records().solid().len() == 0,
            final(self).pending() == Seq::<Instance>::empty(),
            final(self).shown() == old(self).shown(),
            final(self).resolution() == old(self).resolution(),
            final(self).vantage() == old(self).vantage(),
    {
        self.new_instances.clear();
        self.cursor.reset(self.resolution);
    }

    /// One frame's work.
    ///
    /// If the pass under way is complete, its faces go on show in place of
    /// the old ones and the cursor goes back to the start; nothing is
    /// scanned. Otherwise one step is scanned against the wall clock and its
    /// faces join those pending. A step that starts a pass first takes
    /// `resolution` and `vantage` as the settings of the pass; a later step
    /// keeps the settings the pass started with, whatever it is offered.
    ///
    /// `probe` has to evaluate the field of the pass that the step belongs
    /// to: ask `at_pass_start` before the call.
    pub fn update<P: Fn(i16, i16, i16) -> Sample>(
        &mut self,
        resolution: i16,
        vantage: Vantage,
        probe: P,
        time_budget: u64,
    ) -> (frame: Frame)
        requires
            old(self).wf(),
            valid_resolution(resolution as int),
            forall|x: i16, y: i16, z: i16|
                in_volume(old(self).next_resolution(resolution) as int, (x, y, z))
                    ==> #[trigger] call_requires(probe, (x, y, z)),
        ensures
            final(self).wf(),
            old(self).complete() ==> {
                &&& frame == Frame::Committed
                &&& final(self).shown() == old(self).pending()
                &&& final(self).pending() == Seq::<Instance>::empty()
                &&& final(self).at_start()
                &&& final(self).cursor().records().solid().len() == 0
                &&& final(self).resolution() == old(self).resolution()
                &&& final(self).vantage() == old(self).vantage()
            },
            !old(self).complete() ==> {
                &&& frame == Frame::Scanned
                &&& final(self).shown() == old(self).shown()
                &&& final(self).resolution() == old(self).next_resolution(resolution)
                &&& final(self).vantage() == old(self).next_vantage(vantage)
                &&& exists|quads: Seq<Instance>|
                    #![trigger old(self).pending() + quads]
                    {
                        &&& advanced(
                            probe,
                            final(self).vantage(),
                            final(self).resolution(),
                            THRESHOLD,
                            old(self).next_from(resolution),
                            final(self).cursor(),
                            quads,
                        )
                        &&& final(self).pending() == old(self).pending() + quads
                    }
            },
    {
        if self.cursor.is_complete(self.resolution) {
            self.instances.clear();
            self.instances.append(&mut self.new_instances);
            self.cursor.reset(self.resolution);
            Frame::Committed
        } else {
            if self.cursor.is_fresh(self.resolution) {
                self.resolution = resolution;
                self.vantage = vantage;
                self.cursor = LatticeCursor::new(resolution);
            }
            let ghost before = self.new_instances@;
            let ghost from = self.cursor.next();
            let mut quads = orbital(
                self.resolution,
                &mut self.cursor,
                self.vantage,
                probe,
                time_budget,
            );
            let ghost gathered = quads@;
            self.new_instances.append(&mut quads);
            proof {
                assert(from == old(self).next_from(resolution));
                assert(advanced(
                    probe,
                    self.vantage(),
                    self.resolution(),
                    THRESHOLD,
                    old(self).next_from(resolution),
                    self.cursor(),
                    gathered,
                ));
                assert(self.pending() == old(self).pending() + gathered);
            }
            Frame::Scanned
        }
    }
}

} // verus!
