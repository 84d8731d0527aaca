use crate::cell::{Cell, Relaxed, ONE_BITS, ZERO_BITS};
use crate::collide::collided;
use crate::lattice::{bounded, Lattice};
use crate::stream::streamed;
use crate::tracers::tracers_moved;
use vstd::prelude::*;

verus! {

/// `post` is `pre` after one sub-step of a frame: a streaming step, then a
/// collision step, then, if there are tracers, a step of every tracer.
pub open spec fn stepped<
    R: Fn(Cell, u64) -> Relaxed,
    C: Fn(u64, u64, u64, u64) -> u64,
    Fl: Fn(u64) -> u32,
    A: Fn(u64, u64) -> u64,
    P: Fn(u64, u64, u32) -> bool,
>(
    pre: &Lattice,
    post: &Lattice,
    relax: &R,
    curl_of: &C,
    floor: &Fl,
    shift: &A,
    past_outlet: &P,
) -> bool {
    exists|a: Lattice, b: Lattice|
        #![trigger streamed(pre, &a), collided(&a, &b, relax, curl_of)]
        {
            &&& a.wf()
            &&& b.wf()
            &&& streamed(pre, &a)
            &&& collided(&a, &b, relax, curl_of)
            &&& if pre.spec_tracers_x().len() > 0 {
                tracers_moved(&b, post, floor, shift, past_outlet)
            } else {
                *post == b
            }
        }
}

/// `post` is `pre` after one frame: the outer ring is set to the inflow
/// equilibrium, and then as many sub-steps follow as the configuration asks
/// for. `trace` holds the engine after the ring was set and after each
/// sub-step.
pub open spec fn framed_by<
    E: Fn(u64, u64, u64) -> Cell,
    R: Fn(Cell, u64) -> Relaxed,
    C: Fn(u64, u64, u64, u64) -> u64,
    Fl: Fn(u64) -> u32,
    A: Fn(u64, u64) -> u64,
    P: Fn(u64, u64, u32) -> bool,
>(
    pre: &Lattice,
    post: &Lattice,
    trace: Seq<Lattice>,
    equilibrium: &E,
    relax: &R,
    curl_of: &C,
    floor: &Fl,
    shift: &A,
    past_outlet: &P,
) -> bool {
    &&& trace.len() == pre.spec_config().spec_steps_per_frame() + 1
    &&& bounded(pre, &trace[0], equilibrium)
    &&& forall|t: int|
        #![trigger trace[t]]
        0 <= t < trace.len() - 1 ==> stepped(
            &trace[t],
            &trace[t + 1],
            relax,
            curl_of,
            floor,
            shift,
            past_outlet,
        )
    &&& trace[trace.len() - 1] == *post
}

/// `post` is `pre` after one frame.
pub open spec fn framed<
    E: Fn(u64, u64, u64) -> Cell,
    R: Fn(Cell, u64) -> Relaxed,
    C: Fn(u64, u64, u64, u64) -> u64,
    Fl: Fn(u64) -> u32,
    A: Fn(u64, u64) -> u64,
    P: Fn(u64, u64, u32) -> bool,
>(
    pre: &Lattice,
    post: &Lattice,
    equilibrium: &E,
    relax: &R,
    curl_of: &C,
    floor: &Fl,
    shift: &A,
    past_outlet: &P,
) -> bool {
    exists|trace: Seq<Lattice>| #[trigger]
        framed_by(pre, post, trace, equilibrium, relax, curl_of, floor, shift, past_outlet)
}

impl Lattice {
    /// One frame: sets the outer ring, then streams, collides and, if there
    /// are tracers, moves them, as often as the configuration asks for. With
    /// no steps per frame only the ring is set.
    ///
    /// The six function values supply the arithmetic: the equilibrium of a
    /// velocity and a density, the relaxation of a cell, the curl from four
    /// neighbouring velocities, the cell index of a coordinate, the sum of a
    /// coordinate and a velocity, and the test for re-injection.
    pub fn update<
        E: Fn(u64, u64, u64) -> Cell,
        R: Fn(Cell, u64) -> Relaxed,
        C: Fn(u64, u64, u64, u64) -> u64,
        Fl: Fn(u64) -> u32,
        A: Fn(u64, u64) -> u64,
        P: Fn(u64, u64, u32) -> bool,
    >(
        &mut self,
        equilibrium: &E,
        relax: &R,
        curl_of: &C,
        floor: &Fl,
        shift: &A,
        past_outlet: &P,
    )
        requires
            old(self).wf(),
            equilibrium.requires((old(self).spec_config().spec_flow_speed(), ZERO_BITS, ONE_BITS)),
            forall|c: Cell, o: u64| relax.requires((c, o)),
            forall|e: u64, w: u64, s: u64, n: u64| curl_of.requires((e, w, s, n)),
            forall|v: u64| floor.requires((v,)),
            forall|a: u64, b: u64| shift.requires((a, b)),
            forall|s: u64, x: u64, limit: u32| past_outlet.requires((s, x, limit)),
        ensures
            final(self).wf(),
            final(self).spec_config() == old(self).spec_config(),
            final(self).same_barriers(old(self)),
            final(self).spec_tracers_x().len() == old(self).spec_tracers_x().len(),
            framed(
                old(self),
                final(self),
                equilibrium,
                relax,
                curl_of,
                floor,
                shift,
                past_outlet,
            ),
    {
        self.set_boundaries(equilibrium);
        let steps: u8 = self.config.steps_per_frame;
        let ghost mut trace: Seq<Lattice> = seq![*self];
        let mut t: u8 = 0;
        while t < steps
            invariant
                t <= steps,
                self.wf(),
                steps == old(self).spec_config().spec_steps_per_frame(),
                self.spec_config() == old(self).spec_config(),
                self.same_barriers(old(self)),
                self.spec_tracers_x().len() == old(self).spec_tracers_x().len(),
                trace.len() == t + 1,
                trace[t as int] == *self,
                bounded(old(self), &trace[0], equilibrium),
                forall|u: int|
                    #![trigger trace[u]]
                    0 <= u < t ==> stepped(
                        &trace[u],
                        &trace[u + 1],
                        relax,
                        curl_of,
                        floor,
                        shift,
                        past_outlet,
                    ),
                forall|c: Cell, o: u64| relax.requires((c, o)),
                forall|e: u64, w: u64, s: u64, n: u64| curl_of.requires((e, w, s, n)),
                forall|v: u64| floor.requires((v,)),
                forall|a: u64, b: u64| shift.requires((a, b)),
                forall|s: u64, x: u64, limit: u32| past_outlet.requires((s, x, limit)),
            decreases steps - t,
        {
            let ghost pre = *self;
            self.stream();
            let ghost a = *self;
            self.collide(relax, curl_of);
            let ghost b = *self;
            if self.flow_particles_x.len() > 0 {
                self.move_particles(floor, shift, past_outlet);
            }
            proof {
                assert(streamed(&pre, &a) && collided(&a, &b, relax, curl_of));
                assert(stepped(&pre, self, relax, curl_of, floor, shift, past_outlet));
                let ghost longer = trace.push(*self);
                assert forall|u: int| #![trigger longer[u]] 0 <= u < t + 1 implies stepped(
                    &longer[u],
                    &longer[u + 1],
                    relax,
                    curl_of,
                    floor,
                    shift,
                    past_outlet,
                ) by {
                    if u < t {
                        assert(stepped(
                            &trace[u],
                            &trace[u + 1],
                            relax,
                            curl_of,
                            floor,
                            shift,
                            past_outlet,
                        ));
                    }
                }
                trace = longer;
            }
            t = t + 1;
        }
        proof {
            assert(framed_by(
                old(self),
                self,
                trace,
                equilibrium,
                relax,
                curl_of,
                floor,
                shift,
                past_outlet,
            ));
        }
    }
}

} // verus!
