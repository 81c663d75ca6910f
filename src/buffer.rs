//! Buffers of encoded step words, one per color channel, filled in lock-step.
use crate::bounded::{buffer_is_full, buffer_push, buffer_words, empty_buffer, WordBuffer};
use crate::color::{lemma_channels_share_delay, step_word, ColorStep, DELAY_MASK};
use crate::stream::{earliest_change, ColorStepIterator, PlannerModel};
use vstd::prelude::*;

verus! {

/// Words in each channel's step buffer.
pub const STEP_BUFFER_LEN: usize = 2048;

pub open spec fn red_words(steps: Seq<ColorStep>) -> Seq<u32> {
    steps.map_values(|s: ColorStep| step_word(s.color.0, s.delay))
}

pub open spec fn green_words(steps: Seq<ColorStep>) -> Seq<u32> {
    steps.map_values(|s: ColorStep| step_word(s.color.1, s.delay))
}

pub open spec fn blue_words(steps: Seq<ColorStep>) -> Seq<u32> {
    steps.map_values(|s: ColorStep| step_word(s.color.2, s.delay))
}

/// The red, green and blue words of a run of steps: word `i` of each buffer
/// encodes step `i`.
pub struct StepBuffers {
    red: WordBuffer,
    green: WordBuffer,
    blue: WordBuffer,
    steps: Ghost<Seq<ColorStep>>,
}

impl View for StepBuffers {
    type V = Seq<ColorStep>;

    closed spec fn view(&self) -> Seq<ColorStep> {
        self.steps@
    }
}

impl StepBuffers {
    /// Word `i` of each channel buffer encodes step `i`, and the buffers hold
    /// no more than their capacity.
    pub closed spec fn wf(&self) -> bool {
        &&& self.steps@.len() <= STEP_BUFFER_LEN
        &&& buffer_words(self.red) == red_words(self.steps@)
        &&& buffer_words(self.green) == green_words(self.steps@)
        &&& buffer_words(self.blue) == blue_words(self.steps@)
    }

    pub fn new() -> (r: StepBuffers)
        ensures
            r.wf(),
            r@ == Seq::<ColorStep>::empty(),
    {
        proof {
            assert(red_words(Seq::empty()) =~= Seq::empty());
            assert(green_words(Seq::empty()) =~= Seq::empty());
            assert(blue_words(Seq::empty()) =~= Seq::empty());
        }
        StepBuffers {
            red: empty_buffer(),
            green: empty_buffer(),
            blue: empty_buffer(),
            steps: Ghost(Seq::empty()),
        }
    }

    pub fn is_full(&self) -> (r: bool)
        requires
            self.wf(),
        ensures
            r == (self@.len() == STEP_BUFFER_LEN),
    {
        buffer_is_full(&self.red)
    }

    /// Appends the three words of `step`; hands it back when the buffers are
    /// full.
    pub fn push(&mut self, step: ColorStep) -> (r: Result<(), ColorStep>)
        requires
            old(self).wf(),
        ensures
            final(self).wf(),
            old(self)@.len() < STEP_BUFFER_LEN ==> r is Ok,
            old(self)@.len() < STEP_BUFFER_LEN ==> final(self)@ == old(self)@.push(step),
            old(self)@.len() >= STEP_BUFFER_LEN ==> (r matches Err(s) && s == step),
            old(self)@.len() >= STEP_BUFFER_LEN ==> final(self)@ == old(self)@,
    {
        if self.is_full() {
            return Err(step);
        }
        let ghost steps = self.steps@.push(step);
        let red = step.encode_red();
        let green = step.encode_green();
        let blue = step.encode_blue();
        let _ = buffer_push(&mut self.red, red);
        let _ = buffer_push(&mut self.green, green);
        let _ = buffer_push(&mut self.blue, blue);
        proof {
            assert(red_words(steps) =~= red_words(self.steps@).push(red));
            assert(green_words(steps) =~= green_words(self.steps@).push(green));
            assert(blue_words(steps) =~= blue_words(self.steps@).push(blue));
        }
        self.steps = Ghost(steps);
        Ok(())
    }

    /// Pulls the next step from `steps` into the buffers. `false`, with
    /// nothing pulled, once the buffers are full or the planner has ended.
    pub fn push_next_step(&mut self, steps: &mut ColorStepIterator) -> (r: bool)
        requires
            old(self).wf(),
        ensures
            final(self).wf(),
            ({
                let m = old(steps)@;
                let n = earliest_change(m.plan.streams, m.current_time);
                let room = old(self)@.len() < STEP_BUFFER_LEN;
                &&& r <==> room && n <= u64::MAX
                &&& r ==> final(self)@ == old(self)@.push(m.plan.step_from(m.current_time))
                &&& r ==> final(steps)@ == (PlannerModel { plan: m.plan, current_time: Some(n) })
                &&& !r ==> final(self)@ == old(self)@ && final(steps)@ == m
            }),
    {
        if self.is_full() {
            return false;
        }
        match steps.next() {
            Some(step) => {
                let _ = self.push(step);
                true
            },
            None => false,
        }
    }

    /// The red channel's words, one per step.
    pub fn red(&self) -> (r: &WordBuffer)
        requires
            self.wf(),
        ensures
            buffer_words(*r) == red_words(self@),
    {
        &self.red
    }

    /// The green channel's words, one per step.
    pub fn green(&self) -> (r: &WordBuffer)
        requires
            self.wf(),
        ensures
            buffer_words(*r) == green_words(self@),
    {
        &self.green
    }

    /// The blue channel's words, one per step.
    pub fn blue(&self) -> (r: &WordBuffer)
        requires
            self.wf(),
        ensures
            buffer_words(*r) == blue_words(self@),
    {
        &self.blue
    }
}

/// Word `i` of the three channel buffers describes the same step: all three
/// carry its delay field.
pub proof fn lemma_buffers_in_lock_step(steps: Seq<ColorStep>, i: int)
    requires
        0 <= i < steps.len(),
    ensures
        red_words(steps)[i] & DELAY_MASK == steps[i].delay & DELAY_MASK,
        green_words(steps)[i] & DELAY_MASK == steps[i].delay & DELAY_MASK,
        blue_words(steps)[i] & DELAY_MASK == steps[i].delay & DELAY_MASK,
{
    lemma_channels_share_delay(steps[i]);
}

} // verus!
