//! Timing of the animation that shows one move.

use vstd::prelude::*;

verus! {

/// One step of an animation.
#[derive(Clone, Debug, PartialEq, Eq)]
pub enum AnimationStep {
    /// Put this text on the screen.
    Display(String),
    /// Do nothing for this many microseconds.
    Sleep(u64),
}

/// Mathematical value of an [`AnimationStep`].
pub enum AnimationStepView {
    Display(Seq<char>),
    Sleep(nat),
}

impl View for AnimationStep {
    type V = AnimationStepView;

    open spec fn view(&self) -> AnimationStepView {
        match self {
            AnimationStep::Display(text) => AnimationStepView::Display(text@),
            AnimationStep::Sleep(time) => AnimationStepView::Sleep(*time as nat),
        }
    }
}

/// The values of a list of steps.
pub open spec fn step_views(steps: Seq<AnimationStep>) -> Seq<AnimationStepView> {
    steps.map_values(|step: AnimationStep| step@)
}

/// `round` played `n` times over.
pub open spec fn repeated(round: Seq<AnimationStepView>, n: nat) -> Seq<AnimationStepView>
    decreases n,
{
    if n == 0 {
        Seq::empty()
    } else {
        repeated(round, (n - 1) as nat) + round
    }
}

/// The time that playing `steps` spends asleep.
pub open spec fn time_asleep(steps: Seq<AnimationStepView>) -> nat
    decreases steps.len(),
{
    if steps.len() == 0 {
        0
    } else {
        time_asleep(steps.drop_last()) + match steps.last() {
            AnimationStepView::Sleep(time) => time,
            AnimationStepView::Display(_) => 0,
        }
    }
}

/// The time asleep of two runs of steps adds up.
pub proof fn lemma_time_asleep_adds(first: Seq<AnimationStepView>, second: Seq<AnimationStepView>)
    ensures
        time_asleep(first + second) == time_asleep(first) + time_asleep(second),
    decreases second.len(),
{
    if second.len() == 0 {
        assert(first + second =~= first);
    } else {
        assert((first + second).drop_last() =~= first + second.drop_last());
        lemma_time_asleep_adds(first, second.drop_last());
    }
}

/// Plays a turn while performing a simple animation.
///
/// Every delay is a fixed multiple of the frame duration the animator was made with, so the whole
/// animation of one move always lasts twenty frames.
#[derive(Debug)]
pub struct GameAnimator {
    /// Animation lasting time
    animation_duration_time: u64,
    /// Animation frame duration
    frame_duration: u64,
    /// Number of animation play/undo cycles
    animation_cycles: u64,
    /// Sleep time when `undo turn` is done in animation
    t_undo: u64,
    /// Sleep time when `play turn` is done in animation
    t_play: u64,
    /// Sleep time after animation is over
    t_turn_done: u64,
}

impl GameAnimator {
    #[verifier::type_invariant]
    spec fn well_formed(self) -> bool {
        &&& self.frame_duration > 0
        &&& self.animation_cycles == Self::cycles()
        &&& self.t_undo == self.undo_step()
        &&& self.t_play == self.play_step()
        &&& self.t_turn_done == self.settle_step()
        &&& self.animation_duration_time == self.total_duration()
    }

    /// The frame duration the animator was made with.
    pub closed spec fn frame_unit(self) -> nat {
        self.frame_duration as nat
    }

    /// Number of undo/play cycles in one animation.
    pub open spec fn cycles() -> nat {
        3
    }

    /// Delay after the position before the move is shown.
    pub open spec fn undo_step(self) -> nat {
        2 * self.frame_unit()
    }

    /// Delay after the position after the move is shown.
    pub open spec fn play_step(self) -> nat {
        3 * self.frame_unit()
    }

    /// Delay once the cycles are over.
    pub open spec fn settle_step(self) -> nat {
        5 * self.frame_unit()
    }

    /// Time one whole animation takes.
    pub open spec fn total_duration(self) -> nat {
        Self::cycles() * (self.undo_step() + self.play_step()) + self.settle_step()
    }

    /// One animation lasts exactly twenty frames.
    pub proof fn lemma_total_duration_is_twenty_frames(self)
        ensures
            self.total_duration() == 20 * self.frame_unit(),
    {
    }

    /// One round of the animation: the position before the move, then the position after it,
    /// each with the capture history below it and each followed by its delay.
    pub open spec fn round(
        self,
        before_turn: Seq<char>,
        after_turn: Seq<char>,
        capture_history: Seq<char>,
    ) -> Seq<AnimationStepView> {
        seq![
            AnimationStepView::Display(before_turn + capture_history),
            AnimationStepView::Sleep(self.undo_step()),
            AnimationStepView::Display(after_turn + capture_history),
            AnimationStepView::Sleep(self.play_step()),
        ]
    }

    /// The animation of one move: the rounds, then the delay that lets the new position settle.
    pub open spec fn animation(
        self,
        before_turn: Seq<char>,
        after_turn: Seq<char>,
        capture_history: Seq<char>,
    ) -> Seq<AnimationStepView> {
        repeated(self.round(before_turn, after_turn, capture_history), Self::cycles())
            + seq![AnimationStepView::Sleep(self.settle_step())]
    }

    /// An animation has thirteen steps and spends asleep exactly the total duration.
    pub proof fn lemma_animation_takes_total_duration(
        self,
        before_turn: Seq<char>,
        after_turn: Seq<char>,
        capture_history: Seq<char>,
    )
        ensures
            self.animation(before_turn, after_turn, capture_history).len() == 13,
            time_asleep(self.animation(before_turn, after_turn, capture_history))
                == self.total_duration(),
    {
        let show_before = seq![AnimationStepView::Display(before_turn + capture_history)];
        let undo = seq![AnimationStepView::Sleep(self.undo_step())];
        let show_after = seq![AnimationStepView::Display(after_turn + capture_history)];
        let play = seq![AnimationStepView::Sleep(self.play_step())];
        let settle = seq![AnimationStepView::Sleep(self.settle_step())];
        let round = self.round(before_turn, after_turn, capture_history);
        assert(time_asleep(show_before) == 0 && time_asleep(show_after) == 0
            && time_asleep(undo) == self.undo_step() && time_asleep(play) == self.play_step()
            && time_asleep(settle) == self.settle_step()) by {
            reveal_with_fuel(time_asleep, 2);
        }
        assert(round =~= show_before + undo + show_after + play);
        lemma_time_asleep_adds(show_before, undo);
        lemma_time_asleep_adds(show_before + undo, show_after);
        lemma_time_asleep_adds(show_before + undo + show_after, play);
        let once = repeated(round, 1);
        let twice = repeated(round, 2);
        let thrice = repeated(round, 3);
        assert(once =~= round && twice == once + round && thrice == twice + round) by {
            reveal_with_fuel(repeated, 4);
        }
        lemma_time_asleep_adds(once, round);
        lemma_time_asleep_adds(twice, round);
        lemma_time_asleep_adds(thrice, settle);
        assert(time_asleep(thrice) == 3 * (self.undo_step() + self.play_step()));
        assert(Self::cycles() == 3);
    }

    /// Create new `GameAnimator`
    pub fn new(frame_duration: u64) -> (animator: Self)
        requires
            frame_duration > 0,
            20 * frame_duration <= u64::MAX,
        ensures
            animator.frame_unit() == frame_duration,
    {
        let t_undo: u64 = frame_duration * 2;
        let t_play: u64 = frame_duration * 3;
        let t_turn_done: u64 = frame_duration * 5;
        let animation_cycles: u64 = 3;
        let total_t: u64 = animation_cycles * (t_undo + t_play) + t_turn_done;
        Self {
            animation_duration_time: total_t,
            frame_duration,
            animation_cycles,
            t_undo,
            t_play,
            t_turn_done,
        }
    }

    /// Get animation duration
    pub fn animation_duration(&self) -> (duration: u64)
        ensures
            duration == self.total_duration(),
            duration == 20 * self.frame_unit(),
    {
        proof {
            use_type_invariant(self);
        }
        self.animation_duration_time
    }

    /// Play the turn: the steps that animate it, in the order in which they are to be performed.
    ///
    /// `before_turn` and `after_turn` are the board as displayed before and after the turn,
    /// `capture_history` is the text shown below the board.
    pub fn play_turn(&self, before_turn: &str, after_turn: &str, capture_history: &str) -> (steps:
        Vec<AnimationStep>)
        ensures
            step_views(steps@) == self.animation(before_turn@, after_turn@, capture_history@),
    {
        proof {
            use_type_invariant(self);
        }
        let ghost round = self.round(before_turn@, after_turn@, capture_history@);
        let mut steps: Vec<AnimationStep> = Vec::new();
        let mut cycle: u64 = 0;
        assert(step_views(steps@) =~= repeated(round, 0));
        while cycle < self.animation_cycles
            invariant
                cycle <= self.animation_cycles == Self::cycles(),
                self.t_undo == self.undo_step(),
                self.t_play == self.play_step(),
                round == self.round(before_turn@, after_turn@, capture_history@),
                step_views(steps@) == repeated(round, cycle as nat),
            decreases self.animation_cycles - cycle,
        {
            let ghost played = step_views(steps@);
            steps.push(AnimationStep::Display(before_turn.to_owned().concat(capture_history)));
            steps.push(AnimationStep::Sleep(self.t_undo));
            steps.push(AnimationStep::Display(after_turn.to_owned().concat(capture_history)));
            steps.push(AnimationStep::Sleep(self.t_play));
            cycle += 1;
            assert(step_views(steps@) =~= played + round);
        }
        let ghost played = step_views(steps@);
        steps.push(AnimationStep::Sleep(self.t_turn_done));
        assert(step_views(steps@) =~= played + seq![AnimationStepView::Sleep(self.settle_step())]);
        steps
    }

    /// Get animation frame duration
    pub fn frame_duration(&self) -> (duration: u64)
        ensures
            duration == self.frame_unit(),
            duration > 0,
    {
        proof {
            use_type_invariant(self);
        }
        self.frame_duration
    }
}

} // verus!
