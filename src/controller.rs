use vstd::prelude::*;
use crate::state::State;

verus! {

/// Gain applied to a captured span, sample by sample.
#[derive(Debug, Clone, Copy, PartialEq, Eq, Structural)]
pub enum Ramp {
    /// Rising edge: sample `k` is scaled by fade curve entry `pos + k`.
    Up(usize),
    /// Falling edge: sample `k` is scaled by fade curve entry `fade_len - 1 - pos - k`,
    /// the rising curve read backwards from where the fade-out stands.
    Down(usize),
    /// Full level: samples are captured as they are.
    Unity,
}

impl Ramp {
    /// Fade curve entry that scales sample `k` of the span, or `None` at full level.
    pub fn curve_index(&self, fade_len: usize, k: usize) -> (r: Option<usize>)
        requires
            match *self {
                Ramp::Up(pos) => pos + k < fade_len,
                Ramp::Down(pos) => pos + k < fade_len,
                Ramp::Unity => true,
            },
        ensures
            r == match *self {
                Ramp::Up(pos) => Some((pos + k) as usize),
                Ramp::Down(pos) => Some((fade_len - 1 - pos - k) as usize),
                Ramp::Unity => None::<usize>,
            },
    {
        match *self {
            Ramp::Up(pos) => Some(pos + k),
            Ramp::Down(pos) => Some(fade_len - 1 - pos - k),
            Ramp::Unity => None,
        }
    }
}

/// What the caller does with the unprocessed rest of a block.
#[derive(Debug, Clone, Copy, PartialEq, Eq, Structural)]
pub enum Action {
    /// Capture nothing more from this block.
    Halt,
    /// Capture nothing yet; evaluate the trigger again over the same rest.
    Settle,
    /// Write the first `span` samples of the rest, shaped by `ramp`, into the store.
    Capture { ramp: Ramp, span: usize },
}

/// How a block is handled as a whole.
#[derive(Debug, Clone, Copy, PartialEq, Eq, Structural)]
pub enum BlockMode {
    /// Loop mode: only play back what the store holds.
    Playback,
    /// Still warming up: play back, but do not consult the trigger.
    Warmup,
    /// Run the trigger over the block, then play back.
    Gate,
}

/// Mathematical state of a [`Controller`].
pub struct ControllerModel {
    pub state: State,
    pub fade_len: usize,
    pub fade_pos: usize,
    pub warmup_frames: usize,
    pub processed_frames: usize,
    pub loop_mode: bool,
    /// Whether the current block is one that the trigger runs over.
    pub triggering: bool,
}

impl ControllerModel {
    pub open spec fn wf(self) -> bool {
        &&& self.fade_len >= 1
        &&& self.fade_pos <= self.fade_len
        &&& (self.state == State::FadeIn || self.state == State::FadeOut) ==> self.fade_pos
            < self.fade_len
    }

    /// The same model in another phase at another fade position.
    pub open spec fn at(self, state: State, fade_pos: usize) -> ControllerModel {
        ControllerModel { state, fade_pos, ..self }
    }
}

/// One step along a fade edge: as much of the `remain` samples as the edge
/// still needs, ending the edge once its whole length has been covered.
pub open spec fn fade_step(c: ControllerModel, remain: usize) -> (ControllerModel, Action) {
    let span = if remain <= c.fade_len - c.fade_pos {
        remain
    } else {
        (c.fade_len - c.fade_pos) as usize
    };
    let pos = (c.fade_pos + span) as usize;
    let rising = c.state == State::FadeIn;
    let next = if pos < c.fade_len {
        c.state
    } else if rising {
        State::Record
    } else {
        State::Idle
    };
    let ramp = if rising {
        Ramp::Up(c.fade_pos)
    } else {
        Ramp::Down(c.fade_pos)
    };
    (c.at(next, pos), Action::Capture { ramp, span })
}

/// The controller's response to the trigger over the `remain` unprocessed samples
/// of a block; `above` tells whether the envelope exceeds the threshold.
/// Outside a block that the trigger runs over, nothing is captured.
pub open spec fn step_model(c: ControllerModel, remain: usize, above: bool) -> (
    ControllerModel,
    Action,
) {
    if !c.triggering {
        (c, Action::Halt)
    } else {
        match c.state {
            State::Idle => if above {
                fade_step(c.at(State::FadeIn, 0), remain)
            } else {
                (c, Action::Halt)
            },
            State::Record => if above {
                (c, Action::Capture { ramp: Ramp::Unity, span: remain })
            } else {
                (c.at(State::FadeOut, 0), Action::Settle)
            },
            _ => fade_step(c, remain),
        }
    }
}

/// How a block of `n` frames is handled, and the controller after counting it.
pub open spec fn begin_model(c: ControllerModel, n: usize) -> (ControllerModel, BlockMode) {
    if c.loop_mode {
        (ControllerModel { triggering: false, ..c }, BlockMode::Playback)
    } else if c.processed_frames < c.warmup_frames {
        (
            ControllerModel {
                processed_frames: counted(c.processed_frames, n),
                triggering: false,
                ..c
            },
            BlockMode::Warmup,
        )
    } else {
        (
            ControllerModel {
                processed_frames: counted(c.processed_frames, n),
                triggering: true,
                ..c
            },
            BlockMode::Gate,
        )
    }
}

/// Phase, fade progress and frame count of the capture engine.
pub struct Controller {
    state: State,
    fade_len: usize,
    fade_pos: usize,
    warmup_frames: usize,
    processed_frames: usize,
    loop_mode: bool,
    triggering: bool,
}

impl View for Controller {
    type V = ControllerModel;

    closed spec fn view(&self) -> ControllerModel {
        ControllerModel {
            state: self.state,
            fade_len: self.fade_len,
            fade_pos: self.fade_pos,
            warmup_frames: self.warmup_frames,
            processed_frames: self.processed_frames,
            loop_mode: self.loop_mode,
            triggering: self.triggering,
        }
    }
}

/// Fade length for a fade of `frames` frames: at least one frame.
pub open spec fn fade_len_of(frames: usize) -> usize {
    if frames >= 1 {
        frames
    } else {
        1
    }
}

/// Frame count after `n` more frames, held at the largest `usize`.
pub open spec fn counted(processed: usize, n: usize) -> usize {
    if processed + n <= usize::MAX {
        (processed + n) as usize
    } else {
        usize::MAX
    }
}

impl Controller {
    /// An idle controller with a fade of `fade_frames` frames (at least one),
    /// a warmup of `warmup_frames` frames, and loop mode on or off.
    pub fn new(fade_frames: usize, warmup_frames: usize, loop_mode: bool) -> (c: Self)
        ensures
            c@ == (ControllerModel {
                state: State::Idle,
                fade_len: fade_len_of(fade_frames),
                fade_pos: 0,
                warmup_frames,
                processed_frames: 0,
                loop_mode,
                triggering: false,
            }),
            c@.wf(),
    {
        let fade_len = if fade_frames >= 1 {
            fade_frames
        } else {
            1
        };
        Controller { state: State::Idle, fade_len, fade_pos: 0, warmup_frames, processed_frames: 0, loop_mode, triggering: false }
    }

    /// Decides how a block of `n` frames is handled and counts its frames,
    /// unless in loop mode. The trigger runs over the block only once the
    /// frames processed before it reach the warmup length; until the next
    /// block begins, [`Controller::step`] captures nothing otherwise.
    pub fn begin_block(&mut self, n: usize) -> (mode: BlockMode)
        ensures
            (final(self)@, mode) == begin_model(old(self)@, n),
    {
        if self.loop_mode {
            self.triggering = false;
            return BlockMode::Playback;
        }
        let warming = self.processed_frames < self.warmup_frames;
        self.processed_frames = self.processed_frames.saturating_add(n);
        self.triggering = !warming;
        if warming {
            BlockMode::Warmup
        } else {
            BlockMode::Gate
        }
    }

    /// Advances the state machine over the `remain` unprocessed samples of a
    /// block, given whether the envelope over them exceeds the threshold, and
    /// says what to capture from them.
    pub fn step(&mut self, remain: usize, above: bool) -> (act: Action)
        requires
            old(self)@.wf(),
        ensures
            final(self)@.wf(),
            (final(self)@, act) == step_model(old(self)@, remain, above),
    {
        if !self.triggering {
            return Action::Halt;
        }
        match self.state {
            State::Idle => {
                if !above {
                    return Action::Halt;
                }
                self.state = State::FadeIn;
                self.fade_pos = 0;
                self.fade_step(remain)
            },
            State::Record => {
                if above {
                    Action::Capture { ramp: Ramp::Unity, span: remain }
                } else {
                    self.state = State::FadeOut;
                    self.fade_pos = 0;
                    Action::Settle
                }
            },
            _ => self.fade_step(remain),
        }
    }

    fn fade_step(&mut self, remain: usize) -> (act: Action)
        requires
            old(self)@.wf(),
            old(self)@.state == State::FadeIn || old(self)@.state == State::FadeOut,
        ensures
            final(self)@.wf(),
            (final(self)@, act) == fade_step(old(self)@, remain),
    {
        let left = self.fade_len - self.fade_pos;
        let span = if remain <= left {
            remain
        } else {
            left
        };
        let start = self.fade_pos;
        let rising = matches!(self.state, State::FadeIn);
        self.fade_pos = start + span;
        if self.fade_pos >= self.fade_len {
            self.state = if rising {
                State::Record
            } else {
                State::Idle
            };
        }
        let ramp = if rising {
            Ramp::Up(start)
        } else {
            Ramp::Down(start)
        };
        Action::Capture { ramp, span }
    }

    /// Current phase.
    pub fn state(&self) -> (r: State)
        ensures
            r == self@.state,
    {
        self.state
    }

    /// Length of a fade edge in frames.
    pub fn fade_len(&self) -> (r: usize)
        ensures
            r == self@.fade_len,
    {
        self.fade_len
    }

    /// Frames of the current fade edge covered so far.
    pub fn fade_pos(&self) -> (r: usize)
        ensures
            r == self@.fade_pos,
    {
        self.fade_pos
    }

    /// Frames counted so far.
    pub fn processed_frames(&self) -> (r: usize)
        ensures
            r == self@.processed_frames,
    {
        self.processed_frames
    }

    /// Whether loop mode is on.
    pub fn loop_mode(&self) -> (r: bool)
        ensures
            r == self@.loop_mode,
    {
        self.loop_mode
    }

    /// Sets the fade length to `fade_frames` frames (at least one). A fade in
    /// progress keeps its position where the new length leaves room for it, and
    /// otherwise resumes at its last frame.
    pub fn set_fade_frames(&mut self, fade_frames: usize)
        requires
            old(self)@.wf(),
        ensures
            final(self)@.wf(),
            final(self)@ == (ControllerModel {
                fade_len: fade_len_of(fade_frames),
                fade_pos: if old(self)@.fade_pos < fade_len_of(fade_frames) {
                    old(self)@.fade_pos
                } else {
                    (fade_len_of(fade_frames) - 1) as usize
                },
                ..old(self)@
            }),
    {
        self.fade_len = if fade_frames >= 1 {
            fade_frames
        } else {
            1
        };
        if self.fade_pos >= self.fade_len {
            self.fade_pos = self.fade_len - 1;
        }
    }

    /// Returns to `Idle` with no frames counted, keeping the configuration.
    pub fn reset(&mut self)
        requires
            old(self)@.wf(),
        ensures
            final(self)@.wf(),
            final(self)@ == (ControllerModel {
                state: State::Idle,
                fade_pos: 0,
                processed_frames: 0,
                triggering: false,
                ..old(self)@
            }),
    {
        self.state = State::Idle;
        self.fade_pos = 0;
        self.processed_frames = 0;
        self.triggering = false;
    }

    /// Sets the warmup length in frames.
    pub fn set_warmup_frames(&mut self, warmup_frames: usize)
        ensures
            final(self)@ == (ControllerModel { warmup_frames, ..old(self)@ }),
    {
        self.warmup_frames = warmup_frames;
    }

    /// Turns loop mode on or off.
    pub fn set_loop_mode(&mut self, loop_mode: bool)
        ensures
            final(self)@ == (ControllerModel { loop_mode, ..old(self)@ }),
    {
        self.loop_mode = loop_mode;
    }
}

/// A block whose envelope exceeds the threshold opens the trigger from `Idle`:
/// the controller enters the rising edge and captures fade-shaped samples,
/// starting at the beginning of the fade curve.
pub proof fn lemma_gate_opens(c: ControllerModel, remain: usize)
    requires
        c.wf(),
        c.triggering,
        c.state == State::Idle,
        remain > 0,
    ensures
        ({
            let (next, act) = step_model(c, remain, true);
            &&& act == (Action::Capture {
                ramp: Ramp::Up(0),
                span: if remain <= c.fade_len { remain } else { c.fade_len },
            })
            &&& next.fade_pos == act->span
            &&& next.state == (if remain < c.fade_len { State::FadeIn } else { State::Record })
        }),
{
}

/// A quiet stretch during recording starts the falling edge without capturing
/// anything, from the beginning of the edge.
pub proof fn lemma_gate_closes(c: ControllerModel, remain: usize)
    requires
        c.wf(),
        c.triggering,
        c.state == State::Record,
    ensures
        step_model(c, remain, false) == (c.at(State::FadeOut, 0), Action::Settle),
{
}

/// Along the falling edge every step captures a reversed stretch of the fade
/// curve, the fade position counts the samples captured, and the controller
/// returns to `Idle` exactly when the whole fade length has been captured.
pub proof fn lemma_fade_out_runs_to_idle(c: ControllerModel, remain: usize, above: bool)
    requires
        c.wf(),
        c.triggering,
        c.state == State::FadeOut,
        remain > 0,
    ensures
        ({
            let (next, act) = step_model(c, remain, above);
            &&& act matches Action::Capture { ramp: Ramp::Down(p), span }
            &&& act->ramp == Ramp::Down(c.fade_pos)
            &&& act->span > 0
            &&& next.fade_pos == c.fade_pos + act->span
            &&& next.fade_pos <= c.fade_len
            &&& (next.state == State::Idle <==> next.fade_pos == c.fade_len)
            &&& (next.state != State::Idle ==> next.state == State::FadeOut)
        }),
{
}

/// While the frames processed before a block are fewer than the warmup
/// length, nothing of the block is captured, however loud it is; once they
/// reach it, a loud block arriving while idle starts the rising edge.
pub proof fn lemma_warmup_then_capture(c: ControllerModel, n: usize, remain: usize, above: bool)
    requires
        c.wf(),
        !c.loop_mode,
        remain > 0,
    ensures
        c.processed_frames < c.warmup_frames ==> ({
            let (b, mode) = begin_model(c, n);
            &&& mode == BlockMode::Warmup
            &&& step_model(b, remain, above) == (b, Action::Halt)
        }),
        c.processed_frames >= c.warmup_frames && c.state == State::Idle ==> ({
            let (b, mode) = begin_model(c, n);
            &&& mode == BlockMode::Gate
            &&& step_model(b, remain, true).1 matches Action::Capture { ramp: Ramp::Up(0), span }
                && span > 0
        }),
{
}

/// In loop mode nothing is ever captured: every block is played back only.
pub proof fn lemma_loop_mode_captures_nothing(
    c: ControllerModel,
    n: usize,
    remain: usize,
    above: bool,
)
    requires
        c.loop_mode,
    ensures
        ({
            let (b, mode) = begin_model(c, n);
            &&& mode == BlockMode::Playback
            &&& step_model(b, remain, above) == (b, Action::Halt)
        }),
{
}

} // verus!
