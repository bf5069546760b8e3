//! One loop track: a stack of layer buffers plus its Mobius-style state
//! machine.
//!
//! Each overdub pass records into its own layer, so layers can be undone
//! independently. Every layer buffer is allocated up front by `new`; nothing
//! here allocates afterwards.
//!
//! ```text
//!   Empty ── Rec ─► Recording ── Rec ─► Playing   (layer 0 locked)
//!   Playing ── Overdub ─► Overdubbing ── Overdub ─► Playing  (+1 layer)
//!   Any other ── PlayStop ─► Stopped ── PlayStop ─► Playing (from the top)
//!   Any ── Clear ─► Empty (all layers wiped)
//!   Any ── Undo ─► drop the last layer (cancels an in-progress overdub)
//! ```
//!
//! The track is generic over its sample type `S`: it only stores, moves and
//! silences samples, it never does arithmetic on them.

use vstd::prelude::*;

verus! {

/// Max overdub layers per track.
pub const MAX_LAYERS: usize = 6;

#[derive(Clone, Copy, Debug, PartialEq, Eq, Structural)]
pub enum TrackState {
    Empty,
    Recording,
    Playing,
    Overdubbing,
    Stopped,
}

impl TrackState {
    /// The number under which a state is published to the GUI.
    pub open spec fn code(self) -> u32 {
        match self {
            TrackState::Empty => 0,
            TrackState::Recording => 1,
            TrackState::Playing => 2,
            TrackState::Overdubbing => 3,
            TrackState::Stopped => 4,
        }
    }

    /// The state a published number stands for; unknown numbers read as Empty.
    pub open spec fn from_code(v: u32) -> TrackState {
        if v == 1 {
            TrackState::Recording
        } else if v == 2 {
            TrackState::Playing
        } else if v == 3 {
            TrackState::Overdubbing
        } else if v == 4 {
            TrackState::Stopped
        } else {
            TrackState::Empty
        }
    }

    pub fn from_u32(v: u32) -> (s: TrackState)
        ensures
            s == TrackState::from_code(v),
    {
        match v {
            1 => TrackState::Recording,
            2 => TrackState::Playing,
            3 => TrackState::Overdubbing,
            4 => TrackState::Stopped,
            _ => TrackState::Empty,
        }
    }

    pub fn to_u32(self) -> (v: u32)
        ensures
            v == self.code(),
    {
        match self {
            TrackState::Empty => 0,
            TrackState::Recording => 1,
            TrackState::Playing => 2,
            TrackState::Overdubbing => 3,
            TrackState::Stopped => 4,
        }
    }
}

/// A pending button event submitted by the GUI or the MIDI handler.
#[derive(Clone, Copy, Debug, PartialEq, Eq, Structural)]
pub enum TrackCommand {
    Idle,
    Rec,
    PlayStop,
    Overdub,
    Clear,
    Undo,
}

impl TrackCommand {
    pub open spec fn code(self) -> u32 {
        match self {
            TrackCommand::Idle => 0,
            TrackCommand::Rec => 1,
            TrackCommand::PlayStop => 2,
            TrackCommand::Overdub => 3,
            TrackCommand::Clear => 4,
            TrackCommand::Undo => 5,
        }
    }

    pub open spec fn from_code(v: u32) -> TrackCommand {
        if v == 1 {
            TrackCommand::Rec
        } else if v == 2 {
            TrackCommand::PlayStop
        } else if v == 3 {
            TrackCommand::Overdub
        } else if v == 4 {
            TrackCommand::Clear
        } else if v == 5 {
            TrackCommand::Undo
        } else {
            TrackCommand::Idle
        }
    }

    pub fn from_u32(v: u32) -> (c: TrackCommand)
        ensures
            c == TrackCommand::from_code(v),
    {
        match v {
            1 => TrackCommand::Rec,
            2 => TrackCommand::PlayStop,
            3 => TrackCommand::Overdub,
            4 => TrackCommand::Clear,
            5 => TrackCommand::Undo,
            _ => TrackCommand::Idle,
        }
    }

    pub fn to_u32(self) -> (v: u32)
        ensures
            v == self.code(),
    {
        match self {
            TrackCommand::Idle => 0,
            TrackCommand::Rec => 1,
            TrackCommand::PlayStop => 2,
            TrackCommand::Overdub => 3,
            TrackCommand::Clear => 4,
            TrackCommand::Undo => 5,
        }
    }
}

/// The mathematical content of a track. `layers[i]` is interleaved L/R,
/// `2 * capacity` samples long; `layer_count` layers are finalised (audible,
/// undoable); during an overdub the layer being recorded is
/// `layers[layer_count]`.
pub struct TrackModel<S> {
    pub layers: Seq<Seq<S>>,
    pub capacity: nat,
    pub layer_count: nat,
    pub length: nat,
    pub cursor: nat,
    pub overdub_active: bool,
    pub state: TrackState,
    pub command: TrackCommand,
    pub silence: S,
}

/// A layer of `n` silent samples.
pub open spec fn silent_layer<S>(n: nat, silence: S) -> Seq<S> {
    Seq::new(n, |j: int| silence)
}

impl<S> TrackModel<S> {
    /// The longest loop the track can lock: its capacity, except that a
    /// free-form lock always takes at least one frame.
    pub open spec fn max_length(self) -> nat {
        if self.capacity > 0 {
            self.capacity
        } else {
            1
        }
    }

    pub open spec fn wf(self) -> bool {
        &&& self.layers.len() == MAX_LAYERS
        &&& forall|l: int| 0 <= l < MAX_LAYERS ==> #[trigger] self.layers[l].len() == 2 * self.capacity
        &&& 2 * self.capacity <= usize::MAX
        &&& self.layer_count <= MAX_LAYERS
        &&& self.length <= self.max_length()
        &&& self.cursor <= self.capacity
    }

    /// The track with layer `l` silenced (no change when `l` is out of range).
    pub open spec fn wiped(self, l: nat) -> TrackModel<S> {
        if l < self.layers.len() {
            TrackModel {
                layers: self.layers.update(l as int, silent_layer(2 * self.capacity, self.silence)),
                ..self
            }
        } else {
            self
        }
    }

    /// Every layer silent, nothing recorded, state Empty.
    pub open spec fn cleared(self) -> TrackModel<S> {
        TrackModel {
            layers: Seq::new(MAX_LAYERS as nat, |l: int| silent_layer(2 * self.capacity, self.silence)),
            layer_count: 0,
            length: 0,
            cursor: 0,
            overdub_active: false,
            state: TrackState::Empty,
            ..self
        }
    }

    pub open spec fn with_state(self, s: TrackState) -> TrackModel<S> {
        TrackModel { state: s, ..self }
    }

    /// A fresh recording pass into layer 0.
    pub open spec fn recording_started(self) -> TrackModel<S> {
        self.cleared().with_state(TrackState::Recording)
    }

    /// The outcome of asking for an overdub pass: a fresh silent layer at
    /// `layer_count`, unless the layer stack is full.
    pub open spec fn overdub_begun(self) -> TrackModel<S> {
        if self.layer_count >= MAX_LAYERS {
            self
        } else {
            TrackModel {
                overdub_active: true,
                state: TrackState::Overdubbing,
                ..self.wiped(self.layer_count)
            }
        }
    }

    /// The in-progress overdub layer committed into the mix.
    pub open spec fn overdub_finalized(self) -> TrackModel<S> {
        TrackModel {
            layer_count: if self.overdub_active && self.layer_count < MAX_LAYERS {
                self.layer_count + 1
            } else {
                self.layer_count
            },
            overdub_active: false,
            state: TrackState::Playing,
            ..self
        }
    }

    /// The most recent layer dropped.
    pub open spec fn undone(self) -> TrackModel<S> {
        if self.overdub_active {
            TrackModel {
                overdub_active: false,
                state: TrackState::Playing,
                ..self.wiped(self.layer_count)
            }
        } else {
            let popped = if self.layer_count > 0 {
                TrackModel {
                    layer_count: (self.layer_count - 1) as nat,
                    ..self.wiped((self.layer_count - 1) as nat)
                }
            } else {
                self
            };
            if popped.layer_count == 0 {
                TrackModel { length: 0, cursor: 0, state: TrackState::Empty, ..popped }
            } else {
                popped
            }
        }
    }

    /// The loop length locked at `len` frames with layer 0 finalised.
    pub open spec fn locked(self, len: nat) -> TrackModel<S> {
        TrackModel {
            length: len,
            cursor: 0,
            layer_count: 1,
            state: TrackState::Playing,
            ..self
        }
    }

    /// The effect of one command on a track and on its pending quantised
    /// stop (`Some(bar)` while recording waits for the next bar boundary).
    pub open spec fn after_command(
        self,
        pending: Option<usize>,
        cmd: TrackCommand,
        sync_on: bool,
        bars_target: u32,
        bar_samples: usize,
    ) -> (TrackModel<S>, Option<usize>) {
        match cmd {
            TrackCommand::Rec => {
                if self.state == TrackState::Empty || self.state == TrackState::Stopped {
                    (self.recording_started(), pending)
                } else if self.state == TrackState::Recording {
                    if sync_on && bars_target > 0 {
                        let target = bars_target * bar_samples;
                        let len = if target < self.capacity { target as nat } else { self.capacity };
                        (self.locked(len), pending)
                    } else if sync_on {
                        (self, Some(bar_samples))
                    } else {
                        (self.locked(if self.cursor > 1 { self.cursor } else { 1 }), pending)
                    }
                } else {
                    (self, pending)
                }
            },
            TrackCommand::PlayStop => {
                if self.state == TrackState::Stopped {
                    (TrackModel { cursor: 0, state: TrackState::Playing, ..self }, pending)
                } else {
                    (self.with_state(TrackState::Stopped), pending)
                }
            },
            TrackCommand::Overdub => {
                if self.state == TrackState::Playing {
                    (self.overdub_begun(), pending)
                } else if self.state == TrackState::Overdubbing {
                    (self.overdub_finalized(), pending)
                } else {
                    (self, pending)
                }
            },
            TrackCommand::Clear => (self.cleared(), pending),
            TrackCommand::Undo => (self.undone(), pending),
            TrackCommand::Idle => (self, pending),
        }
    }

    /// The cursor one frame further round the loop.
    pub open spec fn advanced(self) -> TrackModel<S> {
        TrackModel { cursor: (self.cursor + 1) % self.length, ..self }
    }

    /// The effect of one input frame `(l, r)` while recording: the frame is
    /// appended to layer 0 while there is room, and a pending quantised stop
    /// locks the loop once the cursor sits on a bar boundary.
    pub open spec fn after_record_frame(self, pending: Option<usize>, l: S, r: S) -> (
        TrackModel<S>,
        Option<usize>,
    ) {
        if self.state != TrackState::Recording {
            (self, pending)
        } else {
            let written = if self.cursor < self.capacity {
                let c = self.cursor as int;
                TrackModel {
                    layers: self.layers.update(0, self.layers[0].update(2 * c, l).update(2 * c + 1, r)),
                    cursor: self.cursor + 1,
                    length: self.cursor + 1,
                    ..self
                }
            } else {
                self
            };
            match pending {
                Some(bar) => {
                    if bar > 0 && written.cursor % (bar as nat) == 0 && written.cursor > 0 {
                        (written.locked(written.cursor), None)
                    } else {
                        (written, pending)
                    }
                },
                None => (written, pending),
            }
        }
    }

    /// True when a playing track sounds this frame.
    pub open spec fn plays_frame(self, mute: bool) -> bool {
        self.state == TrackState::Playing && self.length > 0 && !mute
    }

    /// True when an overdubbing track records this frame.
    pub open spec fn overdubs_frame(self) -> bool {
        self.state == TrackState::Overdubbing && self.length > 0
    }

    /// The layer an overdub pass writes into.
    pub open spec fn overdub_target(self) -> nat {
        if self.layer_count < MAX_LAYERS - 1 {
            self.layer_count
        } else {
            (MAX_LAYERS - 1) as nat
        }
    }

    /// The sum-free effect of one overdub frame: the new samples go into the
    /// overdub layer at the cursor, and the cursor moves on.
    pub open spec fn after_overdub_frame(self, l: S, r: S) -> TrackModel<S> {
        if self.overdubs_frame() {
            let c = self.cursor as int;
            let od = self.overdub_target() as int;
            TrackModel {
                layers: self.layers.update(od, self.layers[od].update(2 * c, l).update(2 * c + 1, r)),
                ..self
            }.advanced()
        } else {
            self
        }
    }

    /// The layer currently being recorded into, if any.
    pub open spec fn recording_layer(self) -> Option<nat> {
        if self.state == TrackState::Recording {
            Some(0)
        } else if self.state == TrackState::Overdubbing && self.overdub_active {
            Some(self.layer_count)
        } else {
            None
        }
    }
}

/// One loop track. See the module documentation for the state machine.
pub struct LoopTrack<S> {
    layers: Vec<Vec<S>>,
    capacity: usize,
    layer_count: usize,
    length_frames: usize,
    cursor: usize,
    overdub_active: bool,
    state: TrackState,
    command: TrackCommand,
    silence: S,
}

impl<S> View for LoopTrack<S> {
    type V = TrackModel<S>;

    closed spec fn view(&self) -> TrackModel<S> {
        TrackModel {
            layers: self.layers@.map_values(|v: Vec<S>| v@),
            capacity: self.capacity as nat,
            layer_count: self.layer_count as nat,
            length: self.length_frames as nat,
            cursor: self.cursor as nat,
            overdub_active: self.overdub_active,
            state: self.state,
            command: self.command,
            silence: self.silence,
        }
    }
}

impl<S: Copy> LoopTrack<S> {
    pub open spec fn wf(&self) -> bool {
        self@.wf()
    }

    proof fn lemma_layers_view(&self)
        ensures
            self@.layers.len() == self.layers.len(),
            forall|l: int| 0 <= l < self.layers.len() ==> #[trigger] self@.layers[l] == self.layers@[l]@,
    {
        assert forall|l: int| 0 <= l < self.layers.len() implies #[trigger] self@.layers[l] == self.layers@[l]@ by {
        }
    }

    /// A track whose six layers each hold `capacity_frames` stereo frames of
    /// `silence`.
    pub fn new(capacity_frames: usize, silence: S) -> (t: LoopTrack<S>)
        requires
            2 * capacity_frames <= usize::MAX,
        ensures
            t.wf(),
            t@ == (TrackModel {
                layers: Seq::new(MAX_LAYERS as nat, |l: int| silent_layer(2 * capacity_frames as nat, silence)),
                capacity: capacity_frames as nat,
                layer_count: 0,
                length: 0,
                cursor: 0,
                overdub_active: false,
                state: TrackState::Empty,
                command: TrackCommand::Idle,
                silence,
            }),
    {
        let n = 2 * capacity_frames;
        let mut layers: Vec<Vec<S>> = Vec::new();
        let mut l: usize = 0;
        while l < MAX_LAYERS
            invariant
                l <= MAX_LAYERS,
                layers.len() == l,
                n == 2 * capacity_frames,
                forall|i: int| 0 <= i < l ==> #[trigger] layers[i]@ == silent_layer(n as nat, silence),
            decreases MAX_LAYERS - l,
        {
            let layer = Self::silent_buffer(n, silence);
            layers.push(layer);
            l += 1;
        }
        let t = LoopTrack {
            layers,
            capacity: capacity_frames,
            layer_count: 0,
            length_frames: 0,
            cursor: 0,
            overdub_active: false,
            state: TrackState::Empty,
            command: TrackCommand::Idle,
            silence,
        };
        assert(t@.layers =~= Seq::new(MAX_LAYERS as nat, |l: int| silent_layer(2 * capacity_frames as nat, silence)));
        t
    }

    fn silent_buffer(n: usize, silence: S) -> (v: Vec<S>)
        ensures
            v@ == silent_layer(n as nat, silence),
    {
        let mut v: Vec<S> = Vec::new();
        let mut j: usize = 0;
        while j < n
            invariant
                j <= n,
                v@ == silent_layer(j as nat, silence),
            decreases n - j,
        {
            v.push(silence);
            j += 1;
            assert(v@ =~= silent_layer(j as nat, silence));
        }
        v
    }

    /// Frames each layer can hold.
    pub fn capacity(&self) -> (c: usize)
        ensures
            c == self@.capacity,
    {
        self.capacity
    }

    pub fn state(&self) -> (s: TrackState)
        ensures
            s == self@.state,
    {
        self.state
    }

    /// Finalised (audible, undoable) layer count.
    pub fn layer_count(&self) -> (n: usize)
        ensures
            n == self@.layer_count,
    {
        self.layer_count
    }

    /// Locked loop length in frames.
    pub fn length_frames(&self) -> (n: usize)
        ensures
            n == self@.length,
    {
        self.length_frames
    }

    /// Playback / record cursor in frames.
    pub fn cursor(&self) -> (n: usize)
        ensures
            n == self@.cursor,
    {
        self.cursor
    }

    /// True while a fresh layer is being recorded under Overdubbing.
    pub fn overdub_active(&self) -> (b: bool)
        ensures
            b == self@.overdub_active,
    {
        self.overdub_active
    }

    /// Queue a command; a later one replaces an unconsumed earlier one.
    pub fn submit(&mut self, cmd: TrackCommand)
        ensures
            final(self)@ == (TrackModel { command: cmd, ..old(self)@ }),
    {
        self.command = cmd;
    }

    /// Consume the queued command, leaving `Idle` in its place.
    pub fn take_command(&mut self) -> (c: TrackCommand)
        ensures
            c == old(self)@.command,
            final(self)@ == (TrackModel { command: TrackCommand::Idle, ..old(self)@ }),
    {
        let c = self.command;
        self.command = TrackCommand::Idle;
        c
    }

    pub fn set_state(&mut self, s: TrackState)
        ensures
            final(self)@ == old(self)@.with_state(s),
    {
        self.state = s;
    }

    /// The index of the layer currently being recorded into (layer 0 for the
    /// first record, `layer_count` during an overdub), if any.
    pub fn recording_layer(&self) -> (r: Option<usize>)
        ensures
            match r {
                Some(l) => self@.recording_layer() == Some(l as nat),
                None => self@.recording_layer() is None,
            },
    {
        match self.state {
            TrackState::Recording => Some(0),
            TrackState::Overdubbing if self.overdub_active => Some(self.layer_count),
            _ => None,
        }
    }

    /// The sample at `channel` (0 = left, 1 = right) of `frame` in `layer`.
    pub fn layer_sample(&self, layer: usize, frame: usize, channel: usize) -> (s: Option<S>)
        requires
            self.wf(),
        ensures
            (layer < MAX_LAYERS && frame < self@.capacity && channel < 2) ==> s == Some(
                self@.layers[layer as int][2 * frame + channel],
            ),
            !(layer < MAX_LAYERS && frame < self@.capacity && channel < 2) ==> s is None,
    {
        if layer < MAX_LAYERS && frame < self.capacity && channel < 2 {
            proof {
                self.lemma_layers_view();
                assert(self@.layers[layer as int].len() == 2 * self@.capacity);
                assert(2 * frame + channel < 2 * self@.capacity) by (nonlinear_arith)
                    requires
                        frame < self@.capacity,
                        channel < 2,
                {
                }
            }
            Some(self.layers[layer][2 * frame + channel])
        } else {
            None
        }
    }

    /// Wipe one layer's buffer to silence.
    fn wipe(&mut self, layer: usize)
        requires
            old(self).wf(),
        ensures
            final(self).wf(),
            final(self)@ == old(self)@.wiped(layer as nat),
    {
        proof {
            self.lemma_layers_view();
        }
        if layer < self.layers.len() {
            proof {
                assert(self@.layers[layer as int].len() == 2 * self@.capacity);
            }
            let n = self.layers[layer].len();
            let mut j: usize = 0;
            while j < n
                invariant
                    self.wf(),
                    layer < MAX_LAYERS,
                    n == 2 * self@.capacity,
                    j <= n,
                    self@ == (TrackModel { layers: self@.layers, ..old(self)@ }),
                    forall|l: int| 0 <= l < MAX_LAYERS && l != layer ==> #[trigger] self@.layers[l] == old(self)@.layers[l],
                    forall|k: int| 0 <= k < j ==> #[trigger] self@.layers[layer as int][k] == self.silence,
                decreases n - j,
            {
                proof {
                    self.lemma_layers_view();
                    assert(self@.layers[layer as int].len() == 2 * self@.capacity);
                }
                let ghost before = self@;
                self.layers[layer][j] = self.silence;
                proof {
                    self.lemma_layers_view();
                    assert(self@.layers =~= before.layers.update(layer as int, before.layers[layer as int].update(j as int, self.silence)));
                }
                j += 1;
            }
            proof {
                assert(self@.layers[layer as int] =~= silent_layer(2 * self@.capacity, self@.silence));
                assert(self@.layers =~= old(self)@.layers.update(layer as int, silent_layer(2 * old(self)@.capacity, old(self)@.silence)));
            }
        }
    }

    /// Reset everything to Empty (all layers wiped).
    pub fn clear(&mut self)
        requires
            old(self).wf(),
        ensures
            final(self).wf(),
            final(self)@ == old(self)@.cleared(),
    {
        let mut i: usize = 0;
        while i < MAX_LAYERS
            invariant
                self.wf(),
                i <= MAX_LAYERS,
                self@ == (TrackModel { layers: self@.layers, ..old(self)@ }),
                forall|l: int| 0 <= l < i ==> #[trigger] self@.layers[l] == silent_layer(2 * self@.capacity, self@.silence),
            decreases MAX_LAYERS - i,
        {
            self.wipe(i);
            i += 1;
        }
        self.layer_count = 0;
        self.length_frames = 0;
        self.cursor = 0;
        self.overdub_active = false;
        self.state = TrackState::Empty;
        proof {
            assert(self@.layers =~= old(self)@.cleared().layers);
        }
    }

    /// Start a fresh recording into layer 0.
    pub fn begin_record(&mut self)
        requires
            old(self).wf(),
        ensures
            final(self).wf(),
            final(self)@ == old(self)@.recording_started(),
    {
        self.clear();
        self.cursor = 0;
        self.state = TrackState::Recording;
    }

    /// Begin an overdub pass: a new layer at `layer_count` (if room).
    /// Returns false, and changes nothing, when the layer stack is full.
    pub fn begin_overdub(&mut self) -> (ok: bool)
        requires
            old(self).wf(),
        ensures
            final(self).wf(),
            ok == (old(self)@.layer_count < MAX_LAYERS),
            final(self)@ == old(self)@.overdub_begun(),
    {
        if self.layer_count >= MAX_LAYERS {
            return false;
        }
        let l = self.layer_count;
        self.wipe(l);
        self.overdub_active = true;
        self.state = TrackState::Overdubbing;
        true
    }

    /// Finalise the in-progress overdub layer into the mix.
    pub fn finalize_overdub(&mut self)
        requires
            old(self).wf(),
        ensures
            final(self).wf(),
            final(self)@ == old(self)@.overdub_finalized(),
    {
        if self.overdub_active && self.layer_count < MAX_LAYERS {
            self.layer_count += 1;
        }
        self.overdub_active = false;
        self.state = TrackState::Playing;
    }

    /// Drop the most recent layer. Cancels an in-progress overdub first;
    /// otherwise pops the last finalised layer. Becomes Empty at zero layers.
    pub fn undo(&mut self)
        requires
            old(self).wf(),
        ensures
            final(self).wf(),
            final(self)@ == old(self)@.undone(),
    {
        if self.overdub_active {
            let l = self.layer_count;
            self.wipe(l);
            self.overdub_active = false;
            self.state = TrackState::Playing;
            return;
        }
        if self.layer_count > 0 {
            self.layer_count -= 1;
            let l = self.layer_count;
            self.wipe(l);
        }
        if self.layer_count == 0 {
            self.length_frames = 0;
            self.cursor = 0;
            self.state = TrackState::Empty;
        }
    }

    /// Lock the loop at `len` frames with layer 0 finalised.
    fn lock_loop(&mut self, len: usize)
        requires
            old(self).wf(),
            len <= old(self)@.max_length(),
        ensures
            final(self).wf(),
            final(self)@ == old(self)@.locked(len as nat),
    {
        self.length_frames = len;
        self.cursor = 0;
        self.layer_count = 1;
        self.state = TrackState::Playing;
    }

    /// Act on one command. `pending` is this track's quantised stop: while
    /// recording with Sync on and no fixed bar count, the second Rec press
    /// arms it with the bar length instead of locking at once.
    pub fn apply_command(
        &mut self,
        pending: &mut Option<usize>,
        cmd: TrackCommand,
        sync_on: bool,
        bars_target: u32,
        bar_samples: usize,
    )
        requires
            old(self).wf(),
        ensures
            final(self).wf(),
            (final(self)@, *final(pending)) == old(self)@.after_command(
                *old(pending),
                cmd,
                sync_on,
                bars_target,
                bar_samples,
            ),
    {
        let state = self.state;
        match cmd {
            TrackCommand::Rec => {
                match state {
                    TrackState::Empty | TrackState::Stopped => {
                        self.clear();
                        self.state = TrackState::Recording;
                    },
                    TrackState::Recording => {
                        if sync_on && bars_target > 0 {
                            let cap = self.capacity;
                            let len = match (bars_target as usize).checked_mul(bar_samples) {
                                Some(target) => if target < cap { target } else { cap },
                                None => cap,
                            };
                            self.lock_loop(len);
                        } else if sync_on {
                            *pending = Some(bar_samples);
                        } else {
                            let len = if self.cursor > 1 { self.cursor } else { 1 };
                            self.lock_loop(len);
                        }
                    },
                    _ => {},
                }
            },
            TrackCommand::PlayStop => {
                match state {
                    TrackState::Stopped => {
                        self.cursor = 0;
                        self.state = TrackState::Playing;
                    },
                    _ => {
                        self.state = TrackState::Stopped;
                    },
                }
            },
            TrackCommand::Overdub => {
                match state {
                    TrackState::Playing => {
                        self.begin_overdub();
                    },
                    TrackState::Overdubbing => self.finalize_overdub(),
                    _ => {},
                }
            },
            TrackCommand::Clear => self.clear(),
            TrackCommand::Undo => self.undo(),
            TrackCommand::Idle => {},
        }
    }

    /// One block's command handling: first the command posted from outside
    /// (the GUI or a MIDI press, by its published number), then the track's
    /// own queued command, which is consumed.
    pub fn drain_commands(
        &mut self,
        pending: &mut Option<usize>,
        posted: u32,
        sync_on: bool,
        bars_target: u32,
        bar_samples: usize,
    )
        requires
            old(self).wf(),
        ensures
            final(self).wf(),
            ({
                let queued = old(self)@.command;
                let taken = TrackModel { command: TrackCommand::Idle, ..old(self)@ };
                let (mid, mid_pending) = taken.after_command(
                    *old(pending),
                    TrackCommand::from_code(posted),
                    sync_on,
                    bars_target,
                    bar_samples,
                );
                (final(self)@, *final(pending)) == mid.after_command(
                    mid_pending,
                    queued,
                    sync_on,
                    bars_target,
                    bar_samples,
                )
            }),
    {
        let posted_cmd = TrackCommand::from_u32(posted);
        let queued = self.take_command();
        if posted_cmd != TrackCommand::Idle {
            self.apply_command(pending, posted_cmd, sync_on, bars_target, bar_samples);
        }
        if queued != TrackCommand::Idle {
            self.apply_command(pending, queued, sync_on, bars_target, bar_samples);
        }
    }

    /// Record one input frame while the track is Recording (no effect in any
    /// other state).
    pub fn record_frame(&mut self, pending: &mut Option<usize>, l: S, r: S)
        requires
            old(self).wf(),
        ensures
            final(self).wf(),
            (final(self)@, *final(pending)) == old(self)@.after_record_frame(*old(pending), l, r),
    {
        if self.state != TrackState::Recording {
            return;
        }
        if self.cursor < self.capacity {
            let c = self.cursor;
            proof {
                self.lemma_layers_view();
            }
            let ghost before = self@;
            self.layers[0][2 * c] = l;
            self.layers[0][2 * c + 1] = r;
            self.cursor = c + 1;
            self.length_frames = c + 1;
            proof {
                self.lemma_layers_view();
                let c0 = c as int;
                assert(self@.layers =~= before.layers.update(0, before.layers[0].update(2 * c0, l).update(2 * c0 + 1, r)));
            }
        }
        if let Some(bar) = *pending {
            if bar > 0 && self.cursor % bar == 0 && self.cursor > 0 {
                let len = self.cursor;
                self.lock_loop(len);
                *pending = None;
            }
        }
    }

    /// The frame a Playing track sounds this sample, if any, moving the
    /// cursor one frame on round the loop. A muted track holds its place.
    /// The frame is the loop position; reading the layers there is the
    /// caller's (`layer_sample`).
    pub fn play_frame(&mut self, mute: bool) -> (f: Option<usize>)
        requires
            old(self).wf(),
        ensures
            final(self).wf(),
            old(self)@.plays_frame(mute) ==> f == Some(old(self)@.cursor as usize) && final(self)@
                == old(self)@.advanced(),
            !old(self)@.plays_frame(mute) ==> f is None && final(self)@ == old(self)@,
    {
        if self.state == TrackState::Playing && self.length_frames > 0 && !mute {
            let f = self.cursor;
            self.cursor = (f + 1) % self.length_frames;
            Some(f)
        } else {
            None
        }
    }

    /// The frame and target layer of this sample's overdub, if the track is
    /// overdubbing: the caller mixes its input into the target layer's
    /// sample at that frame and hands the result to `commit_overdub_frame`.
    pub fn overdub_frame(&self) -> (p: Option<(usize, usize)>)
        requires
            self.wf(),
        ensures
            self@.overdubs_frame() ==> p == Some((self@.cursor as usize, self@.overdub_target() as usize)),
            !self@.overdubs_frame() ==> p is None,
    {
        if self.state == TrackState::Overdubbing && self.length_frames > 0 {
            let od = if self.layer_count < MAX_LAYERS - 1 { self.layer_count } else { MAX_LAYERS - 1 };
            Some((self.cursor, od))
        } else {
            None
        }
    }

    /// Write this sample's overdub result and move the cursor on. The frame
    /// must lie inside the layers (an overdub past the end has no sample to
    /// write).
    pub fn commit_overdub_frame(&mut self, l: S, r: S)
        requires
            old(self).wf(),
            old(self)@.overdubs_frame() ==> old(self)@.cursor < old(self)@.capacity,
        ensures
            final(self).wf(),
            final(self)@ == old(self)@.after_overdub_frame(l, r),
    {
        if self.state == TrackState::Overdubbing && self.length_frames > 0 {
            let od = if self.layer_count < MAX_LAYERS - 1 { self.layer_count } else { MAX_LAYERS - 1 };
            let c = self.cursor;
            proof {
                self.lemma_layers_view();
            }
            let ghost before = self@;
            self.layers[od][2 * c] = l;
            self.layers[od][2 * c + 1] = r;
            self.cursor = (c + 1) % self.length_frames;
            proof {
                self.lemma_layers_view();
                let c0 = c as int;
                let o = od as int;
                assert(self@.layers =~= before.layers.update(o, before.layers[o].update(2 * c0, l).update(2 * c0 + 1, r)));
            }
        }
    }
}

} // verus!
