use vstd::prelude::*;

use rand::rngs::SmallRng;
use rand::{Rng, SeedableRng};

use crate::grain::{
    spec_advanced, spec_default_grain, spec_exceeds_selection, spec_new_grain,
    GranularSynthesizerGrain,
};
use crate::lazy_cached::LazyCached;
use crate::units::NumChannels;

verus! {

#[verifier::external_type_specification]
#[verifier::external_body]
pub struct ExSmallRng(SmallRng);

/// `Clone::clone` for `SmallRng`: a generator in the same state. Nothing is
/// stated of it, since Verus sees the generator as opaque.
pub assume_specification[ <SmallRng as Clone>::clone ](rng: &SmallRng) -> SmallRng;

/// The generator that `SmallRng::from_seed` makes from `seed`.
pub uninterp spec fn small_rng_seeded(seed: Seq<u8>) -> SmallRng;

/// `rand::SeedableRng::from_seed` for `SmallRng`: the generator seeded with
/// `seed`. Seeding is deterministic (the same seed gives a generator in the
/// same state), so the result is named by `small_rng_seeded`; what the
/// generator's state is, is not stated.
#[verifier::external_body]
fn small_rng_from_seed(seed: [u8; 32]) -> (r: SmallRng)
    ensures
        r == small_rng_seeded(seed@),
{
    SmallRng::from_seed(seed)
}

/// What `Rng::gen_range(low..=high)` draws from `rng`, and the generator
/// after the draw.
pub uninterp spec fn small_rng_gen_range(rng: SmallRng, low: u32, high: u32) -> (u32, SmallRng);

/// `rand::Rng::gen_range` on `low..=high`: a value of the range. A
/// `SmallRng` is a deterministic generator, so the value drawn and the
/// generator's next state depend on its state and the range alone; both are
/// named by `small_rng_gen_range`, and which value comes out is not stated.
/// It panics on an empty range, which `requires` rules out.
#[verifier::external_body]
fn gen_range_inclusive(rng: &mut SmallRng, low: u32, high: u32) -> (r: u32)
    requires
        low <= high,
    ensures
        low <= r <= high,
        r == small_rng_gen_range(*old(rng), low, high).0,
        *final(rng) == small_rng_gen_range(*old(rng), low, high).1,
{
    rng.gen_range(low..=high)
}

/// How many channels (and grains) a new synthesizer has.
pub const DEFAULT_NUM_CHANNELS: usize = 2;

/// The sample rate a new synthesizer assumes.
pub const DEFAULT_SAMPLE_RATE: u32 = 44100;

/// Which of its three pools a grain is in.
#[derive(Clone, Copy, Debug, PartialEq, Eq, Structural)]
pub enum GrainState {
    /// waiting to be started for the first time (or again, after the
    /// selection or the buffer changed)
    Uninitialized,
    /// playing (or just finished, and not yet moved)
    Fresh,
    /// finished, and due for a new range of the buffer
    Finished,
}

/// What one channel of a frame plays: the buffer sample at `buffer_index`,
/// which lies `offset` frames into a grain of `len` frames.
#[derive(Clone, Copy, Debug, PartialEq, Eq, Structural)]
pub struct GrainPlayback {
    pub buffer_index: usize,
    pub offset: usize,
    pub len: usize,
}

/// The selection `[start, end)` holds no sample.
pub open spec fn selection_is_empty(start: u32, end: u32) -> bool {
    start >= end
}

/// The length of the grains started in a selection: the requested length,
/// cut down to the selection's length.
pub open spec fn spec_grain_len(start: u32, end: u32, requested_len: u32) -> u32 {
    let selection_len = (end - start) as u32;
    if selection_len < requested_len {
        selection_len
    } else {
        requested_len
    }
}

/// The latest frame at which a grain of the selection may start.
pub open spec fn spec_largest_start(start: u32, end: u32, grain_len: u32) -> u32 {
    if end < grain_len || ((end - grain_len) as u32) < start {
        start
    } else {
        (end - grain_len) as u32
    }
}

/// `grain` is a grain that `new` may start for uid `uid` in the selection
/// `[start, end)`: its length is `spec_grain_len` and its start lies anywhere
/// from the selection's start to the latest start.
pub open spec fn is_started_grain(
    grain: GranularSynthesizerGrain,
    uid: int,
    start: u32,
    end: u32,
    requested_len: u32,
) -> bool {
    let len = spec_grain_len(start, end, requested_len);
    &&& start <= grain.start_frame <= spec_largest_start(start, end, len)
    &&& grain == spec_new_grain(
        grain.start_frame,
        (grain.start_frame + len) as usize,
        uid as u32,
        true,
    )
}

/// The uids (indexes) of the grains in state `st`, in increasing order.
pub open spec fn uids_in_state(states: Seq<GrainState>, st: GrainState) -> Seq<usize>
    decreases states.len(),
{
    if states.len() == 0 {
        Seq::empty()
    } else {
        let prev = uids_in_state(states.drop_last(), st);
        if states.last() == st {
            prev.push((states.len() - 1) as usize)
        } else {
            prev
        }
    }
}

/// Some grain is in state `st`.
pub open spec fn has_state(states: Seq<GrainState>, st: GrainState) -> bool {
    exists|i: int| 0 <= i < states.len() && #[trigger] states[i] == st
}

/// Grains in state `st` are listed exactly when there are some.
pub proof fn lemma_uids_in_state_nonempty(states: Seq<GrainState>, st: GrainState)
    ensures
        uids_in_state(states, st).len() > 0 <==> has_state(states, st),
    decreases states.len(),
{
    if states.len() > 0 {
        let prefix = states.drop_last();
        lemma_uids_in_state_nonempty(prefix, st);
        if has_state(prefix, st) {
            let i = choose|i: int| 0 <= i < prefix.len() && #[trigger] prefix[i] == st;
            assert(states[i] == st);
        }
        if has_state(states, st) && states.last() != st {
            let i = choose|i: int| 0 <= i < states.len() && #[trigger] states[i] == st;
            assert(prefix[i] == st);
        }
        if states.last() == st {
            assert(states[states.len() - 1] == st);
        }
    }
}

/// A frame starts at least one grain: the selection holds samples, and an
/// uninitialized grain starts on a frame aligned with the delay, or a
/// finished grain restarts.
pub open spec fn frame_starts_a_grain(
    states: Seq<GrainState>,
    start: u32,
    end: u32,
    aligned: bool,
    num_channels: nat,
) -> bool {
    &&& !selection_is_empty(start, end)
    &&& ((aligned && init_choice(states, num_channels) is Some) || has_state(states, GrainState::Finished))
}

/// A playing grain: a non-empty range inside the buffer, a position inside
/// the range, and finished exactly when the position reached the end.
pub open spec fn playing_grain_fits(g: GranularSynthesizerGrain, buffer_len: usize) -> bool {
    &&& g.start_frame < g.end_frame <= buffer_len
    &&& g.start_frame <= g.current_frame <= g.end_frame
    &&& g.len == g.end_frame - g.start_frame
    &&& (g.is_finished <==> g.current_frame == g.end_frame)
}

/// The grains after the pool is matched to `num_channels`: new grains are
/// added as uninitialized, or the grains with the highest uids are dropped.
pub open spec fn synced_grains(
    grains: Seq<GranularSynthesizerGrain>,
    num_channels: nat,
) -> Seq<GranularSynthesizerGrain> {
    if num_channels > grains.len() {
        grains + Seq::new(
            (num_channels - grains.len()) as nat,
            |i: int| GranularSynthesizerGrain { uid: (grains.len() + i) as u32, ..spec_default_grain() },
        )
    } else {
        grains.take(num_channels as int)
    }
}

/// The states after the pool is matched to `num_channels`.
pub open spec fn synced_states(states: Seq<GrainState>, num_channels: nat) -> Seq<GrainState> {
    if num_channels > states.len() {
        states + Seq::new(
            (num_channels - states.len()) as nat,
            |i: int| GrainState::Uninitialized,
        )
    } else {
        states.take(num_channels as int)
    }
}

/// The uninitialized grain that is started next: the one halfway through
/// the uninitialized pool (counting at most `num_channels` grains), so that
/// new grains come from the middle of the channels.
pub open spec fn init_choice(states: Seq<GrainState>, num_channels: nat) -> Option<usize> {
    let uninitialized = uids_in_state(states, GrainState::Uninitialized);
    let count = if uninitialized.len() < num_channels {
        uninitialized.len()
    } else {
        num_channels
    };
    let half_way = count / 2;
    if half_way < uninitialized.len() {
        Some(uninitialized[half_way as int])
    } else {
        None
    }
}

/// One initialization step: on a frame aligned with the delay, with a
/// non-empty selection, the chosen uninitialized grain starts playing a
/// random range of the selection; otherwise nothing changes.
pub open spec fn init_step(
    grains: Seq<GranularSynthesizerGrain>,
    states: Seq<GrainState>,
    grains2: Seq<GranularSynthesizerGrain>,
    states2: Seq<GrainState>,
    start: u32,
    end: u32,
    requested_len: u32,
    aligned: bool,
    num_channels: nat,
) -> bool {
    if !selection_is_empty(start, end) && aligned && init_choice(states, num_channels) is Some {
        let u = init_choice(states, num_channels)->0 as int;
        &&& states2 == states.update(u, GrainState::Fresh)
        &&& grains2.len() == grains.len()
        &&& forall|i: int| 0 <= i < grains.len() && i != u ==> grains2[i] == grains[i]
        &&& is_started_grain(grains2[u], u, start, end, requested_len)
    } else {
        grains2 == grains && states2 == states
    }
}

/// The range `[start, end)` of the buffer that a new grain plays, and the
/// generator after picking it: the grain starts at a random frame from the
/// selection's start up to the latest start (drawn only when there is a
/// choice) and lasts `spec_grain_len` frames. An empty selection gives back
/// its bounds and leaves the generator as it was.
pub open spec fn grain_range(rng: SmallRng, start: u32, end: u32, requested_len: u32) -> (
    usize,
    usize,
    SmallRng,
) {
    if selection_is_empty(start, end) {
        (start as usize, end as usize, rng)
    } else {
        let len = spec_grain_len(start, end, requested_len);
        let largest = spec_largest_start(start, end, len);
        if start < largest {
            let drawn = small_rng_gen_range(rng, start, largest);
            (drawn.0 as usize, (drawn.0 + len) as usize, drawn.1)
        } else {
            (start as usize, (start + len) as usize, rng)
        }
    }
}

/// The grains, their pools and the generator after one initialization step
/// (see `init_step`): the chosen grain plays the range `grain_range` picks.
pub open spec fn init_outcome(
    grains: Seq<GranularSynthesizerGrain>,
    states: Seq<GrainState>,
    rng: SmallRng,
    start: u32,
    end: u32,
    requested_len: u32,
    aligned: bool,
    num_channels: nat,
) -> (Seq<GranularSynthesizerGrain>, Seq<GrainState>, SmallRng) {
    if !selection_is_empty(start, end) && aligned && init_choice(states, num_channels) is Some {
        let u = init_choice(states, num_channels)->0;
        let range = grain_range(rng, start, end, requested_len);
        (
            grains.update(u as int, spec_new_grain(range.0, range.1, u as u32, true)),
            states.update(u as int, GrainState::Fresh),
            range.2,
        )
    } else {
        (grains, states, rng)
    }
}

/// The grains, their pools and the generator after the finished grains
/// among the first `k` restarted, in increasing uid order, each on the range
/// `grain_range` picks with the generator the previous one left.
pub open spec fn refresh_upto(
    grains: Seq<GranularSynthesizerGrain>,
    states: Seq<GrainState>,
    rng: SmallRng,
    start: u32,
    end: u32,
    requested_len: u32,
    k: nat,
) -> (Seq<GranularSynthesizerGrain>, Seq<GrainState>, SmallRng)
    decreases k,
{
    if k == 0 {
        (grains, states, rng)
    } else {
        let prev = refresh_upto(grains, states, rng, start, end, requested_len, (k - 1) as nat);
        let i = k - 1;
        if states[i] == GrainState::Finished {
            let range = grain_range(prev.2, start, end, requested_len);
            (
                prev.0.update(i, spec_new_grain(range.0, range.1, i as u32, true)),
                prev.1.update(i, GrainState::Fresh),
                range.2,
            )
        } else {
            prev
        }
    }
}

/// The grains, their pools and the generator after one refresh step (see
/// `refresh_step`): nothing changes when the selection is empty.
pub open spec fn refresh_outcome(
    grains: Seq<GranularSynthesizerGrain>,
    states: Seq<GrainState>,
    rng: SmallRng,
    start: u32,
    end: u32,
    requested_len: u32,
) -> (Seq<GranularSynthesizerGrain>, Seq<GrainState>, SmallRng) {
    if selection_is_empty(start, end) {
        (grains, states, rng)
    } else {
        refresh_upto(grains, states, rng, start, end, requested_len, grains.len())
    }
}

/// One refresh step: with a non-empty selection, every finished grain starts
/// playing a new random range of the selection; otherwise nothing changes.
pub open spec fn refresh_step(
    grains: Seq<GranularSynthesizerGrain>,
    states: Seq<GrainState>,
    grains2: Seq<GranularSynthesizerGrain>,
    states2: Seq<GrainState>,
    start: u32,
    end: u32,
    requested_len: u32,
) -> bool {
    if selection_is_empty(start, end) {
        grains2 == grains && states2 == states
    } else {
        &&& grains2.len() == grains.len()
        &&& states2.len() == states.len()
        &&& forall|i: int|
            0 <= i < grains.len() ==> if states[i] == GrainState::Finished {
                states2[i] == GrainState::Fresh && is_started_grain(
                    grains2[i],
                    i,
                    start,
                    end,
                    requested_len,
                )
            } else {
                states2[i] == states[i] && grains2[i] == grains[i]
            }
    }
}

/// The number of channels a frame fills: the frame's length, but no more
/// than one past the number of channels.
pub open spec fn channel_count(out_len: int, num_channels: nat) -> int {
    if out_len < num_channels + 1 {
        out_len
    } else {
        num_channels + 1int
    }
}

/// Channel `i` of a frame of `count` channels has a playing grain.
pub open spec fn has_grain(states: Seq<GrainState>, i: int, count: int) -> bool {
    0 <= i < count && i < states.len() && states[i] == GrainState::Fresh
}

/// A grain after a frame was written: if its channel is in the frame it is
/// marked when it plays outside the selection, and advanced unless finished.
pub open spec fn written_grain(
    g: GranularSynthesizerGrain,
    start: u32,
    end: u32,
    in_frame: bool,
) -> GranularSynthesizerGrain {
    if !in_frame {
        g
    } else {
        let marked = GranularSynthesizerGrain {
            exceeds_buffer_selection: g.exceeds_buffer_selection || spec_exceeds_selection(
                g,
                start,
                end,
            ),
            ..g
        };
        if g.is_finished {
            marked
        } else {
            spec_advanced(marked)
        }
    }
}

/// What a playing grain contributes to its channel.
pub open spec fn playback_of(g: GranularSynthesizerGrain) -> GrainPlayback {
    GrainPlayback {
        buffer_index: g.current_frame,
        offset: (g.current_frame - g.start_frame) as usize,
        len: g.len,
    }
}

/// The lowest channel below `k` whose grain is playing but finished.
pub open spec fn first_finished_below(
    grains: Seq<GranularSynthesizerGrain>,
    states: Seq<GrainState>,
    count: int,
    k: int,
) -> Option<int>
    decreases k,
{
    if k <= 0 {
        None
    } else {
        match first_finished_below(grains, states, count, k - 1) {
            Some(i) => Some(i),
            None => if has_grain(states, k - 1, count) && grains[k - 1].is_finished {
                Some(k - 1)
            } else {
                None
            },
        }
    }
}

/// One writing step: every channel of the frame plays its grain (or is
/// silent), the grains advance, and the first finished grain of the frame
/// leaves the playing pool, for the uninitialized pool when it had played
/// outside the selection and for the finished pool otherwise.
pub open spec fn write_step(
    grains: Seq<GranularSynthesizerGrain>,
    states: Seq<GrainState>,
    grains2: Seq<GranularSynthesizerGrain>,
    states2: Seq<GrainState>,
    frame: Seq<Option<GrainPlayback>>,
    start: u32,
    end: u32,
    out_len: int,
    num_channels: nat,
) -> bool {
    let count = channel_count(out_len, num_channels);
    let first = first_finished_below(grains, states, count, count);
    &&& frame.len() == count
    &&& forall|i: int|
        0 <= i < count ==> #[trigger] frame[i] == if has_grain(states, i, count)
            && !grains[i].is_finished {
            Some(playback_of(grains[i]))
        } else {
            None
        }
    &&& grains2.len() == grains.len()
    &&& forall|i: int|
        0 <= i < grains.len() ==> #[trigger] grains2[i] == written_grain(
            grains[i],
            start,
            end,
            has_grain(states, i, count),
        )
    &&& states2 == match first {
        Some(f) => states.update(
            f,
            if grains2[f].exceeds_buffer_selection {
                GrainState::Uninitialized
            } else {
                GrainState::Finished
            },
        ),
        None => states,
    }
}

/// The uids listed for a state are indexes of grains in that state.
pub proof fn lemma_uids_in_state_bounds(states: Seq<GrainState>, st: GrainState)
    requires
        states.len() <= usize::MAX,
    ensures
        forall|k: int|
            0 <= k < uids_in_state(states, st).len() ==> #[trigger] uids_in_state(states, st)[k]
                < states.len() && states[uids_in_state(states, st)[k] as int] == st,
        forall|k: int, j: int|
            0 <= k < j < uids_in_state(states, st).len() ==> uids_in_state(states, st)[k]
                < uids_in_state(states, st)[j],
    decreases states.len(),
{
    if states.len() > 0 {
        let prefix = states.drop_last();
        lemma_uids_in_state_bounds(prefix, st);
        let prev = uids_in_state(prefix, st);
        let all = uids_in_state(states, st);
        if states.last() == st {
            assert(all == prev.push((states.len() - 1) as usize));
        } else {
            assert(all == prev);
        }
        assert forall|k: int| 0 <= k < all.len() implies #[trigger] all[k] < states.len() && states[all[k] as int] == st by {
            if k < prev.len() {
                assert(all[k] == prev[k]);
                assert(prefix[prev[k] as int] == states[prev[k] as int]);
            }
        }
        assert forall|k: int, j: int| 0 <= k < j < all.len() implies all[k] < all[j] by {
            if j < prev.len() {
                assert(all[k] == prev[k] && all[j] == prev[j]);
            } else {
                assert(all[k] == prev[k]);
                assert(prev[k] < prefix.len());
            }
        }
    }
}

/// The first finished channel below `k` is a playing, finished grain.
pub proof fn lemma_first_finished_below_bounds(
    grains: Seq<GranularSynthesizerGrain>,
    states: Seq<GrainState>,
    count: int,
    k: int,
)
    ensures
        first_finished_below(grains, states, count, k) matches Some(f) ==> 0 <= f < k && has_grain(
            states,
            f,
            count,
        ) && grains[f].is_finished,
    decreases k,
{
    if k > 0 {
        lemma_first_finished_below_bounds(grains, states, count, k - 1);
    }
}

/// The selection bound in samples that a frame uses: the cached one, or the
/// raw one cut down to the buffer's length.
pub open spec fn resolved_bound(cached: Option<u32>, raw: u32, buffer_len: usize) -> u32 {
    match cached {
        Some(v) => v,
        None => spec_clamp_to_buffer(raw, buffer_len),
    }
}

/// A selection bound in samples, cut down to the buffer's length (taken as
/// `u32`).
pub open spec fn spec_clamp_to_buffer(raw: u32, buffer_len: usize) -> u32 {
    if raw < buffer_len as u32 {
        raw
    } else {
        buffer_len as u32
    }
}

/// A selection bound in samples, cut down to the buffer's length.
pub fn clamp_to_buffer(raw: u32, buffer_len: usize) -> (r: u32)
    ensures
        r == spec_clamp_to_buffer(raw, buffer_len),
        r <= buffer_len,
{
    let len = buffer_len as u32;
    assert((buffer_len as u32) as usize <= buffer_len) by (bit_vector);
    if raw < len {
        raw
    } else {
        len
    }
}

/// Produces frames of grains: every channel plays one grain, a random piece
/// of the selected part of an audio buffer. This holds the synthesizer's
/// bookkeeping of grains; the buffer's samples, the selection as a fraction
/// of the buffer and the volume envelope stay with the caller.
#[derive(Debug, Clone)]
pub struct GranularSynthesizer {
    /// How many channels of sound to generate per frame
    num_channels: NumChannels,
    /// Sample rate of the surrounding context
    sample_rate: u32,
    /// Length of the buffer that grains read from
    buffer_len: usize,
    /// used to generate random indexes
    rng: SmallRng,
    /// incremented on every frame
    frame_count: u32,
    /// the grain with uid `i` is `grains[i]`
    grains: Vec<GranularSynthesizerGrain>,
    /// the pool each grain is in
    states: Vec<GrainState>,
    selection_end_in_samples: LazyCached<u32>,
    selection_start_in_samples: LazyCached<u32>,
}

impl GranularSynthesizer {
    /// The grains, by uid.
    pub closed spec fn grains(&self) -> Seq<GranularSynthesizerGrain> {
        self.grains@
    }

    /// The pool of each grain, by uid.
    pub closed spec fn states(&self) -> Seq<GrainState> {
        self.states@
    }

    /// The number of channels.
    pub closed spec fn channels(&self) -> nat {
        self.num_channels@
    }

    /// The length of the buffer grains read from.
    pub closed spec fn buffer_length(&self) -> usize {
        self.buffer_len
    }

    /// The sample rate.
    pub closed spec fn rate(&self) -> u32 {
        self.sample_rate
    }

    /// The random number generator that picks where grains start.
    pub closed spec fn generator(&self) -> SmallRng {
        self.rng
    }

    /// The number of frames produced, modulo 2^32.
    pub closed spec fn frames(&self) -> u32 {
        self.frame_count
    }

    /// The cached start of the selection in samples, if any.
    pub closed spec fn cached_selection_start(&self) -> Option<u32> {
        self.selection_start_in_samples@
    }

    /// The cached end of the selection in samples, if any.
    pub closed spec fn cached_selection_end(&self) -> Option<u32> {
        self.selection_end_in_samples@
    }

    /// The synthesizer's invariant: one grain per uid, playing grains inside
    /// the buffer, cached selection bounds inside the buffer.
    pub closed spec fn wf(&self) -> bool {
        &&& self.grains@.len() == self.states@.len()
        &&& self.grains@.len() <= u32::MAX + 1
        &&& forall|i: int| 0 <= i < self.grains@.len() ==> (#[trigger] self.grains@[i]).uid == i
        &&& forall|i: int|
            0 <= i < self.grains@.len() && #[trigger] self.states@[i] == GrainState::Fresh
                ==> playing_grain_fits(self.grains@[i], self.buffer_len)
        &&& (self.selection_start_in_samples@ matches Some(v) ==> v <= self.buffer_len)
        &&& (self.selection_end_in_samples@ matches Some(v) ==> v <= self.buffer_len)
    }

    /// A synthesizer whose random numbers come from `seed`: two uninitialized
    /// grains, an empty buffer and the whole buffer selected. Every part of
    /// its state is fixed by the seed, so the same seed and the same calls
    /// give the same frames (see `law_next_frame_follows_from_state`).
    pub fn from_seed(seed: [u8; 32]) -> (r: Self)
        ensures
            r.wf(),
            r.channels() == DEFAULT_NUM_CHANNELS,
            r.rate() == DEFAULT_SAMPLE_RATE,
            r.buffer_length() == 0,
            r.frames() == 0,
            r.grains() == Seq::new(
                DEFAULT_NUM_CHANNELS as nat,
                |i: int| GranularSynthesizerGrain { uid: i as u32, ..spec_default_grain() },
            ),
            r.states() == Seq::new(DEFAULT_NUM_CHANNELS as nat, |i: int| GrainState::Uninitialized),
            r.cached_selection_start() is None,
            r.cached_selection_end() is None,
            r.generator() == small_rng_seeded(seed@),
    {
        let mut grains: Vec<GranularSynthesizerGrain> = Vec::new();
        let mut states: Vec<GrainState> = Vec::new();
        let mut i: usize = 0;
        while i < DEFAULT_NUM_CHANNELS
            invariant
                0 <= i <= DEFAULT_NUM_CHANNELS,
                grains@ == Seq::new(
                    i as nat,
                    |k: int| GranularSynthesizerGrain { uid: k as u32, ..spec_default_grain() },
                ),
                states@ == Seq::new(i as nat, |k: int| GrainState::Uninitialized),
            decreases DEFAULT_NUM_CHANNELS - i,
        {
            grains.push(Self::new_grain(i as u32));
            states.push(GrainState::Uninitialized);
            i = i + 1;
        }
        GranularSynthesizer {
            sample_rate: DEFAULT_SAMPLE_RATE,
            buffer_len: 0,
            rng: small_rng_from_seed(seed),
            num_channels: NumChannels::new(DEFAULT_NUM_CHANNELS),
            frame_count: 0,
            grains,
            states,
            selection_end_in_samples: LazyCached::new_uncached(),
            selection_start_in_samples: LazyCached::new_uncached(),
        }
    }

    /// A synthesizer seeded with zeros.
    pub fn new() -> (r: Self)
        ensures
            r.wf(),
            r.channels() == DEFAULT_NUM_CHANNELS,
            r.rate() == DEFAULT_SAMPLE_RATE,
            r.buffer_length() == 0,
            r.frames() == 0,
            r.grains() == Seq::new(
                DEFAULT_NUM_CHANNELS as nat,
                |i: int| GranularSynthesizerGrain { uid: i as u32, ..spec_default_grain() },
            ),
            r.states() == Seq::new(DEFAULT_NUM_CHANNELS as nat, |i: int| GrainState::Uninitialized),
            r.cached_selection_start() is None,
            r.cached_selection_end() is None,
            r.generator() == small_rng_seeded(Seq::new(32, |i: int| 0u8)),
    {
        let seed = [0u8; 32];
        assert(seed@ =~= Seq::new(32, |i: int| 0u8));
        Self::from_seed(seed)
    }

    /// This synthesizer and `other` agree in everything the methods read:
    /// grains, pools, channels, buffer length, sample rate, generator, frame
    /// count and cached selection bounds.
    pub open spec fn same_state(self, other: Self) -> bool {
        &&& self.grains() == other.grains()
        &&& self.states() == other.states()
        &&& self.channels() == other.channels()
        &&& self.buffer_length() == other.buffer_length()
        &&& self.rate() == other.rate()
        &&& self.generator() == other.generator()
        &&& self.frames() == other.frames()
        &&& self.cached_selection_start() == other.cached_selection_start()
        &&& self.cached_selection_end() == other.cached_selection_end()
    }

    /// `other` differs from this synthesizer in the cached selection start alone.
    pub closed spec fn same_except_selection_start(self, other: Self) -> bool {
        other == GranularSynthesizer { selection_start_in_samples: other.selection_start_in_samples, ..self }
    }

    /// `other` differs from this synthesizer in the cached selection end alone.
    pub closed spec fn same_except_selection_end(self, other: Self) -> bool {
        other == GranularSynthesizer { selection_end_in_samples: other.selection_end_in_samples, ..self }
    }

    /// `other` differs from this synthesizer in the cached selection bounds alone.
    pub closed spec fn same_except_selection(self, other: Self) -> bool {
        other == GranularSynthesizer {
            selection_start_in_samples: other.selection_start_in_samples,
            selection_end_in_samples: other.selection_end_in_samples,
            ..self
        }
    }

    /// This synthesizer with `num_channels` channels.
    pub closed spec fn with_channels(self, num_channels: NumChannels) -> Self {
        GranularSynthesizer { num_channels, ..self }
    }

    /// This synthesizer with sample rate `sample_rate`.
    pub closed spec fn with_rate(self, sample_rate: u32) -> Self {
        GranularSynthesizer { sample_rate, ..self }
    }

    /// The number of channels of sound generated per frame.
    pub fn num_channels(&self) -> (r: NumChannels)
        ensures
            r@ == self.channels(),
    {
        self.num_channels
    }

    /// Sets the number of channels; the grains follow on the next frame.
    pub fn set_num_channels(&mut self, num_channels: NumChannels) -> (r: &mut Self)
        ensures
            *r == old(self).with_channels(num_channels),
            (*r).channels() == num_channels@,
            *final(self) == *final(r),
    {
        self.num_channels = num_channels;
        self
    }

    /// The sample rate of the surrounding context.
    pub fn sample_rate(&self) -> (r: u32)
        ensures
            r == self.rate(),
    {
        self.sample_rate
    }

    /// Sets the sample rate of the surrounding context.
    pub fn set_sample_rate(&mut self, sample_rate: u32) -> (r: &mut Self)
        ensures
            *r == old(self).with_rate(sample_rate),
            (*r).rate() == sample_rate,
            *final(self) == *final(r),
    {
        self.sample_rate = sample_rate;
        self
    }

    /// The length of the buffer that grains read from.
    pub fn buffer_len(&self) -> (r: usize)
        ensures
            r == self.buffer_length(),
    {
        self.buffer_len
    }

    /// The number of frames produced so far, modulo 2^32.
    pub fn frame_count(&self) -> (r: u32)
        ensures
            r == self.frames(),
    {
        self.frame_count
    }

    /// The total number of grains, in all pools.
    pub fn total_num_grains(&self) -> (r: usize)
        requires
            self.wf(),
        ensures
            r == self.grains().len(),
    {
        self.grains.len()
    }

    /// The grain with uid `uid` and its pool, if there is one.
    pub fn grain(&self, uid: usize) -> (r: Option<(GranularSynthesizerGrain, GrainState)>)
        requires
            self.wf(),
        ensures
            uid < self.grains().len() ==> r == Some((self.grains()[uid as int], self.states()[uid as int])),
            uid >= self.grains().len() ==> r is None,
    {
        if uid < self.grains.len() {
            Some((self.grains[uid], self.states[uid]))
        } else {
            None
        }
    }

    /// The number of grains in pool `state`.
    pub fn num_grains_in_state(&self, state: GrainState) -> (r: usize)
        requires
            self.wf(),
        ensures
            r == uids_in_state(self.states(), state).len(),
    {
        let uids = self.uids_in_state(state);
        uids.len()
    }

    /// The uids of the grains in pool `state`, in increasing order.
    fn uids_in_state(&self, state: GrainState) -> (r: Vec<usize>)
        ensures
            r@ == uids_in_state(self.states(), state),
            self.states().len() <= usize::MAX,
    {
        let mut uids: Vec<usize> = Vec::new();
        let mut i: usize = 0;
        while i < self.states.len()
            invariant
                0 <= i <= self.states@.len(),
                uids@ == uids_in_state(self.states@.take(i as int), state),
            decreases self.states@.len() - i,
        {
            proof {
                assert(self.states@.take(i + 1).drop_last() =~= self.states@.take(i as int));
            }
            if self.states[i] == state {
                uids.push(i);
            }
            i = i + 1;
        }
        proof {
            assert(self.states@.take(i as int) =~= self.states@);
        }
        uids
    }

    /// Replaces the buffer grains read from by one of `buffer_len` samples.
    /// No playing grain is valid for the new buffer: each goes back to the
    /// uninitialized pool, marked as not initialized. The cached selection
    /// bounds are forgotten.
    pub fn set_buffer_len(&mut self, buffer_len: usize) -> (r: &mut Self)
        requires
            old(self).wf(),
        ensures
            (*r).wf(),
            (*r).buffer_length() == buffer_len,
            (*r).channels() == old(self).channels(),
            (*r).rate() == old(self).rate(),
            (*r).frames() == old(self).frames(),
            (*r).generator() == old(self).generator(),
            (*r).cached_selection_start() is None,
            (*r).cached_selection_end() is None,
            (*r).grains().len() == old(self).grains().len(),
            forall|i: int|
                0 <= i < old(self).grains().len() ==> if old(self).states()[i] == GrainState::Fresh {
                    &&& (*r).states()[i] == GrainState::Uninitialized
                    &&& (*r).grains()[i] == GranularSynthesizerGrain {
                        is_init: false,
                        ..old(self).grains()[i]
                    }
                } else {
                    &&& (*r).states()[i] == old(self).states()[i]
                    &&& (*r).grains()[i] == old(self).grains()[i]
                },
            *final(self) == *final(r),
    {
        self.buffer_len = buffer_len;
        let mut i: usize = 0;
        while i < self.grains.len()
            invariant
                self.grains@.len() == old(self).grains@.len(),
                self.states@.len() == old(self).states@.len(),
                old(self).grains@.len() == old(self).states@.len(),
                0 <= i <= self.grains@.len(),
                self.buffer_len == buffer_len,
                self.num_channels == old(self).num_channels,
                self.sample_rate == old(self).sample_rate,
                self.frame_count == old(self).frame_count,
                self.rng == old(self).rng,
                self.selection_start_in_samples == old(self).selection_start_in_samples,
                self.selection_end_in_samples == old(self).selection_end_in_samples,
                forall|k: int|
                    0 <= k < self.grains@.len() ==> #[trigger] self.grains@[k].uid == old(self).grains@[k].uid,
                forall|k: int|
                    0 <= k < i ==> if old(self).states@[k] == GrainState::Fresh {
                        &&& self.states@[k] == GrainState::Uninitialized
                        &&& self.grains@[k] == GranularSynthesizerGrain {
                            is_init: false,
                            ..old(self).grains@[k]
                        }
                    } else {
                        &&& self.states@[k] == old(self).states@[k]
                        &&& self.grains@[k] == old(self).grains@[k]
                    },
                forall|k: int|
                    i <= k < self.grains@.len() ==> self.states@[k] == old(self).states@[k]
                        && self.grains@[k] == old(self).grains@[k],
            decreases self.grains@.len() - i,
        {
            if self.states[i] == GrainState::Fresh {
                let mut grain = self.grains[i];
                grain.is_init = false;
                self.grains.set(i, grain);
                self.states.set(i, GrainState::Uninitialized);
            }
            i = i + 1;
        }
        self.selection_start_in_samples.invalidate();
        self.selection_end_in_samples.invalidate();
        self
    }

    /// Forgets the cached start of the selection (after the selection moved).
    pub fn invalidate_selection_start(&mut self)
        requires
            old(self).wf(),
        ensures
            final(self).wf(),
            final(self).cached_selection_start() is None,
            final(self).cached_selection_end() == old(self).cached_selection_end(),
            final(self).grains() == old(self).grains(),
            final(self).states() == old(self).states(),
            final(self).channels() == old(self).channels(),
            final(self).buffer_length() == old(self).buffer_length(),
            final(self).rate() == old(self).rate(),
            final(self).frames() == old(self).frames(),
            final(self).generator() == old(self).generator(),
    {
        self.selection_start_in_samples.invalidate();
    }

    /// Forgets the cached end of the selection (after the selection moved).
    pub fn invalidate_selection_end(&mut self)
        requires
            old(self).wf(),
        ensures
            final(self).wf(),
            final(self).cached_selection_end() is None,
            final(self).cached_selection_start() == old(self).cached_selection_start(),
            final(self).grains() == old(self).grains(),
            final(self).states() == old(self).states(),
            final(self).channels() == old(self).channels(),
            final(self).buffer_length() == old(self).buffer_length(),
            final(self).rate() == old(self).rate(),
            final(self).frames() == old(self).frames(),
            final(self).generator() == old(self).generator(),
    {
        self.selection_end_in_samples.invalidate();
    }

    /// The start of the selection in samples: the cached value, or else
    /// `raw` (the selection's fraction of the buffer length) cut down to the
    /// buffer's length, which is then cached.
    pub fn selection_start_in_samples(&mut self, raw: u32) -> (r: u32)
        requires
            old(self).wf(),
        ensures
            final(self).wf(),
            r <= final(self).buffer_length(),
            match old(self).cached_selection_start() {
                Some(v) => r == v,
                None => r == spec_clamp_to_buffer(raw, old(self).buffer_length()),
            },
            old(self).same_except_selection_start(*final(self)),
            final(self).cached_selection_start() == Some(r),
    {
        let buffer_len = self.buffer_len;
        let compute = || -> (v: u32)
            ensures
                v == spec_clamp_to_buffer(raw, buffer_len),
                v <= buffer_len,
            { clamp_to_buffer(raw, buffer_len) };
        *self.selection_start_in_samples.get(compute)
    }

    /// The end of the selection in samples: the cached value, or else `raw`
    /// cut down to the buffer's length, which is then cached.
    pub fn selection_end_in_samples(&mut self, raw: u32) -> (r: u32)
        requires
            old(self).wf(),
        ensures
            final(self).wf(),
            r <= final(self).buffer_length(),
            match old(self).cached_selection_end() {
                Some(v) => r == v,
                None => r == spec_clamp_to_buffer(raw, old(self).buffer_length()),
            },
            old(self).same_except_selection_end(*final(self)),
            final(self).cached_selection_end() == Some(r),
    {
        let buffer_len = self.buffer_len;
        let compute = || -> (v: u32)
            ensures
                v == spec_clamp_to_buffer(raw, buffer_len),
                v <= buffer_len,
            { clamp_to_buffer(raw, buffer_len) };
        *self.selection_end_in_samples.get(compute)
    }

    /// Whether the next frame, made with these selection bounds and this
    /// delay, starts at least one grain (and so needs a grain length of at
    /// least one sample). The selection bounds are resolved and cached as the
    /// frame itself would.
    pub fn frame_would_start_a_grain(
        &mut self,
        raw_selection_start: u32,
        raw_selection_end: u32,
        grain_initialization_delay_in_samples: u32,
    ) -> (r: bool)
        requires
            old(self).wf(),
        ensures
            final(self).wf(),
            ({
                let start = resolved_bound(
                    old(self).cached_selection_start(),
                    raw_selection_start,
                    old(self).buffer_length(),
                );
                let end = resolved_bound(
                    old(self).cached_selection_end(),
                    raw_selection_end,
                    old(self).buffer_length(),
                );
                &&& final(self).cached_selection_start() == Some(start)
                &&& final(self).cached_selection_end() == Some(end)
                &&& r == frame_starts_a_grain(
                    synced_states(old(self).states(), old(self).channels()),
                    start,
                    end,
                    grain_initialization_delay_in_samples == 0 || old(self).frames()
                        % grain_initialization_delay_in_samples == 0,
                    old(self).channels(),
                )
            }),
            old(self).same_except_selection(*final(self)),
    {
        let start = self.selection_start_in_samples(raw_selection_start);
        let end = self.selection_end_in_samples(raw_selection_end);
        if start >= end {
            return false;
        }
        let num_channels = self.num_channels.get();
        let num_grains = self.states.len();
        let m = if num_channels < num_grains {
            num_channels
        } else {
            num_grains
        };
        let mut any_uninitialized = false;
        let mut any_finished = false;
        let mut k: usize = 0;
        while k < m
            invariant
                0 <= k <= m,
                m <= self.states@.len(),
                any_uninitialized <==> exists|j: int|
                    0 <= j < k && #[trigger] self.states@[j] == GrainState::Uninitialized,
                any_finished <==> exists|j: int| 0 <= j < k && #[trigger] self.states@[j] == GrainState::Finished,
            decreases m - k,
        {
            if self.states[k] == GrainState::Uninitialized {
                any_uninitialized = true;
            }
            if self.states[k] == GrainState::Finished {
                any_finished = true;
            }
            k = k + 1;
        }
        let any_uninitialized = any_uninitialized || num_channels > num_grains;
        let aligned = self.frame_aligns_with_delay_interval(grain_initialization_delay_in_samples);
        proof {
            let states = self.states@;
            let nc = self.num_channels@;
            let synced = synced_states(states, nc);
            assert(synced.len() == nc);
            assert forall|j: int| 0 <= j < m implies synced[j] == states[j] by {}
            assert forall|j: int| m <= j < synced.len() implies synced[j] == GrainState::Uninitialized by {}
            assert(has_state(synced, GrainState::Finished) == any_finished) by {
                if has_state(synced, GrainState::Finished) {
                    let j = choose|j: int| 0 <= j < synced.len() && #[trigger] synced[j] == GrainState::Finished;
                    assert(states[j] == GrainState::Finished);
                }
                if any_finished {
                    let j = choose|j: int| 0 <= j < k && #[trigger] states[j] == GrainState::Finished;
                    assert(synced[j] == GrainState::Finished);
                }
            }
            assert(has_state(synced, GrainState::Uninitialized) == any_uninitialized) by {
                if has_state(synced, GrainState::Uninitialized) {
                    let j = choose|j: int| 0 <= j < synced.len() && #[trigger] synced[j] == GrainState::Uninitialized;
                    if j < m {
                        assert(states[j] == GrainState::Uninitialized);
                    }
                }
                if any_uninitialized {
                    if nc > states.len() {
                        assert(synced[states.len() as int] == GrainState::Uninitialized);
                    } else {
                        let j = choose|j: int| 0 <= j < k && #[trigger] states[j] == GrainState::Uninitialized;
                        assert(synced[j] == GrainState::Uninitialized);
                    }
                }
            }
            lemma_uids_in_state_nonempty(synced, GrainState::Uninitialized);
            let u = uids_in_state(synced, GrainState::Uninitialized).len();
            let count = if u < nc { u } else { nc };
            assert(u > 0 ==> nc > 0);
            assert(u > 0 ==> count / 2 < u);
        }
        (aligned && any_uninitialized) || any_finished
    }

    /// Makes the number of grains equal to the number of channels.
    fn synchronize_num_grains_with_channels(&mut self)
        requires
            old(self).wf(),
            old(self).channels() <= u32::MAX + 1,
        ensures
            final(self).wf(),
            final(self).grains() == synced_grains(old(self).grains(), old(self).channels()),
            final(self).states() == synced_states(old(self).states(), old(self).channels()),
            final(self).grains().len() == old(self).channels(),
            *final(self) == (GranularSynthesizer {
                grains: final(self).grains,
                states: final(self).states,
                ..*old(self)
            }),
    {
        let num_channels = self.num_channels.get();
        let total_num_grains = self.grains.len();
        if num_channels > total_num_grains {
            let mut i = total_num_grains;
            while i < num_channels
                invariant
                    total_num_grains <= i <= num_channels,
                    num_channels == old(self).channels(),
                    num_channels <= u32::MAX + 1,
                    total_num_grains == old(self).grains@.len(),
                    self.grains@ == old(self).grains@ + Seq::new(
                        (i - total_num_grains) as nat,
                        |k: int| GranularSynthesizerGrain { uid: (total_num_grains + k) as u32, ..spec_default_grain() },
                    ),
                    self.states@ == old(self).states@ + Seq::new(
                        (i - total_num_grains) as nat,
                        |k: int| GrainState::Uninitialized,
                    ),
                    *self == (GranularSynthesizer {
                        grains: self.grains,
                        states: self.states,
                        ..*old(self)
                    }),
                decreases num_channels - i,
            {
                self.grains.push(Self::new_grain(i as u32));
                self.states.push(GrainState::Uninitialized);
                proof {
                    let n = (i + 1 - total_num_grains) as nat;
                    assert(self.grains@ =~= old(self).grains@ + Seq::new(
                        n,
                        |k: int| GranularSynthesizerGrain { uid: (total_num_grains + k) as u32, ..spec_default_grain() },
                    ));
                    assert(self.states@ =~= old(self).states@ + Seq::new(n, |k: int| GrainState::Uninitialized));
                }
                i = i + 1;
            }
        } else if num_channels < total_num_grains {
            self.grains.truncate(num_channels);
            self.states.truncate(num_channels);
        }
        proof {
            if num_channels == total_num_grains {
                assert(self.grains@ =~= old(self).grains@.take(num_channels as int));
                assert(self.states@ =~= old(self).states@.take(num_channels as int));
            }
        }
    }

    /// Initialization happens only on frames that are a multiple of the
    /// initialization delay (every frame when the delay is 0).
    fn frame_aligns_with_delay_interval(&self, grain_initialization_delay_in_samples: u32) -> (r: bool)
        ensures
            r == (grain_initialization_delay_in_samples == 0 || self.frames()
                % grain_initialization_delay_in_samples == 0),
    {
        grain_initialization_delay_in_samples == 0 || self.frame_count
            % grain_initialization_delay_in_samples == 0
    }

    /// Nothing is selected when the selection's start is not before its end.
    fn buffer_selection_is_empty(selection_start_index: u32, selection_end_index: u32) -> (r: bool)
        ensures
            r == selection_is_empty(selection_start_index, selection_end_index),
    {
        selection_start_index >= selection_end_index
    }

    /// The length of new grains: the requested length, but no longer than the
    /// selection.
    fn grain_len_in_samples(selection_start_index: u32, selection_end_index: u32, requested_len: u32) -> (r:
        u32)
        requires
            selection_start_index <= selection_end_index,
        ensures
            r == spec_grain_len(selection_start_index, selection_end_index, requested_len),
    {
        let selection_len_in_samples = selection_end_index - selection_start_index;
        if selection_len_in_samples < requested_len {
            selection_len_in_samples
        } else {
            requested_len
        }
    }

    /// A random range of the selection for a new grain: the returned start
    /// lies from the selection's start up to the latest start, and the end
    /// lies `spec_grain_len` after it. An empty selection gives back its
    /// bounds.
    fn get_grain_random_start_and_end(
        &mut self,
        selection_start_index: u32,
        selection_end_index: u32,
        requested_len: u32,
    ) -> (r: (usize, usize))
        ensures
            selection_is_empty(selection_start_index, selection_end_index) ==> r == (
                selection_start_index as usize,
                selection_end_index as usize,
            ),
            !selection_is_empty(selection_start_index, selection_end_index) ==> {
                let len = spec_grain_len(selection_start_index, selection_end_index, requested_len);
                &&& selection_start_index <= r.0 <= spec_largest_start(
                    selection_start_index,
                    selection_end_index,
                    len,
                )
                &&& r.1 == r.0 + len
                &&& r.1 <= selection_end_index
            },
            ({
                let range = grain_range(old(self).generator(), selection_start_index, selection_end_index, requested_len);
                r == (range.0, range.1) && final(self).generator() == range.2
            }),
            *final(self) == (GranularSynthesizer { rng: final(self).rng, ..*old(self) }),
    {
        if Self::buffer_selection_is_empty(selection_start_index, selection_end_index) {
            return (selection_start_index as usize, selection_end_index as usize);
        }
        let grain_len_in_samples = Self::grain_len_in_samples(
            selection_start_index,
            selection_end_index,
            requested_len,
        );
        let smallest_start_index = selection_start_index;
        let range_would_be_empty = (selection_end_index < grain_len_in_samples) || ((
        selection_end_index - grain_len_in_samples) < smallest_start_index);
        let largest_start_index = if range_would_be_empty {
            smallest_start_index
        } else {
            selection_end_index - grain_len_in_samples
        };
        let grain_start_index = if smallest_start_index < largest_start_index {
            gen_range_inclusive(&mut self.rng, smallest_start_index, largest_start_index)
        } else {
            smallest_start_index
        };
        let grain_end_index = grain_start_index + grain_len_in_samples;
        (grain_start_index as usize, grain_end_index as usize)
    }

    /// Moves one uninitialized grain into the playing pool, once every
    /// `grain_initialization_delay_in_samples` frames (see `init_step`).
    fn initialize_an_uninitialized_grain(
        &mut self,
        selection_start_index: u32,
        selection_end_index: u32,
        requested_len: u32,
        grain_initialization_delay_in_samples: u32,
    )
        requires
            old(self).wf(),
            requested_len >= 1 || !(!selection_is_empty(selection_start_index, selection_end_index) && (
            grain_initialization_delay_in_samples == 0 || old(self).frames()
                % grain_initialization_delay_in_samples == 0) && init_choice(
                old(self).states(),
                old(self).channels(),
            ) is Some),
            selection_end_index <= old(self).buffer_length(),
        ensures
            final(self).wf(),
            init_step(
                old(self).grains(),
                old(self).states(),
                final(self).grains(),
                final(self).states(),
                selection_start_index,
                selection_end_index,
                requested_len,
                grain_initialization_delay_in_samples == 0 || old(self).frames()
                    % grain_initialization_delay_in_samples == 0,
                old(self).channels(),
            ),
            (final(self).grains(), final(self).states(), final(self).generator()) == init_outcome(
                old(self).grains(),
                old(self).states(),
                old(self).generator(),
                selection_start_index,
                selection_end_index,
                requested_len,
                grain_initialization_delay_in_samples == 0 || old(self).frames()
                    % grain_initialization_delay_in_samples == 0,
                old(self).channels(),
            ),
            *final(self) == (GranularSynthesizer {
                grains: final(self).grains,
                states: final(self).states,
                rng: final(self).rng,
                ..*old(self)
            }),
    {
        if Self::buffer_selection_is_empty(selection_start_index, selection_end_index) {
            return;
        }
        if !self.frame_aligns_with_delay_interval(grain_initialization_delay_in_samples) {
            return;
        }
        let uninitialized = self.uids_in_state(GrainState::Uninitialized);
        let num_channels = self.num_channels.get();
        let count = if uninitialized.len() < num_channels {
            uninitialized.len()
        } else {
            num_channels
        };
        let half_way = count / 2;
        if half_way >= uninitialized.len() {
            return;
        }
        let uid = uninitialized[half_way];
        proof {
            lemma_uids_in_state_bounds(self.states@, GrainState::Uninitialized);
        }
        let (grain_start_index, grain_end_index) = self.get_grain_random_start_and_end(
            selection_start_index,
            selection_end_index,
            requested_len,
        );
        let fresh_grain = GranularSynthesizerGrain::new(
            grain_start_index,
            grain_end_index,
            uid as u32,
            true,
        );
        self.grains.set(uid, fresh_grain);
        self.states.set(uid, GrainState::Fresh);
    }

    /// Gives every finished grain a new range of the selection and moves it
    /// back into the playing pool (see `refresh_step`).
    fn refresh_finished_grains(
        &mut self,
        selection_start_index: u32,
        selection_end_index: u32,
        requested_len: u32,
    )
        requires
            old(self).wf(),
            requested_len >= 1 || selection_is_empty(selection_start_index, selection_end_index) || !has_state(
                old(self).states(),
                GrainState::Finished,
            ),
            selection_end_index <= old(self).buffer_length(),
        ensures
            final(self).wf(),
            refresh_step(
                old(self).grains(),
                old(self).states(),
                final(self).grains(),
                final(self).states(),
                selection_start_index,
                selection_end_index,
                requested_len,
            ),
            (final(self).grains(), final(self).states(), final(self).generator()) == refresh_outcome(
                old(self).grains(),
                old(self).states(),
                old(self).generator(),
                selection_start_index,
                selection_end_index,
                requested_len,
            ),
            *final(self) == (GranularSynthesizer {
                grains: final(self).grains,
                states: final(self).states,
                rng: final(self).rng,
                ..*old(self)
            }),
    {
        if Self::buffer_selection_is_empty(selection_start_index, selection_end_index) {
            return;
        }
        let ghost old_grains = self.grains@;
        let ghost old_states = self.states@;
        let ghost old_rng = self.rng;
        let mut i: usize = 0;
        while i < self.grains.len()
            invariant
                self.wf(),
                0 <= i <= self.grains@.len(),
                requested_len >= 1 || !has_state(old_states, GrainState::Finished),
                selection_start_index < selection_end_index,
                selection_end_index <= self.buffer_len,
                self.grains@.len() == old_grains.len(),
                old_states.len() == old_grains.len(),
                forall|k: int|
                    0 <= k < i ==> if old_states[k] == GrainState::Finished {
                        self.states@[k] == GrainState::Fresh && is_started_grain(
                            self.grains@[k],
                            k,
                            selection_start_index,
                            selection_end_index,
                            requested_len,
                        )
                    } else {
                        self.states@[k] == old_states[k] && self.grains@[k] == old_grains[k]
                    },
                forall|k: int|
                    i <= k < self.grains@.len() ==> self.states@[k] == old_states[k]
                        && self.grains@[k] == old_grains[k],
                (self.grains@, self.states@, self.rng) == refresh_upto(
                    old_grains,
                    old_states,
                    old_rng,
                    selection_start_index,
                    selection_end_index,
                    requested_len,
                    i as nat,
                ),
                *self == (GranularSynthesizer {
                    grains: self.grains,
                    states: self.states,
                    rng: self.rng,
                    ..*old(self)
                }),
            decreases self.grains@.len() - i,
        {
            assert(refresh_upto(
                old_grains,
                old_states,
                old_rng,
                selection_start_index,
                selection_end_index,
                requested_len,
                (i + 1) as nat,
            ) == {
                let prev = refresh_upto(
                    old_grains,
                    old_states,
                    old_rng,
                    selection_start_index,
                    selection_end_index,
                    requested_len,
                    i as nat,
                );
                if old_states[i as int] == GrainState::Finished {
                    let range = grain_range(prev.2, selection_start_index, selection_end_index, requested_len);
                    (
                        prev.0.update(i as int, spec_new_grain(range.0, range.1, i as u32, true)),
                        prev.1.update(i as int, GrainState::Fresh),
                        range.2,
                    )
                } else {
                    prev
                }
            });
            if self.states[i] == GrainState::Finished {
                assert(old_states[i as int] == GrainState::Finished);
                let (grain_start_index, grain_end_index) = self.get_grain_random_start_and_end(
                    selection_start_index,
                    selection_end_index,
                    requested_len,
                );
                let fresh_grain = GranularSynthesizerGrain::new(
                    grain_start_index,
                    grain_end_index,
                    i as u32,
                    true,
                );
                self.grains.set(i, fresh_grain);
                self.states.set(i, GrainState::Fresh);
            }
            i = i + 1;
        }
    }

    fn increment_frame_count(&mut self)
        ensures
            final(self).frames() == old(self).frames().wrapping_add(1),
            *final(self) == (GranularSynthesizer { frame_count: final(self).frame_count, ..*old(self) }),
    {
        self.frame_count = self.frame_count.wrapping_add(1);
    }

    /// Writes one frame: every channel gets what its playing grain plays,
    /// the grains advance, and the first finished grain leaves the playing
    /// pool (see `write_step`).
    fn write_frame_data_into_buffer(
        &mut self,
        selection_start_in_samples: u32,
        selection_end_in_samples: u32,
        out_len: usize,
    ) -> (r: Vec<Option<GrainPlayback>>)
        requires
            old(self).wf(),
            old(self).channels() < usize::MAX,
        ensures
            final(self).wf(),
            write_step(
                old(self).grains(),
                old(self).states(),
                final(self).grains(),
                final(self).states(),
                r@,
                selection_start_in_samples,
                selection_end_in_samples,
                out_len as int,
                old(self).channels(),
            ),
            *final(self) == (GranularSynthesizer {
                grains: final(self).grains,
                states: final(self).states,
                ..*old(self)
            }),
    {
        let num_channels = self.num_channels.get();
        let count = if out_len < num_channels + 1 {
            out_len
        } else {
            num_channels + 1
        };
        let ghost old_grains = self.grains@;
        let ghost old_states = self.states@;
        let mut frame: Vec<Option<GrainPlayback>> = Vec::new();
        let mut finished_grain_uid: Option<usize> = None;
        let mut i: usize = 0;
        while i < count
            invariant
                0 <= i <= count,
                count == channel_count(out_len as int, old(self).channels()),
                old(self).wf(),
                old_grains == old(self).grains@,
                old_states == old(self).states@,
                self.states@ == old_states,
                self.grains@.len() == old_grains.len(),
                frame@.len() == i,
                forall|k: int|
                    0 <= k < i ==> #[trigger] frame@[k] == if has_grain(old_states, k, count as int)
                        && !old_grains[k].is_finished {
                        Some(playback_of(old_grains[k]))
                    } else {
                        None
                    },
                forall|k: int|
                    0 <= k < old_grains.len() ==> #[trigger] self.grains@[k] == if k < i {
                        written_grain(
                            old_grains[k],
                            selection_start_in_samples,
                            selection_end_in_samples,
                            has_grain(old_states, k, count as int),
                        )
                    } else {
                        old_grains[k]
                    },
                match first_finished_below(old_grains, old_states, count as int, i as int) {
                    Some(f) => finished_grain_uid == Some(f as usize),
                    None => finished_grain_uid is None,
                },
                *self == (GranularSynthesizer {
                    grains: self.grains,
                    states: self.states,
                    ..*old(self)
                }),
            decreases count - i,
        {
            if i < self.grains.len() && self.states[i] == GrainState::Fresh {
                let mut grain = self.grains[i];
                if grain.calculate_exceeds_buffer_selection(
                    selection_start_in_samples,
                    selection_end_in_samples,
                ) {
                    grain.exceeds_buffer_selection = true;
                }
                if grain.is_finished {
                    if finished_grain_uid.is_none() {
                        finished_grain_uid = Some(i);
                    }
                    frame.push(None);
                } else {
                    frame.push(
                        Some(
                            GrainPlayback {
                                buffer_index: grain.current_frame,
                                offset: grain.current_frame - grain.start_frame,
                                len: grain.len,
                            },
                        ),
                    );
                    grain.next_frame();
                }
                self.grains.set(i, grain);
            } else {
                frame.push(None);
            }
            i = i + 1;
        }
        if let Some(finished_grain_uid) = finished_grain_uid {
            proof {
                lemma_first_finished_below_bounds(old_grains, old_states, count as int, count as int);
            }
            let mut removed_grain = self.grains[finished_grain_uid];
            removed_grain.is_finished = true;
            self.grains.set(finished_grain_uid, removed_grain);
            if removed_grain.exceeds_buffer_selection {
                self.states.set(finished_grain_uid, GrainState::Uninitialized);
            } else {
                self.states.set(finished_grain_uid, GrainState::Finished);
            }
        }
        proof {
            assert forall|k: int|
                0 <= k < self.grains@.len() && #[trigger] self.states@[k] == GrainState::Fresh
                    implies playing_grain_fits(self.grains@[k], self.buffer_len) by {
                assert(old_states[k] == GrainState::Fresh);
            }
        }
        frame
    }

    /// Produces the next frame of `out_len` channels. The grains are first
    /// matched to the number of channels; then one uninitialized grain may
    /// start, every finished grain restarts, the frame counter advances, and
    /// the frame is written. `raw_selection_start` and `raw_selection_end`
    /// are the selection's bounds in samples, used when none is cached;
    /// `requested_grain_len` is the grain length in samples and
    /// `grain_initialization_delay_in_samples` the number of frames between
    /// two grain starts.
    ///
    /// The result gives, for each of the first `channel_count` channels, the
    /// buffer position its grain plays, or `None` for silence.
    pub fn run_next_frame_pipeline(
        &mut self,
        raw_selection_start: u32,
        raw_selection_end: u32,
        requested_grain_len: u32,
        grain_initialization_delay_in_samples: u32,
        out_len: usize,
    ) -> (r: Vec<Option<GrainPlayback>>)
        requires
            old(self).wf(),
            old(self).channels() <= u32::MAX,
            old(self).channels() < usize::MAX,
            requested_grain_len >= 1 || !frame_starts_a_grain(
                synced_states(old(self).states(), old(self).channels()),
                resolved_bound(old(self).cached_selection_start(), raw_selection_start, old(self).buffer_length()),
                resolved_bound(old(self).cached_selection_end(), raw_selection_end, old(self).buffer_length()),
                grain_initialization_delay_in_samples == 0 || old(self).frames()
                    % grain_initialization_delay_in_samples == 0,
                old(self).channels(),
            ),
        ensures
            final(self).wf(),
            ({
                let start = resolved_bound(
                    old(self).cached_selection_start(),
                    raw_selection_start,
                    old(self).buffer_length(),
                );
                let end = resolved_bound(
                    old(self).cached_selection_end(),
                    raw_selection_end,
                    old(self).buffer_length(),
                );
                let nc = old(self).channels();
                let grains0 = synced_grains(old(self).grains(), nc);
                let states0 = synced_states(old(self).states(), nc);
                &&& final(self).cached_selection_start() == Some(start)
                &&& final(self).cached_selection_end() == Some(end)
                &&& exists|
                    grains1: Seq<GranularSynthesizerGrain>,
                    states1: Seq<GrainState>,
                    grains2: Seq<GranularSynthesizerGrain>,
                    states2: Seq<GrainState>,
                |
                    #![trigger refresh_step(grains1, states1, grains2, states2, start, end, requested_grain_len)]
                    {
                        &&& init_step(
                            grains0,
                            states0,
                            grains1,
                            states1,
                            start,
                            end,
                            requested_grain_len,
                            grain_initialization_delay_in_samples == 0 || old(self).frames()
                                % grain_initialization_delay_in_samples == 0,
                            nc,
                        )
                        &&& refresh_step(
                            grains1,
                            states1,
                            grains2,
                            states2,
                            start,
                            end,
                            requested_grain_len,
                        )
                        &&& write_step(
                            grains2,
                            states2,
                            final(self).grains(),
                            final(self).states(),
                            r@,
                            start,
                            end,
                            out_len as int,
                            nc,
                        )
                    }
            }),
            frame_step(
                *old(self),
                *final(self),
                r@,
                raw_selection_start,
                raw_selection_end,
                requested_grain_len,
                grain_initialization_delay_in_samples,
                out_len as int,
            ),
            final(self).grains().len() == old(self).channels(),
            final(self).channels() == old(self).channels(),
            final(self).buffer_length() == old(self).buffer_length(),
            final(self).rate() == old(self).rate(),
            final(self).frames() == old(self).frames().wrapping_add(1),
            forall|i: int|
                0 <= i < r@.len() ==> (#[trigger] r@[i] matches Some(p) ==> p.buffer_index
                    < final(self).buffer_length() && p.offset < p.len && p.buffer_index
                    == final(self).grains()[i].start_frame + p.offset),
    {
        let selection_start = self.selection_start_in_samples(raw_selection_start);
        let selection_end = self.selection_end_in_samples(raw_selection_end);
        self.synchronize_num_grains_with_channels();
        let ghost grains0 = self.grains@;
        let ghost states0 = self.states@;
        self.initialize_an_uninitialized_grain(
            selection_start,
            selection_end,
            requested_grain_len,
            grain_initialization_delay_in_samples,
        );
        let ghost grains1 = self.grains@;
        let ghost states1 = self.states@;
        proof {
            if has_state(states1, GrainState::Finished) {
                let i = choose|i: int| 0 <= i < states1.len() && #[trigger] states1[i] == GrainState::Finished;
                if !selection_is_empty(selection_start, selection_end) && (grain_initialization_delay_in_samples
                    == 0 || old(self).frames() % grain_initialization_delay_in_samples == 0) && init_choice(
                    states0,
                    old(self).channels(),
                ) is Some {
                    let u = init_choice(states0, old(self).channels())->0 as int;
                    lemma_uids_in_state_bounds(states0, GrainState::Uninitialized);
                    assert(0 <= u < states0.len());
                    assert(states1 == states0.update(u, GrainState::Fresh));
                    assert(i != u);
                }
                assert(states0[i] == GrainState::Finished);
            }
        }
        self.refresh_finished_grains(selection_start, selection_end, requested_grain_len);
        let ghost grains2 = self.grains@;
        let ghost states2 = self.states@;
        let ghost wf2 = self.wf();
        self.increment_frame_count();
        let frame = self.write_frame_data_into_buffer(selection_start, selection_end, out_len);
        proof {
            assert(init_step(
                grains0,
                states0,
                grains1,
                states1,
                selection_start,
                selection_end,
                requested_grain_len,
                grain_initialization_delay_in_samples == 0 || old(self).frames()
                    % grain_initialization_delay_in_samples == 0,
                old(self).channels(),
            ));
            assert(refresh_step(grains1, states1, grains2, states2, selection_start, selection_end, requested_grain_len));
            assert(selection_start == resolved_bound(old(self).cached_selection_start(), raw_selection_start, old(self).buffer_length()));
            assert(selection_end == resolved_bound(old(self).cached_selection_end(), raw_selection_end, old(self).buffer_length()));
            assert(grains0 == synced_grains(old(self).grains(), old(self).channels()));
            assert(write_step(grains2, states2, self.grains@, self.states@, frame@, selection_start, selection_end, out_len as int, old(self).channels()));
            let count = channel_count(out_len as int, self.num_channels@);
            assert forall|i: int|
                0 <= i < frame@.len() implies (#[trigger] frame@[i] matches Some(p) ==> p.buffer_index
                    < self.buffer_len && p.offset < p.len && p.buffer_index
                    == self.grains@[i].start_frame + p.offset) by {
                if frame@[i] is Some {
                    assert(has_grain(states2, i, count));
                    assert(playing_grain_fits(grains2[i], self.buffer_len));
                }
            }
        }
        frame
    }

    /// An uninitialized grain with the given uid.
    fn new_grain(uid: u32) -> (r: GranularSynthesizerGrain)
        ensures
            r == (GranularSynthesizerGrain { uid, ..spec_default_grain() }),
    {
        GranularSynthesizerGrain { uid, ..GranularSynthesizerGrain::default() }
    }
}

/// One frame of the pipeline, from `old` to `new`, producing `frame`: the
/// selection bounds are resolved and cached, the grains are matched to the
/// channels, one uninitialized grain may start and every finished grain
/// restarts (see `init_outcome` and `refresh_outcome`, which also give the
/// generator after the draws), the frame counter advances and the frame is
/// written (see `write_step`).
pub open spec fn frame_step(
    old: GranularSynthesizer,
    new: GranularSynthesizer,
    frame: Seq<Option<GrainPlayback>>,
    raw_selection_start: u32,
    raw_selection_end: u32,
    requested_grain_len: u32,
    grain_initialization_delay_in_samples: u32,
    out_len: int,
) -> bool {
    let start = resolved_bound(old.cached_selection_start(), raw_selection_start, old.buffer_length());
    let end = resolved_bound(old.cached_selection_end(), raw_selection_end, old.buffer_length());
    let nc = old.channels();
    let after_init = init_outcome(
        synced_grains(old.grains(), nc),
        synced_states(old.states(), nc),
        old.generator(),
        start,
        end,
        requested_grain_len,
        grain_initialization_delay_in_samples == 0 || old.frames() % grain_initialization_delay_in_samples == 0,
        nc,
    );
    let after_refresh = refresh_outcome(after_init.0, after_init.1, after_init.2, start, end, requested_grain_len);
    &&& new.cached_selection_start() == Some(start)
    &&& new.cached_selection_end() == Some(end)
    &&& new.generator() == after_refresh.2
    &&& write_step(after_refresh.0, after_refresh.1, new.grains(), new.states(), frame, start, end, out_len, nc)
    &&& new.channels() == old.channels()
    &&& new.buffer_length() == old.buffer_length()
    &&& new.rate() == old.rate()
    &&& new.frames() == old.frames().wrapping_add(1)
}

/// A writing step has one outcome: the frame, the grains and their pools
/// after it are fixed by the grains and pools before it.
pub proof fn law_write_step_has_one_outcome(
    grains: Seq<GranularSynthesizerGrain>,
    states: Seq<GrainState>,
    grains_a: Seq<GranularSynthesizerGrain>,
    states_a: Seq<GrainState>,
    frame_a: Seq<Option<GrainPlayback>>,
    grains_b: Seq<GranularSynthesizerGrain>,
    states_b: Seq<GrainState>,
    frame_b: Seq<Option<GrainPlayback>>,
    start: u32,
    end: u32,
    out_len: int,
    num_channels: nat,
)
    requires
        write_step(grains, states, grains_a, states_a, frame_a, start, end, out_len, num_channels),
        write_step(grains, states, grains_b, states_b, frame_b, start, end, out_len, num_channels),
    ensures
        frame_a == frame_b,
        grains_a == grains_b,
        states_a == states_b,
{
    let count = channel_count(out_len, num_channels);
    assert forall|i: int| 0 <= i < count implies frame_a[i] == frame_b[i] by {
        assert(frame_a[i] == frame_b[i]);
    }
    assert(frame_a =~= frame_b);
    assert forall|i: int| 0 <= i < grains.len() implies grains_a[i] == grains_b[i] by {
        assert(grains_a[i] == grains_b[i]);
    }
    assert(grains_a =~= grains_b);
}

/// The synthesizer's state decides the next frame: two synthesizers that
/// agree in everything their methods read, given the same frame parameters,
/// produce the same frame and again agree afterwards. With `from_seed` (whose
/// result is fixed by the seed) and the other methods (whose results are
/// fixed by the synthesizer and their arguments), the frames follow from the
/// seed and the calls made.
pub proof fn law_next_frame_follows_from_state(
    a: GranularSynthesizer,
    b: GranularSynthesizer,
    a_next: GranularSynthesizer,
    b_next: GranularSynthesizer,
    frame_a: Seq<Option<GrainPlayback>>,
    frame_b: Seq<Option<GrainPlayback>>,
    raw_selection_start: u32,
    raw_selection_end: u32,
    requested_grain_len: u32,
    grain_initialization_delay_in_samples: u32,
    out_len: int,
)
    requires
        a.same_state(b),
        frame_step(
            a,
            a_next,
            frame_a,
            raw_selection_start,
            raw_selection_end,
            requested_grain_len,
            grain_initialization_delay_in_samples,
            out_len,
        ),
        frame_step(
            b,
            b_next,
            frame_b,
            raw_selection_start,
            raw_selection_end,
            requested_grain_len,
            grain_initialization_delay_in_samples,
            out_len,
        ),
    ensures
        frame_a == frame_b,
        a_next.same_state(b_next),
{
    let start = resolved_bound(a.cached_selection_start(), raw_selection_start, a.buffer_length());
    let end = resolved_bound(a.cached_selection_end(), raw_selection_end, a.buffer_length());
    let nc = a.channels();
    let after_init = init_outcome(
        synced_grains(a.grains(), nc),
        synced_states(a.states(), nc),
        a.generator(),
        start,
        end,
        requested_grain_len,
        grain_initialization_delay_in_samples == 0 || a.frames() % grain_initialization_delay_in_samples == 0,
        nc,
    );
    let after_refresh = refresh_outcome(after_init.0, after_init.1, after_init.2, start, end, requested_grain_len);
    law_write_step_has_one_outcome(
        after_refresh.0,
        after_refresh.1,
        a_next.grains(),
        a_next.states(),
        frame_a,
        b_next.grains(),
        b_next.states(),
        frame_b,
        start,
        end,
        out_len,
        nc,
    );
}

/// A new grain is as long as requested, cut to the selection: no longer than
/// either, and as long as one of them.
pub proof fn law_grain_len_is_the_shorter(start: u32, end: u32, requested_len: u32)
    requires
        start <= end,
    ensures
        spec_grain_len(start, end, requested_len) <= end - start,
        spec_grain_len(start, end, requested_len) <= requested_len,
        spec_grain_len(start, end, requested_len) == end - start || spec_grain_len(start, end, requested_len)
            == requested_len,
{
}

/// In a non-empty selection no longer than the requested length, a new
/// grain plays the whole selection, and no random number is drawn for it.
pub proof fn law_short_selection_range_is_the_selection(rng: SmallRng, start: u32, end: u32, requested_len: u32)
    requires
        start < end,
        end - start <= requested_len,
    ensures
        grain_range(rng, start, end, requested_len) == (start as usize, end as usize, rng),
{
}

/// A grain started in a selection shorter than the requested length plays
/// the whole selection.
pub proof fn law_short_selection_grain_covers_it(
    grain: GranularSynthesizerGrain,
    uid: int,
    start: u32,
    end: u32,
    requested_len: u32,
)
    requires
        start <= end,
        end - start <= requested_len,
        is_started_grain(grain, uid, start, end, requested_len),
    ensures
        grain.start_frame == start,
        grain.end_frame == end,
        grain.len == end - start,
{
}

/// Every grain in state `st` is listed among the uids of that state.
pub proof fn law_uids_in_state_lists_every_such_grain(states: Seq<GrainState>, st: GrainState, i: int)
    requires
        0 <= i < states.len(),
        states[i] == st,
    ensures
        uids_in_state(states, st).contains(i as usize),
    decreases states.len(),
{
    let prefix = states.drop_last();
    if i < states.len() - 1 {
        assert(prefix[i] == st);
        law_uids_in_state_lists_every_such_grain(prefix, st, i);
        let k = choose|k: int| 0 <= k < uids_in_state(prefix, st).len() && uids_in_state(prefix, st)[k] == i as usize;
        assert(uids_in_state(states, st)[k] == i as usize);
    } else {
        let all = uids_in_state(states, st);
        assert(all[all.len() - 1] == i as usize);
    }
}

/// The uids of a state among the first `m` grains are the first ones listed
/// for all grains; the ones listed after them are `m` or more.
pub proof fn lemma_uids_in_state_prefix(states: Seq<GrainState>, st: GrainState, m: int)
    requires
        0 <= m <= states.len(),
        states.len() <= usize::MAX,
    ensures
        ({
            let all = uids_in_state(states, st);
            let head = uids_in_state(states.take(m), st);
            &&& head.len() <= all.len()
            &&& all.take(head.len() as int) == head
            &&& forall|k: int| head.len() <= k < all.len() ==> all[k] >= m
        }),
    decreases states.len(),
{
    if m == states.len() {
        assert(states.take(m) =~= states);
        assert(uids_in_state(states, st).take(uids_in_state(states, st).len() as int) =~= uids_in_state(states, st));
    } else {
        let prefix = states.drop_last();
        assert(prefix.take(m) =~= states.take(m));
        lemma_uids_in_state_prefix(prefix, st, m);
        let prev = uids_in_state(prefix, st);
        let all = uids_in_state(states, st);
        let head = uids_in_state(states.take(m), st);
        if states.last() == st {
            assert(all == prev.push((states.len() - 1) as usize));
            assert(all.take(head.len() as int) =~= prev.take(head.len() as int));
        } else {
            assert(all == prev);
        }
    }
}

/// The grain that starts next is an uninitialized one with exactly half of
/// the uninitialized grains it counts (no more than one per channel) before
/// it, so that new grains come from the middle of the channels; none starts
/// when that half would leave no uninitialized grain to pick.
pub proof fn law_new_grain_comes_from_the_middle(states: Seq<GrainState>, num_channels: nat)
    requires
        states.len() <= usize::MAX,
    ensures
        ({
            let total = uids_in_state(states, GrainState::Uninitialized).len();
            let counted = if total < num_channels { total } else { num_channels };
            match init_choice(states, num_channels) {
                Some(u) => {
                    &&& u < states.len()
                    &&& states[u as int] == GrainState::Uninitialized
                    &&& uids_in_state(states.take(u as int), GrainState::Uninitialized).len() == counted / 2
                },
                None => counted / 2 >= total,
            }
        }),
{
    let st = GrainState::Uninitialized;
    let all = uids_in_state(states, st);
    lemma_uids_in_state_bounds(states, st);
    if let Some(u) = init_choice(states, num_channels) {
        let h = ((if all.len() < num_channels { all.len() } else { num_channels }) / 2) as int;
        assert(all[h] == u);
        let head = uids_in_state(states.take(u as int), st);
        lemma_uids_in_state_prefix(states, st, u as int);
        lemma_uids_in_state_bounds(states.take(u as int), st);
        if head.len() > h {
            assert(all.take(head.len() as int)[h] == head[h]);
            assert(head[h] < u);
        }
        if head.len() < h {
            assert(all[head.len() as int] >= u);
            assert(all[head.len() as int] < all[h]);
        }
    }
}

/// The first finished channel below `k` is the lowest channel below `k` whose
/// grain is playing and finished; there is none exactly when no such channel
/// exists.
pub proof fn law_first_finished_is_the_lowest(
    grains: Seq<GranularSynthesizerGrain>,
    states: Seq<GrainState>,
    count: int,
    k: int,
)
    ensures
        first_finished_below(grains, states, count, k) matches Some(f) ==> {
            &&& 0 <= f < k
            &&& has_grain(states, f, count) && grains[f].is_finished
            &&& forall|j: int| 0 <= j < f ==> !(has_grain(states, j, count) && grains[j].is_finished)
        },
        first_finished_below(grains, states, count, k) is None ==> forall|j: int|
            0 <= j < k ==> !(has_grain(states, j, count) && grains[j].is_finished),
    decreases k,
{
    if k > 0 {
        law_first_finished_is_the_lowest(grains, states, count, k - 1);
    }
}

/// A selection bound cut to the buffer is the smaller of the raw bound and
/// the buffer's length.
pub proof fn law_clamp_is_the_smaller(raw: u32, buffer_len: usize)
    ensures
        spec_clamp_to_buffer(raw, buffer_len) <= raw,
        spec_clamp_to_buffer(raw, buffer_len) <= buffer_len as u32,
        spec_clamp_to_buffer(raw, buffer_len) == raw || spec_clamp_to_buffer(raw, buffer_len)
            == buffer_len as u32,
{
}

/// The latest start of a grain that fits in the selection lets it end at the
/// selection's end; a grain longer than the selection starts at its start.
pub proof fn law_latest_start_ends_at_the_selection_end(start: u32, end: u32, grain_len: u32)
    requires
        start <= end,
    ensures
        grain_len <= end - start ==> start <= spec_largest_start(start, end, grain_len) && spec_largest_start(
            start,
            end,
            grain_len,
        ) + grain_len == end,
        grain_len > end - start ==> spec_largest_start(start, end, grain_len) == start,
{
}

/// Matching the pool to `num_channels` leaves one grain per channel: the
/// grains already there keep their uid, range and pool; the added ones are
/// uninitialized, with the next uids in order.
pub proof fn law_grains_follow_the_channels(
    grains: Seq<GranularSynthesizerGrain>,
    states: Seq<GrainState>,
    num_channels: nat,
)
    requires
        grains.len() == states.len(),
    ensures
        synced_grains(grains, num_channels).len() == num_channels,
        synced_states(states, num_channels).len() == num_channels,
        forall|i: int|
            0 <= i < num_channels && i < grains.len() ==> synced_grains(grains, num_channels)[i] == grains[i]
                && synced_states(states, num_channels)[i] == states[i],
        forall|i: int|
            grains.len() <= i < num_channels ==> synced_grains(grains, num_channels)[i] == (GranularSynthesizerGrain {
                uid: i as u32,
                ..spec_default_grain()
            }) && synced_states(states, num_channels)[i] == GrainState::Uninitialized,
{
}

/// A frame fills as many channels as it has room for, but no more than one
/// past the number of channels.
pub proof fn law_frame_channel_count(out_len: int, num_channels: nat)
    requires
        0 <= out_len,
    ensures
        channel_count(out_len, num_channels) <= out_len,
        channel_count(out_len, num_channels) <= num_channels + 1,
        channel_count(out_len, num_channels) == out_len || channel_count(out_len, num_channels)
            == num_channels + 1,
{
}

} // verus!
