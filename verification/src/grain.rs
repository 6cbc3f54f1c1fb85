use vstd::prelude::*;

verus! {

/// Where in a buffer a grain samples from, and how far it has played.
#[derive(Clone, Copy, Debug, PartialEq, Eq, PartialOrd, Ord, Structural)]
pub struct GranularSynthesizerGrain {
    pub start_frame: usize,
    pub end_frame: usize,
    pub current_frame: usize,
    /// the number of frames between `start_frame` and `end_frame` in samples
    pub len: usize,
    /// unique among the grains of one synthesizer
    pub uid: u32,
    /// Whether the grain exceeds the current buffer selection
    pub exceeds_buffer_selection: bool,
    /// `true` when the Grain has played through the full range of its selection
    pub is_finished: bool,
    /// Whether the grain has been initialized for the first time or not
    pub is_init: bool,
}

/// A grain that plays the frames from `start_frame` up to `end_frame`.
pub open spec fn spec_new_grain(
    start_frame: usize,
    end_frame: usize,
    uid: u32,
    init: bool,
) -> GranularSynthesizerGrain {
    GranularSynthesizerGrain {
        start_frame,
        current_frame: start_frame,
        end_frame,
        is_finished: false,
        len: (end_frame - start_frame) as usize,
        uid,
        is_init: init,
        exceeds_buffer_selection: false,
    }
}

/// A grain that has nothing to play.
pub open spec fn spec_default_grain() -> GranularSynthesizerGrain {
    GranularSynthesizerGrain {
        start_frame: 0,
        current_frame: 0,
        end_frame: 0,
        is_finished: true,
        len: 0,
        uid: 0,
        is_init: false,
        exceeds_buffer_selection: false,
    }
}

/// The grain's playing position lies before the selection's start or its end
/// lies past the selection's end (positions taken as `u32`).
pub open spec fn spec_exceeds_selection(
    grain: GranularSynthesizerGrain,
    selection_start_in_samples: u32,
    selection_end_in_samples: u32,
) -> bool {
    (grain.current_frame as u32) < selection_start_in_samples || (grain.end_frame as u32)
        > selection_end_in_samples
}

/// What `next_frame` does to a grain that has not finished.
pub open spec fn spec_advanced(grain: GranularSynthesizerGrain) -> GranularSynthesizerGrain {
    GranularSynthesizerGrain {
        current_frame: (grain.current_frame + 1) as usize,
        is_finished: grain.current_frame + 1 == grain.end_frame,
        ..grain
    }
}

impl Default for GranularSynthesizerGrain {
    fn default() -> (r: Self)
        ensures
            r == spec_default_grain(),
    {
        Self {
            start_frame: 0,
            current_frame: 0,
            end_frame: 0,
            is_finished: true,
            len: 0,
            uid: 0,
            is_init: false,
            exceeds_buffer_selection: false,
        }
    }
}

impl GranularSynthesizerGrain {
    /// A grain that starts playing at `start_frame` and finishes when it
    /// reaches `end_frame`, which must lie after it.
    pub fn new(start_frame: usize, end_frame: usize, uid: u32, init: bool) -> (r: Self)
        requires
            start_frame < end_frame,
        ensures
            r == spec_new_grain(start_frame, end_frame, uid, init),
    {
        GranularSynthesizerGrain {
            start_frame,
            current_frame: start_frame,
            end_frame,
            is_finished: false,
            len: end_frame - start_frame,
            uid,
            is_init: init,
            exceeds_buffer_selection: false,
        }
    }

    /// Whether the grain plays outside the selection `[start, end]`.
    pub fn calculate_exceeds_buffer_selection(
        &self,
        selection_start_in_samples: u32,
        selection_end_in_samples: u32,
    ) -> (r: bool)
        ensures
            r == spec_exceeds_selection(*self, selection_start_in_samples, selection_end_in_samples),
    {
        (self.current_frame as u32) < selection_start_in_samples || (self.end_frame as u32)
            > selection_end_in_samples
    }

    /// Increments the current frame and returns the frame that was current
    /// before. The grain finishes when the current frame reaches the end.
    ///
    /// If the grain is already finished, this is a no-op and `None` is returned.
    pub fn next_frame(&mut self) -> (r: Option<usize>)
        requires
            old(self).is_finished || old(self).current_frame < usize::MAX,
        ensures
            old(self).is_finished ==> r is None && *final(self) == *old(self),
            !old(self).is_finished ==> r == Some(old(self).current_frame) && *final(self)
                == spec_advanced(*old(self)),
    {
        if self.is_finished {
            return None;
        }
        let frame_to_return = self.current_frame;
        self.current_frame = self.current_frame + 1;
        if self.current_frame == self.end_frame {
            self.is_finished = true;
        }
        Some(frame_to_return)
    }

    /// The number of frames left to play.
    pub fn remaining_samples(&self) -> (r: usize)
        requires
            self.current_frame <= self.end_frame,
        ensures
            r == self.end_frame - self.current_frame,
    {
        self.end_frame - self.current_frame
    }
}

/// A grain started by `new` plays exactly `end_frame - start_frame` frames:
/// after `k` calls of `next_frame` it is `min(k, end_frame - start_frame)`
/// frames in, has that many fewer samples remaining, and has finished
/// exactly when none remain; further calls leave it as it is.
pub proof fn law_grain_plays_its_range(start_frame: usize, end_frame: usize, uid: u32, init: bool, k: nat)
    requires
        start_frame < end_frame,
    ensures
        ({
            let len = end_frame - start_frame;
            let played = if k < len { k as int } else { len };
            let g = advance_n(spec_new_grain(start_frame, end_frame, uid, init), k);
            &&& g.current_frame == start_frame + played
            &&& g.start_frame <= g.current_frame <= g.end_frame
            &&& g.end_frame - g.current_frame == len - played
            &&& g.is_finished <==> g.end_frame - g.current_frame == 0
            &&& g.start_frame == start_frame && g.end_frame == end_frame
            &&& g.len == len
            &&& g.uid == uid && g.is_init == init
        }),
    decreases k,
{
    if k > 0 {
        law_grain_plays_its_range(start_frame, end_frame, uid, init, (k - 1) as nat);
    }
}

/// The grain after `k` calls of `next_frame` (a finished grain stays put).
pub open spec fn advance_n(grain: GranularSynthesizerGrain, k: nat) -> GranularSynthesizerGrain
    decreases k,
{
    if k == 0 {
        grain
    } else {
        let g = advance_n(grain, (k - 1) as nat);
        if g.is_finished {
            g
        } else {
            spec_advanced(g)
        }
    }
}

/// A grain exceeds the selection exactly when its playing position lies
/// before the selection's start or its end lies after the selection's end
/// (for positions that fit in `u32`).
pub proof fn law_exceeds_selection_outside_it(grain: GranularSynthesizerGrain, start: u32, end: u32)
    requires
        grain.current_frame <= u32::MAX,
        grain.end_frame <= u32::MAX,
    ensures
        spec_exceeds_selection(grain, start, end) <==> (grain.current_frame < start || grain.end_frame > end),
{
}

} // verus!
