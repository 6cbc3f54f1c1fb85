use std::time::Duration;

use resonix::granular::{GrainState, GranularSynthesizer, DEFAULT_NUM_CHANNELS, DEFAULT_SAMPLE_RATE};
use resonix::units::NumChannels;

/// Grain length used when none is set.
const DEFAULT_GRAIN_LEN: Duration = Duration::from_millis(20);
/// Delay between grain starts used when none is set.
const DEFAULT_GRAIN_INITIALIZATION_DELAY: Duration = Duration::from_millis(20);

/// The synthesizer with a buffer of samples, a selection given as fractions
/// of the buffer, and an envelope that is 1 everywhere: a frame is the buffer
/// sample that each channel's grain plays, or 0 for a silent channel.
struct Synth {
    core: GranularSynthesizer,
    buffer: Vec<f32>,
    selection_start: f32,
    selection_end: f32,
    grain_len: Duration,
    delay: Duration,
}

impl Synth {
    fn new() -> Self {
        Synth {
            core: GranularSynthesizer::new(),
            buffer: Vec::new(),
            selection_start: 0.0,
            selection_end: 1.0,
            grain_len: DEFAULT_GRAIN_LEN,
            delay: DEFAULT_GRAIN_INITIALIZATION_DELAY,
        }
    }

    fn set_buffer(&mut self, buffer: Vec<f32>) -> &mut Self {
        self.core.set_buffer_len(buffer.len());
        self.buffer = buffer;
        self
    }

    fn set_selection_start(&mut self, start: f32) -> &mut Self {
        self.selection_start = start;
        if self.selection_start > self.selection_end {
            self.selection_end = self.selection_start;
            self.core.invalidate_selection_end();
        }
        self.core.invalidate_selection_start();
        self
    }

    fn set_selection_end(&mut self, end: f32) -> &mut Self {
        self.selection_end = end;
        if self.selection_end < self.selection_start {
            self.selection_start = self.selection_end;
            self.core.invalidate_selection_start();
        }
        self.core.invalidate_selection_end();
        self
    }

    fn set_num_channels(&mut self, n: usize) -> &mut Self {
        self.core.set_num_channels(NumChannels::new(n));
        self
    }

    fn set_grain_initialization_delay(&mut self, delay: Duration) -> &mut Self {
        self.delay = delay;
        self
    }

    fn next_frame(&mut self) -> Vec<f32> {
        let n = self.core.num_channels().get();
        let len = self.buffer.len() as f32;
        let raw_start = (len * self.selection_start) as u32;
        let raw_end = (len * self.selection_end) as u32;
        let rate = self.core.sample_rate();
        let grain_len = (rate as f32 * self.grain_len.as_secs_f32()) as u32;
        let delay = (rate as f64 * self.delay.as_secs_f64()) as u32;
        assert!(grain_len > 0 || !self.core.frame_would_start_a_grain(raw_start, raw_end, delay));
        let playback = self.core.run_next_frame_pipeline(raw_start, raw_end, grain_len, delay, n);
        let mut frame = vec![0.0; n];
        for (i, p) in playback.iter().enumerate() {
            if let Some(p) = p {
                frame[i] = self.buffer[p.buffer_index];
            }
        }
        frame
    }

    fn count(&self, state: GrainState) -> usize {
        self.core.num_grains_in_state(state)
    }
}

#[test]
fn it_should_have_default_num_channels() {
    let synth = Synth::new();

    assert_eq!(synth.core.num_channels().get(), DEFAULT_NUM_CHANNELS);
    assert_eq!(synth.count(GrainState::Uninitialized), 2);
    assert_eq!(synth.count(GrainState::Fresh), 0);
    assert_eq!(synth.count(GrainState::Finished), 0);
}

#[test]
fn it_should_be_able_to_set_new_num_channels() {
    let mut synth = Synth::new();

    assert_eq!(synth.core.num_channels().get(), DEFAULT_NUM_CHANNELS);
    assert_eq!(synth.core.num_channels().get(), 2);
    assert_eq!(synth.count(GrainState::Uninitialized), 2);
    assert_eq!(synth.count(GrainState::Fresh), 0);
    assert_eq!(synth.count(GrainState::Finished), 0);

    synth.set_num_channels(10);
    synth.next_frame();

    assert_eq!(synth.core.num_channels().get(), 10);
    assert_eq!(synth.count(GrainState::Uninitialized), 10);
    assert_eq!(synth.count(GrainState::Fresh), 0);
    assert_eq!(synth.count(GrainState::Finished), 0);
}

#[test]
fn it_should_dynamically_update_grains_when_new_num_channels_set() {
    let mut synth = Synth::new();
    synth.set_buffer(vec![0.0; 1024]).set_grain_initialization_delay(Duration::MAX);

    assert_eq!(synth.core.num_channels().get(), DEFAULT_NUM_CHANNELS);
    assert_eq!(synth.core.num_channels().get(), 2);
    assert_eq!(synth.count(GrainState::Uninitialized), 2);
    assert_eq!(synth.count(GrainState::Fresh), 0);
    assert_eq!(synth.count(GrainState::Finished), 0);

    // increase channels to get more grains
    synth.set_num_channels(10);
    synth.next_frame();

    assert_eq!(synth.core.num_channels().get(), 10);
    assert_eq!(synth.count(GrainState::Uninitialized), 9);
    assert_eq!(synth.count(GrainState::Fresh), 1);
    assert_eq!(synth.count(GrainState::Finished), 0);

    // reset num channels
    synth.set_num_channels(4);
    synth.next_frame();

    // keep as many fresh grains as possible and delete all the remaining finished ones
    assert_eq!(synth.core.num_channels().get(), 4);
    assert_eq!(synth.count(GrainState::Uninitialized), 4);
    assert_eq!(synth.count(GrainState::Fresh), 0);
    assert_eq!(synth.count(GrainState::Finished), 0);
}

#[test]
fn it_should_allow_setting_new_num_channels_to_large_amount() {
    let mut synth = Synth::new();
    synth.set_buffer(vec![1.0; 1024]).set_grain_initialization_delay(Duration::ZERO);

    for _ in 0..=2 {
        synth.next_frame();
    }

    let next_frame = synth.next_frame();

    assert_eq!(next_frame.len(), 2);
    assert_eq!(next_frame, vec![1.0; 2]);

    synth.set_num_channels(100);

    for _ in 0..=100 {
        synth.next_frame();
    }

    let next_frame = synth.next_frame();

    assert_eq!(next_frame.len(), 100);
    assert_eq!(next_frame, vec![1.0; 100]);
}

#[test]
fn it_should_allow_large_numbers_of_channels() {
    let mut synth = Synth::new();
    synth.set_buffer(vec![1.0; 1024]).set_num_channels(250);

    for _ in 0..(DEFAULT_SAMPLE_RATE * 10) {
        synth.next_frame();
    }

    for _ in 0..44 {
        synth.next_frame();
    }

    let next_frame = synth.next_frame();

    assert_eq!(next_frame.len(), 250);
    assert_eq!(next_frame, vec![1.0; 250]);
}

#[test]
fn it_should_allow_setting_new_selection() {
    let mut buffer = vec![0.0; 1024];
    buffer.append(&mut vec![1.0; 1024]);
    let mut synth = Synth::new();
    synth
        .set_buffer(buffer)
        .set_selection_start(0.0)
        .set_selection_end(0.4)
        .set_grain_initialization_delay(Duration::ZERO);

    let next_frame = synth.next_frame();
    assert_eq!(next_frame, vec![0.0, 0.0]);

    synth.set_selection_start(0.6).set_selection_end(1.0);

    // allow grain playing from previous selection to die
    for _ in 0..synth.core.sample_rate() {
        synth.next_frame();
    }

    let next_frame = synth.next_frame();

    assert_eq!(next_frame, vec![1.0, 1.0]);
}

#[test]
fn it_should_allow_setting_many_new_selection_while_producing_grains() {
    // prepare buffer with "colored" data
    let mut buffer = vec![0.0; 1024];
    buffer.append(&mut vec![0.25; 1024]);
    buffer.append(&mut vec![0.5; 1024]);
    buffer.append(&mut vec![0.75; 1024]);

    let mut synth = Synth::new();
    synth
        .set_buffer(buffer)
        .set_grain_initialization_delay(Duration::ZERO)
        .set_num_channels(100);

    for _ in 0..500 {
        synth.next_frame();
    }

    // resize buffer selection while generating frames
    for selection_end in 0..100 {
        synth.set_selection_start(0.25);
        let selection_end_progress = selection_end as f32 / 100.0;
        synth.set_selection_end(0.25 + 0.25 * selection_end_progress);
        synth.next_frame();
    }

    for _ in 0..500 {
        synth.next_frame();
    }

    let next_frame = synth.next_frame();
    assert_eq!(next_frame, vec![0.25; 100]);

    // resize buffer selection while generating frames
    for selection_end in 0..1000 {
        synth.set_selection_start(0.5);
        let selection_end_progress = selection_end as f32 / 1000.0;
        synth.set_selection_end(0.5 + 0.25 * selection_end_progress);
        synth.next_frame();
    }

    for _ in 0..500 {
        synth.next_frame();
    }

    let next_frame = synth.next_frame();
    assert_eq!(next_frame, vec![0.5; 100]);
}

#[test]
fn it_should_allow_setting_zero_length_selection() {
    // prepare buffer with "colored" data
    let mut buffer = vec![0.0; 1024];
    buffer.append(&mut vec![0.25; 1024]);
    buffer.append(&mut vec![0.5; 1024]);
    buffer.append(&mut vec![0.75; 1024]);

    let mut synth = Synth::new();
    synth
        .set_buffer(buffer)
        .set_grain_initialization_delay(Duration::ZERO)
        .set_num_channels(100);

    // generate frames with full buffer selected
    for _ in 0..1000 {
        synth.next_frame();
    }

    // generate frames with zero-length buffer selected
    synth.set_selection_start(0.25).set_selection_end(0.25);

    for _ in 0..1000 {
        synth.next_frame();
    }

    let next_frame = synth.next_frame();
    assert_eq!(next_frame, vec![0.0; 100]);

    // generate frames with normal buffer selected
    synth.set_selection_start(0.75).set_selection_end(1.0);

    for _ in 0..1000 {
        synth.next_frame();
    }

    let next_frame = synth.next_frame();
    assert_eq!(next_frame, vec![0.75; 100]);
}

#[test]
fn it_should_allow_setting_many_new_selection_with_many_channels() {
    // prepare buffer with "colored" data
    let mut buffer = vec![0.0; 1024];
    buffer.append(&mut vec![0.25; 1024]);
    buffer.append(&mut vec![0.5; 1024]);
    buffer.append(&mut vec![0.75; 1024]);

    let mut synth = Synth::new();
    synth
        .set_buffer(buffer)
        .set_grain_initialization_delay(Duration::ZERO)
        .set_num_channels(250);

    for _ in 0..500 {
        synth.next_frame();
    }

    // resize buffer selection while generating frames
    for selection_end in 0..10 {
        synth.set_selection_start(0.25);
        let selection_end_progress = selection_end as f32 / 10.0;
        synth.set_selection_end(0.25 + 0.25 * selection_end_progress);

        for _ in 0..500 {
            synth.next_frame();
        }
    }

    let next_frame = synth.next_frame();
    assert_eq!(next_frame, vec![0.25; 250]);
}

#[test]
fn should_allow_going_from_high_to_low_num_channels() {
    let mut synth = Synth::new();
    synth
        .set_buffer(vec![1.0; 1024])
        .set_grain_initialization_delay(Duration::ZERO)
        .set_num_channels(250);

    for _ in 0..500 {
        synth.next_frame();
    }

    assert_eq!(synth.next_frame(), vec![1.0; 250]);

    synth.set_num_channels(50);

    for _ in 0..500 {
        synth.next_frame();
    }

    assert_eq!(synth.next_frame(), vec![1.0; 50]);
}

#[test]
fn it_should_return_sequential_frames_of_audio_data() {
    let mut synth = Synth::new();
    let buffer: Vec<_> = (0..5000).map(|i| i as f32).collect();
    synth.set_buffer(buffer).set_grain_initialization_delay(Duration::ZERO);

    // grain 1 initialized
    synth.next_frame();
    // grain 2 initialized
    let frame_1 = synth.next_frame();
    // grain 1 and 2 now both have had 2 frames of data
    let frame_2 = synth.next_frame();

    assert_eq!(frame_1[0] + 1.0, frame_2[0]);
    assert_eq!(frame_1[1] + 1.0, frame_2[1]);
}

#[test]
fn new_grains_should_come_from_center_of_channels() {
    let mut synth = Synth::new();
    synth
        .set_buffer(vec![1.0; 1024])
        .set_grain_initialization_delay(Duration::ZERO)
        .set_num_channels(250);

    let frame = synth.next_frame();

    assert_eq!(*frame.first().unwrap(), 0.0);
    assert_eq!(*frame.last().unwrap(), 0.0);
    assert_eq!(frame[frame.len() / 2], 1.0)
}

#[test]
fn it_should_allow_medium_sized_delays() {
    let mut synth = Synth::new();
    synth.set_buffer(vec![0.0; 1024]).set_grain_initialization_delay(Duration::from_millis(123));

    // grain 1 initialized
    synth.next_frame();
}

#[test]
fn it_should_allow_setting_a_smaller_buffer_after_a_big_one() {
    let big_buffer = vec![0.0; 1024];
    let small_buffer = vec![0.0; 1];

    let mut synth = Synth::new();
    synth.set_buffer(big_buffer).set_num_channels(100);

    for _ in 0..1000 {
        synth.next_frame();
    }

    synth.set_buffer(small_buffer).set_num_channels(100);

    for _ in 0..1000 {
        synth.next_frame();
    }
}

#[test]
fn selection_bounds_are_cut_to_the_buffer_and_cached() {
    let mut core = GranularSynthesizer::new();
    core.set_buffer_len(100);
    assert_eq!(core.selection_start_in_samples(30), 30);
    // cached: a new raw value is not looked at
    assert_eq!(core.selection_start_in_samples(50), 30);
    assert_eq!(core.selection_end_in_samples(500), 100);
    core.invalidate_selection_start();
    assert_eq!(core.selection_start_in_samples(50), 50);
}

#[test]
fn frames_count_up_and_grains_follow_the_channels() {
    let mut core = GranularSynthesizer::from_seed([7u8; 32]);
    core.set_buffer_len(1000);
    core.set_num_channels(NumChannels::new(3));
    let frame = core.run_next_frame_pipeline(0, 1000, 10, 0, 3);
    assert_eq!(core.frame_count(), 1);
    assert_eq!(core.total_num_grains(), 3);
    assert_eq!(frame.len(), 3);
    // the middle of three uninitialized grains starts first
    assert!(frame[0].is_none());
    let playing = frame[1].unwrap();
    assert_eq!(playing.offset, 0);
    assert_eq!(playing.len, 10);
    assert!(playing.buffer_index <= 990);
    assert!(frame[2].is_none());
    let (grain, state) = core.grain(1).unwrap();
    assert_eq!(state, GrainState::Fresh);
    assert_eq!(grain.start_frame, playing.buffer_index);
    assert_eq!(grain.current_frame, playing.buffer_index + 1);
    assert!(core.grain(3).is_none());
}

#[test]
fn a_grain_plays_its_range_then_restarts() {
    let mut core = GranularSynthesizer::new();
    core.set_buffer_len(50);
    core.set_num_channels(NumChannels::new(1));
    // a grain of the whole buffer: it starts at 0 and plays 50 frames
    let mut indexes = Vec::new();
    for _ in 0..50 {
        let frame = core.run_next_frame_pipeline(0, 50, 50, 0, 1);
        indexes.push(frame[0].unwrap().buffer_index);
    }
    assert_eq!(indexes, (0..50).collect::<Vec<usize>>());
    // finished: silent for one frame, then in the finished pool
    let frame = core.run_next_frame_pipeline(0, 50, 50, 0, 1);
    assert_eq!(frame, vec![None]);
    assert_eq!(core.num_grains_in_state(GrainState::Finished), 1);
    // refreshed on the next frame
    let frame = core.run_next_frame_pipeline(0, 50, 50, 0, 1);
    assert_eq!(frame[0].unwrap().buffer_index, 0);
}

#[test]
fn an_empty_selection_starts_no_grain() {
    let mut core = GranularSynthesizer::new();
    core.set_buffer_len(50);
    let frame = core.run_next_frame_pipeline(20, 20, 10, 0, 2);
    assert_eq!(frame, vec![None, None]);
    assert_eq!(core.num_grains_in_state(GrainState::Uninitialized), 2);
}

#[test]
fn grains_start_at_random_places_in_the_selection() {
    let mut core = GranularSynthesizer::from_seed([3u8; 32]);
    core.set_buffer_len(10_000);
    core.set_num_channels(NumChannels::new(40));
    let mut starts = Vec::new();
    for _ in 0..40 {
        core.run_next_frame_pipeline(1000, 9000, 10, 0, 40);
    }
    for uid in 0..40 {
        let (grain, state) = core.grain(uid).unwrap();
        assert_ne!(state, GrainState::Uninitialized);
        assert!(grain.start_frame >= 1000 && grain.end_frame <= 9000);
        assert_eq!(grain.len, 10);
        starts.push(grain.start_frame);
    }
    starts.sort();
    starts.dedup();
    assert!(starts.len() > 1);
}

#[test]
fn the_seed_decides_where_grains_start() {
    let starts = |seed: [u8; 32]| {
        let mut core = GranularSynthesizer::from_seed(seed);
        core.set_buffer_len(100_000);
        core.set_num_channels(NumChannels::new(8));
        for _ in 0..8 {
            core.run_next_frame_pipeline(0, 100_000, 10, 0, 8);
        }
        (0..8).map(|uid| core.grain(uid).unwrap().0.start_frame).collect::<Vec<usize>>()
    };
    // the same seed gives the same grains; another seed gives others
    assert_eq!(starts([1u8; 32]), starts([1u8; 32]));
    assert_ne!(starts([1u8; 32]), starts([2u8; 32]));
}

#[test]
fn a_zero_grain_length_is_fine_while_no_grain_starts() {
    let mut core = GranularSynthesizer::new();
    core.set_buffer_len(100);
    // an empty selection starts nothing
    assert!(!core.frame_would_start_a_grain(40, 40, 0));
    assert_eq!(core.run_next_frame_pipeline(40, 40, 0, 0, 2), vec![None, None]);
    // a frame that is not aligned with the delay starts nothing either
    let mut core = GranularSynthesizer::new();
    core.set_buffer_len(100);
    core.run_next_frame_pipeline(0, 0, 0, 5, 2);
    core.invalidate_selection_start();
    core.invalidate_selection_end();
    assert!(!core.frame_would_start_a_grain(0, 100, 5));
    assert_eq!(core.run_next_frame_pipeline(0, 100, 0, 5, 2), vec![None, None]);
    // an aligned frame with a selection would start one
    let mut core = GranularSynthesizer::new();
    core.set_buffer_len(100);
    assert!(core.frame_would_start_a_grain(0, 100, 5));
}

#[test]
fn same_seed_and_calls_give_the_same_frames() {
    let run = |seed: [u8; 32]| {
        let mut core = GranularSynthesizer::from_seed(seed);
        core.set_buffer_len(5_000);
        core.set_num_channels(NumChannels::new(6));
        let mut frames = Vec::new();
        for k in 0..300u32 {
            if k == 100 {
                core.invalidate_selection_start();
                core.set_num_channels(NumChannels::new(3));
            }
            if k == 200 {
                core.set_buffer_len(2_000);
            }
            frames.push(core.run_next_frame_pipeline(k % 50, 1_900, 25, 3, 4));
        }
        frames
    };
    let a = run([9u8; 32]);
    let b = run([9u8; 32]);
    assert_eq!(a.len(), 300);
    assert_eq!(a, b);
    assert!(a.iter().any(|frame| frame.iter().any(|p| p.is_some())));
}
