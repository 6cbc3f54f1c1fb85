use resonix::units::{Max, Min, NumChannels, SampleRate};

#[test]
fn num_channels_get_set_and_into_inner() {
    let mut n = NumChannels::new(2);
    assert_eq!(n.get(), 2);
    n.set(5);
    assert_eq!(n.get(), 5);
    assert_eq!(n.into_inner(), 5);
    assert_eq!(NumChannels::default().get(), 0);
}

#[test]
fn num_channels_arithmetic() {
    let a = NumChannels::new(2);
    let b = NumChannels::new(3);
    assert_eq!((a + b).get(), 5);
    assert_eq!((b - a).get(), 1);
    assert_eq!((a * b).get(), 6);
    assert_eq!(a + 4usize, 6);
    assert_eq!(b - 1usize, 2);
    assert_eq!(a * 10usize, 20);
    assert_eq!(4usize + a, 6);
    assert_eq!(7usize - b, 4);
    assert_eq!(10usize * b, 30);
}

#[test]
fn num_channels_min_and_max() {
    let a = NumChannels::new(2);
    let b = NumChannels::new(3);
    assert_eq!(Min::min(a, b), a);
    assert_eq!(Min::min(b, a), a);
    assert_eq!(Max::max(a, b), b);
    assert_eq!(Max::max(b, b), b);
}

#[test]
fn num_channels_conversions() {
    assert_eq!(NumChannels::from(3usize).get(), 3);
    assert_eq!(NumChannels::from(4u16).get(), 4);
    assert_eq!(NumChannels::from(5u32).get(), 5);
    assert_eq!(NumChannels::from(6i32).get(), 6);
    assert_eq!(usize::from(NumChannels::new(7)), 7);
}

#[test]
fn sample_rate_get_set_and_into_inner() {
    let mut r = SampleRate::new(44100);
    assert_eq!(r.get(), 44100);
    r.set(48000);
    assert_eq!(r.get(), 48000);
    assert_eq!(r.into_inner(), 48000);
    assert_eq!(SampleRate::new_const(22050).get(), 22050);
    assert_eq!(SampleRate::default().get(), 0);
}

#[test]
fn sample_rate_arithmetic_and_ordering() {
    let a = SampleRate::new(44100);
    let b = SampleRate::new(48000);
    assert_eq!((a + b).get(), 92100);
    assert_eq!((b - a).get(), 3900);
    assert_eq!((SampleRate::new(2) * SampleRate::new(3)).get(), 6);
    assert_eq!(a + 1u32, 44101);
    assert_eq!(a - 100u32, 44000);
    assert_eq!(a * 2u32, 88200);
    assert_eq!(1u32 + a, 44101);
    assert_eq!(50000u32 - b, 2000);
    assert_eq!(2u32 * a, 88200);
    assert_eq!(Min::min(a, b), a);
    assert_eq!(Max::max(a, b), b);
    assert_eq!(u32::from(b), 48000);
    assert_eq!(SampleRate::from(8000u32).get(), 8000);
}

#[test]
fn units_deref_to_their_number() {
    assert_eq!(*NumChannels::new(3), 3usize);
    assert_eq!(*SampleRate::new(48000), 48000u32);
}
