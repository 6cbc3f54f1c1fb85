use vstd::prelude::*;

verus! {

/// What the views of the units say: `of` gives its argument back, and
/// equal views mean equal values.
pub broadcast group group_unit_views {
    NumChannels::lemma_of,
    NumChannels::lemma_view_injective,
    SampleRate::lemma_of,
    SampleRate::lemma_view_injective,
}

/// Smaller of two values of the same unit.
pub trait Min: Sized {
    type Rhs;

    type Output;

    /// `r` is the smaller of `self` and `rhs`.
    spec fn is_min(self, rhs: Self::Rhs, r: Self::Output) -> bool;

    fn min(self, rhs: Self::Rhs) -> (r: Self::Output)
        ensures
            Self::is_min(self, rhs, r),
    ;
}

/// Larger of two values of the same unit.
pub trait Max: Sized {
    type Rhs;

    type Output;

    /// `r` is the larger of `self` and `rhs`.
    spec fn is_max(self, rhs: Self::Rhs, r: Self::Output) -> bool;

    fn max(self, rhs: Self::Rhs) -> (r: Self::Output)
        ensures
            Self::is_max(self, rhs, r),
    ;
}

/// A number of audio channels.
#[derive(Clone, Copy, Debug, PartialEq, Eq, PartialOrd, Ord, Hash, Structural)]
pub struct NumChannels(usize);

impl View for NumChannels {
    type V = nat;

    closed spec fn view(&self) -> nat {
        self.0 as nat
    }
}

impl NumChannels {
    /// The value `n`, where it fits.
    pub closed spec fn of(n: int) -> NumChannels {
        NumChannels(n as usize)
    }

    /// A value made by `of` has `n` as its view.
    pub broadcast proof fn lemma_of(n: int)
        requires
            0 <= n <= usize::MAX,
        ensures
            #[trigger] NumChannels::of(n)@ == n,
    {
    }

    /// Values with the same view are equal.
    pub broadcast proof fn lemma_view_injective(a: NumChannels, b: NumChannels)
        requires
            #[trigger] a@ == #[trigger] b@,
        ensures
            a == b,
    {
    }

    pub fn new(num_channels: usize) -> (r: Self)
        ensures
            r@ == num_channels,
    {
        NumChannels(num_channels)
    }

    pub fn get(&self) -> (r: usize)
        ensures
            r == self@,
    {
        self.0
    }

    pub fn set(&mut self, value: usize) -> (r: &mut Self)
        ensures
            (*r)@ == value,
            *final(self) == *final(r),
    {
        self.0 = value;
        self
    }

    pub fn into_inner(self) -> (r: usize)
        ensures
            r == self@,
    {
        self.0
    }
}

impl std::ops::Deref for NumChannels {
    type Target = usize;

    fn deref(&self) -> (r: &usize)
        ensures
            *r == self@,
    {
        &self.0
    }
}

impl Default for NumChannels {
    fn default() -> (r: Self)
        ensures
            r@ == 0,
    {
        NumChannels(0)
    }
}

impl Min for NumChannels {
    type Rhs = NumChannels;

    type Output = NumChannels;

    /// The smaller one; `rhs` where they are equal.
    open spec fn is_min(self, rhs: NumChannels, r: NumChannels) -> bool {
        r == (if self@ < rhs@ { self } else { rhs })
    }

    fn min(self, rhs: Self::Rhs) -> (r: Self::Output)
    {
        if self.get() < rhs.get() {
            self
        } else {
            rhs
        }
    }
}

impl Max for NumChannels {
    type Rhs = NumChannels;

    type Output = NumChannels;

    /// The larger one; `rhs` where they are equal.
    open spec fn is_max(self, rhs: NumChannels, r: NumChannels) -> bool {
        r == (if self@ > rhs@ { self } else { rhs })
    }

    fn max(self, rhs: Self::Rhs) -> (r: Self::Output)
    {
        if self.get() > rhs.get() {
            self
        } else {
            rhs
        }
    }
}

impl std::ops::Add for NumChannels {
    type Output = Self;

    fn add(self, rhs: Self) -> (r: Self::Output) {
        NumChannels::new(self.0 + rhs.0)
    }
}

impl vstd::std_specs::ops::AddSpecImpl for NumChannels {
    open spec fn obeys_add_spec() -> bool {
        true
    }

    open spec fn add_req(self, rhs: NumChannels) -> bool {
        self@ + rhs@ <= usize::MAX
    }

    open spec fn add_spec(self, rhs: NumChannels) -> NumChannels {
        NumChannels::of(self@ + rhs@ as int)
    }
}

impl std::ops::Add<usize> for NumChannels {
    type Output = usize;

    fn add(self, rhs: usize) -> (r: Self::Output) {
        self.0 + rhs
    }
}

impl vstd::std_specs::ops::AddSpecImpl<usize> for NumChannels {
    open spec fn obeys_add_spec() -> bool {
        true
    }

    open spec fn add_req(self, rhs: usize) -> bool {
        self@ + rhs <= usize::MAX
    }

    open spec fn add_spec(self, rhs: usize) -> usize {
        (self@ + rhs) as usize
    }
}

impl std::ops::Add<NumChannels> for usize {
    type Output = usize;

    fn add(self, rhs: NumChannels) -> (r: Self::Output) {
        self + rhs.0
    }
}

impl vstd::std_specs::ops::AddSpecImpl<NumChannels> for usize {
    open spec fn obeys_add_spec() -> bool {
        true
    }

    open spec fn add_req(self, rhs: NumChannels) -> bool {
        self + rhs@ <= usize::MAX
    }

    open spec fn add_spec(self, rhs: NumChannels) -> usize {
        (self + rhs@) as usize
    }
}

impl std::ops::Sub for NumChannels {
    type Output = Self;

    fn sub(self, rhs: Self) -> (r: Self::Output) {
        NumChannels::new(self.0 - rhs.0)
    }
}

impl vstd::std_specs::ops::SubSpecImpl for NumChannels {
    open spec fn obeys_sub_spec() -> bool {
        true
    }

    open spec fn sub_req(self, rhs: NumChannels) -> bool {
        self@ >= rhs@
    }

    open spec fn sub_spec(self, rhs: NumChannels) -> NumChannels {
        NumChannels::of(self@ - rhs@)
    }
}

impl std::ops::Sub<usize> for NumChannels {
    type Output = usize;

    fn sub(self, rhs: usize) -> (r: Self::Output) {
        self.0 - rhs
    }
}

impl vstd::std_specs::ops::SubSpecImpl<usize> for NumChannels {
    open spec fn obeys_sub_spec() -> bool {
        true
    }

    open spec fn sub_req(self, rhs: usize) -> bool {
        self@ >= rhs
    }

    open spec fn sub_spec(self, rhs: usize) -> usize {
        (self@ - rhs) as usize
    }
}

impl std::ops::Sub<NumChannels> for usize {
    type Output = usize;

    fn sub(self, rhs: NumChannels) -> (r: Self::Output) {
        self - rhs.0
    }
}

impl vstd::std_specs::ops::SubSpecImpl<NumChannels> for usize {
    open spec fn obeys_sub_spec() -> bool {
        true
    }

    open spec fn sub_req(self, rhs: NumChannels) -> bool {
        self >= rhs@
    }

    open spec fn sub_spec(self, rhs: NumChannels) -> usize {
        (self - rhs@) as usize
    }
}

impl std::ops::Mul for NumChannels {
    type Output = Self;

    fn mul(self, rhs: Self) -> (r: Self::Output) {
        NumChannels::new(self.0 * rhs.0)
    }
}

impl vstd::std_specs::ops::MulSpecImpl for NumChannels {
    open spec fn obeys_mul_spec() -> bool {
        true
    }

    open spec fn mul_req(self, rhs: NumChannels) -> bool {
        self@ * rhs@ <= usize::MAX
    }

    open spec fn mul_spec(self, rhs: NumChannels) -> NumChannels {
        NumChannels::of(self@ * rhs@ as int)
    }
}

impl std::ops::Mul<usize> for NumChannels {
    type Output = usize;

    fn mul(self, rhs: usize) -> (r: Self::Output) {
        self.0 * rhs
    }
}

impl vstd::std_specs::ops::MulSpecImpl<usize> for NumChannels {
    open spec fn obeys_mul_spec() -> bool {
        true
    }

    open spec fn mul_req(self, rhs: usize) -> bool {
        self@ * rhs <= usize::MAX
    }

    open spec fn mul_spec(self, rhs: usize) -> usize {
        (self@ * rhs) as usize
    }
}

impl std::ops::Mul<NumChannels> for usize {
    type Output = usize;

    fn mul(self, rhs: NumChannels) -> (r: Self::Output) {
        self * rhs.0
    }
}

impl vstd::std_specs::ops::MulSpecImpl<NumChannels> for usize {
    open spec fn obeys_mul_spec() -> bool {
        true
    }

    open spec fn mul_req(self, rhs: NumChannels) -> bool {
        self * rhs@ <= usize::MAX
    }

    open spec fn mul_spec(self, rhs: NumChannels) -> usize {
        (self * rhs@) as usize
    }
}

impl From<usize> for NumChannels {
    fn from(value: usize) -> (r: Self) {
        NumChannels::new(value)
    }
}

impl vstd::std_specs::convert::FromSpecImpl<usize> for NumChannels {
    open spec fn obeys_from_spec() -> bool {
        true
    }

    open spec fn from_spec(v: usize) -> NumChannels {
        NumChannels::of((v) as int)
    }
}

impl From<u16> for NumChannels {
    fn from(value: u16) -> (r: Self) {
        NumChannels::new(value as usize)
    }
}

impl vstd::std_specs::convert::FromSpecImpl<u16> for NumChannels {
    open spec fn obeys_from_spec() -> bool {
        true
    }

    open spec fn from_spec(v: u16) -> NumChannels {
        NumChannels::of((v as usize) as int)
    }
}

impl From<u32> for NumChannels {
    fn from(value: u32) -> (r: Self) {
        NumChannels::new(value as usize)
    }
}

impl vstd::std_specs::convert::FromSpecImpl<u32> for NumChannels {
    open spec fn obeys_from_spec() -> bool {
        true
    }

    open spec fn from_spec(v: u32) -> NumChannels {
        NumChannels::of((v as usize) as int)
    }
}

impl From<i32> for NumChannels {
    fn from(value: i32) -> (r: Self) {
        NumChannels::new(value as usize)
    }
}

impl vstd::std_specs::convert::FromSpecImpl<i32> for NumChannels {
    open spec fn obeys_from_spec() -> bool {
        true
    }

    open spec fn from_spec(v: i32) -> NumChannels {
        NumChannels::of((v as usize) as int)
    }
}

impl From<NumChannels> for usize {
    fn from(value: NumChannels) -> (r: Self) {
        value.into_inner()
    }
}

impl vstd::std_specs::convert::FromSpecImpl<NumChannels> for usize {
    open spec fn obeys_from_spec() -> bool {
        true
    }

    open spec fn from_spec(v: NumChannels) -> usize {
        v@ as usize
    }
}

/// A sample rate, in samples per second.
#[derive(Clone, Copy, Debug, PartialEq, Eq, PartialOrd, Ord, Hash, Structural)]
pub struct SampleRate(u32);

impl View for SampleRate {
    type V = nat;

    closed spec fn view(&self) -> nat {
        self.0 as nat
    }
}

impl SampleRate {
    /// The value `n`, where it fits.
    pub closed spec fn of(n: int) -> SampleRate {
        SampleRate(n as u32)
    }

    /// A value made by `of` has `n` as its view.
    pub broadcast proof fn lemma_of(n: int)
        requires
            0 <= n <= u32::MAX,
        ensures
            #[trigger] SampleRate::of(n)@ == n,
    {
    }

    /// Values with the same view are equal.
    pub broadcast proof fn lemma_view_injective(a: SampleRate, b: SampleRate)
        requires
            #[trigger] a@ == #[trigger] b@,
        ensures
            a == b,
    {
    }

    pub fn new(sample_rate: u32) -> (r: Self)
        ensures
            r@ == sample_rate,
    {
        SampleRate(sample_rate)
    }

    pub fn new_const(sample_rate: u32) -> (r: Self)
        ensures
            r@ == sample_rate,
    {
        SampleRate(sample_rate)
    }

    pub fn get(&self) -> (r: u32)
        ensures
            r == self@,
    {
        self.0
    }

    pub fn set(&mut self, value: u32) -> (r: &mut Self)
        ensures
            (*r)@ == value,
            *final(self) == *final(r),
    {
        self.0 = value;
        self
    }

    pub fn into_inner(self) -> (r: u32)
        ensures
            r == self@,
    {
        self.0
    }
}

impl std::ops::Deref for SampleRate {
    type Target = u32;

    fn deref(&self) -> (r: &u32)
        ensures
            *r == self@,
    {
        &self.0
    }
}

impl Default for SampleRate {
    fn default() -> (r: Self)
        ensures
            r@ == 0,
    {
        SampleRate(0)
    }
}

impl Min for SampleRate {
    type Rhs = SampleRate;

    type Output = SampleRate;

    /// The smaller one; `rhs` where they are equal.
    open spec fn is_min(self, rhs: SampleRate, r: SampleRate) -> bool {
        r == (if self@ < rhs@ { self } else { rhs })
    }

    fn min(self, rhs: Self::Rhs) -> (r: Self::Output)
    {
        if self.get() < rhs.get() {
            self
        } else {
            rhs
        }
    }
}

impl Max for SampleRate {
    type Rhs = SampleRate;

    type Output = SampleRate;

    /// The larger one; `rhs` where they are equal.
    open spec fn is_max(self, rhs: SampleRate, r: SampleRate) -> bool {
        r == (if self@ > rhs@ { self } else { rhs })
    }

    fn max(self, rhs: Self::Rhs) -> (r: Self::Output)
    {
        if self.get() > rhs.get() {
            self
        } else {
            rhs
        }
    }
}

impl std::ops::Add for SampleRate {
    type Output = Self;

    fn add(self, rhs: Self) -> (r: Self::Output) {
        SampleRate::new(self.0 + rhs.0)
    }
}

impl vstd::std_specs::ops::AddSpecImpl for SampleRate {
    open spec fn obeys_add_spec() -> bool {
        true
    }

    open spec fn add_req(self, rhs: SampleRate) -> bool {
        self@ + rhs@ <= u32::MAX
    }

    open spec fn add_spec(self, rhs: SampleRate) -> SampleRate {
        SampleRate::of(self@ + rhs@ as int)
    }
}

impl std::ops::Add<u32> for SampleRate {
    type Output = u32;

    fn add(self, rhs: u32) -> (r: Self::Output) {
        self.0 + rhs
    }
}

impl vstd::std_specs::ops::AddSpecImpl<u32> for SampleRate {
    open spec fn obeys_add_spec() -> bool {
        true
    }

    open spec fn add_req(self, rhs: u32) -> bool {
        self@ + rhs <= u32::MAX
    }

    open spec fn add_spec(self, rhs: u32) -> u32 {
        (self@ + rhs) as u32
    }
}

impl std::ops::Add<SampleRate> for u32 {
    type Output = u32;

    fn add(self, rhs: SampleRate) -> (r: Self::Output) {
        self + rhs.0
    }
}

impl vstd::std_specs::ops::AddSpecImpl<SampleRate> for u32 {
    open spec fn obeys_add_spec() -> bool {
        true
    }

    open spec fn add_req(self, rhs: SampleRate) -> bool {
        self + rhs@ <= u32::MAX
    }

    open spec fn add_spec(self, rhs: SampleRate) -> u32 {
        (self + rhs@) as u32
    }
}

impl std::ops::Sub for SampleRate {
    type Output = Self;

    fn sub(self, rhs: Self) -> (r: Self::Output) {
        SampleRate::new(self.0 - rhs.0)
    }
}

impl vstd::std_specs::ops::SubSpecImpl for SampleRate {
    open spec fn obeys_sub_spec() -> bool {
        true
    }

    open spec fn sub_req(self, rhs: SampleRate) -> bool {
        self@ >= rhs@
    }

    open spec fn sub_spec(self, rhs: SampleRate) -> SampleRate {
        SampleRate::of(self@ - rhs@)
    }
}

impl std::ops::Sub<u32> for SampleRate {
    type Output = u32;

    fn sub(self, rhs: u32) -> (r: Self::Output) {
        self.0 - rhs
    }
}

impl vstd::std_specs::ops::SubSpecImpl<u32> for SampleRate {
    open spec fn obeys_sub_spec() -> bool {
        true
    }

    open spec fn sub_req(self, rhs: u32) -> bool {
        self@ >= rhs
    }

    open spec fn sub_spec(self, rhs: u32) -> u32 {
        (self@ - rhs) as u32
    }
}

impl std::ops::Sub<SampleRate> for u32 {
    type Output = u32;

    fn sub(self, rhs: SampleRate) -> (r: Self::Output) {
        self - rhs.0
    }
}

impl vstd::std_specs::ops::SubSpecImpl<SampleRate> for u32 {
    open spec fn obeys_sub_spec() -> bool {
        true
    }

    open spec fn sub_req(self, rhs: SampleRate) -> bool {
        self >= rhs@
    }

    open spec fn sub_spec(self, rhs: SampleRate) -> u32 {
        (self - rhs@) as u32
    }
}

impl std::ops::Mul for SampleRate {
    type Output = Self;

    fn mul(self, rhs: Self) -> (r: Self::Output) {
        SampleRate::new(self.0 * rhs.0)
    }
}

impl vstd::std_specs::ops::MulSpecImpl for SampleRate {
    open spec fn obeys_mul_spec() -> bool {
        true
    }

    open spec fn mul_req(self, rhs: SampleRate) -> bool {
        self@ * rhs@ <= u32::MAX
    }

    open spec fn mul_spec(self, rhs: SampleRate) -> SampleRate {
        SampleRate::of(self@ * rhs@ as int)
    }
}

impl std::ops::Mul<u32> for SampleRate {
    type Output = u32;

    fn mul(self, rhs: u32) -> (r: Self::Output) {
        self.0 * rhs
    }
}

impl vstd::std_specs::ops::MulSpecImpl<u32> for SampleRate {
    open spec fn obeys_mul_spec() -> bool {
        true
    }

    open spec fn mul_req(self, rhs: u32) -> bool {
        self@ * rhs <= u32::MAX
    }

    open spec fn mul_spec(self, rhs: u32) -> u32 {
        (self@ * rhs) as u32
    }
}

impl std::ops::Mul<SampleRate> for u32 {
    type Output = u32;

    fn mul(self, rhs: SampleRate) -> (r: Self::Output) {
        self * rhs.0
    }
}

impl vstd::std_specs::ops::MulSpecImpl<SampleRate> for u32 {
    open spec fn obeys_mul_spec() -> bool {
        true
    }

    open spec fn mul_req(self, rhs: SampleRate) -> bool {
        self * rhs@ <= u32::MAX
    }

    open spec fn mul_spec(self, rhs: SampleRate) -> u32 {
        (self * rhs@) as u32
    }
}

impl From<u32> for SampleRate {
    fn from(value: u32) -> (r: Self) {
        SampleRate::new(value)
    }
}

impl vstd::std_specs::convert::FromSpecImpl<u32> for SampleRate {
    open spec fn obeys_from_spec() -> bool {
        true
    }

    open spec fn from_spec(v: u32) -> SampleRate {
        SampleRate::of((v) as int)
    }
}

impl From<SampleRate> for u32 {
    fn from(value: SampleRate) -> (r: Self) {
        value.into_inner()
    }
}

impl vstd::std_specs::convert::FromSpecImpl<SampleRate> for u32 {
    open spec fn obeys_from_spec() -> bool {
        true
    }

    open spec fn from_spec(v: SampleRate) -> u32 {
        v@ as u32
    }
}

/// The smaller of two channel counts is no larger than either and is one of
/// them; the larger is no smaller than either and is one of them.
pub proof fn law_num_channels_min_max(a: NumChannels, b: NumChannels, r: NumChannels)
    ensures
        a.is_min(b, r) <==> (r@ <= a@ && r@ <= b@ && (r == a || r == b)),
        a.is_max(b, r) <==> (r@ >= a@ && r@ >= b@ && (r == a || r == b)),
{
}

/// The smaller of two sample rates is no larger than either and is one of
/// them; the larger is no smaller than either and is one of them.
pub proof fn law_sample_rate_min_max(a: SampleRate, b: SampleRate, r: SampleRate)
    ensures
        a.is_min(b, r) <==> (r@ <= a@ && r@ <= b@ && (r == a || r == b)),
        a.is_max(b, r) <==> (r@ >= a@ && r@ >= b@ && (r == a || r == b)),
{
}

/// Channel counts add, subtract and multiply as their numbers do, with each
/// other and with plain counts, wherever the result fits.
pub proof fn law_num_channels_arithmetic(a: NumChannels, b: NumChannels, n: usize)
    ensures
        a@ + b@ <= usize::MAX ==> vstd::std_specs::ops::AddSpec::add_spec(a, b)@ == a@ + b@,
        a@ + n <= usize::MAX ==> vstd::std_specs::ops::AddSpec::add_spec(a, n) == a@ + n,
        n + a@ <= usize::MAX ==> vstd::std_specs::ops::AddSpec::add_spec(n, a) == n + a@,
        a@ >= b@ ==> vstd::std_specs::ops::SubSpec::sub_spec(a, b)@ == a@ - b@,
        a@ >= n ==> vstd::std_specs::ops::SubSpec::sub_spec(a, n) == a@ - n,
        n >= a@ ==> vstd::std_specs::ops::SubSpec::sub_spec(n, a) == n - a@,
        a@ * b@ <= usize::MAX ==> vstd::std_specs::ops::MulSpec::mul_spec(a, b)@ == a@ * b@,
        a@ * n <= usize::MAX ==> vstd::std_specs::ops::MulSpec::mul_spec(a, n) == a@ * n,
        n * a@ <= usize::MAX ==> vstd::std_specs::ops::MulSpec::mul_spec(n, a) == n * a@,
{
}

/// Sample rates add, subtract and multiply as their numbers do, with each
/// other and with plain numbers, wherever the result fits.
pub proof fn law_sample_rate_arithmetic(a: SampleRate, b: SampleRate, n: u32)
    ensures
        a@ + b@ <= u32::MAX ==> vstd::std_specs::ops::AddSpec::add_spec(a, b)@ == a@ + b@,
        a@ + n <= u32::MAX ==> vstd::std_specs::ops::AddSpec::add_spec(a, n) == a@ + n,
        n + a@ <= u32::MAX ==> vstd::std_specs::ops::AddSpec::add_spec(n, a) == n + a@,
        a@ >= b@ ==> vstd::std_specs::ops::SubSpec::sub_spec(a, b)@ == a@ - b@,
        a@ >= n ==> vstd::std_specs::ops::SubSpec::sub_spec(a, n) == a@ - n,
        n >= a@ ==> vstd::std_specs::ops::SubSpec::sub_spec(n, a) == n - a@,
        a@ * b@ <= u32::MAX ==> vstd::std_specs::ops::MulSpec::mul_spec(a, b)@ == a@ * b@,
        a@ * n <= u32::MAX ==> vstd::std_specs::ops::MulSpec::mul_spec(a, n) == a@ * n,
        n * a@ <= u32::MAX ==> vstd::std_specs::ops::MulSpec::mul_spec(n, a) == n * a@,
{
}

/// Converting a number to a channel count and back keeps the number.
pub proof fn law_num_channels_conversions(a: NumChannels, n: usize, m: u16, k: u32, i: i32)
    ensures
        ({
            let c: NumChannels = vstd::std_specs::convert::FromSpec::from_spec(n);
            c@ == n
        }),
        ({
            let c: NumChannels = vstd::std_specs::convert::FromSpec::from_spec(m);
            c@ == m
        }),
        ({
            let c: NumChannels = vstd::std_specs::convert::FromSpec::from_spec(k);
            c@ == k
        }),
        i >= 0 ==> ({
            let c: NumChannels = vstd::std_specs::convert::FromSpec::from_spec(i);
            c@ == i
        }),
        ({
            let v: usize = vstd::std_specs::convert::FromSpec::from_spec(a);
            v == a@
        }),
{
}

/// Converting a number to a sample rate and back keeps the number.
pub proof fn law_sample_rate_conversions(a: SampleRate, n: u32)
    ensures
        ({
            let r: SampleRate = vstd::std_specs::convert::FromSpec::from_spec(n);
            r@ == n
        }),
        ({
            let v: u32 = vstd::std_specs::convert::FromSpec::from_spec(a);
            v == a@
        }),
{
}

} // verus!
