use vstd::prelude::*;

verus! {

/// `n` is a positive power of two.
pub open spec fn is_pow2(n: nat) -> bool
    decreases n,
{
    if n == 1 {
        true
    } else if n == 0 || n % 2 == 1 {
        false
    } else {
        is_pow2(n / 2)
    }
}

/// Whether `n` is a positive power of two.
pub fn is_power_of_two(n: usize) -> (r: bool)
    ensures
        r == is_pow2(n as nat),
{
    let mut m: usize = n;
    while m > 1 && m % 2 == 0
        invariant
            is_pow2(m as nat) == is_pow2(n as nat),
        decreases m,
    {
        m = m / 2;
    }
    m == 1
}

/// Why a frame layout was refused.
#[derive(Debug, Clone, Copy, PartialEq, Eq, Structural)]
pub enum ConfigError {
    /// The frame length is not a power of two.
    FrameLengthNotPowerOfTwo,
    /// The frame is too short for its spectrum to hold a bin beside DC.
    FrameTooShort,
    /// No bars were asked for.
    NoBars,
    /// The window does not have one coefficient per frame sample.
    WindowLengthMismatch,
}

/// The shape of the analysis: samples per frame and bars per output.
#[derive(Debug, Clone, Copy, PartialEq, Eq, Structural)]
pub struct FrameLayout {
    pub frame_length: usize,
    pub bar_count: usize,
}

/// The error that a frame layout with these sizes is refused with, checked in
/// this order, or `None` where it is accepted.
pub open spec fn layout_error(frame_length: nat, bar_count: nat, window_len: nat) -> Option<ConfigError> {
    if !is_pow2(frame_length) {
        Some(ConfigError::FrameLengthNotPowerOfTwo)
    } else if frame_length < 4 {
        Some(ConfigError::FrameTooShort)
    } else if bar_count == 0 {
        Some(ConfigError::NoBars)
    } else if window_len != frame_length {
        Some(ConfigError::WindowLengthMismatch)
    } else {
        None
    }
}

impl FrameLayout {
    /// A power-of-two frame of at least four samples, and at least one bar.
    pub open spec fn wf(&self) -> bool {
        &&& is_pow2(self.frame_length as nat)
        &&& self.frame_length >= 4
        &&& self.bar_count > 0
    }

    /// Checks a frame length, a bar count and the length of the window that
    /// will taper each frame.
    pub fn new(frame_length: usize, bar_count: usize, window_len: usize) -> (r: Result<
        FrameLayout,
        ConfigError,
    >)
        ensures
            layout_error(frame_length as nat, bar_count as nat, window_len as nat) matches Some(e) ==> r
                == Err::<FrameLayout, ConfigError>(e),
            layout_error(frame_length as nat, bar_count as nat, window_len as nat) is None ==> r
                == Ok::<FrameLayout, ConfigError>(FrameLayout { frame_length, bar_count }),
            r matches Ok(l) ==> l.wf(),
    {
        if !is_power_of_two(frame_length) {
            Err(ConfigError::FrameLengthNotPowerOfTwo)
        } else if frame_length < 4 {
            Err(ConfigError::FrameTooShort)
        } else if bar_count == 0 {
            Err(ConfigError::NoBars)
        } else if window_len != frame_length {
            Err(ConfigError::WindowLengthMismatch)
        } else {
            Ok(FrameLayout { frame_length, bar_count })
        }
    }

    /// The number of spectrum bins below Nyquist: half the frame length.
    pub fn spectrum_len(&self) -> (r: usize)
        requires
            self.wf(),
        ensures
            r == self.frame_length / 2,
            r >= 2,
    {
        self.frame_length / 2
    }
}

} // verus!
