//! Quality and resolution of a render, their presets, and how the values
//! given on the command line select them.

use vstd::prelude::*;
use vstd::string::StringExecFns;
use crate::mods::decimal::{parse_u32, parse_unsigned, parse_usize};
use crate::mods::text::chars_of;

verus! {

/// How much work a render does: the number of iterations that are averaged,
/// and the largest number of bounces of a ray.
pub struct RenderQuality {
    ri: usize,
    mb: u32,
}

impl RenderQuality {
    /// The number of render iterations.
    pub closed spec fn spec_ri(&self) -> usize {
        self.ri
    }

    /// The largest number of bounces.
    pub closed spec fn spec_mb(&self) -> u32 {
        self.mb
    }

    /// A quality of `ri` iterations and `mb` bounces.
    pub fn new(mb: u32, ri: usize) -> (r: Self)
        ensures
            r.ri() == ri,
            r.mb() == mb,
    {
        Self { ri, mb }
    }

    /// The largest number of bounces.
    #[verifier::when_used_as_spec(spec_mb)]
    pub fn mb(&self) -> (r: u32)
        ensures
            r == self.spec_mb(),
    {
        self.mb
    }

    /// The number of render iterations.
    #[verifier::when_used_as_spec(spec_ri)]
    pub fn ri(&self) -> (r: usize)
        ensures
            r == self.spec_ri(),
    {
        self.ri
    }

    /// The quality of a preset.
    pub fn preset(level: Preset) -> (r: Self)
        ensures
            (r.ri(), r.mb()) == quality_preset(level),
    {
        match level {
            Preset::UltraHigh => Self { ri: 300, mb: 40 },
            Preset::High => Self { ri: 150, mb: 30 },
            Preset::Medium => Self { ri: 50, mb: 13 },
            Preset::Low => Self { ri: 20, mb: 8 },
            Preset::UltraLow => Self { ri: 5, mb: 5 },
        }
    }
}

/// The size of the image that a render produces.
pub struct RenderResolution {
    r: (u32, u32),
}

impl RenderResolution {
    /// Width and height, in pixels.
    pub closed spec fn spec_rs(&self) -> (u32, u32) {
        self.r
    }

    /// A resolution of `w` by `h` pixels.
    pub fn new(w: u32, h: u32) -> (r: Self)
        ensures
            r.rs() == (w, h),
    {
        Self { r: (w, h) }
    }

    /// Width and height, in pixels.
    #[verifier::when_used_as_spec(spec_rs)]
    pub fn rs(&self) -> (r: (u32, u32))
        ensures
            r == self.spec_rs(),
    {
        self.r
    }

    /// The width, in pixels.
    pub fn w(&self) -> (r: u32)
        ensures
            r == self.rs().0,
    {
        self.r.0
    }

    /// The height, in pixels.
    pub fn h(&self) -> (r: u32)
        ensures
            r == self.rs().1,
    {
        self.r.1
    }

    /// The resolution of a preset.
    pub fn preset(level: Preset) -> (r: Self)
        ensures
            r.rs() == resolution_preset(level),
    {
        match level {
            Preset::UltraHigh => Self { r: (3840, 2160) },
            Preset::High => Self { r: (1920, 1080) },
            Preset::Medium => Self { r: (1280, 720) },
            Preset::Low => Self { r: (720, 480) },
            Preset::UltraLow => Self { r: (360, 240) },
        }
    }
}

/// The five named levels of quality and of resolution.
#[derive(Clone, Copy, Debug, PartialEq, Eq, Structural)]
pub enum Preset {
    UltraHigh,
    High,
    Medium,
    Low,
    UltraLow,
}

/// Iterations and bounces of each preset.
pub open spec fn quality_preset(level: Preset) -> (usize, u32) {
    match level {
        Preset::UltraHigh => (300, 40),
        Preset::High => (150, 30),
        Preset::Medium => (50, 13),
        Preset::Low => (20, 8),
        Preset::UltraLow => (5, 5),
    }
}

/// Width and height of each preset.
pub open spec fn resolution_preset(level: Preset) -> (u32, u32) {
    match level {
        Preset::UltraHigh => (3840, 2160),
        Preset::High => (1920, 1080),
        Preset::Medium => (1280, 720),
        Preset::Low => (720, 480),
        Preset::UltraLow => (360, 240),
    }
}

/// `c` is an ASCII letter.
pub open spec fn is_ascii_letter(c: char) -> bool {
    ('a' <= c && c <= 'z') || ('A' <= c && c <= 'Z')
}

/// The preset that a letter names: `H`, `h`, `m`, `l` and `L` from the
/// highest to the lowest; any other letter stands for the medium one.
pub open spec fn preset_of_letter(c: char) -> Preset {
    if c == 'H' {
        Preset::UltraHigh
    } else if c == 'h' {
        Preset::High
    } else if c == 'l' {
        Preset::Low
    } else if c == 'L' {
        Preset::UltraLow
    } else {
        Preset::Medium
    }
}

/// `values` is a single value made of one ASCII letter.
pub open spec fn is_letter_choice(values: Seq<Seq<char>>) -> bool {
    values.len() == 1 && values[0].len() == 1 && is_ascii_letter(values[0][0])
}

/// The bounce limit that goes with a bare iteration count: the count itself,
/// but twenty at most.
pub open spec fn default_bounces(ri: nat) -> u32 {
    if ri < 20 {
        ri as u32
    } else {
        20
    }
}

/// The iterations and bounces that the values of the quality option select;
/// `None` where they select nothing and the option is refused.
///
/// Without the option the medium preset holds. One letter names a preset.
/// One number is the iteration count. Two numbers are the iteration count
/// and the bounce limit; two values that are not both numbers leave the
/// medium preset in place.
pub open spec fn quality_choice(values: Option<Seq<Seq<char>>>) -> Option<(usize, u32)> {
    match values {
        None => Some(quality_preset(Preset::Medium)),
        Some(v) => if is_letter_choice(v) {
            Some(quality_preset(preset_of_letter(v[0][0])))
        } else if v.len() == 1 {
            match parse_unsigned(v[0], usize::MAX as nat) {
                Some(ri) => Some((ri as usize, default_bounces(ri))),
                None => None,
            }
        } else if v.len() == 2 {
            match (parse_unsigned(v[0], usize::MAX as nat), parse_unsigned(v[1], u32::MAX as nat)) {
                (Some(ri), Some(mb)) => Some((ri as usize, mb as u32)),
                _ => Some(quality_preset(Preset::Medium)),
            }
        } else {
            None
        },
    }
}

/// The width and height that the values of the resolution option select;
/// `None` where they select nothing and the option is refused.
///
/// Without the option the medium preset holds. One letter names a preset.
/// Two numbers are the width and the height. Anything else is refused.
pub open spec fn resolution_choice(values: Option<Seq<Seq<char>>>) -> Option<(u32, u32)> {
    match values {
        None => Some(resolution_preset(Preset::Medium)),
        Some(v) => if is_letter_choice(v) {
            Some(resolution_preset(preset_of_letter(v[0][0])))
        } else if v.len() == 2 {
            match (parse_unsigned(v[0], u32::MAX as nat), parse_unsigned(v[1], u32::MAX as nat)) {
                (Some(w), Some(h)) => Some((w as u32, h as u32)),
                _ => None,
            }
        } else {
            None
        },
    }
}

/// The values of `values` as sequences of characters.
pub open spec fn texts_of(values: Seq<String>) -> Seq<Seq<char>> {
    Seq::new(values.len(), |i: int| values[i]@)
}

/// The values of an option as sequences of characters, where it was given.
pub open spec fn values_text(values: Option<&Vec<String>>) -> Option<Seq<Seq<char>>> {
    match values {
        None => None,
        Some(v) => Some(texts_of(v@)),
    }
}

/// An option of the command line whose values select nothing.
#[derive(Clone, Copy, Debug, PartialEq, Eq, Structural)]
pub enum ConfigError {
    /// The values of the quality option.
    WrongQuality,
    /// The values of the resolution option.
    WrongResolution,
}

impl ConfigError {
    /// The message shown to the user.
    pub fn message(&self) -> (r: String)
        ensures
            r@ == match *self {
                ConfigError::WrongQuality => "wrong quality argument"@,
                ConfigError::WrongResolution => "wrong resolution argument"@,
            },
    {
        match self {
            ConfigError::WrongQuality => String::from_str("wrong quality argument"),
            ConfigError::WrongResolution => String::from_str("wrong resolution argument"),
        }
    }
}

/// The preset that the letter `c` names.
pub fn letter_preset(c: char) -> (r: Preset)
    ensures
        r == preset_of_letter(c),
{
    if c == 'H' {
        Preset::UltraHigh
    } else if c == 'h' {
        Preset::High
    } else if c == 'l' {
        Preset::Low
    } else if c == 'L' {
        Preset::UltraLow
    } else {
        Preset::Medium
    }
}

/// The letter of `values`, where they are a single value of one ASCII letter.
pub fn letter_choice(values: &Vec<String>) -> (r: Option<char>)
    ensures
        r is Some == is_letter_choice(texts_of(values@)),
        r is Some ==> r == Some(values@[0]@[0]),
{
    if values.len() != 1 {
        return None;
    }
    let chars = chars_of(values[0].as_str());
    if chars.len() != 1 {
        return None;
    }
    let c = chars[0];
    if (c >= 'a' && c <= 'z') || (c >= 'A' && c <= 'Z') {
        Some(c)
    } else {
        None
    }
}

/// Iterations and bounces selected by the values of the quality option, or
/// an error where they are refused.
pub fn parse_quality(values: Option<&Vec<String>>) -> (r: Result<(usize, u32), ConfigError>)
    ensures
        match quality_choice(values_text(values)) {
            Some(q) => r == Ok::<(usize, u32), ConfigError>(q),
            None => r == Err::<(usize, u32), ConfigError>(ConfigError::WrongQuality),
        },
{
    let quality = match values {
        None => RenderQuality::preset(Preset::Medium),
        Some(v) => {
            if let Some(c) = letter_choice(v) {
                RenderQuality::preset(letter_preset(c))
            } else if v.len() == 1 {
                let first = chars_of(v[0].as_str());
                match parse_usize(&first) {
                    Some(num) => {
                        let mb: u32 = if num < 20 {
                            num as u32
                        } else {
                            20
                        };
                        RenderQuality::new(mb, num)
                    },
                    None => {
                        return Err(ConfigError::WrongQuality);
                    },
                }
            } else if v.len() == 2 {
                let first = chars_of(v[0].as_str());
                let second = chars_of(v[1].as_str());
                match (parse_usize(&first), parse_u32(&second)) {
                    (Some(ri), Some(mb)) => RenderQuality::new(mb, ri),
                    _ => RenderQuality::preset(Preset::Medium),
                }
            } else {
                return Err(ConfigError::WrongQuality);
            }
        },
    };
    Ok((quality.ri(), quality.mb()))
}

/// Width and height selected by the values of the resolution option, or an
/// error where they are refused.
pub fn parse_resolution(values: Option<&Vec<String>>) -> (r: Result<(u32, u32), ConfigError>)
    ensures
        match resolution_choice(values_text(values)) {
            Some(q) => r == Ok::<(u32, u32), ConfigError>(q),
            None => r == Err::<(u32, u32), ConfigError>(ConfigError::WrongResolution),
        },
{
    let resolution = match values {
        None => RenderResolution::preset(Preset::Medium),
        Some(v) => {
            if let Some(c) = letter_choice(v) {
                RenderResolution::preset(letter_preset(c))
            } else if v.len() == 2 {
                let first = chars_of(v[0].as_str());
                let second = chars_of(v[1].as_str());
                match (parse_u32(&first), parse_u32(&second)) {
                    (Some(w), Some(h)) => RenderResolution::new(w, h),
                    _ => {
                        return Err(ConfigError::WrongResolution);
                    },
                }
            } else {
                return Err(ConfigError::WrongResolution);
            }
        },
    };
    Ok(resolution.rs())
}

} // verus!
