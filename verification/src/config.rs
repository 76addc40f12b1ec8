use vstd::prelude::*;

use crate::color::Color;
use crate::MAX_DIM;

verus! {

/// What can be wrong with a configuration: a background color that is
/// not six hex digits, a shape-family index outside the taxonomy, or a
/// canvas size the engine cannot hold.
#[derive(Clone, Copy, Debug, PartialEq, Eq, Structural)]
pub enum ConfigError {
    BadHexColor,
    BadMode,
    BadSize,
}

impl ConfigError {
    /// A short description of the error.
    pub fn message(&self) -> (r: &'static str)
        ensures
            r@ == (match *self {
                ConfigError::BadHexColor => "background color is not a six-digit hex value"@,
                ConfigError::BadMode => "unknown shape mode"@,
                ConfigError::BadSize => "canvas size out of range"@,
            }),
    {
        match self {
            ConfigError::BadHexColor => "background color is not a six-digit hex value",
            ConfigError::BadMode => "unknown shape mode",
            ConfigError::BadSize => "canvas size out of range",
        }
    }
}

/// The value of a hex digit, or -1 for any other character.
pub open spec fn hex_digit_val(c: char) -> int {
    if c == '0' {
        0
    } else if c == '1' {
        1
    } else if c == '2' {
        2
    } else if c == '3' {
        3
    } else if c == '4' {
        4
    } else if c == '5' {
        5
    } else if c == '6' {
        6
    } else if c == '7' {
        7
    } else if c == '8' {
        8
    } else if c == '9' {
        9
    } else if c == 'a' || c == 'A' {
        10
    } else if c == 'b' || c == 'B' {
        11
    } else if c == 'c' || c == 'C' {
        12
    } else if c == 'd' || c == 'D' {
        13
    } else if c == 'e' || c == 'E' {
        14
    } else if c == 'f' || c == 'F' {
        15
    } else {
        -1
    }
}

fn hex_digit_exec(c: char) -> (r: i32)
    ensures
        r == hex_digit_val(c),
{
    if c == '0' {
        0
    } else if c == '1' {
        1
    } else if c == '2' {
        2
    } else if c == '3' {
        3
    } else if c == '4' {
        4
    } else if c == '5' {
        5
    } else if c == '6' {
        6
    } else if c == '7' {
        7
    } else if c == '8' {
        8
    } else if c == '9' {
        9
    } else if c == 'a' || c == 'A' {
        10
    } else if c == 'b' || c == 'B' {
        11
    } else if c == 'c' || c == 'C' {
        12
    } else if c == 'd' || c == 'D' {
        13
    } else if c == 'e' || c == 'E' {
        14
    } else if c == 'f' || c == 'F' {
        15
    } else {
        -1
    }
}

/// The hex digits of a color, after an optional leading `#`.
pub open spec fn hex_body(s: Seq<char>) -> Seq<char> {
    if s.len() >= 1 && s[0] == '#' {
        s.skip(1)
    } else {
        s
    }
}

/// Six hex digits.
pub open spec fn is_hex6(s: Seq<char>) -> bool {
    s.len() == 6 && forall|i: int| 0 <= i < 6 ==> hex_digit_val(#[trigger] s[i]) >= 0
}

/// The opaque color six hex digits denote.
pub open spec fn color_of_hex(s: Seq<char>) -> Color {
    Color {
        r: (hex_digit_val(s[0]) * 16 + hex_digit_val(s[1])) as u8,
        g: (hex_digit_val(s[2]) * 16 + hex_digit_val(s[3])) as u8,
        b: (hex_digit_val(s[4]) * 16 + hex_digit_val(s[5])) as u8,
        a: 255,
    }
}

/// Parse a starting background color: six hex digits, with or without a
/// leading `#`.  Anything else is rejected.
pub fn parse_hex_color(s: &str) -> (r: Result<Color, ConfigError>)
    ensures
        r is Ok <==> is_hex6(hex_body(s@)),
        r is Ok ==> r->Ok_0 == color_of_hex(hex_body(s@)),
        r is Err ==> r->Err_0 == ConfigError::BadHexColor,
{
    let n = s.unicode_len();
    let start: usize = if n >= 1 && s.get_char(0) == '#' {
        1
    } else {
        0
    };
    if n - start != 6 {
        proof {
            assert(hex_body(s@).len() != 6);
        }
        return Result::Err(ConfigError::BadHexColor);
    }
    let mut vals: [i32; 6] = [0, 0, 0, 0, 0, 0];
    let mut i: usize = 0;
    while i < 6
        invariant
            i <= 6,
            n == s@.len(),
            start == if s@.len() >= 1 && s@[0] == '#' {
                1int
            } else {
                0int
            },
            n - start == 6,
            forall|j: int|
                0 <= j < i ==> vals@[j] == hex_digit_val(#[trigger] hex_body(s@)[j]) && vals@[j]
                    >= 0,
        decreases 6 - i,
    {
        let c = s.get_char(start + i);
        let v = hex_digit_exec(c);
        if v < 0 {
            proof {
                assert(hex_body(s@)[i as int] == s@[start + i]);
            }
            return Result::Err(ConfigError::BadHexColor);
        }
        vals.set(i, v);
        proof {
            assert(hex_body(s@)[i as int] == s@[start + i]);
        }
        i += 1;
    }
    proof {
        assert(is_hex6(hex_body(s@)));
        assert forall|j: int| 0 <= j < 6 implies 0 <= #[trigger] vals@[j] <= 15 by {
            assert(vals@[j] == hex_digit_val(hex_body(s@)[j]));
        }
    }
    let c = Color {
        r: (vals[0] * 16 + vals[1]) as u8,
        g: (vals[2] * 16 + vals[3]) as u8,
        b: (vals[4] * 16 + vals[5]) as u8,
        a: 255,
    };
    Result::Ok(c)
}

/// Check a shape-family index: the taxonomy has families 0 through 8.
pub fn validate_mode(mode: u32) -> (r: Result<u32, ConfigError>)
    ensures
        r is Ok <==> mode <= 8,
        r is Ok ==> r->Ok_0 == mode,
        r is Err ==> r->Err_0 == ConfigError::BadMode,
{
    if mode <= 8 {
        Result::Ok(mode)
    } else {
        Result::Err(ConfigError::BadMode)
    }
}

/// Check a canvas edge length against the engine's limit.
pub fn validate_size(size: u32) -> (r: Result<u32, ConfigError>)
    ensures
        r is Ok <==> 1 <= size <= MAX_DIM,
        r is Ok ==> r->Ok_0 == size,
        r is Err ==> r->Err_0 == ConfigError::BadSize,
{
    if 1 <= size && size <= MAX_DIM {
        Result::Ok(size)
    } else {
        Result::Err(ConfigError::BadSize)
    }
}

/// Where one output path routes: a vector document, an animation with a
/// final raster, or a single raster.
#[derive(Clone, Copy, Debug, PartialEq, Eq, Structural)]
pub enum OutputKind {
    Vector,
    Animation,
    Raster,
}

/// The position of the last `.` at or before `i`, or -1.
pub open spec fn last_dot_from(s: Seq<char>, i: int) -> int
    decreases i + 1,
{
    if i < 0 || i >= s.len() {
        -1
    } else if s[i] == '.' {
        i
    } else {
        last_dot_from(s, i - 1)
    }
}

/// How a path routes by its extension: `svg` writes the vector document,
/// `gif` the animation, anything else a single raster.
pub open spec fn output_kind_spec(s: Seq<char>) -> OutputKind {
    let d = last_dot_from(s, s.len() - 1);
    if d >= 0 && s.len() - d - 1 == 3 && s[d + 1] == 's' && s[d + 2] == 'v' && s[d + 3] == 'g' {
        OutputKind::Vector
    } else if d >= 0 && s.len() - d - 1 == 3 && s[d + 1] == 'g' && s[d + 2] == 'i' && s[d + 3]
        == 'f' {
        OutputKind::Animation
    } else {
        OutputKind::Raster
    }
}

/// Whether the path holds the `{}` token that asks for one file per
/// committed state.
pub open spec fn has_index_token(s: Seq<char>) -> bool {
    exists|i: int| 0 <= i && i + 1 < s.len() && s[i] == '{' && #[trigger] s[i + 1] == '}'
}

/// Classify an output path by its extension.
pub fn output_kind(path: &str) -> (r: OutputKind)
    ensures
        r == output_kind_spec(path@),
{
    let n = path.unicode_len();
    let mut i: usize = n;
    let mut dot_found = false;
    let mut dot: usize = 0;
    while i > 0
        invariant_except_break
            !dot_found,
        invariant
            i <= n,
            n == path@.len(),
            last_dot_from(path@, n - 1) == last_dot_from(path@, i as int - 1) || (dot_found
                && dot as int == last_dot_from(path@, n - 1) && dot < n),
        ensures
            dot_found ==> dot as int == last_dot_from(path@, n - 1) && dot < n,
            !dot_found ==> last_dot_from(path@, n as int - 1) == -1,
        decreases i,
    {
        if path.get_char(i - 1) == '.' {
            dot = i - 1;
            dot_found = true;
            break;
        }
        i -= 1;
    }
    if dot_found && n - dot - 1 == 3 {
        let a = path.get_char(dot + 1);
        let b = path.get_char(dot + 2);
        let c = path.get_char(dot + 3);
        if a == 's' && b == 'v' && c == 'g' {
            OutputKind::Vector
        } else if a == 'g' && b == 'i' && c == 'f' {
            OutputKind::Animation
        } else {
            OutputKind::Raster
        }
    } else {
        OutputKind::Raster
    }
}

/// Whether every committed state gets its own output file: the path
/// carries the index token and the format is not the animation.
pub fn writes_per_frame(path: &str) -> (r: bool)
    ensures
        r == (has_index_token(path@) && output_kind_spec(path@) != OutputKind::Animation),
{
    let n = path.unicode_len();
    let mut found = false;
    let mut i: usize = 0;
    if n >= 1 {
        while i < n - 1
            invariant
                n >= 1,
                i <= n - 1,
                n == path@.len(),
                found <==> exists|j: int|
                    0 <= j < i && path@[j] == '{' && #[trigger] path@[j + 1] == '}',
            decreases n - i,
        {
            if path.get_char(i) == '{' && path.get_char(i + 1) == '}' {
                found = true;
            }
            i += 1;
        }
    }
    proof {
        assert(found <==> has_index_token(path@));
    }
    let kind = output_kind(path);
    found && !matches!(kind, OutputKind::Animation)
}

} // verus!
