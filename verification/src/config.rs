//! Render configuration and color parsing.

use vstd::prelude::*;
use vstd::string::{StrSliceExecFns, StringSliceAdditionalSpecFns};

use crate::errors::ColorError;

verus! {

/// One color as a red, green, blue triple.
#[derive(Clone, Copy, PartialEq, Eq, Structural, Debug)]
pub struct Rgb {
    pub r: u8,
    pub g: u8,
    pub b: u8,
}

/// The configuration value bundle handed to the pipeline. The caller fills
/// it from its command line; nothing here parses arguments.
pub struct RenderConfig {
    /// Device model whose history logs are charted.
    pub device: String,
    /// Frame width in pixels.
    pub width: i32,
    /// Frame height in pixels.
    pub height: i32,
    /// Hour range to display.
    pub hours: i32,
    /// Label area size in pixels.
    pub label_area_size: i32,
    /// Margin around each chart in pixels.
    pub graph_margin: i32,
    /// Extra margin at the bottom, making room for the text overlay.
    pub bottom_margin_extra: i32,
    /// Axis rendering color, as a hex string.
    pub axis_color: String,
    /// Background color, as a hex string.
    pub background_color: String,
    /// Percentage series color (also used for the percentage text).
    pub percent_color: String,
    /// Charging-rate series color.
    pub charging_color: String,
    /// Discharging-rate series color (also used for the power text).
    pub discharging_color: String,
}

/// The number of leading hash-sign bytes of the string.
pub open spec fn spec_hash_prefix_len(b: Seq<u8>) -> int
    decreases b.len(),
{
    if b.len() > 0 && b[0] == 35 {
        1 + spec_hash_prefix_len(b.skip(1))
    } else {
        0
    }
}

/// Whether the byte is an ASCII hexadecimal digit.
pub open spec fn spec_is_hex_digit(b: u8) -> bool {
    (48 <= b <= 57) || (97 <= b <= 102) || (65 <= b <= 70)
}

/// The value of an ASCII hexadecimal digit.
pub open spec fn spec_hex_val(b: u8) -> int {
    if 48 <= b <= 57 {
        b - 48
    } else if 97 <= b <= 102 {
        b - 87
    } else {
        b - 55
    }
}

/// Whether the bytes after the hash signs begin with six hexadecimal
/// digits. Anything after the six digits is ignored.
pub open spec fn spec_color_ok(rest: Seq<u8>) -> bool {
    rest.len() >= 6 && (forall|i: int| 0 <= i < 6 ==> spec_is_hex_digit(#[trigger] rest[i]))
}

/// The color the six digits denote, one byte per pair.
pub open spec fn spec_color_of(rest: Seq<u8>) -> Rgb {
    Rgb {
        r: (spec_hex_val(rest[0]) * 16 + spec_hex_val(rest[1])) as u8,
        g: (spec_hex_val(rest[2]) * 16 + spec_hex_val(rest[3])) as u8,
        b: (spec_hex_val(rest[4]) * 16 + spec_hex_val(rest[5])) as u8,
    }
}

/// The value of an ASCII hexadecimal digit, or the failure to surface for
/// any other byte.
fn hex_val(b: u8) -> (r: Option<u8>)
    ensures
        match r {
            Some(v) => spec_is_hex_digit(b) && v == spec_hex_val(b),
            None => !spec_is_hex_digit(b),
        },
{
    if 48 <= b && b <= 57 {
        Some(b - 48)
    } else if 97 <= b && b <= 102 {
        Some(b - 87)
    } else if 65 <= b && b <= 70 {
        Some(b - 55)
    } else {
        None
    }
}

/// Parses a `#RRGGBB` hex color string into its triple: leading hash signs
/// are skipped, the next six bytes must be hexadecimal digits, and whatever
/// follows them is ignored.
pub fn parse_color(s: &str) -> (r: Result<Rgb, ColorError>)
    ensures
        ({
            let rest = s.spec_bytes().skip(spec_hash_prefix_len(s.spec_bytes()));
            match r {
                Ok(c) => spec_color_ok(rest) && c == spec_color_of(rest),
                Err(_) => !spec_color_ok(rest),
            }
        }),
{
    let b = s.as_bytes_vec();
    let mut i: usize = 0;
    proof {
        assert(b@.skip(0) =~= b@);
    }
    while i < b.len() && b[i] == 35
        invariant
            i <= b@.len(),
            b@ == s.spec_bytes(),
            spec_hash_prefix_len(b@) == i + spec_hash_prefix_len(b@.skip(i as int)),
        decreases b@.len() - i,
    {
        proof {
            assert(b@.skip(i as int)[0] == b@[i as int]);
            assert(b@.skip(i as int).skip(1) =~= b@.skip(i + 1));
        }
        i = i + 1;
    }
    proof {
        if i < b@.len() {
            assert(b@.skip(i as int)[0] == b@[i as int]);
        }
        assert(spec_hash_prefix_len(b@.skip(i as int)) == 0);
        assert(b@.skip(i as int) =~= s.spec_bytes().skip(spec_hash_prefix_len(s.spec_bytes())));
    }
    let n: usize = b.len();
    if n - i < 6 {
        return Err(ColorError);
    }
    let ghost rest = b@.skip(i as int);
    proof {
        assert(rest[0] == b@[i as int]);
        assert(rest[1] == b@[i + 1]);
        assert(rest[2] == b@[i + 2]);
        assert(rest[3] == b@[i + 3]);
        assert(rest[4] == b@[i + 4]);
        assert(rest[5] == b@[i + 5]);
    }
    let v0 = match hex_val(b[i]) {
        Some(v) => v,
        None => {
            return Err(ColorError);
        },
    };
    let v1 = match hex_val(b[i + 1]) {
        Some(v) => v,
        None => {
            return Err(ColorError);
        },
    };
    let v2 = match hex_val(b[i + 2]) {
        Some(v) => v,
        None => {
            return Err(ColorError);
        },
    };
    let v3 = match hex_val(b[i + 3]) {
        Some(v) => v,
        None => {
            return Err(ColorError);
        },
    };
    let v4 = match hex_val(b[i + 4]) {
        Some(v) => v,
        None => {
            return Err(ColorError);
        },
    };
    let v5 = match hex_val(b[i + 5]) {
        Some(v) => v,
        None => {
            return Err(ColorError);
        },
    };
    Ok(Rgb { r: v0 * 16 + v1, g: v2 * 16 + v3, b: v4 * 16 + v5 })
}

} // verus!
