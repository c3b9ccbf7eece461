//! Static startup configuration: workspace names, layouts, border and gap
//! sizes, colors, and the window classes forced to float. An invalid
//! configuration is rejected before the manager is built.

use vstd::prelude::*;
use vstd::string::StrSliceExecFns;
use crate::layout::{LayoutKind, RATIO_MIN, RATIO_MAX};
use crate::manager::WmError;

verus! {

/// The value of one hexadecimal digit character, or -1 for anything else.
pub open spec fn spec_hex_digit(c: char) -> int {
    if '0' <= c <= '9' {
        c as int - '0' as int
    } else if 'a' <= c <= 'f' {
        c as int - 'a' as int + 10
    } else if 'A' <= c <= 'F' {
        c as int - 'A' as int + 10
    } else {
        -1
    }
}

/// A well-formed color: `#` followed by exactly six hexadecimal digits.
pub open spec fn spec_is_color(s: Seq<char>) -> bool {
    &&& s.len() == 7
    &&& s[0] == '#'
    &&& forall|i: int| 1 <= i < 7 ==> spec_hex_digit(#[trigger] s[i]) >= 0
}

/// The 24-bit value a well-formed color string denotes.
pub open spec fn spec_color_value(s: Seq<char>) -> int {
    spec_hex_digit(s[1]) * 0x100000 + spec_hex_digit(s[2]) * 0x10000 + spec_hex_digit(s[3])
        * 0x1000 + spec_hex_digit(s[4]) * 0x100 + spec_hex_digit(s[5]) * 0x10 + spec_hex_digit(
        s[6],
    )
}

/// One hexadecimal digit, or `None` for any other character.
fn hex_digit(c: char) -> (r: Option<u32>)
    ensures
        r matches Some(v) ==> v == spec_hex_digit(c) && v < 16,
        r is None ==> spec_hex_digit(c) < 0,
{
    if '0' <= c && c <= '9' {
        Some(c as u32 - '0' as u32)
    } else if 'a' <= c && c <= 'f' {
        Some(c as u32 - 'a' as u32 + 10)
    } else if 'A' <= c && c <= 'F' {
        Some(c as u32 - 'A' as u32 + 10)
    } else {
        None
    }
}

/// Parse a `#rrggbb` color string to its 24-bit value; anything else is a
/// configuration error.
pub fn parse_color(s: &str) -> (r: Result<u32, WmError>)
    ensures
        spec_is_color(s@) ==> r == Ok::<u32, WmError>(spec_color_value(s@) as u32),
        !spec_is_color(s@) ==> r == Err::<u32, WmError>(WmError::Configuration),
{
    if s.unicode_len() != 7 {
        return Err(WmError::Configuration);
    }
    if s.get_char(0) != '#' {
        return Err(WmError::Configuration);
    }
    let d1 = match hex_digit(s.get_char(1)) {
        Option::Some(v) => v,
        Option::None => {
            return Err(WmError::Configuration);
        }
    };
    let d2 = match hex_digit(s.get_char(2)) {
        Option::Some(v) => v,
        Option::None => {
            return Err(WmError::Configuration);
        }
    };
    let d3 = match hex_digit(s.get_char(3)) {
        Option::Some(v) => v,
        Option::None => {
            return Err(WmError::Configuration);
        }
    };
    let d4 = match hex_digit(s.get_char(4)) {
        Option::Some(v) => v,
        Option::None => {
            return Err(WmError::Configuration);
        }
    };
    let d5 = match hex_digit(s.get_char(5)) {
        Option::Some(v) => v,
        Option::None => {
            return Err(WmError::Configuration);
        }
    };
    let d6 = match hex_digit(s.get_char(6)) {
        Option::Some(v) => v,
        Option::None => {
            return Err(WmError::Configuration);
        }
    };
    Ok(d1 * 0x100000 + d2 * 0x10000 + d3 * 0x1000 + d4 * 0x100 + d5 * 0x10 + d6)
}

/// The static configuration handed to the engine at startup.
pub struct Config {
    pub workspace_names: Vec<String>,
    pub layouts: Vec<LayoutKind>,
    /// Default main-area ratio, in thousandths.
    pub ratio: u32,
    /// Default number of main-area clients.
    pub max_main: usize,
    pub border_px: u32,
    pub gap_px: u32,
    pub bar_height: u32,
    pub focused_border: u32,
    pub unfocused_border: u32,
    /// Window classes never tiled.
    pub floating_classes: Vec<String>,
}

impl Config {
    /// What the builder guarantees of every configuration it accepts.
    pub open spec fn valid(self) -> bool {
        &&& 1 <= self.workspace_names.len()
        &&& 1 <= self.layouts.len()
        &&& RATIO_MIN <= self.ratio <= RATIO_MAX
    }

    /// Validate and assemble a configuration. An empty workspace list, an
    /// empty layout list, an out-of-range ratio or an unparseable color is a
    /// configuration error — exactly then does the build fail.
    pub fn build(
        workspace_names: Vec<String>,
        layouts: Vec<LayoutKind>,
        ratio: u32,
        max_main: usize,
        border_px: u32,
        gap_px: u32,
        bar_height: u32,
        focused_border: &str,
        unfocused_border: &str,
        floating_classes: Vec<String>,
    ) -> (r: Result<Config, WmError>)
        ensures
            r matches Ok(c) ==> {
                &&& 1 <= workspace_names.len() && 1 <= layouts.len()
                &&& RATIO_MIN <= ratio <= RATIO_MAX
                &&& spec_is_color(focused_border@) && spec_is_color(unfocused_border@)
                &&& c == (Config {
                    workspace_names,
                    layouts,
                    ratio,
                    max_main,
                    border_px,
                    gap_px,
                    bar_height,
                    focused_border: spec_color_value(focused_border@) as u32,
                    unfocused_border: spec_color_value(unfocused_border@) as u32,
                    floating_classes,
                })
                &&& c.valid()
            },
            r is Err ==> r == Err::<Config, WmError>(WmError::Configuration) && !(1
                <= workspace_names.len() && 1 <= layouts.len() && RATIO_MIN <= ratio <= RATIO_MAX
                && spec_is_color(focused_border@) && spec_is_color(unfocused_border@)),
    {
        if workspace_names.len() == 0 || layouts.len() == 0 {
            return Err(WmError::Configuration);
        }
        if ratio < RATIO_MIN || ratio > RATIO_MAX {
            return Err(WmError::Configuration);
        }
        let focused = match parse_color(focused_border) {
            Result::Ok(v) => v,
            Result::Err(e) => {
                return Err(e);
            }
        };
        let unfocused = match parse_color(unfocused_border) {
            Result::Ok(v) => v,
            Result::Err(e) => {
                return Err(e);
            }
        };
        Ok(
            Config {
                workspace_names,
                layouts,
                ratio,
                max_main,
                border_px,
                gap_px,
                bar_height,
                focused_border: focused,
                unfocused_border: unfocused,
                floating_classes,
            },
        )
    }

    /// Whether a window class name is on the forced-floating list.
    pub fn is_floating_class(&self, class: &String) -> (r: bool)
        ensures
            r == exists|i: int|
                0 <= i < self.floating_classes.len() && (#[trigger] self.floating_classes[i])@
                    == class@,
    {
        let n = self.floating_classes.len();
        let mut i: usize = 0;
        while i < n
            invariant
                n == self.floating_classes.len(),
                0 <= i <= n,
                forall|j: int| 0 <= j < i ==> (#[trigger] self.floating_classes[j])@ != class@,
            decreases n - i,
        {
            if self.floating_classes[i].eq(class) {
                return true;
            }
            i = i + 1;
        }
        false
    }
}

} // verus!
