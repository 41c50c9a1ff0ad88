//! Stored login and display configuration, the portal's login-password
//! hash, and score-level coloring decisions.
use vstd::prelude::*;

use crate::strutil::spec_dec_string;
use crate::strutil::str_eq;
use crate::strutil::u64_to_dec_string;

verus! {

/// Stored credentials: the name, the hashed password and the timestamp the
/// hash was salted with.
pub struct Login {
    pub name: String,
    pub password: String,
    pub timestamp: u64,
}

/// Display configuration.
pub struct Config {
    pub colors: ColorScheme,
}

/// Terminal color names for each letter-level family.
pub struct ColorScheme {
    pub a_color: String,
    pub b_color: String,
    pub c_color: String,
    pub d_color: String,
    pub f_color: String,
    pub text_color: String,
}

impl core::default::Default for ColorScheme {
    /// The packaged default coloring.
    fn default() -> (r: ColorScheme)
        ensures
            r.a_color@ == "green"@,
            r.b_color@ == "blue"@,
            r.c_color@ == "yellow"@,
            r.d_color@ == "red"@,
            r.f_color@ == "red"@,
            r.text_color@ == "white"@,
    {
        ColorScheme {
            a_color: String::from_str("green"),
            b_color: String::from_str("blue"),
            c_color: String::from_str("yellow"),
            d_color: String::from_str("red"),
            f_color: String::from_str("red"),
            text_color: String::from_str("white"),
        }
    }
}

impl core::default::Default for Config {
    /// The packaged default configuration: the default colors.
    fn default() -> (r: Config)
        ensures
            r.colors.a_color@ == "green"@,
            r.colors.b_color@ == "blue"@,
            r.colors.c_color@ == "yellow"@,
            r.colors.d_color@ == "red"@,
            r.colors.f_color@ == "red"@,
            r.colors.text_color@ == "white"@,
    {
        Config { colors: ColorScheme::default() }
    }
}

/// Digest rendering that `md5_hex_upper` relies on: a value determined by
/// the input characters alone.
pub uninterp spec fn md5_hex_upper_of(s: Seq<char>) -> Seq<char>;

/// Relies on md5::compute and the md5 crate's upper-hex `Digest`
/// rendering: 32 upper-case hex digits, a function of the input alone.
#[verifier::external_body]
fn md5_hex_upper(s: &str) -> (r: String)
    ensures
        r@ == md5_hex_upper_of(s@),
        r@.len() == 32,
{
    format!("{:X}", md5::compute(s.as_bytes()))
}

/// The login hash the portal expects: the upper-hex digest of the
/// password, concatenated with the decimal timestamp, digested again.
pub fn get_hashed_password(password: &str, timestamp: u64) -> (r: String)
    ensures
        r@ == md5_hex_upper_of(
            md5_hex_upper_of(password@) + spec_dec_string(timestamp as int),
        ),
        r@.len() == 32,
{
    let first = md5_hex_upper(password);
    let ts = u64_to_dec_string(timestamp);
    let combined = first.concat(ts.as_str());
    md5_hex_upper(combined.as_str())
}

/// The color name a score level selects: by the level's first letter, with
/// the plain text color for an unrecognized letter.
pub open spec fn spec_level_color(level: Seq<char>, scheme: ColorScheme) -> Seq<char> {
    if level[0] == 'A' {
        scheme.a_color@
    } else if level[0] == 'B' {
        scheme.b_color@
    } else if level[0] == 'C' {
        scheme.c_color@
    } else if level[0] == 'D' {
        scheme.d_color@
    } else if level[0] == 'F' {
        scheme.f_color@
    } else {
        scheme.text_color@
    }
}

/// The extreme levels are rendered bold.
pub open spec fn spec_level_bold(level: Seq<char>) -> bool {
    level == "A+"@ || level == "F"@
}

/// Picks the color and boldness for a score level under a scheme.
pub fn level_color(score_level: &str, scheme: &ColorScheme) -> (r: (String, bool))
    requires
        score_level@.len() > 0,
    ensures
        r.0@ == spec_level_color(score_level@, *scheme),
        r.1 == spec_level_bold(score_level@),
{
    let letter = score_level.get_char(0);
    let color = if letter == 'A' {
        scheme.a_color.clone()
    } else if letter == 'B' {
        scheme.b_color.clone()
    } else if letter == 'C' {
        scheme.c_color.clone()
    } else if letter == 'D' {
        scheme.d_color.clone()
    } else if letter == 'F' {
        scheme.f_color.clone()
    } else {
        scheme.text_color.clone()
    };
    let bold = str_eq(score_level, "A+") || str_eq(score_level, "F");
    (color, bold)
}

/// Relies on colored's `Colorize` for terminal escape rendering; what it
/// emits depends on the terminal and environment, so nothing is claimed of
/// the result.
#[verifier::external_body]
fn paint(text: &str, color: &str, bold: bool) -> String {
    let painted = colored::Colorize::color(text, color);
    if bold {
        colored::Colorize::bold(painted).to_string()
    } else {
        painted.to_string()
    }
}

/// Renders a string in the color (and boldness) its score level selects
/// under the scheme. The level decides: its first letter picks the color
/// family, and the extreme levels are bold.
pub fn colorize(string: &str, score_level: &str, color_scheme: &ColorScheme) -> String
    requires
        score_level@.len() > 0,
{
    let (color, bold) = level_color(score_level, color_scheme);
    paint(string, color.as_str(), bold)
}

} // verus!
