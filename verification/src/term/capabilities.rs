//! Terminal capabilities, decided from the terminal's environment variables.
use vstd::prelude::*;
use crate::textfmt::{chars_contain, chars_of, contains_seq, lowercase, to_lowercase};

verus! {

/// What the terminal can display.
#[derive(Debug, Clone, Copy, PartialEq, Eq, Structural)]
pub struct Capabilities {
    pub kitty: bool,
    pub sixel: bool,
    pub iterm2: bool,
    pub truecolor: bool,
    pub unicode: bool,
}

impl Default for Capabilities {
    /// No graphics protocol, no true color, Unicode.
    fn default() -> (res: Self)
        ensures
            res == (Capabilities { kitty: false, sixel: false, iterm2: false, truecolor: false, unicode: true }),
    {
        Capabilities { kitty: false, sixel: false, iterm2: false, truecolor: false, unicode: true }
    }
}

/// The environment that capabilities are decided from: `TERM`,
/// `TERM_PROGRAM` and `COLORTERM` (empty when unset), and whether
/// `KITTY_WINDOW_ID`, `WT_SIXEL` and `WT_SESSION` are set.
pub struct TermEnv {
    pub term: String,
    pub term_program: String,
    pub colorterm: String,
    pub kitty_window_id: bool,
    pub wt_sixel: bool,
    pub wt_session: bool,
}

/// The capabilities that the environment indicates.
pub open spec fn capabilities_from(env: TermEnv) -> Capabilities {
    let term = lowercase(env.term@);
    let program = lowercase(env.term_program@);
    let colorterm = lowercase(env.colorterm@);
    let kitty = env.kitty_window_id || contains_seq(program, "kitty"@) || contains_seq(program, "ghostty"@)
        || contains_seq(program, "wezterm"@);
    let iterm2 = contains_seq(program, "iterm"@) || contains_seq(term, "iterm"@);
    let sixel_env = env.wt_sixel || env.wt_session || contains_seq(term, "sixel"@) || contains_seq(term, "foot"@);
    let sixel = (contains_seq(term, "xterm"@) && !kitty && !iterm2) || sixel_env;
    let truecolor = contains_seq(colorterm, "truecolor"@) || contains_seq(colorterm, "24bit"@)
        || contains_seq(term, "truecolor"@) || contains_seq(env.colorterm@, "truecolor"@);
    Capabilities { kitty, sixel, iterm2, truecolor, unicode: true }
}

fn has(hay: &Vec<char>, needle: &str) -> (res: bool)
    ensures
        res == contains_seq(hay@, needle@),
{
    let n = chars_of(needle);
    chars_contain(hay.as_slice(), n.as_slice())
}

/// Decides the capabilities from the environment: Kitty graphics for Kitty,
/// Ghostty and WezTerm; iTerm2 by name; Sixel for xterm-like terminals that
/// are neither, for Windows Terminal and for terminals naming sixel or foot;
/// true color when `COLORTERM` or `TERM` says so.
pub fn detect_from(env: &TermEnv) -> (res: Capabilities)
    ensures
        res == capabilities_from(*env),
{
    let term = chars_of(to_lowercase(env.term.as_str()).as_str());
    let program = chars_of(to_lowercase(env.term_program.as_str()).as_str());
    let colorterm = chars_of(to_lowercase(env.colorterm.as_str()).as_str());
    let raw_colorterm = chars_of(env.colorterm.as_str());
    let kitty = env.kitty_window_id || has(&program, "kitty") || has(&program, "ghostty") || has(&program, "wezterm");
    let iterm2 = has(&program, "iterm") || has(&term, "iterm");
    let sixel_env = env.wt_sixel || env.wt_session || has(&term, "sixel") || has(&term, "foot");
    let sixel = (has(&term, "xterm") && !kitty && !iterm2) || sixel_env;
    let truecolor = has(&colorterm, "truecolor") || has(&colorterm, "24bit") || has(&term, "truecolor")
        || has(&raw_colorterm, "truecolor");
    Capabilities { kitty, sixel, iterm2, truecolor, unicode: true }
}

/// An active terminal query is not made (it could block start-up); the
/// environment decides.
fn probe_sixel_kitty() -> (res: Option<Capabilities>)
    ensures
        res is None,
{
    None
}

fn yes_no(b: bool) -> (res: &'static str)
    ensures
        res@ == if b { "yes"@ } else { "no"@ },
{
    if b { "yes" } else { "no" }
}

/// "yes" or "no".
pub open spec fn yes_no_spec(b: bool) -> Seq<char> {
    if b { "yes"@ } else { "no"@ }
}

/// The one-line summary of the capabilities.
pub open spec fn describe_spec(caps: Capabilities) -> Seq<char> {
    "Kitty:"@ + yes_no_spec(caps.kitty) + " Sixel:"@ + yes_no_spec(caps.sixel) + " iTerm2:"@
        + yes_no_spec(caps.iterm2) + " TrueColor:"@ + yes_no_spec(caps.truecolor) + " Unicode:"@
        + yes_no_spec(caps.unicode)
}

/// "Kitty:yes Sixel:no iTerm2:no TrueColor:yes Unicode:yes".
pub fn describe(caps: Capabilities) -> (res: String)
    ensures
        res@ == describe_spec(caps),
{
    let mut s = String::from_str("Kitty:");
    s.append(yes_no(caps.kitty));
    s.append(" Sixel:");
    s.append(yes_no(caps.sixel));
    s.append(" iTerm2:");
    s.append(yes_no(caps.iterm2));
    s.append(" TrueColor:");
    s.append(yes_no(caps.truecolor));
    s.append(" Unicode:");
    s.append(yes_no(caps.unicode));
    s
}

} // verus!
