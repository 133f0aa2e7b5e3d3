//! Console text decorations: colour wrappers and the `[err]` / `[info]`
//! prefixes that every console message starts with.

use vstd::prelude::*;
use vstd::string::StringExecFns;

verus! {

/// The characters of `text` wrapped in the ANSI escape codes for red.
pub open spec fn red_spec(text: Seq<char>) -> Seq<char> {
    "\x1b[31m"@ + text + "\x1b[0m"@
}

/// The characters of `text` wrapped in the ANSI escape codes for green.
pub open spec fn green_spec(text: Seq<char>) -> Seq<char> {
    "\x1b[32m"@ + text + "\x1b[0m"@
}

pub fn red(text: &str) -> (r: String)
    ensures
        r@ == red_spec(text@),
{
    let mut s = String::from_str("\x1b[31m");
    s.append(text);
    s.append("\x1b[0m");
    s
}

pub fn green(text: &str) -> (r: String)
    ensures
        r@ == green_spec(text@),
{
    let mut s = String::from_str("\x1b[32m");
    s.append(text);
    s.append("\x1b[0m");
    s
}

/// Prefix put before every error message: `[err]` with `err` in red.
pub fn error_prefix() -> (r: String)
    ensures
        r@ == "["@ + red_spec("err"@) + "]"@,
{
    let mut s = String::from_str("[");
    let inner = red("err");
    s.append(inner.as_str());
    s.append("]");
    s
}

/// Prefix put before every log message: `[info]` with `info` in green.
pub fn log_prefix() -> (r: String)
    ensures
        r@ == "["@ + green_spec("info"@) + "]"@,
{
    let mut s = String::from_str("[");
    let inner = green("info");
    s.append(inner.as_str());
    s.append("]");
    s
}

} // verus!
