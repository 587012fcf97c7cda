//! Script event hooks, and the replies of the functions that scripts can call.

use vstd::prelude::*;
use crate::text::{decimal, push_char, push_decimal, push_str};

verus! {

/// Script event hooks that scripts can define.
#[derive(Clone, Copy, Debug, PartialEq, Eq, Hash, Structural)]
pub enum ScriptEvent {
    /// Fired when the application starts.
    OnStart,
    /// Fired when the application is about to quit.
    OnQuit,
    /// Fired on every key press.
    OnKey,
}

/// A signed count in decimal, with a leading `-` when negative.
pub open spec fn signed_decimal(n: int) -> Seq<char> {
    if n < 0 { seq!['-'] + decimal((-n) as nat) } else { decimal(n as nat) }
}

/// The reply of `shashin_open(path)`.
pub fn open_reply(path: &str) -> (r: String)
    ensures
        r@ == "opened: "@ + path@,
{
    let mut s = String::new();
    push_str(&mut s, "opened: ");
    push_str(&mut s, path);
    s
}

/// The reply of `shashin_rotate(degrees)`.
pub fn rotate_reply(degrees: i64) -> (r: String)
    ensures
        r@ == "rotated: "@ + signed_decimal(degrees as int),
{
    let mut s = String::new();
    push_str(&mut s, "rotated: ");
    if degrees < 0 {
        push_char(&mut s, '-');
        let magnitude: u64 = ((-(degrees + 1)) as u64) + 1;
        push_decimal(&mut s, magnitude);
        assert(s@ =~= "rotated: "@ + signed_decimal(degrees as int));
    } else {
        push_decimal(&mut s, degrees as u64);
    }
    s
}

/// The reply of `shashin_export(path, format)`.
pub fn export_reply(path: &str, format: &str) -> (r: String)
    ensures
        r@ == "exported to "@ + path@ + " as "@ + format@,
{
    let mut s = String::new();
    push_str(&mut s, "exported to ");
    push_str(&mut s, path);
    push_str(&mut s, " as ");
    push_str(&mut s, format);
    s
}

} // verus!
