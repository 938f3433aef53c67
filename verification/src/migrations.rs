use vstd::prelude::*;

use crate::text::{chars_equal, chars_of, owned};

verus! {

/// What a migration run does: apply the pending migrations, or revert the last one.
#[derive(Debug, Clone, Copy, PartialEq, Eq)]
pub enum Action {
    Up,
    Down,
}

pub open spec fn action_of_arg(arg: Seq<char>) -> Option<Action> {
    if arg == seq!['u', 'p'] {
        Some(Action::Up)
    } else if arg == seq!['d', 'o', 'w', 'n'] {
        Some(Action::Down)
    } else {
        None
    }
}

/// The action that the first command-line argument names: `up` or `down`; anything else
/// is refused with "cannot parse command line arg".
pub fn action_from_arg(arg: &str) -> (r: Result<Action, String>)
    ensures
        match r {
            Ok(a) => action_of_arg(arg@) == Some(a),
            Err(e) => action_of_arg(arg@) is None && e@ == "cannot parse command line arg"@,
        },
{
    let cs = chars_of(arg);
    let up = vec!['u', 'p'];
    let down = vec!['d', 'o', 'w', 'n'];
    assert(up@ =~= seq!['u', 'p']);
    assert(down@ =~= seq!['d', 'o', 'w', 'n']);
    if chars_equal(&cs, &up) {
        Ok(Action::Up)
    } else if chars_equal(&cs, &down) {
        Ok(Action::Down)
    } else {
        Err(owned("cannot parse command line arg"))
    }
}

} // verus!
