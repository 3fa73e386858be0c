//! The argument router: the first step of every run. A command line whose
//! first argument is the reserved keyword `init` asks for the secondary
//! repository to be set up; any other command line, flags included, is an
//! opaque list to hand to the delegate executable untouched.

use vstd::prelude::*;

verus! {

/// Which of the tool's two operations a command line selects.
#[derive(Clone, Copy, Debug, PartialEq, Eq, Structural)]
pub enum Route {
    /// Set up the secondary repository in the current directory.
    Init,
    /// Forward every argument to the delegate executable.
    Passthrough,
}

/// Whether an argument vector selects the `init` subcommand: its first
/// argument is exactly the keyword. Anything after the keyword carries no
/// meaning and is ignored.
pub open spec fn routes_to_init(args: Seq<String>) -> bool {
    args.len() > 0 && args[0]@ == "init"@
}

/// Decide between the two operations. The arguments themselves are left for
/// the caller to forward when the answer is `Passthrough`.
pub fn route(args: &Vec<String>) -> (r: Route)
    ensures
        r == (if routes_to_init(args@) {
            Route::Init
        } else {
            Route::Passthrough
        }),
{
    if args.len() > 0 {
        let keyword: String = "init".to_owned();
        if args[0] == keyword {
            return Route::Init;
        }
    }
    Route::Passthrough
}

} // verus!
