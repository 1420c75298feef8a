//! The `print` operation: one line for each project, its name and the last
//! commit of its branch.

use crate::utils::{ProjectBranch, ResolveError};
use vstd::prelude::*;
use vstd::string::StringExecFns;

verus! {

/// The line printed for a resolved project: its name, a colon, the commit.
pub open spec fn line_of(name: Seq<char>, commit: Seq<char>) -> Seq<char> {
    name + seq![':'] + commit
}

/// The line to print for the project `name`, or the error to report where the
/// project could not be resolved; the operation then goes on with the next
/// project.
pub fn cmd(name: &str, resolved: &Result<ProjectBranch, ResolveError>) -> (r: Result<
    String,
    ResolveError,
>)
    ensures
        match *resolved {
            Ok(found) => r is Ok && r.unwrap()@ == line_of(name@, found.commit@),
            Err(error) => r == Err::<String, ResolveError>(error),
        },
{
    match resolved {
        Ok(found) => {
            let mut line: String = String::from_str(name);
            proof {
                reveal_strlit(":");
                assert(":"@ =~= seq![':']);
            }
            line.append(":");
            line.append(found.commit.0.as_str());
            Ok(line)
        },
        Err(error) => Err(*error),
    }
}

} // verus!
