//! Command-line path handling: picking the root argument and resolving it
//! against the current working directory.

use vstd::prelude::*;

verus! {

/// True exactly when `path` names an absolute location, i.e. starts with `/`.
pub open spec fn spec_is_absolute(path: Seq<char>) -> bool {
    path.len() > 0 && path[0] == '/'
}

/// Decides whether a path string is absolute.
pub fn is_absolute(path: &str) -> (r: bool)
    ensures
        r == spec_is_absolute(path@),
{
    path.unicode_len() > 0 && path.get_char(0) == '/'
}

/// Picks the watch-root argument out of the argument list: the first
/// argument after the program name.  Fails exactly when no such argument
/// was given.
pub fn extract_path_from(args: &Vec<String>) -> (r: Result<&str, &'static str>)
    ensures
        args@.len() >= 2 ==> (r matches Ok(p) && p@ == args@[1]@),
        args@.len() < 2 ==> (r matches Err(m) && m@ == "No path given!"@),
{
    if args.len() < 2 {
        return Err("No path given!");
    }
    Ok(args[1].as_str())
}

/// The root actually watched, as a function of the working directory and the
/// path argument: an absolute argument is used verbatim, a relative one is
/// joined onto the working directory with a separator.
pub open spec fn spec_resolved_root(cwd: Seq<char>, arg: Seq<char>) -> Seq<char> {
    if spec_is_absolute(arg) {
        arg
    } else {
        cwd + seq!['/'] + arg
    }
}

/// Resolves the path argument against the current working directory.
pub fn resolve_root(cwd: &str, arg: &str) -> (r: String)
    ensures
        r@ == spec_resolved_root(cwd@, arg@),
{
    if is_absolute(arg) {
        String::from_str(arg)
    } else {
        let mut out = String::from_str(cwd);
        out.append("/");
        out.append(arg);
        proof {
            reveal_strlit("/");
            assert(out@ =~= cwd@ + seq!['/'] + arg@);
        }
        out
    }
}

} // verus!
