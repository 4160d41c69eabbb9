//! How a new session's shell is chosen and where it starts.
use vstd::prelude::*;

verus! {

/// The shell used where the environment names none.
pub const DEFAULT_SHELL: &'static str = "/bin/bash";

/// The shell program: the one the environment names, else [`DEFAULT_SHELL`].
pub fn resolve_shell(from_env: Option<String>) -> (r: String)
    ensures
        from_env matches Some(s) ==> r@ == s@,
        from_env is None ==> r@ == DEFAULT_SHELL@,
{
    match from_env {
        Some(s) => s,
        None => DEFAULT_SHELL.to_string(),
    }
}

/// The shell's working directory: the one asked for, else the user's home,
/// else none (the pseudo-terminal backend then picks).
pub fn resolve_cwd(requested: Option<String>, home: Option<String>) -> (r: Option<String>)
    ensures
        requested matches Some(d) ==> (r matches Some(x) && x@ == d@),
        requested is None ==> (home matches Some(h) ==> (r matches Some(x) && x@ == h@)),
        requested is None && home is None ==> r is None,
{
    match requested {
        Some(d) => Some(d),
        None => home,
    }
}

} // verus!
