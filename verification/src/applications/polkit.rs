//! Running package commands with elevated privileges through `pkexec`.

use vstd::prelude::*;
use crate::applications::traits::str_views;
use crate::text::{string_from_chars, trim, trim_vec, vec_of};

verus! {

/// Runs commands through Polkit; no password passes through the program.
pub struct PolkitExecutor;

/// Why a privileged command did not succeed.
#[derive(Debug, Clone, PartialEq, Eq)]
pub enum PolkitError {
    /// The user cancelled or refused the authorization (exit code 126 or
    /// 127).
    AuthorizationDenied,
    /// The command failed with this exit code (-1 when killed by a signal)
    /// and trimmed error output.
    Failed(i32, String),
}

impl PolkitExecutor {
    /// The command line that runs `program` with `args` through `pkexec`.
    pub fn pkexec_command(program: &str, args: &Vec<String>) -> (r: (String, Vec<String>))
        ensures
            r.0@ == "pkexec"@,
            str_views(r.1@) == seq![program@] + str_views(args@),
    {
        let mut all: Vec<String> = Vec::new();
        all.push(program.to_owned());
        let mut i: usize = 0;
        while i < args.len()
            invariant
                i <= args@.len(),
                str_views(all@) == seq![program@] + str_views(args@).take(i as int),
            decreases args.len() - i,
        {
            let ghost before = str_views(all@);
            all.push(args[i].clone());
            assert(str_views(all@) =~= before.push(args@[i as int]@));
            assert(str_views(args@).take(i + 1) =~= str_views(args@).take(i as int).push(
                args@[i as int]@,
            ));
            i += 1;
        }
        assert(str_views(args@).take(i as int) =~= str_views(args@));
        ("pkexec".to_owned(), all)
    }

    /// What the run of a privileged command means: success, a refused
    /// authorization (exit code 126 or 127), or a failure with its exit
    /// code (-1 without one) and trimmed error output.
    pub fn run_with_pkexec(success: bool, exit_code: Option<i32>, stderr: &str) -> (r: Result<(), PolkitError>)
        ensures
            success ==> r is Ok,
            !success ==> r is Err,
            !success ==> ({
                let code: i32 = match exit_code {
                    Some(c) => c,
                    None => -1i32,
                };
                if code == 126 || code == 127 {
                    r == Err::<(), PolkitError>(PolkitError::AuthorizationDenied)
                } else {
                    r matches Err(PolkitError::Failed(c, msg)) && c == code && msg@ == trim(stderr@)
                }
            }),
    {
        if success {
            return Ok(());
        }
        let code = match exit_code {
            Some(c) => c,
            None => -1,
        };
        if code == 126 || code == 127 {
            return Err(PolkitError::AuthorizationDenied);
        }
        Err(PolkitError::Failed(code, string_from_chars(&trim_vec(&vec_of(stderr)))))
    }
}

} // verus!
