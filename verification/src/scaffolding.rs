//! Process-level scaffolding: the context a server run starts from (the
//! program name, the chosen problem and its arguments, the bind address) and
//! the resolution of a problem name to one of the protocols on offer.

use std::collections::VecDeque;
use vstd::prelude::*;
use vstd::string::StrSliceExecFns;

verus! {

/// Character-by-character string equality.
pub fn str_eq(a: &str, b: &str) -> (r: bool)
    ensures
        r == (a@ == b@),
{
    let n = a.unicode_len();
    let m = b.unicode_len();
    if n != m {
        return false;
    }
    let mut i: usize = 0;
    while i < n
        invariant
            n == a@.len(),
            n == b@.len(),
            0 <= i <= n,
            forall|j: int| 0 <= j < i ==> a@[j] == b@[j],
        decreases n - i,
    {
        if a.get_char(i) != b.get_char(i) {
            return false;
        }
        i = i + 1;
    }
    proof {
        assert(a@ =~= b@);
    }
    true
}

/// What `main` resolves from the command line and the environment before any
/// protocol runs: the program's own name, the requested problem with its
/// remaining arguments, and the address to bind.
pub struct Context {
    pub program_name: String,
    pub problem: Option<String>,
    pub problem_arguments: VecDeque<String>,
    pub bind_address: String,
}

impl Context {
    /// Splits the argument list: the program name first, then the problem if
    /// one was named, then whatever is left for that problem.
    pub fn new(mut args: VecDeque<String>, bind_address: String) -> (r: Context)
        requires
            args@.len() >= 1,
        ensures
            r.program_name == args@[0],
            r.problem == (if args@.len() >= 2 {
                Some(args@[1])
            } else {
                None::<String>
            }),
            r.problem_arguments@ == (if args@.len() >= 2 {
                args@.skip(2)
            } else {
                Seq::<String>::empty()
            }),
            r.bind_address == bind_address,
    {
        let ghost all = args@;
        let program_name = args.pop_front().unwrap();
        let problem = args.pop_front();
        let problem_arguments = args;
        proof {
            if all.len() >= 2 {
                assert(problem_arguments@ =~= all.skip(2));
            } else {
                assert(problem_arguments@ =~= Seq::<String>::empty());
            }
        }
        Context { program_name, problem, problem_arguments, bind_address }
    }
}

/// The protocol servers on offer.
#[derive(Clone, Copy, PartialEq, Eq, Structural, Debug)]
pub enum Problem {
    /// The echo server.
    SmokeTest,
    /// The line-delimited JSON primality service.
    PrimeTime,
    /// The binary range-aggregation service.
    MeansToAnEnd,
    /// The chat relay.
    BudgetChat,
}

/// Resolves a requested problem name to the protocol that serves it.
pub fn problem_for_name(name: &str) -> (r: Option<Problem>)
    ensures
        r == (if name@ == "smoke_test"@ {
            Some(Problem::SmokeTest)
        } else if name@ == "prime_time"@ {
            Some(Problem::PrimeTime)
        } else if name@ == "means_to_an_end"@ {
            Some(Problem::MeansToAnEnd)
        } else if name@ == "budget_chat"@ {
            Some(Problem::BudgetChat)
        } else {
            None::<Problem>
        }),
{
    if str_eq(name, "smoke_test") {
        Some(Problem::SmokeTest)
    } else if str_eq(name, "prime_time") {
        Some(Problem::PrimeTime)
    } else if str_eq(name, "means_to_an_end") {
        Some(Problem::MeansToAnEnd)
    } else if str_eq(name, "budget_chat") {
        Some(Problem::BudgetChat)
    } else {
        None
    }
}

} // verus!
