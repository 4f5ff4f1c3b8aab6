//! One external command: its exact argument vector, the captured outcome of
//! running it, and the uniform interpretation of that outcome.

use vstd::prelude::*;

use crate::errors::Error;
use crate::render::join_with_spaces;
use crate::render::joined;

verus! {

/// A fully-formed external command invocation: program name plus argument
/// vector. The library builds these; a driver runs them.
#[derive(Debug)]
pub struct Invocation {
    pub program: String,
    pub args: Vec<String>,
}

/// The mathematical value of an invocation.
#[verifier::ext_equal]
pub struct InvocationModel {
    pub program: Seq<char>,
    pub args: Seq<Seq<char>>,
}

impl InvocationModel {
    /// The invocation shown as one line, program and arguments separated by
    /// single spaces, as it travels inside error values.
    pub open spec fn command_line(self) -> Seq<char> {
        joined(seq![self.program] + self.args)
    }
}

impl View for Invocation {
    type V = InvocationModel;

    open spec fn view(&self) -> InvocationModel {
        InvocationModel {
            program: self.program@,
            args: self.args@.map_values(|a: String| a@),
        }
    }
}

impl Invocation {
    /// Starts an invocation of the named program with no arguments yet.
    pub fn new(program: &str) -> (r: Self)
        ensures
            r@.program == program@,
            r@.args == Seq::<Seq<char>>::empty(),
    {
        let r = Invocation { program: program.to_owned(), args: Vec::new() };
        proof {
            assert(r@.args =~= Seq::<Seq<char>>::empty());
        }
        r
    }

    /// Appends one literal argument.
    pub fn arg(&mut self, a: &str)
        ensures
            final (self)@.program == old(self)@.program,
            final (self)@.args == old(self)@.args.push(a@),
    {
        self.args.push(a.to_owned());
        proof {
            assert(self@.args =~= old(self)@.args.push(a@));
        }
    }

    /// Appends one owned argument.
    pub fn arg_string(&mut self, a: String)
        ensures
            final (self)@.program == old(self)@.program,
            final (self)@.args == old(self)@.args.push(a@),
    {
        self.args.push(a);
        proof {
            assert(self@.args =~= old(self)@.args.push(self@.args.last()));
        }
    }

    /// Renders the invocation as the single line operators see in errors.
    pub fn command_line(&self) -> (r: String)
        ensures
            r@ == self@.command_line(),
    {
        let mut parts: Vec<String> = Vec::new();
        parts.push(self.program.clone());
        proof {
            assert(parts@.map_values(|p: String| p@) =~= seq![self.program@] + self@.args.take(0));
        }
        let mut i: usize = 0;
        while i < self.args.len()
            invariant
                i <= self.args@.len(),
                parts@.map_values(|p: String| p@) == seq![self.program@] + self@.args.take(
                    i as int,
                ),
            decreases self.args@.len() - i,
        {
            let ghost pre = parts@;
            let elem: String = self.args[i].clone();
            proof {
                assert(elem@ == self.args@[i as int]@);
            }
            parts.push(elem);
            proof {
                assert(self@.args[i as int] == self.args@[i as int]@);
                assert(parts@ == pre.push(parts@[pre.len() as int]));
                let lhs = parts@.map_values(|p: String| p@);
                let rhs = seq![self.program@] + self@.args.take(i as int + 1);
                let mid = seq![self.program@] + self@.args.take(i as int);
                assert(parts@.len() == pre.len() + 1);
                assert(self@.args.len() == self.args@.len());
                assert(i as int + 1 <= self@.args.len());
                assert(self@.args.take(i as int + 1).len() == i as int + 1);
                assert(pre.map_values(|p: String| p@).len() == pre.len());
                assert(pre.len() == i as int + 1);
                assert(lhs.len() == rhs.len());
                assert forall|idx: int| 0 <= idx < lhs.len() implies lhs[idx] == rhs[idx] by {
                    assert(lhs[idx] == parts@[idx]@);
                    if idx < pre.len() {
                        assert(parts@[idx] == pre[idx]);
                        assert(pre.map_values(|p: String| p@)[idx] == pre[idx]@);
                        assert(pre[idx]@ == mid[idx]);
                        if idx == 0 {
                            assert(rhs[0] == self.program@);
                            assert(mid[0] == self.program@);
                        } else {
                            assert(mid[idx] == self@.args.take(i as int)[idx - 1]);
                            assert(self@.args.take(i as int)[idx - 1] == self@.args[idx - 1]);
                            assert(rhs[idx] == self@.args.take(i as int + 1)[idx - 1]);
                            assert(self@.args.take(i as int + 1)[idx - 1] == self@.args[idx - 1]);
                        }
                    } else {
                        assert(idx == pre.len());
                        assert(parts@[idx]@ == self.args@[i as int]@);
                        assert(rhs[idx] == self@.args.take(i as int + 1)[idx - 1]);
                        assert(self@.args.take(i as int + 1)[idx - 1] == self@.args[i as int]);
                    }
                }
                assert(lhs =~= rhs);
            }
            i = i + 1;
        }
        proof {
            assert(self@.args.take(self.args@.len() as int) =~= self@.args);
        }
        join_with_spaces(&parts)
    }
}

/// The captured outcome of running one invocation, as the driver hands it
/// back: whether the process could be spawned, whether its exit status was
/// zero, and each captured stream decoded as text (`None` where the bytes
/// were not valid text).
#[derive(Debug)]
pub struct RawOutcome {
    pub spawned: bool,
    pub success: bool,
    pub stdout: Option<String>,
    pub stderr: Option<String>,
}

/// Interprets the captured outcome of an invocation: a spawn failure, an
/// undecodable stream and a non-zero exit each surface as their own error
/// kind, carrying the exact command line and both streams; success hands the
/// captured standard output through.
pub fn execute(invocation: &Invocation, outcome: RawOutcome) -> (r: Result<String, Error>)
    ensures
        r is Ok <==> (outcome.spawned && outcome.stdout is Some && outcome.stderr is Some
            && outcome.success),
        match r {
            Ok(s) => outcome.stdout matches Some(out) && s@ == out@,
            Err(e) => match e {
                Error::ProcessExecution { command } => {
                    &&& !outcome.spawned
                    &&& command@ == invocation@.command_line()
                },
                Error::ParseStream { stream } => {
                    &&& outcome.spawned
                    &&& (outcome.stdout is None && stream@ == "stdout"@) || (outcome.stdout
                        is Some && outcome.stderr is None && stream@ == "stderr"@)
                },
                Error::CommandExecutionFailed { command, stdout, stderr } => {
                    &&& outcome.spawned
                    &&& !outcome.success
                    &&& command@ == invocation@.command_line()
                    &&& outcome.stdout matches Some(out) && stdout@ == out@
                    &&& outcome.stderr matches Some(err) && stderr@ == err@
                },
                _ => false,
            },
        },
{
    if !outcome.spawned {
        return Err(Error::ProcessExecution { command: invocation.command_line() });
    }
    let stdout = match outcome.stdout {
        Some(s) => s,
        None => {
            return Err(Error::ParseStream { stream: "stdout".to_owned() });
        },
    };
    let stderr = match outcome.stderr {
        Some(s) => s,
        None => {
            return Err(Error::ParseStream { stream: "stderr".to_owned() });
        },
    };
    if !outcome.success {
        return Err(
            Error::CommandExecutionFailed { command: invocation.command_line(), stdout, stderr },
        );
    }
    Ok(stdout)
}

} // verus!
