//! Command lines, as plain values: the program, its arguments and the environment
//! variables to set. Nothing here starts a process.

use vstd::prelude::*;
use vstd::string::StringExecFns;

verus! {

/// A command line.
#[derive(Debug, Clone)]
pub struct Invocation {
    pub program: String,
    pub args: Vec<String>,
    /// The variables to set, in the order in which to set them.
    pub envs: Vec<(String, String)>,
}

/// What an [`Invocation`] holds, as a mathematical value.
pub struct InvocationView {
    pub program: Seq<char>,
    pub args: Seq<Seq<char>>,
    pub envs: Seq<(Seq<char>, Seq<char>)>,
}

impl InvocationView {
    /// The command line with one more argument.
    pub open spec fn arg(self, arg: Seq<char>) -> InvocationView {
        InvocationView { args: self.args.push(arg), ..self }
    }

    /// The command line with more arguments.
    pub open spec fn args(self, args: Seq<Seq<char>>) -> InvocationView {
        InvocationView { args: self.args + args, ..self }
    }

    /// The command line with one more variable to set.
    pub open spec fn env(self, key: Seq<char>, value: Seq<char>) -> InvocationView {
        InvocationView { envs: self.envs.push((key, value)), ..self }
    }
}

/// The texts of a list of strings.
pub open spec fn texts(list: Seq<String>) -> Seq<Seq<char>> {
    Seq::new(list.len(), |i: int| list[i]@)
}

impl View for Invocation {
    type V = InvocationView;

    open spec fn view(&self) -> InvocationView {
        InvocationView {
            program: self.program@,
            args: texts(self.args@),
            envs: Seq::new(self.envs@.len(), |i: int| (self.envs@[i].0@, self.envs@[i].1@)),
        }
    }
}

impl Invocation {
    /// The command line of `program` alone.
    pub fn new(program: &str) -> (r: Invocation)
        ensures
            r@ == (InvocationView { program: program@, args: Seq::empty(), envs: Seq::empty() }),
    {
        let r = Invocation {
            program: String::from_str(program),
            args: Vec::new(),
            envs: Vec::new(),
        };
        proof {
            assert(r@.args =~= Seq::empty());
            assert(r@.envs =~= Seq::empty());
        }
        r
    }

    /// Adds one argument.
    pub fn arg(self, arg: &str) -> (r: Invocation)
        ensures
            r@ == self@.arg(arg@),
    {
        let mut r = self;
        r.args.push(String::from_str(arg));
        proof {
            assert(r@.args =~= self@.args.push(arg@));
            assert(r@.envs =~= self@.envs);
        }
        r
    }

    /// Adds the arguments of `args`, in order.
    pub fn args(self, args: &[String]) -> (r: Invocation)
        ensures
            r@ == self@.args(texts(args@)),
    {
        let mut r = self;
        let n = args.len();
        let mut i: usize = 0;
        proof {
            assert(r@.args =~= self@.args + texts(args@.take(0)));
        }
        while i < n
            invariant
                n == args@.len(),
                i <= n,
                r.program == self.program,
                r.envs == self.envs,
                texts(r.args@) == self@.args + texts(args@.take(i as int)),
            decreases n - i,
        {
            let ghost before = r.args@;
            r.args.push(args[i].clone());
            proof {
                assert(texts(r.args@) =~= texts(before).push(args@[i as int]@));
                assert(texts(args@.take(i + 1)) =~= texts(args@.take(i as int)).push(
                    args@[i as int]@,
                ));
                assert(texts(r.args@) =~= self@.args + texts(args@.take(i + 1)));
            }
            i += 1;
        }
        proof {
            assert(args@.take(n as int) =~= args@);
        }
        r
    }

    /// Adds one variable to set.
    pub fn env(self, key: &str, value: &str) -> (r: Invocation)
        ensures
            r@ == self@.env(key@, value@),
    {
        let mut r = self;
        r.envs.push((String::from_str(key), String::from_str(value)));
        proof {
            assert(r@.envs =~= self@.envs.push((key@, value@)));
            assert(r@.args =~= self@.args);
        }
        r
    }
}

} // verus!
