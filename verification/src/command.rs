//! The calls of host utilities that the library asks its caller to make.

use crate::text::texts;
use vstd::prelude::*;

verus! {

/// One call of a host utility: the program and its arguments.
#[derive(Debug, PartialEq, Eq)]
pub struct Command {
    pub program: String,
    pub args: Vec<String>,
}

/// A call of a host utility, as plain values.
pub struct CommandView {
    pub program: Seq<char>,
    pub args: Seq<Seq<char>>,
}

impl View for Command {
    type V = CommandView;

    open spec fn view(&self) -> CommandView {
        CommandView { program: self.program@, args: texts(self.args@) }
    }
}

/// The arguments of a call, each after a space.
pub open spec fn spaced(args: Seq<Seq<char>>) -> Seq<char>
    decreases args.len(),
{
    if args.len() == 0 {
        Seq::<char>::empty()
    } else {
        spaced(args.drop_last()) + " "@ + args.last()
    }
}

impl CommandView {
    /// The call as one line: the program and the arguments with a space
    /// between each two.
    pub open spec fn line(self) -> Seq<char> {
        self.program + spaced(self.args)
    }
}

/// The call of `program` with up to four arguments, as plain values.
pub open spec fn call(program: Seq<char>, args: Seq<Seq<char>>) -> CommandView {
    CommandView { program, args }
}

impl Command {
    /// The call of `program` with the arguments `args`.
    pub fn new(program: &str, args: Vec<String>) -> (r: Command)
        ensures
            r@ == call(program@, texts(args@)),
    {
        Command { program: String::from_str(program), args }
    }

    /// The call as one line.
    pub fn line(&self) -> (r: String)
        ensures
            r@ == self@.line(),
    {
        let mut s = self.program.clone();
        let mut i: usize = 0;
        assert(self@.args.subrange(0, 0) =~= Seq::<Seq<char>>::empty());
        while i < self.args.len()
            invariant
                i <= self.args@.len(),
                s@ == self.program@ + spaced(self@.args.subrange(0, i as int)),
            decreases self.args@.len() - i,
        {
            s.append(" ");
            s.append(self.args[i].as_str());
            proof {
                let next = self@.args.subrange(0, i + 1);
                assert(next.drop_last() =~= self@.args.subrange(0, i as int));
                assert(next.last() == self.args@[i as int]@);
                assert(s@ =~= self.program@ + spaced(next));
            }
            i = i + 1;
        }
        assert(self@.args.subrange(0, self.args@.len() as int) =~= self@.args);
        s
    }
}

/// A list of one text.
pub fn args1(a: &str) -> (r: Vec<String>)
    ensures
        texts(r@) == seq![a@],
{
    let mut v: Vec<String> = Vec::new();
    v.push(String::from_str(a));
    assert(texts(v@) =~= seq![a@]);
    v
}

/// A list of two texts.
pub fn args2(a: &str, b: &str) -> (r: Vec<String>)
    ensures
        texts(r@) == seq![a@, b@],
{
    let mut v: Vec<String> = Vec::new();
    v.push(String::from_str(a));
    v.push(String::from_str(b));
    assert(texts(v@) =~= seq![a@, b@]);
    v
}

/// A list of three texts.
pub fn args3(a: &str, b: &str, c: &str) -> (r: Vec<String>)
    ensures
        texts(r@) == seq![a@, b@, c@],
{
    let mut v: Vec<String> = Vec::new();
    v.push(String::from_str(a));
    v.push(String::from_str(b));
    v.push(String::from_str(c));
    assert(texts(v@) =~= seq![a@, b@, c@]);
    v
}

/// A list of four texts.
pub fn args4(a: &str, b: &str, c: &str, d: &str) -> (r: Vec<String>)
    ensures
        texts(r@) == seq![a@, b@, c@, d@],
{
    let mut v: Vec<String> = Vec::new();
    v.push(String::from_str(a));
    v.push(String::from_str(b));
    v.push(String::from_str(c));
    v.push(String::from_str(d));
    assert(texts(v@) =~= seq![a@, b@, c@, d@]);
    v
}

/// A copy of a list of texts.
pub fn copy_texts(v: &Vec<String>) -> (r: Vec<String>)
    ensures
        texts(r@) == texts(v@),
{
    let mut out: Vec<String> = Vec::new();
    let mut i: usize = 0;
    while i < v.len()
        invariant
            i <= v@.len(),
            out@.len() == i,
            forall|j: int| 0 <= j < i ==> out@[j]@ == v@[j]@,
        decreases v@.len() - i,
    {
        out.push(v[i].clone());
        i = i + 1;
    }
    assert(texts(out@) =~= texts(v@));
    out
}

impl Clone for Command {
    fn clone(&self) -> (r: Command)
        ensures
            r@ == self@,
    {
        Command { program: self.program.clone(), args: copy_texts(&self.args) }
    }
}

/// A call to make, and what its failure means: with a message the failure
/// ends the work with that error, without one it is only noted.
#[derive(Debug, PartialEq, Eq)]
pub struct Step {
    pub command: Command,
    pub failure: Option<String>,
}

/// A call to make and what its failure means, as plain values.
pub struct StepView {
    pub command: CommandView,
    pub failure: Option<Seq<char>>,
}

impl View for Step {
    type V = StepView;

    open spec fn view(&self) -> StepView {
        StepView {
            command: self.command@,
            failure: match self.failure {
                Some(s) => Some(s@),
                None => None,
            },
        }
    }
}

/// The views of a list of steps.
pub open spec fn step_views(steps: Seq<Step>) -> Seq<StepView> {
    Seq::new(steps.len(), |i: int| steps[i]@)
}

/// A call whose failure ends the work with the error `failure`.
pub open spec fn fatal(command: CommandView, failure: Seq<char>) -> StepView {
    StepView { command, failure: Some(failure) }
}

/// A call whose failure is only noted.
pub open spec fn tolerated(command: CommandView) -> StepView {
    StepView { command, failure: None }
}

impl Step {
    /// A call whose failure ends the work with the error `failure`.
    pub fn fatal(command: Command, failure: &str) -> (r: Step)
        ensures
            r@ == fatal(command@, failure@),
    {
        Step { command, failure: Some(String::from_str(failure)) }
    }

    /// A call whose failure is only noted.
    pub fn tolerated(command: Command) -> (r: Step)
        ensures
            r@ == tolerated(command@),
    {
        Step { command, failure: None }
    }
}

} // verus!
