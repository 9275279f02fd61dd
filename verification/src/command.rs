//! The build command of one dependency and the judgement of how it ended.

use crate::error::Failure;
use crate::text::texts;
use vstd::prelude::*;
use vstd::string::StringExecFns;

verus! {

/// One call of the external build command: the program, its arguments and
/// the environment that it runs in.
#[derive(Clone, Debug, PartialEq, Eq)]
pub struct Invocation {
    pub program: String,
    pub args: Vec<String>,
    pub env: Vec<(String, String)>,
}

/// The characters of an `Invocation`.
pub struct InvocationView {
    pub program: Seq<char>,
    pub args: Seq<Seq<char>>,
    pub env: Seq<(Seq<char>, Seq<char>)>,
}

/// The characters of each variable and value of an environment.
pub open spec fn pairs(env: Seq<(String, String)>) -> Seq<(Seq<char>, Seq<char>)> {
    env.map_values(|pair: (String, String)| (pair.0@, pair.1@))
}

impl View for Invocation {
    type V = InvocationView;

    open spec fn view(&self) -> InvocationView {
        InvocationView { program: self.program@, args: texts(self.args@), env: pairs(self.env@) }
    }
}

/// The command that builds the dependency `package`: `cargo build --package`
/// with the dependency's identifier, then the forwarded arguments, in the
/// given environment.
pub open spec fn build_command(
    package: Seq<char>,
    args: Seq<Seq<char>>,
    env: Seq<(Seq<char>, Seq<char>)>,
) -> InvocationView {
    InvocationView { program: "cargo"@, args: seq!["build"@, "--package"@, package] + args, env }
}

/// Copies a list of strings.
pub fn clone_texts(source: &Vec<String>) -> (copy: Vec<String>)
    ensures
        texts(copy@) == texts(source@),
{
    let mut copy: Vec<String> = Vec::new();
    let mut i: usize = 0;
    while i < source.len()
        invariant
            0 <= i <= source.len(),
            copy.len() == i,
            forall|k: int| 0 <= k < i ==> copy[k]@ == source[k]@,
        decreases source.len() - i,
    {
        copy.push(source[i].clone());
        i = i + 1;
    }
    assert(texts(copy@) =~= texts(source@));
    copy
}

/// Copies an environment.
pub fn clone_env(source: &Vec<(String, String)>) -> (copy: Vec<(String, String)>)
    ensures
        pairs(copy@) == pairs(source@),
{
    let mut copy: Vec<(String, String)> = Vec::new();
    let mut i: usize = 0;
    while i < source.len()
        invariant
            0 <= i <= source.len(),
            copy.len() == i,
            forall|k: int|
                0 <= k < i ==> copy[k].0@ == source[k].0@ && copy[k].1@ == source[k].1@,
        decreases source.len() - i,
    {
        let pair = &source[i];
        copy.push((pair.0.clone(), pair.1.clone()));
        i = i + 1;
    }
    assert(pairs(copy@) =~= pairs(source@));
    copy
}

/// Puts together the command that builds one dependency.
pub fn build_package(pkg_name: &str, args: &Vec<String>, env: &Vec<(String, String)>) -> (r:
    Invocation)
    ensures
        r@ == build_command(pkg_name@, texts(args@), pairs(env@)),
{
    let mut tokens: Vec<String> = Vec::new();
    tokens.push(String::from_str("build"));
    tokens.push(String::from_str("--package"));
    tokens.push(String::from_str(pkg_name));
    let mut i: usize = 0;
    while i < args.len()
        invariant
            0 <= i <= args.len(),
            tokens.len() == 3 + i,
            tokens[0]@ == "build"@,
            tokens[1]@ == "--package"@,
            tokens[2]@ == pkg_name@,
            forall|k: int| 0 <= k < i ==> tokens[3 + k]@ == args[k]@,
        decreases args.len() - i,
    {
        tokens.push(args[i].clone());
        i = i + 1;
    }
    let r = Invocation { program: String::from_str("cargo"), args: tokens, env: clone_env(env) };
    assert(r@.args =~= seq!["build"@, "--package"@, pkg_name@] + texts(args@));
    r
}

/// How the attempt to run one build command ended.
#[derive(Clone, Copy, Debug, PartialEq, Eq, Structural)]
pub enum ChildReport {
    /// The command could not be started.
    NotSpawned,
    /// The command was started but waiting for it failed.
    NotAwaited,
    /// The command ran to its end: whether it succeeded, and its exit
    /// status, which is missing where a signal ended it.
    Exited { success: bool, code: Option<i32> },
}

/// Whether a build command that ended as `report` lets the run go on, and
/// the failure that ends the run where it does not.
pub open spec fn verdict(report: ChildReport) -> Result<(), Failure> {
    match report {
        ChildReport::NotSpawned => Err(Failure::Spawn),
        ChildReport::NotAwaited => Err(Failure::Wait),
        ChildReport::Exited { success, code } => if success {
            Ok(())
        } else {
            match code {
                Some(status) => Err(Failure::ExitCode(status)),
                None => Err(Failure::Signal),
            }
        },
    }
}

/// Judges how a build command ended.
pub fn execute_command(report: ChildReport) -> (r: Result<(), Failure>)
    ensures
        r == verdict(report),
{
    match report {
        ChildReport::NotSpawned => Err(Failure::Spawn),
        ChildReport::NotAwaited => Err(Failure::Wait),
        ChildReport::Exited { success, code } => {
            if success {
                Ok(())
            } else {
                match code {
                    Some(status) => Err(Failure::ExitCode(status)),
                    None => Err(Failure::Signal),
                }
            }
        },
    }
}

} // verus!
