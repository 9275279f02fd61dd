//! The build flags of one run and the argument tokens that they put on every
//! build command.

use crate::text::texts;
use vstd::prelude::*;
use vstd::string::StringExecFns;

verus! {

/// The flags that a run forwards to every build command.
#[derive(Clone, Debug, PartialEq, Eq)]
pub struct BuildFlags {
    pub release: bool,
    pub frozen: bool,
    pub manifest_path: Option<String>,
    pub target_dir: Option<String>,
    pub bin: Option<String>,
    pub lib: Option<String>,
    pub target: Option<String>,
}

/// The token of a boolean flag, where it is set.
pub open spec fn switch_tokens(flag: Seq<char>, set: bool) -> Seq<Seq<char>> {
    if set {
        seq![flag]
    } else {
        Seq::empty()
    }
}

/// The flag token and the value token of a flag that takes a value, where it
/// was given one.
pub open spec fn value_tokens(flag: Seq<char>, value: Option<String>) -> Seq<Seq<char>> {
    match value {
        Some(given) => seq![flag, given@],
        None => Seq::empty(),
    }
}

impl BuildFlags {
    /// The tokens that these flags forward: the boolean flags first, then
    /// the flags with values, each followed by its value.
    pub open spec fn tokens(self) -> Seq<Seq<char>> {
        switch_tokens("--release"@, self.release) + switch_tokens("--frozen"@, self.frozen)
            + value_tokens("--manifest-path"@, self.manifest_path) + value_tokens(
            "--target-dir"@,
            self.target_dir,
        ) + value_tokens("--bin"@, self.bin) + value_tokens("--lib"@, self.lib) + value_tokens(
            "--target"@,
            self.target,
        )
    }

    /// Builds the argument tokens that every build command of the run ends
    /// with.
    pub fn build_args(&self) -> (args: Vec<String>)
        ensures
            texts(args@) == self.tokens(),
    {
        let mut args: Vec<String> = Vec::new();
        assert(texts(args@) =~= Seq::empty());
        push_switch(&mut args, "--release", self.release);
        push_switch(&mut args, "--frozen", self.frozen);
        push_value(&mut args, "--manifest-path", &self.manifest_path);
        push_value(&mut args, "--target-dir", &self.target_dir);
        push_value(&mut args, "--bin", &self.bin);
        push_value(&mut args, "--lib", &self.lib);
        push_value(&mut args, "--target", &self.target);
        args
    }
}

/// Appends one token.
pub fn push_token(tokens: &mut Vec<String>, token: &str)
    ensures
        texts(final(tokens)@) == texts(old(tokens)@).push(token@),
{
    tokens.push(String::from_str(token));
    assert(texts(tokens@) =~= texts(old(tokens)@).push(token@));
}

/// Appends the token of a boolean flag where it is set.
pub fn push_switch(tokens: &mut Vec<String>, flag: &str, set: bool)
    ensures
        texts(final(tokens)@) == texts(old(tokens)@) + switch_tokens(flag@, set),
{
    if set {
        push_token(tokens, flag);
    }
    assert(texts(tokens@) =~= texts(old(tokens)@) + switch_tokens(flag@, set));
}

/// Appends the tokens of a flag with a value where it was given one.
pub fn push_value(tokens: &mut Vec<String>, flag: &str, value: &Option<String>)
    ensures
        texts(final(tokens)@) == texts(old(tokens)@) + value_tokens(flag@, *value),
{
    match value {
        Some(given) => {
            push_token(tokens, flag);
            push_token(tokens, given.as_str());
        },
        None => {},
    }
    assert(texts(tokens@) =~= texts(old(tokens)@) + value_tokens(flag@, *value));
}

} // verus!
