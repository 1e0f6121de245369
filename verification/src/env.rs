//! Conditions on environment variables, judged on a snapshot of the
//! environment.

use crate::kinds::{any_of, candidates, lemma_settled_with_error, settle, settled, with_error};
use vstd::prelude::*;
use vstd::utf8::{encode_utf8, encode_utf8_decode_utf8};

verus! {

/// The environment at one moment: the variables that are set, each with its
/// value, both as raw bytes.
#[derive(Debug)]
pub struct EnvSnapshot {
    entries: Vec<(Vec<u8>, Vec<u8>)>,
}

/// The variables that a list of settings leaves set: a later setting of a name
/// replaces an earlier one.
spec fn bindings(entries: Seq<(Vec<u8>, Vec<u8>)>) -> Map<Seq<u8>, Seq<u8>>
    decreases entries.len(),
{
    if entries.len() == 0 {
        Map::empty()
    } else {
        bindings(entries.drop_last()).insert(entries.last().0@, entries.last().1@)
    }
}

impl View for EnvSnapshot {
    type V = Map<Seq<u8>, Seq<u8>>;

    closed spec fn view(&self) -> Map<Seq<u8>, Seq<u8>> {
        bindings(self.entries@)
    }
}

/// Whether two byte strings are the same.
pub fn same_bytes(a: &[u8], b: &[u8]) -> (r: bool)
    ensures
        r == (a@ == b@),
{
    if a.len() != b.len() {
        return false;
    }
    let mut i: usize = 0;
    while i < a.len()
        invariant
            a@.len() == b@.len(),
            i <= a@.len(),
            forall|k: int| 0 <= k < i ==> a@[k] == b@[k],
        decreases a@.len() - i,
    {
        if a[i] != b[i] {
            return false;
        }
        i = i + 1;
    }
    assert(a@ =~= b@);
    true
}

impl EnvSnapshot {
    /// The environment in which no variable is set.
    pub fn new() -> (env: EnvSnapshot)
        ensures
            env@ == Map::<Seq<u8>, Seq<u8>>::empty(),
    {
        EnvSnapshot { entries: Vec::new() }
    }

    /// Sets the variable `name` to `value`, in place of any value it had.
    pub fn set(&mut self, name: Vec<u8>, value: Vec<u8>)
        ensures
            final(self)@ == old(self)@.insert(name@, value@),
    {
        let ghost before = self.entries@;
        self.entries.push((name, value));
        assert(self.entries@.drop_last() =~= before);
    }

    /// The value of the variable `name`, if it is set.
    pub fn get(&self, name: &[u8]) -> (r: Option<&Vec<u8>>)
        ensures
            match r {
                Some(value) => self@.contains_key(name@) && self@[name@] == value@,
                None => !self@.contains_key(name@),
            },
    {
        let mut i: usize = self.entries.len();
        assert(self.entries@.take(i as int) =~= self.entries@);
        while i > 0
            invariant
                i <= self.entries@.len(),
                self@.contains_key(name@) == bindings(self.entries@.take(i as int)).contains_key(
                    name@,
                ),
                self@.contains_key(name@) ==> self@[name@] == bindings(
                    self.entries@.take(i as int),
                )[name@],
            decreases i,
        {
            assert(self.entries@.take(i as int).drop_last() =~= self.entries@.take(i - 1));
            i = i - 1;
            if same_bytes(self.entries[i].0.as_slice(), name) {
                return Some(&self.entries[i].1);
            }
        }
        None
    }

    /// Whether the variable `name` is set.
    pub fn is_set(&self, name: &[u8]) -> (r: bool)
        ensures
            r == self@.contains_key(name@),
    {
        self.get(name).is_some()
    }
}

/// A requirement on one environment variable: its name and the value that it
/// is to have.
pub struct EnvRequirement {
    pub name: Seq<char>,
    pub value: Seq<char>,
}

/// The requirement that `text` writes down as `NAME=VALUE`: the name ends at
/// the first `=` and may not be empty; `None` where `text` is no such
/// requirement.
pub open spec fn split_requirement(text: Seq<char>) -> Option<EnvRequirement> {
    match text.index_of_first('=') {
        Some(at) => if at > 0 {
            Some(EnvRequirement { name: text.take(at), value: text.skip(at + 1) })
        } else {
            None
        },
        None => None,
    }
}

/// What holds of every requirement: the name is not empty and has no `=` in
/// it.
pub open spec fn well_formed(req: EnvRequirement) -> bool {
    req.name.len() > 0 && !req.name.contains('=')
}

/// What is said of a `text` that is no requirement.
pub open spec fn refusal(text: Seq<char>) -> Seq<char> {
    if text.len() == 0 || text[0] == '=' {
        "Invalid environment variable name"@
    } else {
        "Invalid environment variable requirement, expecting: "@ + text + "=VALUE"@
    }
}

/// Whether the environment `env` meets `req`: the variable is set, and its
/// value is, byte for byte, the encoding of the required one.
pub open spec fn holds_in(req: EnvRequirement, env: Map<Seq<u8>, Seq<u8>>) -> bool {
    env.contains_key(encode_utf8(req.name)) && env[encode_utf8(req.name)] == encode_utf8(
        req.value,
    )
}

/// What one candidate of the form `NAME=VALUE` comes to in `env`.
pub open spec fn requirement_outcome(text: Seq<char>, env: Map<Seq<u8>, Seq<u8>>) -> Result<
    bool,
    Seq<char>,
> {
    match split_requirement(text) {
        Some(req) => Ok(holds_in(req, env)),
        None => Err(refusal(text)),
    }
}

/// Whether one of `names` is set in `env`, or no name was given.
pub open spec fn some_exists(names: Seq<Seq<char>>, env: Map<Seq<u8>, Seq<u8>>) -> bool {
    names.len() == 0 || exists|i: int|
        0 <= i < names.len() && env.contains_key(encode_utf8(#[trigger] names[i]))
}

/// `text` splits into `name` and `value` exactly when the name is not empty,
/// holds no `=`, and the text is the name, a `=` and the value.
pub proof fn lemma_split_requirement(text: Seq<char>, name: Seq<char>, value: Seq<char>)
    ensures
        split_requirement(text) == Some(EnvRequirement { name, value }) <==> (name.len() > 0
            && !name.contains('=') && text == name + seq!['='] + value),
{
    text.index_of_first_ensures('=');
    let joined = name + seq!['='] + value;
    if split_requirement(text) == Some(EnvRequirement { name, value }) {
        assert(text =~= joined);
    }
    if name.len() > 0 && !name.contains('=') && text == joined {
        let n = name.len() as int;
        assert(text[n] == '=');
        assert(text.take(n) =~= name);
        assert(text.skip(n + 1) =~= value);
    }
}

/// The comparison of values is exact: in one environment a variable meets a
/// requirement for one value only.
pub proof fn lemma_value_is_exact(
    name: Seq<char>,
    first: Seq<char>,
    second: Seq<char>,
    env: Map<Seq<u8>, Seq<u8>>,
)
    requires
        holds_in(EnvRequirement { name, value: first }, env),
        holds_in(EnvRequirement { name, value: second }, env),
    ensures
        first == second,
{
    encode_utf8_decode_utf8(first);
    encode_utf8_decode_utf8(second);
}

/// A parsed requirement on an environment variable, such as
/// `CARGO_HOME=~/.cargo`.
#[derive(Debug)]
pub struct EnvVarReq<'a> {
    name: &'a str,
    value: &'a str,
}

impl<'a> View for EnvVarReq<'a> {
    type V = EnvRequirement;

    closed spec fn view(&self) -> EnvRequirement {
        EnvRequirement { name: self.name@, value: self.value@ }
    }
}

impl<'a> EnvVarReq<'a> {
    #[verifier::type_invariant]
    spec fn inv(self) -> bool {
        well_formed(self@)
    }

    /// Parses and validates a requirement written as `NAME=VALUE`.
    pub fn parse(var: &'a str) -> (r: Result<EnvVarReq<'a>, String>)
        ensures
            match r {
                Ok(req) => split_requirement(var@) == Some(req@) && well_formed(req@),
                Err(message) => split_requirement(var@) is None && message@ == refusal(var@),
            },
    {
        let len = var.unicode_len();
        let mut at: usize = 0;
        while at < len && var.get_char(at) != '='
            invariant
                len == var@.len(),
                at <= len,
                forall|k: int| 0 <= k < at ==> var@[k] != '=',
            decreases len - at,
        {
            at = at + 1;
        }
        proof {
            var@.index_of_first_ensures('=');
        }
        if at == 0 {
            return Err("Invalid environment variable name".to_owned());
        }
        if at == len {
            let mut message = "Invalid environment variable requirement, expecting: ".to_owned();
            message.append(var);
            message.append("=VALUE");
            return Err(message);
        }
        Ok(EnvVarReq { name: var.substring_char(0, at), value: var.substring_char(at + 1, len) })
    }

    /// The variable's name.
    pub fn name(&self) -> (name: &'a str)
        ensures
            name@ == self@.name,
            well_formed(self@),
    {
        proof {
            use_type_invariant(self);
        }
        self.name
    }

    /// The value that the variable is to have.
    pub fn value(&self) -> (value: &'a str)
        ensures
            value@ == self@.value,
    {
        self.value
    }

    /// Whether the environment `env` meets the requirement.
    pub fn matches(&self, env: &EnvSnapshot) -> (r: bool)
        ensures
            r == holds_in(self@, env@),
    {
        match env.get(self.name.as_bytes()) {
            Some(found) => same_bytes(found.as_slice(), self.value.as_bytes()),
            None => false,
        }
    }
}

/// Whether any of the variables named in `vars` is set in `env`; true where
/// no names were given.
pub fn any_env_vars_exist(vars: &Option<Vec<String>>, env: &EnvSnapshot) -> (r: bool)
    ensures
        r == some_exists(candidates(*vars), env@),
{
    let ghost names = candidates(*vars);
    let mut found: Vec<bool> = Vec::new();
    match vars {
        None => {},
        Some(items) => {
            let mut i: usize = 0;
            while i < items.len()
                invariant
                    i <= items@.len(),
                    vars == Some(*items),
                    names == candidates(*vars),
                    found@.len() == i,
                    forall|k: int|
                        0 <= k < i ==> #[trigger] found@[k] == env@.contains_key(
                            encode_utf8(names[k]),
                        ),
                decreases items@.len() - i,
            {
                found.push(env.is_set(items[i].as_str().as_bytes()));
                i = i + 1;
            }
        },
    }
    proof {
        if some_exists(names, env@) && names.len() > 0 {
            let i = choose|i: int|
                0 <= i < names.len() && env@.contains_key(encode_utf8(#[trigger] names[i]));
            assert(found@[i]);
        }
    }
    any_of(&found)
}

/// What each candidate of `texts` comes to in `env`.
pub open spec fn requirement_outcomes(texts: Seq<Seq<char>>, env: Map<Seq<u8>, Seq<u8>>) -> Seq<
    Result<bool, Seq<char>>,
> {
    texts.map_values(|text: Seq<char>| requirement_outcome(text, env))
}

/// Whether any of the requirements in `vars`, each written as `NAME=VALUE`, is
/// met in `env`; true where none were given. A candidate that is no
/// requirement is an error, whatever the others come to: the first such
/// candidate decides what is said.
pub fn matches_any_env_vars(vars: &Option<Vec<String>>, env: &EnvSnapshot) -> (r: Result<
    bool,
    String,
>)
    ensures
        match settled(requirement_outcomes(candidates(*vars), env@)) {
            Ok(holds) => r == Ok::<bool, String>(holds),
            Err(message) => r matches Err(said) && said@ == message,
        },
{
    let ghost texts = candidates(*vars);
    let ghost wanted = requirement_outcomes(texts, env@);
    let mut outcomes: Vec<Result<bool, String>> = Vec::new();
    match vars {
        None => {},
        Some(items) => {
            let mut i: usize = 0;
            while i < items.len()
                invariant
                    i <= items@.len(),
                    vars == Some(*items),
                    texts == candidates(*vars),
                    wanted == requirement_outcomes(texts, env@),
                    outcomes@.len() == i,
                    forall|k: int|
                        0 <= k < i ==> wanted[k] == with_error(
                            #[trigger] outcomes@[k],
                            |said: String| said@,
                        ),
                decreases items@.len() - i,
            {
                let outcome = match EnvVarReq::parse(items[i].as_str()) {
                    Ok(req) => Ok(req.matches(env)),
                    Err(said) => Err(said),
                };
                outcomes.push(outcome);
                i = i + 1;
            }
        },
    }
    proof {
        lemma_settled_with_error(outcomes@, wanted, |said: String| said@);
    }
    settle(outcomes)
}

} // verus!
