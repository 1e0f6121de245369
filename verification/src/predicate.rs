//! The predicate as a whole: the four kinds of condition, each of which must
//! hold.

use crate::env::{
    any_env_vars_exist, matches_any_env_vars, requirement_outcomes, some_exists,
    split_requirement, EnvSnapshot,
};
use crate::kinds::{candidates, lemma_first_failure, settled};
use crate::rustc::{lemma_version_ranges, some_channel, version_outcomes, CompilerInfo, RustCInfo};
use crate::version::parsed_requirement;
use vstd::prelude::*;

verus! {

/// The conditions under which the wrapped command is to run: for each kind,
/// the candidates given, or `None` where the kind was not asked for.
#[derive(Clone, Debug, PartialEq, Eq)]
pub struct PredicateSpec {
    /// Names of release channels.
    pub channels: Option<Vec<String>>,
    /// Version requirements.
    pub version_ranges: Option<Vec<String>>,
    /// Names of environment variables that are to be set.
    pub env_names: Option<Vec<String>>,
    /// Requirements on environment variables, each written as `NAME=VALUE`.
    pub env_requirements: Option<Vec<String>>,
}

/// Whether a kind was asked for with no candidate at all.
pub open spec fn is_blank(list: Option<Vec<String>>) -> bool {
    list matches Some(items) && items@.len() == 0
}

impl PredicateSpec {
    /// What the command line has to see to before a predicate is judged: at
    /// least one kind is asked for, and each kind asked for has a candidate.
    pub open spec fn wf(&self) -> bool {
        &&& self.channels is Some || self.version_ranges is Some || self.env_names is Some
            || self.env_requirements is Some
        &&& !is_blank(self.channels)
        &&& !is_blank(self.version_ranges)
        &&& !is_blank(self.env_names)
        &&& !is_blank(self.env_requirements)
    }

    /// Whether at least one kind is asked for, and each kind asked for has a
    /// candidate.
    pub fn is_well_formed(&self) -> (r: bool)
        ensures
            r == self.wf(),
    {
        (self.channels.is_some() || self.version_ranges.is_some() || self.env_names.is_some()
            || self.env_requirements.is_some()) && !blank(&self.channels) && !blank(
            &self.version_ranges,
        ) && !blank(&self.env_names) && !blank(&self.env_requirements)
    }
}

fn blank(list: &Option<Vec<String>>) -> (r: bool)
    ensures
        r == is_blank(*list),
{
    match list {
        Some(items) => items.len() == 0,
        None => false,
    }
}

/// Why a predicate could not be judged.
#[derive(Debug, PartialEq)]
pub enum PredicateParseError {
    /// A candidate is no requirement on an environment variable; the text
    /// says why.
    EnvRequirement(String),
    /// A candidate is no version requirement.
    VersionRange(semver::ReqParseError),
}

/// What a `PredicateParseError` stands for.
pub enum Refusal {
    EnvRequirement(Seq<char>),
    VersionRange(semver::ReqParseError),
}

impl View for PredicateParseError {
    type V = Refusal;

    open spec fn view(&self) -> Refusal {
        match self {
            PredicateParseError::EnvRequirement(said) => Refusal::EnvRequirement(said@),
            PredicateParseError::VersionRange(reason) => Refusal::VersionRange(*reason),
        }
    }
}

/// The four kinds together: a refusal among the requirements on environment
/// variables comes first, then one among the version requirements; without a
/// refusal the predicate holds exactly when every kind does.
pub open spec fn conjunction(
    channel: bool,
    versions: Result<bool, semver::ReqParseError>,
    present: bool,
    equals: Result<bool, Seq<char>>,
) -> Result<bool, Refusal> {
    match equals {
        Err(said) => Err(Refusal::EnvRequirement(said)),
        Ok(equal) => match versions {
            Err(reason) => Err(Refusal::VersionRange(reason)),
            Ok(version) => Ok(channel && version && present && equal),
        },
    }
}

/// Whether the predicate `spec` holds of the compiler `info` in the
/// environment `env`, or why it cannot be judged.
pub open spec fn verdict(spec: PredicateSpec, info: CompilerInfo, env: Map<Seq<u8>, Seq<u8>>)
    -> Result<bool, Refusal> {
    conjunction(
        some_channel(info.channel, candidates(spec.channels)),
        settled(version_outcomes(info.version, candidates(spec.version_ranges))),
        some_exists(candidates(spec.env_names), env),
        settled(requirement_outcomes(candidates(spec.env_requirements), env)),
    )
}

/// Combines the results of the four kinds of condition into one.
pub fn combine(
    channel: bool,
    versions: Result<bool, semver::ReqParseError>,
    present: bool,
    equals: Result<bool, String>,
) -> (r: Result<bool, PredicateParseError>)
    ensures
        match equals {
            Err(said) => r == Err::<bool, PredicateParseError>(
                PredicateParseError::EnvRequirement(said),
            ),
            Ok(equal) => match versions {
                Err(reason) => r == Err::<bool, PredicateParseError>(
                    PredicateParseError::VersionRange(reason),
                ),
                Ok(version) => r == Ok::<bool, PredicateParseError>(
                    channel && version && present && equal,
                ),
            },
        },
{
    match equals {
        Err(said) => Err(PredicateParseError::EnvRequirement(said)),
        Ok(equal) => match versions {
            Err(reason) => Err(PredicateParseError::VersionRange(reason)),
            Ok(version) => Ok(channel && version && present && equal),
        },
    }
}

/// Do all the conditions of `spec` hold of the compiler `info` and the
/// environment `env`?
pub fn options_match(spec: &PredicateSpec, info: &RustCInfo, env: &EnvSnapshot) -> (r: Result<
    bool,
    PredicateParseError,
>)
    ensures
        match r {
            Ok(holds) => verdict(*spec, info@, env@) == Ok::<bool, Refusal>(holds),
            Err(e) => verdict(*spec, info@, env@) == Err::<bool, Refusal>(e@),
        },
{
    let equals = matches_any_env_vars(&spec.env_requirements, env);
    let versions = info.matches_any_versions(&spec.version_ranges);
    let channel = info.matches_any_channels(&spec.channels);
    let present = any_env_vars_exist(&spec.env_names, env);
    combine(channel, versions, present, equals)
}

/// A kind of condition for which no candidate was given holds.
pub proof fn lemma_absent_kind_holds(info: CompilerInfo, env: Map<Seq<u8>, Seq<u8>>)
    ensures
        some_channel(info.channel, candidates(None)),
        settled(version_outcomes(info.version, candidates(None))) == Ok::<
            bool,
            semver::ReqParseError,
        >(true),
        some_exists(candidates(None), env),
        settled(requirement_outcomes(candidates(None), env)) == Ok::<bool, Seq<char>>(true),
{
}

/// Where no candidate is refused, the predicate holds exactly when each of
/// the four kinds does.
pub proof fn lemma_verdict_is_conjunction(
    spec: PredicateSpec,
    info: CompilerInfo,
    env: Map<Seq<u8>, Seq<u8>>,
)
    requires
        verdict(spec, info, env) is Ok,
    ensures
        verdict(spec, info, env) == Ok::<bool, Refusal>(
            some_channel(info.channel, candidates(spec.channels)) && settled(
                version_outcomes(info.version, candidates(spec.version_ranges)),
            ) == Ok::<bool, semver::ReqParseError>(true) && some_exists(
                candidates(spec.env_names),
                env,
            ) && settled(requirement_outcomes(candidates(spec.env_requirements), env)) == Ok::<
                bool,
                Seq<char>,
            >(true),
        ),
{
}

/// A candidate that is no version requirement, or no requirement on an
/// environment variable, leaves the predicate without a result, whatever the
/// other candidates and the other kinds are.
pub proof fn lemma_malformed_candidate_rejects(
    spec: PredicateSpec,
    info: CompilerInfo,
    env: Map<Seq<u8>, Seq<u8>>,
)
    ensures
        (exists|i: int|
            0 <= i < candidates(spec.version_ranges).len() && parsed_requirement(
                #[trigger] candidates(spec.version_ranges)[i],
            ) is Err) ==> verdict(spec, info, env) is Err,
        (exists|i: int|
            0 <= i < candidates(spec.env_requirements).len() && split_requirement(
                #[trigger] candidates(spec.env_requirements)[i],
            ) is None) ==> verdict(spec, info, env) is Err,
{
    lemma_version_ranges(info.version, candidates(spec.version_ranges));
    let texts = candidates(spec.env_requirements);
    let outcomes = requirement_outcomes(texts, env);
    lemma_first_failure(outcomes);
    if exists|i: int| 0 <= i < texts.len() && split_requirement(#[trigger] texts[i]) is None {
        let i = choose|i: int| 0 <= i < texts.len() && split_requirement(#[trigger] texts[i]) is None;
        assert(outcomes[i] is Err);
    }
}

} // verus!
