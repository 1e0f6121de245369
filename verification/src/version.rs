//! Versions and version requirements, as the `semver` crate reads them.

use vstd::prelude::*;

verus! {

/// A parsed version requirement of `semver`. Its inside is not visible here: a
/// value is made by `parse_requirement` and asked by `requirement_matches`.
#[verifier::external_type_specification]
#[verifier::external_body]
pub struct ExVersionReq(semver::VersionReq);

/// The reason for which `semver` refused a version requirement.
#[verifier::external_type_specification]
#[verifier::external_body]
pub struct ExReqParseError(semver::ReqParseError);

/// The reason for which `semver` refused a version.
#[verifier::external_type_specification]
#[verifier::external_body]
pub struct ExSemVerError(semver::SemVerError);

/// One dot-separated part of a version's pre-release tag.
#[derive(Clone, Debug, PartialEq, Eq)]
pub enum Identifier {
    /// A part that is a number.
    Numeric(u64),
    /// A part with letters in it.
    AlphaNumeric(String),
}

/// What an `Identifier` stands for.
pub enum Tag {
    Numeric(u64),
    AlphaNumeric(Seq<char>),
}

impl View for Identifier {
    type V = Tag;

    open spec fn view(&self) -> Tag {
        match self {
            Identifier::Numeric(n) => Tag::Numeric(*n),
            Identifier::AlphaNumeric(s) => Tag::AlphaNumeric(s@),
        }
    }
}

/// The three numbers of a version, without pre-release tag and build
/// metadata.
#[derive(Clone, Copy, Debug, PartialEq, Eq, Structural)]
pub struct Release {
    pub major: u64,
    pub minor: u64,
    pub patch: u64,
}

/// A version as it was written: its three numbers and the parts of its
/// pre-release tag.
#[derive(Clone, Debug, PartialEq, Eq)]
pub struct ParsedVersion {
    pub release: Release,
    pub pre: Vec<Identifier>,
}

/// What a `ParsedVersion` stands for.
pub struct VersionModel {
    pub release: Release,
    pub pre: Seq<Tag>,
}

impl View for ParsedVersion {
    type V = VersionModel;

    open spec fn view(&self) -> VersionModel {
        VersionModel { release: self.release, pre: self.pre@.map_values(|id: Identifier| id@) }
    }
}

/// What `semver::Version::parse` makes of `text`: the version, or the reason
/// for which it refuses the text.
pub uninterp spec fn parsed_version(text: Seq<char>) -> Result<VersionModel, semver::SemVerError>;

/// What `semver::VersionReq::parse` makes of `text`: the requirement, or the
/// reason for which it refuses the text.
pub uninterp spec fn parsed_requirement(text: Seq<char>) -> Result<
    semver::VersionReq,
    semver::ReqParseError,
>;

/// Whether `semver::VersionReq::matches` lets the release `major.minor.patch`,
/// without pre-release tag and build metadata, pass the requirement `req`.
pub uninterp spec fn requirement_admits(
    req: semver::VersionReq,
    major: u64,
    minor: u64,
    patch: u64,
) -> bool;

/// Calls `semver::Version::parse` and hands out the numbers and the
/// pre-release parts of what it returns. Trusted: the result depends on the
/// text alone, so it is the value that `parsed_version` names.
#[verifier::external_body]
pub(crate) fn parse_version(text: &str) -> (r: Result<ParsedVersion, semver::SemVerError>)
    ensures
        match r {
            Ok(v) => parsed_version(text@) == Ok::<VersionModel, semver::SemVerError>(v@),
            Err(e) => parsed_version(text@) == Err::<VersionModel, semver::SemVerError>(e),
        },
{
    match semver::Version::parse(text) {
        Ok(v) => Ok(
            ParsedVersion {
                release: Release { major: v.major, minor: v.minor, patch: v.patch },
                pre: v.pre.into_iter().map(
                    |id| match id {
                        semver::Identifier::Numeric(n) => Identifier::Numeric(n),
                        semver::Identifier::AlphaNumeric(s) => Identifier::AlphaNumeric(s),
                    },
                ).collect(),
            },
        ),
        Err(e) => Err(e),
    }
}

/// Calls `semver::VersionReq::parse`. Trusted: the result depends on the text
/// alone, so it is the value that `parsed_requirement` names.
#[verifier::external_body]
pub(crate) fn parse_requirement(text: &str) -> (r: Result<
    semver::VersionReq,
    semver::ReqParseError,
>)
    ensures
        r == parsed_requirement(text@),
{
    semver::VersionReq::parse(text)
}

/// Calls `semver::VersionReq::matches` on the version that
/// `semver::Version::new` makes of the numbers of `release`, which has neither
/// pre-release tag nor build metadata. Trusted: the answer depends on the
/// requirement and the three numbers alone, so it is the value that
/// `requirement_admits` names.
#[verifier::external_body]
pub(crate) fn requirement_matches(req: &semver::VersionReq, release: Release) -> (r: bool)
    ensures
        r == requirement_admits(*req, release.major, release.minor, release.patch),
{
    req.matches(&semver::Version::new(release.major, release.minor, release.patch))
}

} // verus!
