//! What is known of the compiler: its release channel and its version, taken
//! from what it prints when asked for its version.

use crate::kinds::{any_of, candidates, lemma_first_failure, settle, settled, some_holds};
use crate::version::{
    parse_requirement, parse_version, parsed_requirement, parsed_version, requirement_admits,
    requirement_matches, Identifier, ParsedVersion, Release, Tag, VersionModel,
};
use crate::text::{lowercase, text_of, to_lowercase};
use crate::words::{nth_word, word};
use vstd::prelude::*;
use vstd::utf8::{decode_utf8, encode_utf8_decode_utf8, valid_utf8};

verus! {

/// Why the compiler's answer gave no version.
#[derive(Debug, PartialEq)]
pub enum ProbeFailure {
    /// The answer is no text: its bytes are not valid UTF-8.
    NotText,
    /// The answer has no second word.
    MissingVersion,
    /// The second word is no version.
    InvalidVersion(semver::SemVerError),
}

/// Information on the compiler in this environment.
#[derive(Clone, Debug, PartialEq, Eq)]
pub struct RustCInfo {
    channel: String,
    version: Release,
}

/// What a `RustCInfo` stands for.
pub struct CompilerInfo {
    pub channel: Seq<char>,
    pub version: Release,
}

impl View for RustCInfo {
    type V = CompilerInfo;

    closed spec fn view(&self) -> CompilerInfo {
        CompilerInfo { channel: self.channel@, version: self.version }
    }
}

/// The release channel that a pre-release tag tells of: `stable` without a
/// tag; else the tag's first part where it has letters, and `unknown` where it
/// is a number.
pub open spec fn channel_of(pre: Seq<Tag>) -> Seq<char> {
    if pre.len() == 0 {
        "stable"@
    } else {
        match pre[0] {
            Tag::AlphaNumeric(text) => text,
            Tag::Numeric(_) => "unknown"@,
        }
    }
}

/// The compiler that has the version `v`: the channel comes from the
/// pre-release tag, which the stored version then omits.
pub open spec fn compiler_of(v: VersionModel) -> CompilerInfo {
    CompilerInfo { channel: channel_of(v.pre), version: v.release }
}

/// What a `ProbeFailure` stands for.
pub enum ProbeError {
    NotText,
    MissingVersion,
    InvalidVersion(semver::SemVerError),
}

impl View for ProbeFailure {
    type V = ProbeError;

    open spec fn view(&self) -> ProbeError {
        match self {
            ProbeFailure::NotText => ProbeError::NotText,
            ProbeFailure::MissingVersion => ProbeError::MissingVersion,
            ProbeFailure::InvalidVersion(reason) => ProbeError::InvalidVersion(*reason),
        }
    }
}

/// The compiler that gave the answer `output`: its version is the second
/// word. Without a second word, or with one that is no version, there is
/// none.
pub open spec fn probed(output: Seq<char>) -> Result<CompilerInfo, ProbeError> {
    match nth_word(output, 1) {
        Some(text) => match parsed_version(text) {
            Ok(v) => Ok(compiler_of(v)),
            Err(reason) => Err(ProbeError::InvalidVersion(reason)),
        },
        None => Err(ProbeError::MissingVersion),
    }
}

/// The compiler that printed the bytes `stdout`: there is none where they are
/// no text or the text tells of no compiler.
pub open spec fn probed_bytes(stdout: Seq<u8>) -> Result<CompilerInfo, ProbeError> {
    if valid_utf8(stdout) {
        probed(decode_utf8(stdout))
    } else {
        Err(ProbeError::NotText)
    }
}

/// Whether two channel names are the same but for the case of their letters.
pub open spec fn same_channel(a: Seq<char>, b: Seq<char>) -> bool {
    lowercase(a) == lowercase(b)
}

/// Whether `channel` is one of `names`, or no name was given.
pub open spec fn some_channel(channel: Seq<char>, names: Seq<Seq<char>>) -> bool {
    names.len() == 0 || exists|i: int|
        0 <= i < names.len() && same_channel(channel, #[trigger] names[i])
}

/// Whether `text` is a version requirement that `release` satisfies.
pub open spec fn satisfies(release: Release, text: Seq<char>) -> bool {
    parsed_requirement(text) matches Ok(req) && requirement_admits(
        req,
        release.major,
        release.minor,
        release.patch,
    )
}

/// What one version requirement comes to for `release`: whether the release
/// satisfies it, or the reason for which the requirement was refused.
pub open spec fn version_outcome(release: Release, text: Seq<char>) -> Result<
    bool,
    semver::ReqParseError,
> {
    match parsed_requirement(text) {
        Ok(_) => Ok(satisfies(release, text)),
        Err(e) => Err(e),
    }
}

/// What each requirement of `texts` comes to for `release`.
pub open spec fn version_outcomes(release: Release, texts: Seq<Seq<char>>) -> Seq<
    Result<bool, semver::ReqParseError>,
> {
    texts.map_values(|text: Seq<char>| version_outcome(release, text))
}

/// One text that is no requirement makes the whole an error, whatever the
/// others are; where each text is a requirement, the whole holds exactly when
/// `release` satisfies one of them, or none was given.
pub proof fn lemma_version_ranges(release: Release, texts: Seq<Seq<char>>)
    ensures
        (exists|i: int| 0 <= i < texts.len() && parsed_requirement(#[trigger] texts[i]) is Err)
            <==> settled(version_outcomes(release, texts)) is Err,
        (forall|i: int| 0 <= i < texts.len() ==> parsed_requirement(#[trigger] texts[i]) is Ok)
            ==> settled(version_outcomes(release, texts)) == Ok::<bool, semver::ReqParseError>(
            texts.len() == 0 || exists|i: int|
                0 <= i < texts.len() && satisfies(release, #[trigger] texts[i]),
        ),
{
    let outcomes = version_outcomes(release, texts);
    lemma_first_failure(outcomes);
    if exists|i: int| 0 <= i < texts.len() && parsed_requirement(#[trigger] texts[i]) is Err {
        let i = choose|i: int|
            0 <= i < texts.len() && parsed_requirement(#[trigger] texts[i]) is Err;
        assert(outcomes[i] is Err);
    }
    if settled(outcomes) is Err {
        let i = choose|i: int| 0 <= i < outcomes.len() && (#[trigger] outcomes[i]) is Err;
        assert(parsed_requirement(texts[i]) is Err);
    }
    if some_holds(outcomes) {
        let i = choose|i: int|
            0 <= i < outcomes.len() && #[trigger] outcomes[i] == Ok::<bool, semver::ReqParseError>(
                true,
            );
        assert(satisfies(release, texts[i]));
    }
    if exists|i: int| 0 <= i < texts.len() && satisfies(release, #[trigger] texts[i]) {
        let i = choose|i: int| 0 <= i < texts.len() && satisfies(release, #[trigger] texts[i]);
        assert(outcomes[i] == Ok::<bool, semver::ReqParseError>(true));
    }
}

impl RustCInfo {
    /// A compiler of the given channel and version.
    pub fn new(channel: String, version: Release) -> (info: RustCInfo)
        ensures
            info@ == (CompilerInfo { channel: channel@, version }),
    {
        RustCInfo { channel, version }
    }

    /// The release channel.
    pub fn channel(&self) -> (channel: &str)
        ensures
            channel@ == self@.channel,
    {
        self.channel.as_str()
    }

    /// The version, without pre-release tag and build metadata.
    pub fn version(&self) -> (version: Release)
        ensures
            version == self@.version,
    {
        self.version
    }

    /// The compiler that has the version `parsed`. Without a pre-release tag
    /// the channel is `stable`; with one, it is the tag's first part where
    /// that has letters, and `unknown` where it is a number.
    pub fn from_version(parsed: &ParsedVersion) -> (info: RustCInfo)
        ensures
            info@ == compiler_of(parsed@),
            parsed@.pre.len() == 0 ==> info@.channel == "stable"@,
            parsed@.pre.len() > 0 ==> (parsed@.pre[0] matches Tag::AlphaNumeric(text)
                ==> info@.channel == text),
            parsed@.pre.len() > 0 ==> (parsed@.pre[0] is Numeric ==> info@.channel
                == "unknown"@),
    {
        let channel = if parsed.pre.len() == 0 {
            "stable".to_owned()
        } else {
            match &parsed.pre[0] {
                Identifier::AlphaNumeric(text) => text.clone(),
                Identifier::Numeric(_) => "unknown".to_owned(),
            }
        };
        RustCInfo { channel, version: parsed.release }
    }

    /// Reads the compiler's answer to a request for its version: the second
    /// word of `output` is the version.
    pub fn from_output(output: &str) -> (r: Result<RustCInfo, ProbeFailure>)
        ensures
            match r {
                Ok(info) => probed(output@) == Ok::<CompilerInfo, ProbeError>(info@),
                Err(failure) => probed(output@) == Err::<CompilerInfo, ProbeError>(failure@),
            },
    {
        match word(output, 1) {
            None => Err(ProbeFailure::MissingVersion),
            Some(text) => match parse_version(text) {
                Ok(parsed) => Ok(RustCInfo::from_version(&parsed)),
                Err(reason) => Err(ProbeFailure::InvalidVersion(reason)),
            },
        }
    }

    /// Obtains the compiler's info from `stdout`, the bytes that the compiler
    /// printed when asked for its version.
    pub fn get_info(stdout: &[u8]) -> (r: Result<RustCInfo, ProbeFailure>)
        ensures
            match r {
                Ok(info) => probed_bytes(stdout@) == Ok::<CompilerInfo, ProbeError>(info@),
                Err(failure) => probed_bytes(stdout@) == Err::<CompilerInfo, ProbeError>(
                    failure@,
                ),
            },
    {
        match text_of(stdout) {
            None => Err(ProbeFailure::NotText),
            Some(output) => {
                proof {
                    encode_utf8_decode_utf8(output@);
                }
                RustCInfo::from_output(output)
            },
        }
    }

    /// Whether `channel` names the compiler's channel, whatever the case of
    /// the letters.
    pub fn matches_channel(&self, channel: &str) -> (r: bool)
        ensures
            r == same_channel(self@.channel, channel@),
    {
        to_lowercase(self.channel.as_str()) == to_lowercase(channel)
    }

    /// Whether the compiler's version satisfies the requirement `version`.
    pub fn matches_version(&self, version: &str) -> (r: Result<bool, semver::ReqParseError>)
        ensures
            r == version_outcome(self@.version, version@),
    {
        match parse_requirement(version) {
            Ok(req) => Ok(requirement_matches(&req, self.version)),
            Err(e) => Err(e),
        }
    }

    /// Whether any of `channels` names the compiler's channel; true where
    /// none were given.
    pub fn matches_any_channels(&self, channels: &Option<Vec<String>>) -> (r: bool)
        ensures
            r == some_channel(self@.channel, candidates(*channels)),
    {
        let ghost names = candidates(*channels);
        let mut found: Vec<bool> = Vec::new();
        match channels {
            None => {},
            Some(items) => {
                let mut i: usize = 0;
                while i < items.len()
                    invariant
                        i <= items@.len(),
                        channels == Some(*items),
                        names == candidates(*channels),
                        found@.len() == i,
                        forall|k: int|
                            0 <= k < i ==> #[trigger] found@[k] == same_channel(
                                self@.channel,
                                names[k],
                            ),
                    decreases items@.len() - i,
                {
                    found.push(self.matches_channel(items[i].as_str()));
                    i = i + 1;
                }
            },
        }
        proof {
            if some_channel(self@.channel, names) && names.len() > 0 {
                let i = choose|i: int|
                    0 <= i < names.len() && same_channel(self@.channel, #[trigger] names[i]);
                assert(found@[i]);
            }
        }
        any_of(&found)
    }

    /// Whether the compiler's version satisfies any of the requirements in
    /// `versions`; true where none were given. A candidate that is no
    /// requirement is an error, whatever the others come to: the first such
    /// candidate gives the reason.
    pub fn matches_any_versions(&self, versions: &Option<Vec<String>>) -> (r: Result<
        bool,
        semver::ReqParseError,
    >)
        ensures
            r == settled(version_outcomes(self@.version, candidates(*versions))),
    {
        let ghost wanted = version_outcomes(self@.version, candidates(*versions));
        let mut outcomes: Vec<Result<bool, semver::ReqParseError>> = Vec::new();
        match versions {
            None => {},
            Some(items) => {
                let mut i: usize = 0;
                while i < items.len()
                    invariant
                        i <= items@.len(),
                        versions == Some(*items),
                        wanted == version_outcomes(self@.version, candidates(*versions)),
                        outcomes@.len() == i,
                        forall|k: int| 0 <= k < i ==> wanted[k] == #[trigger] outcomes@[k],
                    decreases items@.len() - i,
                {
                    let outcome = self.matches_version(items[i].as_str());
                    outcomes.push(outcome);
                    i = i + 1;
                }
            },
        }
        assert(outcomes@ =~= wanted);
        settle(outcomes)
    }
}

} // verus!
