//! The line with which the worker introduces itself.

use vstd::prelude::*;
use vstd::string::StringExecFns;

verus! {

/// What is known of a build of the worker.
#[derive(Clone, Debug, PartialEq, Eq)]
pub struct BuildInfo {
    pub name: String,
    pub version: String,
    /// Revision of the sources, where the build could tell.
    pub git_version: Option<String>,
    pub profile: String,
    pub os: String,
    pub arch: String,
    pub built_time_utc: String,
}

/// Mathematical model of a [`BuildInfo`].
pub struct BuildInfoView {
    pub name: Seq<char>,
    pub version: Seq<char>,
    pub git_version: Option<Seq<char>>,
    pub profile: Seq<char>,
    pub os: Seq<char>,
    pub arch: Seq<char>,
    pub built_time_utc: Seq<char>,
}

impl View for BuildInfo {
    type V = BuildInfoView;

    open spec fn view(&self) -> BuildInfoView {
        BuildInfoView {
            name: self.name@,
            version: self.version@,
            git_version: match self.git_version {
                Some(revision) => Some(revision@),
                None => None,
            },
            profile: self.profile@,
            os: self.os@,
            arch: self.arch@,
            built_time_utc: self.built_time_utc@,
        }
    }
}

/// The revision as the version line shows it.
pub open spec fn revision_text(git_version: Option<Seq<char>>) -> Seq<char> {
    match git_version {
        Some(revision) => revision,
        None => "unknown"@,
    }
}

/// The version line: `name version (revision, profile build, os [arch],
/// time)`.
pub open spec fn version_text(info: BuildInfoView) -> Seq<char> {
    info.name + " "@ + info.version + " ("@ + revision_text(info.git_version) + ", "@
        + info.profile + " build, "@ + info.os + " ["@ + info.arch + "], "@ + info.built_time_utc
        + ")"@
}

/// The version line of a build.
pub fn version(info: &BuildInfo) -> (text: String)
    ensures
        text@ == version_text(info@),
{
    let mut text = String::from_str(info.name.as_str());
    text.append(" ");
    text.append(info.version.as_str());
    text.append(" (");
    match &info.git_version {
        Some(revision) => text.append(revision.as_str()),
        None => text.append("unknown"),
    }
    text.append(", ");
    text.append(info.profile.as_str());
    text.append(" build, ");
    text.append(info.os.as_str());
    text.append(" [");
    text.append(info.arch.as_str());
    text.append("], ");
    text.append(info.built_time_utc.as_str());
    text.append(")");
    text
}

} // verus!
