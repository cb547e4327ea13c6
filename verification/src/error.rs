//! The errors of loading and compiling stat configurations.

use vstd::prelude::*;

verus! {

/// What can go wrong when a stat configuration is loaded or compiled.
#[derive(Debug, Clone, PartialEq, Eq)]
pub enum YamlStatError {
    /// The configuration document could not be read.
    JsonParseError(String),
    /// The evaluation engine could not resolve a stat.
    ResolutionError(String),
    /// The configuration asks for something that cannot be compiled.
    InvalidConfig(String),
    /// A transform found no value for a stat that it depends on.
    MissingDependency(String),
    /// The configuration names a kind of transform that does not exist.
    InvalidTransformType(String),
}

/// An error with its text as a sequence of characters.
pub enum ErrorModel {
    JsonParseError(Seq<char>),
    ResolutionError(Seq<char>),
    InvalidConfig(Seq<char>),
    MissingDependency(Seq<char>),
    InvalidTransformType(Seq<char>),
}

impl View for YamlStatError {
    type V = ErrorModel;

    open spec fn view(&self) -> ErrorModel {
        match self {
            YamlStatError::JsonParseError(text) => ErrorModel::JsonParseError(text@),
            YamlStatError::ResolutionError(text) => ErrorModel::ResolutionError(text@),
            YamlStatError::InvalidConfig(text) => ErrorModel::InvalidConfig(text@),
            YamlStatError::MissingDependency(text) => ErrorModel::MissingDependency(text@),
            YamlStatError::InvalidTransformType(text) => ErrorModel::InvalidTransformType(text@),
        }
    }
}

impl ErrorModel {
    /// The text that the error carries.
    pub open spec fn detail(self) -> Seq<char> {
        match self {
            ErrorModel::JsonParseError(text) => text,
            ErrorModel::ResolutionError(text) => text,
            ErrorModel::InvalidConfig(text) => text,
            ErrorModel::MissingDependency(text) => text,
            ErrorModel::InvalidTransformType(text) => text,
        }
    }

    /// The words that introduce the error's text in its message.
    pub open spec fn heading(self) -> Seq<char> {
        match self {
            ErrorModel::JsonParseError(_) => "JSON parse error: "@,
            ErrorModel::ResolutionError(_) => "Stat resolution error: "@,
            ErrorModel::InvalidConfig(_) => "Invalid configuration: "@,
            ErrorModel::MissingDependency(_) => "Missing dependency: "@,
            ErrorModel::InvalidTransformType(_) => "Invalid transform type: "@,
        }
    }

    /// The message of the error: its heading, then its text.
    pub open spec fn message(self) -> Seq<char> {
        self.heading() + self.detail()
    }
}

/// A text put behind a heading.
pub fn headed(heading: &str, detail: &str) -> (text: String)
    ensures
        text@ == heading@ + detail@,
{
    let mut text = heading.to_owned();
    text.append(detail);
    text
}

impl YamlStatError {
    /// The message of the error, for people to read.
    pub fn message(&self) -> (text: String)
        ensures
            text@ == self@.message(),
    {
        match self {
            YamlStatError::JsonParseError(detail) => headed("JSON parse error: ", detail.as_str()),
            YamlStatError::ResolutionError(detail) => headed(
                "Stat resolution error: ",
                detail.as_str(),
            ),
            YamlStatError::InvalidConfig(detail) => headed(
                "Invalid configuration: ",
                detail.as_str(),
            ),
            YamlStatError::MissingDependency(detail) => headed(
                "Missing dependency: ",
                detail.as_str(),
            ),
            YamlStatError::InvalidTransformType(detail) => headed(
                "Invalid transform type: ",
                detail.as_str(),
            ),
        }
    }
}

/// A result with its error seen through its view.
pub open spec fn outcome<T>(r: Result<T, YamlStatError>) -> Result<T, ErrorModel> {
    match r {
        Ok(value) => Ok(value),
        Err(e) => Err(e@),
    }
}

} // verus!
