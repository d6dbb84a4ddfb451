//! Settling the options of a run from the command line and the configuration
//! file.
//!
//! What the command line gives comes before what the configuration file
//! gives, and that before the defaults. The schema is read from an endpoint,
//! from a file or from standard input; an endpoint answers with an
//! introspection response, a file holds schema-definition text.

use vstd::prelude::*;
use crate::text::{concat3, same_text};

verus! {

/// Where a profile of the configuration file takes the schema from.
#[derive(Debug, PartialEq, Eq)]
pub enum ConfigProfile {
    Endpoint { url: String },
    File { path: String },
    PipeIntrospection,
    PipeSdl,
}

/// A profile of the configuration file under its name.
#[derive(Debug, PartialEq, Eq)]
pub struct NamedProfile {
    pub name: String,
    pub profile: ConfigProfile,
}

/// What the configuration file holds. Every member may be missing.
#[derive(Debug, PartialEq, Eq)]
pub struct CodegenJsonConfig {
    pub profiles: Option<Vec<NamedProfile>>,
    pub output_directory: Option<String>,
    pub line_break: Option<String>,
    pub indent: Option<String>,
    pub runtime: Option<String>,
}

/// What the command line says about the schema and the output.
#[derive(Debug, PartialEq, Eq)]
pub struct Arguments {
    pub profile: Option<String>,
    pub url: Option<String>,
    pub file: Option<String>,
    pub output: Option<String>,
}

/// How the raw schema text is obtained.
#[derive(Debug, PartialEq, Eq)]
pub enum FetchMethod {
    File { path: String },
    Endpoint { url: String },
    Pipe,
}

/// What the raw schema text is.
#[derive(Debug, Clone, Copy, PartialEq, Eq, Structural)]
pub enum ProcessMethod {
    Sdl,
    Introspection,
}

/// The options of a run.
#[derive(Debug, PartialEq, Eq)]
pub struct CodegenOptions {
    pub output_directory: String,
    pub line_break: String,
    pub indent: String,
    pub runtime_package: String,
    pub fetch: FetchMethod,
    pub process: ProcessMethod,
}

/// Why the options of a run could not be settled.
#[derive(Debug, PartialEq, Eq)]
pub enum OptionsError {
    /// Neither the command line nor the configuration file names an output
    /// directory.
    NoOutputDirectory,
    /// The configuration file has no profile of this name.
    NoProfileNamed(String),
    /// The command line names no source and the configuration file has no
    /// profiles.
    NoProfiles,
    /// The command line names no source and there is no configuration file.
    NoFetchMethod,
}

/// The value of a `FetchMethod`.
pub ghost enum FetchModel {
    File { path: Seq<char> },
    Endpoint { url: Seq<char> },
    Pipe,
}

/// The value of a `CodegenOptions`.
pub ghost struct OptionsModel {
    pub output_directory: Seq<char>,
    pub line_break: Seq<char>,
    pub indent: Seq<char>,
    pub runtime_package: Seq<char>,
    pub fetch: FetchModel,
    pub process: ProcessMethod,
}

/// The value of an `OptionsError`.
pub ghost enum OptionsErrorModel {
    NoOutputDirectory,
    NoProfileNamed(Seq<char>),
    NoProfiles,
    NoFetchMethod,
}

impl View for FetchMethod {
    type V = FetchModel;

    open spec fn view(&self) -> FetchModel {
        match self {
            FetchMethod::File { path } => FetchModel::File { path: path@ },
            FetchMethod::Endpoint { url } => FetchModel::Endpoint { url: url@ },
            FetchMethod::Pipe => FetchModel::Pipe,
        }
    }
}

impl View for CodegenOptions {
    type V = OptionsModel;

    open spec fn view(&self) -> OptionsModel {
        OptionsModel {
            output_directory: self.output_directory@,
            line_break: self.line_break@,
            indent: self.indent@,
            runtime_package: self.runtime_package@,
            fetch: self.fetch@,
            process: self.process,
        }
    }
}

impl View for OptionsError {
    type V = OptionsErrorModel;

    open spec fn view(&self) -> OptionsErrorModel {
        match self {
            OptionsError::NoOutputDirectory => OptionsErrorModel::NoOutputDirectory,
            OptionsError::NoProfileNamed(name) => OptionsErrorModel::NoProfileNamed(name@),
            OptionsError::NoProfiles => OptionsErrorModel::NoProfiles,
            OptionsError::NoFetchMethod => OptionsErrorModel::NoFetchMethod,
        }
    }
}

/// The text that is there, or else the default.
pub open spec fn text_or(text: Option<String>, default: Seq<char>) -> Seq<char> {
    match text {
        Some(text) => text@,
        None => default,
    }
}

/// The first profile of a name, if there is one.
pub open spec fn profile_named(profiles: Seq<NamedProfile>, name: Seq<char>) -> Option<
    ConfigProfile,
>
    decreases profiles.len(),
{
    if profiles.len() == 0 {
        None
    } else if profiles[0].name@ == name {
        Some(profiles[0].profile)
    } else {
        profile_named(profiles.skip(1), name)
    }
}

/// The source that a profile stands for.
pub open spec fn profile_source(profile: ConfigProfile) -> (FetchModel, ProcessMethod) {
    match profile {
        ConfigProfile::Endpoint { url } => (
            FetchModel::Endpoint { url: url@ },
            ProcessMethod::Introspection,
        ),
        ConfigProfile::File { path } => (FetchModel::File { path: path@ }, ProcessMethod::Sdl),
        ConfigProfile::PipeIntrospection => (FetchModel::Pipe, ProcessMethod::Introspection),
        ConfigProfile::PipeSdl => (FetchModel::Pipe, ProcessMethod::Sdl),
    }
}

/// Where the schema comes from: the endpoint of the command line, else the
/// file of the command line, else the profile that the command line names
/// (`default` if it names none) in the configuration file.
pub open spec fn source_of(arguments: Arguments, config: Option<CodegenJsonConfig>) -> Result<
    (FetchModel, ProcessMethod),
    OptionsErrorModel,
> {
    if let Some(url) = arguments.url {
        Ok((FetchModel::Endpoint { url: url@ }, ProcessMethod::Introspection))
    } else if let Some(file) = arguments.file {
        Ok((FetchModel::File { path: file@ }, ProcessMethod::Sdl))
    } else if let Some(config) = config {
        let name = text_or(arguments.profile, "default"@);
        match config.profiles {
            Some(profiles) => match profile_named(profiles@, name) {
                Some(profile) => Ok(profile_source(profile)),
                None => Err(OptionsErrorModel::NoProfileNamed(name)),
            },
            None => Err(OptionsErrorModel::NoProfiles),
        }
    } else {
        Err(OptionsErrorModel::NoFetchMethod)
    }
}

/// The output directory: that of the command line, else that of the
/// configuration file.
pub open spec fn output_directory_of(arguments: Arguments, config: Option<CodegenJsonConfig>)
    -> Option<Seq<char>> {
    if let Some(output) = arguments.output {
        Some(output@)
    } else if config is Some && config->0.output_directory is Some {
        Some(config->0.output_directory->0@)
    } else {
        None
    }
}

/// The options of a run. The runtime package is `graphql-freeze` and the
/// indent four spaces unless the configuration file says otherwise; so is the
/// line terminator that of the platform. A missing output directory is
/// reported before a missing source.
pub open spec fn options_of(
    arguments: Arguments,
    config: Option<CodegenJsonConfig>,
    platform_line_break: Seq<char>,
) -> Result<OptionsModel, OptionsErrorModel> {
    match output_directory_of(arguments, config) {
        None => Err(OptionsErrorModel::NoOutputDirectory),
        Some(output_directory) => match source_of(arguments, config) {
            Err(error) => Err(error),
            Ok(source) => Ok(
                OptionsModel {
                    output_directory,
                    line_break: match config {
                        Some(config) => text_or(config.line_break, platform_line_break),
                        None => platform_line_break,
                    },
                    indent: match config {
                        Some(config) => text_or(config.indent, "    "@),
                        None => "    "@,
                    },
                    runtime_package: match config {
                        Some(config) => text_or(config.runtime, "graphql-freeze"@),
                        None => "graphql-freeze"@,
                    },
                    fetch: source.0,
                    process: source.1,
                },
            ),
        },
    }
}

/// What settling the options returned, as a value.
pub open spec fn options_outcome(outcome: Result<CodegenOptions, OptionsError>) -> Result<
    OptionsModel,
    OptionsErrorModel,
> {
    match outcome {
        Ok(options) => Ok(options@),
        Err(error) => Err(error@),
    }
}

/// What selecting the source returned, as a value.
pub open spec fn source_outcome(outcome: Result<(FetchMethod, ProcessMethod), OptionsError>)
    -> Result<(FetchModel, ProcessMethod), OptionsErrorModel> {
    match outcome {
        Ok(source) => Ok((source.0@, source.1)),
        Err(error) => Err(error@),
    }
}

fn owned_or(text: &Option<String>, default: &str) -> (chosen: String)
    ensures
        chosen@ == text_or(*text, default@),
{
    match text {
        Some(text) => text.clone(),
        None => default.to_string(),
    }
}

fn find_profile<'a>(profiles: &'a Vec<NamedProfile>, name: &str) -> (found: Option<
    &'a ConfigProfile,
>)
    ensures
        match found {
            Some(profile) => profile_named(profiles@, name@) == Some(*profile),
            None => profile_named(profiles@, name@) is None,
        },
{
    let mut i: usize = 0;
    assert(profiles@.skip(0) =~= profiles@);
    while i < profiles.len()
        invariant
            i <= profiles.len(),
            profile_named(profiles@, name@) == profile_named(profiles@.skip(i as int), name@),
        decreases profiles.len() - i,
    {
        assert(profiles@.skip(i as int).skip(1) =~= profiles@.skip(i + 1));
        if same_text(profiles[i].name.as_str(), name) {
            return Some(&profiles[i].profile);
        }
        i = i + 1;
    }
    None
}

/// Selects where the schema comes from.
pub fn select_source(arguments: &Arguments, config: Option<&CodegenJsonConfig>) -> (outcome:
    Result<(FetchMethod, ProcessMethod), OptionsError>)
    ensures
        source_outcome(outcome) == source_of(
            *arguments,
            match config {
                Some(config) => Some(*config),
                None => None,
            },
        ),
{
    if let Some(url) = &arguments.url {
        Ok((FetchMethod::Endpoint { url: url.clone() }, ProcessMethod::Introspection))
    } else if let Some(file) = &arguments.file {
        Ok((FetchMethod::File { path: file.clone() }, ProcessMethod::Sdl))
    } else if let Some(config) = config {
        let profile_name = owned_or(&arguments.profile, "default");
        if let Some(profiles) = &config.profiles {
            match find_profile(profiles, profile_name.as_str()) {
                Some(profile) => Ok(
                    match profile {
                        ConfigProfile::Endpoint { url } => (
                            FetchMethod::Endpoint { url: url.clone() },
                            ProcessMethod::Introspection,
                        ),
                        ConfigProfile::File { path } => (
                            FetchMethod::File { path: path.clone() },
                            ProcessMethod::Sdl,
                        ),
                        ConfigProfile::PipeIntrospection => (
                            FetchMethod::Pipe,
                            ProcessMethod::Introspection,
                        ),
                        ConfigProfile::PipeSdl => (FetchMethod::Pipe, ProcessMethod::Sdl),
                    },
                ),
                None => Err(OptionsError::NoProfileNamed(profile_name)),
            }
        } else {
            Err(OptionsError::NoProfiles)
        }
    } else {
        Err(OptionsError::NoFetchMethod)
    }
}

/// Settles the options of a run.
pub fn codegen_options(
    arguments: &Arguments,
    config: Option<&CodegenJsonConfig>,
    platform_line_break: &str,
) -> (outcome: Result<CodegenOptions, OptionsError>)
    ensures
        options_outcome(outcome) == options_of(
            *arguments,
            match config {
                Some(config) => Some(*config),
                None => None,
            },
            platform_line_break@,
        ),
{
    let runtime_package = match config {
        Some(config) => owned_or(&config.runtime, "graphql-freeze"),
        None => "graphql-freeze".to_string(),
    };
    let indent = match config {
        Some(config) => owned_or(&config.indent, "    "),
        None => "    ".to_string(),
    };
    let line_break = match config {
        Some(config) => owned_or(&config.line_break, platform_line_break),
        None => platform_line_break.to_string(),
    };
    let output_directory = if let Some(output) = &arguments.output {
        output.clone()
    } else {
        let configured = match config {
            Some(config) => match &config.output_directory {
                Some(output_directory) => Some(output_directory.clone()),
                None => None,
            },
            None => None,
        };
        match configured {
            Some(output_directory) => output_directory,
            None => {
                return Err(OptionsError::NoOutputDirectory);
            },
        }
    };
    match select_source(arguments, config) {
        Ok(source) => Ok(
            CodegenOptions {
                output_directory,
                line_break,
                indent,
                runtime_package,
                fetch: source.0,
                process: source.1,
            },
        ),
        Err(error) => Err(error),
    }
}

impl OptionsError {
    /// What the user is told.
    pub open spec fn message_text(self) -> Seq<char> {
        match self {
            OptionsError::NoOutputDirectory => "No output directory was given"@,
            OptionsError::NoProfileNamed(name) => "No profile named \""@ + name@ + "\""@,
            OptionsError::NoProfiles => "No method to fetch schema was provided and default profile is not defined in config file"@,
            OptionsError::NoFetchMethod => "No method to fetch schema was provided, use --url, --file or make a config"@,
        }
    }

    /// Writes what the user is told.
    pub fn message(&self) -> (text: String)
        ensures
            text@ == self.message_text(),
    {
        match self {
            OptionsError::NoOutputDirectory => "No output directory was given".to_string(),
            OptionsError::NoProfileNamed(name) => concat3(
                "No profile named \"",
                name.as_str(),
                "\"",
            ),
            OptionsError::NoProfiles => "No method to fetch schema was provided and default profile is not defined in config file".to_string(),
            OptionsError::NoFetchMethod => "No method to fetch schema was provided, use --url, --file or make a config".to_string(),
        }
    }
}

} // verus!
