use codegen::options::{
    codegen_options, select_source, Arguments, CodegenJsonConfig, CodegenOptions, ConfigProfile,
    FetchMethod, NamedProfile, OptionsError, ProcessMethod,
};
use codegen::schema_sdl::UnknownTypeReference;

fn o(text: &str) -> Option<String> {
    Some(text.to_string())
}

fn no_arguments() -> Arguments {
    Arguments { profile: None, url: None, file: None, output: None }
}

fn empty_config() -> CodegenJsonConfig {
    CodegenJsonConfig {
        profiles: None,
        output_directory: None,
        line_break: None,
        indent: None,
        runtime: None,
    }
}

fn profiles() -> Option<Vec<NamedProfile>> {
    Some(vec![
        NamedProfile {
            name: "default".to_string(),
            profile: ConfigProfile::Endpoint { url: "http://default".to_string() },
        },
        NamedProfile {
            name: "local".to_string(),
            profile: ConfigProfile::File { path: "schema.graphql".to_string() },
        },
        NamedProfile { name: "pipe".to_string(), profile: ConfigProfile::PipeIntrospection },
        NamedProfile { name: "sdl".to_string(), profile: ConfigProfile::PipeSdl },
    ])
}

#[test]
fn url_comes_before_file_and_profiles() {
    let arguments = Arguments { url: o("http://x"), file: o("f.graphql"), ..no_arguments() };
    let config = CodegenJsonConfig { profiles: profiles(), ..empty_config() };
    assert_eq!(
        select_source(&arguments, Some(&config)),
        Ok((FetchMethod::Endpoint { url: "http://x".to_string() }, ProcessMethod::Introspection))
    );
    assert_eq!(
        select_source(&arguments, None),
        Ok((FetchMethod::Endpoint { url: "http://x".to_string() }, ProcessMethod::Introspection))
    );
}

#[test]
fn file_comes_before_profiles() {
    let arguments = Arguments { file: o("f.graphql"), profile: o("pipe"), ..no_arguments() };
    let config = CodegenJsonConfig { profiles: profiles(), ..empty_config() };
    assert_eq!(
        select_source(&arguments, Some(&config)),
        Ok((FetchMethod::File { path: "f.graphql".to_string() }, ProcessMethod::Sdl))
    );
}

#[test]
fn profile_is_looked_up_by_name() {
    let config = CodegenJsonConfig { profiles: profiles(), ..empty_config() };
    assert_eq!(
        select_source(&no_arguments(), Some(&config)),
        Ok((
            FetchMethod::Endpoint { url: "http://default".to_string() },
            ProcessMethod::Introspection
        ))
    );
    let named = |name: &str| Arguments { profile: o(name), ..no_arguments() };
    assert_eq!(
        select_source(&named("local"), Some(&config)),
        Ok((FetchMethod::File { path: "schema.graphql".to_string() }, ProcessMethod::Sdl))
    );
    assert_eq!(
        select_source(&named("pipe"), Some(&config)),
        Ok((FetchMethod::Pipe, ProcessMethod::Introspection))
    );
    assert_eq!(
        select_source(&named("sdl"), Some(&config)),
        Ok((FetchMethod::Pipe, ProcessMethod::Sdl))
    );
    assert_eq!(
        select_source(&named("other"), Some(&config)),
        Err(OptionsError::NoProfileNamed("other".to_string()))
    );
}

#[test]
fn missing_source_is_an_error() {
    assert_eq!(select_source(&no_arguments(), None), Err(OptionsError::NoFetchMethod));
    assert_eq!(
        select_source(&no_arguments(), Some(&empty_config())),
        Err(OptionsError::NoProfiles)
    );
    let no_default = CodegenJsonConfig { profiles: Some(vec![]), ..empty_config() };
    assert_eq!(
        select_source(&no_arguments(), Some(&no_default)),
        Err(OptionsError::NoProfileNamed("default".to_string()))
    );
}

#[test]
fn defaults_apply_without_configuration() {
    let arguments = Arguments { url: o("http://x"), output: o("out"), ..no_arguments() };
    assert_eq!(
        codegen_options(&arguments, None, "\n"),
        Ok(CodegenOptions {
            output_directory: "out".to_string(),
            line_break: "\n".to_string(),
            indent: "    ".to_string(),
            runtime_package: "graphql-freeze".to_string(),
            fetch: FetchMethod::Endpoint { url: "http://x".to_string() },
            process: ProcessMethod::Introspection,
        })
    );
    assert_eq!(
        codegen_options(&arguments, Some(&empty_config()), "\r\n").unwrap().line_break,
        "\r\n"
    );
}

#[test]
fn configuration_overrides_defaults() {
    let arguments = Arguments { profile: o("sdl"), ..no_arguments() };
    let config = CodegenJsonConfig {
        profiles: profiles(),
        output_directory: o("generated"),
        line_break: o("\r\n"),
        indent: o("\t"),
        runtime: o("my-runtime"),
    };
    assert_eq!(
        codegen_options(&arguments, Some(&config), "\n"),
        Ok(CodegenOptions {
            output_directory: "generated".to_string(),
            line_break: "\r\n".to_string(),
            indent: "\t".to_string(),
            runtime_package: "my-runtime".to_string(),
            fetch: FetchMethod::Pipe,
            process: ProcessMethod::Sdl,
        })
    );
}

#[test]
fn command_line_output_overrides_configuration() {
    let arguments = Arguments { output: o("here"), ..no_arguments() };
    let config =
        CodegenJsonConfig { profiles: profiles(), output_directory: o("there"), ..empty_config() };
    assert_eq!(codegen_options(&arguments, Some(&config), "\n").unwrap().output_directory, "here");
}

#[test]
fn missing_output_directory_is_reported_first() {
    assert_eq!(
        codegen_options(&no_arguments(), None, "\n"),
        Err(OptionsError::NoOutputDirectory)
    );
    let with_url = Arguments { url: o("http://x"), ..no_arguments() };
    assert_eq!(
        codegen_options(&with_url, Some(&empty_config()), "\n"),
        Err(OptionsError::NoOutputDirectory)
    );
    let with_output = Arguments { output: o("out"), ..no_arguments() };
    assert_eq!(codegen_options(&with_output, None, "\n"), Err(OptionsError::NoFetchMethod));
}

#[test]
fn errors_have_messages() {
    assert_eq!(OptionsError::NoOutputDirectory.message(), "No output directory was given");
    assert_eq!(
        OptionsError::NoProfileNamed("staging".to_string()).message(),
        "No profile named \"staging\""
    );
    assert_eq!(
        OptionsError::NoProfiles.message(),
        "No method to fetch schema was provided and default profile is not defined in config file"
    );
    assert_eq!(
        OptionsError::NoFetchMethod.message(),
        "No method to fetch schema was provided, use --url, --file or make a config"
    );
    assert_eq!(
        UnknownTypeReference { name: "Missing".to_string() }.message(),
        "Unknown type Missing"
    );
}
