//! The commands of the CLI.

use ndc_postgres::cli::{
    connector_metadata, plan, Action, CliPluginDefinition, Command, Commands,
    ConnectorMetadataDefinition, EnvironmentVariableDefinition, Error, Event, Next,
    PackagingDefinition, PrebuiltDockerImagePackaging, Run,
};

/// Carries a command out, where each action comes to what `perform` says.
fn carry_out(command: Command, perform: impl Fn(Action) -> Event) -> (Vec<Action>, Next) {
    let mut run = Run::start(command);
    let mut performed = vec![];
    let mut next = Next::Perform(run.action().unwrap());
    while let Next::Perform(action) = next {
        assert_eq!(run.action(), Some(action));
        performed.push(action);
        next = run.advance(perform(action));
    }
    assert_eq!(run.action(), None);
    (performed, next)
}

fn in_directory(has_items: bool) -> impl Fn(Action) -> Event {
    move |action| match action {
        Action::ListDirectory => Event::Listed { has_items },
        _ => Event::Done,
    }
}

#[test]
fn initialization_writes_a_configuration_into_an_empty_directory() {
    let (performed, next) =
        carry_out(Command::Initialize { with_metadata: false }, in_directory(false));
    assert_eq!(
        performed,
        vec![Action::CreateDirectory, Action::ListDirectory, Action::WriteEmptyConfiguration]
    );
    assert_eq!(next, Next::Finish);
}

#[test]
fn initialization_writes_metadata_on_request() {
    let (performed, next) =
        carry_out(Command::Initialize { with_metadata: true }, in_directory(false));
    assert_eq!(
        performed,
        vec![
            Action::CreateDirectory,
            Action::ListDirectory,
            Action::WriteEmptyConfiguration,
            Action::CreateMetadataDirectory,
            Action::WriteMetadata,
        ]
    );
    assert_eq!(next, Next::Finish);
}

#[test]
fn initialization_refuses_a_directory_that_holds_anything() {
    for with_metadata in [false, true] {
        let (performed, next) =
            carry_out(Command::Initialize { with_metadata }, in_directory(true));
        assert_eq!(performed, vec![Action::CreateDirectory, Action::ListDirectory]);
        assert_eq!(next, Next::Refuse(Error::DirectoryIsNotEmpty));
    }
    assert_eq!(Error::DirectoryIsNotEmpty.message(), "directory is not empty");
}

#[test]
fn update_writes_what_was_introspected() {
    let (performed, next) = carry_out(Command::Update, |_| Event::Done);
    assert_eq!(
        performed,
        vec![Action::ReadConfiguration, Action::Introspect, Action::WriteConfiguration]
    );
    assert_eq!(next, Next::Finish);
}

#[test]
fn nothing_is_done_after_a_failure() {
    for command in [
        Command::Initialize { with_metadata: true },
        Command::Initialize { with_metadata: false },
        Command::Update,
    ] {
        let whole = plan(command);
        for failing in 0..whole.len() {
            let (performed, next) = carry_out(command, |action| {
                if action == whole[failing] {
                    Event::Failed
                } else {
                    in_directory(false)(action)
                }
            });
            assert_eq!(performed, whole[..=failing].to_vec());
            assert_eq!(next, Next::Abandon);
        }
    }
}

#[test]
fn actions_have_paths_below_the_directory() {
    assert!(Action::CreateDirectory.path().is_empty());
    assert!(Action::ListDirectory.path().is_empty());
    assert!(Action::Introspect.path().is_empty());
    assert_eq!(Action::WriteEmptyConfiguration.path(), vec!["configuration.json"]);
    assert_eq!(Action::ReadConfiguration.path(), vec!["configuration.json"]);
    assert_eq!(Action::WriteConfiguration.path(), vec!["configuration.json"]);
    assert_eq!(Action::CreateMetadataDirectory.path(), vec![".hasura-connector"]);
    assert_eq!(
        Action::WriteMetadata.path(),
        vec![".hasura-connector", "connector-metadata.yaml"]
    );
}

fn expected_metadata(release: &str) -> ConnectorMetadataDefinition {
    ConnectorMetadataDefinition {
        packaging_definition: PackagingDefinition::PrebuiltDockerImage(
            PrebuiltDockerImagePackaging {
                docker_image: format!("ghcr.io/hasura/ndc-postgres:{release}"),
            },
        ),
        supported_environment_variables: vec![EnvironmentVariableDefinition {
            name: "CONNECTION_URI".to_string(),
            description: "The PostgreSQL connection URI".to_string(),
            default_value: None,
        }],
        commands: Commands { update: Some("update".to_string()), watch: None },
        cli_plugin: Some(CliPluginDefinition {
            name: "ndc-postgres".to_string(),
            version: release.to_string(),
        }),
        docker_compose_watch: vec![],
    }
}

#[test]
fn metadata_names_the_release() {
    assert_eq!(connector_metadata(Some("v0.4.0")), expected_metadata("v0.4.0"));
}

#[test]
fn metadata_names_the_latest_release_by_default() {
    assert_eq!(connector_metadata(None), expected_metadata("latest"));
}
