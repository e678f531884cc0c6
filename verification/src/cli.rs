//! The commands that the CLI can handle.
//!
//! A command is carried out as a plan: actions on the directory that the command runs in, one after
//! the other. What an action comes to decides whether the next one is performed.
use vstd::prelude::*;
use vstd::string::StringExecFns;

verus! {

////// Commands

/// The file that holds the configuration.
pub const CONFIGURATION_FILENAME: &'static str = "configuration.json";

/// The directory that holds the connector metadata.
pub const METADATA_DIRECTORY: &'static str = ".hasura-connector";

/// The file, in the metadata directory, that holds the connector metadata.
pub const METADATA_FILENAME: &'static str = "connector-metadata.yaml";

/// The command invoked by the user.
#[derive(Debug, Clone, Copy, PartialEq, Eq, Structural)]
pub enum Command {
    /// Initialize a configuration in the current (empty) directory.
    Initialize { with_metadata: bool },
    /// Update the configuration by introspecting the database, using the configuration options.
    Update,
}

/// The set of errors that can go wrong _in addition to_ generic I/O or parsing errors.
#[derive(Debug, Clone, Copy, PartialEq, Eq, Structural)]
pub enum Error {
    DirectoryIsNotEmpty,
}

impl Error {
    /// What the error says.
    pub fn message(&self) -> (r: String)
        ensures
            r@ == "directory is not empty"@,
    {
        match self {
            Error::DirectoryIsNotEmpty => "directory is not empty".to_string(),
        }
    }
}

////// Actions

/// An action on the directory that a command runs in.
#[derive(Debug, Clone, Copy, PartialEq, Eq, Structural)]
pub enum Action {
    /// Create the directory and its parents, where they are missing.
    CreateDirectory,
    /// Look whether the directory holds anything.
    ListDirectory,
    /// Write a configuration with default settings and options.
    WriteEmptyConfiguration,
    /// Create the directory of the connector metadata.
    CreateMetadataDirectory,
    /// Write the connector metadata.
    WriteMetadata,
    /// Read the configuration.
    ReadConfiguration,
    /// Introspect the database with the configuration that was read.
    Introspect,
    /// Write the configuration that the introspection gave.
    WriteConfiguration,
}

/// What an action came to.
#[derive(Debug, Clone, Copy, PartialEq, Eq, Structural)]
pub enum Event {
    /// The action is done.
    Done,
    /// The directory was listed.
    Listed { has_items: bool },
    /// The action could not be done.
    Failed,
}

/// What is to be done next.
#[derive(Debug, Clone, Copy, PartialEq, Eq, Structural)]
pub enum Next {
    /// Perform an action.
    Perform(Action),
    /// The command is carried out.
    Finish,
    /// The command is refused.
    Refuse(Error),
    /// The command is abandoned, because an action failed.
    Abandon,
}

/// The path that an action is about, below the directory that the command runs in.
pub open spec fn path_of(action: Action) -> Seq<Seq<char>> {
    match action {
        Action::CreateDirectory | Action::ListDirectory | Action::Introspect => Seq::empty(),
        Action::WriteEmptyConfiguration
        | Action::ReadConfiguration
        | Action::WriteConfiguration => seq![CONFIGURATION_FILENAME@],
        Action::CreateMetadataDirectory => seq![METADATA_DIRECTORY@],
        Action::WriteMetadata => seq![METADATA_DIRECTORY@, METADATA_FILENAME@],
    }
}

/// The views of names.
pub open spec fn names_view(names: Seq<&'static str>) -> Seq<Seq<char>> {
    Seq::new(names.len(), |i: int| names[i]@)
}

/// The actions that carry a command out.
pub open spec fn plan_of(command: Command) -> Seq<Action> {
    match command {
        Command::Initialize { with_metadata } => {
            let configuration = seq![
                Action::CreateDirectory,
                Action::ListDirectory,
                Action::WriteEmptyConfiguration,
            ];
            if with_metadata {
                configuration + seq![Action::CreateMetadataDirectory, Action::WriteMetadata]
            } else {
                configuration
            }
        },
        Command::Update => seq![
            Action::ReadConfiguration,
            Action::Introspect,
            Action::WriteConfiguration,
        ],
    }
}

/// An event is one that an action can come to.
pub open spec fn answers(action: Action, event: Event) -> bool {
    match event {
        Event::Done => action != Action::ListDirectory,
        Event::Listed { .. } => action == Action::ListDirectory,
        Event::Failed => true,
    }
}

/// What is to be done once the action at a place of a plan has come to an event.
pub open spec fn next_of(plan: Seq<Action>, position: int, event: Event) -> Next {
    match event {
        Event::Failed => Next::Abandon,
        Event::Listed { has_items: true } => Next::Refuse(Error::DirectoryIsNotEmpty),
        _ => if position + 1 < plan.len() {
            Next::Perform(plan[position + 1])
        } else {
            Next::Finish
        },
    }
}

impl Action {
    /// The path that the action is about, below the directory that the command runs in.
    pub fn path(&self) -> (r: Vec<&'static str>)
        ensures
            names_view(r@) == path_of(*self),
    {
        let mut path: Vec<&'static str> = Vec::new();
        match self {
            Action::CreateDirectory | Action::ListDirectory | Action::Introspect => {},
            Action::WriteEmptyConfiguration
            | Action::ReadConfiguration
            | Action::WriteConfiguration => {
                path.push(CONFIGURATION_FILENAME);
            },
            Action::CreateMetadataDirectory => {
                path.push(METADATA_DIRECTORY);
            },
            Action::WriteMetadata => {
                path.push(METADATA_DIRECTORY);
                path.push(METADATA_FILENAME);
            },
        }
        assert(names_view(path@) =~= path_of(*self));
        path
    }
}

/// The actions that carry a command out, in the order in which they are performed.
pub fn plan(command: Command) -> (r: Vec<Action>)
    ensures
        r@ == plan_of(command),
{
    let mut actions: Vec<Action> = Vec::new();
    match command {
        Command::Initialize { with_metadata } => {
            actions.push(Action::CreateDirectory);
            // refuse to initialize the directory unless it is empty
            actions.push(Action::ListDirectory);
            // create the configuration file
            actions.push(Action::WriteEmptyConfiguration);
            // if requested, create the metadata
            if with_metadata {
                actions.push(Action::CreateMetadataDirectory);
                actions.push(Action::WriteMetadata);
            }
        },
        Command::Update => {
            actions.push(Action::ReadConfiguration);
            actions.push(Action::Introspect);
            actions.push(Action::WriteConfiguration);
        },
    }
    assert(actions@ =~= plan_of(command));
    actions
}

/// A command that is being carried out.
pub struct Run {
    plan: Vec<Action>,
    position: usize,
}

impl Run {
    /// The actions that carry the command out.
    pub closed spec fn plan(self) -> Seq<Action> {
        self.plan@
    }

    /// The place, in the plan, of the action that is being performed.
    pub closed spec fn position(self) -> int {
        self.position as int
    }

    /// An action is being performed.
    pub open spec fn is_running(self) -> bool {
        0 <= self.position() < self.plan().len()
    }

    /// The action that is being performed.
    pub open spec fn spec_action(self) -> Action {
        self.plan()[self.position()]
    }

    /// Starts to carry a command out, with the first action of its plan.
    pub fn start(command: Command) -> (r: Run)
        ensures
            r.plan() == plan_of(command),
            r.position() == 0,
            r.is_running(),
    {
        Run { plan: plan(command), position: 0 }
    }

    /// The action that is being performed, or nothing where the plan is done.
    pub fn action(&self) -> (r: Option<Action>)
        ensures
            r == if self.is_running() {
                Some(self.spec_action())
            } else {
                None
            },
    {
        if self.position < self.plan.len() {
            Some(self.plan[self.position])
        } else {
            None
        }
    }

    /// Takes what the action came to, and says what is to be done next. Where nothing more is to be
    /// performed, nothing is being performed any more.
    pub fn advance(&mut self, event: Event) -> (r: Next)
        requires
            old(self).is_running(),
            answers(old(self).spec_action(), event),
        ensures
            r == next_of(old(self).plan(), old(self).position(), event),
            final(self).plan() == old(self).plan(),
            final(self).position() == if r is Perform {
                old(self).position() + 1
            } else {
                old(self).plan().len() as int
            },
    {
        let length: usize = self.plan.len();
        match event {
            Event::Failed => {
                self.position = length;
                Next::Abandon
            },
            Event::Listed { has_items: true } => {
                self.position = length;
                Next::Refuse(Error::DirectoryIsNotEmpty)
            },
            Event::Done | Event::Listed { has_items: false } => {
                self.position = self.position + 1;
                if self.position < length {
                    Next::Perform(self.plan[self.position])
                } else {
                    Next::Finish
                }
            },
        }
    }
}

////// What holds of every run

/// A command can be carried out so far: the actions were performed one after the other, each but
/// the last came to an event, and the event led to the next action.
pub open spec fn is_history(command: Command, actions: Seq<Action>, events: Seq<Event>) -> bool {
    &&& actions.len() == events.len() + 1
    &&& actions[0] == plan_of(command)[0]
    &&& forall|i: int|
        0 <= i < events.len() ==> answers(actions[i], #[trigger] events[i]) && next_of(
            plan_of(command),
            i,
            events[i],
        ) == Next::Perform(actions[i + 1])
}

/// An action changes what the directory holds.
pub open spec fn writes(action: Action) -> bool {
    match action {
        Action::WriteEmptyConfiguration
        | Action::CreateMetadataDirectory
        | Action::WriteMetadata
        | Action::WriteConfiguration => true,
        _ => false,
    }
}

/// The actions that were performed are the first ones of the command's plan.
pub proof fn lemma_history_follows_the_plan(
    command: Command,
    actions: Seq<Action>,
    events: Seq<Event>,
)
    requires
        is_history(command, actions, events),
    ensures
        actions.len() <= plan_of(command).len(),
        actions == plan_of(command).take(actions.len() as int),
    decreases events.len(),
{
    let plan = plan_of(command);
    if events.len() == 0 {
        assert(actions =~= plan.take(1));
    } else {
        let earlier_actions = actions.drop_last();
        let earlier_events = events.drop_last();
        assert forall|i: int| 0 <= i < earlier_events.len() implies answers(
            earlier_actions[i],
            #[trigger] earlier_events[i],
        ) && next_of(plan, i, earlier_events[i]) == Next::Perform(earlier_actions[i + 1]) by {
            assert(earlier_events[i] == events[i]);
        }
        lemma_history_follows_the_plan(command, earlier_actions, earlier_events);
        let last = events.len() - 1;
        assert(next_of(plan, last, events[last]) == Next::Perform(actions[last + 1]));
        assert(actions =~= earlier_actions.push(plan[last + 1]));
        assert(actions =~= plan.take(actions.len() as int));
    }
}

/// A directory that holds anything is not initialized: whatever initialization writes, it writes
/// after it has seen that the directory is empty.
pub proof fn lemma_only_an_empty_directory_is_initialized(
    with_metadata: bool,
    actions: Seq<Action>,
    events: Seq<Event>,
    i: int,
)
    requires
        is_history(Command::Initialize { with_metadata }, actions, events),
        0 <= i < actions.len(),
        writes(actions[i]),
    ensures
        exists|j: int|
            0 <= j < i && #[trigger] actions[j] == Action::ListDirectory && events[j] == (
            Event::Listed { has_items: false }),
{
    let command = Command::Initialize { with_metadata };
    lemma_history_follows_the_plan(command, actions, events);
    assert(actions[i] == plan_of(command)[i]);
    assert(actions[0] == plan_of(command)[0]);
    assert(i >= 2);
    assert(actions[1] == plan_of(command)[1]);
    assert(answers(actions[1], events[1]));
}

/// The configuration is replaced only by what an introspection gave, which came after the
/// configuration was read.
pub proof fn lemma_update_writes_what_was_introspected(
    actions: Seq<Action>,
    events: Seq<Event>,
    i: int,
)
    requires
        is_history(Command::Update, actions, events),
        0 <= i < actions.len(),
        writes(actions[i]),
    ensures
        i == 2,
        actions == seq![
            Action::ReadConfiguration,
            Action::Introspect,
            Action::WriteConfiguration,
        ],
        events == seq![Event::Done, Event::Done],
{
    lemma_history_follows_the_plan(Command::Update, actions, events);
    assert(actions[i] == plan_of(Command::Update)[i]);
    assert(actions[0] == plan_of(Command::Update)[0]);
    assert(i == 2);
    assert(actions =~= plan_of(Command::Update));
    assert(answers(actions[0], events[0]));
    assert(answers(actions[1], events[1]));
    assert(events =~= seq![Event::Done, Event::Done]);
}

/// A command that is carried out has performed its whole plan, and an initialization writes the
/// connector metadata if and only if that was requested.
pub proof fn lemma_finished_history_is_the_plan(
    command: Command,
    actions: Seq<Action>,
    events: Seq<Event>,
    event: Event,
)
    requires
        is_history(command, actions, events),
        answers(actions.last(), event),
        next_of(plan_of(command), events.len() as int, event) == Next::Finish,
    ensures
        actions == plan_of(command),
        actions.contains(Action::WriteMetadata) <==> command == (Command::Initialize {
            with_metadata: true,
        }),
{
    lemma_history_follows_the_plan(command, actions, events);
    assert(actions =~= plan_of(command));
    if command == (Command::Initialize { with_metadata: true }) {
        assert(actions[4] == Action::WriteMetadata);
    }
}

/// Nothing is performed after an action that failed, nor after a listing that found anything.
pub proof fn lemma_nothing_follows_a_failure(
    command: Command,
    actions: Seq<Action>,
    events: Seq<Event>,
    i: int,
)
    requires
        is_history(command, actions, events),
        0 <= i < events.len(),
    ensures
        events[i] != Event::Failed,
        events[i] != (Event::Listed { has_items: true }),
{
    assert(answers(actions[i], events[i]));
}

/// What an event leads to: a failure abandons the command, a listing that found anything refuses it,
/// and everything else leads to the next action, or to the end after the last one.
pub proof fn lemma_events_decide(plan: Seq<Action>, position: int, event: Event)
    requires
        0 <= position < plan.len(),
    ensures
        next_of(plan, position, event) is Abandon <==> event is Failed,
        next_of(plan, position, event) is Refuse <==> event == (Event::Listed { has_items: true }),
        next_of(plan, position, event) matches Next::Refuse(error) ==> error is DirectoryIsNotEmpty,
        next_of(plan, position, event) is Finish <==> position == plan.len() - 1 && (
        event is Done || event == (Event::Listed { has_items: false })),
        next_of(plan, position, event) matches Next::Perform(action) ==> position + 1 < plan.len()
            && action == plan[position + 1],
{
}

/// What a finished command has performed: an initialization has created and listed the directory,
/// and written the configuration and, on request, the connector metadata; an update has read,
/// introspected and written the configuration.
pub proof fn lemma_finished_command_has_done_its_work(
    command: Command,
    actions: Seq<Action>,
    events: Seq<Event>,
    event: Event,
)
    requires
        is_history(command, actions, events),
        answers(actions.last(), event),
        next_of(plan_of(command), events.len() as int, event) == Next::Finish,
    ensures
        command == (Command::Initialize { with_metadata: false }) ==> actions == seq![
            Action::CreateDirectory,
            Action::ListDirectory,
            Action::WriteEmptyConfiguration,
        ],
        command == (Command::Initialize { with_metadata: true }) ==> actions == seq![
            Action::CreateDirectory,
            Action::ListDirectory,
            Action::WriteEmptyConfiguration,
            Action::CreateMetadataDirectory,
            Action::WriteMetadata,
        ],
        command is Update ==> actions == seq![
            Action::ReadConfiguration,
            Action::Introspect,
            Action::WriteConfiguration,
        ],
{
    lemma_finished_history_is_the_plan(command, actions, events, event);
}

/// The configuration is read from and written to one file of the directory, and the connector
/// metadata stands in a directory of its own below it.
pub proof fn lemma_files_have_their_places(action: Action)
    ensures
        path_of(action) == (match action {
            Action::CreateDirectory | Action::ListDirectory | Action::Introspect => {
                Seq::<Seq<char>>::empty()
            },
            Action::WriteEmptyConfiguration
            | Action::ReadConfiguration
            | Action::WriteConfiguration => seq!["configuration.json"@],
            Action::CreateMetadataDirectory => seq![".hasura-connector"@],
            Action::WriteMetadata => seq![".hasura-connector"@, "connector-metadata.yaml"@],
        }),
{
}

////// Connector metadata

/// How the connector is packaged.
#[derive(Debug, PartialEq, Eq)]
pub enum PackagingDefinition {
    PrebuiltDockerImage(PrebuiltDockerImagePackaging),
}

/// A connector that is packaged as a Docker image.
#[derive(Debug, PartialEq, Eq)]
pub struct PrebuiltDockerImagePackaging {
    pub docker_image: String,
}

/// An environment variable that the connector reads.
#[derive(Debug, PartialEq, Eq)]
pub struct EnvironmentVariableDefinition {
    pub name: String,
    pub description: String,
    pub default_value: Option<String>,
}

/// The commands of this CLI that are run on a configuration directory.
#[derive(Debug, PartialEq, Eq)]
pub struct Commands {
    pub update: Option<String>,
    pub watch: Option<String>,
}

/// The plugin that this CLI is.
#[derive(Debug, PartialEq, Eq)]
pub struct CliPluginDefinition {
    pub name: String,
    pub version: String,
}

/// What the Hasura CLI needs to know to work with this CLI as a plugin.
#[derive(Debug, PartialEq, Eq)]
pub struct ConnectorMetadataDefinition {
    pub packaging_definition: PackagingDefinition,
    pub supported_environment_variables: Vec<EnvironmentVariableDefinition>,
    pub commands: Commands,
    pub cli_plugin: Option<CliPluginDefinition>,
    pub docker_compose_watch: Vec<String>,
}

/// The release that metadata is written for: the latest, unless the release is known.
pub open spec fn release_of(release_version: Option<&str>) -> Seq<char> {
    match release_version {
        Some(version) => version@,
        None => "latest"@,
    }
}

/// The connector metadata of a release.
pub open spec fn describes_release(
    metadata: ConnectorMetadataDefinition,
    release: Seq<char>,
) -> bool {
    &&& metadata.packaging_definition matches PackagingDefinition::PrebuiltDockerImage(packaging)
        && packaging.docker_image@ == "ghcr.io/hasura/ndc-postgres:"@ + release
    &&& metadata.supported_environment_variables@.len() == 1
    &&& metadata.supported_environment_variables@[0].name@ == "CONNECTION_URI"@
    &&& metadata.supported_environment_variables@[0].description@
        == "The PostgreSQL connection URI"@
    &&& metadata.supported_environment_variables@[0].default_value is None
    &&& metadata.commands.update matches Some(update) && update@ == "update"@
    &&& metadata.commands.watch is None
    &&& metadata.cli_plugin matches Some(plugin) && plugin.name@ == "ndc-postgres"@
        && plugin.version@ == release
    &&& metadata.docker_compose_watch@.len() == 0
}

/// The connector metadata, which is used by the Hasura CLI to automatically work with this CLI as a
/// plugin.
pub fn connector_metadata(release_version: Option<&str>) -> (r: ConnectorMetadataDefinition)
    ensures
        describes_release(r, release_of(release_version)),
{
    let release: &str = match release_version {
        Some(version) => version,
        None => "latest",
    };
    let mut variables: Vec<EnvironmentVariableDefinition> = Vec::new();
    variables.push(
        EnvironmentVariableDefinition {
            name: "CONNECTION_URI".to_string(),
            description: "The PostgreSQL connection URI".to_string(),
            default_value: None,
        },
    );
    ConnectorMetadataDefinition {
        packaging_definition: PackagingDefinition::PrebuiltDockerImage(
            PrebuiltDockerImagePackaging {
                docker_image: "ghcr.io/hasura/ndc-postgres:".to_string().concat(release),
            },
        ),
        supported_environment_variables: variables,
        commands: Commands { update: Some("update".to_string()), watch: None },
        cli_plugin: Some(
            CliPluginDefinition {
                name: "ndc-postgres".to_string(),
                version: release.to_string(),
            },
        ),
        docker_compose_watch: Vec::new(),
    }
}

/// The connector metadata names one release, in its image and in its plugin: the one that is given,
/// whatever it is, or else the latest. Everything else is the same for all releases.
pub proof fn lemma_metadata_names_its_release(
    metadata: ConnectorMetadataDefinition,
    release_version: Option<&str>,
)
    requires
        describes_release(metadata, release_of(release_version)),
    ensures
        ({
            let release = if release_version is Some {
                release_version->Some_0@
            } else {
                "latest"@
            };
            let PackagingDefinition::PrebuiltDockerImage(packaging) = metadata.packaging_definition;
            let variables = metadata.supported_environment_variables@;
            &&& packaging.docker_image@ == "ghcr.io/hasura/ndc-postgres:"@ + release
            &&& metadata.cli_plugin is Some
            &&& metadata.cli_plugin->Some_0.name@ == "ndc-postgres"@
            &&& metadata.cli_plugin->Some_0.version@ == release
            &&& variables.len() == 1
            &&& variables[0].name@ == "CONNECTION_URI"@
            &&& variables[0].description@ == "The PostgreSQL connection URI"@
            &&& variables[0].default_value is None
            &&& metadata.commands.update is Some
            &&& metadata.commands.update->Some_0@ == "update"@
            &&& metadata.commands.watch is None
            &&& metadata.docker_compose_watch@.len() == 0
        }),
{
}

} // verus!
