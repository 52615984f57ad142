//! Launching a selected application: a chain of steps, each carried out by
//! the host, whose outcome decides the next one.
//!
//! The chain: validate the descriptor; for an application that needs a
//! terminal, try the known terminal emulators in order, reading the
//! descriptor's command anew for each; then the desktop launch helper; then
//! the helper that opens a descriptor by its path. Nothing follows that.

use crate::descriptor::{models, text_of, AppInfo, AppModel};
use crate::text::{
    chars_of, find_in_range, first_word, lemma_line_at, lemma_split_lines_nonempty, range_is,
    skip_spaces, split_lines, word_end,
};
use vstd::prelude::*;

verus! {

/// What the host has to do next, or how the launch ended.
#[derive(Debug, Clone, PartialEq, Eq)]
pub enum LaunchStep {
    /// Run the validator on the descriptor and wait for it.
    Validate { terminal: bool },
    /// Read the descriptor's text, for the terminal emulator number `attempt`.
    ReadDescriptor { attempt: usize },
    /// Start the terminal emulator number `attempt` with `command` in it, and do not wait.
    Spawn { attempt: usize, command: String },
    /// Run the desktop launch helper and wait for it.
    DirectLaunch,
    /// Run the helper that opens a descriptor by its path, and wait for it.
    OpenByPath,
    /// The launch is over.
    Done { success: bool },
}

/// The mathematical value of a [`LaunchStep`].
pub enum StepModel {
    Validate { terminal: bool },
    ReadDescriptor { attempt: nat },
    Spawn { attempt: nat, command: Seq<char> },
    DirectLaunch,
    OpenByPath,
    Done { success: bool },
}

impl View for LaunchStep {
    type V = StepModel;

    open spec fn view(&self) -> StepModel {
        match *self {
            LaunchStep::Validate { terminal } => StepModel::Validate { terminal },
            LaunchStep::ReadDescriptor { attempt } => StepModel::ReadDescriptor {
                attempt: attempt as nat,
            },
            LaunchStep::Spawn { attempt, command } => StepModel::Spawn {
                attempt: attempt as nat,
                command: command@,
            },
            LaunchStep::DirectLaunch => StepModel::DirectLaunch,
            LaunchStep::OpenByPath => StepModel::OpenByPath,
            LaunchStep::Done { success } => StepModel::Done { success },
        }
    }
}

/// How the step that the host was given came out.
#[derive(Debug, Clone, PartialEq, Eq)]
pub enum LaunchEvent {
    /// The program ran to its end; `success` is its exit status.
    Exited { success: bool },
    /// The program was started.
    Started,
    /// The descriptor was read; `content` is its text.
    Descriptor { content: String },
    /// The step could not be carried out: no such program, no such file.
    Unavailable,
}

/// The mathematical value of a [`LaunchEvent`].
pub enum EventModel {
    Exited { success: bool },
    Started,
    Descriptor { content: Seq<char> },
    Unavailable,
}

impl View for LaunchEvent {
    type V = EventModel;

    open spec fn view(&self) -> EventModel {
        match *self {
            LaunchEvent::Exited { success } => EventModel::Exited { success },
            LaunchEvent::Started => EventModel::Started,
            LaunchEvent::Descriptor { content } => EventModel::Descriptor { content: content@ },
            LaunchEvent::Unavailable => EventModel::Unavailable,
        }
    }
}

/// A program and the arguments to run it with.
#[derive(Debug, Clone, PartialEq, Eq)]
pub struct CommandLine {
    pub program: String,
    pub arguments: Vec<String>,
}

/// The mathematical value of a [`CommandLine`].
pub struct CommandModel {
    pub program: Seq<char>,
    pub arguments: Seq<Seq<char>>,
}

impl View for CommandLine {
    type V = CommandModel;

    open spec fn view(&self) -> CommandModel {
        CommandModel {
            program: self.program@,
            arguments: self.arguments@.map_values(|a: String| a@),
        }
    }
}

/// The known terminal emulators, in the order they are tried.
pub open spec fn terminal_programs() -> Seq<Seq<char>> {
    seq![
        "gnome-terminal"@,
        "konsole"@,
        "xterm"@,
        "alacritty"@,
        "kitty"@,
        "urxvt"@,
        "st"@,
    ]
}

/// What a line that gives the command begins with.
pub open spec fn exec_prefix() -> Seq<char> {
    "Exec="@
}

/// The first of the lines from number `from` on that begins with `Exec=`.
pub open spec fn exec_line_from(lines: Seq<Seq<char>>, from: int) -> Option<Seq<char>>
    decreases lines.len() - from,
{
    if from < 0 || from >= lines.len() {
        None
    } else if exec_prefix().is_prefix_of(lines[from]) {
        Some(lines[from])
    } else {
        exec_line_from(lines, from + 1)
    }
}

/// The program that a descriptor of text `content` asks to run: the first
/// word after `Exec=` on the first line that begins so. None where no line
/// begins so, and none where that line names nothing.
pub open spec fn launch_command(content: Seq<char>) -> Option<Seq<char>> {
    match exec_line_from(split_lines(content), 0) {
        Some(line) => {
            let word = first_word(line.skip(exec_prefix().len() as int));
            if word.len() > 0 {
                Some(word)
            } else {
                None
            }
        },
        None => None,
    }
}

/// The step after a validation that did not fail.
pub open spec fn after_validation(terminal: bool) -> StepModel {
    if terminal {
        StepModel::ReadDescriptor { attempt: 0 }
    } else {
        StepModel::DirectLaunch
    }
}

/// The step after the terminal emulator number `attempt` did not start the
/// command: the next emulator, or past the last one the desktop launch helper.
pub open spec fn after_attempt(attempt: nat) -> StepModel {
    if attempt + 1 < terminal_programs().len() {
        StepModel::ReadDescriptor { attempt: attempt + 1 }
    } else {
        StepModel::DirectLaunch
    }
}

/// The step that follows `step` when it came out as `event`.
///
/// An outcome that a step cannot have counts as that step not carried out.
pub open spec fn next_step(step: StepModel, event: EventModel) -> StepModel {
    match step {
        StepModel::Validate { terminal } => match event {
            EventModel::Exited { success: false } => StepModel::Done { success: false },
            _ => after_validation(terminal),
        },
        StepModel::ReadDescriptor { attempt } => match event {
            EventModel::Descriptor { content } => match launch_command(content) {
                Some(command) => if attempt < terminal_programs().len() {
                    StepModel::Spawn { attempt, command }
                } else {
                    StepModel::DirectLaunch
                },
                None => after_attempt(attempt),
            },
            _ => after_attempt(attempt),
        },
        StepModel::Spawn { attempt, command } => match event {
            EventModel::Started => StepModel::Done { success: true },
            _ => after_attempt(attempt),
        },
        StepModel::DirectLaunch => match event {
            EventModel::Exited { success: true } => StepModel::Done { success: true },
            _ => StepModel::OpenByPath,
        },
        StepModel::OpenByPath => match event {
            EventModel::Exited { success } => StepModel::Done { success },
            _ => StepModel::Done { success: false },
        },
        StepModel::Done { success } => StepModel::Done { success },
    }
}

/// The command line that carries out `step` for the descriptor at `path`;
/// none for a step that runs no program.
pub open spec fn command_of(step: StepModel, path: Seq<char>) -> Option<CommandModel> {
    match step {
        StepModel::Validate { terminal } => Some(
            CommandModel { program: "desktop-file-validate"@, arguments: seq![path] },
        ),
        StepModel::Spawn { attempt, command } => if attempt < terminal_programs().len() {
            Some(
                CommandModel {
                    program: terminal_programs()[attempt as int],
                    arguments: seq!["-e"@, command],
                },
            )
        } else {
            None
        },
        StepModel::DirectLaunch => Some(
            CommandModel { program: "gtk-launch"@, arguments: seq![path] },
        ),
        StepModel::OpenByPath => Some(
            CommandModel { program: "gio"@, arguments: seq!["launch"@, path] },
        ),
        StepModel::ReadDescriptor { attempt } => None,
        StepModel::Done { success } => None,
    }
}

/// Whether the application selected by `selection` needs a terminal: the
/// flag of the first record whose path is `selection`, and no where there is
/// no such record.
pub open spec fn selected_terminal(apps: Seq<AppModel>, selection: Seq<char>) -> bool
    decreases apps.len(),
{
    if apps.len() == 0 {
        false
    } else if apps.first().path == selection {
        apps.first().terminal
    } else {
        selected_terminal(apps.drop_first(), selection)
    }
}

/// The first step of the launch of `selection`, with `apps` the catalog if
/// there is one.
pub open spec fn first_step(apps: Option<Seq<AppModel>>, selection: Seq<char>) -> StepModel {
    StepModel::Validate {
        terminal: match apps {
            Some(list) => selected_terminal(list, selection),
            None => false,
        },
    }
}

/// Whether `step` belongs to the chain without a terminal emulator:
/// validation for an application that needs none, the two helpers, the end.
pub open spec fn on_direct_chain(step: StepModel) -> bool {
    match step {
        StepModel::Validate { terminal } => !terminal,
        StepModel::DirectLaunch => true,
        StepModel::OpenByPath => true,
        StepModel::Done { success } => true,
        _ => false,
    }
}

/// A selection that is the path of no record of the catalog is launched all
/// the same, as an application that needs no terminal: its first step is the
/// validation, not the end, and whatever the outcomes, the chain never
/// reads the descriptor for a command nor starts a terminal emulator.
pub proof fn lemma_unknown_selection_takes_direct_chain(
    apps: Option<Seq<AppModel>>,
    selection: Seq<char>,
)
    requires
        apps matches Some(list) ==> forall|i: int|
            0 <= i < list.len() ==> (#[trigger] list[i]).path != selection,
    ensures
        first_step(apps, selection) == (StepModel::Validate { terminal: false }),
        on_direct_chain(first_step(apps, selection)),
        forall|step: StepModel, event: EventModel|
            on_direct_chain(step) ==> on_direct_chain(#[trigger] next_step(step, event)),
{
    if let Some(list) = apps {
        lemma_no_record_no_terminal(list, selection);
    }
}

/// Where no record has the path `selection`, no terminal is asked for.
proof fn lemma_no_record_no_terminal(apps: Seq<AppModel>, selection: Seq<char>)
    requires
        forall|i: int| 0 <= i < apps.len() ==> (#[trigger] apps[i]).path != selection,
    ensures
        !selected_terminal(apps, selection),
    decreases apps.len(),
{
    if apps.len() > 0 {
        lemma_no_record_no_terminal(apps.drop_first(), selection);
    }
}

/// What a launch meets on the host, taken not to change meanwhile.
pub struct HostModel {
    /// The exit status of the validator; none where it cannot be run.
    pub validation: Option<bool>,
    /// The descriptor's text; none where it cannot be read.
    pub descriptor: Option<Seq<char>>,
    /// Whether the terminal emulator of a number can be started.
    pub starts: spec_fn(nat) -> bool,
    /// The exit status of the desktop launch helper; none where it cannot be run.
    pub direct: Option<bool>,
    /// The exit status of the helper that opens by path; none where it cannot be run.
    pub open: Option<bool>,
}

/// How a launch ended.
pub struct OutcomeModel {
    /// What is reported to the host.
    pub success: bool,
    /// The number of the terminal emulator that was started, and the command
    /// it was started with, where the launch ended so.
    pub spawned: Option<(nat, Seq<char>)>,
}

/// The outcome of a program that was waited for.
pub open spec fn exit_event(status: Option<bool>) -> EventModel {
    match status {
        Some(success) => EventModel::Exited { success },
        None => EventModel::Unavailable,
    }
}

/// How `step` comes out on `host`.
pub open spec fn event_on(host: HostModel, step: StepModel) -> EventModel {
    match step {
        StepModel::Validate { terminal } => exit_event(host.validation),
        StepModel::ReadDescriptor { attempt } => match host.descriptor {
            Some(content) => EventModel::Descriptor { content },
            None => EventModel::Unavailable,
        },
        StepModel::Spawn { attempt, command } => if (host.starts)(attempt) {
            EventModel::Started
        } else {
            EventModel::Unavailable
        },
        StepModel::DirectLaunch => exit_event(host.direct),
        StepModel::OpenByPath => exit_event(host.open),
        StepModel::Done { success } => EventModel::Unavailable,
    }
}

/// A bound on the number of steps that can follow `step`.
pub open spec fn steps_left(step: StepModel) -> nat {
    match step {
        StepModel::Validate { terminal } => 2 * terminal_programs().len() + 4,
        StepModel::ReadDescriptor { attempt } => if attempt < terminal_programs().len() {
            (2 * (terminal_programs().len() - attempt) + 3) as nat
        } else {
            3
        },
        StepModel::Spawn { attempt, command } => if attempt < terminal_programs().len() {
            (2 * (terminal_programs().len() - attempt) + 2) as nat
        } else {
            3
        },
        StepModel::DirectLaunch => 2,
        StepModel::OpenByPath => 1,
        StepModel::Done { success } => 0,
    }
}

/// Every step that is not the end is followed by one with fewer steps left:
/// a launch comes to its end, whatever the outcomes.
pub proof fn lemma_launch_makes_progress(step: StepModel, event: EventModel)
    requires
        !(step is Done),
    ensures
        steps_left(next_step(step, event)) < steps_left(step),
{
}

/// The launch carried on from `step` on `host` until it is over.
pub open spec fn launch_to_end(host: HostModel, step: StepModel) -> OutcomeModel
    decreases steps_left(step),
{
    match step {
        StepModel::Done { success } => OutcomeModel { success, spawned: None },
        StepModel::Spawn { attempt, command } => if (host.starts)(attempt) {
            OutcomeModel { success: true, spawned: Some((attempt, command)) }
        } else {
            launch_to_end(host, next_step(step, event_on(host, step)))
        },
        _ => launch_to_end(host, next_step(step, event_on(host, step))),
    }
}

/// The first terminal emulator from number `from` on that can be started.
pub open spec fn first_terminal_from(host: HostModel, from: nat) -> Option<nat>
    decreases terminal_programs().len() - from,
{
    if from >= terminal_programs().len() {
        None
    } else if (host.starts)(from) {
        Some(from)
    } else {
        first_terminal_from(host, from + 1)
    }
}

/// How the two helpers end a launch: the desktop launch helper where it
/// succeeds, else the helper that opens by path, whose status is final.
pub open spec fn helpers_outcome(host: HostModel) -> OutcomeModel {
    OutcomeModel {
        success: host.direct == Some(true) || host.open == Some(true),
        spawned: None,
    }
}

/// How the attempts with terminal emulators from number `from` on end a
/// launch: the command of the descriptor is started in the first emulator
/// that can be started; without a command, or without such an emulator, the
/// helpers follow.
pub open spec fn terminals_outcome(host: HostModel, from: nat) -> OutcomeModel {
    let command = match host.descriptor {
        Some(content) => launch_command(content),
        None => None,
    };
    match (command, first_terminal_from(host, from)) {
        (Some(command), Some(number)) => OutcomeModel {
            success: true,
            spawned: Some((number, command)),
        },
        _ => helpers_outcome(host),
    }
}

/// How the launch of an application ends on `host`: in failure where the
/// validator runs and fails; else, for an application that needs a terminal,
/// as [`terminals_outcome`] says from the first emulator on; else as
/// [`helpers_outcome`] says.
pub open spec fn launch_outcome(host: HostModel, terminal: bool) -> OutcomeModel {
    if host.validation == Some(false) {
        OutcomeModel { success: false, spawned: None }
    } else if terminal {
        terminals_outcome(host, 0)
    } else {
        helpers_outcome(host)
    }
}

/// A launch carried to its end, step by step, ends as [`launch_outcome`] says.
pub proof fn lemma_launch_runs_the_chain(host: HostModel, terminal: bool)
    ensures
        launch_to_end(host, StepModel::Validate { terminal }) == launch_outcome(host, terminal),
{
    let first = StepModel::Validate { terminal };
    lemma_helpers_end_the_chain(host);
    if host.validation == Some(false) {
        assert(next_step(first, event_on(host, first)) == (StepModel::Done { success: false }));
        assert(launch_to_end(host, StepModel::Done { success: false }) == (OutcomeModel {
            success: false,
            spawned: None,
        }));
    } else if terminal {
        assert(next_step(first, event_on(host, first)) == (StepModel::ReadDescriptor {
            attempt: 0,
        }));
        lemma_terminals_are_tried_in_order(host, 0);
    } else {
        assert(next_step(first, event_on(host, first)) == StepModel::DirectLaunch);
    }
}

/// From the desktop launch helper on, a launch ends as [`helpers_outcome`] says.
proof fn lemma_helpers_end_the_chain(host: HostModel)
    ensures
        launch_to_end(host, StepModel::DirectLaunch) == helpers_outcome(host),
{
    reveal_with_fuel(launch_to_end, 3);
}

/// From the attempt with the terminal emulator number `from` on, a launch
/// ends as [`terminals_outcome`] says.
proof fn lemma_terminals_are_tried_in_order(host: HostModel, from: nat)
    ensures
        launch_to_end(host, StepModel::ReadDescriptor { attempt: from }) == terminals_outcome(
            host,
            from,
        ),
    decreases terminal_programs().len() - from,
{
    let step = StepModel::ReadDescriptor { attempt: from };
    let next = next_step(step, event_on(host, step));
    assert(launch_to_end(host, step) == launch_to_end(host, next));
    lemma_helpers_end_the_chain(host);
    if from + 1 < terminal_programs().len() {
        lemma_terminals_are_tried_in_order(host, from + 1);
    }
    let command = match host.descriptor {
        Some(content) => launch_command(content),
        None => None,
    };
    if from < terminal_programs().len() {
        match command {
            Some(command) => {
                let spawn = StepModel::Spawn { attempt: from, command };
                assert(next == spawn);
                if !(host.starts)(from) {
                    assert(next_step(spawn, event_on(host, spawn)) == after_attempt(from));
                    assert(launch_to_end(host, spawn) == launch_to_end(host, after_attempt(from)));
                }
            },
            None => {
                assert(next == after_attempt(from));
                lemma_no_command_no_terminal(host, from);
            },
        }
    } else {
        assert(next == StepModel::DirectLaunch);
    }
}

/// Without a command the attempts go by, one after the other, to the helpers.
proof fn lemma_no_command_no_terminal(host: HostModel, from: nat)
    requires
        (match host.descriptor {
            Some(content) => launch_command(content),
            None => None,
        }) is None,
    ensures
        launch_to_end(host, after_attempt(from)) == helpers_outcome(host),
    decreases terminal_programs().len() - from,
{
    lemma_helpers_end_the_chain(host);
    if from + 1 < terminal_programs().len() {
        let step = StepModel::ReadDescriptor { attempt: from + 1 };
        assert(next_step(step, event_on(host, step)) == after_attempt(from + 1));
        lemma_no_command_no_terminal(host, from + 1);
    }
}

/// The name of the terminal emulator number `index`, if there is one.
pub fn terminal_program(index: usize) -> (name: Option<&'static str>)
    ensures
        match name {
            Some(n) => index < terminal_programs().len() && n@ == terminal_programs()[index as int],
            None => index >= terminal_programs().len(),
        },
{
    if index == 0 {
        Some("gnome-terminal")
    } else if index == 1 {
        Some("konsole")
    } else if index == 2 {
        Some("xterm")
    } else if index == 3 {
        Some("alacritty")
    } else if index == 4 {
        Some("kitty")
    } else if index == 5 {
        Some("urxvt")
    } else if index == 6 {
        Some("st")
    } else {
        None
    }
}

/// Reads the program to run out of a descriptor's text: see [`launch_command`].
pub fn exec_command(content: &str) -> (command: Option<String>)
    ensures
        text_of(command) == launch_command(content@),
{
    let v = chars_of(content);
    let prefix = chars_of("Exec=");
    let ghost lines = split_lines(v@);
    let mut pos: usize = 0;
    let ghost mut k: int = 0;
    proof {
        lemma_split_lines_nonempty(v@);
        assert(v@.skip(0) =~= v@);
    }
    loop
        invariant
            v@ == content@,
            prefix@ == exec_prefix(),
            lines == split_lines(v@),
            pos <= v.len(),
            0 <= k < lines.len(),
            lines.skip(k) == split_lines(v@.skip(pos as int)),
            exec_line_from(lines, 0) == exec_line_from(lines, k),
        decreases v.len() - pos,
    {
        proof {
            lemma_line_at(v@, pos as int, k);
        }
        let end = find_in_range(&v, pos, v.len(), '\n');
        let ghost line = v@.subrange(pos as int, end as int);
        if end - pos >= prefix.len() && range_is(&v, pos, pos + prefix.len(), &prefix) {
            let from = pos + prefix.len();
            proof {
                assert(line.skip(prefix@.len() as int) =~= v@.subrange(from as int, end as int));
            }
            let a = skip_spaces(&v, from, end);
            let b = word_end(&v, a, end);
            if a < b {
                return Some(content.substring_char(a, b).to_owned());
            } else {
                return None;
            }
        }
        proof {
            if line.len() >= prefix@.len() {
                assert(line.subrange(0, prefix@.len() as int) =~= v@.subrange(
                    pos as int,
                    pos + prefix@.len(),
                ));
            }
            assert(exec_line_from(lines, k) == exec_line_from(lines, k + 1));
        }
        if end >= v.len() {
            return None;
        }
        pos = end + 1;
        proof {
            k = k + 1;
        }
    }
}

/// The step after an attempt with a terminal emulator that started nothing.
fn next_attempt(attempt: usize) -> (step: LaunchStep)
    ensures
        step@ == after_attempt(attempt as nat),
{
    if attempt < 6 {
        LaunchStep::ReadDescriptor { attempt: attempt + 1 }
    } else {
        LaunchStep::DirectLaunch
    }
}

/// Decides the next step of a launch: given the step that the host was
/// handed and how it came out, the step to hand it next. See [`next_step`].
///
/// A launch begins with the step that [`handle_selection`] gives and is over
/// when the step is [`LaunchStep::Done`], which every outcome leaves as it is.
pub fn execute_gio_launch(step: LaunchStep, event: LaunchEvent) -> (next: LaunchStep)
    ensures
        next@ == next_step(step@, event@),
{
    match step {
        LaunchStep::Validate { terminal } => match event {
            LaunchEvent::Exited { success: false } => LaunchStep::Done { success: false },
            _ => if terminal {
                LaunchStep::ReadDescriptor { attempt: 0 }
            } else {
                LaunchStep::DirectLaunch
            },
        },
        LaunchStep::ReadDescriptor { attempt } => match event {
            LaunchEvent::Descriptor { content } => match exec_command(content.as_str()) {
                Some(command) => if attempt < 7 {
                    LaunchStep::Spawn { attempt, command }
                } else {
                    LaunchStep::DirectLaunch
                },
                None => next_attempt(attempt),
            },
            _ => next_attempt(attempt),
        },
        LaunchStep::Spawn { attempt, command } => match event {
            LaunchEvent::Started => LaunchStep::Done { success: true },
            _ => next_attempt(attempt),
        },
        LaunchStep::DirectLaunch => match event {
            LaunchEvent::Exited { success: true } => LaunchStep::Done { success: true },
            _ => LaunchStep::OpenByPath,
        },
        LaunchStep::OpenByPath => match event {
            LaunchEvent::Exited { success } => LaunchStep::Done { success },
            _ => LaunchStep::Done { success: false },
        },
        LaunchStep::Done { success } => LaunchStep::Done { success },
    }
}

/// The program and arguments that carry out `step` for the descriptor at
/// `path`: see [`command_of`].
pub fn command_line(step: &LaunchStep, path: &str) -> (line: Option<CommandLine>)
    ensures
        match line {
            Some(l) => command_of(step@, path@) == Some(l@),
            None => command_of(step@, path@) is None,
        },
{
    match step {
        LaunchStep::Validate { terminal } => {
            let mut arguments: Vec<String> = Vec::new();
            arguments.push(path.to_owned());
            let line = CommandLine { program: "desktop-file-validate".to_owned(), arguments };
            proof {
                assert(line@.arguments =~= seq![path@]);
            }
            Some(line)
        },
        LaunchStep::Spawn { attempt, command } => match terminal_program(*attempt) {
            Some(name) => {
                let mut arguments: Vec<String> = Vec::new();
                arguments.push("-e".to_owned());
                arguments.push(command.clone());
                let line = CommandLine { program: name.to_owned(), arguments };
                proof {
                    assert(line@.arguments =~= seq!["-e"@, command@]);
                }
                Some(line)
            },
            None => None,
        },
        LaunchStep::DirectLaunch => {
            let mut arguments: Vec<String> = Vec::new();
            arguments.push(path.to_owned());
            let line = CommandLine { program: "gtk-launch".to_owned(), arguments };
            proof {
                assert(line@.arguments =~= seq![path@]);
            }
            Some(line)
        },
        LaunchStep::OpenByPath => {
            let mut arguments: Vec<String> = Vec::new();
            arguments.push("launch".to_owned());
            arguments.push(path.to_owned());
            let line = CommandLine { program: "gio".to_owned(), arguments };
            proof {
                assert(line@.arguments =~= seq!["launch"@, path@]);
            }
            Some(line)
        },
        LaunchStep::ReadDescriptor { attempt } => None,
        LaunchStep::Done { success } => None,
    }
}

/// Whether the record selected by `selection` asks for a terminal: see
/// [`selected_terminal`].
pub fn selection_needs_terminal(apps: &Vec<AppInfo>, selection: &str) -> (terminal: bool)
    ensures
        terminal == selected_terminal(models(apps@), selection@),
{
    let wanted = selection.to_owned();
    let mut i: usize = 0;
    proof {
        assert(models(apps@).skip(0) =~= models(apps@));
    }
    while i < apps.len()
        invariant
            i <= apps.len(),
            wanted@ == selection@,
            selected_terminal(models(apps@), selection@) == selected_terminal(
                models(apps@).skip(i as int),
                selection@,
            ),
        decreases apps.len() - i,
    {
        proof {
            let rest = models(apps@).skip(i as int);
            assert(rest.drop_first() =~= models(apps@).skip(i + 1));
        }
        if apps[i].path == wanted {
            return apps[i].terminal;
        }
        i += 1;
    }
    false
}

/// Takes up the selection of `selection`, the path of a descriptor: gives
/// the first step of its launch, which [`execute_gio_launch`] continues.
///
/// `apps` is the catalog, or none where none could be built. The selected
/// record decides whether a terminal is needed; a selection that no record
/// carries is launched as an application that needs none.
pub fn handle_selection(apps: Option<&Vec<AppInfo>>, selection: &str) -> (step: LaunchStep)
    ensures
        step@ == first_step(
            match apps {
                Some(list) => Some(models(list@)),
                None => None,
            },
            selection@,
        ),
{
    let terminal = match apps {
        Some(list) => selection_needs_terminal(list, selection),
        None => false,
    };
    LaunchStep::Validate { terminal }
}

} // verus!
