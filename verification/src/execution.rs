//! Running a Rust project's tests in containers: create a volume, clone the
//! sources into it, run `cargo test`, and delete the volume whatever
//! happened. The decisions are a state machine; its driver talks to the
//! container engine and hands back what each step gave.
use vstd::prelude::*;

verus! {

/// Image the containers run.
pub const RUST_IMAGE: &'static str = "rust:latest";

/// Why an execution failed.
#[derive(Debug, Clone, PartialEq, Eq)]
pub enum Error {
    /// The container engine failed, with its message.
    Docker(String),
    /// Cloning the sources failed.
    Checkout,
    /// The tests failed.
    Execution,
}

/// A command to run in a container that has the volume mounted.
#[derive(Debug)]
pub struct ContainerRun {
    pub command: Vec<String>,
    pub working_dir: String,
    /// The volume binding, `<volume>:/workspaces`.
    pub volume: String,
}

/// What the execution asks its driver to do next.
#[derive(Debug)]
pub enum EngineAction {
    CreateVolume,
    RunContainer(ContainerRun),
    DeleteVolume,
    Finish(Result<(), Error>),
}

/// What the execution waits for.
#[derive(Debug, Clone, Copy, PartialEq, Eq, Structural)]
pub enum EnginePhase {
    AwaitVolume,
    AwaitCheckout,
    AwaitTests,
    AwaitDeletion,
    Done,
}

/// The result of the work done in the volume, before the volume is deleted.
pub open spec fn checkout_outcome(success: Result<bool, String>) -> Option<Result<(), Error>> {
    match success {
        Err(message) => Some(Err(Error::Docker(message))),
        Ok(false) => Some(Err(Error::Checkout)),
        Ok(true) => None,
    }
}

/// The result of running the tests.
pub open spec fn tests_outcome(success: Result<bool, String>) -> Result<(), Error> {
    match success {
        Err(message) => Err(Error::Docker(message)),
        Ok(false) => Err(Error::Execution),
        Ok(true) => Ok(()),
    }
}

/// An execution of the tests of one repository.
pub struct Execution {
    source: String,
    volume: String,
    phase: EnginePhase,
    outcome: Result<(), Error>,
}

impl Execution {
    pub closed spec fn phase(&self) -> EnginePhase {
        self.phase
    }

    pub closed spec fn outcome(&self) -> Result<(), Error> {
        self.outcome
    }

    pub closed spec fn source_view(&self) -> Seq<char> {
        self.source@
    }

    pub closed spec fn volume_view(&self) -> Seq<char> {
        self.volume@
    }

    /// Starts the execution of the tests of `source`: first a volume is
    /// created.
    pub fn start(source: String) -> (started: (Execution, EngineAction))
        ensures
            started.0.phase() == EnginePhase::AwaitVolume,
            started.0.source_view() == source@,
            started.1 is CreateVolume,
    {
        let execution = Execution {
            source,
            volume: String::new(),
            phase: EnginePhase::AwaitVolume,
            outcome: Ok(()),
        };
        (execution, EngineAction::CreateVolume)
    }

    /// The name of the volume the execution works in.
    pub fn volume(&self) -> (name: &str)
        ensures
            name@ == self.volume_view(),
    {
        self.volume.as_str()
    }

    fn run_in_volume(&self, command: Vec<String>, working_dir: &str) -> (run: ContainerRun)
        ensures
            run.command@ == command@,
            run.working_dir@ == working_dir@,
            run.volume@ == self.volume_view() + ":/workspaces"@,
    {
        let mut volume = self.volume.clone();
        volume.append(":/workspaces");
        ContainerRun { command, working_dir: working_dir.to_owned(), volume }
    }

    /// The volume was created, or could not be: without a volume the
    /// execution ends with the engine's error; with one the sources are
    /// cloned into it.
    pub fn on_volume_created(&mut self, volume: Result<String, String>) -> (action: EngineAction)
        requires
            old(self).phase() == EnginePhase::AwaitVolume,
        ensures
            final(self).source_view() == old(self).source_view(),
            volume is Err ==> final(self).phase() == EnginePhase::Done,
            volume is Err ==> (action matches EngineAction::Finish(r) && r == Err::<(), Error>(
                Error::Docker(volume->Err_0),
            )),
            volume is Ok ==> {
                &&& final(self).phase() == EnginePhase::AwaitCheckout
                &&& final(self).volume_view() == volume->Ok_0@
                &&& action matches EngineAction::RunContainer(run)
                &&& run.command@.len() == 4
                &&& run.command@[0]@ == "git"@
                &&& run.command@[1]@ == "clone"@
                &&& run.command@[2]@ == old(self).source_view()
                &&& run.command@[3]@ == "code"@
                &&& run.working_dir@ == "/workspaces"@
                &&& run.volume@ == volume->Ok_0@ + ":/workspaces"@
            },
    {
        match volume {
            Err(message) => {
                self.phase = EnginePhase::Done;
                EngineAction::Finish(Err(Error::Docker(message)))
            },
            Ok(name) => {
                self.volume = name;
                self.phase = EnginePhase::AwaitCheckout;
                let mut command: Vec<String> = Vec::new();
                command.push("git".to_owned());
                command.push("clone".to_owned());
                command.push(self.source.clone());
                command.push("code".to_owned());
                EngineAction::RunContainer(self.run_in_volume(command, "/workspaces"))
            },
        }
    }

    /// A container finished, telling whether its command succeeded, or the
    /// engine failed. After a successful clone the tests run; otherwise the
    /// volume is deleted, and the outcome kept.
    pub fn on_container_finished(&mut self, success: Result<bool, String>) -> (action: EngineAction)
        requires
            old(self).phase() == EnginePhase::AwaitCheckout || old(self).phase()
                == EnginePhase::AwaitTests,
        ensures
            final(self).source_view() == old(self).source_view(),
            final(self).volume_view() == old(self).volume_view(),
            old(self).phase() == EnginePhase::AwaitCheckout && checkout_outcome(success) is None
                ==> {
                &&& final(self).phase() == EnginePhase::AwaitTests
                &&& action matches EngineAction::RunContainer(run)
                &&& run.command@.len() == 2
                &&& run.command@[0]@ == "cargo"@
                &&& run.command@[1]@ == "test"@
                &&& run.working_dir@ == "/workspaces/code"@
                &&& run.volume@ == old(self).volume_view() + ":/workspaces"@
            },
            old(self).phase() == EnginePhase::AwaitCheckout && checkout_outcome(success) is Some
                ==> {
                &&& final(self).phase() == EnginePhase::AwaitDeletion
                &&& final(self).outcome() == checkout_outcome(success)->Some_0
                &&& action is DeleteVolume
            },
            old(self).phase() == EnginePhase::AwaitTests ==> {
                &&& final(self).phase() == EnginePhase::AwaitDeletion
                &&& final(self).outcome() == tests_outcome(success)
                &&& action is DeleteVolume
            },
    {
        if self.phase == EnginePhase::AwaitCheckout {
            match success {
                Ok(true) => {
                    self.phase = EnginePhase::AwaitTests;
                    let mut command: Vec<String> = Vec::new();
                    command.push("cargo".to_owned());
                    command.push("test".to_owned());
                    EngineAction::RunContainer(self.run_in_volume(command, "/workspaces/code"))
                },
                Ok(false) => {
                    self.outcome = Err(Error::Checkout);
                    self.phase = EnginePhase::AwaitDeletion;
                    EngineAction::DeleteVolume
                },
                Err(message) => {
                    self.outcome = Err(Error::Docker(message));
                    self.phase = EnginePhase::AwaitDeletion;
                    EngineAction::DeleteVolume
                },
            }
        } else {
            self.outcome = match success {
                Ok(true) => Ok(()),
                Ok(false) => Err(Error::Execution),
                Err(message) => Err(Error::Docker(message)),
            };
            self.phase = EnginePhase::AwaitDeletion;
            EngineAction::DeleteVolume
        }
    }

    /// The volume was deleted, or could not be: a failed deletion is the
    /// outcome of the execution; otherwise the outcome of the work in the
    /// volume is.
    pub fn on_volume_deleted(&mut self, deleted: Result<(), String>) -> (action: EngineAction)
        requires
            old(self).phase() == EnginePhase::AwaitDeletion,
        ensures
            final(self).phase() == EnginePhase::Done,
            deleted is Err ==> (action matches EngineAction::Finish(r) && r == Err::<(), Error>(
                Error::Docker(deleted->Err_0),
            )),
            deleted is Ok ==> (action matches EngineAction::Finish(r) && r == old(self).outcome()),
    {
        self.phase = EnginePhase::Done;
        let outcome = match deleted {
            Err(message) => Err(Error::Docker(message)),
            Ok(()) => match &self.outcome {
                Ok(unit) => Ok(*unit),
                Err(Error::Docker(message)) => {
                    let copy = message.clone();
                    Err(Error::Docker(copy))
                },
                Err(Error::Checkout) => Err(Error::Checkout),
                Err(Error::Execution) => Err(Error::Execution),
            },
        };
        EngineAction::Finish(outcome)
    }
}

} // verus!
