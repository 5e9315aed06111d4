//! What the command line asks for: which template, and whether to run it or
//! to edit it.

use vstd::prelude::*;

verus! {

/// What is given behind `template` on the command line.
#[derive(Debug, Clone, PartialEq, Eq)]
pub enum TemplateCommand {
    /// Open the editor on the template `name`.
    Edit { name: String },
    /// Run the template `name`.
    Apply { name: String },
}

/// What is given on the command line.
#[derive(Debug, Clone, PartialEq, Eq)]
pub enum Command {
    Template { command: TemplateCommand },
    /// Run the template `template`.
    Run { template: String },
}

/// The command line as it was read.
#[derive(Debug, Clone, PartialEq, Eq)]
pub struct Cli {
    pub command: Option<Command>,
}

/// What the program is to do.
#[derive(Debug, Clone, PartialEq, Eq)]
pub enum Launch {
    /// Run the template of this name.
    Run(String),
    /// Edit the template of this name.
    Edit(String),
}

/// The mathematical value of a [`Launch`].
pub ghost enum LaunchView {
    Run(Seq<char>),
    Edit(Seq<char>),
}

impl View for Launch {
    type V = LaunchView;

    open spec fn view(&self) -> LaunchView {
        match self {
            Launch::Run(name) => LaunchView::Run(name@),
            Launch::Edit(name) => LaunchView::Edit(name@),
        }
    }
}

impl Cli {
    /// What the command line asks for: without a command, the template
    /// `default` is run; `run` and `template apply` run the template they
    /// name, and `template edit` opens the editor on it.
    pub open spec fn launch_spec(&self) -> LaunchView {
        match self.command {
            None => LaunchView::Run("default"@),
            Some(Command::Run { template }) => LaunchView::Run(template@),
            Some(Command::Template { command: TemplateCommand::Edit { name } }) => LaunchView::Edit(
                name@,
            ),
            Some(Command::Template { command: TemplateCommand::Apply { name } }) => LaunchView::Run(
                name@,
            ),
        }
    }

    /// What the program is to do for this command line.
    pub fn launch(self) -> (launch: Launch)
        ensures
            launch@ == self.launch_spec(),
    {
        match self.command {
            None => Launch::Run("default".to_owned()),
            Some(Command::Run { template }) => Launch::Run(template),
            Some(Command::Template { command: TemplateCommand::Edit { name } }) => Launch::Edit(name),
            Some(Command::Template { command: TemplateCommand::Apply { name } }) => Launch::Run(name),
        }
    }
}

} // verus!
