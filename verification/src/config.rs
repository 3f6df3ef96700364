use vstd::prelude::*;

verus! {

/// The `config` subcommands.
#[derive(PartialEq, Eq, Structural)]
pub enum ConfigCommands {
    /// print config file to stdout
    View,
}

/// The subcommand that `ConfigArgs::new` keeps: the one given, else `view`.
pub open spec fn chosen_command(command: Option<ConfigCommands>) -> Option<ConfigCommands> {
    if command is Some {
        command
    } else {
        Some(ConfigCommands::View)
    }
}

/// What `config` was asked for.
pub struct ConfigArgs {
    pub command: Option<ConfigCommands>,
}

impl ConfigArgs {
    /// The arguments for `command`; without a subcommand, `view` is meant.
    pub fn new(command: Option<ConfigCommands>) -> (args: ConfigArgs)
        ensures
            args.command == chosen_command(command),
    {
        ConfigArgs { command: if command.is_some() { command } else { Some(ConfigCommands::View) } }
    }

    /// The subcommand to run: the one given, else `view`.
    pub fn subcommand(&self) -> (c: ConfigCommands)
        ensures
            c == (match self.command {
                Some(c) => c,
                None => ConfigCommands::View,
            }),
    {
        match &self.command {
            Some(ConfigCommands::View) => ConfigCommands::View,
            None => ConfigCommands::View,
        }
    }
}

/// The line printed when the kubeconfig cannot be written out as YAML.
pub fn config_view_failure(error: &str) -> (msg: String)
    ensures
        msg@ == "error converting kubeconfig at somewhere to yaml: "@ + error@,
{
    let mut msg = String::from_str("error converting kubeconfig at somewhere to yaml: ");
    msg.append(error);
    msg
}

/// The line printed when the kubeconfig does not yield a client configuration.
pub fn client_config_failure(error: &str) -> (msg: String)
    ensures
        msg@ == "error parsing kubeconfig into client Config: "@ + error@,
{
    let mut msg = String::from_str("error parsing kubeconfig into client Config: ");
    msg.append(error);
    msg
}

/// Running `new` on the subcommand that `new` chose chooses it again: the
/// subcommand is always there, and one that is given is kept.
pub proof fn law_config_args_settled(command: Option<ConfigCommands>)
    ensures
        chosen_command(command) is Some,
        command is Some ==> chosen_command(command) == command,
        chosen_command(chosen_command(command)) == chosen_command(command),
{
}

} // verus!
