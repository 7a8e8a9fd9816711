//! Which external menu program to run, and with what options.
use vstd::prelude::*;
use vstd::string::*;

verus! {

#[derive(Debug, Clone, Copy, PartialEq, Eq, Structural)]
pub enum LauncherType {
    Fuzzel,
    Rofi,
    Dmenu,
    Walker,
    Custom,
}

/// The launcher invocation: the program and the options it is given.
#[derive(Debug)]
pub enum LauncherCommand {
    Fuzzel { icon_type: String, placeholder: Option<String> },
    Rofi { icon_type: String, placeholder: Option<String> },
    Dmenu { prompt: Option<String> },
    Walker { placeholder: Option<String> },
    Custom { command: String, args: Vec<(String, String)> },
}

#[derive(Debug, Clone, Copy, PartialEq, Eq, Structural)]
pub enum LauncherError {
    /// A custom launcher was chosen without a command.
    NoCustomCommand,
}

/// A prompt or placeholder that is given and not empty.
pub open spec fn given(o: Option<&str>) -> Option<Seq<char>> {
    match o {
        Some(p) => if p@.len() > 0 {
            Some(p@)
        } else {
            None
        },
        None => None,
    }
}

pub open spec fn opt_view(o: Option<String>) -> Option<Seq<char>> {
    match o {
        Some(s) => Some(s@),
        None => None,
    }
}

fn non_empty(o: Option<&str>) -> (r: Option<String>)
    ensures
        opt_view(r) == given(o),
{
    match o {
        Some(p) => if p.is_empty() {
            None
        } else {
            Some(String::from_str(p))
        },
        None => None,
    }
}

pub struct Launcher;

impl Launcher {
    /// The invocation for a launcher type. Empty prompts and placeholders
    /// count as absent; a custom launcher passes them on as named arguments
    /// and needs a command.
    pub fn create_command(
        launcher_type: &LauncherType,
        command_str: &Option<String>,
        icon_type: &str,
        prompt: Option<&str>,
        placeholder: Option<&str>,
    ) -> (r: Result<LauncherCommand, LauncherError>)
        ensures
            match *launcher_type {
                LauncherType::Fuzzel => r matches Ok(LauncherCommand::Fuzzel { icon_type: i, placeholder: p })
                    && i@ == icon_type@ && opt_view(p) == given(placeholder),
                LauncherType::Rofi => r matches Ok(LauncherCommand::Rofi { icon_type: i, placeholder: p })
                    && i@ == icon_type@ && opt_view(p) == given(placeholder),
                LauncherType::Dmenu => r matches Ok(LauncherCommand::Dmenu { prompt: p }) && opt_view(p) == given(prompt),
                LauncherType::Walker => r matches Ok(LauncherCommand::Walker { placeholder: p }) && opt_view(p) == given(placeholder),
                LauncherType::Custom => match command_str {
                    None => r == Err::<LauncherCommand, LauncherError>(LauncherError::NoCustomCommand),
                    Some(c) => r matches Ok(LauncherCommand::Custom { command, args }) && command@ == c@
                        && args@.len() == (if given(prompt) is Some { 1int } else { 0 }) + (if given(placeholder) is Some { 1int } else { 0 })
                        && (given(prompt) matches Some(p) ==> args@[0].0@ == "prompt"@ && args@[0].1@ == p)
                        && (given(placeholder) matches Some(p) ==> args@[args@.len() - 1].0@ == "placeholder"@ && args@[args@.len() - 1].1@ == p),
                },
            },
    {
        let placeholder_text = non_empty(placeholder);
        let prompt_text = non_empty(prompt);
        match launcher_type {
            LauncherType::Fuzzel => Ok(LauncherCommand::Fuzzel { icon_type: String::from_str(icon_type), placeholder: placeholder_text }),
            LauncherType::Rofi => Ok(LauncherCommand::Rofi { icon_type: String::from_str(icon_type), placeholder: placeholder_text }),
            LauncherType::Dmenu => Ok(LauncherCommand::Dmenu { prompt: prompt_text }),
            LauncherType::Walker => Ok(LauncherCommand::Walker { placeholder: placeholder_text }),
            LauncherType::Custom => match command_str {
                Some(cmd) => {
                    let mut args: Vec<(String, String)> = Vec::new();
                    if let Some(p) = prompt_text {
                        args.push((String::from_str("prompt"), p));
                    }
                    if let Some(p) = placeholder_text {
                        args.push((String::from_str("placeholder"), p));
                    }
                    Ok(LauncherCommand::Custom { command: cmd.clone(), args })
                },
                None => Err(LauncherError::NoCustomCommand),
            },
        }
    }
}

} // verus!
