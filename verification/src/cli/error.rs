//! What a command of the command line can fail with.
use vstd::prelude::*;

verus! {

broadcast use vstd::string::group_string_axioms;

/// Why a command failed.
#[derive(Debug)]
pub enum CLIError {
    Unknown(String),
    Salt,
    UserExists,
    NoKeyPair,
    UnknownCommand,
}

/// The message shown for an error.
pub open spec fn cli_error_message(e: CLIError) -> Seq<char> {
    match e {
        CLIError::Unknown(m) => m@,
        CLIError::Salt => "error generating salt"@,
        CLIError::UserExists => "user already exists"@,
        CLIError::NoKeyPair => "please generate a JWT key pair with '$ champ admin generate-key' "@,
        CLIError::UnknownCommand => "this command does not exist"@,
    }
}

impl CLIError {
    /// The message shown for the error.
    pub fn message(&self) -> (r: String)
        ensures
            r@ == cli_error_message(*self),
    {
        match self {
            CLIError::Unknown(m) => m.clone(),
            CLIError::Salt => "error generating salt".to_string(),
            CLIError::UserExists => "user already exists".to_string(),
            CLIError::NoKeyPair => "please generate a JWT key pair with '$ champ admin generate-key' ".to_string(),
            CLIError::UnknownCommand => "this command does not exist".to_string(),
        }
    }
}

} // verus!
