use vstd::prelude::*;
use crate::auth::ContestArgs;

verus! {

/// The answer of a mutation that has nothing to report.
#[derive(Debug)]
pub struct MutationOk;

impl MutationOk {
    /// Always true.
    pub fn ok() -> (r: bool)
        ensures
            r,
    {
        true
    }
}

/// An announcement to the contestants.
#[derive(Debug)]
pub struct Announcement {
    pub id: i32,
    pub text: String,
}

impl Announcement {
    /// The text of the announcement.
    pub fn text(&self) -> (r: &String)
        ensures
            r@ == self.text@,
    {
        &self.text
    }
}

/// Arguments of the contest command line.
#[derive(Debug)]
pub struct Args {
    /// Where the database lives.
    pub database_url: String,
    /// What to do.
    pub subcommand: Command,
}

/// A command of the contest command line.
#[derive(Debug)]
pub enum Command {
    /// Start a contest HTTP server.
    Serve { host: String, port: u16, secret_key: Option<String>, skip_auth: bool },
    /// Generate the GraphQL schema.
    GenerateSchema,
    /// Add a user to the contest database.
    AddUser { username: String, display_name: String, password: String },
    /// Remove a user from the contest database.
    DeleteUser { username: String },
    /// Add a problem to the contest database.
    AddProblem { name: String, path: String },
    /// Remove a problem from the contest database.
    DeleteProblem { name: String },
    /// Initialize the database.
    InitDb,
}

/// Arguments of the server command line.
#[derive(Debug)]
pub struct ServerArgs {
    pub contest: ContestArgs,
    /// Host to bind the server to.
    pub host: String,
    /// Port to listen on.
    pub port: u16,
    /// Secret key for authentication tokens.
    pub secret_key: Option<String>,
    /// Skip authentication.
    pub skip_auth: bool,
    /// Skip authentication on the DMZ endpoint.
    pub enable_dmz: bool,
}

/// Whether a server may start with these arguments: authentication must be
/// skipped or a secret given.
pub open spec fn server_args_usable(args: ServerArgs) -> bool {
    args.skip_auth || args.secret_key is Some
}

impl ServerArgs {
    /// Checks that authentication is skipped or a secret is given.
    pub fn is_usable(&self) -> (r: bool)
        ensures
            r == server_args_usable(*self),
    {
        self.skip_auth || self.secret_key.is_some()
    }
}

} // verus!
