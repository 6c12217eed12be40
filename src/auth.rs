use vstd::prelude::*;
use crate::error::ApiError;

verus! {

/// Identifies a user.
#[derive(Debug)]
pub struct UserId(pub String);

/// What a verified token says of its bearer.
#[derive(Debug)]
pub struct JwtData {
    pub user: String,
}

/// Arguments shared by the contest commands.
#[derive(Debug)]
pub struct ContestArgs {
    /// Where the database lives.
    pub database_url: String,
}

/// Configuration of the contest API.
#[derive(Debug)]
pub struct ApiConfig {
    /// Skip all authentication.
    pub skip_auth: bool,
    /// Secret used to check authentication tokens, if any.
    pub secret: Option<Vec<u8>>,
    /// Where the database lives.
    pub database_url: String,
}

impl ApiConfig {
    /// Authentication on, no secret, no database location.
    pub fn new() -> (r: ApiConfig)
        ensures
            !r.skip_auth,
            r.secret is None,
            r.database_url@.len() == 0,
    {
        ApiConfig { skip_auth: false, secret: None, database_url: String::new() }
    }

    /// Takes the database location from the arguments.
    pub fn with_args(self, args: ContestArgs) -> (r: ApiConfig)
        ensures
            r.database_url@ == args.database_url@,
            r.skip_auth == self.skip_auth,
            r.secret == self.secret,
    {
        self.with_database_url(args.database_url)
    }

    /// Sets the database location.
    pub fn with_database_url(self, database_url: String) -> (r: ApiConfig)
        ensures
            r.database_url@ == database_url@,
            r.skip_auth == self.skip_auth,
            r.secret == self.secret,
    {
        ApiConfig { database_url, ..self }
    }

    /// Sets the secret.
    pub fn with_secret(self, secret: Option<Vec<u8>>) -> (r: ApiConfig)
        ensures
            r.secret == secret,
            r.skip_auth == self.skip_auth,
            r.database_url@ == self.database_url@,
    {
        ApiConfig { secret, ..self }
    }

    /// Sets whether authentication is skipped.
    pub fn with_skip_auth(self, skip_auth: bool) -> (r: ApiConfig)
        ensures
            r.skip_auth == skip_auth,
            r.secret == self.secret,
            r.database_url@ == self.database_url@,
    {
        ApiConfig { skip_auth, ..self }
    }
}

impl Default for ApiConfig {
    fn default() -> (r: ApiConfig)
        ensures
            !r.skip_auth,
            r.secret is None,
            r.database_url@.len() == 0,
    {
        ApiConfig::new()
    }
}

/// Whether an admin operation is allowed: only when authentication is skipped.
pub open spec fn admin_authorization(config: ApiConfig) -> Result<(), ApiError> {
    if config.skip_auth {
        Ok(())
    } else {
        Err(ApiError::Forbidden)
    }
}

/// Whether an operation on behalf of `target` is allowed: always when
/// authentication is skipped, no user is named or no secret is set; else
/// only for a verified token of that very user.
pub open spec fn user_authorization(
    config: ApiConfig,
    token: Option<JwtData>,
    target: Option<Seq<char>>,
) -> Result<(), ApiError> {
    if config.skip_auth {
        Ok(())
    } else {
        match target {
            None => Ok(()),
            Some(user) => if config.secret is None {
                Ok(())
            } else {
                match token {
                    Some(data) => if data.user@ == user {
                        Ok(())
                    } else {
                        Err(ApiError::Forbidden)
                    },
                    None => Err(ApiError::AuthenticationRequired),
                }
            },
        }
    }
}

/// The user an optional id names.
pub open spec fn target_of(user_id: Option<UserId>) -> Option<Seq<char>> {
    match user_id {
        Some(u) => Some(u.0@),
        None => None,
    }
}

/// Checks an admin operation.
pub fn check_admin(config: &ApiConfig) -> (r: Result<(), ApiError>)
    ensures
        r == admin_authorization(*config),
{
    if config.skip_auth {
        Ok(())
    } else {
        Err(ApiError::Forbidden)
    }
}

/// Checks an operation on behalf of a user.
pub fn check_user(config: &ApiConfig, token: &Option<JwtData>, user: Option<&str>) -> (r: Result<
    (),
    ApiError,
>)
    ensures
        r == user_authorization(
            *config,
            *token,
            match user {
                Some(u) => Some(u@),
                None => None,
            },
        ),
{
    if config.skip_auth {
        return Ok(());
    }
    match user {
        None => Ok(()),
        Some(id) => {
            if config.secret.is_none() {
                return Ok(());
            }
            match token {
                Some(data) => {
                    if crate::text::str_eq(data.user.as_str(), id) {
                        Ok(())
                    } else {
                        Err(ApiError::Forbidden)
                    }
                },
                None => Err(ApiError::AuthenticationRequired),
            }
        },
    }
}

/// The user check: with authentication skipped it always passes; with a
/// secret set, a verified token passes for its own user and is refused for
/// any other.
pub proof fn lemma_user_check(config: ApiConfig, token: Option<JwtData>, user: Seq<char>)
    ensures
        config.skip_auth ==> user_authorization(config, token, Some(user)) is Ok,
        token is Some && token->0.user@ == user ==> user_authorization(config, token, Some(user))
            is Ok,
        !config.skip_auth && config.secret is Some && token is Some && token->0.user@ != user
            ==> user_authorization(config, token, Some(user)) == Err::<(), ApiError>(
            ApiError::Forbidden,
        ),
        !config.skip_auth && config.secret is Some && token is None ==> user_authorization(
            config,
            token,
            Some(user),
        ) == Err::<(), ApiError>(ApiError::AuthenticationRequired),
{
}

} // verus!
