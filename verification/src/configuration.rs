//! The settings that do not change while the server runs.

use vstd::prelude::*;
use vstd::string::*;
use crate::text::{decimal, parse_decimal};

verus! {

/// The host that the server binds to where none is set.
pub const DEFAULT_HOST: &'static str = "0.0.0.0";

/// The port that the server binds to where none is set.
pub const DEFAULT_PORT: u16 = 3000;

/// What the environment holds for a variable.
#[derive(Debug)]
pub enum EnvLookup {
    /// The variable is set to this text.
    Present(String),
    /// The variable is not set.
    NotPresent,
    /// The variable is set to something that is not Unicode.
    NotUnicode,
}

/// The variables that the configuration reads.
#[derive(Clone, Copy, PartialEq, Eq, Debug, Structural)]
pub enum Variable {
    Host,
    Port,
    DatabasePath,
}

/// What is wrong with the value of a variable.
#[derive(Clone, Copy, PartialEq, Eq, Debug, Structural)]
pub enum Cause {
    /// It is not Unicode.
    NotUnicode,
    /// It does not spell a port.
    NotAPort,
}

/// The environment holds a value that cannot be used.
#[derive(Clone, Copy, PartialEq, Eq, Debug, Structural)]
pub struct ConfigurationError {
    pub variable: Variable,
    pub cause: Cause,
}

impl Variable {
    /// The name of the variable in the environment.
    pub open spec fn spelled(self) -> Seq<char> {
        match self {
            Variable::Host => "HOST"@,
            Variable::Port => "PORT"@,
            Variable::DatabasePath => "DATABASE_PATH"@,
        }
    }

    /// The name of the variable in the environment.
    pub fn name(&self) -> (name: &'static str)
        ensures
            name@ == self.spelled(),
    {
        match self {
            Variable::Host => "HOST",
            Variable::Port => "PORT",
            Variable::DatabasePath => "DATABASE_PATH",
        }
    }
}

impl ConfigurationError {
    /// The error in words: which variable could not be read.
    pub fn message(&self) -> (text: String)
        ensures
            text@ == "Error parsing environment variable '"@ + self.variable.spelled() + "'"@,
    {
        let mut text = String::from_str("Error parsing environment variable '");
        text.append(self.variable.name());
        text.append("'");
        text
    }
}

/// Tells a variable that is not set from one that cannot be read.
pub fn handle_invalid_unicode(result: EnvLookup) -> (value: Result<Option<String>, Cause>)
    ensures
        match result {
            EnvLookup::Present(text) => value == Ok::<Option<String>, Cause>(Some(text)),
            EnvLookup::NotPresent => value == Ok::<Option<String>, Cause>(None),
            EnvLookup::NotUnicode => value == Err::<Option<String>, Cause>(Cause::NotUnicode),
        },
{
    match result {
        EnvLookup::Present(text) => Ok(Some(text)),
        EnvLookup::NotPresent => Ok(None),
        EnvLookup::NotUnicode => Err(Cause::NotUnicode),
    }
}

/// The port that a variable spells, if the variable is set: a number in
/// base ten up to 65535.
pub fn parse_from_env_result(result: EnvLookup) -> (value: Result<Option<u16>, Cause>)
    ensures
        match result {
            EnvLookup::Present(text) => match decimal(text@, u16::MAX as nat) {
                Some(port) => value == Ok::<Option<u16>, Cause>(Some(port as u16)),
                None => value == Err::<Option<u16>, Cause>(Cause::NotAPort),
            },
            EnvLookup::NotPresent => value == Ok::<Option<u16>, Cause>(None),
            EnvLookup::NotUnicode => value == Err::<Option<u16>, Cause>(Cause::NotUnicode),
        },
{
    match handle_invalid_unicode(result) {
        Ok(Some(text)) => match parse_decimal(text.as_str(), 65535) {
            Some(port) => Ok(Some(port as u16)),
            None => Err(Cause::NotAPort),
        },
        Ok(None) => Ok(None),
        Err(cause) => Err(cause),
    }
}

/// All static configuration of the server.
#[derive(Debug)]
pub struct Configuration {
    /// The port that the server binds to.
    port: u16,
    /// Host name or address that the server binds to.
    host: String,
    /// Path of the database file. Without one the events are kept in
    /// memory only.
    database_path: Option<String>,
}

impl Configuration {
    /// The host that the server binds to.
    pub closed spec fn host(&self) -> Seq<char> {
        self.host@
    }

    /// The port that the server binds to.
    pub closed spec fn port(&self) -> u16 {
        self.port
    }

    /// The path of the database file, if one is set.
    pub closed spec fn path(&self) -> Option<Seq<char>> {
        match self.database_path {
            Some(path) => Some(path@),
            None => None,
        }
    }

    /// The configuration that the environment gives, from what it holds
    /// for `HOST`, `PORT` and `DATABASE_PATH`. A variable that is not set
    /// takes its default. The first variable that cannot be used, in that
    /// order, is the error.
    pub fn from_env(host: EnvLookup, port: EnvLookup, database_path: EnvLookup) -> (result: Result<
        Configuration,
        ConfigurationError,
    >)
        ensures
            match result {
                Ok(cfg) => {
                    &&& cfg.host() == match host {
                        EnvLookup::Present(text) => text@,
                        _ => DEFAULT_HOST@,
                    }
                    &&& !(host is NotUnicode)
                    &&& match port {
                        EnvLookup::Present(text) => decimal(text@, u16::MAX as nat) == Some(
                            cfg.port() as nat,
                        ),
                        EnvLookup::NotPresent => cfg.port() == DEFAULT_PORT,
                        EnvLookup::NotUnicode => false,
                    }
                    &&& match database_path {
                        EnvLookup::Present(text) => cfg.path() == Some(text@),
                        EnvLookup::NotPresent => cfg.path() is None,
                        EnvLookup::NotUnicode => false,
                    }
                },
                Err(error) => if host is NotUnicode {
                    error == (ConfigurationError {
                        variable: Variable::Host,
                        cause: Cause::NotUnicode,
                    })
                } else if port is NotUnicode {
                    error == (ConfigurationError {
                        variable: Variable::Port,
                        cause: Cause::NotUnicode,
                    })
                } else if port matches EnvLookup::Present(text) && decimal(
                    text@,
                    u16::MAX as nat,
                ) is None {
                    error == (ConfigurationError {
                        variable: Variable::Port,
                        cause: Cause::NotAPort,
                    })
                } else {
                    &&& database_path is NotUnicode
                    &&& error == (ConfigurationError {
                        variable: Variable::DatabasePath,
                        cause: Cause::NotUnicode,
                    })
                },
            },
    {
        let host = match handle_invalid_unicode(host) {
            Ok(Some(text)) => text,
            Ok(None) => DEFAULT_HOST.to_owned(),
            Err(cause) => {
                return Err(ConfigurationError { variable: Variable::Host, cause });
            },
        };
        let port = match parse_from_env_result(port) {
            Ok(Some(port)) => port,
            Ok(None) => DEFAULT_PORT,
            Err(cause) => {
                return Err(ConfigurationError { variable: Variable::Port, cause });
            },
        };
        let database_path = match handle_invalid_unicode(database_path) {
            Ok(path) => path,
            Err(cause) => {
                return Err(ConfigurationError { variable: Variable::DatabasePath, cause });
            },
        };
        Ok(Configuration { host, port, database_path })
    }

    /// The address that the server binds to.
    pub fn socket_addr(&self) -> (addr: (&str, u16))
        ensures
            addr.0@ == self.host(),
            addr.1 == self.port(),
    {
        (self.host.as_str(), self.port)
    }

    /// Path of the database file, if one is set.
    pub fn database_path(&self) -> (path: Option<&str>)
        ensures
            match path {
                Some(text) => self.path() == Some(text@),
                None => self.path() is None,
            },
    {
        match &self.database_path {
            Some(path) => Some(path.as_str()),
            None => None,
        }
    }
}

} // verus!
