//! How the client resolves each of its options: from the command line, else from
//! an environment variable, else a default.

use vstd::prelude::*;

use crate::text::{chars_of, parse_usize, parse_usize_range};

verus! {

/// What looking up an environment variable gave.
#[derive(Debug, Clone, PartialEq, Eq)]
pub enum EnvironmentValue {
    /// The variable is not set.
    NotPresent,
    /// The variable is set to something that is not Unicode.
    NotUnicode,
    /// The variable is set to this text.
    Present(String),
}

/// The option's value: the one given on the command line, else the environment
/// variable's value, read by `parse`, else `default`. The command line and the
/// environment must not give what cannot be used: a value that is not Unicode, or
/// one that `parse` refuses.
pub fn resolve_with<T, E, F: FnOnce(String) -> Result<T, E>>(
    cli_value: Option<T>,
    env_value: EnvironmentValue,
    parse: F,
    default: T,
) -> (r: T)
    requires
        cli_value is None ==> !(env_value is NotUnicode),
        cli_value is None ==> (env_value matches EnvironmentValue::Present(s) ==> (call_requires(
            parse,
            (s,),
        ) && forall|p: Result<T, E>| call_ensures(parse, (s,), p) ==> p is Ok)),
    ensures
        cli_value matches Some(v) ==> r == v,
        cli_value is None ==> match env_value {
            EnvironmentValue::NotPresent => r == default,
            EnvironmentValue::Present(s) => call_ensures(parse, (s,), Ok::<T, E>(r)),
            EnvironmentValue::NotUnicode => false,
        },
{
    match cli_value {
        Some(v) => v,
        None => match env_value {
            EnvironmentValue::NotPresent => default,
            EnvironmentValue::NotUnicode => {
                proof {
                    assert(false);
                }
                default
            },
            EnvironmentValue::Present(s) => match parse(s) {
                Ok(v) => v,
                Err(_) => {
                    proof {
                        assert(false);
                    }
                    default
                },
            },
        },
    }
}

/// The option's value: the one given on the command line, else the environment
/// variable's text, else `default`.
pub fn resolve_option(cli_value: Option<String>, env_value: EnvironmentValue, default: String) -> (r:
    String)
    requires
        cli_value is None ==> !(env_value is NotUnicode),
    ensures
        cli_value matches Some(v) ==> r == v,
        cli_value is None ==> match env_value {
            EnvironmentValue::NotPresent => r == default,
            EnvironmentValue::Present(s) => r == s,
            EnvironmentValue::NotUnicode => false,
        },
{
    match cli_value {
        Some(v) => v,
        None => match env_value {
            EnvironmentValue::NotPresent => default,
            EnvironmentValue::NotUnicode => {
                proof {
                    assert(false);
                }
                default
            },
            EnvironmentValue::Present(s) => s,
        },
    }
}

/// What `str::parse::<u16>` gives for `s`: an optional `+` followed by at least one
/// decimal digit, and a value below 65536.
pub open spec fn parse_u16(s: Seq<char>) -> Option<u16> {
    match parse_usize(s) {
        Some(n) => if n <= 65535 {
            Some(n as u16)
        } else {
            None
        },
        None => None,
    }
}

/// The port number written in `text`.
pub fn parse_port(text: &str) -> (r: Option<u16>)
    ensures
        r == parse_u16(text@),
{
    let chars = chars_of(text);
    assert(chars@.subrange(0, chars.len() as int) =~= text@);
    match parse_usize_range(&chars, 0, chars.len()) {
        Some(n) => if n <= 65535 {
            Some(n as u16)
        } else {
            None
        },
        None => None,
    }
}

/// The TCP port: the one given on the command line, else the one written in the
/// environment variable, else `default`. The environment must not give what is not
/// a port number.
pub fn resolve_port(cli_value: Option<u16>, env_value: EnvironmentValue, default: u16) -> (r: u16)
    requires
        cli_value is None ==> !(env_value is NotUnicode),
        cli_value is None ==> (env_value matches EnvironmentValue::Present(s) ==> parse_u16(s@) is Some),
    ensures
        cli_value matches Some(v) ==> r == v,
        cli_value is None ==> match env_value {
            EnvironmentValue::NotPresent => r == default,
            EnvironmentValue::Present(s) => parse_u16(s@) == Some(r),
            EnvironmentValue::NotUnicode => false,
        },
{
    let parse = |s: String| -> (p: Result<u16, ()>)
        ensures
            p matches Ok(n) ==> parse_u16(s@) == Some(n),
            p is Err ==> parse_u16(s@) is None,
        {
            match parse_port(s.as_str()) {
                Some(n) => Ok(n),
                None => Err(()),
            }
        };
    resolve_with(cli_value, env_value, parse, default)
}

/// The optional option's value: the one given on the command line, else the
/// environment variable's value read by `parse` where it is set and not empty, else
/// none. A variable that is not Unicode counts as unset; one that `parse` refuses
/// must not be given.
pub fn resolve_with_optional<T, E, F: FnOnce(String) -> Result<T, E>>(
    cli_value: Option<T>,
    env_value: EnvironmentValue,
    parse: F,
) -> (r: Option<T>)
    requires
        cli_value is None ==> (env_value matches EnvironmentValue::Present(s) ==> (s@.len() > 0
            ==> (call_requires(parse, (s,)) && forall|p: Result<T, E>|
            call_ensures(parse, (s,), p) ==> p is Ok))),
    ensures
        cli_value matches Some(v) ==> r == Some(v),
        cli_value is None ==> match env_value {
            EnvironmentValue::Present(s) => if s@.len() == 0 {
                r is None
            } else {
                r matches Some(v) && call_ensures(parse, (s,), Ok::<T, E>(v))
            },
            _ => r is None,
        },
{
    match cli_value {
        Some(v) => Some(v),
        None => match env_value {
            EnvironmentValue::Present(s) => {
                if s.as_str().is_empty() {
                    return None;
                }
                match parse(s) {
                    Ok(v) => Some(v),
                    Err(_) => {
                        proof {
                            assert(false);
                        }
                        None
                    },
                }
            },
            _ => None,
        },
    }
}

} // verus!
