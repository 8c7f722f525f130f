//! The settings the program runs with.

use vstd::prelude::*;
use vstd::string::*;
use crate::cli::{query_directory, Query};
use crate::text::{decimal, parse_unsigned, parse_unsigned_text, push_decimal, replace_all, replace_text};

verus! {

/// Where the web server listens, where the database lives, and the command
/// line the program was started with.
#[derive(Clone)]
pub struct Config<'a> {
    pub server_ip: String,
    pub server_port: u16,
    pub db_path: String,
    pub query: &'a Query<'a>,
}

/// The port number that a text names, read as `str::parse::<u16>` reads it.
pub open spec fn port_of(text: Seq<char>) -> Option<nat> {
    parse_unsigned(text, 10, 65535)
}

/// Reads a port number, accepting exactly what `str::parse::<u16>` accepts.
pub fn parse_port(text: &str) -> (r: Option<u16>)
    ensures
        match r {
            Some(p) => port_of(text@) == Some(p as nat),
            None => port_of(text@) is None,
        },
{
    match parse_unsigned_text(text, 10, 65535) {
        Some(v) => Some(v as u16),
        None => None,
    }
}

/// The address of the web server's endpoint `action`.
pub open spec fn endpoint(ip: Seq<char>, port: nat, action: Seq<char>) -> Seq<char> {
    "http://"@ + ip + ":"@ + decimal(port) + "/"@ + action
}

impl<'a> Config<'a> {
    /// The settings from the values of `SERVER_IP`, `SERVER_PORT` and
    /// `DB_PATH`; every `EXEC_PATH` in the database path stands for the
    /// program's directory.
    pub fn new(query: &'a Query<'a>, server_ip: String, server_port: &str, db_path: &str) -> (c:
        Config<'a>)
        requires
            port_of(server_port@) is Some,
        ensures
            c.server_ip == server_ip,
            port_of(server_port@) == Some(c.server_port as nat),
            c.db_path@ == replace_all(db_path@, "EXEC_PATH"@, query.directory()),
            c.query == query,
    {
        let port = match parse_port(server_port) {
            Some(p) => p,
            None => {
                proof {
                    assert(false);
                }
                0
            },
        };
        let pattern = "EXEC_PATH";
        proof {
            reveal_strlit("EXEC_PATH");
        }
        let db_path = replace_text(db_path, pattern, query.filepath);
        proof {
            assert(query.filepath@ == query.directory()) by {
                query_directory(query);
            }
        }
        Config { server_ip, server_port: port, db_path, query }
    }

    /// The address of the web server's endpoint `action`.
    pub fn notify_url(&self, action: &str) -> (url: String)
        ensures
            url@ == endpoint(self.server_ip@, self.server_port as nat, action@),
    {
        let mut url = String::new();
        url.append("http://");
        url.append(self.server_ip.as_str());
        url.append(":");
        push_decimal(&mut url, self.server_port);
        url.append("/");
        url.append(action);
        proof {
            assert(url@ =~= endpoint(self.server_ip@, self.server_port as nat, action@));
        }
        url
    }
}

} // verus!
