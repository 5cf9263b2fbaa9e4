//! Settings of the agent inside the runtime VM that relays Docker API
//! connections from vsock to the guest's Docker socket.
//!
//! Reading the environment and the arguments, and relaying connections,
//! are the caller's part.
use vstd::prelude::*;
use crate::runtime::{DEFAULT_DOCKER_VSOCK_PORT, docker_vsock_port, non_blank, opt_str_view};
use crate::text::{chars_of, concat, owned, parse_unsigned, parse_unsigned_vec, str_eq, trim, trim_vec};

verus! {

/// Where the agent listens and where it relays to.
#[derive(Debug)]
pub struct Config {
    pub port: u32,
    pub docker_socket: String,
}

/// The usage text.
pub open spec fn agent_usage_text() -> Seq<char> {
    "Usage:\n  cratebay-guest-agent [--port <vsock_port>] [--docker-sock <path>]\n\nEnv:\n  CRATEBAY_DOCKER_VSOCK_PORT   Guest vsock listen port (default 6237)\n  CRATEBAY_GUEST_DOCKER_SOCK      Guest Docker unix socket path (default /var/run/docker.sock)\n"@
}

/// Reads the arguments from position `i` on, starting from `port` and
/// `socket`: `--port` takes a positive `u32`, `--docker-sock` a path, a
/// later value replacing an earlier one.
pub open spec fn agent_scan(args: Seq<Seq<char>>, i: nat, port: u32, socket: Seq<char>) -> Result<
    (u32, Seq<char>),
    Seq<char>,
>
    decreases args.len() - i,
{
    if i >= args.len() {
        Ok((port, socket))
    } else {
        let a = args[i as int];
        let has_value = i + 1 < args.len();
        let v = args[i + 1int];
        if a == "--port"@ {
            if !has_value {
                Err("--port requires a value"@)
            } else {
                match parse_unsigned(v, u32::MAX as nat) {
                    None => Err("Invalid --port"@),
                    Some(n) => if n == 0 {
                        Err("--port must be > 0"@)
                    } else {
                        agent_scan(args, i + 2, n as u32, socket)
                    },
                }
            }
        } else if a == "--docker-sock"@ {
            if !has_value {
                Err("--docker-sock requires a value"@)
            } else {
                agent_scan(args, i + 2, port, v)
            }
        } else if a == "--help"@ || a == "-h"@ {
            Err(agent_usage_text())
        } else {
            Err("Unknown argument: "@ + a)
        }
    }
}

/// The socket from `CRATEBAY_GUEST_DOCKER_SOCK` when it is not blank, else
/// `/var/run/docker.sock`.
pub open spec fn env_socket(env_sock: Option<Seq<char>>) -> Seq<char> {
    match non_blank(env_sock) {
        Some(s) => s,
        None => "/var/run/docker.sock"@,
    }
}

/// The port from `CRATEBAY_DOCKER_VSOCK_PORT` when it reads as a positive
/// `u32`, else the default.
pub open spec fn env_port(env_port: Option<Seq<char>>) -> u32 {
    match env_port {
        Some(v) => match parse_unsigned(v, u32::MAX as nat) {
            Some(n) => if n > 0 {
                n as u32
            } else {
                DEFAULT_DOCKER_VSOCK_PORT
            },
            None => DEFAULT_DOCKER_VSOCK_PORT,
        },
        None => DEFAULT_DOCKER_VSOCK_PORT,
    }
}

pub open spec fn strings_view(v: Seq<String>) -> Seq<Seq<char>> {
    v.map_values(|s: String| s@)
}

impl Config {
    /// The usage text.
    pub fn usage() -> (s: &'static str)
        ensures
            s@ == agent_usage_text(),
    {
        "Usage:\n  cratebay-guest-agent [--port <vsock_port>] [--docker-sock <path>]\n\nEnv:\n  CRATEBAY_DOCKER_VSOCK_PORT   Guest vsock listen port (default 6237)\n  CRATEBAY_GUEST_DOCKER_SOCK      Guest Docker unix socket path (default /var/run/docker.sock)\n"
    }

    /// The agent's settings from its two environment variables and its
    /// arguments (without the program name), the arguments taking
    /// precedence.
    pub fn from_env_and_args(env_port_value: Option<&str>, env_sock: Option<&str>, args: &Vec<String>) -> (r:
        Result<Config, String>)
        ensures
            match agent_scan(
                strings_view(args@),
                0,
                env_port(opt_str_view(env_port_value)),
                env_socket(opt_str_view(env_sock)),
            ) {
                Ok((p, s)) => r matches Ok(c) && c.port == p && c.docker_socket@ == s,
                Err(e) => r matches Err(m) && m@ == e,
            },
    {
        let ghost av = strings_view(args@);
        let mut port: u32 = docker_vsock_port(env_port_value);
        let mut docker_socket: String = match env_sock {
            Some(s) => {
                if trim_vec(&chars_of(s)).len() > 0 {
                    owned(s)
                } else {
                    owned("/var/run/docker.sock")
                }
            },
            None => owned("/var/run/docker.sock"),
        };
        let mut i: usize = 0;
        while i < args.len()
            invariant
                av == strings_view(args@),
                i <= args.len(),
                agent_scan(
                    av,
                    0,
                    env_port(opt_str_view(env_port_value)),
                    env_socket(opt_str_view(env_sock)),
                ) == agent_scan(av, i as nat, port, docker_socket@),
            decreases args.len() - i,
        {
            let a = args[i].as_str();
            let has_value = i + 1 < args.len();
            proof {
                assert(av[i as int] == a@);
                if has_value {
                    assert(av[i + 1] == args@[i + 1]@);
                }
            }
            if str_eq(a, "--port") {
                if !has_value {
                    return Err(owned("--port requires a value"));
                }
                match parse_unsigned_vec(&chars_of(args[i + 1].as_str()), u32::MAX as u64) {
                    None => {
                        return Err(owned("Invalid --port"));
                    },
                    Some(n) => {
                        if n == 0 {
                            return Err(owned("--port must be > 0"));
                        }
                        port = n as u32;
                    },
                }
                i = i + 2;
            } else if str_eq(a, "--docker-sock") {
                if !has_value {
                    return Err(owned("--docker-sock requires a value"));
                }
                docker_socket = owned(args[i + 1].as_str());
                i = i + 2;
            } else if str_eq(a, "--help") || str_eq(a, "-h") {
                return Err(owned(Config::usage()));
            } else {
                return Err(concat("Unknown argument: ", a));
            }
        }
        Ok(Config { port, docker_socket })
    }
}

} // verus!
