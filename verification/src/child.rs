//! The supervised child processes: which program a boot launches, with
//! which arguments.
//!
//! Exactly one bridge child is supervised per boot. Its standard input is
//! suppressed and both output streams are captured — that disposition is
//! fixed, not configurable. Deployments differ only in which bridge
//! program they launch, so the sequencer takes the child as a value: the
//! virtual-socket bridge, a reverse proxy, or the detached socat bridge
//! mapping virtual-socket port 1000 to local TCP port 8000.

use vstd::prelude::*;

verus! {

/// One external program: its filesystem path and argument vector. The
/// stdio contract is fixed: stdin null, stdout piped, stderr piped.
pub struct ChildSpec {
    pub path: &'static str,
    pub args: Vec<&'static str>,
}

/// The mathematical value of a [`ChildSpec`].
pub ghost struct ChildSpecV {
    pub path: Seq<char>,
    pub args: Seq<Seq<char>>,
}

impl View for ChildSpec {
    type V = ChildSpecV;

    open spec fn view(&self) -> ChildSpecV {
        ChildSpecV { path: self.path@, args: self.args@.map_values(|a: &'static str| a@) }
    }
}

/// The virtual-socket bridge worker, launched by path with no arguments.
pub fn bridge_worker() -> (c: ChildSpec)
    ensures
        c@.path == "/vm"@,
        c@.args.len() == 0,
{
    let c = ChildSpec { path: "/vm", args: Vec::new() };
    proof {
        assert(c@.args =~= Seq::<Seq<char>>::empty());
    }
    c
}

/// The reverse proxy, launched with its run subcommand and config file.
pub fn reverse_proxy() -> (c: ChildSpec)
    ensures
        c@.path == "/caddy"@,
        c@.args.len() == 3,
        c@.args[0] == "run"@,
        c@.args[1] == "--config"@,
        c@.args[2] == "/Caddyfile"@,
{
    let args: Vec<&'static str> = vec!["run", "--config", "/Caddyfile"];
    ChildSpec { path: "/caddy", args }
}

/// The detached socat bridge: it listens on virtual-socket port 1000 and
/// forwards each connection to TCP port 8000, with a 30-second timeout.
pub fn socat_bridge() -> (c: ChildSpec)
    ensures
        c@.path == "socat"@,
        c@.args.len() == 4,
        c@.args[0] == "-t"@,
        c@.args[1] == "30"@,
        c@.args[2] == "VSOCK-LISTEN:1000,fork,reuseaddr"@,
        c@.args[3] == "TCP:0.0.0.0:8000"@,
{
    let args: Vec<&'static str> = vec![
        "-t",
        "30",
        "VSOCK-LISTEN:1000,fork,reuseaddr",
        "TCP:0.0.0.0:8000",
    ];
    ChildSpec { path: "socat", args }
}

} // verus!
