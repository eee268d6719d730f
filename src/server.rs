//! The decisions of one worker: the daemon's port pair, the recycling
//! threshold, the call counter and the option set it registers. The process
//! and the connection themselves are held by the caller, who performs what
//! these decisions ask for.
use vstd::prelude::*;
use vstd::string::StringExecFns;
use crate::text::{decimal_of, decimal_string};
use crate::wire::{convert_body, convert_body_text, http_request, init_body, init_body_text, request_text};

verus! {

/// Distance between a worker's primary port and its backup port.
pub const BACKUP_OFFSET: u16 = 200;

/// Relies on `rand::Rng::gen_range` (rand 0.7) over the thread-local
/// generator: a value in `[low, high)`. It panics unless `low < high`.
#[verifier::external_body]
fn random_port(low: u16, high: u16) -> (r: u16)
    requires
        low < high,
    ensures
        low <= r < high,
{
    rand::Rng::gen_range(&mut rand::thread_rng(), low, high)
}

/// The option-set tag of a run: `latexml_runner:<pid>`.
pub open spec fn cache_key_text(pid: u32) -> Seq<char> {
    "latexml_runner:"@ + decimal_of(pid as nat)
}

/// Builds the option-set tag under which the process `pid` registers its
/// options at every daemon.
pub fn cache_key_for(pid: u32) -> (r: String)
    ensures
        r@ == cache_key_text(pid),
{
    let mut key = String::from_str("latexml_runner:");
    let digits = decimal_string(pid as u64);
    key.append(digits.as_str());
    key
}

/// What the caller must do so that a live daemon answers on the worker's
/// port before the next call.
#[derive(Debug, PartialEq, Eq, Structural)]
pub struct EnsurePlan {
    /// Close the connection and kill the current daemon first.
    pub terminate: bool,
    /// Spawn a daemon on the (new) port and register the options.
    pub spawn: bool,
}

/// The plain state of one worker.
#[derive(Debug)]
pub struct ServerState {
    port: u16,
    backup_port: u16,
    autoflush: usize,
    call_count: usize,
    cache_key: String,
    latexmls_exec: String,
    boot_options: Vec<(String, String)>,
}

impl ServerState {
    /// The two ports are a pair `p`, `p + 200` in either order.
    pub open spec fn wf(&self) -> bool {
        ||| self.spec_backup_port() == self.spec_port() + BACKUP_OFFSET
        ||| self.spec_port() == self.spec_backup_port() + BACKUP_OFFSET
    }

    pub closed spec fn spec_port(&self) -> u16 {
        self.port
    }

    pub closed spec fn spec_backup_port(&self) -> u16 {
        self.backup_port
    }

    pub closed spec fn spec_autoflush(&self) -> usize {
        self.autoflush
    }

    pub closed spec fn spec_call_count(&self) -> usize {
        self.call_count
    }

    pub closed spec fn spec_cache_key(&self) -> Seq<char> {
        self.cache_key@
    }

    pub closed spec fn spec_exec(&self) -> Seq<char> {
        self.latexmls_exec@
    }

    pub closed spec fn spec_boot_options(&self) -> Seq<(String, String)> {
        self.boot_options@
    }

    /// The recycling threshold has been passed: the daemon must be replaced
    /// before the next call.
    pub open spec fn autoflush_breached(&self) -> bool {
        self.spec_autoflush() > 0 && self.spec_call_count() > self.spec_autoflush()
    }

    /// Everything but the call counter and the ports is as in `other`.
    pub open spec fn same_setup(&self, other: &Self) -> bool {
        &&& self.spec_autoflush() == other.spec_autoflush()
        &&& self.spec_cache_key() == other.spec_cache_key()
        &&& self.spec_exec() == other.spec_exec()
        &&& self.spec_boot_options() == other.spec_boot_options()
    }

    /// A worker that has made no call yet, with `port + 200` as backup.
    pub fn new(
        latexmls_exec: String,
        port: u16,
        autoflush: usize,
        cache_key: String,
        boot_options: Vec<(String, String)>,
    ) -> (r: Self)
        requires
            port as int + BACKUP_OFFSET <= u16::MAX,
        ensures
            r.wf(),
            r.spec_port() == port,
            r.spec_backup_port() == port + BACKUP_OFFSET,
            r.spec_autoflush() == autoflush,
            r.spec_call_count() == 0,
            r.spec_cache_key() == cache_key@,
            r.spec_exec() == latexmls_exec@,
            r.spec_boot_options() == boot_options@,
    {
        ServerState {
            port,
            backup_port: port + BACKUP_OFFSET,
            autoflush,
            call_count: 0,
            cache_key,
            latexmls_exec,
            boot_options,
        }
    }

    /// Swaps the primary and the backup port and restarts the call count.
    /// The caller closes the connection and kills the daemon.
    pub fn rotate_ports(&mut self)
        requires
            old(self).wf(),
        ensures
            final(self).wf(),
            final(self).spec_port() == old(self).spec_backup_port(),
            final(self).spec_backup_port() == old(self).spec_port(),
            final(self).spec_call_count() == 0,
            final(self).same_setup(old(self)),
    {
        let new_backup = self.port;
        self.port = self.backup_port;
        self.backup_port = new_backup;
        self.call_count = 0;
    }

    /// Moves to a port drawn at random from `[from, to)`, with that port
    /// plus 200 as backup, and restarts the call count. The caller closes the
    /// connection, kills the daemon and makes sure a new one runs.
    pub fn resample_ports(&mut self, from: u16, to: u16)
        requires
            from < to,
            to as int + BACKUP_OFFSET <= u16::MAX + 1,
        ensures
            final(self).wf(),
            from <= final(self).spec_port() < to,
            final(self).spec_backup_port() == final(self).spec_port() + BACKUP_OFFSET,
            final(self).spec_call_count() == 0,
            final(self).same_setup(old(self)),
    {
        let new_port = random_port(from, to);
        self.port = new_port;
        self.backup_port = new_port + BACKUP_OFFSET;
        self.call_count = 0;
    }

    /// Decides what must happen before the next call. `child_running` says
    /// whether the caller holds a daemon that has not exited. When the call
    /// count has passed the threshold the ports rotate, and the old daemon is
    /// to be terminated; a daemon is spawned whenever none will be running.
    pub fn plan_ensure(&mut self, child_running: bool) -> (r: EnsurePlan)
        requires
            old(self).wf(),
        ensures
            final(self).wf(),
            final(self).same_setup(old(self)),
            old(self).autoflush_breached() ==> {
                &&& final(self).spec_port() == old(self).spec_backup_port()
                &&& final(self).spec_backup_port() == old(self).spec_port()
                &&& final(self).spec_call_count() == 0
            },
            !old(self).autoflush_breached() ==> {
                &&& final(self).spec_port() == old(self).spec_port()
                &&& final(self).spec_backup_port() == old(self).spec_backup_port()
                &&& final(self).spec_call_count() == old(self).spec_call_count()
            },
            !final(self).autoflush_breached(),
            r == (EnsurePlan {
                terminate: old(self).autoflush_breached(),
                spawn: old(self).autoflush_breached() || !child_running,
            }),
    {
        let breached = self.autoflush > 0 && self.call_count > self.autoflush;
        if breached {
            self.rotate_ports();
        }
        EnsurePlan { terminate: breached, spawn: breached || !child_running }
    }

    /// Counts a call to the daemon; the count stops at the largest `usize`.
    pub fn begin_call(&mut self)
        ensures
            final(self).spec_call_count() == if old(self).spec_call_count() == usize::MAX {
                usize::MAX as int
            } else {
                old(self).spec_call_count() + 1
            },
            final(self).spec_port() == old(self).spec_port(),
            final(self).spec_backup_port() == old(self).spec_backup_port(),
            final(self).same_setup(old(self)),
    {
        if self.call_count < usize::MAX {
            self.call_count = self.call_count + 1;
        }
    }

    /// The form body that registers this worker's options at its daemon.
    pub fn init_body(&self) -> (r: String)
        ensures
            r@ == init_body_text(self.spec_cache_key(), self.spec_boot_options()),
    {
        init_body(self.cache_key.as_str(), &self.boot_options)
    }

    /// The form body that asks this worker's daemon to convert `job`.
    pub fn convert_body(&self, job: &str) -> (r: String)
        ensures
            r@ == convert_body_text(self.spec_cache_key(), job@),
    {
        convert_body(self.cache_key.as_str(), job)
    }

    /// The request text that carries `body` to this worker's daemon.
    pub fn request(&self, body: &str) -> (r: String)
        ensures
            r@ == request_text(self.spec_port(), body@),
    {
        http_request(self.port, body)
    }

    /// The arguments with which the daemon is spawned on this worker's port.
    /// Recycling is the worker's own business, so the daemon's own
    /// autoflush is off.
    pub fn spawn_args(&self) -> (r: Vec<String>)
        ensures
            r@.len() == 10,
            r@[0]@ == "--port"@,
            r@[1]@ == decimal_of(self.spec_port() as nat),
            r@[2]@ == "--address"@,
            r@[3]@ == "127.0.0.1"@,
            r@[4]@ == "--autoflush"@,
            r@[5]@ == "0"@,
            r@[6]@ == "--timeout"@,
            r@[7]@ == "120"@,
            r@[8]@ == "--expire"@,
            r@[9]@ == "4"@,
    {
        let mut args: Vec<String> = Vec::new();
        args.push(String::from_str("--port"));
        args.push(decimal_string(self.port as u64));
        args.push(String::from_str("--address"));
        args.push(String::from_str("127.0.0.1"));
        args.push(String::from_str("--autoflush"));
        args.push(String::from_str("0"));
        args.push(String::from_str("--timeout"));
        args.push(String::from_str("120"));
        args.push(String::from_str("--expire"));
        args.push(String::from_str("4"));
        args
    }

    /// The port the daemon listens on.
    pub fn port(&self) -> (r: u16)
        ensures
            r == self.spec_port(),
    {
        self.port
    }

    /// The port the worker moves to at its next rotation.
    pub fn backup_port(&self) -> (r: u16)
        ensures
            r == self.spec_backup_port(),
    {
        self.backup_port
    }

    /// Calls made since the last rotation or resampling.
    pub fn call_count(&self) -> (r: usize)
        ensures
            r == self.spec_call_count(),
    {
        self.call_count
    }

    /// The recycling threshold; 0 turns recycling off.
    pub fn autoflush(&self) -> (r: usize)
        ensures
            r == self.spec_autoflush(),
    {
        self.autoflush
    }

    /// The path of the daemon executable.
    pub fn latexmls_exec(&self) -> (r: &str)
        ensures
            r@ == self.spec_exec(),
    {
        self.latexmls_exec.as_str()
    }
}

} // verus!
