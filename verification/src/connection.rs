//! Execution targets: the local host or a remote destination reached over
//! ssh as root, and the exponential-backoff establishment of a remote
//! connection.

use vstd::prelude::*;

use crate::command::Invocation;
use crate::command::InvocationModel;
use crate::render::concat_str;
use crate::render::dec_digits;
use crate::render::split_ws;
use crate::render::split_whitespace_words;
use crate::render::u64_to_string;

verus! {

/// The fixed connect timeout, in seconds, of a plain ssh connection that
/// pays no establishment probe.
pub const SSH_CONNECTION_TIMEOUT: u64 = 10;

/// The backoff cap, in seconds, for establishing a connection to the host.
pub const HOST_MAX_CONNECTION_TIMEOUT: u64 = 60;

/// The security-conservative option set every ssh and scp invocation
/// carries: batch mode, a connect timeout, no host-key checking and no
/// known-hosts persistence; agent forwarding only where asked for.
pub open spec fn ssh_option_args(timeout: int, forward_agent: bool) -> Seq<Seq<char>> {
    seq!["-o"@, "BatchMode=yes"@, "-o"@, "ConnectTimeout="@ + dec_digits(timeout)] + (
    if forward_agent {
        seq!["-o"@, "ForwardAgent=yes"@]
    } else {
        Seq::empty()
    }) + seq!["-o"@, "StrictHostKeyChecking=no"@, "-o"@, "UserKnownHostsFile=/dev/null"@]
}

/// Appends the shared ssh option set to an invocation being built.
fn push_ssh_options(invocation: &mut Invocation, timeout: u64, forward_agent: bool)
    ensures
        final (invocation)@.program == old(invocation)@.program,
        final (invocation)@.args == old(invocation)@.args + ssh_option_args(
            timeout as int,
            forward_agent,
        ),
{
    invocation.arg("-o");
    invocation.arg("BatchMode=yes");
    invocation.arg("-o");
    let timeout_arg = concat_str("ConnectTimeout=", u64_to_string(timeout).as_str());
    invocation.arg_string(timeout_arg);
    if forward_agent {
        invocation.arg("-o");
        invocation.arg("ForwardAgent=yes");
    }
    invocation.arg("-o");
    invocation.arg("StrictHostKeyChecking=no");
    invocation.arg("-o");
    invocation.arg("UserKnownHostsFile=/dev/null");
    proof {
        assert(invocation@.args =~= old(invocation)@.args + ssh_option_args(
            timeout as int,
            forward_agent,
        ));
    }
}

/// Appends the words of a command string as separate arguments.
fn push_words(invocation: &mut Invocation, command: &str)
    ensures
        final (invocation)@.program == old(invocation)@.program,
        final (invocation)@.args == old(invocation)@.args + split_ws(command@),
{
    let words = split_whitespace_words(command);
    let ghost word_models = split_ws(command@);
    let mut i: usize = 0;
    proof {
        assert(invocation@.args =~= old(invocation)@.args + word_models.take(0));
    }
    while i < words.len()
        invariant
            i <= words@.len(),
            words@.map_values(|w: String| w@) == word_models,
            invocation@.program == old(invocation)@.program,
            invocation@.args == old(invocation)@.args + word_models.take(i as int),
        decreases words@.len() - i,
    {
        proof {
            assert(words@[i as int]@ == word_models[i as int]);
        }
        invocation.arg_string(words[i].clone());
        proof {
            assert(invocation@.args =~= old(invocation)@.args + word_models.take(i as int + 1));
        }
        i = i + 1;
    }
    proof {
        assert(word_models.take(words@.len() as int) =~= word_models);
    }
}

/// The `root@destination` argument of an ssh invocation.
pub open spec fn root_at(destination: Seq<char>) -> Seq<char> {
    "root@"@ + destination
}

fn root_at_arg(destination: &str) -> (r: String)
    ensures
        r@ == root_at(destination@),
{
    concat_str("root@", destination)
}

/// An execution target reached by wrapping every command in an ssh
/// invocation with the fixed connect timeout.
#[derive(Debug)]
pub struct SshConnection {
    pub destination: String,
}

/// The ssh invocation that runs `command` on a destination: the shared
/// option set with agent forwarding, then `root@destination`, then the
/// command name as one argument.
pub open spec fn ssh_command_model(destination: Seq<char>, command: Seq<char>) -> InvocationModel {
    InvocationModel {
        program: "ssh"@,
        args: ssh_option_args(SSH_CONNECTION_TIMEOUT as int, true) + seq![
            root_at(destination),
            command,
        ],
    }
}

impl SshConnection {
    /// The ssh invocation that runs `command` on this destination.
    pub open spec fn command_model(self, command: Seq<char>) -> InvocationModel {
        ssh_command_model(self.destination@, command)
    }

    pub fn new(destination: &str) -> (r: Self)
        ensures
            r.destination@ == destination@,
    {
        SshConnection { destination: destination.to_owned() }
    }

    /// Builds the ssh invocation that runs `command` on this destination;
    /// further arguments are appended by the caller.
    pub fn command(&self, command: &str) -> (r: Invocation)
        ensures
            r@ == self.command_model(command@),
    {
        let mut invocation = Invocation::new("ssh");
        push_ssh_options(&mut invocation, SSH_CONNECTION_TIMEOUT, true);
        invocation.arg_string(root_at_arg(self.destination.as_str()));
        invocation.arg(command);
        proof {
            assert(invocation@.args =~= self.command_model(command@).args);
        }
        invocation
    }
}

/// A connection to a guest proved reachable: every command reuses the
/// destination and the connect timeout learned during establishment.
#[derive(Debug)]
pub struct GuestConnection {
    pub connection_timeout: u64,
    pub ip_address: String,
}

impl GuestConnection {
    /// The ssh invocation that runs a command, given as its whitespace-split
    /// words plus extra arguments, on the guest: the shared option set with
    /// the learned timeout, agent forwarding as a bare flag, then
    /// `root@ip`, the words and the arguments.
    pub open spec fn execute_model(self, command: Seq<char>, extra: Seq<Seq<char>>
    ) -> InvocationModel {
        InvocationModel {
            program: "ssh"@,
            args: ssh_option_args(self.connection_timeout as int, false) + seq![
                "-A"@,
                root_at(self.ip_address@),
            ] + split_ws(command) + extra,
        }
    }

    /// The scp invocation that copies a local file to a path on the guest.
    pub open spec fn upload_model(self, source_path: Seq<char>, destination_path: Seq<char>
    ) -> InvocationModel {
        InvocationModel {
            program: "scp"@,
            args: ssh_option_args(self.connection_timeout as int, false) + seq![
                source_path,
                root_at(self.ip_address@) + ":"@ + destination_path,
            ],
        }
    }

    pub fn new(ip_address: &str, connection_timeout: u64) -> (r: Self)
        ensures
            r.ip_address@ == ip_address@,
            r.connection_timeout == connection_timeout,
    {
        GuestConnection { connection_timeout, ip_address: ip_address.to_owned() }
    }

    /// Builds the ssh invocation that runs `command`, with no extra
    /// arguments, on the guest.
    pub fn execute(&self, command: &str) -> (r: Invocation)
        ensures
            r@ == self.execute_model(command@, Seq::empty()),
    {
        self.execute_with_args(command, Vec::new())
    }

    /// Builds the ssh invocation that runs `command` with the given extra
    /// arguments on the guest.
    pub fn execute_with_args(&self, command: &str, args: Vec<String>) -> (r: Invocation)
        ensures
            r@ == self.execute_model(command@, args@.map_values(|a: String| a@)),
    {
        let mut invocation = Invocation::new("ssh");
        push_ssh_options(&mut invocation, self.connection_timeout, false);
        invocation.arg("-A");
        invocation.arg_string(root_at_arg(self.ip_address.as_str()));
        push_words(&mut invocation, command);
        let ghost arg_models = args@.map_values(|a: String| a@);
        let mut i: usize = 0;
        let ghost mid = invocation@.args;
        proof {
            assert(invocation@.args =~= mid + arg_models.take(0));
        }
        let args = args;
        while i < args.len()
            invariant
                i <= args@.len(),
                args@.map_values(|a: String| a@) == arg_models,
                invocation@.program == "ssh"@,
                invocation@.args == mid + arg_models.take(i as int),
            decreases args@.len() - i,
        {
            proof {
                assert(args@[i as int]@ == arg_models[i as int]);
            }
            invocation.arg_string(args[i].clone());
            proof {
                assert(invocation@.args =~= mid + arg_models.take(i as int + 1));
            }
            i = i + 1;
        }
        proof {
            assert(arg_models.take(args@.len() as int) =~= arg_models);
            assert(invocation@.args =~= self.execute_model(command@, arg_models).args);
        }
        invocation
    }

    /// Builds the scp invocation that copies a local file to the guest.
    pub fn upload(&self, source_path: &str, destination_path: &str) -> (r: Invocation)
        ensures
            r@ == self.upload_model(source_path@, destination_path@),
    {
        let mut invocation = Invocation::new("scp");
        push_ssh_options(&mut invocation, self.connection_timeout, false);
        invocation.arg(source_path);
        let mut target = root_at_arg(self.ip_address.as_str());
        target.append(":");
        target.append(destination_path);
        invocation.arg_string(target);
        proof {
            assert(invocation@.args =~= self.upload_model(source_path@, destination_path@).args);
        }
        invocation
    }
}

/// A connection to the host, established with the fixed backoff cap.
#[derive(Debug)]
pub struct HostConnection {
    pub connection_timeout: u64,
    pub host: String,
}

impl HostConnection {
    /// The ssh invocation that runs a command, given as its whitespace-split
    /// words, on the host.
    pub open spec fn prepare_model(self, command: Seq<char>) -> InvocationModel {
        InvocationModel {
            program: "ssh"@,
            args: ssh_option_args(self.connection_timeout as int, false) + seq![
                root_at(self.host@),
            ] + split_ws(command),
        }
    }

    pub fn new(host: &str, connection_timeout: u64) -> (r: Self)
        ensures
            r.host@ == host@,
            r.connection_timeout == connection_timeout,
    {
        HostConnection { connection_timeout, host: host.to_owned() }
    }

    /// Builds the ssh invocation that runs `command` on the host; further
    /// arguments are appended by the caller.
    pub fn prepare(&self, command: &str) -> (r: Invocation)
        ensures
            r@ == self.prepare_model(command@),
    {
        let mut invocation = Invocation::new("ssh");
        push_ssh_options(&mut invocation, self.connection_timeout, false);
        invocation.arg_string(root_at_arg(self.host.as_str()));
        push_words(&mut invocation, command);
        proof {
            assert(invocation@.args =~= self.prepare_model(command@).args);
        }
        invocation
    }
}

/// Two to the power `k` (and one for negative `k`).
pub open spec fn pow2(k: int) -> int
    decreases k,
{
    if k <= 0 {
        1
    } else {
        2 * pow2(k - 1)
    }
}

/// The cumulative backoff sleep after `n` failed probes that each continued:
/// the establisher sleeps its doubled timeout after every such failure.
pub open spec fn sleep_total(n: int) -> int
    decreases n,
{
    if n <= 0 {
        0
    } else {
        sleep_total(n - 1) + pow2(n)
    }
}

/// The number of doublings that take one to at least `m`.
pub open spec fn clog2(m: int) -> int
    decreases m,
{
    if m <= 1 {
        0
    } else {
        1 + clog2((m + 1) / 2)
    }
}

proof fn lemma_pow2_pos(k: int)
    ensures
        pow2(k) >= 1,
    decreases k,
{
    if k > 0 {
        lemma_pow2_pos(k - 1);
    }
}

proof fn lemma_pow2_mono(a: int, b: int)
    requires
        a <= b,
    ensures
        pow2(a) <= pow2(b),
    decreases b - a,
{
    if a < b {
        lemma_pow2_mono(a, b - 1);
        lemma_pow2_pos(b - 1);
    }
}

proof fn lemma_pow2_clog2(m: int)
    requires
        m >= 1,
    ensures
        pow2(clog2(m)) >= m,
    decreases m,
{
    if m > 1 {
        lemma_pow2_clog2((m + 1) / 2);
    }
}

proof fn lemma_sleep_total_closed(n: int)
    requires
        n >= 0,
    ensures
        sleep_total(n) == pow2(n + 1) - 2,
    decreases n,
{
    if n == 0 {
    } else {
        lemma_sleep_total_closed(n - 1);
        assert(pow2(n + 1) == 2 * pow2(n));
        assert(sleep_total(n) == sleep_total(n - 1) + pow2(n));
    }
}

/// Backoff termination: the timeout of the first probe is one second and each
/// failed probe that continues doubles it, so after `n` such failures the
/// timeout is two to the `n`. The establisher gives up as soon as the doubled
/// timeout reaches the cap; hence a run in which every probe fails makes at
/// most `clog2(max) + 1` probes — about the base-two logarithm of the cap,
/// plus one — and sleeps strictly less than `2 * max` seconds in total.
pub proof fn lemma_backoff_termination(max_connection_timeout: u64, n: int)
    requires
        max_connection_timeout >= 1,
        n >= 0,
        forall|i: int| 0 <= i < n ==> 2 * pow2(i) < max_connection_timeout,
    ensures
        n <= clog2(max_connection_timeout as int),
        sleep_total(n) < 2 * (max_connection_timeout as int),
{
    let max = max_connection_timeout as int;
    if n == 0 {
        assert(clog2(max) >= 0) by {
            lemma_clog2_nonneg(max);
        }
    } else {
        assert(2 * pow2(n - 1) < max);
        assert(pow2(n) == 2 * pow2(n - 1));
        assert(pow2(n) < max);
        lemma_pow2_clog2(max);
        if n > clog2(max) {
            lemma_pow2_mono(clog2(max), n);
            assert(pow2(n) >= pow2(clog2(max)));
            assert(false);
        }
    }
    lemma_sleep_total_closed(n);
    assert(pow2(n + 1) == 2 * pow2(n));
    if n == 0 {
        assert(sleep_total(0) == 0);
    } else {
        assert(pow2(n) < max);
    }
}

proof fn lemma_clog2_nonneg(m: int)
    ensures
        clog2(m) >= 0,
    decreases m,
{
    if m > 1 {
        lemma_clog2_nonneg((m + 1) / 2);
    }
}

/// Backoff termination, read on the establisher itself: in any state the
/// machine can reach after a failed probe that continued, the number of such
/// failures is at most `clog2` of the cap — so a full run of failures makes
/// at most `clog2(cap) + 1` probes — and the cumulative sleep so far stays
/// strictly below twice the cap.
pub proof fn lemma_establisher_bounds(establisher: ConnectionEstablisher)
    requires
        establisher.wf(),
        establisher.attempts@ > 0,
    ensures
        establisher.attempts@ <= clog2(establisher.max_connection_timeout as int),
        sleep_total(establisher.attempts@) < 2 * (establisher.max_connection_timeout as int),
{
    let max = establisher.max_connection_timeout;
    let n = establisher.attempts@;
    lemma_pow2_pos(n);
    assert(max >= 1);
    // the timeout is below the cap, so every earlier doubled timeout was too
    assert forall|i: int| 0 <= i < n implies 2 * pow2(i) < max by {
        lemma_pow2_mono(i + 1, n);
        assert(pow2(i + 1) == 2 * pow2(i));
    }
    lemma_backoff_termination(max, n);
}

/// What the establisher decides after a failed probe: sleep the doubled
/// timeout and probe again, or give up and surface the probe's failure.
#[derive(Debug)]
pub enum BackoffDecision {
    Retry { sleep_seconds: u64 },
    GiveUp,
}

/// The exponential-backoff probe loop that proves a destination reachable,
/// as explicit state: the driver builds `probe_invocation`, runs it, and
/// reports success or failure; the establisher decides what follows.
pub struct ConnectionEstablisher {
    pub destination: String,
    pub max_connection_timeout: u64,
    pub connection_timeout: u64,
    pub attempts: Ghost<int>,
}

impl ConnectionEstablisher {
    /// The timeout always equals two to the number of failed probes that
    /// continued, and stays below the cap once any probe failed.
    pub open spec fn wf(self) -> bool {
        &&& self.attempts@ >= 0
        &&& self.connection_timeout == pow2(self.attempts@)
        &&& (self.attempts@ == 0 || self.connection_timeout < self.max_connection_timeout)
    }

    /// Starts establishment with a one-second probe timeout.
    pub fn new(destination: &str, max_connection_timeout: u64) -> (r: Self)
        ensures
            r.wf(),
            r.destination@ == destination@,
            r.max_connection_timeout == max_connection_timeout,
            r.connection_timeout == 1,
            r.attempts@ == 0,
    {
        ConnectionEstablisher {
            destination: destination.to_owned(),
            max_connection_timeout,
            connection_timeout: 1,
            attempts: Ghost(0),
        }
    }

    /// Builds the no-op probe: `exit 0` over ssh, with the current timeout as
    /// the connect timeout.
    pub fn probe_invocation(&self) -> (r: Invocation)
        ensures
            r@.program == "ssh"@,
            r@.args == ssh_option_args(self.connection_timeout as int, false) + seq![
                root_at(self.destination@),
                "exit"@,
                "0"@,
            ],
    {
        let mut invocation = Invocation::new("ssh");
        push_ssh_options(&mut invocation, self.connection_timeout, false);
        invocation.arg_string(root_at_arg(self.destination.as_str()));
        invocation.arg("exit");
        invocation.arg("0");
        proof {
            assert(invocation@.args =~= ssh_option_args(self.connection_timeout as int, false)
                + seq![root_at(self.destination@), "exit"@, "0"@]);
        }
        invocation
    }

    /// A successful probe ends establishment: the connection keeps this
    /// probe's timeout for every later command — deliberately not resetting
    /// to one second.
    pub fn connect_guest(self) -> (r: GuestConnection)
        ensures
            r.connection_timeout == self.connection_timeout,
            r.ip_address@ == self.destination@,
    {
        GuestConnection {
            connection_timeout: self.connection_timeout,
            ip_address: self.destination,
        }
    }

    /// A successful probe ends establishment of a host connection.
    pub fn connect_host(self) -> (r: HostConnection)
        ensures
            r.connection_timeout == self.connection_timeout,
            r.host@ == self.destination@,
    {
        HostConnection { connection_timeout: self.connection_timeout, host: self.destination }
    }

    /// A failed probe doubles the timeout. If the doubled value reaches the
    /// cap, establishment gives up and the probe's failure is surfaced;
    /// otherwise the establisher asks the driver to sleep exactly the doubled
    /// timeout and probe again — each failed attempt's next timeout is
    /// exactly double the previous.
    pub fn on_probe_failure(&mut self) -> (r: BackoffDecision)
        requires
            old(self).wf(),
        ensures
            final (self).wf(),
            final (self).destination == old(self).destination,
            final (self).max_connection_timeout == old(self).max_connection_timeout,
            (r is GiveUp) <==> 2 * old(self).connection_timeout
                >= old(self).max_connection_timeout,
            r is GiveUp ==> *final (self) == *old(self),
            r matches BackoffDecision::Retry { sleep_seconds } ==> {
                &&& final (self).connection_timeout == 2 * old(self).connection_timeout
                &&& sleep_seconds == final (self).connection_timeout
                &&& final (self).attempts@ == old(self).attempts@ + 1
            },
    {
        let reaches_cap: bool = self.connection_timeout as u128 * 2
            >= self.max_connection_timeout as u128;
        if reaches_cap {
            BackoffDecision::GiveUp
        } else {
            self.connection_timeout = self.connection_timeout * 2;
            proof {
                self.attempts@ = self.attempts@ + 1;
            }
            BackoffDecision::Retry { sleep_seconds: self.connection_timeout }
        }
    }
}

} // verus!
