//! Decisions of the CRI shim: whether a pod sandbox runs as a VM, how the
//! CNI plugin is invoked for it, and what becomes of the plugin's answer.
//!
//! The process execution and file system work around these decisions are
//! asynchronous I/O and happen outside this module.
use std::collections::HashMap;
use vstd::prelude::*;
use vstd::utf8::valid_utf8;

verus! {

/// The annotation that asks for a pod sandbox to run as a VM.
pub const VMM_ANNOTATION: &'static str = "nexus.io/vmm";

/// The annotation value that turns the VMM path on.
pub const VMM_ENABLED_VALUE: &'static str = "true";

/// The identifier given to the sandbox of a VMM pod.
pub const SANDBOX_ID: &'static str = "sandbox-vmm-0.1";

/// The answer to a request that does not ask for the VMM path.
pub const FALLBACK_MESSAGE: &'static str = "Fallback to standard CRI: nexus.io/vmm is not true";

/// The error when the CNI plugin fails to add the network.
pub const CNI_ADD_FAILED: &'static str = "CNI ADD execution failed";

/// The error when the CNI plugin fails to delete the network.
pub const CNI_DEL_FAILED: &'static str = "CNI DEL execution failed";

/// Opening of the error when the CNI plugin cannot be started.
pub const SPAWN_FAILED_PREFIX: &'static str = "Failed to spawn CNI process: ";

/// Opening of the error when the CNI result cannot be stored.
pub const STATE_WRITE_FAILED_PREFIX: &'static str = "Failed to write CNI state: ";

/// Directory that holds the stored CNI result of each sandbox.
pub const SANDBOX_STATE_DIR: &'static str = "/var/lib/nexus/sandboxes/";

/// Suffix of the file that holds a sandbox's CNI result.
pub const SANDBOX_STATE_SUFFIX: &'static str = ".json";

/// Directory of the network namespaces handed to the CNI plugin.
pub const NETNS_DIR: &'static str = "/var/run/netns/";

/// Interface name handed to the CNI plugin.
pub const CNI_IFNAME: &'static str = "eth0";

/// Search path of CNI plugin binaries.
pub const CNI_BIN_PATH: &'static str = "/opt/cni/bin";

/// The program that runs the CNI plugin script.
pub const CNI_SHELL: &'static str = "sh";

/// The shell flag that precedes the plugin script.
pub const CNI_SHELL_FLAG: &'static str = "-c";

/// The plugin script run to add a sandbox's network; it answers with the
/// sandbox's address as JSON.
pub const CNI_ADD_SCRIPT: &'static str = "sleep 1 && echo '{\"ip\":\"10.0.0.2\"}'";

/// The plugin script run to delete a sandbox's network.
pub const CNI_DEL_SCRIPT: &'static str = "sleep 1";

/// The byte that opens the JSON answer of the CNI plugin.
pub const JSON_OPEN_BRACE: u8 = 0x7B;

/// Minimal request for pod sandbox creation.
#[derive(Clone, Debug, PartialEq, Eq)]
pub struct RunPodSandboxRequest {
    pub annotations: HashMap<String, String>,
}

/// The Nexus CRI service orchestrator.
#[derive(Clone, Copy, Debug, PartialEq, Eq, Structural)]
pub struct NexusCriService;

/// The two operations of the CNI plugin protocol that the shim uses.
#[derive(Clone, Copy, Debug, PartialEq, Eq, Structural)]
pub enum CniCommand {
    Add,
    Del,
}

/// One run of the CNI plugin for a sandbox.
#[derive(Clone, Debug, PartialEq, Eq)]
pub struct CniInvocation {
    pub command: CniCommand,
    pub sandbox_id: String,
}

/// The entry of `annotations` whose key reads as `key` holds `value`.
pub open spec fn annotation_is(
    annotations: Map<String, String>,
    key: Seq<char>,
    value: Seq<char>,
) -> bool {
    exists|k: String| #[trigger]
        annotations.contains_key(k) && k@ == key && annotations[k]@ == value
}

/// The request asks for the sandbox to run as a VM.
pub open spec fn vmm_requested(annotations: Map<String, String>) -> bool {
    annotation_is(annotations, VMM_ANNOTATION@, VMM_ENABLED_VALUE@)
}

/// Looks `key` up in `annotations` with `HashMap::get`.
///
/// Claims what std documents of `get` on a map with `String` keys, which
/// compare by their text: the result is the value of the entry whose key
/// reads as `key`, which is the only such entry, and `None` when no key
/// reads so. (vstd's own specification of `get` holds only for key types
/// whose model it knows, which `String` is not.)
#[verifier::external_body]
fn annotation_lookup<'a>(
    annotations: &'a HashMap<String, String>,
    key: &str,
) -> (value: Option<&'a String>)
    ensures
        match value {
            Some(v) => {
                &&& exists|k: String| #[trigger]
                    annotations@.contains_key(k) && k@ == key@ && annotations@[k] == *v
                &&& forall|k: String| #[trigger]
                    annotations@.contains_key(k) && k@ == key@ ==> annotations@[k] == *v
            },
            None => forall|k: String| #[trigger]
                annotations@.contains_key(k) ==> k@ != key@,
        },
{
    annotations.get(key)
}

impl RunPodSandboxRequest {
    /// Whether the request asks for the sandbox to run as a VM: its
    /// `nexus.io/vmm` annotation is exactly `true`.
    pub fn vmm_enabled(&self) -> (enabled: bool)
        ensures
            enabled == vmm_requested(self.annotations@),
    {
        match annotation_lookup(&self.annotations, VMM_ANNOTATION) {
            Some(v) => {
                let expected = String::from_str(VMM_ENABLED_VALUE);
                let enabled = *v == expected;
                proof {
                    if !enabled {
                        assert forall|k: String|
                            #[trigger] self.annotations@.contains_key(k) && k@ == VMM_ANNOTATION@
                            implies self.annotations@[k]@ != VMM_ENABLED_VALUE@ by {}
                    }
                }
                enabled
            },
            None => false,
        }
    }
}

/// The text of the environment variable that names the CNI operation.
pub open spec fn command_name(command: CniCommand) -> Seq<char> {
    match command {
        CniCommand::Add => "ADD"@,
        CniCommand::Del => "DEL"@,
    }
}

/// The plugin script run for a CNI operation.
pub open spec fn command_script(command: CniCommand) -> Seq<char> {
    match command {
        CniCommand::Add => CNI_ADD_SCRIPT@,
        CniCommand::Del => CNI_DEL_SCRIPT@,
    }
}

/// The network namespace path of a sandbox.
pub open spec fn spec_netns_path(sandbox_id: Seq<char>) -> Seq<char> {
    NETNS_DIR@ + sandbox_id
}

/// The path of the file that holds a sandbox's CNI result.
pub open spec fn spec_state_path(sandbox_id: Seq<char>) -> Seq<char> {
    SANDBOX_STATE_DIR@ + sandbox_id + SANDBOX_STATE_SUFFIX@
}

/// The environment handed to the CNI plugin, in the order it is set.
pub open spec fn spec_cni_env(
    command: CniCommand,
    sandbox_id: Seq<char>,
) -> Seq<(Seq<char>, Seq<char>)> {
    seq![
        ("CNI_COMMAND"@, command_name(command)),
        ("CNI_CONTAINERID"@, sandbox_id),
        ("CNI_NETNS"@, spec_netns_path(sandbox_id)),
        ("CNI_IFNAME"@, CNI_IFNAME@),
        ("CNI_PATH"@, CNI_BIN_PATH@),
    ]
}

/// The text of each pair of strings.
pub open spec fn pairs_view(pairs: Seq<(String, String)>) -> Seq<(Seq<char>, Seq<char>)> {
    pairs.map_values(|p: (String, String)| (p.0@, p.1@))
}

/// The text of each string.
pub open spec fn strings_view(strings: Seq<String>) -> Seq<Seq<char>> {
    strings.map_values(|s: String| s@)
}

/// The network namespace path of a sandbox.
pub fn netns_path(sandbox_id: &str) -> (path: String)
    ensures
        path@ == spec_netns_path(sandbox_id@),
{
    let mut path = String::from_str(NETNS_DIR);
    path.append(sandbox_id);
    path
}

/// The path of the file that holds a sandbox's CNI result.
pub fn sandbox_state_path(sandbox_id: &str) -> (path: String)
    ensures
        path@ == spec_state_path(sandbox_id@),
{
    let mut path = String::from_str(SANDBOX_STATE_DIR);
    path.append(sandbox_id);
    path.append(SANDBOX_STATE_SUFFIX);
    path
}

impl CniInvocation {
    /// The run of the CNI plugin that performs `command` for `sandbox_id`.
    pub fn new(command: CniCommand, sandbox_id: &str) -> (invocation: CniInvocation)
        ensures
            invocation.command == command,
            invocation.sandbox_id@ == sandbox_id@,
    {
        CniInvocation { command, sandbox_id: String::from_str(sandbox_id) }
    }

    /// The program that runs the plugin.
    pub fn program(&self) -> (program: String)
        ensures
            program@ == CNI_SHELL@,
    {
        String::from_str(CNI_SHELL)
    }

    /// The arguments of the program: the shell flag and the plugin script.
    pub fn args(&self) -> (args: Vec<String>)
        ensures
            strings_view(args@) == seq![CNI_SHELL_FLAG@, command_script(self.command)],
    {
        let script = match self.command {
            CniCommand::Add => CNI_ADD_SCRIPT,
            CniCommand::Del => CNI_DEL_SCRIPT,
        };
        let mut args: Vec<String> = Vec::new();
        args.push(String::from_str(CNI_SHELL_FLAG));
        args.push(String::from_str(script));
        assert(strings_view(args@) =~= seq![CNI_SHELL_FLAG@, command_script(self.command)]);
        args
    }

    /// The environment of the plugin, in the order it is set.
    pub fn env(&self) -> (env: Vec<(String, String)>)
        ensures
            pairs_view(env@) == spec_cni_env(self.command, self.sandbox_id@),
    {
        let name = match self.command {
            CniCommand::Add => "ADD",
            CniCommand::Del => "DEL",
        };
        let id = self.sandbox_id.as_str();
        let mut env: Vec<(String, String)> = Vec::new();
        env.push((String::from_str("CNI_COMMAND"), String::from_str(name)));
        env.push((String::from_str("CNI_CONTAINERID"), String::from_str(id)));
        env.push((String::from_str("CNI_NETNS"), netns_path(id)));
        env.push((String::from_str("CNI_IFNAME"), String::from_str(CNI_IFNAME)));
        env.push((String::from_str("CNI_PATH"), String::from_str(CNI_BIN_PATH)));
        assert(pairs_view(env@) =~= spec_cni_env(self.command, self.sandbox_id@));
        env
    }

    /// The file that holds the sandbox's CNI result.
    pub fn state_path(&self) -> (path: String)
        ensures
            path@ == spec_state_path(self.sandbox_id@),
    {
        sandbox_state_path(self.sandbox_id.as_str())
    }
}

impl NexusCriService {
    /// Creates a new Nexus CRI service instance.
    pub fn new() -> (service: Self)
        ensures
            service == NexusCriService,
    {
        NexusCriService
    }

    /// The first decision of pod sandbox creation: a request that does not
    /// ask for the VMM path is turned away, any other one goes on to add the
    /// network of the VMM sandbox through the CNI plugin.
    pub fn plan_pod_sandbox(&self, req: &RunPodSandboxRequest) -> (plan: Result<CniInvocation, String>)
        ensures
            plan is Ok <==> vmm_requested(req.annotations@),
            plan matches Ok(inv) ==> inv.command == CniCommand::Add && inv.sandbox_id@
                == SANDBOX_ID@,
            plan matches Err(msg) ==> msg@ == FALLBACK_MESSAGE@,
    {
        if !req.vmm_enabled() {
            return Err(String::from_str(FALLBACK_MESSAGE));
        }
        Ok(CniInvocation::new(CniCommand::Add, SANDBOX_ID))
    }

    /// The last decision of pod sandbox creation: once the network is set
    /// up the sandbox is ready under its identifier; a failure of the setup
    /// is the answer.
    pub fn finish_pod_sandbox(
        &self,
        invocation: &CniInvocation,
        setup: Result<(), String>,
    ) -> (result: Result<String, String>)
        ensures
            setup is Ok ==> (result matches Ok(id) && id@ == invocation.sandbox_id@),
            setup matches Err(e) ==> result == Err::<String, String>(e),
    {
        match setup {
            Ok(()) => Ok(invocation.sandbox_id.clone()),
            Err(e) => Err(e),
        }
    }

    /// The run of the CNI plugin that tears a sandbox's network down.
    pub fn plan_teardown(&self, sandbox_id: &str) -> (invocation: CniInvocation)
        ensures
            invocation.command == CniCommand::Del,
            invocation.sandbox_id@ == sandbox_id@,
    {
        CniInvocation::new(CniCommand::Del, sandbox_id)
    }
}

/// What follows the first `{` of the plugin's answer, if it has one.
pub open spec fn brace_suffix(text: Seq<u8>) -> Option<Seq<u8>>
    decreases text.len(),
{
    if text.len() == 0 {
        None
    } else if text[0] == JSON_OPEN_BRACE {
        Some(text)
    } else {
        brace_suffix(text.drop_first())
    }
}

/// The JSON part of the plugin's answer: from its first `{` on, or the
/// whole answer when it has none.
pub open spec fn spec_json_suffix(text: Seq<u8>) -> Seq<u8> {
    match brace_suffix(text) {
        Some(s) => s,
        None => text,
    }
}

/// The text that the plugin's output reads as, each invalid UTF-8
/// sequence replaced, given as the bytes of that text.
pub uninterp spec fn utf8_lossy(bytes: Seq<u8>) -> Seq<u8>;

/// `String::from_utf8_lossy`, taken as the bytes of the string it returns.
///
/// Claims that the result is a function of the bytes alone (named
/// `utf8_lossy`), that it is valid UTF-8, and that valid UTF-8 comes back
/// unchanged, as std documents. How each invalid sequence is replaced is
/// left unsaid.
#[verifier::external_body]
fn lossy_text(bytes: &[u8]) -> (text: Vec<u8>)
    ensures
        text@ == utf8_lossy(bytes@),
        valid_utf8(text@),
        valid_utf8(bytes@) ==> text@ == bytes@,
{
    String::from_utf8_lossy(bytes).into_owned().into_bytes()
}

/// The JSON part of the plugin's answer: from its first `{` on, or the
/// whole answer when it has none.
pub fn json_suffix(text: &[u8]) -> (json: Vec<u8>)
    ensures
        json@ == spec_json_suffix(text@),
{
    let mut i: usize = 0;
    assert(text@.subrange(0, text@.len() as int) =~= text@);
    while i < text.len()
        invariant
            i <= text@.len(),
            brace_suffix(text@) == brace_suffix(text@.subrange(i as int, text@.len() as int)),
        decreases text@.len() - i,
    {
        let ghost rest = text@.subrange(i as int, text@.len() as int);
        if text[i] == JSON_OPEN_BRACE {
            let mut json: Vec<u8> = Vec::new();
            let mut j: usize = i;
            while j < text.len()
                invariant
                    i <= j <= text@.len(),
                    json@ == text@.subrange(i as int, j as int),
                decreases text@.len() - j,
            {
                json.push(text[j]);
                j = j + 1;
                assert(json@ =~= text@.subrange(i as int, j as int));
            }
            return json;
        }
        assert(rest.drop_first() =~= text@.subrange(i + 1, text@.len() as int));
        i = i + 1;
    }
    assert(text@.subrange(i as int, text@.len() as int) =~= Seq::<u8>::empty());
    let mut json: Vec<u8> = Vec::new();
    let mut j: usize = 0;
    while j < text.len()
        invariant
            j <= text@.len(),
            json@ == text@.subrange(0, j as int),
        decreases text@.len() - j,
    {
        json.push(text[j]);
        j = j + 1;
        assert(json@ =~= text@.subrange(0, j as int));
    }
    assert(text@.subrange(0, j as int) =~= text@);
    json
}

/// The decision on the answer of the CNI plugin that adds a sandbox's
/// network: a failed run is an error; otherwise what is stored is the JSON
/// part of the plugin's output, read as text.
pub fn cni_add_outcome(succeeded: bool, stdout: &[u8]) -> (outcome: Result<Vec<u8>, String>)
    ensures
        succeeded ==> (outcome matches Ok(state) && state@ == spec_json_suffix(utf8_lossy(stdout@))),
        !succeeded ==> (outcome matches Err(msg) && msg@ == CNI_ADD_FAILED@),
{
    if !succeeded {
        return Err(String::from_str(CNI_ADD_FAILED));
    }
    let text = lossy_text(stdout);
    Ok(json_suffix(text.as_slice()))
}

/// The decision on the answer of the CNI plugin that deletes a sandbox's
/// network.
pub fn cni_del_outcome(succeeded: bool) -> (outcome: Result<(), String>)
    ensures
        succeeded <==> outcome is Ok,
        outcome matches Err(msg) ==> msg@ == CNI_DEL_FAILED@,
{
    if succeeded {
        Ok(())
    } else {
        Err(String::from_str(CNI_DEL_FAILED))
    }
}

/// The error when the CNI plugin cannot be started, with the reason given.
pub fn spawn_failure(reason: &str) -> (msg: String)
    ensures
        msg@ == SPAWN_FAILED_PREFIX@ + reason@,
{
    let mut msg = String::from_str(SPAWN_FAILED_PREFIX);
    msg.append(reason);
    msg
}

/// The error when the CNI result cannot be stored, with the reason given.
pub fn state_write_failure(reason: &str) -> (msg: String)
    ensures
        msg@ == STATE_WRITE_FAILED_PREFIX@ + reason@,
{
    let mut msg = String::from_str(STATE_WRITE_FAILED_PREFIX);
    msg.append(reason);
    msg
}

/// Setting a sandbox's network up and tearing it down hand the plugin the
/// same environment but for the name of the operation, and concern the
/// same stored state.
pub proof fn lemma_setup_and_teardown_agree(sandbox_id: Seq<char>)
    ensures
        spec_cni_env(CniCommand::Add, sandbox_id).len() == spec_cni_env(
            CniCommand::Del,
            sandbox_id,
        ).len(),
        spec_cni_env(CniCommand::Add, sandbox_id)[0] == ("CNI_COMMAND"@, "ADD"@),
        spec_cni_env(CniCommand::Del, sandbox_id)[0] == ("CNI_COMMAND"@, "DEL"@),
        forall|i: int|
            1 <= i < spec_cni_env(CniCommand::Add, sandbox_id).len() ==> #[trigger] spec_cni_env(
                CniCommand::Add,
                sandbox_id,
            )[i] == spec_cni_env(CniCommand::Del, sandbox_id)[i],
{
}

/// What is kept of the plugin's answer starts at its first `{`: when the
/// answer holds a `{`, the result is the answer from the least index that
/// holds one (so it starts with `{` and nothing cut away is a `{`); when it
/// holds none, the result is the whole answer.
pub proof fn lemma_json_suffix_from_first_brace(text: Seq<u8>)
    ensures
        forall|i: int|
            0 <= i < text.len() && text[i] == JSON_OPEN_BRACE && (forall|j: int|
                0 <= j < i ==> text[j] != JSON_OPEN_BRACE) ==> #[trigger] text.subrange(
                i,
                text.len() as int,
            ) == spec_json_suffix(text),
        (forall|j: int| 0 <= j < text.len() ==> text[j] != JSON_OPEN_BRACE) ==> spec_json_suffix(
            text,
        ) == text,
    decreases text.len(),
{
    if text.len() == 0 {
    } else if text[0] == JSON_OPEN_BRACE {
        assert forall|i: int|
            0 <= i < text.len() && text[i] == JSON_OPEN_BRACE && (forall|j: int|
                0 <= j < i ==> text[j] != JSON_OPEN_BRACE) implies #[trigger] text.subrange(
            i,
            text.len() as int,
        ) == spec_json_suffix(text) by {
            if i > 0 {
                assert(text[0] != JSON_OPEN_BRACE);
            }
            assert(text.subrange(0, text.len() as int) =~= text);
        }
    } else {
        let rest = text.drop_first();
        lemma_json_suffix_from_first_brace(rest);
        assert forall|i: int|
            0 <= i < text.len() && text[i] == JSON_OPEN_BRACE && (forall|j: int|
                0 <= j < i ==> text[j] != JSON_OPEN_BRACE) implies #[trigger] text.subrange(
            i,
            text.len() as int,
        ) == spec_json_suffix(text) by {
            assert(i >= 1);
            assert(rest[i - 1] == JSON_OPEN_BRACE);
            assert forall|j: int| 0 <= j < i - 1 implies rest[j] != JSON_OPEN_BRACE by {
                assert(rest[j] == text[j + 1]);
            }
            assert(rest.subrange(i - 1, rest.len() as int) =~= text.subrange(
                i,
                text.len() as int,
            ));
        }
        if forall|j: int| 0 <= j < text.len() ==> text[j] != JSON_OPEN_BRACE {
            assert forall|j: int| 0 <= j < rest.len() implies rest[j] != JSON_OPEN_BRACE by {
                assert(rest[j] == text[j + 1]);
            }
            lemma_brace_suffix_none(rest);
        }
    }
}

/// A text without `{` has no brace suffix.
proof fn lemma_brace_suffix_none(text: Seq<u8>)
    requires
        forall|j: int| 0 <= j < text.len() ==> text[j] != JSON_OPEN_BRACE,
    ensures
        brace_suffix(text) is None,
    decreases text.len(),
{
    if text.len() > 0 {
        let rest = text.drop_first();
        assert forall|j: int| 0 <= j < rest.len() implies rest[j] != JSON_OPEN_BRACE by {
            assert(rest[j] == text[j + 1]);
        }
        lemma_brace_suffix_none(rest);
    }
}

/// The network namespace handed to the plugin names the whole sandbox: its
/// path is the namespace directory followed by every character of the
/// sandbox's identifier, so the identifier can be read back from it and
/// distinct sandboxes get distinct namespaces. The plugin's container
/// identifier is the whole sandbox identifier too.
pub proof fn lemma_netns_holds_whole_id(command: CniCommand, a: Seq<char>, b: Seq<char>)
    ensures
        ({
            let env = spec_cni_env(command, a);
            let netns = env[2].1;
            &&& env[1] == ("CNI_CONTAINERID"@, a)
            &&& env[2].0 == "CNI_NETNS"@
            &&& netns.len() == NETNS_DIR@.len() + a.len()
            &&& netns.subrange(0, NETNS_DIR@.len() as int) == NETNS_DIR@
            &&& netns.subrange(NETNS_DIR@.len() as int, netns.len() as int) == a
        }),
        spec_netns_path(a) == spec_netns_path(b) ==> a == b,
{
    let d = NETNS_DIR@;
    let pa = spec_netns_path(a);
    assert(pa.subrange(0, d.len() as int) =~= d);
    assert(pa.subrange(d.len() as int, pa.len() as int) =~= a);
    let pb = spec_netns_path(b);
    assert(pb.subrange(d.len() as int, pb.len() as int) =~= b);
}

/// The state file of a sandbox names the whole sandbox: its path is the
/// state directory, every character of the identifier, then `.json`; the
/// identifier can be read back from it, so distinct sandboxes never share
/// a state file.
pub proof fn lemma_state_path_holds_whole_id(a: Seq<char>, b: Seq<char>)
    ensures
        ({
            let p = spec_state_path(a);
            let d = SANDBOX_STATE_DIR@.len() as int;
            &&& p.len() == SANDBOX_STATE_DIR@.len() + a.len() + SANDBOX_STATE_SUFFIX@.len()
            &&& p.subrange(0, d) == SANDBOX_STATE_DIR@
            &&& p.subrange(d, d + a.len()) == a
            &&& p.subrange(d + a.len(), p.len() as int) == SANDBOX_STATE_SUFFIX@
        }),
        spec_state_path(a) == spec_state_path(b) ==> a == b,
{
    let d = SANDBOX_STATE_DIR@.len() as int;
    let pa = spec_state_path(a);
    assert(pa.subrange(0, d) =~= SANDBOX_STATE_DIR@);
    assert(pa.subrange(d, d + a.len()) =~= a);
    assert(pa.subrange(d + a.len(), pa.len() as int) =~= SANDBOX_STATE_SUFFIX@);
    let pb = spec_state_path(b);
    assert(pb.subrange(d, d + b.len()) =~= b);
}

} // verus!
