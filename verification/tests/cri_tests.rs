use nexus_vmm::cri::{
    cni_add_outcome, cni_del_outcome, json_suffix, netns_path, sandbox_state_path, spawn_failure,
    state_write_failure, CniCommand, CniInvocation, NexusCriService, RunPodSandboxRequest,
    CNI_ADD_FAILED, CNI_DEL_FAILED, FALLBACK_MESSAGE, SANDBOX_ID,
};
use std::collections::HashMap;

fn request(pairs: &[(&str, &str)]) -> RunPodSandboxRequest {
    let mut annotations = HashMap::new();
    for (k, v) in pairs {
        annotations.insert(k.to_string(), v.to_string());
    }
    RunPodSandboxRequest { annotations }
}

fn env_of(inv: &CniInvocation) -> Vec<(String, String)> {
    inv.env()
}

fn pairs(list: &[(&str, &str)]) -> Vec<(String, String)> {
    list.iter().map(|(a, b)| (a.to_string(), b.to_string())).collect()
}

#[test]
fn vmm_annotation_true_enables() {
    assert!(request(&[("nexus.io/vmm", "true")]).vmm_enabled());
    assert!(request(&[("other", "x"), ("nexus.io/vmm", "true")]).vmm_enabled());
}

#[test]
fn vmm_annotation_other_values_disable() {
    assert!(!request(&[]).vmm_enabled());
    assert!(!request(&[("nexus.io/vmm", "TRUE")]).vmm_enabled());
    assert!(!request(&[("nexus.io/vmm", "false")]).vmm_enabled());
    assert!(!request(&[("nexus.io/vmm", "true ")]).vmm_enabled());
    assert!(!request(&[("nexus.io/VMM", "true")]).vmm_enabled());
}

#[test]
fn request_without_vmm_falls_back() {
    let service = NexusCriService::new();
    let plan = service.plan_pod_sandbox(&request(&[("app", "web")]));
    assert_eq!(plan, Err("Fallback to standard CRI: nexus.io/vmm is not true".to_string()));
    assert_eq!(FALLBACK_MESSAGE, "Fallback to standard CRI: nexus.io/vmm is not true");
}

#[test]
fn vmm_request_adds_the_network_of_the_sandbox() {
    let service = NexusCriService::new();
    let inv = service.plan_pod_sandbox(&request(&[("nexus.io/vmm", "true")])).unwrap();
    assert_eq!(inv.command, CniCommand::Add);
    assert_eq!(inv.sandbox_id, "sandbox-vmm-0.1");
    assert_eq!(inv.program(), "sh");
    assert_eq!(
        inv.args(),
        vec!["-c".to_string(), "sleep 1 && echo '{\"ip\":\"10.0.0.2\"}'".to_string()]
    );
    assert_eq!(
        env_of(&inv),
        pairs(&[
            ("CNI_COMMAND", "ADD"),
            ("CNI_CONTAINERID", "sandbox-vmm-0.1"),
            ("CNI_NETNS", "/var/run/netns/sandbox-vmm-0.1"),
            ("CNI_IFNAME", "eth0"),
            ("CNI_PATH", "/opt/cni/bin"),
        ])
    );
    assert_eq!(inv.state_path(), "/var/lib/nexus/sandboxes/sandbox-vmm-0.1.json");
}

#[test]
fn teardown_deletes_the_network() {
    let service = NexusCriService::new();
    let inv = service.plan_teardown("pod-7");
    assert_eq!(inv.command, CniCommand::Del);
    assert_eq!(inv.args(), vec!["-c".to_string(), "sleep 1".to_string()]);
    assert_eq!(
        env_of(&inv),
        pairs(&[
            ("CNI_COMMAND", "DEL"),
            ("CNI_CONTAINERID", "pod-7"),
            ("CNI_NETNS", "/var/run/netns/pod-7"),
            ("CNI_IFNAME", "eth0"),
            ("CNI_PATH", "/opt/cni/bin"),
        ])
    );
    assert_eq!(inv.state_path(), "/var/lib/nexus/sandboxes/pod-7.json");
}

#[test]
fn setup_and_teardown_share_environment_but_command() {
    let service = NexusCriService::new();
    let add = CniInvocation::new(CniCommand::Add, SANDBOX_ID);
    let del = service.plan_teardown(SANDBOX_ID);
    let (a, d) = (add.env(), del.env());
    assert_eq!(a.len(), d.len());
    assert_ne!(a[0], d[0]);
    assert_eq!(a[1..], d[1..]);
    assert_eq!(add.state_path(), del.state_path());
}

#[test]
fn paths_are_built_from_the_sandbox_id() {
    assert_eq!(netns_path("x"), "/var/run/netns/x");
    assert_eq!(sandbox_state_path("x"), "/var/lib/nexus/sandboxes/x.json");
    assert_eq!(sandbox_state_path(""), "/var/lib/nexus/sandboxes/.json");
}

#[test]
fn finishing_the_sandbox() {
    let service = NexusCriService::new();
    let inv = CniInvocation::new(CniCommand::Add, SANDBOX_ID);
    assert_eq!(service.finish_pod_sandbox(&inv, Ok(())), Ok("sandbox-vmm-0.1".to_string()));
    assert_eq!(
        service.finish_pod_sandbox(&inv, Err("CNI ADD execution failed".to_string())),
        Err("CNI ADD execution failed".to_string())
    );
}

#[test]
fn json_suffix_starts_at_first_brace() {
    assert_eq!(json_suffix(b"noise {\"ip\":\"10.0.0.2\"}\n"), b"{\"ip\":\"10.0.0.2\"}\n".to_vec());
    assert_eq!(json_suffix(b"{a}{b}"), b"{a}{b}".to_vec());
    assert_eq!(json_suffix(b"x{a}{b}"), b"{a}{b}".to_vec());
}

#[test]
fn json_suffix_without_brace_keeps_everything() {
    assert_eq!(json_suffix(b"no json here"), b"no json here".to_vec());
    assert_eq!(json_suffix(b""), Vec::<u8>::new());
}

#[test]
fn add_outcome_on_success_keeps_the_json() {
    assert_eq!(
        cni_add_outcome(true, b"{\"ip\":\"10.0.0.2\"}\n"),
        Ok(b"{\"ip\":\"10.0.0.2\"}\n".to_vec())
    );
    assert_eq!(cni_add_outcome(true, b"log line\n{\"ip\":1}"), Ok(b"{\"ip\":1}".to_vec()));
}

#[test]
fn add_outcome_reads_invalid_utf8_lossily() {
    // An invalid byte before the JSON is replaced, and cut away with the prefix.
    assert_eq!(cni_add_outcome(true, b"\xff\xfe{\"ip\":1}"), Ok(b"{\"ip\":1}".to_vec()));
    // Without a brace, the whole text is kept, each invalid byte replaced.
    assert_eq!(
        cni_add_outcome(true, b"a\xffb"),
        Ok("a\u{FFFD}b".as_bytes().to_vec())
    );
}

#[test]
fn add_outcome_on_failure() {
    assert_eq!(cni_add_outcome(false, b"{}"), Err("CNI ADD execution failed".to_string()));
    assert_eq!(CNI_ADD_FAILED, "CNI ADD execution failed");
}

#[test]
fn del_outcome() {
    assert_eq!(cni_del_outcome(true), Ok(()));
    assert_eq!(cni_del_outcome(false), Err("CNI DEL execution failed".to_string()));
    assert_eq!(CNI_DEL_FAILED, "CNI DEL execution failed");
}

#[test]
fn failure_messages_carry_the_reason() {
    assert_eq!(spawn_failure("No such file"), "Failed to spawn CNI process: No such file");
    assert_eq!(state_write_failure("denied"), "Failed to write CNI state: denied");
}
