# nexus_vmm

The verified core of Nexus-VMM, a Kubernetes runtime that runs pods as
virtual machines.

- `src/cri.rs`: whether a pod sandbox takes the VMM path, how the CNI plugin
  is run for it (program, arguments, environment), where its answer is kept,
  and what is kept of that answer.
- `src/mapper.rs`: the plan for mapping a ConfigMap or Secret into memory:
  whole, read-only, shared with the host page cache, never empty.
- `src/frame.rs`: the type-length-value frames of the exec tunnel.
- `src/agent.rs`: the guest agent's exec session, a state machine that
  decides each step of serving one exec request, with its laws.
- `app/`: the asynchronous I/O that carries those decisions out (tokio
  processes and files, `mmap`, the tunnel's socket and JSON parsing).
