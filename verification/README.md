# cratebay_core

The core of CrateBay, a desktop for containers and Linux VMs, written in
Verus: every function in `src/` carries a contract that Verus proves.

## Layout

- `src/` — the verified library:
  - `store`, `vm`, `hypervisor`, `backends`, `daemon`: the VM registry,
    its records, where they are stored, and how the VM service answers;
  - `boot`, `vcpu`: guest memory layout and vCPU decisions of the KVM backend;
  - `hyperv`, `vz_runner`: the Hyper-V scripts and the macOS VM runner;
  - `images`, `k3s`, `runtime`: OS images and their downloads, K3s, and the
    built-in container runtime;
  - `portfwd`, `plugin`, `validation`, `docker_auth`, `engine`, `logs`;
  - `cli`, `desktop`, `guest_agent`: what the command line, the desktop
    app and the guest agent print and decide;
  - `text`: strings, numbers and paths.
- `tests/` — tests of the library.
- `app/` — a small command line around the library: file and process I/O,
  the serde forms of the library's records, and logging.

I/O, threads and async work stay outside `src/`: the library takes what was
read as plain values and returns what is to be written or done.
