# ksud (verified core)

The logic of KernelSU's `ksud` helper for boot images and SuSFS, written in
Verus and proved against its contracts.

- `src/boot_patch/`: KMI detection (`kmi`), partition and output-name
  choices (`image`), the options of the boot commands (`args`), the
  ramdisk edits that install or remove KernelSU and strip vendor modules
  (`ramdisk`, `modules`, `ksu_config`), the laws of the module-index
  rewrite (`index_laws`) and stock-image backups (`backup`).
- `src/susfs/`: the SuSFS kernel protocol: payloads, requests of every
  command, the verdict on the kernel's error code, C-string helpers.
- `src/susfs_config/`: the SuSFS Manager config map, its binary file
  format, the typed module snapshot, the store operations and the JSON
  export (`json`).
- `src/susfs_module/`: the generated Magisk-style module: its four
  boot-stage scripts and the shell commands that install it.
- `src/text.rs`: character-level string helpers shared by all modules.
- `app/`: the input/output around the library: command-line options, the
  `reboot(2)` call that carries SuSFS requests, files and devices, and the
  boot-image commands built on `android_bootimg`.
- `tests/`: tests of the library on concrete values.

Each `law_*` proof function states a property that relates several
operations, such as reading back a written config file or restoring a
patched ramdisk.
