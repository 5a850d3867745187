# bootupd

The logic of bootupd, the bootloader updater, as a verified library.

- `src/` holds what bootupd decides and computes, each function with its
  contract: the paths of component updates (`component`, `path`), reading the
  rpm query on the EFI files into content metadata (`text`, `rpm`,
  `packages`), the commands that install each component (`bios`, `efi`,
  `grub`), and the daemon's choices of whom to serve, what to answer and when
  to stop (`ipc`, `daemon`).
- `app/` runs those commands, reads and writes files, and talks over the
  daemon's socket; it converts the library's types to and from their
  serialized forms.
- `tests/` runs the library on concrete values.
