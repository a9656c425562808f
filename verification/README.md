# BootDrive

Expose a disk image from a Linux phone as a bootable USB drive (a read-only
USB CD-ROM or USB disk), then eject to return to normal USB behaviour.

The project is split in two:

- `src/` is the verified library (Verus). It holds the logic: the error
  codes and state model, image validation rules, caller resolution from the
  user and group databases, group authorization, the transactional
  activation state machine with its rollback and startup recovery, the
  rules of the configfs backend (which gadgets are removed or released, how
  the logical unit is set up), the `usb-signaller` handoff, the reading of
  the osinfo-db catalogue (parsed by `roxmltree`, grouped by distro and
  ordered by name), and the decisions of the
  command line and the GTK frontend. Each public function carries a
  contract. The laws of the state machine (nothing is left behind, the
  recovery record is written before the system is perturbed, every
  operation finishes, failures roll back and report their error) are proved
  as lemmas over its step function in `src/manager.rs`; the public
  operations state that what they did to the USB backend, `usb-signaller`
  and the recovery store is exactly the calls of a run of that function,
  and, collaborator by collaborator, which calls an initialization, a
  recovery, an activation (with its rollback) and an ejection make. The
  in-memory doubles state that every call got the reply their script or
  kept record gives, so a run against them can be followed to its outcome.
- `app/` is the program around it: the `bootdrived` D-Bus service, the
  `probe` end-to-end check, the `bootdrive` command line and the GTK4 /
  libadwaita GUI. It performs the file, process, D-Bus and toolkit work and
  hands plain values to the library.

`tests/` exercises the library on concrete values, including the state
machine against in-memory doubles of the USB backend, `usb-signaller` and the
recovery store.
