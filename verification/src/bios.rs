//! The BIOS component: GRUB installed into the boot device by `grub2-install`.
use crate::component::{runs, string_views, updated_content, CommandLine, Component, InstalledContent, ValidationResult};
use crate::model::ContentMetadata;
use crate::path::{join_path, path_join};
use crate::text::{trim, trim_text};
use vstd::prelude::*;
use vstd::string::*;

verus! {

/// The path of `grub2-install` below a system root.
pub const GRUB_BIN: &'static str = "usr/sbin/grub2-install";

/// The architectures that the BIOS component supports.
#[derive(Clone, Copy, Debug, PartialEq, Eq, Structural)]
pub enum Arch {
    X86_64,
    PowerPc64,
}

/// The BIOS component.
pub struct Bios {}

impl Default for Bios {
    fn default() -> (r: Bios)
        ensures
            r == (Bios {}),
    {
        Bios {}
    }
}

impl Component for Bios {
    open spec fn component_name(&self) -> Seq<char> {
        "BIOS"@
    }

    fn name(&self) -> (r: &'static str) {
        "BIOS"
    }
}

/// The next step in finding the device to install GRUB into.
pub enum DeviceQuery {
    /// Run this command; its output is the next one to hand back.
    Run(CommandLine),
    /// The device is the output of the last command.
    Found(String),
}

impl Bios {
    /// The path of `grub2-install` below `root`.
    pub fn grub_install_path(root: &str) -> (r: String)
        ensures
            r@ == path_join(root@, GRUB_BIN@),
    {
        join_path(root, GRUB_BIN)
    }

    /// The command that installs GRUB for `dest_root` into `device`.
    pub fn grub_install_command(arch: Arch, dest_root: &str, device: &str) -> (r: CommandLine)
        ensures
            r.program@ == path_join("/"@, GRUB_BIN@),
            r.current_dir is None,
            arch == Arch::X86_64 ==> string_views(r.args@) == seq![
                "--target"@,
                "i386-pc"@,
                "--boot-directory"@,
                path_join(dest_root@, "boot"@),
                "--modules"@,
                "mdraid1x part_gpt"@,
                device@,
            ],
            arch == Arch::PowerPc64 ==> string_views(r.args@) == seq![
                "--target"@,
                "powerpc-ieee1275"@,
                "--boot-directory"@,
                path_join(dest_root@, "boot"@),
                "--no-nvram"@,
                device@,
            ],
    {
        let program = Self::grub_install_path("/");
        let boot_dir = join_path(dest_root, "boot");
        let args = match arch {
            Arch::X86_64 => vec![
                String::from_str("--target"),
                String::from_str("i386-pc"),
                String::from_str("--boot-directory"),
                boot_dir,
                String::from_str("--modules"),
                String::from_str("mdraid1x part_gpt"),
                String::from_str(device),
            ],
            Arch::PowerPc64 => vec![
                String::from_str("--target"),
                String::from_str("powerpc-ieee1275"),
                String::from_str("--boot-directory"),
                boot_dir,
                String::from_str("--no-nvram"),
                String::from_str(device),
            ],
        };
        proof {
            if arch == Arch::X86_64 {
                assert(string_views(args@) =~= seq![
                    "--target"@,
                    "i386-pc"@,
                    "--boot-directory"@,
                    path_join(dest_root@, "boot"@),
                    "--modules"@,
                    "mdraid1x part_gpt"@,
                    device@,
                ]);
            } else {
                assert(string_views(args@) =~= seq![
                    "--target"@,
                    "powerpc-ieee1275"@,
                    "--boot-directory"@,
                    path_join(dest_root@, "boot"@),
                    "--no-nvram"@,
                    device@,
                ]);
            }
        }
        CommandLine { program, args, current_dir: None }
    }

    /// The next step in finding the device to install GRUB into, given the
    /// outputs of the commands run so far. On x86_64 the partition mounted at
    /// `/boot` is found first, then the device that holds it; on ppc64 the
    /// PReP boot partition is resolved.
    pub fn device_query(arch: Arch, outputs: &Vec<String>) -> (r: DeviceQuery)
        requires
            arch == Arch::X86_64 ==> outputs.len() <= 2,
            arch == Arch::PowerPc64 ==> outputs.len() <= 1,
        ensures
            arch == Arch::X86_64 && outputs.len() == 0 ==> (r matches DeviceQuery::Run(c) && runs(
                c,
                "findmnt"@,
                seq!["--noheadings"@, "--output"@, "SOURCE"@, path_join("/"@, "boot"@)],
            )),
            arch == Arch::X86_64 && outputs.len() == 1 ==> (r matches DeviceQuery::Run(c) && runs(
                c,
                "lsblk"@,
                seq!["--paths"@, "--noheadings"@, "--output"@, "PKNAME"@, trim(outputs@[0]@)],
            )),
            arch == Arch::X86_64 && outputs.len() == 2 ==> (r matches DeviceQuery::Found(d) && d@
                == outputs@[1]@),
            arch == Arch::PowerPc64 && outputs.len() == 0 ==> (r matches DeviceQuery::Run(c) && runs(
                c,
                "realpath"@,
                seq!["/dev/disk/by-partlabel/PowerPC-PReP-boot"@],
            )),
            arch == Arch::PowerPc64 && outputs.len() == 1 ==> (r matches DeviceQuery::Found(d) && d@
                == outputs@[0]@),
    {
        match arch {
            Arch::X86_64 => {
                if outputs.len() == 0 {
                    let args = vec![
                        String::from_str("--noheadings"),
                        String::from_str("--output"),
                        String::from_str("SOURCE"),
                        join_path("/", "boot"),
                    ];
                    assert(string_views(args@) =~= seq![
                        "--noheadings"@,
                        "--output"@,
                        "SOURCE"@,
                        path_join("/"@, "boot"@),
                    ]);
                    DeviceQuery::Run(
                        CommandLine { program: String::from_str("findmnt"), args, current_dir: None },
                    )
                } else if outputs.len() == 1 {
                    let args = vec![
                        String::from_str("--paths"),
                        String::from_str("--noheadings"),
                        String::from_str("--output"),
                        String::from_str("PKNAME"),
                        trim_text(outputs[0].as_str()),
                    ];
                    assert(string_views(args@) =~= seq![
                        "--paths"@,
                        "--noheadings"@,
                        "--output"@,
                        "PKNAME"@,
                        trim(outputs@[0]@),
                    ]);
                    DeviceQuery::Run(
                        CommandLine { program: String::from_str("lsblk"), args, current_dir: None },
                    )
                } else {
                    DeviceQuery::Found(outputs[1].clone())
                }
            },
            Arch::PowerPc64 => {
                if outputs.len() == 0 {
                    let args = vec![String::from_str("/dev/disk/by-partlabel/PowerPC-PReP-boot")];
                    assert(string_views(args@) =~= seq!["/dev/disk/by-partlabel/PowerPC-PReP-boot"@]);
                    DeviceQuery::Run(
                        CommandLine { program: String::from_str("realpath"), args, current_dir: None },
                    )
                } else {
                    DeviceQuery::Found(outputs[0].clone())
                }
            },
        }
    }

    /// The device to update, from the output that named it: that output
    /// without leading and trailing white space.
    pub fn update_device(found: &str) -> (r: String)
        ensures
            r@ == trim(found@),
    {
        trim_text(found)
    }

    /// What an update of the BIOS component installs: the update's metadata,
    /// with no snapshot of files, adopted from nothing.
    pub fn update_content<T>(&self, update: Option<ContentMetadata>) -> (r: InstalledContent<T>)
        requires
            update is Some,
        ensures
            r.meta == update->0,
            r.filetree is None,
            r.adopted_from is None,
    {
        updated_content(update.unwrap(), None)
    }

    /// The BIOS component is never validated.
    pub fn validate(&self) -> (r: ValidationResult)
        ensures
            r matches ValidationResult::Skip,
    {
        ValidationResult::Skip
    }
}

} // verus!
