//! The EFI component: the contents of the EFI system partition.
use crate::component::{
    component_updatedir, runs, string_views, updates_dir, CommandLine, Component,
};
use crate::path::{join_path, path_join};
use vstd::prelude::*;
use vstd::string::*;

verus! {

/// Where the EFI system partition is mounted, below the root.
pub const MOUNT_PATH: &'static str = "boot/efi";

/// The EFI component.
pub struct EFI {}

impl EFI {
    /// The EFI component.
    pub fn new() -> (r: EFI)
        ensures
            r == (EFI {}),
    {
        EFI {}
    }
}

impl Component for EFI {
    open spec fn component_name(&self) -> Seq<char> {
        "EFI"@
    }

    fn name(&self) -> (r: &'static str) {
        "EFI"
    }
}

/// The paths from which the update of the EFI component is gathered below a
/// system root, and the command that moves the EFI files into place.
pub struct EfiSourcePaths {
    /// The boot directory that ostree keeps.
    pub ostree_boot: String,
    /// What is removed from it first, where present.
    pub cruft: Vec<String>,
    /// The EFI files in it.
    pub efi_src: String,
    /// The directory of the component's update.
    pub update_dir: String,
    /// Moves the EFI files to the update directory.
    pub move_files: CommandLine,
}

/// The argument that names a file of the EFI partition to the rpm query.
pub open spec fn efi_file_arg(name: Seq<char>) -> Seq<char> {
    "/boot/efi/EFI/"@ + name
}

impl EFI {
    /// The command that copies the update below `src_root` onto the EFI
    /// partition below `dest_root`.
    pub fn copy_command(&self, src_root: &str, dest_root: &str) -> (r: CommandLine)
        ensures
            runs(
                r,
                "cp"@,
                seq![
                    "-rp"@,
                    "--reflink=auto"@,
                    path_join(updates_dir(src_root@), "EFI"@),
                    path_join(dest_root@, MOUNT_PATH@),
                ],
            ),
    {
        let args = vec![
            String::from_str("-rp"),
            String::from_str("--reflink=auto"),
            component_updatedir(src_root, self),
            join_path(dest_root, MOUNT_PATH),
        ];
        assert(string_views(args@) =~= seq![
            "-rp"@,
            "--reflink=auto"@,
            path_join(updates_dir(src_root@), "EFI"@),
            path_join(dest_root@, MOUNT_PATH@),
        ]);
        CommandLine { program: String::from_str("cp"), args, current_dir: None }
    }

    /// Where the update is gathered from below `sysroot`, where ostree keeps
    /// its boot files at `boot_prefix`.
    pub fn source_paths(&self, sysroot: &str, boot_prefix: &str) -> (r: EfiSourcePaths)
        ensures
            r.ostree_boot@ == path_join(sysroot@, boot_prefix@),
            string_views(r.cruft@) == seq![
                path_join(path_join(sysroot@, boot_prefix@), "loader"@),
                path_join(path_join(sysroot@, boot_prefix@), "grub2"@),
            ],
            r.efi_src@ == path_join(path_join(sysroot@, boot_prefix@), "efi/EFI"@),
            r.update_dir@ == path_join(updates_dir(sysroot@), "EFI"@),
            runs(r.move_files, "mv"@, seq![r.efi_src@, r.update_dir@]),
    {
        let ostree_boot = join_path(sysroot, boot_prefix);
        let cruft = vec![
            join_path(ostree_boot.as_str(), "loader"),
            join_path(ostree_boot.as_str(), "grub2"),
        ];
        let efi_src = join_path(ostree_boot.as_str(), "efi/EFI");
        let update_dir = component_updatedir(sysroot, self);
        let args = vec![efi_src.clone(), update_dir.clone()];
        assert(string_views(cruft@) =~= seq![
            path_join(path_join(sysroot@, boot_prefix@), "loader"@),
            path_join(path_join(sysroot@, boot_prefix@), "grub2"@),
        ]);
        assert(string_views(args@) =~= seq![efi_src@, update_dir@]);
        EfiSourcePaths {
            ostree_boot,
            cruft,
            efi_src,
            update_dir,
            move_files: CommandLine { program: String::from_str("mv"), args, current_dir: None },
        }
    }

    /// The arguments of the rpm query that finds the packages owning the EFI
    /// files `files`: each build time follows its package, after a `,`.
    pub fn rpm_query_args(&self, files: &Vec<String>) -> (r: Vec<String>)
        ensures
            string_views(r@) == seq!["-q"@, "--queryformat"@, "%{nevra},%{buildtime} "@, "-f"@]
                + string_views(files@).map_values(|f: Seq<char>| efi_file_arg(f)),
    {
        let mut r = vec![
            String::from_str("-q"),
            String::from_str("--queryformat"),
            String::from_str("%{nevra},%{buildtime} "),
            String::from_str("-f"),
        ];
        let ghost head = string_views(r@);
        let mut i: usize = 0;
        while i < files.len()
            invariant
                i <= files.len(),
                string_views(r@) == head + string_views(files@).map_values(
                    |f: Seq<char>| efi_file_arg(f),
                ).take(i as int),
            decreases files.len() - i,
        {
            let arg = String::from_str("/boot/efi/EFI/").concat(files[i].as_str());
            let ghost before = string_views(r@);
            r.push(arg);
            proof {
                let fm = string_views(files@).map_values(|f: Seq<char>| efi_file_arg(f));
                assert(string_views(r@) =~= before.push(arg@));
                assert(fm[i as int] == efi_file_arg(files@[i as int]@));
                assert(fm.take(i + 1) =~= fm.take(i as int).push(fm[i as int]));
            }
            i = i + 1;
            assert(string_views(r@) =~= head + string_views(files@).map_values(
                |f: Seq<char>| efi_file_arg(f),
            ).take(i as int));
        }
        assert(string_views(files@).map_values(|f: Seq<char>| efi_file_arg(f)).take(
            files.len() as int,
        ) =~= string_views(files@).map_values(|f: Seq<char>| efi_file_arg(f)));
        r
    }
}

/// The file system type of the FAT file systems that an EFI system partition
/// holds: nix's `MSDOS_SUPER_MAGIC`, which is 0x4d44.
#[verifier::external_body]
fn msdos_super_magic() -> (r: i64)
    ensures
        r == 0x4d44,
{
    nix::sys::statfs::MSDOS_SUPER_MAGIC.0 as i64
}

/// Why a mount is not an EFI system partition.
pub enum EspError {
    /// Its file system is not FAT: the type it has.
    NotMsdos { fstype: i64 },
}

/// Checks that a mount with file system type `fstype` can be the EFI system
/// partition: it must be a FAT (msdos) file system.
pub fn validate_esp_fstype(fstype: i64) -> (r: Result<(), EspError>)
    ensures
        r is Ok <==> fstype == 0x4d44,
        r matches Err(EspError::NotMsdos { fstype: t }) ==> t == fstype,
{
    if fstype != msdos_super_magic() {
        Err(EspError::NotMsdos { fstype })
    } else {
        Ok(())
    }
}

} // verus!
