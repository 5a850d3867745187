//! The GRUB configuration component: static GRUB configs copied into `/boot`.
use crate::component::{
    component_updatedirname, string_views, CommandLine, Component, ValidationResult,
};
use crate::model::BOOTUPD_UPDATES_DIR;
use crate::path::{join_path, path_join};
use crate::text::{int_text, int_to_text};
use vstd::prelude::*;
use vstd::string::*;

verus! {

/// The boot directory, below the root.
pub const BOOT: &'static str = "boot";

/// Where the static GRUB configs are shipped.
pub const STATIC_DIR: &'static str = "/usr/lib/bootupd/grub2-static";

/// The name of the static GRUB config.
pub const STATIC_CONFIG_NAME: &'static str = "grub.cfg";

/// The GRUB configuration component.
pub struct GrubConfigs {}

impl Default for GrubConfigs {
    fn default() -> (r: GrubConfigs)
        ensures
            r == (GrubConfigs {}),
    {
        GrubConfigs {}
    }
}

impl Component for GrubConfigs {
    open spec fn component_name(&self) -> Seq<char> {
        "grub-configs"@
    }

    fn name(&self) -> (r: &'static str) {
        "grub-configs"
    }
}

/// How the files installed under `/boot` differ from their snapshot.
pub struct FileTreeDiff {
    pub additions: Vec<String>,
    pub removals: Vec<String>,
    pub changes: Vec<String>,
}

/// The errors that validation reports for changed and removed files, in that order.
pub open spec fn validation_errors(changes: Seq<Seq<char>>, removals: Seq<Seq<char>>) -> Seq<
    Seq<char>,
> {
    changes.map_values(|f: Seq<char>| "Changed: "@ + f) + removals.map_values(
        |f: Seq<char>| "Removed: "@ + f,
    )
}

/// Each changed file and each removed file gives its own error, changed
/// files first: the errors number as many as the changed and removed files
/// together, so the configs are valid only where none changed and none was
/// removed.
pub proof fn lemma_validation_errors(changes: Seq<Seq<char>>, removals: Seq<Seq<char>>)
    ensures
        validation_errors(changes, removals).len() == changes.len() + removals.len(),
        forall|i: int|
            0 <= i < changes.len() ==> #[trigger] validation_errors(changes, removals)[i]
                == "Changed: "@ + changes[i],
        forall|j: int|
            0 <= j < removals.len() ==> #[trigger] validation_errors(changes, removals)[changes.len()
                + j] == "Removed: "@ + removals[j],
        validation_errors(changes, removals).len() == 0 <==> (changes.len() == 0
            && removals.len() == 0),
{
    let e = validation_errors(changes, removals);
    assert forall|j: int| 0 <= j < removals.len() implies #[trigger] e[changes.len() + j]
        == "Removed: "@ + removals[j] by {
        assert(e[changes.len() + j] == removals.map_values(|f: Seq<char>| "Removed: "@ + f)[j]);
    }
}

/// The directory of a process's open file descriptor `fd`.
pub open spec fn fd_dir(fd: int) -> Seq<char> {
    "/proc/self/fd/"@ + int_text(fd)
}

/// Each text of `items` after `prefix`.
fn prefixed(prefix: &str, items: &Vec<String>, out: &mut Vec<String>)
    ensures
        string_views(final(out)@) == string_views(old(out)@) + string_views(items@).map_values(
            |f: Seq<char>| prefix@ + f,
        ),
{
    let ghost head = string_views(out@);
    let ghost fm = string_views(items@).map_values(|f: Seq<char>| prefix@ + f);
    let mut i: usize = 0;
    while i < items.len()
        invariant
            i <= items.len(),
            fm == string_views(items@).map_values(|f: Seq<char>| prefix@ + f),
            string_views(out@) == head + fm.take(i as int),
        decreases items.len() - i,
    {
        let line = String::from_str(prefix).concat(items[i].as_str());
        let ghost before = string_views(out@);
        out.push(line);
        proof {
            assert(string_views(out@) =~= before.push(line@));
            assert(fm[i as int] == prefix@ + items@[i as int]@);
            assert(fm.take(i + 1) =~= fm.take(i as int).push(fm[i as int]));
        }
        i = i + 1;
    }
    assert(fm.take(items.len() as int) =~= fm);
}

impl GrubConfigs {
    /// The path of the static GRUB config.
    pub fn static_config_path(&self) -> (r: String)
        ensures
            r@ == path_join(STATIC_DIR@, STATIC_CONFIG_NAME@),
    {
        join_path(STATIC_DIR, STATIC_CONFIG_NAME)
    }

    /// The command that copies the update, found below the root whose directory
    /// is open as `src_root_fd`, into the boot directory below `dest_root`.
    pub fn install_command(&self, dest_root: &str, src_root_fd: i32) -> (r: CommandLine)
        ensures
            r.program@ == "cp"@,
            string_views(r.args@) == seq![
                "-rp"@,
                "--reflink=auto"@,
                path_join(BOOTUPD_UPDATES_DIR@, "grub-configs"@),
                path_join(dest_root@, BOOT@),
            ],
            r.current_dir matches Some(d) && d@ == fd_dir(src_root_fd as int),
    {
        let args = vec![
            String::from_str("-rp"),
            String::from_str("--reflink=auto"),
            component_updatedirname(self),
            join_path(dest_root, BOOT),
        ];
        assert(string_views(args@) =~= seq![
            "-rp"@,
            "--reflink=auto"@,
            path_join(BOOTUPD_UPDATES_DIR@, "grub-configs"@),
            path_join(dest_root@, BOOT@),
        ]);
        let dir = String::from_str("/proc/self/fd/").concat(int_to_text(src_root_fd as i64).as_str());
        CommandLine { program: String::from_str("cp"), args, current_dir: Some(dir) }
    }

    /// The result of validating the installed configs, given how the files
    /// under `/boot` differ from their snapshot: each changed file, then each
    /// removed one, is an error; with none, the configs are valid.
    pub fn validate_diff(&self, diff: &FileTreeDiff) -> (r: ValidationResult)
        requires
            diff.additions.len() == 0,
        ensures
            ({
                let errs = validation_errors(string_views(diff.changes@), string_views(diff.removals@));
                match r {
                    ValidationResult::Valid => errs.len() == 0,
                    ValidationResult::Errors(e) => errs.len() > 0 && string_views(e@) == errs,
                    ValidationResult::Skip => false,
                }
            }),
    {
        let mut errs: Vec<String> = Vec::new();
        prefixed("Changed: ", &diff.changes, &mut errs);
        prefixed("Removed: ", &diff.removals, &mut errs);
        assert(string_views(errs@) =~= validation_errors(string_views(diff.changes@), string_views(diff.removals@)));
        if errs.len() > 0 {
            ValidationResult::Errors(errs)
        } else {
            ValidationResult::Valid
        }
    }
}

} // verus!
