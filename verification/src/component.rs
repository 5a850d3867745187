//! Components and where their updates are stored.
use crate::model::{ContentMetadata, BOOTUPD_UPDATES_DIR};
use crate::path::{join_path, path_join};
use vstd::prelude::*;
use vstd::string::*;

verus! {

/// A component of the bootloader that bootupd manages.
pub trait Component {
    /// The component's name.
    spec fn component_name(&self) -> Seq<char>;

    /// The component's name.
    fn name(&self) -> (r: &'static str)
        ensures
            r@ == self.component_name(),
    ;
}

/// The directory of updates below the system root `sysroot`.
pub open spec fn updates_dir(sysroot: Seq<char>) -> Seq<char> {
    path_join(sysroot, BOOTUPD_UPDATES_DIR@)
}

/// What goes between a directory and a relative part joined onto it: a `/`,
/// unless the directory is empty or already ends with one.
pub open spec fn separator_after(dir: Seq<char>) -> Seq<char> {
    if dir.len() > 0 && dir.last() != '/' {
        seq!['/']
    } else {
        Seq::empty()
    }
}

/// The updates directory lies below the system root, whatever the root: it is
/// the root, a `/` where the root does not end with one, then
/// `usr/lib/bootupd/updates`.
pub proof fn lemma_updates_dir_below_root(sysroot: Seq<char>)
    ensures
        updates_dir(sysroot) == sysroot + separator_after(sysroot) + BOOTUPD_UPDATES_DIR@,
        sysroot.is_prefix_of(updates_dir(sysroot)),
{
    reveal_strlit("usr/lib/bootupd/updates");
    let d = BOOTUPD_UPDATES_DIR@;
    assert(d[0] == 'u');
    if sysroot.len() > 0 && sysroot.last() != '/' {
        assert(updates_dir(sysroot) == sysroot + seq!['/'] + d);
    } else {
        assert(sysroot + Seq::<char>::empty() =~= sysroot);
    }
    let u = updates_dir(sysroot);
    assert(u.take(sysroot.len() as int) =~= sysroot);
}

/// The name with `.json` appended.
pub open spec fn json_name(name: Seq<char>) -> Seq<char> {
    name + ".json"@
}

/// The path of the file that holds a component's update metadata.
pub fn component_update_metapath<C: Component>(sysroot: &str, component: &C) -> (r: String)
    ensures
        r@ == path_join(updates_dir(sysroot@), json_name(component.component_name())),
{
    let dir = join_path(sysroot, BOOTUPD_UPDATES_DIR);
    let file = String::from_str(component.name()).concat(".json");
    join_path(dir.as_str(), file.as_str())
}

/// The directory that holds a component's update.
pub fn component_updatedir<C: Component>(sysroot: &str, component: &C) -> (r: String)
    ensures
        r@ == path_join(updates_dir(sysroot@), component.component_name()),
{
    let dir = join_path(sysroot, BOOTUPD_UPDATES_DIR);
    join_path(dir.as_str(), component.name())
}

/// The directory that holds a component's update, relative to the system root.
pub fn component_updatedirname<C: Component>(component: &C) -> (r: String)
    ensures
        r@ == path_join(BOOTUPD_UPDATES_DIR@, component.component_name()),
{
    join_path(BOOTUPD_UPDATES_DIR, component.name())
}

/// The metadata file of a component's update is its update directory's path
/// with `.json` appended.
pub proof fn lemma_metapath_beside_updatedir(sysroot: Seq<char>, name: Seq<char>)
    ensures
        path_join(updates_dir(sysroot), json_name(name)) == path_join(updates_dir(sysroot), name)
            + ".json"@,
{
    reveal_strlit(".json");
    let d = updates_dir(sysroot);
    if name.len() > 0 && name[0] == '/' {
        assert(json_name(name)[0] == '/');
        assert(json_name(name) =~= name + ".json"@);
    } else {
        assert(json_name(name).len() > 0);
        assert(json_name(name)[0] != '/');
        if d.len() == 0 || d.last() == '/' {
            assert(d + json_name(name) =~= d + name + ".json"@);
        } else {
            assert(d + seq!['/'] + json_name(name) =~= d + seq!['/'] + name + ".json"@);
        }
    }
}

/// The views of a sequence of strings.
pub open spec fn string_views(v: Seq<String>) -> Seq<Seq<char>> {
    v.map_values(|s: String| s@)
}

/// What validating an installed component found.
pub enum ValidationResult {
    /// The installed files are as installed.
    Valid,
    /// The component cannot be validated.
    Skip,
    /// What differs from what was installed.
    Errors(Vec<String>),
}

/// What is installed of a component: its metadata, the snapshot of its files
/// where one was taken (which the library carries but does not read), and the
/// metadata it was adopted from, if it was.
pub struct InstalledContent<T> {
    pub meta: ContentMetadata,
    pub filetree: Option<T>,
    pub adopted_from: Option<ContentMetadata>,
}

/// Why an operation on a component stops.
pub enum ComponentError {
    /// No update metadata was found for the named component.
    NoUpdateMetadata { component: String },
    /// The installed content holds no snapshot of its files.
    NoFiletree,
}

/// The update metadata found for a component, which installing requires.
pub fn require_update_metadata<C: Component>(component: &C, found: Option<ContentMetadata>) -> (r:
    Result<ContentMetadata, ComponentError>)
    ensures
        match found {
            Some(meta) => r == Ok::<ContentMetadata, ComponentError>(meta),
            None => r matches Err(ComponentError::NoUpdateMetadata { component: name }) && name@
                == component.component_name(),
        },
{
    match found {
        Some(meta) => Ok(meta),
        None => Err(ComponentError::NoUpdateMetadata { component: String::from_str(component.name()) }),
    }
}

/// The snapshot of the files of installed content, which updating and
/// validating require.
pub fn require_filetree<T>(current: &InstalledContent<T>) -> (r: Result<&T, ComponentError>)
    ensures
        match current.filetree {
            Some(t) => r matches Ok(x) && *x == t,
            None => r matches Err(ComponentError::NoFiletree),
        },
{
    match &current.filetree {
        Some(t) => Ok(t),
        None => Err(ComponentError::NoFiletree),
    }
}

/// What an update installs: its metadata, with the snapshot of its files if
/// one was taken, adopted from nothing.
pub fn updated_content<T>(meta: ContentMetadata, filetree: Option<T>) -> (r: InstalledContent<T>)
    ensures
        r.meta == meta,
        r.filetree == filetree,
        r.adopted_from is None,
{
    InstalledContent { meta, filetree, adopted_from: None }
}

/// A program to run, with its arguments and, where given, its working directory.
pub struct CommandLine {
    pub program: String,
    pub args: Vec<String>,
    pub current_dir: Option<String>,
}

/// `c` runs `program` with `args` in the caller's working directory.
pub open spec fn runs(c: CommandLine, program: Seq<char>, args: Seq<Seq<char>>) -> bool {
    &&& c.program@ == program
    &&& string_views(c.args@) == args
    &&& c.current_dir is None
}

} // verus!
