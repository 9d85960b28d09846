//! The requests the command-line tool makes of the library, and the decisions behind the
//! repository management requests.
use vstd::prelude::*;

use crate::installer::InstallActionKind;
use crate::name::Name;
use crate::paths::{joined, path_join};

verus! {

/// An install, update, uninstall or link-files request, optionally narrowed to one group
/// and one package set.
#[derive(Debug)]
pub struct InstallAction {
    pub kind: InstallActionKind,
    pub group: Option<Name>,
    pub package_set: Option<Name>,
}

impl InstallAction {
    /// An install request.
    pub fn install_action(group: Option<Name>, package_set: Option<Name>) -> (r: Self)
        ensures
            r.kind == InstallActionKind::Install && r.group == group && r.package_set == package_set,
    {
        InstallAction { kind: InstallActionKind::Install, group, package_set }
    }

    /// An update request.
    pub fn update_action(group: Option<Name>, package_set: Option<Name>) -> (r: Self)
        ensures
            r.kind == InstallActionKind::Update && r.group == group && r.package_set == package_set,
    {
        InstallAction { kind: InstallActionKind::Update, group, package_set }
    }

    /// An uninstall request.
    pub fn uninstall_action(group: Option<Name>, package_set: Option<Name>) -> (r: Self)
        ensures
            r.kind == InstallActionKind::Uninstall && r.group == group && r.package_set
                == package_set,
    {
        InstallAction { kind: InstallActionKind::Uninstall, group, package_set }
    }

    /// A link-files request.
    pub fn link_files_action(group: Option<Name>, package_set: Option<Name>) -> (r: Self)
        ensures
            r.kind == InstallActionKind::LinkFiles && r.group == group && r.package_set
                == package_set,
    {
        InstallAction { kind: InstallActionKind::LinkFiles, group, package_set }
    }
}

/// A request to show the install history, at most `limit` rows (all when zero).
#[derive(Debug)]
pub struct HistoryAction {
    pub limit: u32,
}

impl HistoryAction {
    /// A history request; no limit given means no limit.
    pub fn new(limit: Option<u32>) -> (r: Self)
        ensures
            r.limit == match limit {
                Some(l) => l,
                None => 0,
            },
    {
        HistoryAction {
            limit: match limit {
                Some(l) => l,
                None => 0,
            },
        }
    }
}

/// A request to list the groups and sets, optionally of one group.
#[derive(Debug)]
pub struct ListAction {
    pub group: Option<Name>,
}

impl ListAction {
    /// A list request.
    pub fn new_action(group: Option<Name>) -> (r: Self)
        ensures
            r.group == group,
    {
        ListAction { group }
    }
}

/// What a management request does to a package set file.
#[derive(Debug, PartialEq, Eq, Structural, Clone, Copy)]
pub enum ManageActionKind {
    Add,
    Edit,
    Remove,
}

/// A request to add, edit or remove a package set of a group.
#[derive(Debug)]
pub struct ManageAction {
    pub kind: ManageActionKind,
    pub group: Name,
    pub package_set: Name,
    pub package_set_is_file: bool,
}

/// The outcome of a management request, once it is known which files exist.
#[derive(Debug)]
pub enum ManageStep {
    /// Write `content` to the new file `path`, then edit it.
    CreateAndEdit { path: String, content: String },
    /// Edit the file `path`.
    Edit { path: String },
    /// Remove the file `path`.
    Remove { path: String },
    /// A file for the set exists already: nothing is added.
    AlreadyExists,
    /// Both forms of the set's file exist: it is unclear which to edit.
    Ambiguous,
    /// Neither form of the set's file exists.
    Missing,
}

/// The text of a new package set named `n`.
pub open spec fn new_set_text(n: Seq<char>) -> Seq<char> {
    "---\nname: "@ + n + "\ndescription: my new "@ + n
        + " package set.\nactions:\n  packages:\n    - name: "@ + n
}

/// Where a set's file lives: `<set>.yml` in the group, or `<set>/package-set.yml`.
pub open spec fn set_file_path(
    repository: Seq<char>,
    group: Seq<char>,
    set: Seq<char>,
    is_file: bool,
) -> Seq<char> {
    if is_file {
        joined(joined(repository, group), set + ".yml"@)
    } else {
        joined(joined(joined(repository, group), set), "package-set.yml"@)
    }
}

impl ManageAction {
    /// A request to add a set, as a file or as a directory.
    pub fn add_action(group: Name, package_set: Name, package_set_is_file: bool) -> (r: Self)
        ensures
            r.kind == ManageActionKind::Add && r.group == group && r.package_set == package_set
                && r.package_set_is_file == package_set_is_file,
    {
        ManageAction { kind: ManageActionKind::Add, group, package_set, package_set_is_file }
    }

    /// A request to edit a set.
    pub fn edit_action(group: Name, package_set: Name) -> (r: Self)
        ensures
            r.kind == ManageActionKind::Edit && r.group == group && r.package_set == package_set
                && r.package_set_is_file,
    {
        ManageAction { kind: ManageActionKind::Edit, group, package_set, package_set_is_file: true }
    }

    /// A request to remove a set.
    pub fn remove_action(group: Name, package_set: Name) -> (r: Self)
        ensures
            r.kind == ManageActionKind::Remove && r.group == group && r.package_set == package_set
                && r.package_set_is_file,
    {
        ManageAction {
            kind: ManageActionKind::Remove,
            group,
            package_set,
            package_set_is_file: true,
        }
    }

    /// The path of the set's file in the repository at `repository`, in either form.
    pub fn make_package_set_path(&self, repository: &str, package_set_is_file: bool) -> (r: String)
        ensures
            r@ == set_file_path(repository@, self.group@, self.package_set@, package_set_is_file),
    {
        let group_path = path_join(repository, self.group.as_str());
        if package_set_is_file {
            let mut file = self.package_set.to_string();
            file.append(".yml");
            path_join(group_path.as_str(), file.as_str())
        } else {
            let set_dir = path_join(group_path.as_str(), self.package_set.as_str());
            path_join(set_dir.as_str(), "package-set.yml")
        }
    }

    /// The text of a new package set named as this request's set.
    pub fn new_package_set_text(&self) -> (r: String)
        ensures
            r@ == new_set_text(self.package_set@),
    {
        let n = self.package_set.as_str();
        let mut t = String::from_str("---\nname: ");
        t.append(n);
        t.append("\ndescription: my new ");
        t.append(n);
        t.append(" package set.\nactions:\n  packages:\n    - name: ");
        t.append(n);
        t
    }

    /// What to do, given whether the set's file exists in its file form (`direct_exists`)
    /// and in its directory form (`indirect_exists`).
    pub fn decide(&self, repository: &str, direct_exists: bool, indirect_exists: bool) -> (r:
        ManageStep)
        ensures
            match self.kind {
                ManageActionKind::Add => if !direct_exists && !indirect_exists {
                    r matches ManageStep::CreateAndEdit { path, content } && path@ == set_file_path(
                        repository@,
                        self.group@,
                        self.package_set@,
                        self.package_set_is_file,
                    ) && content@ == new_set_text(self.package_set@)
                } else {
                    r is AlreadyExists
                },
                ManageActionKind::Edit => match (direct_exists, indirect_exists) {
                    (true, false) => r matches ManageStep::Edit { path } && path@ == set_file_path(
                        repository@,
                        self.group@,
                        self.package_set@,
                        true,
                    ),
                    (false, true) => r matches ManageStep::Edit { path } && path@ == set_file_path(
                        repository@,
                        self.group@,
                        self.package_set@,
                        false,
                    ),
                    (true, true) => r is Ambiguous,
                    (false, false) => r is Missing,
                },
                ManageActionKind::Remove => if direct_exists {
                    r matches ManageStep::Remove { path } && path@ == set_file_path(
                        repository@,
                        self.group@,
                        self.package_set@,
                        true,
                    )
                } else if indirect_exists {
                    r matches ManageStep::Remove { path } && path@ == set_file_path(
                        repository@,
                        self.group@,
                        self.package_set@,
                        false,
                    )
                } else {
                    r is Missing
                },
            },
    {
        match self.kind {
            ManageActionKind::Add => if !direct_exists && !indirect_exists {
                ManageStep::CreateAndEdit {
                    path: self.make_package_set_path(repository, self.package_set_is_file),
                    content: self.new_package_set_text(),
                }
            } else {
                ManageStep::AlreadyExists
            },
            ManageActionKind::Edit => match (direct_exists, indirect_exists) {
                (true, false) => ManageStep::Edit { path: self.make_package_set_path(repository, true) },
                (false, true) => ManageStep::Edit {
                    path: self.make_package_set_path(repository, false),
                },
                (true, true) => ManageStep::Ambiguous,
                (false, false) => ManageStep::Missing,
            },
            ManageActionKind::Remove => if direct_exists {
                ManageStep::Remove { path: self.make_package_set_path(repository, true) }
            } else if indirect_exists {
                ManageStep::Remove { path: self.make_package_set_path(repository, false) }
            } else {
                ManageStep::Missing
            },
        }
    }
}

} // verus!
