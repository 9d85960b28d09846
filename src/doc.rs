//! The configuration documents as plain trees, and their strict schemas: a field that the
//! schema does not know is an error, so that a typo fails at load time.
use vstd::prelude::*;

use crate::error::ErrorKind;
use crate::installer::{CommandMap, InstallActionKind, Installer, InstallerBuilder, InstallerView, opt_text};
use crate::name::{KindView, Name, PackageKind, Platform, name_valid};
use crate::packages::{
    ActionsView, Package, PackageSet, PackageSetActions, PackageSetBuilder, PackageSetView,
    PackageView, package_views,
};
use crate::strmap::{StringMap, keys_unique, lemma_absent, lemma_lookup, pairs_to_map, text_eq};

verus! {

/// A configuration document: a YAML value with every scalar as its text.
#[derive(Debug)]
pub enum Doc {
    Null,
    Bool(bool),
    Text(String),
    List(Vec<Doc>),
    Mapping(Vec<(String, Doc)>),
}

/// Every key of the entries is one of `allowed`.
pub open spec fn keys_allowed(e: Seq<(String, Doc)>, allowed: Seq<Seq<char>>) -> bool {
    forall|i: int| 0 <= i < e.len() ==> allowed.contains(#[trigger] e[i].0@)
}

/// The value of the first entry with key `key`.
pub open spec fn field(e: Seq<(String, Doc)>, key: Seq<char>) -> Option<Doc>
    decreases e.len(),
{
    if e.len() == 0 {
        None
    } else if e[0].0@ == key {
        Some(e[0].1)
    } else {
        field(e.drop_first(), key)
    }
}

/// The value of the first entry with key `key`.
pub fn find_field<'a>(e: &'a Vec<(String, Doc)>, key: &str) -> (r: Option<&'a Doc>)
    ensures
        match r {
            Some(d) => field(e@, key@) == Some(*d),
            None => field(e@, key@) is None,
        },
{
    let mut i: usize = 0;
    proof {
        assert(e@.subrange(0, e@.len() as int) =~= e@);
    }
    while i < e.len()
        invariant
            i <= e@.len(),
            field(e@, key@) == field(e@.subrange(i as int, e@.len() as int), key@),
        decreases e@.len() - i,
    {
        let ghost t = e@.subrange(i as int, e@.len() as int);
        assert(t.drop_first() =~= e@.subrange(i + 1, e@.len() as int));
        assert(t[0] == e@[i as int]);
        if text_eq(e[i].0.as_str(), key) {
            return Some(&e[i].1);
        }
        i += 1;
    }
    None
}

/// Fails with `UnknownField` on the first key that is not one of `allowed`.
pub fn check_fields(e: &Vec<(String, Doc)>, allowed: &Vec<&str>) -> (r: Result<(), ErrorKind>)
    ensures
        r is Ok <==> keys_allowed(e@, allowed@.map_values(|s: &str| s@)),
        r is Err ==> r->Err_0 is UnknownField,
{
    let ghost al = allowed@.map_values(|s: &str| s@);
    let mut i: usize = 0;
    while i < e.len()
        invariant
            i <= e@.len(),
            al == allowed@.map_values(|s: &str| s@),
            forall|k: int| 0 <= k < i ==> al.contains(#[trigger] e@[k].0@),
        decreases e@.len() - i,
    {
        let mut j: usize = 0;
        let mut found = false;
        while j < allowed.len()
            invariant
                i < e@.len(),
                j <= allowed@.len(),
                al == allowed@.map_values(|s: &str| s@),
                found ==> al.contains(e@[i as int].0@),
                !found ==> forall|k: int| 0 <= k < j ==> al[k] != e@[i as int].0@,
            decreases allowed@.len() - j,
        {
            if !found && text_eq(e[i].0.as_str(), allowed[j]) {
                found = true;
                assert(al[j as int] == e@[i as int].0@);
            }
            j += 1;
        }
        if !found {
            assert(!al.contains(e@[i as int].0@));
            return Err(ErrorKind::UnknownField(e[i].0.clone()));
        }
        i += 1;
    }
    Ok(())
}

/// An optional text field: absent or null is no text; anything but text is invalid.
pub open spec fn opt_text_of(d: Option<Doc>) -> Option<Option<Seq<char>>> {
    match d {
        None => Some(None),
        Some(Doc::Null) => Some(None),
        Some(Doc::Text(s)) => Some(Some(s@)),
        _ => None,
    }
}

fn invalid(key: &str) -> (r: ErrorKind)
    ensures
        r is InvalidConfigValue && r->InvalidConfigValue_0@ == key@,
{
    ErrorKind::InvalidConfigValue(String::from_str(key))
}

/// Reads an optional text field; fails with `InvalidConfigValue` when it is not text.
pub fn opt_text_field(e: &Vec<(String, Doc)>, key: &str) -> (r: Result<Option<String>, ErrorKind>)
    ensures
        match opt_text_of(field(e@, key@)) {
            Some(v) => r is Ok && opt_text(r->Ok_0) == v,
            None => r is Err,
        },
{
    match find_field(e, key) {
        None => Ok(None),
        Some(Doc::Null) => Ok(None),
        Some(Doc::Text(s)) => Ok(Some(s.clone())),
        Some(_) => Err(invalid(key)),
    }
}

/// An optional boolean field: absent or null is `false`.
pub open spec fn opt_bool_of(d: Option<Doc>) -> Option<bool> {
    match d {
        None => Some(false),
        Some(Doc::Null) => Some(false),
        Some(Doc::Bool(b)) => Some(b),
        _ => None,
    }
}

/// Reads an optional boolean field.
pub fn opt_bool_field(e: &Vec<(String, Doc)>, key: &str) -> (r: Result<bool, ErrorKind>)
    ensures
        match opt_bool_of(field(e@, key@)) {
            Some(v) => r == Ok::<bool, ErrorKind>(v),
            None => r is Err,
        },
{
    match find_field(e, key) {
        None => Ok(false),
        Some(Doc::Null) => Ok(false),
        Some(Doc::Bool(b)) => Ok(*b),
        Some(_) => Err(invalid(key)),
    }
}

/// A valid name given as text.
pub open spec fn name_of(d: Option<Doc>) -> Option<Seq<char>> {
    match d {
        Some(Doc::Text(s)) => if name_valid(s@) {
            Some(s@)
        } else {
            None
        },
        _ => None,
    }
}

/// Reads a required name field.
pub fn name_field(e: &Vec<(String, Doc)>, key: &str) -> (r: Result<Name, ErrorKind>)
    ensures
        match name_of(field(e@, key@)) {
            Some(n) => r is Ok && r->Ok_0@ == n,
            None => r is Err,
        },
{
    match find_field(e, key) {
        Some(Doc::Text(s)) => Name::from_str(s.as_str()),
        _ => Err(invalid(key)),
    }
}

/// The platform a text names.
pub open spec fn platform_of_text(s: Seq<char>) -> Option<Platform> {
    if s == "macos"@ {
        Some(Platform::Macos)
    } else if s == "linux"@ {
        Some(Platform::Linux)
    } else {
        None
    }
}

/// An optional platform field: absent or null is no constraint.
pub open spec fn opt_platform_of(d: Option<Doc>) -> Option<Option<Platform>> {
    match d {
        None => Some(None),
        Some(Doc::Null) => Some(None),
        Some(Doc::Text(s)) => match platform_of_text(s@) {
            Some(p) => Some(Some(p)),
            None => None,
        },
        _ => None,
    }
}

/// Reads an optional platform field.
pub fn opt_platform_field(e: &Vec<(String, Doc)>, key: &str) -> (r: Result<Option<Platform>, ErrorKind>)
    ensures
        match opt_platform_of(field(e@, key@)) {
            Some(v) => r == Ok::<Option<Platform>, ErrorKind>(v),
            None => r is Err,
        },
{
    proof {
        reveal_strlit("macos");
        reveal_strlit("linux");
    }
    match find_field(e, key) {
        None => Ok(None),
        Some(Doc::Null) => Ok(None),
        Some(Doc::Text(s)) => if text_eq(s.as_str(), "macos") {
            Ok(Some(Platform::Macos))
        } else if text_eq(s.as_str(), "linux") {
            Ok(Some(Platform::Linux))
        } else {
            Err(invalid(key))
        },
        Some(_) => Err(invalid(key)),
    }
}

/// A package kind: `default`, `application`, or a mapping `language: <name>`.
pub open spec fn kind_of(d: Doc) -> Option<KindView> {
    match d {
        Doc::Text(s) => if s@ == "default"@ {
            Some(KindView::Default)
        } else if s@ == "application"@ {
            Some(KindView::Application)
        } else {
            None
        },
        Doc::Mapping(e) => if e@.len() == 1 && e@[0].0@ == "language"@ {
            match name_of(Some(e@[0].1)) {
                Some(n) => Some(KindView::Language(n)),
                None => None,
            }
        } else {
            None
        },
        _ => None,
    }
}

/// Reads a package kind.
pub fn kind_from_doc(d: &Doc) -> (r: Result<PackageKind, ErrorKind>)
    ensures
        match kind_of(*d) {
            Some(k) => r is Ok && r->Ok_0@ == k,
            None => r is Err,
        },
{
    proof {
        reveal_strlit("default");
        reveal_strlit("application");
        reveal_strlit("language");
    }
    match d {
        Doc::Text(s) => if text_eq(s.as_str(), "default") {
            Ok(PackageKind::Default)
        } else if text_eq(s.as_str(), "application") {
            Ok(PackageKind::Application)
        } else {
            Err(invalid("kind"))
        },
        Doc::Mapping(e) => if e.len() == 1 && text_eq(e[0].0.as_str(), "language") {
            match &e[0].1 {
                Doc::Text(n) => match Name::from_str(n.as_str()) {
                    Ok(name) => Ok(PackageKind::Language(name)),
                    Err(err) => Err(err),
                },
                _ => Err(invalid("language")),
            }
        } else {
            Err(invalid("kind"))
        },
        _ => Err(invalid("kind")),
    }
}

/// An optional kind field: absent or null is the default kind.
pub open spec fn opt_kind_of(d: Option<Doc>) -> Option<KindView> {
    match d {
        None => Some(KindView::Default),
        Some(Doc::Null) => Some(KindView::Default),
        Some(x) => kind_of(x),
    }
}

/// The fields of a package.
pub open spec fn package_fields() -> Seq<Seq<char>> {
    seq!["name"@, "platform"@, "kind"@]
}

/// A package: a mapping of `name`, and optionally `platform` and `kind`, and nothing else.
pub open spec fn package_of_doc(d: Doc) -> Option<PackageView> {
    match d {
        Doc::Mapping(e) => {
            let name = name_of(field(e@, "name"@));
            let platform = opt_platform_of(field(e@, "platform"@));
            let kind = opt_kind_of(field(e@, "kind"@));
            if keys_allowed(e@, package_fields()) && name is Some && platform is Some && kind is Some {
                Some(PackageView { name: name->Some_0, platform: platform->Some_0, kind: kind->Some_0 })
            } else {
                None
            }
        },
        _ => None,
    }
}

impl Package {
    /// Reads a package document; fails exactly when `package_of_doc` finds it invalid.
    pub fn from_doc(d: &Doc) -> (r: Result<Package, ErrorKind>)
        ensures
            match package_of_doc(*d) {
                Some(p) => r is Ok && r->Ok_0@ == p,
                None => r is Err,
            },
            d is Mapping && !keys_allowed(d->Mapping_0@, package_fields()) ==> r is Err
                && r->Err_0 is UnknownField,
    {
        match d {
            Doc::Mapping(e) => {
                let allowed: Vec<&str> = vec!["name", "platform", "kind"];
                proof {
                    reveal_strlit("name");
                    reveal_strlit("platform");
                    reveal_strlit("kind");
                    assert(allowed@.map_values(|s: &str| s@) =~= package_fields());
                }
                match check_fields(e, &allowed) {
                    Ok(()) => {},
                    Err(err) => return Err(err),
                }
                let name = match name_field(e, "name") {
                    Ok(n) => n,
                    Err(err) => return Err(err),
                };
                let platform = match opt_platform_field(e, "platform") {
                    Ok(p) => p,
                    Err(err) => return Err(err),
                };
                let kind = match find_field(e, "kind") {
                    None => PackageKind::Default,
                    Some(Doc::Null) => PackageKind::Default,
                    Some(k) => match kind_from_doc(k) {
                        Ok(k) => k,
                        Err(err) => return Err(err),
                    },
                };
                Ok(Package::new(name, platform, kind))
            },
            _ => Err(invalid("package")),
        }
    }
}

pub open spec fn deref_doc(d: Option<&Doc>) -> Option<Doc> {
    match d {
        Some(x) => Some(*x),
        None => None,
    }
}

/// The text of a text value.
pub open spec fn text_value(d: Doc) -> Seq<char> {
    match d {
        Doc::Text(s) => s@,
        _ => Seq::empty(),
    }
}

/// The action a key names.
pub open spec fn action_of_text(s: Seq<char>) -> Option<InstallActionKind> {
    if s == "install"@ {
        Some(InstallActionKind::Install)
    } else if s == "update"@ {
        Some(InstallActionKind::Update)
    } else if s == "uninstall"@ {
        Some(InstallActionKind::Uninstall)
    } else if s == "link-files"@ {
        Some(InstallActionKind::LinkFiles)
    } else {
        None
    }
}

fn action_from_text(s: &str) -> (r: Option<InstallActionKind>)
    ensures
        r == action_of_text(s@),
{
    proof {
        reveal_strlit("install");
        reveal_strlit("update");
        reveal_strlit("uninstall");
        reveal_strlit("link-files");
    }
    if text_eq(s, "install") {
        Some(InstallActionKind::Install)
    } else if text_eq(s, "update") {
        Some(InstallActionKind::Update)
    } else if text_eq(s, "uninstall") {
        Some(InstallActionKind::Uninstall)
    } else if text_eq(s, "link-files") {
        Some(InstallActionKind::LinkFiles)
    } else {
        None
    }
}

pub open spec fn command_entry_ok(p: (String, Doc)) -> bool {
    action_of_text(p.0@) is Some && p.1 is Text
}

pub open spec fn command_pairs(e: Seq<(String, Doc)>) -> Seq<(InstallActionKind, Seq<char>)> {
    e.map_values(|p: (String, Doc)| (action_of_text(p.0@)->Some_0, text_value(p.1)))
}

/// A command map: absent or null is empty; otherwise a mapping from action names to
/// command text, a later entry for an action winning.
pub open spec fn commands_of(d: Option<Doc>) -> Option<Map<InstallActionKind, Seq<char>>> {
    match d {
        None => Some(Map::empty()),
        Some(Doc::Null) => Some(Map::empty()),
        Some(Doc::Mapping(e)) => if forall|i: int| 0 <= i < e@.len() ==> command_entry_ok(#[trigger] e@[i]) {
            Some(pairs_to_map(command_pairs(e@)))
        } else {
            None
        },
        _ => None,
    }
}

/// Reads a command map.
pub fn commands_from(d: Option<&Doc>) -> (r: Result<CommandMap, ErrorKind>)
    ensures
        match commands_of(deref_doc(d)) {
            Some(m) => r is Ok && r->Ok_0@ == m,
            None => r is Err,
        },
{
    match d {
        None => Ok(CommandMap::new()),
        Some(Doc::Null) => Ok(CommandMap::new()),
        Some(Doc::Mapping(e)) => {
            let mut m = CommandMap::new();
            let mut i: usize = 0;
            proof {
                assert(command_pairs(e@).subrange(0, 0) =~= Seq::<(InstallActionKind, Seq<char>)>::empty());
            }
            while i < e.len()
                invariant
                    i <= e@.len(),
                    deref_doc(d) == Some(Doc::Mapping(*e)),
                    forall|k: int| 0 <= k < i ==> command_entry_ok(#[trigger] e@[k]),
                    m@ == pairs_to_map(command_pairs(e@).subrange(0, i as int)),
                decreases e@.len() - i,
            {
                let action = action_from_text(e[i].0.as_str());
                match (action, &e[i].1) {
                    (Some(a), Doc::Text(cmd)) => {
                        m.insert(a, cmd.clone());
                        assert(command_pairs(e@).subrange(0, i + 1).drop_last() =~= command_pairs(
                            e@,
                        ).subrange(0, i as int));
                    },
                    _ => {
                        assert(!command_entry_ok(e@[i as int]));
                        assert(!(forall|k: int| 0 <= k < e@.len() ==> command_entry_ok(#[trigger] e@[k])));
                        return Err(invalid("commands"));
                    },
                }
                i += 1;
            }
            assert(command_pairs(e@).subrange(0, i as int) =~= command_pairs(e@));
            Ok(m)
        },
        Some(_) => Err(invalid("commands")),
    }
}

pub open spec fn text_pairs(e: Seq<(String, Doc)>) -> Seq<(Seq<char>, Seq<char>)> {
    e.map_values(|p: (String, Doc)| (p.0@, text_value(p.1)))
}

/// A text map: absent or null is empty; otherwise a mapping whose values are all text,
/// each key once, in document order.
pub open spec fn text_map_of(d: Option<Doc>) -> Option<Seq<(Seq<char>, Seq<char>)>> {
    match d {
        None => Some(Seq::empty()),
        Some(Doc::Null) => Some(Seq::empty()),
        Some(Doc::Mapping(e)) => if (forall|i: int| 0 <= i < e@.len() ==> (#[trigger] e@[i]).1 is Text)
            && keys_unique(text_pairs(e@)) {
            Some(text_pairs(e@))
        } else {
            None
        },
        _ => None,
    }
}

/// Reads a text map field.
pub fn text_map_field(e: &Vec<(String, Doc)>, key: &str) -> (r: Result<StringMap, ErrorKind>)
    ensures
        match text_map_of(field(e@, key@)) {
            Some(p) => r is Ok && r->Ok_0.pairs() == p,
            None => r is Err,
        },
{
    match find_field(e, key) {
        None => Ok(StringMap::new()),
        Some(Doc::Null) => Ok(StringMap::new()),
        Some(Doc::Mapping(f)) => {
            let ghost tp = text_pairs(f@);
            let mut m = StringMap::new();
            let mut i: usize = 0;
            proof {
                assert(tp.subrange(0, 0) =~= Seq::<(Seq<char>, Seq<char>)>::empty());
            }
            while i < f.len()
                invariant
                    i <= f@.len(),
                    field(e@, key@) == Some(Doc::Mapping(*f)),
                    tp == text_pairs(f@),
                    forall|k: int| 0 <= k < i ==> (#[trigger] f@[k]).1 is Text,
                    m.pairs() == tp.subrange(0, i as int),
                    keys_unique(tp.subrange(0, i as int)),
                decreases f@.len() - i,
            {
                let ghost before = m.pairs();
                match &f[i].1 {
                    Doc::Text(v) => {
                        if m.contains_key(f[i].0.as_str()) {
                            proof {
                                if forall|j: int| 0 <= j < before.len() ==> (#[trigger] before[j]).0 != tp[i as int].0 {
                                    lemma_absent(before, tp[i as int].0);
                                }
                                let j = choose|j: int| 0 <= j < before.len() && (#[trigger] before[j]).0 == tp[i as int].0;
                                assert(before[j] == tp[j]);
                                assert(tp[j].0 == tp[i as int].0);
                                assert(!keys_unique(tp));
                            }
                            return Err(invalid(key));
                        }
                        m.insert(f[i].0.clone(), v.clone());
                        proof {
                            assert forall|j: int| 0 <= j < before.len() implies (#[trigger] before[j]).0 != tp[i as int].0 by {
                                if before[j].0 == tp[i as int].0 {
                                    lemma_lookup(before, j);
                                }
                            }
                            assert(m.pairs() =~= tp.subrange(0, i + 1));
                        }
                    },
                    _ => {
                        assert(!(f@[i as int].1 is Text));
                        assert(!(forall|k: int| 0 <= k < f@.len() ==> (#[trigger] f@[k]).1 is Text));
                        return Err(invalid(key));
                    },
                }
                i += 1;
            }
            assert(tp.subrange(0, i as int) =~= tp);
            Ok(m)
        },
        Some(_) => Err(invalid(key)),
    }
}

/// The fields of an installer.
pub open spec fn installer_fields() -> Seq<Seq<char>> {
    seq!["name"@, "platform"@, "kind"@, "if-exists"@, "commands"@, "update-self"@]
}

/// A required kind field.
pub open spec fn req_kind_of(d: Option<Doc>) -> Option<KindView> {
    match d {
        Some(x) => kind_of(x),
        None => None,
    }
}

/// An installer: `name` and `kind`, optionally `platform`, `if-exists`, `commands` and
/// `update-self`, and nothing else.
pub open spec fn installer_of_doc(d: Doc) -> Option<InstallerView> {
    match d {
        Doc::Mapping(e) => {
            let name = name_of(field(e@, "name"@));
            let platform = opt_platform_of(field(e@, "platform"@));
            let kind = req_kind_of(field(e@, "kind"@));
            let if_exists = opt_text_of(field(e@, "if-exists"@));
            let commands = commands_of(field(e@, "commands"@));
            let update_self = opt_text_of(field(e@, "update-self"@));
            if keys_allowed(e@, installer_fields()) && name is Some && platform is Some && kind is Some
                && if_exists is Some && commands is Some && update_self is Some {
                Some(
                    InstallerView {
                        name: name->Some_0,
                        platform: platform->Some_0,
                        kind: kind->Some_0,
                        if_exists: if_exists->Some_0,
                        commands: commands->Some_0,
                        update_self: update_self->Some_0,
                    },
                )
            } else {
                None
            }
        },
        _ => None,
    }
}

impl Installer {
    /// Reads an installer document; fails exactly when `installer_of_doc` finds it invalid.
    pub fn from_doc(d: &Doc) -> (r: Result<Installer, ErrorKind>)
        ensures
            match installer_of_doc(*d) {
                Some(v) => r is Ok && r->Ok_0@ == v,
                None => r is Err,
            },
            d is Mapping && !keys_allowed(d->Mapping_0@, installer_fields()) ==> r is Err
                && r->Err_0 is UnknownField,
    {
        match d {
            Doc::Mapping(e) => {
                let allowed: Vec<&str> = vec![
                    "name",
                    "platform",
                    "kind",
                    "if-exists",
                    "commands",
                    "update-self",
                ];
                proof {
                    reveal_strlit("name");
                    reveal_strlit("platform");
                    reveal_strlit("kind");
                    reveal_strlit("if-exists");
                    reveal_strlit("commands");
                    reveal_strlit("update-self");
                    assert(allowed@.map_values(|s: &str| s@) =~= installer_fields());
                }
                match check_fields(e, &allowed) {
                    Ok(()) => {},
                    Err(err) => return Err(err),
                }
                let name = match name_field(e, "name") {
                    Ok(n) => n,
                    Err(err) => return Err(err),
                };
                let platform = match opt_platform_field(e, "platform") {
                    Ok(p) => p,
                    Err(err) => return Err(err),
                };
                let kind = match find_field(e, "kind") {
                    None => return Err(invalid("kind")),
                    Some(k) => match kind_from_doc(k) {
                        Ok(k) => k,
                        Err(err) => return Err(err),
                    },
                };
                let if_exists = match opt_text_field(e, "if-exists") {
                    Ok(t) => t,
                    Err(err) => return Err(err),
                };
                let commands = match commands_from(find_field(e, "commands")) {
                    Ok(c) => c,
                    Err(err) => return Err(err),
                };
                let update_self = match opt_text_field(e, "update-self") {
                    Ok(t) => t,
                    Err(err) => return Err(err),
                };
                let mut b = InstallerBuilder::named(name);
                match platform {
                    Some(p) => {
                        b.for_platform(p);
                    },
                    None => {},
                }
                b.of_kind(kind);
                match &if_exists {
                    Some(t) => {
                        b.if_exists(t.as_str());
                    },
                    None => {},
                }
                b.commands(commands);
                match &update_self {
                    Some(t) => {
                        b.update_self_command(t.as_str());
                    },
                    None => {},
                }
                Ok(b.build())
            },
            _ => Err(invalid("installer")),
        }
    }
}

/// A list of installers, each valid.
pub open spec fn installers_of_docs(s: Seq<Doc>) -> Option<Seq<InstallerView>>
    decreases s.len(),
{
    if s.len() == 0 {
        Some(Seq::empty())
    } else {
        match (installers_of_docs(s.drop_last()), installer_of_doc(s.last())) {
            (Some(p), Some(x)) => Some(p.push(x)),
            _ => None,
        }
    }
}

proof fn lemma_installers_fail(s: Seq<Doc>, i: int)
    requires
        0 <= i < s.len(),
        installers_of_docs(s.subrange(0, i + 1)) is None,
    ensures
        installers_of_docs(s) is None,
    decreases s.len() - i,
{
    if i + 1 < s.len() {
        assert(s.subrange(0, i + 2).drop_last() =~= s.subrange(0, i + 1));
        lemma_installers_fail(s, i + 1);
    } else {
        assert(s.subrange(0, i + 1) =~= s);
    }
}

/// Reads an installer registry document: a list of installers.
pub fn installers_from_doc(d: &Doc) -> (r: Result<Vec<Installer>, ErrorKind>)
    ensures
        match d {
            Doc::List(v) => match installers_of_docs(v@) {
                Some(p) => r is Ok && crate::installer::views(r->Ok_0@) == p,
                None => r is Err,
            },
            _ => r is Err,
        },
{
    match d {
        Doc::List(v) => {
            let mut out: Vec<Installer> = Vec::new();
            let mut i: usize = 0;
            proof {
                assert(v@.subrange(0, 0) =~= Seq::<Doc>::empty());
                assert(crate::installer::views(out@) =~= Seq::<InstallerView>::empty());
            }
            while i < v.len()
                invariant
                    i <= v@.len(),
                    *d == Doc::List(*v),
                    installers_of_docs(v@.subrange(0, i as int)) == Some(
                        crate::installer::views(out@),
                    ),
                decreases v@.len() - i,
            {
                let ghost before = crate::installer::views(out@);
                proof {
                    assert(v@.subrange(0, i + 1).drop_last() =~= v@.subrange(0, i as int));
                    assert(v@.subrange(0, i + 1).last() == v@[i as int]);
                }
                match Installer::from_doc(&v[i]) {
                    Ok(inst) => {
                        out.push(inst);
                        assert(crate::installer::views(out@) =~= before.push(out@.last()@));
                    },
                    Err(err) => {
                        proof {
                            lemma_installers_fail(v@, i as int);
                        }
                        return Err(err);
                    },
                }
                i += 1;
            }
            assert(v@.subrange(0, i as int) =~= v@);
            Ok(out)
        },
        _ => Err(invalid("installers")),
    }
}

/// A list of packages, each valid.
pub open spec fn packages_of_docs(s: Seq<Doc>) -> Option<Seq<PackageView>>
    decreases s.len(),
{
    if s.len() == 0 {
        Some(Seq::empty())
    } else {
        match (packages_of_docs(s.drop_last()), package_of_doc(s.last())) {
            (Some(p), Some(x)) => Some(p.push(x)),
            _ => None,
        }
    }
}

proof fn lemma_packages_fail(s: Seq<Doc>, i: int)
    requires
        0 <= i < s.len(),
        packages_of_docs(s.subrange(0, i + 1)) is None,
    ensures
        packages_of_docs(s) is None,
    decreases s.len() - i,
{
    if i + 1 < s.len() {
        assert(s.subrange(0, i + 2).drop_last() =~= s.subrange(0, i + 1));
        lemma_packages_fail(s, i + 1);
    } else {
        assert(s.subrange(0, i + 1) =~= s);
    }
}

fn packages_from_docs(v: &Vec<Doc>) -> (r: Result<Vec<Package>, ErrorKind>)
    ensures
        match packages_of_docs(v@) {
            Some(p) => r is Ok && package_views(r->Ok_0@) == p,
            None => r is Err,
        },
{
    let mut out: Vec<Package> = Vec::new();
    let mut i: usize = 0;
    proof {
        assert(v@.subrange(0, 0) =~= Seq::<Doc>::empty());
        assert(package_views(out@) =~= Seq::<PackageView>::empty());
    }
    while i < v.len()
        invariant
            i <= v@.len(),
            packages_of_docs(v@.subrange(0, i as int)) == Some(package_views(out@)),
        decreases v@.len() - i,
    {
        let ghost before = package_views(out@);
        proof {
            assert(v@.subrange(0, i + 1).drop_last() =~= v@.subrange(0, i as int));
            assert(v@.subrange(0, i + 1).last() == v@[i as int]);
        }
        match Package::from_doc(&v[i]) {
            Ok(p) => {
                out.push(p);
                assert(package_views(out@) =~= before.push(out@.last()@));
            },
            Err(err) => {
                proof {
                    lemma_packages_fail(v@, i as int);
                }
                return Err(err);
            },
        }
        i += 1;
    }
    assert(v@.subrange(0, i as int) =~= v@);
    Ok(out)
}

/// A set's actions: absent or null is an empty package list; otherwise a mapping with the
/// single key `packages` (a list of packages) or `scripts` (a command map).
pub open spec fn actions_of(d: Option<Doc>) -> Option<ActionsView> {
    match d {
        None => Some(ActionsView::Packages(Seq::empty())),
        Some(Doc::Null) => Some(ActionsView::Packages(Seq::empty())),
        Some(Doc::Mapping(e)) => if e@.len() == 1 && e@[0].0@ == "packages"@ {
            match e@[0].1 {
                Doc::Null => Some(ActionsView::Packages(Seq::empty())),
                Doc::List(v) => match packages_of_docs(v@) {
                    Some(p) => Some(ActionsView::Packages(p)),
                    None => None,
                },
                _ => None,
            }
        } else if e@.len() == 1 && e@[0].0@ == "scripts"@ {
            match commands_of(Some(e@[0].1)) {
                Some(m) => Some(ActionsView::Scripts(m)),
                None => None,
            }
        } else {
            None
        },
        _ => None,
    }
}

fn actions_from(d: Option<&Doc>) -> (r: Result<PackageSetActions, ErrorKind>)
    ensures
        match actions_of(deref_doc(d)) {
            Some(a) => r is Ok && r->Ok_0@ == a,
            None => r is Err,
        },
{
    proof {
        reveal_strlit("packages");
        reveal_strlit("scripts");
    }
    match d {
        None => Ok(PackageSetActions::default_actions()),
        Some(Doc::Null) => Ok(PackageSetActions::default_actions()),
        Some(Doc::Mapping(e)) => {
            if e.len() == 1 && text_eq(e[0].0.as_str(), "packages") {
                match &e[0].1 {
                    Doc::Null => Ok(PackageSetActions::default_actions()),
                    Doc::List(v) => match packages_from_docs(v) {
                        Ok(p) => Ok(PackageSetActions::from_packages(p)),
                        Err(err) => Err(err),
                    },
                    _ => Err(invalid("packages")),
                }
            } else if e.len() == 1 && text_eq(e[0].0.as_str(), "scripts") {
                match commands_from(Some(&e[0].1)) {
                    Ok(m) => Ok(PackageSetActions::Scripts { scripts: m }),
                    Err(err) => Err(err),
                }
            } else {
                Err(invalid("actions"))
            }
        },
        Some(_) => Err(invalid("actions")),
    }
}

/// The fields of a package set.
pub open spec fn set_fields() -> Seq<Seq<char>> {
    seq![
        "name"@,
        "description"@,
        "platform"@,
        "optional"@,
        "env-vars"@,
        "run-before"@,
        "actions"@,
        "env-file"@,
        "link-files"@,
        "run-after"@,
    ]
}

/// A package set read from `path`: `name`, and optionally the other set fields, and
/// nothing else.
pub open spec fn set_of_doc(d: Doc, path: Seq<char>) -> Option<PackageSetView> {
    match d {
        Doc::Mapping(e) => {
            let name = name_of(field(e@, "name"@));
            let description = opt_text_of(field(e@, "description"@));
            let platform = opt_platform_of(field(e@, "platform"@));
            let optional = opt_bool_of(field(e@, "optional"@));
            let env_vars = text_map_of(field(e@, "env-vars"@));
            let run_before = opt_text_of(field(e@, "run-before"@));
            let actions = actions_of(field(e@, "actions"@));
            let env_file = opt_text_of(field(e@, "env-file"@));
            let link_files = text_map_of(field(e@, "link-files"@));
            let run_after = opt_text_of(field(e@, "run-after"@));
            if keys_allowed(e@, set_fields()) && name is Some && description is Some && platform is Some
                && optional is Some && env_vars is Some && run_before is Some && actions is Some
                && env_file is Some && link_files is Some && run_after is Some {
                Some(
                    PackageSetView {
                        path,
                        name: name->Some_0,
                        description: description->Some_0,
                        platform: platform->Some_0,
                        optional: optional->Some_0,
                        env_vars: env_vars->Some_0,
                        run_before: run_before->Some_0,
                        actions: actions->Some_0,
                        env_file: env_file->Some_0,
                        link_files: link_files->Some_0,
                        run_after: run_after->Some_0,
                    },
                )
            } else {
                None
            }
        },
        _ => None,
    }
}

impl PackageSet {
    /// Reads a package set document found at `path`; fails exactly when `set_of_doc` finds
    /// it invalid: an unknown field, a missing or invalid name, or a field of the wrong shape.
    pub fn from_doc(d: &Doc, path: String) -> (r: Result<PackageSet, ErrorKind>)
        ensures
            match set_of_doc(*d, path@) {
                Some(v) => r is Ok && r->Ok_0@ == v,
                None => r is Err,
            },
            d is Mapping && !keys_allowed(d->Mapping_0@, set_fields()) ==> r is Err
                && r->Err_0 is UnknownField,
    {
        match d {
            Doc::Mapping(e) => {
                let allowed: Vec<&str> = vec![
                    "name",
                    "description",
                    "platform",
                    "optional",
                    "env-vars",
                    "run-before",
                    "actions",
                    "env-file",
                    "link-files",
                    "run-after",
                ];
                proof {
                    reveal_strlit("name");
                    reveal_strlit("description");
                    reveal_strlit("platform");
                    reveal_strlit("optional");
                    reveal_strlit("env-vars");
                    reveal_strlit("run-before");
                    reveal_strlit("actions");
                    reveal_strlit("env-file");
                    reveal_strlit("link-files");
                    reveal_strlit("run-after");
                    assert(allowed@.map_values(|s: &str| s@) =~= set_fields());
                }
                match check_fields(e, &allowed) {
                    Ok(()) => {},
                    Err(err) => return Err(err),
                }
                let name = match name_field(e, "name") {
                    Ok(n) => n,
                    Err(err) => return Err(err),
                };
                let description = match opt_text_field(e, "description") {
                    Ok(t) => t,
                    Err(err) => return Err(err),
                };
                let platform = match opt_platform_field(e, "platform") {
                    Ok(p) => p,
                    Err(err) => return Err(err),
                };
                let optional = match opt_bool_field(e, "optional") {
                    Ok(b) => b,
                    Err(err) => return Err(err),
                };
                let env_vars = match text_map_field(e, "env-vars") {
                    Ok(m) => m,
                    Err(err) => return Err(err),
                };
                let run_before = match opt_text_field(e, "run-before") {
                    Ok(t) => t,
                    Err(err) => return Err(err),
                };
                let actions = match actions_from(find_field(e, "actions")) {
                    Ok(a) => a,
                    Err(err) => return Err(err),
                };
                let env_file = match opt_text_field(e, "env-file") {
                    Ok(t) => t,
                    Err(err) => return Err(err),
                };
                let link_files = match text_map_field(e, "link-files") {
                    Ok(m) => m,
                    Err(err) => return Err(err),
                };
                let run_after = match opt_text_field(e, "run-after") {
                    Ok(t) => t,
                    Err(err) => return Err(err),
                };
                let mut b = PackageSetBuilder::named(name);
                b.path(path);
                match &description {
                    Some(t) => {
                        b.description(t.as_str());
                    },
                    None => {},
                }
                match platform {
                    Some(p) => {
                        b.for_platform(p);
                    },
                    None => {},
                }
                if optional {
                    b.optional();
                }
                b.env_vars(env_vars);
                match &run_before {
                    Some(t) => {
                        b.run_before(t.as_str());
                    },
                    None => {},
                }
                b.actions(actions);
                match &env_file {
                    Some(t) => {
                        b.env_file(t.as_str());
                    },
                    None => {},
                }
                b.link_files(link_files);
                match &run_after {
                    Some(t) => {
                        b.run_after(t.as_str());
                    },
                    None => {},
                }
                Ok(b.build())
            },
            _ => Err(invalid("package set")),
        }
    }
}

fn text_doc(s: &str) -> (r: Doc)
    ensures
        r is Text && r->Text_0@ == s@,
{
    Doc::Text(String::from_str(s))
}

fn opt_text_doc(o: &Option<String>) -> (r: Doc)
    ensures
        opt_text_of(Some(r)) == Some(opt_text(*o)),
{
    match o {
        Some(s) => Doc::Text(s.clone()),
        None => Doc::Null,
    }
}

fn platform_doc(p: Option<Platform>) -> (r: Doc)
    ensures
        opt_platform_of(Some(r)) == Some(p),
{
    proof {
        reveal_strlit("macos");
        reveal_strlit("linux");
    }
    match p {
        Some(Platform::Macos) => {
            let r = text_doc("macos");
            assert(r->Text_0@ == "macos"@);
            assert(platform_of_text("macos"@) == Some(Platform::Macos));
            r
        },
        Some(Platform::Linux) => {
            let r = text_doc("linux");
            assert(r->Text_0@ == "linux"@);
            assert("linux"@[0] != "macos"@[0]);
            assert(platform_of_text("linux"@) == Some(Platform::Linux));
            r
        },
        None => Doc::Null,
    }
}

/// The document of a package kind.
pub fn kind_doc(k: &PackageKind) -> (r: Doc)
    ensures
        kind_of(r) == Some(k@),
        opt_kind_of(Some(r)) == Some(k@),
{
    proof {
        reveal_strlit("default");
        reveal_strlit("application");
        reveal_strlit("language");
    }
    match k {
        PackageKind::Default => {
            let r = text_doc("default");
            assert(r->Text_0@ == "default"@);
            r
        },
        PackageKind::Application => {
            let r = text_doc("application");
            assert(r->Text_0@ == "application"@);
            assert("application"@[0] != "default"@[0]);
            r
        },
        PackageKind::Language(n) => {
            let t = String::from_str(n.as_str());
            let key = String::from_str("language");
            assert(key@ == "language"@);
            let e: Vec<(String, Doc)> = vec![(key, Doc::Text(t))];
            let r = Doc::Mapping(e);
            assert(e@[0].1 == Doc::Text(t));
            r
        },
    }
}

fn push_command(e: &mut Vec<(String, Doc)>, m: &CommandMap, a: InstallActionKind, key: &str)
    requires
        action_of_text(key@) == Some(a),
        forall|k: int| 0 <= k < old(e)@.len() ==> command_entry_ok(#[trigger] old(e)@[k]),
    ensures
        forall|k: int| 0 <= k < final(e)@.len() ==> command_entry_ok(#[trigger] final(e)@[k]),
        pairs_to_map(command_pairs(final(e)@)) == if m@.contains_key(a) {
            pairs_to_map(command_pairs(old(e)@)).insert(a, m@[a])
        } else {
            pairs_to_map(command_pairs(old(e)@))
        },
{
    match m.get(&a) {
        Some(cmd) => {
            let ghost before = e@;
            e.push((String::from_str(key), Doc::Text(cmd.clone())));
            assert(command_pairs(e@).drop_last() =~= command_pairs(before));
        },
        None => {},
    }
}

/// The document of a command map: its commands in the order install, update, uninstall,
/// link-files.
pub fn commands_doc(m: &CommandMap) -> (r: Doc)
    ensures
        commands_of(Some(r)) == Some(m@),
{
    proof {
        reveal_strlit("install");
        reveal_strlit("update");
        reveal_strlit("uninstall");
        reveal_strlit("link-files");
    }
    let mut e: Vec<(String, Doc)> = Vec::new();
    assert(pairs_to_map(command_pairs(e@)) =~= Map::<InstallActionKind, Seq<char>>::empty());
    assert(action_of_text("install"@) == Some(InstallActionKind::Install));
    push_command(&mut e, m, InstallActionKind::Install, "install");
    assert("update"@[0] != "install"@[0]);
    assert(action_of_text("update"@) == Some(InstallActionKind::Update));
    push_command(&mut e, m, InstallActionKind::Update, "update");
    assert("uninstall"@[0] != "install"@[0] && "uninstall"@[1] != "update"@[1]);
    assert(action_of_text("uninstall"@) == Some(InstallActionKind::Uninstall));
    push_command(&mut e, m, InstallActionKind::Uninstall, "uninstall");
    assert("link-files"@[0] != "install"@[0] && "link-files"@[0] != "update"@[0]
        && "link-files"@[0] != "uninstall"@[0]);
    assert(action_of_text("link-files"@) == Some(InstallActionKind::LinkFiles));
    push_command(&mut e, m, InstallActionKind::LinkFiles, "link-files");
    let ghost r = pairs_to_map(command_pairs(e@));
    assert forall|a: InstallActionKind| #[trigger] r.contains_key(a) == m@.contains_key(a) && (
    r.contains_key(a) ==> r[a] == m@[a]) by {
        match a {
            InstallActionKind::Install => {},
            InstallActionKind::Update => {},
            InstallActionKind::Uninstall => {},
            InstallActionKind::LinkFiles => {},
        }
    }
    assert(r =~= m@);
    Doc::Mapping(e)
}

fn key(k: &str) -> (r: String)
    ensures
        r@ == k@,
{
    String::from_str(k)
}

impl Installer {
    /// The document of this installer, every field present (null where unset).
    pub fn to_doc(&self) -> (r: Doc)
        ensures
            installer_of_doc(r) == Some(self@),
    {
        let name = self.name();
        let name_text = String::from_str(name.as_str());
        let e: Vec<(String, Doc)> = vec![
            (key("name"), Doc::Text(name_text)),
            (key("platform"), platform_doc(self.platform_constraint())),
            (key("kind"), kind_doc(&self.kind())),
            (key("if-exists"), opt_text_doc(self.if_exists())),
            (key("commands"), commands_doc(self.commands())),
            (key("update-self"), opt_text_doc(self.update_self())),
        ];
        proof {
            reveal_strlit("name");
            reveal_strlit("platform");
            reveal_strlit("kind");
            reveal_strlit("if-exists");
            reveal_strlit("commands");
            reveal_strlit("update-self");
            reveal_with_fuel(field, 7);
            let k = seq!["name"@, "platform"@, "kind"@, "if-exists"@, "commands"@, "update-self"@];
            assert forall|i: int, j: int| 0 <= i < 6 && 0 <= j < 6 && i != j implies k[i][0]
                != k[j][0] by {}
            assert forall|i: int| 0 <= i < 6 implies e@[i].0@ == k[i] by {}
            assert forall|i: int| 0 <= i < e@.len() implies installer_fields().contains(
                #[trigger] e@[i].0@,
            ) by {
                assert(installer_fields()[i] == e@[i].0@);
            }
        }
        Doc::Mapping(e)
    }
}

impl Package {
    /// The document of this package, every field present (null where unset).
    pub fn to_doc(&self) -> (r: Doc)
        ensures
            package_of_doc(r) == Some(self@),
    {
        let name_text = String::from_str(self.name().as_str());
        let e: Vec<(String, Doc)> = vec![
            (key("name"), Doc::Text(name_text)),
            (key("platform"), platform_doc(self.platform_constraint())),
            (key("kind"), kind_doc(self.kind())),
        ];
        proof {
            reveal_strlit("name");
            reveal_strlit("platform");
            reveal_strlit("kind");
            reveal_with_fuel(field, 4);
            assert("name"@[0] != "platform"@[0] && "name"@[0] != "kind"@[0] && "platform"@[0]
                != "kind"@[0]);
            assert forall|i: int| 0 <= i < e@.len() implies package_fields().contains(
                #[trigger] e@[i].0@,
            ) by {
                assert(package_fields()[i] == e@[i].0@);
            }
        }
        Doc::Mapping(e)
    }
}

/// The document of a text map: a mapping in the map's order.
pub fn text_map_doc(m: &StringMap) -> (r: Doc)
    ensures
        text_map_of(Some(r)) == Some(m.pairs()),
{
    let n = m.len();
    let mut e: Vec<(String, Doc)> = Vec::new();
    let mut i: usize = 0;
    while i < n
        invariant
            n == m.pairs().len(),
            i <= n,
            e@.len() == i,
            forall|j: int| 0 <= j < i ==> (#[trigger] e@[j]).1 is Text,
            text_pairs(e@) == m.pairs().subrange(0, i as int),
        decreases n - i,
    {
        let ghost before = e@;
        e.push((m.key_at(i).clone(), Doc::Text(m.value_at(i).clone())));
        assert(text_pairs(e@) =~= m.pairs().subrange(0, i + 1));
        i += 1;
    }
    assert(m.pairs().subrange(0, i as int) =~= m.pairs());
    Doc::Mapping(e)
}

/// The document of a set's actions.
pub fn actions_doc(a: &PackageSetActions) -> (r: Doc)
    ensures
        actions_of(Some(r)) == Some(a@),
{
    proof {
        reveal_strlit("packages");
        reveal_strlit("scripts");
    }
    match a {
        PackageSetActions::Packages { packages } => {
            let mut list: Vec<Doc> = Vec::new();
            let mut i: usize = 0;
            proof {
                assert(list@ =~= Seq::<Doc>::empty());
                assert(package_views(packages@).subrange(0, 0) =~= Seq::<PackageView>::empty());
            }
            while i < packages.len()
                invariant
                    i <= packages@.len(),
                    list@.len() == i,
                    packages_of_docs(list@) == Some(package_views(packages@).subrange(0, i as int)),
                decreases packages@.len() - i,
            {
                let ghost before = list@;
                list.push(packages[i].to_doc());
                assert(list@.drop_last() =~= before);
                assert(package_views(packages@).subrange(0, i + 1) =~= package_views(
                    packages@,
                ).subrange(0, i as int).push(packages@[i as int]@));
                i += 1;
            }
            assert(package_views(packages@).subrange(0, i as int) =~= package_views(packages@));
            let e: Vec<(String, Doc)> = vec![(key("packages"), Doc::List(list))];
            Doc::Mapping(e)
        },
        PackageSetActions::Scripts { scripts } => {
            let e: Vec<(String, Doc)> = vec![(key("scripts"), commands_doc(scripts))];
            assert("scripts"@[0] != "packages"@[0]);
            Doc::Mapping(e)
        },
    }
}

fn flag_doc(b: bool) -> (r: Doc)
    ensures
        opt_bool_of(Some(r)) == Some(b),
{
    Doc::Bool(b)
}

impl PackageSet {
    /// The document of this set, every field present (null where unset); the path it was
    /// read from is not part of it.
    pub fn to_doc(&self) -> (r: Doc)
        ensures
            set_of_doc(r, self@.path) == Some(self@),
    {
        let name_text = String::from_str(self.name().as_str());
        let _ = self.env_vars().len();
        let _ = self.link_files().len();
        let e: Vec<(String, Doc)> = vec![
            (key("name"), Doc::Text(name_text)),
            (key("description"), opt_text_doc(self.description())),
            (key("platform"), platform_doc(self.platform_constraint())),
            (key("optional"), flag_doc(self.is_optional())),
            (key("env-vars"), text_map_doc(self.env_vars())),
            (key("run-before"), opt_text_doc(self.run_before())),
            (key("actions"), actions_doc(self.actions())),
            (key("env-file"), opt_text_doc(self.env_file())),
            (key("link-files"), text_map_doc(self.link_files())),
            (key("run-after"), opt_text_doc(self.run_after())),
        ];
        proof {
            reveal_strlit("name");
            reveal_strlit("description");
            reveal_strlit("platform");
            reveal_strlit("optional");
            reveal_strlit("env-vars");
            reveal_strlit("run-before");
            reveal_strlit("actions");
            reveal_strlit("env-file");
            reveal_strlit("link-files");
            reveal_strlit("run-after");
            reveal_with_fuel(field, 11);
            let k = set_fields();
            assert forall|i: int| 0 <= i < 10 implies e@[i].0@ == k[i] by {}
            assert forall|i: int, j: int| 0 <= i < 10 && 0 <= j < 10 && i != j implies k[i] != k[j] by {
                if k[i].len() == k[j].len() {
                    assert(k[i][0] != k[j][0] || k[i][1] != k[j][1] || k[i][4] != k[j][4]);
                }
            }
            assert forall|i: int| 0 <= i < e@.len() implies set_fields().contains(
                #[trigger] e@[i].0@,
            ) by {
                assert(set_fields()[i] == e@[i].0@);
            }
        }
        Doc::Mapping(e)
    }
}

} // verus!
