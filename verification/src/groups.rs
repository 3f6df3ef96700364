use vstd::prelude::*;

use crate::name_map::{enumerates_keys, NameMap};

verus! {

/// The text of an optional string.
pub open spec fn opt_text(o: Option<String>) -> Option<Seq<char>> {
    match o {
        Some(s) => Some(s@),
        None => None,
    }
}

/// Whether `path` starts with a `~` that stands for the home directory: `~`
/// alone, or `~` before `/`.
pub open spec fn starts_at_home(path: Seq<char>) -> bool {
    path.len() > 0 && path[0] == '~' && (path.len() == 1 || path[1] == '/')
}

/// A path with a leading `~` (alone or before `/`) replaced by the home
/// directory, when one is known; any other path as it is.
pub open spec fn home_expanded(path: Seq<char>, home: Option<Seq<char>>) -> Seq<char> {
    match home {
        Some(h) => if starts_at_home(path) {
            h + path.skip(1)
        } else {
            path
        },
        None => path,
    }
}

/// Whether `path` starts with `~\`, which only Windows builds expand.
pub open spec fn starts_with_tilde_backslash(path: Seq<char>) -> bool {
    path.len() > 1 && path[0] == '~' && path[1] == '\\'
}

/// `shellexpand::tilde_with_context` with `home` as the home directory:
/// replaces a leading `~` that stands alone or before `/` by the home directory
/// when one is given, and keeps every other path. On Windows a `~` before a backslash
/// is expanded too, elsewhere it is kept; for such paths only that one of the two
/// happens is stated.
#[verifier::external_body]
fn expand_tilde_with(path: &str, home: Option<String>) -> (res: String)
    ensures
        !starts_with_tilde_backslash(path@) ==> res@ == home_expanded(path@, opt_text(home)),
        starts_with_tilde_backslash(path@) ==> res@ == path@ || (home matches Some(h) && res@ == h@
            + path@.skip(1)),
{
    shellexpand::tilde_with_context(path, || home).into_owned()
}

/// Where the kubeconfig given on the command line is read from, `~` standing
/// for `home`.
pub fn kubeconfig_file(path: &str, home: Option<String>) -> (res: String)
    ensures
        !starts_with_tilde_backslash(path@) ==> res@ == home_expanded(path@, opt_text(home)),
        starts_with_tilde_backslash(path@) ==> res@ == path@ || (home matches Some(h) && res@ == h@
            + path@.skip(1)),
{
    expand_tilde_with(path, home)
}

/// The file that lists the context groups, unless another is named.
pub fn default_groups_file() -> (res: String)
    ensures
        res@ == "~/.kube/groups.yaml"@,
{
    String::from_str("~/.kube/groups.yaml")
}

/// The context groups: named lists of kubeconfig contexts to query together.
pub struct Groups {
    pub api_version: String,
    pub kind: String,
    pub context_groups: NameMap<Vec<String>>,
}

impl Groups {
    /// An empty set of groups.
    pub fn default() -> (g: Groups)
        ensures
            g.api_version@ == "v1alpha1"@,
            g.kind@ == "Groups"@,
            g.context_groups@ == Map::<Seq<char>, Vec<String>>::empty(),
            g.context_groups.key_list() == Seq::<Seq<char>>::empty(),
    {
        Groups {
            api_version: String::from_str("v1alpha1"),
            kind: String::from_str("Groups"),
            context_groups: NameMap::new(),
        }
    }

    /// Where a groups file named `path` is read from, `~` standing for `home`.
    pub fn file_path(path: &str, home: Option<String>) -> (res: String)
        ensures
            !starts_with_tilde_backslash(path@) ==> res@ == home_expanded(path@, opt_text(home)),
            starts_with_tilde_backslash(path@) ==> res@ == path@ || (home matches Some(h) && res@ == h@
                + path@.skip(1)),
    {
        expand_tilde_with(path, home)
    }

    /// The contexts of the group called `group`, if there is one.
    pub fn contexts(&self, group: &str) -> (res: Option<Vec<String>>)
        ensures
            match res {
                Some(v) => self.context_groups@.contains_key(group@) && v@ == self.context_groups@[group@]@,
                None => !self.context_groups@.contains_key(group@),
            },
    {
        match self.context_groups.get(group) {
            Some(v) => {
                let c = v.clone();
                assert(c@ =~= v@);
                Some(c)
            },
            None => None,
        }
    }
}

} // verus!
