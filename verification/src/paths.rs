//! Paths as text, with `std::path::Path` doing the component work.
use vstd::prelude::*;

use crate::text::{opt_view, str_eq};

verus! {

/// The text of `Path::new(base).join(part)`.
pub uninterp spec fn path_joined(base: Seq<char>, part: Seq<char>) -> Seq<char>;

/// The text of `Path::new(path).strip_prefix(base)`, `None` where it fails.
pub uninterp spec fn path_stripped(path: Seq<char>, base: Seq<char>) -> Option<Seq<char>>;

/// The text of `Path::new(path).file_name()`, `None` where there is none.
pub uninterp spec fn path_file_name(path: Seq<char>) -> Option<Seq<char>>;

/// Calls `Path::join`. Claims only that the text is a function of the two
/// texts, named `path_joined`.
#[verifier::external_body]
pub(crate) fn join_path(base: &str, part: &str) -> (r: String)
    ensures
        r@ == path_joined(base@, part@),
{
    std::path::Path::new(base).join(part).to_string_lossy().into_owned()
}

/// Calls `Path::strip_prefix`. Its result is named `path_stripped`; the
/// documented case of a path and a base that are the same text gives the
/// empty path.
#[verifier::external_body]
fn strip_path_prefix(path: &str, base: &str) -> (r: Option<String>)
    ensures
        opt_view(r) == path_stripped(path@, base@),
        path@ == base@ ==> opt_view(r) == Some(Seq::<char>::empty()),
{
    std::path::Path::new(path).strip_prefix(base).ok().and_then(|p| p.to_str()).map(|p| p.to_string())
}

/// Calls `Path::file_name`. Claims only that the result is named
/// `path_file_name`.
#[verifier::external_body]
pub(crate) fn file_name(path: &str) -> (r: Option<String>)
    ensures
        opt_view(r) == path_file_name(path@),
{
    std::path::Path::new(path).file_name().and_then(|n| n.to_str()).map(|n| n.to_string())
}

/// How a path is shown: relative to `root` when it lies below it, else whole.
pub open spec fn spec_display_path(path: Seq<char>, root: Seq<char>) -> Seq<char> {
    match path_stripped(path, root) {
        Some(p) => if p.len() > 0 {
            p
        } else {
            path
        },
        None => path,
    }
}

/// A directory of the project relative to its root; the root itself is `.`.
pub open spec fn spec_relative_dir(path: Seq<char>, root: Seq<char>) -> Seq<char> {
    match path_stripped(path, root) {
        Some(p) => if p.len() > 0 {
            p
        } else {
            seq!['.']
        },
        None => seq!['.'],
    }
}

pub fn display_path(path: &str, root: &str) -> (r: String)
    ensures
        r@ == spec_display_path(path@, root@),
{
    match strip_path_prefix(path, root) {
        Some(p) => if !p.as_str().is_empty() {
            p
        } else {
            String::from_str(path)
        },
        None => String::from_str(path),
    }
}

pub fn relative_dir(path: &str, root: &str) -> (r: String)
    ensures
        r@ == spec_relative_dir(path@, root@),
        path@ == root@ ==> r@ == seq!['.'],
{
    match strip_path_prefix(path, root) {
        Some(p) => if !p.as_str().is_empty() {
            p
        } else {
            let r = String::from_str(".");
            proof {
                reveal_strlit(".");
            }
            r
        },
        None => {
            let r = String::from_str(".");
            proof {
                reveal_strlit(".");
            }
            r
        },
    }
}

/// Whether the walk for project directories enters a subdirectory of this
/// name: not a hidden one, not `target`, not `node_modules`.
pub open spec fn spec_descend_into(name: Seq<char>) -> bool {
    &&& !(name.len() > 0 && name[0] == '.')
    &&& name != "target"@
    &&& name != "node_modules"@
}

pub fn descend_into(name: &str) -> (r: bool)
    ensures
        r == spec_descend_into(name@),
{
    let cs = crate::text::chars_of(name);
    !(cs.len() > 0 && cs[0] == '.') && !str_eq(name, "target") && !str_eq(name, "node_modules")
}

/// An entry of a listed directory: its name and whether it is a directory.
pub open spec fn entry_view(e: (String, bool)) -> (Seq<char>, bool) {
    (e.0@, e.1)
}

/// The entries the project walk enters, in listing order: the
/// subdirectories whose names it descends into.
pub open spec fn spec_dirs_to_enter(entries: Seq<(Seq<char>, bool)>) -> Seq<Seq<char>>
    decreases entries.len(),
{
    if entries.len() == 0 {
        seq![]
    } else {
        spec_dirs_to_enter(entries.drop_last()) + if entries.last().1 && spec_descend_into(entries.last().0) {
            seq![entries.last().0]
        } else {
            seq![]
        }
    }
}

/// Which entries of a listed directory the walk enters, in listing order.
pub fn dirs_to_enter(entries: &[(String, bool)]) -> (r: Vec<String>)
    ensures
        crate::text::views(r@) == spec_dirs_to_enter(entries@.map_values(|e: (String, bool)| entry_view(e))),
{
    let ghost ev = entries@.map_values(|e: (String, bool)| entry_view(e));
    let mut r: Vec<String> = Vec::new();
    let mut i: usize = 0;
    while i < entries.len()
        invariant
            i <= entries.len(),
            ev == entries@.map_values(|e: (String, bool)| entry_view(e)),
            crate::text::views(r@) == spec_dirs_to_enter(ev.take(i as int)),
        decreases entries.len() - i,
    {
        assert(ev.take(i + 1).drop_last() =~= ev.take(i as int));
        assert(ev.take(i + 1).last() == entry_view(entries@[i as int]));
        let ghost pre = crate::text::views(r@);
        if entries[i].1 && descend_into(entries[i].0.as_str()) {
            r.push(entries[i].0.clone());
            assert(crate::text::views(r@) =~= pre.push(entries@[i as int].0@));
        } else {
            assert(crate::text::views(r@) =~= pre + Seq::<Seq<char>>::empty());
        }
        i += 1;
    }
    assert(ev.take(entries.len() as int) =~= ev);
    r
}

/// The walk enters only subdirectories that are listed, and never a hidden
/// one, `target` or `node_modules`; it enters every other listed
/// subdirectory.
pub proof fn law_walk_skips(entries: Seq<(Seq<char>, bool)>)
    ensures
        forall|n: Seq<char>| #[trigger] spec_dirs_to_enter(entries).contains(n) ==> entries.contains((n, true))
            && !(n.len() > 0 && n[0] == '.') && n != "target"@ && n != "node_modules"@,
        forall|i: int| 0 <= i < entries.len() && (#[trigger] entries[i]).1 && spec_descend_into(entries[i].0)
            ==> spec_dirs_to_enter(entries).contains(entries[i].0),
    decreases entries.len(),
{
    broadcast use vstd::seq_lib::group_seq_properties;

    if entries.len() > 0 {
        let t = entries.drop_last();
        law_walk_skips(t);
        let r = spec_dirs_to_enter(entries);
        assert forall|n: Seq<char>| #[trigger] r.contains(n) implies entries.contains((n, true)) && !(n.len() > 0
            && n[0] == '.') && n != "target"@ && n != "node_modules"@ by {
            if spec_dirs_to_enter(t).contains(n) {
                let i = choose|i: int| 0 <= i < t.len() && t[i] == (n, true);
                assert(entries[i] == (n, true));
            } else {
                assert(entries.last() == (n, true));
                assert(entries[entries.len() - 1] == (n, true));
            }
        }
        assert forall|i: int| 0 <= i < entries.len() && (#[trigger] entries[i]).1 && spec_descend_into(entries[i].0)
            implies r.contains(entries[i].0) by {
            if i < t.len() {
                assert(t[i] == entries[i]);
                assert(spec_dirs_to_enter(t).contains(t[i].0));
            } else {
                let k = spec_dirs_to_enter(t).len() as int;
                assert(r[k] == entries[i].0);
            }
        }
    }
}

} // verus!
