//! JavaScript package-manager names, lockfiles and the selection rule:
//! a recognized `packageManager` field wins; otherwise lockfile precedence.
use vstd::prelude::*;

use crate::model::{DetectedManager, ManagerChoice, PackageJsonData, PackageManager};
use crate::text::{
    chars_of, concat3, concat5, copy_str, join, join_strings, opt_view, rsplit_once,
    rsplit_once_chars, str_eq, string_of, views,
};

verus! {

pub open spec fn spec_manager_name(m: PackageManager) -> Seq<char> {
    match m {
        PackageManager::Npm => "npm"@,
        PackageManager::Pnpm => "pnpm"@,
        PackageManager::Bun => "bun"@,
        PackageManager::Yarn => "yarn"@,
    }
}

pub open spec fn spec_parse_manager(v: Seq<char>) -> Option<PackageManager> {
    if v == "npm"@ {
        Some(PackageManager::Npm)
    } else if v == "pnpm"@ {
        Some(PackageManager::Pnpm)
    } else if v == "bun"@ {
        Some(PackageManager::Bun)
    } else if v == "yarn"@ {
        Some(PackageManager::Yarn)
    } else {
        None
    }
}

pub open spec fn spec_expected_lockfiles(m: PackageManager) -> Seq<Seq<char>> {
    match m {
        PackageManager::Npm => seq!["package-lock.json"@],
        PackageManager::Pnpm => seq!["pnpm-lock.yaml"@],
        PackageManager::Bun => seq!["bun.lock"@, "bun.lockb"@],
        PackageManager::Yarn => seq!["yarn.lock"@],
    }
}

pub open spec fn spec_manager_from_lockfile(l: Seq<char>) -> Option<PackageManager> {
    if l == "package-lock.json"@ {
        Some(PackageManager::Npm)
    } else if l == "pnpm-lock.yaml"@ {
        Some(PackageManager::Pnpm)
    } else if l == "bun.lock"@ || l == "bun.lockb"@ {
        Some(PackageManager::Bun)
    } else if l == "yarn.lock"@ {
        Some(PackageManager::Yarn)
    } else {
        None
    }
}

/// `name@version` split at the last `@` when something precedes it.
pub open spec fn spec_parse_package_manager_field(v: Seq<char>) -> Option<
    (PackageManager, Option<Seq<char>>),
> {
    let (name, version) = match rsplit_once(v, '@') {
        Some((n, ver)) => if n.len() > 0 {
            (n, Some(ver))
        } else {
            (v, None)
        },
        None => (v, None),
    };
    match spec_parse_manager(name) {
        Some(m) => Some((m, version)),
        None => None,
    }
}

impl PackageManager {
    pub fn parse(value: &str) -> (r: Option<PackageManager>)
        ensures
            r == spec_parse_manager(value@),
    {
        if str_eq(value, "npm") {
            Some(PackageManager::Npm)
        } else if str_eq(value, "pnpm") {
            Some(PackageManager::Pnpm)
        } else if str_eq(value, "bun") {
            Some(PackageManager::Bun)
        } else if str_eq(value, "yarn") {
            Some(PackageManager::Yarn)
        } else {
            None
        }
    }

    pub fn display_name(self) -> (r: &'static str)
        ensures
            r@ == spec_manager_name(self),
    {
        match self {
            PackageManager::Npm => "npm",
            PackageManager::Pnpm => "pnpm",
            PackageManager::Bun => "bun",
            PackageManager::Yarn => "yarn",
        }
    }

    pub fn expected_lockfiles(self) -> (r: Vec<&'static str>)
        ensures
            r@.map_values(|s: &str| s@) == spec_expected_lockfiles(self),
    {
        let r = match self {
            PackageManager::Npm => vec!["package-lock.json"],
            PackageManager::Pnpm => vec!["pnpm-lock.yaml"],
            PackageManager::Bun => vec!["bun.lock", "bun.lockb"],
            PackageManager::Yarn => vec!["yarn.lock"],
        };
        assert(r@.map_values(|s: &str| s@) =~= spec_expected_lockfiles(self));
        r
    }
}

pub fn manager_from_lockfile(lockfile: &str) -> (r: Option<PackageManager>)
    ensures
        r == spec_manager_from_lockfile(lockfile@),
{
    if str_eq(lockfile, "package-lock.json") {
        Some(PackageManager::Npm)
    } else if str_eq(lockfile, "pnpm-lock.yaml") {
        Some(PackageManager::Pnpm)
    } else if str_eq(lockfile, "bun.lock") || str_eq(lockfile, "bun.lockb") {
        Some(PackageManager::Bun)
    } else if str_eq(lockfile, "yarn.lock") {
        Some(PackageManager::Yarn)
    } else {
        None
    }
}

pub fn parse_package_manager_field(value: &str) -> (r: Option<(PackageManager, Option<String>)>)
    ensures
        match r {
            Some((m, ver)) => spec_parse_package_manager_field(value@) == Some((m, opt_view(ver))),
            None => spec_parse_package_manager_field(value@) is None,
        },
{
    let cs = chars_of(value);
    let (name, version): (String, Option<String>) = match rsplit_once_chars(cs.as_slice(), '@') {
        Some((n, ver)) => {
            if n.len() > 0 {
                (string_of(n.as_slice()), Some(string_of(ver.as_slice())))
            } else {
                (copy_str(value), None)
            }
        },
        None => (copy_str(value), None),
    };
    match PackageManager::parse(name.as_str()) {
        Some(m) => Some((m, version)),
        None => None,
    }
}

// ---------------------------------------------------------------------------
// Selection
// ---------------------------------------------------------------------------
/// How many of the lockfiles name a JavaScript package manager.
pub open spec fn lockfile_signals(lockfiles: Seq<Seq<char>>) -> nat
    decreases lockfiles.len(),
{
    if lockfiles.len() == 0 {
        0
    } else {
        lockfile_signals(lockfiles.drop_last()) + if spec_manager_from_lockfile(
            lockfiles.last(),
        ) is Some {
            1nat
        } else {
            0nat
        }
    }
}

/// The first of `expected` that occurs among `lockfiles`.
pub open spec fn first_present(expected: Seq<Seq<char>>, lockfiles: Seq<Seq<char>>) -> Option<
    Seq<char>,
>
    decreases expected.len(),
{
    if expected.len() == 0 {
        None
    } else if lockfiles.contains(expected[0]) {
        Some(expected[0])
    } else {
        first_present(expected.drop_first(), lockfiles)
    }
}

/// Lockfile precedence, highest first.
pub open spec fn precedence() -> Seq<(Seq<char>, PackageManager)> {
    seq![
        ("bun.lock"@, PackageManager::Bun),
        ("bun.lockb"@, PackageManager::Bun),
        ("pnpm-lock.yaml"@, PackageManager::Pnpm),
        ("yarn.lock"@, PackageManager::Yarn),
        ("package-lock.json"@, PackageManager::Npm),
    ]
}

/// The first candidate (in precedence order) whose lockfile is present.
pub open spec fn first_candidate(
    candidates: Seq<(Seq<char>, PackageManager)>,
    lockfiles: Seq<Seq<char>>,
) -> Option<(Seq<char>, PackageManager)>
    decreases candidates.len(),
{
    if candidates.len() == 0 {
        None
    } else if lockfiles.contains(candidates[0].0) {
        Some(candidates[0])
    } else {
        first_candidate(candidates.drop_first(), lockfiles)
    }
}

pub open spec fn selected_by_field() -> Seq<char> {
    "package.json packageManager"@
}

pub open spec fn selected_by_lockfile() -> Seq<char> {
    "lockfile precedence"@
}

/// What `select_manager` chooses.
pub open spec fn spec_selected_manager(field: Option<Seq<char>>, lockfiles: Seq<Seq<char>>) -> Option<
    ManagerChoice,
> {
    match field {
        Some(f) if spec_parse_package_manager_field(f) is Some => {
            let (m, version) = spec_parse_package_manager_field(f).unwrap();
            Some(
                ManagerChoice {
                    name: m,
                    version: version,
                    lockfile: first_present(spec_expected_lockfiles(m), lockfiles),
                    selected_by: selected_by_field(),
                },
            )
        },
        _ => match first_candidate(precedence(), lockfiles) {
            Some((file, m)) => Some(
                ManagerChoice {
                    name: m,
                    version: None,
                    lockfile: Some(file),
                    selected_by: selected_by_lockfile(),
                },
            ),
            None => None,
        },
    }
}

/// The evidence notes that `select_manager` reports.
pub open spec fn spec_selection_notes(field: Option<Seq<char>>, lockfiles: Seq<Seq<char>>) -> Seq<
    Seq<char>,
> {
    let listed = join(lockfiles, ", "@);
    let many = lockfile_signals(lockfiles) > 1;
    match field {
        Some(f) if spec_parse_package_manager_field(f) is Some => {
            let m = spec_parse_package_manager_field(f).unwrap().0;
            let first = "Selected "@ + spec_manager_name(m) + " from package.json packageManager field."@;
            if many {
                seq![
                    first,
                    "Observed multiple lockfiles ("@ + listed
                        + "); packageManager field takes precedence."@,
                ]
            } else {
                seq![first]
            }
        },
        _ => {
            let ignored: Seq<Seq<char>> = if field is Some {
                seq!["Ignored unrecognized packageManager field and fell back to lockfile detection."@]
            } else {
                seq![]
            };
            match first_candidate(precedence(), lockfiles) {
                Some((file, m)) => ignored + seq![
                    if many {
                        "Selected "@ + spec_manager_name(m)
                            + " using deterministic lockfile precedence over "@ + listed + "."@
                    } else {
                        "Selected "@ + spec_manager_name(m) + " from "@ + file + "."@
                    },
                ],
                None => ignored + seq!["No supported package manager signals detected."@],
            }
        },
    }
}

fn count_lockfile_signals(lockfiles: &[String]) -> (n: usize)
    ensures
        n == lockfile_signals(views(lockfiles@)),
{
    let mut n: usize = 0;
    let mut i: usize = 0;
    while i < lockfiles.len()
        invariant
            i <= lockfiles.len(),
            n == lockfile_signals(views(lockfiles@).take(i as int)),
            n <= i,
        decreases lockfiles.len() - i,
    {
        proof {
            let next = views(lockfiles@).take(i + 1);
            assert(next.drop_last() =~= views(lockfiles@).take(i as int));
            assert(next.last() == lockfiles@[i as int]@);
        }
        if manager_from_lockfile(lockfiles[i].as_str()).is_some() {
            n += 1;
        }
        i += 1;
    }
    assert(views(lockfiles@).take(lockfiles.len() as int) =~= views(lockfiles@));
    n
}

pub fn contains_string(list: &[String], item: &str) -> (r: bool)
    ensures
        r == views(list@).contains(item@),
{
    let mut i: usize = 0;
    while i < list.len()
        invariant
            i <= list.len(),
            forall|k: int| 0 <= k < i ==> list@[k]@ != item@,
        decreases list.len() - i,
    {
        if str_eq(list[i].as_str(), item) {
            assert(views(list@)[i as int] == item@);
            return true;
        }
        i += 1;
    }
    proof {
        if views(list@).contains(item@) {
            let k = choose|k: int| 0 <= k < views(list@).len() && views(list@)[k] == item@;
            assert(list@[k]@ == item@);
        }
    }
    false
}

/// The first lockfile, in precedence order, that is among `lockfiles`.
fn first_lockfile_candidate(lockfiles: &[String]) -> (r: Option<(&'static str, PackageManager)>)
    ensures
        match r {
            Some((f, m)) => first_candidate(precedence(), views(lockfiles@)) == Some((f@, m)),
            None => first_candidate(precedence(), views(lockfiles@)) is None,
        },
{
    proof {
        reveal_with_fuel(first_candidate, 6);
    }
    if contains_string(lockfiles, "bun.lock") {
        Some(("bun.lock", PackageManager::Bun))
    } else if contains_string(lockfiles, "bun.lockb") {
        Some(("bun.lockb", PackageManager::Bun))
    } else if contains_string(lockfiles, "pnpm-lock.yaml") {
        Some(("pnpm-lock.yaml", PackageManager::Pnpm))
    } else if contains_string(lockfiles, "yarn.lock") {
        Some(("yarn.lock", PackageManager::Yarn))
    } else if contains_string(lockfiles, "package-lock.json") {
        Some(("package-lock.json", PackageManager::Npm))
    } else {
        None
    }
}

fn matching_lockfile(m: PackageManager, lockfiles: &[String]) -> (r: Option<String>)
    ensures
        opt_view(r) == first_present(spec_expected_lockfiles(m), views(lockfiles@)),
{
    let expected = m.expected_lockfiles();
    let ghost exp = expected@.map_values(|s: &str| s@);
    let mut i: usize = 0;
    assert(exp.skip(0) =~= exp);
    while i < expected.len()
        invariant
            i <= expected.len(),
            exp == expected@.map_values(|s: &str| s@),
            exp == spec_expected_lockfiles(m),
            first_present(exp, views(lockfiles@)) == first_present(exp.skip(i as int), views(lockfiles@)),
        decreases expected.len() - i,
    {
        let e = expected[i];
        assert(exp.skip(i as int)[0] == e@);
        assert(exp.skip(i as int).drop_first() =~= exp.skip(i + 1));
        if contains_string(lockfiles, e) {
            return Some(copy_str(e));
        }
        i += 1;
    }
    assert(exp.skip(i as int).len() == 0);
    None
}

/// Select the package manager from the `packageManager` field and the
/// lockfiles found, with the notes that explain the choice.
pub fn select_manager(package_json_data: Option<&PackageJsonData>, lockfiles: &[String]) -> (r: (
    Option<DetectedManager>,
    Vec<String>,
))
    ensures
        ({
            let field = match package_json_data {
                Some(d) => opt_view(d.package_manager_field),
                None => None,
            };
            &&& match r.0 {
                Some(d) => spec_selected_manager(field, views(lockfiles@)) == Some(d@),
                None => spec_selected_manager(field, views(lockfiles@)) is None,
            }
            &&& views(r.1@) == spec_selection_notes(field, views(lockfiles@))
        }),
{
    let ghost field = match package_json_data {
        Some(d) => opt_view(d.package_manager_field),
        None => None,
    };
    let ghost ls = views(lockfiles@);
    let parsed = match package_json_data {
        Some(data) => match &data.package_manager_field {
            Some(f) => Some(parse_package_manager_field(f.as_str())),
            None => None,
        },
        None => None,
    };
    let signals = count_lockfile_signals(lockfiles);
    let mut notes: Vec<String> = Vec::new();
    let listed = join_strings(lockfiles, ", ");
    if let Some(Some((manager, version))) = parsed {
        notes.push(concat3("Selected ", manager.display_name(), " from package.json packageManager field."));
        if signals > 1 {
            notes.push(concat3("Observed multiple lockfiles (", listed.as_str(), "); packageManager field takes precedence."));
        }
        let lockfile = matching_lockfile(manager, lockfiles);
        let r = DetectedManager {
            name: manager,
            version,
            lockfile,
            selected_by: copy_str("package.json packageManager"),
        };
        proof {
            if signals > 1 {
                assert(views(notes@) =~= spec_selection_notes(field, ls));
            } else {
                assert(views(notes@) =~= spec_selection_notes(field, ls));
            }
        }
        return (Some(r), notes);
    }
    let ignored = match parsed {
        Some(None) => true,
        _ => false,
    };
    proof {
        match package_json_data {
            Some(d) => match &d.package_manager_field {
                Some(f) => {
                    assert(field == Some(f@));
                    assert(parsed is Some);
                    assert(ignored == (spec_parse_package_manager_field(f@) is None));
                },
                None => {},
            },
            None => {},
        }
        assert(ignored == (field is Some));
    }
    if ignored {
        notes.push(copy_str("Ignored unrecognized packageManager field and fell back to lockfile detection."));
    }
    let ghost pre = views(notes@);
    proof {
        assert(pre == if field is Some { seq!["Ignored unrecognized packageManager field and fell back to lockfile detection."@] } else { Seq::<Seq<char>>::empty() });
    }
    if let Some((file, manager)) = first_lockfile_candidate(lockfiles) {
        if signals > 1 {
            notes.push(concat5("Selected ", manager.display_name(), " using deterministic lockfile precedence over ", listed.as_str(), "."));
        } else {
            notes.push(concat5("Selected ", manager.display_name(), " from ", file, "."));
        }
        let r = DetectedManager {
            name: manager,
            version: None,
            lockfile: Some(copy_str(file)),
            selected_by: copy_str("lockfile precedence"),
        };
        proof {
            assert(views(notes@) =~= spec_selection_notes(field, ls));
        }
        return (Some(r), notes);
    }

    notes.push(copy_str("No supported package manager signals detected."));
    assert(views(notes@) =~= spec_selection_notes(field, ls));
    (None, notes)
}

// ---------------------------------------------------------------------------
// Laws
// ---------------------------------------------------------------------------
/// Parsing the name a manager is displayed by gives that manager back.
pub proof fn law_manager_name_roundtrip(m: PackageManager)
    ensures
        spec_parse_manager(spec_manager_name(m)) == Some(m),
{
    reveal_strlit("npm");
    reveal_strlit("pnpm");
    reveal_strlit("bun");
    reveal_strlit("yarn");
    assert("npm"@.len() == 3 && "pnpm"@.len() == 4 && "bun"@.len() == 3 && "yarn"@.len() == 4);
    assert("npm"@[0] == 'n' && "bun"@[0] == 'b' && "pnpm"@[0] == 'p' && "yarn"@[0] == 'y');
}

/// A lockfile names a manager exactly when it is one of that manager's
/// expected lockfiles.
pub proof fn law_lockfile_manager_agrees(l: Seq<char>, m: PackageManager)
    ensures
        spec_manager_from_lockfile(l) == Some(m) <==> spec_expected_lockfiles(m).contains(l),
{
    reveal_strlit("package-lock.json");
    reveal_strlit("pnpm-lock.yaml");
    reveal_strlit("bun.lock");
    reveal_strlit("bun.lockb");
    reveal_strlit("yarn.lock");
    let a = "package-lock.json"@;
    let b = "pnpm-lock.yaml"@;
    let c = "bun.lock"@;
    let d = "bun.lockb"@;
    let e = "yarn.lock"@;
    assert(a.len() == 17 && b.len() == 14 && c.len() == 8 && d.len() == 9 && e.len() == 9);
    assert(d[0] == 'b' && e[0] == 'y');
    assert(a != b && a != c && a != d && a != e && b != c && b != d && b != e && c != d && c != e);
    assert(d != e);
    let ex = spec_expected_lockfiles(m);
    if ex.contains(l) {
        let k = choose|k: int| 0 <= k < ex.len() && ex[k] == l;
        match m {
            PackageManager::Bun => {
                assert(l == c || l == d);
            },
            _ => {
                assert(k == 0);
            },
        }
    }
    if spec_manager_from_lockfile(l) == Some(m) {
        match m {
            PackageManager::Bun => {
                if l == c {
                    assert(ex[0] == l);
                } else {
                    assert(ex[1] == l);
                }
            },
            _ => {
                assert(ex[0] == l);
            },
        }
    }
}

/// A recognized `packageManager` field selects its manager, whatever
/// lockfiles are present.
pub proof fn law_field_wins(field: Seq<char>, lockfiles: Seq<Seq<char>>)
    requires
        spec_parse_package_manager_field(field) is Some,
    ensures
        spec_selected_manager(Some(field), lockfiles) matches Some(c) && c.name
            == spec_parse_package_manager_field(field).unwrap().0 && c.selected_by
            == selected_by_field(),
{
}

/// Without a recognized field, the manager comes from the highest-precedence
/// lockfile present; two lockfile lists holding the same names give the
/// same choice.
pub proof fn law_lockfile_precedence(field: Option<Seq<char>>, a: Seq<Seq<char>>, b: Seq<Seq<char>>)
    requires
        field is None || spec_parse_package_manager_field(field.unwrap()) is None,
        a.to_set() == b.to_set(),
    ensures
        spec_selected_manager(field, a) == spec_selected_manager(field, b),
{
    lemma_first_candidate_by_set(precedence(), a, b);
}

proof fn lemma_first_candidate_by_set(
    cands: Seq<(Seq<char>, PackageManager)>,
    a: Seq<Seq<char>>,
    b: Seq<Seq<char>>,
)
    requires
        a.to_set() == b.to_set(),
    ensures
        first_candidate(cands, a) == first_candidate(cands, b),
    decreases cands.len(),
{
    if cands.len() > 0 {
        assert(a.contains(cands[0].0) == a.to_set().contains(cands[0].0));
        assert(b.contains(cands[0].0) == b.to_set().contains(cands[0].0));
        lemma_first_candidate_by_set(cands.drop_first(), a, b);
    }
}

proof fn lemma_first_present_by_set(expected: Seq<Seq<char>>, a: Seq<Seq<char>>, b: Seq<Seq<char>>)
    requires
        a.to_set() == b.to_set(),
    ensures
        first_present(expected, a) == first_present(expected, b),
    decreases expected.len(),
{
    if expected.len() > 0 {
        assert(a.contains(expected[0]) == a.to_set().contains(expected[0]));
        assert(b.contains(expected[0]) == b.to_set().contains(expected[0]));
        lemma_first_present_by_set(expected.drop_first(), a, b);
    }
}

/// The selected manager, its version, its lockfile and how it was selected
/// do not depend on the order in which the lockfiles were found: any
/// reordering (indeed any list naming the same files) gives the same choice.
pub proof fn law_selection_ignores_lockfile_order(field: Option<Seq<char>>, a: Seq<Seq<char>>, b: Seq<Seq<char>>)
    requires
        a.to_set() == b.to_set(),
    ensures
        spec_selected_manager(field, a) == spec_selected_manager(field, b),
{
    lemma_first_candidate_by_set(precedence(), a, b);
    match field {
        Some(f) => match spec_parse_package_manager_field(f) {
            Some((m, _)) => lemma_first_present_by_set(spec_expected_lockfiles(m), a, b),
            None => {},
        },
        None => {},
    }
}

/// Selection always reports at least one note on how it chose.
pub proof fn law_selection_explained(field: Option<Seq<char>>, lockfiles: Seq<Seq<char>>)
    ensures
        spec_selection_notes(field, lockfiles).len() >= 1,
{
}

/// The choice lockfile precedence makes: `m`, found by `file`.
pub open spec fn by_lockfile(m: PackageManager, file: Seq<char>) -> Option<ManagerChoice> {
    Some(ManagerChoice { name: m, version: None, lockfile: Some(file), selected_by: "lockfile precedence"@ })
}

/// Without a recognized `packageManager` field, the manager is the one of
/// the first lockfile present in the order `bun.lock`, `bun.lockb`,
/// `pnpm-lock.yaml`, `yarn.lock`, `package-lock.json`, selected by lockfile
/// precedence with that lockfile; with none of them present there is no
/// manager.
pub proof fn law_lockfile_precedence_order(field: Option<Seq<char>>, lockfiles: Seq<Seq<char>>)
    requires
        !(field matches Some(f) && spec_parse_package_manager_field(f) is Some),
    ensures
        lockfiles.contains("bun.lock"@) ==> spec_selected_manager(field, lockfiles) == by_lockfile(
            PackageManager::Bun,
            "bun.lock"@,
        ),
        !lockfiles.contains("bun.lock"@) && lockfiles.contains("bun.lockb"@) ==> spec_selected_manager(field, lockfiles)
            == by_lockfile(PackageManager::Bun, "bun.lockb"@),
        !lockfiles.contains("bun.lock"@) && !lockfiles.contains("bun.lockb"@) && lockfiles.contains("pnpm-lock.yaml"@)
            ==> spec_selected_manager(field, lockfiles) == by_lockfile(PackageManager::Pnpm, "pnpm-lock.yaml"@),
        !lockfiles.contains("bun.lock"@) && !lockfiles.contains("bun.lockb"@) && !lockfiles.contains("pnpm-lock.yaml"@)
            && lockfiles.contains("yarn.lock"@) ==> spec_selected_manager(field, lockfiles) == by_lockfile(
            PackageManager::Yarn,
            "yarn.lock"@,
        ),
        !lockfiles.contains("bun.lock"@) && !lockfiles.contains("bun.lockb"@) && !lockfiles.contains("pnpm-lock.yaml"@)
            && !lockfiles.contains("yarn.lock"@) && lockfiles.contains("package-lock.json"@) ==> spec_selected_manager(
            field,
            lockfiles,
        ) == by_lockfile(PackageManager::Npm, "package-lock.json"@),
        !lockfiles.contains("bun.lock"@) && !lockfiles.contains("bun.lockb"@) && !lockfiles.contains("pnpm-lock.yaml"@)
            && !lockfiles.contains("yarn.lock"@) && !lockfiles.contains("package-lock.json"@) ==> spec_selected_manager(
            field,
            lockfiles,
        ) is None,
{
    let p = precedence();
    assert(p.drop_first() =~= seq![
        ("bun.lockb"@, PackageManager::Bun),
        ("pnpm-lock.yaml"@, PackageManager::Pnpm),
        ("yarn.lock"@, PackageManager::Yarn),
        ("package-lock.json"@, PackageManager::Npm),
    ]);
    assert(p.drop_first().drop_first() =~= seq![
        ("pnpm-lock.yaml"@, PackageManager::Pnpm),
        ("yarn.lock"@, PackageManager::Yarn),
        ("package-lock.json"@, PackageManager::Npm),
    ]);
    assert(p.drop_first().drop_first().drop_first() =~= seq![
        ("yarn.lock"@, PackageManager::Yarn),
        ("package-lock.json"@, PackageManager::Npm),
    ]);
    assert(p.drop_first().drop_first().drop_first().drop_first() =~= seq![("package-lock.json"@, PackageManager::Npm)]);
    assert(p.drop_first().drop_first().drop_first().drop_first().drop_first() =~= Seq::<(Seq<char>, PackageManager)>::empty());
    reveal_with_fuel(first_candidate, 6);
}

/// The four JavaScript package managers are named `npm`, `pnpm`, `bun` and
/// `yarn`; each name is read back as its manager, and no other name is one.
pub proof fn law_manager_names(n: Seq<char>)
    ensures
        spec_manager_name(PackageManager::Npm) == "npm"@,
        spec_manager_name(PackageManager::Pnpm) == "pnpm"@,
        spec_manager_name(PackageManager::Bun) == "bun"@,
        spec_manager_name(PackageManager::Yarn) == "yarn"@,
        spec_parse_manager("npm"@) == Some(PackageManager::Npm),
        spec_parse_manager("pnpm"@) == Some(PackageManager::Pnpm),
        spec_parse_manager("bun"@) == Some(PackageManager::Bun),
        spec_parse_manager("yarn"@) == Some(PackageManager::Yarn),
        spec_parse_manager(n) is Some ==> n == "npm"@ || n == "pnpm"@ || n == "bun"@ || n == "yarn"@,
{
    law_manager_name_roundtrip(PackageManager::Npm);
    law_manager_name_roundtrip(PackageManager::Pnpm);
    law_manager_name_roundtrip(PackageManager::Bun);
    law_manager_name_roundtrip(PackageManager::Yarn);
}

/// Each JavaScript lockfile stands for its manager: `package-lock.json` for
/// npm, `pnpm-lock.yaml` for pnpm, `bun.lock` and `bun.lockb` for bun,
/// `yarn.lock` for yarn; no other file stands for one.
pub proof fn law_lockfile_managers(l: Seq<char>)
    ensures
        spec_manager_from_lockfile("package-lock.json"@) == Some(PackageManager::Npm),
        spec_manager_from_lockfile("pnpm-lock.yaml"@) == Some(PackageManager::Pnpm),
        spec_manager_from_lockfile("bun.lock"@) == Some(PackageManager::Bun),
        spec_manager_from_lockfile("bun.lockb"@) == Some(PackageManager::Bun),
        spec_manager_from_lockfile("yarn.lock"@) == Some(PackageManager::Yarn),
        !(l == "package-lock.json"@ || l == "pnpm-lock.yaml"@ || l == "bun.lock"@ || l == "bun.lockb"@ || l
            == "yarn.lock"@) ==> spec_manager_from_lockfile(l) is None,
{
    law_lockfile_manager_agrees("package-lock.json"@, PackageManager::Npm);
    law_lockfile_manager_agrees("pnpm-lock.yaml"@, PackageManager::Pnpm);
    law_lockfile_manager_agrees("bun.lock"@, PackageManager::Bun);
    law_lockfile_manager_agrees("bun.lockb"@, PackageManager::Bun);
    law_lockfile_manager_agrees("yarn.lock"@, PackageManager::Yarn);
    assert(spec_expected_lockfiles(PackageManager::Yarn)[0] == "yarn.lock"@);
    assert(spec_expected_lockfiles(PackageManager::Npm)[0] == "package-lock.json"@);
    assert(spec_expected_lockfiles(PackageManager::Pnpm)[0] == "pnpm-lock.yaml"@);
    assert(spec_expected_lockfiles(PackageManager::Bun)[0] == "bun.lock"@);
    assert(spec_expected_lockfiles(PackageManager::Bun)[1] == "bun.lockb"@);
}

/// A `packageManager` field `NAME@VERSION` (neither holding `@`) names the
/// manager called NAME, at VERSION; a bare `NAME` names it with no version;
/// a NAME that is no manager's gives nothing.
pub proof fn law_package_manager_field(n: Seq<char>, v: Seq<char>)
    requires
        n.len() > 0,
        forall|k: int| 0 <= k < n.len() ==> n[k] != '@',
        forall|k: int| 0 <= k < v.len() ==> v[k] != '@',
    ensures
        spec_parse_package_manager_field(n + "@"@ + v) == match spec_parse_manager(n) {
            Some(m) => Some((m, Some(v))),
            None => None,
        },
        spec_parse_package_manager_field(n) == match spec_parse_manager(n) {
            Some(m) => Some((m, None::<Seq<char>>)),
            None => None,
        },
{
    reveal_strlit("@");
    let s = n + "@"@ + v;
    assert(s[n.len() as int] == '@');
    assert forall|k: int| n.len() < k < s.len() implies s[k] != '@' by {
        assert(s[k] == v[k - n.len() - 1]);
    }
    crate::text::lemma_rfind_at(s, '@', n.len() as int);
    assert(s.take(n.len() as int) =~= n);
    assert(s.skip(n.len() as int + 1) =~= v);
    crate::text::lemma_rfind_none(n, '@');
}

} // verus!
