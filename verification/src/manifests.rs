//! Reading manifests: `package.json`, `pnpm-workspace.yaml` and the list
//! values of TOML manifests.
use vstd::prelude::*;

use crate::json::{as_str, get, json_from_text, json_get, json_str, parse_json_text, JsonValue};
use crate::maps::{is_sorted_map, map_insert, map_of};
use crate::model::{cli_error, names_view, strings_view, CliError, NameMap, PackageJsonData};
use crate::text::{
    concat, lines, lines_of, opt_view, split_char, split_char_chars, split_once, split_once_chars,
    starts_with, starts_with_chars, string_of, trim, trim_chars, trim_set, trim_set_chars, views,
};

verus! {

// ---------------------------------------------------------------------------
// package.json
// ---------------------------------------------------------------------------
/// The strings among `items`, in order.
pub open spec fn string_items(items: Seq<JsonValue>) -> Seq<Seq<char>>
    decreases items.len(),
{
    if items.len() == 0 {
        seq![]
    } else {
        let rest = string_items(items.drop_last());
        match items.last() {
            JsonValue::Str(s) => rest.push(s@),
            _ => rest,
        }
    }
}

/// The members of an object whose value is a string, as (name, string) pairs.
pub open spec fn string_members(ms: Seq<(String, JsonValue)>) -> Seq<(Seq<char>, Seq<char>)>
    decreases ms.len(),
{
    if ms.len() == 0 {
        seq![]
    } else {
        let rest = string_members(ms.drop_last());
        match ms.last().1 {
            JsonValue::Str(s) => rest.push((ms.last().0@, s@)),
            _ => rest,
        }
    }
}

/// The workspace globs: the strings of `workspaces` when it is an array,
/// else of `workspaces.packages` when that is an array.
pub open spec fn workspace_items(v: JsonValue) -> Seq<Seq<char>> {
    match json_get(v, "workspaces"@) {
        Some(JsonValue::Array(xs)) => string_items(xs@),
        Some(w) => match json_get(w, "packages"@) {
            Some(JsonValue::Array(xs)) => string_items(xs@),
            _ => seq![],
        },
        None => seq![],
    }
}

/// The string-valued members of the object under `key`, as a map.
pub open spec fn member_map(v: JsonValue, key: Seq<char>) -> Map<Seq<char>, Seq<char>> {
    match json_get(v, key) {
        Some(JsonValue::Object(ms)) => map_of(string_members(ms@)),
        _ => Map::empty(),
    }
}

/// `d` is what `package.json` holding the value `v` declares.
pub open spec fn package_json_of(d: PackageJsonData, v: JsonValue) -> bool {
    &&& opt_view(d.name) == json_str(json_get(v, "name"@))
    &&& opt_view(d.package_manager_field) == json_str(json_get(v, "packageManager"@))
    &&& d.has_workspaces == json_get(v, "workspaces"@) is Some
    &&& strings_view(d.workspace_packages) == workspace_items(v)
    &&& is_sorted_map(names_view(d.dependencies), member_map(v, "dependencies"@))
    &&& is_sorted_map(names_view(d.dev_dependencies), member_map(v, "devDependencies"@))
    &&& is_sorted_map(names_view(d.optional_dependencies), member_map(v, "optionalDependencies"@))
    &&& is_sorted_map(names_view(d.peer_dependencies), member_map(v, "peerDependencies"@))
    &&& is_sorted_map(names_view(d.scripts), member_map(v, "scripts"@))
}

fn string_items_of(items: &Vec<JsonValue>) -> (r: Vec<String>)
    ensures
        strings_view(r) == string_items(items@),
{
    let mut r: Vec<String> = Vec::new();
    let mut i: usize = 0;
    while i < items.len()
        invariant
            i <= items.len(),
            views(r@) == string_items(items@.take(i as int)),
        decreases items.len() - i,
    {
        assert(items@.take(i + 1).drop_last() =~= items@.take(i as int));
        match &items[i] {
            JsonValue::Str(s) => {
                r.push(s.clone());
                assert(views(r@) =~= string_items(items@.take(i as int)).push(s@));
            },
            _ => {},
        }
        i += 1;
    }
    assert(items@.take(items.len() as int) =~= items@);
    r
}

fn string_member_map(ms: &Vec<(String, JsonValue)>) -> (r: NameMap)
    ensures
        is_sorted_map(names_view(r), map_of(string_members(ms@))),
{
    let mut r: NameMap = Vec::new();
    let mut i: usize = 0;
    proof {
        assert(names_view(r) =~= seq![]);
        assert(map_of(seq![]) =~= Map::<Seq<char>, Seq<char>>::empty());
    }
    while i < ms.len()
        invariant
            i <= ms.len(),
            is_sorted_map(names_view(r), map_of(string_members(ms@.take(i as int)))),
        decreases ms.len() - i,
    {
        assert(ms@.take(i + 1).drop_last() =~= ms@.take(i as int));
        match &ms[i].1 {
            JsonValue::Str(s) => {
                let ghost pre = string_members(ms@.take(i as int));
                map_insert(&mut r, ms[i].0.clone(), s.clone());
                assert(string_members(ms@.take(i + 1)) == pre.push((ms@[i as int].0@, s@)));
                assert(pre.push((ms@[i as int].0@, s@)).drop_last() =~= pre);
            },
            _ => {},
        }
        i += 1;
    }
    assert(ms@.take(ms.len() as int) =~= ms@);
    r
}

fn read_map(v: &JsonValue, key: &str) -> (r: NameMap)
    ensures
        is_sorted_map(names_view(r), member_map(*v, key@)),
{
    match get(v, key) {
        Some(JsonValue::Object(ms)) => string_member_map(ms),
        _ => {
            let r: NameMap = Vec::new();
            assert(names_view(r) =~= seq![]);
            assert(map_of(seq![]) =~= Map::<Seq<char>, Seq<char>>::empty());
            r
        },
    }
}

fn copy_opt(o: Option<&String>) -> (r: Option<String>)
    ensures
        opt_view(r) == match o {
            Some(s) => Some(s@),
            None => None,
        },
{
    match o {
        Some(s) => Some(s.clone()),
        None => None,
    }
}

/// What a parsed `package.json` declares.
pub fn package_json_from_value(v: &JsonValue) -> (d: PackageJsonData)
    ensures
        package_json_of(d, *v),
{
    let name = copy_opt(as_str(get(v, "name")));
    let package_manager_field = copy_opt(as_str(get(v, "packageManager")));
    let workspaces = get(v, "workspaces");
    let has_workspaces = workspaces.is_some();
    let workspace_packages = match workspaces {
        Some(JsonValue::Array(xs)) => string_items_of(xs),
        Some(w) => match get(w, "packages") {
            Some(JsonValue::Array(xs)) => string_items_of(xs),
            _ => {
                let r: Vec<String> = Vec::new();
                assert(views(r@) =~= seq![]);
                r
            },
        },
        None => {
            let r: Vec<String> = Vec::new();
            assert(views(r@) =~= seq![]);
            r
        },
    };
    PackageJsonData {
        name,
        package_manager_field,
        has_workspaces,
        dependencies: read_map(v, "dependencies"),
        dev_dependencies: read_map(v, "devDependencies"),
        optional_dependencies: read_map(v, "optionalDependencies"),
        peer_dependencies: read_map(v, "peerDependencies"),
        scripts: read_map(v, "scripts"),
        workspace_packages,
    }
}

/// Parses the text of `package.json` (found at `path`). A text that is not
/// JSON is refused with exit code 1 and a message naming the file, followed
/// by the parser's own message.
pub fn read_package_json(path: &str, text: &str) -> (r: Result<PackageJsonData, CliError>)
    ensures
        match json_from_text(text@) {
            Ok(v) => r matches Ok(d) && package_json_of(d, v),
            Err(m) => r matches Err(e) && e.exit_code == 1 && e.message@ == "failed to parse "@ + path@
                + ": "@ + m,
        },
{
    match parse_json_text(text) {
        Ok(v) => Ok(package_json_from_value(&v)),
        Err(detail) => {
            let head = concat("failed to parse ", path);
            let head = concat(head.as_str(), ": ");
            let message = concat(head.as_str(), detail.as_str());
            Err(cli_error(message, 1))
        },
    }
}

// ---------------------------------------------------------------------------
// pnpm-workspace.yaml
// ---------------------------------------------------------------------------
/// The package glob a line of `pnpm-workspace.yaml` lists: the trimmed rest
/// of a trimmed line that starts with `- `, when that rest is not empty.
pub open spec fn pnpm_entry(line: Seq<char>) -> Option<Seq<char>> {
    let t = trim(line);
    if starts_with(t, seq!['-', ' ']) && trim(t.skip(2)).len() > 0 {
        Some(trim(t.skip(2)))
    } else {
        None
    }
}

pub open spec fn pnpm_entries(ls: Seq<Seq<char>>) -> Seq<Seq<char>>
    decreases ls.len(),
{
    if ls.len() == 0 {
        seq![]
    } else {
        let rest = pnpm_entries(ls.drop_last());
        match pnpm_entry(ls.last()) {
            Some(e) => rest.push(e),
            None => rest,
        }
    }
}

fn pnpm_entry_of(line: &[char]) -> (r: Option<String>)
    ensures
        opt_view(r) == pnpm_entry(line@),
{
    let t = trim_chars(line);
    let dash: [char; 2] = ['-', ' '];
    if starts_with_chars(t.as_slice(), dash.as_slice()) {
        assert(dash@ =~= seq!['-', ' ']);
        let rest = crate::text::subvec(t.as_slice(), 2, t.len());
        let v = trim_chars(rest.as_slice());
        assert(rest@ =~= t@.skip(2));
        if v.len() > 0 {
            return Some(string_of(v.as_slice()));
        }
        None
    } else {
        assert(dash@ =~= seq!['-', ' ']);
        None
    }
}

/// The package globs that `pnpm-workspace.yaml` lists, in order.
pub fn pnpm_workspace_packages(text: &str) -> (r: Vec<String>)
    ensures
        strings_view(r) == pnpm_entries(lines(text@)),
{
    let ls = lines_of(text);
    let ghost lv = ls@.map_values(|l: Vec<char>| l@);
    let mut r: Vec<String> = Vec::new();
    let mut i: usize = 0;
    while i < ls.len()
        invariant
            i <= ls.len(),
            lv == ls@.map_values(|l: Vec<char>| l@),
            lv == lines(text@),
            views(r@) == pnpm_entries(lv.take(i as int)),
        decreases ls.len() - i,
    {
        assert(lv.take(i + 1).drop_last() =~= lv.take(i as int));
        assert(lv.take(i + 1).last() == ls@[i as int]@);
        match pnpm_entry_of(ls[i].as_slice()) {
            Some(e) => {
                r.push(e);
                assert(views(r@) =~= pnpm_entries(lv.take(i as int)).push(r@.last()@));
            },
            None => {},
        }
        i += 1;
    }
    assert(lv.take(ls.len() as int) =~= lv);
    r
}

// ---------------------------------------------------------------------------
// TOML lists
// ---------------------------------------------------------------------------
pub open spec fn brackets() -> Seq<char> {
    seq!['[', ']']
}

/// A list item: trimmed, then stripped of double quotes, then of single quotes.
pub open spec fn list_item(p: Seq<char>) -> Seq<char> {
    trim_set(trim_set(trim(p), seq!['"']), seq!['\''])
}

/// The non-empty items among `ps`.
pub open spec fn list_items(ps: Seq<Seq<char>>) -> Seq<Seq<char>>
    decreases ps.len(),
{
    if ps.len() == 0 {
        seq![]
    } else {
        let rest = list_items(ps.drop_last());
        if list_item(ps.last()).len() > 0 {
            rest.push(list_item(ps.last()))
        } else {
            rest
        }
    }
}

/// The items of the value written after `=` on a line `key = [a, b]`.
pub open spec fn toml_line_list(t: Seq<char>) -> Seq<Seq<char>> {
    let value = match split_once(t, '=') {
        Some((_, v)) => trim_set(trim(v), brackets()),
        None => seq![],
    };
    list_items(split_char(value, ','))
}

/// The list `key = [...]` of the section named `want`, reading `ls` while in
/// the section named `section`; empty when no such line comes.
pub open spec fn toml_list_from(ls: Seq<Seq<char>>, section: Seq<char>, want: Seq<char>, key: Seq<char>) -> Seq<Seq<char>>
    decreases ls.len(),
{
    if ls.len() == 0 {
        seq![]
    } else {
        let t = trim(ls[0]);
        if t.len() > 0 && t[0] == '[' {
            toml_list_from(ls.drop_first(), trim_set(t, brackets()), want, key)
        } else if section == want && starts_with(t, key + seq![' ', '=']) {
            toml_line_list(t)
        } else {
            toml_list_from(ls.drop_first(), section, want, key)
        }
    }
}

/// The first list `key = [...]` in the section `section_name` of a TOML text.
pub open spec fn spec_toml_list(contents: Seq<char>, section_name: Seq<char>, key: Seq<char>) -> Seq<Seq<char>> {
    toml_list_from(lines(contents), seq![], trim_set(section_name, brackets()), key)
}

fn line_list(t: &[char]) -> (r: Vec<String>)
    ensures
        strings_view(r) == toml_line_list(t@),
{
    let br: [char; 2] = ['[', ']'];
    assert(br@ =~= brackets());
    let value: Vec<char> = match split_once_chars(t, '=') {
        Some((_, v)) => {
            let tv = trim_chars(v.as_slice());
            trim_set_chars(tv.as_slice(), br.as_slice())
        },
        None => Vec::new(),
    };
    assert(value@ =~= match split_once(t@, '=') {
        Some((_, v)) => trim_set(trim(v), brackets()),
        None => seq![],
    });
    let pieces = split_char_chars(value.as_slice(), ',');
    let ghost pv = pieces@.map_values(|l: Vec<char>| l@);
    let dq: [char; 1] = ['"'];
    let sq: [char; 1] = ['\''];
    assert(dq@ =~= seq!['"']);
    assert(sq@ =~= seq!['\'']);
    let mut r: Vec<String> = Vec::new();
    let mut i: usize = 0;
    while i < pieces.len()
        invariant
            i <= pieces.len(),
            pv == pieces@.map_values(|l: Vec<char>| l@),
            dq@ == seq!['"'],
            sq@ == seq!['\''],
            views(r@) == list_items(pv.take(i as int)),
        decreases pieces.len() - i,
    {
        assert(pv.take(i + 1).drop_last() =~= pv.take(i as int));
        assert(pv.take(i + 1).last() == pieces@[i as int]@);
        let a = trim_chars(pieces[i].as_slice());
        let b = trim_set_chars(a.as_slice(), dq.as_slice());
        let c = trim_set_chars(b.as_slice(), sq.as_slice());
        if c.len() > 0 {
            r.push(string_of(c.as_slice()));
            assert(views(r@) =~= list_items(pv.take(i as int)).push(c@));
        }
        i += 1;
    }
    assert(pv.take(pieces.len() as int) =~= pv);
    r
}

/// The list `key = [...]` of the first such line in the section
/// `section_name` (brackets optional) of a TOML text; empty if none.
pub fn parse_toml_list(contents: &str, section_name: &str, key: &str) -> (r: Vec<String>)
    ensures
        strings_view(r) == spec_toml_list(contents@, section_name@, key@),
{
    let br: [char; 2] = ['[', ']'];
    assert(br@ =~= brackets());
    let sn = crate::text::chars_of(section_name);
    let want = trim_set_chars(sn.as_slice(), br.as_slice());
    let mut prefix = crate::text::chars_of(key);
    prefix.push(' ');
    prefix.push('=');
    let ghost kv = key@;
    assert(prefix@ =~= kv + seq![' ', '=']);
    let ls = lines_of(contents);
    let ghost lv = ls@.map_values(|l: Vec<char>| l@);
    let mut section: Vec<char> = Vec::new();
    let mut i: usize = 0;
    assert(lv.skip(0) =~= lv);
    assert(section@ =~= seq![]);
    while i < ls.len()
        invariant
            i <= ls.len(),
            lv == ls@.map_values(|l: Vec<char>| l@),
            lv == lines(contents@),
            br@ == brackets(),
            want@ == trim_set(section_name@, brackets()),
            prefix@ == kv + seq![' ', '='],
            kv == key@,
            spec_toml_list(contents@, section_name@, key@) == toml_list_from(lv.skip(i as int), section@, want@, kv),
        decreases ls.len() - i,
    {
        let ghost rest = lv.skip(i as int);
        assert(rest[0] == ls@[i as int]@);
        assert(rest.drop_first() =~= lv.skip(i + 1));
        let t = trim_chars(ls[i].as_slice());
        if t.len() > 0 && t[0] == '[' {
            section = trim_set_chars(t.as_slice(), br.as_slice());
        } else if crate::text::chars_eq(section.as_slice(), want.as_slice())
            && starts_with_chars(t.as_slice(), prefix.as_slice()) {
            return line_list(t.as_slice());
        }
        i += 1;
    }
    Vec::new()
}

// ---------------------------------------------------------------------------
// Cargo.toml, read without cargo
// ---------------------------------------------------------------------------
/// The package name of a `Cargo.toml`: the value of the first line whose
/// text before `=` is `name` once trimmed, trimmed and stripped of quotes.
pub open spec fn manifest_name(ls: Seq<Seq<char>>) -> Option<Seq<char>>
    decreases ls.len(),
{
    if ls.len() == 0 {
        None
    } else {
        match split_once(ls[0], '=') {
            Some((k, v)) => if trim(k) == seq!['n', 'a', 'm', 'e'] {
                Some(trim_set(trim(v), seq!['"', '\'']))
            } else {
                manifest_name(ls.drop_first())
            },
            None => manifest_name(ls.drop_first()),
        }
    }
}

/// Whether some line of the text is `[workspace]` once trimmed.
pub open spec fn declares_workspace(ls: Seq<Seq<char>>) -> bool {
    exists|i: int| 0 <= i < ls.len() && trim(#[trigger] ls[i]) == seq!['[', 'w', 'o', 'r', 'k', 's', 'p', 'a', 'c', 'e', ']']
}

pub fn manifest_package_name(contents: &str) -> (r: Option<String>)
    ensures
        opt_view(r) == manifest_name(lines(contents@)),
{
    let ls = lines_of(contents);
    let ghost lv = ls@.map_values(|l: Vec<char>| l@);
    let name: [char; 4] = ['n', 'a', 'm', 'e'];
    let quotes: [char; 2] = ['"', '\''];
    assert(name@ =~= seq!['n', 'a', 'm', 'e']);
    assert(quotes@ =~= seq!['"', '\'']);
    let mut i: usize = 0;
    assert(lv.skip(0) =~= lv);
    while i < ls.len()
        invariant
            i <= ls.len(),
            lv == ls@.map_values(|l: Vec<char>| l@),
            lv == lines(contents@),
            name@ == seq!['n', 'a', 'm', 'e'],
            quotes@ == seq!['"', '\''],
            manifest_name(lines(contents@)) == manifest_name(lv.skip(i as int)),
        decreases ls.len() - i,
    {
        let ghost rest = lv.skip(i as int);
        assert(rest[0] == ls@[i as int]@);
        assert(rest.drop_first() =~= lv.skip(i + 1));
        match split_once_chars(ls[i].as_slice(), '=') {
            Some((k, v)) => {
                let tk = trim_chars(k.as_slice());
                if crate::text::chars_eq(tk.as_slice(), name.as_slice()) {
                    let tv = trim_chars(v.as_slice());
                    let value = trim_set_chars(tv.as_slice(), quotes.as_slice());
                    return Some(string_of(value.as_slice()));
                }
            },
            None => {},
        }
        i += 1;
    }
    None
}

pub fn manifest_declares_workspace(contents: &str) -> (r: bool)
    ensures
        r == declares_workspace(lines(contents@)),
{
    let ls = lines_of(contents);
    let ghost lv = ls@.map_values(|l: Vec<char>| l@);
    let ws: [char; 11] = ['[', 'w', 'o', 'r', 'k', 's', 'p', 'a', 'c', 'e', ']'];
    assert(ws@ =~= seq!['[', 'w', 'o', 'r', 'k', 's', 'p', 'a', 'c', 'e', ']']);
    let mut i: usize = 0;
    while i < ls.len()
        invariant
            i <= ls.len(),
            lv == ls@.map_values(|l: Vec<char>| l@),
            lv == lines(contents@),
            ws@ == seq!['[', 'w', 'o', 'r', 'k', 's', 'p', 'a', 'c', 'e', ']'],
            forall|k: int| 0 <= k < i ==> trim(#[trigger] lv[k]) != ws@,
        decreases ls.len() - i,
    {
        let t = trim_chars(ls[i].as_slice());
        assert(lv[i as int] == ls@[i as int]@);
        if crate::text::chars_eq(t.as_slice(), ws.as_slice()) {
            return true;
        }
        i += 1;
    }
    false
}

} // verus!
