//! Which files of a project directory make up its Helix source.

use vstd::prelude::*;
use vstd::string::StringExecFns;
use crate::text::{chars_of, str_eq};

verus! {

/// Whether a file name ends with `.hx`.
pub open spec fn is_hx_name(s: Seq<char>) -> bool {
    s.len() >= 3 && s[s.len() - 3] == '.' && s[s.len() - 2] == 'h' && s[s.len() - 1] == 'x'
}

/// The positions of the `.hx` names among the first `n` names, in order.
pub open spec fn hx_positions(names: Seq<String>, n: nat) -> Seq<usize>
    decreases n,
{
    if n == 0 || n > names.len() {
        Seq::empty()
    } else if is_hx_name(names[n - 1]@) {
        hx_positions(names, (n - 1) as nat).push((n - 1) as usize)
    } else {
        hx_positions(names, (n - 1) as nat)
    }
}

/// Whether a name occurs among the file names.
pub open spec fn has_name(names: Seq<String>, name: Seq<char>) -> bool {
    exists|i: int| 0 <= i < names.len() && #[trigger] names[i]@ == name
}

/// Which files of a directory, given their names in the order the directory lists them,
/// are the project's source: the directory must hold `schema.hx` and `config.hx.json`,
/// and some `.hx` file other than the schema; the source is every `.hx` file, given by
/// its position, in order.
pub open spec fn source_files(names: Seq<String>) -> Result<Seq<usize>, Seq<char>> {
    if !has_name(names, "schema.hx"@) {
        Err("No schema file found"@)
    } else if !has_name(names, "config.hx.json"@) {
        Err("No config.hx.json file found"@)
    } else {
        let hx = hx_positions(names, names.len());
        if forall|k: int| 0 <= k < hx.len() ==> #[trigger] names[hx[k] as int]@ == "schema.hx"@ {
            Err("No query files (.hx) found"@)
        } else {
            Ok(hx)
        }
    }
}

fn names_contain(names: &Vec<String>, name: &str) -> (r: bool)
    ensures
        r == has_name(names@, name@),
{
    let mut i: usize = 0;
    while i < names.len()
        invariant
            i <= names@.len(),
            forall|j: int| 0 <= j < i ==> #[trigger] names@[j]@ != name@,
        decreases names.len() - i,
    {
        if str_eq(names[i].as_str(), name) {
            return true;
        }
        i = i + 1;
    }
    false
}

fn ends_with_hx(name: &str) -> (r: bool)
    ensures
        r == is_hx_name(name@),
{
    let c = chars_of(name);
    let n = c.len();
    n >= 3 && c[n - 3] == '.' && c[n - 2] == 'h' && c[n - 1] == 'x'
}

/// The positions of the source files among a directory's file names (see
/// [`source_files`]).
pub fn select_source_files(names: &Vec<String>) -> (r: Result<Vec<usize>, String>)
    ensures
        match source_files(names@) {
            Ok(files) => r matches Ok(v) && v@ == files,
            Err(e) => r matches Err(s) && s@ == e,
        },
{
    if !names_contain(names, "schema.hx") {
        return Err(String::from_str("No schema file found"));
    }
    if !names_contain(names, "config.hx.json") {
        return Err(String::from_str("No config.hx.json file found"));
    }
    let mut files: Vec<usize> = Vec::new();
    let mut has_queries = false;
    let mut i: usize = 0;
    while i < names.len()
        invariant
            i <= names@.len(),
            files@ == hx_positions(names@, i as nat),
            forall|k: int| 0 <= k < files@.len() ==> #[trigger] files@[k] < i,
            has_queries == exists|k: int|
                0 <= k < files@.len() && #[trigger] names@[files@[k] as int]@ != "schema.hx"@,
        decreases names.len() - i,
    {
        if ends_with_hx(names[i].as_str()) {
            let is_schema = str_eq(names[i].as_str(), "schema.hx");
            if !is_schema {
                has_queries = true;
            }
            let ghost before = files@;
            files.push(i);
            proof {
                let last = files@.len() - 1;
                assert(files@[last] == i);
                assert forall|j: int| 0 <= j < before.len() implies #[trigger] files@[j] == before[j] by {}
                if is_schema {
                    if exists|k: int| 0 <= k < files@.len() && #[trigger] names@[files@[k] as int]@ != "schema.hx"@ {
                        let k = choose|k: int|
                            0 <= k < files@.len() && #[trigger] names@[files@[k] as int]@ != "schema.hx"@;
                        assert(k < before.len());
                        assert(names@[before[k] as int]@ != "schema.hx"@);
                    }
                    if exists|k: int| 0 <= k < before.len() && #[trigger] names@[before[k] as int]@ != "schema.hx"@ {
                        let k = choose|k: int|
                            0 <= k < before.len() && #[trigger] names@[before[k] as int]@ != "schema.hx"@;
                        assert(names@[files@[k] as int]@ != "schema.hx"@);
                    }
                } else {
                    assert(names@[files@[last] as int]@ != "schema.hx"@);
                }
            }
        }
        i = i + 1;
    }
    if !has_queries {
        return Err(String::from_str("No query files (.hx) found"));
    }
    Ok(files)
}

} // verus!
