//! Where a project's configuration files are.

use vstd::prelude::*;
use vstd::string::StringExecFns;
use crate::text::chars_of;

verus! {

/// A directory joined with a relative file name, as paths are joined on Unix: a `/` is put
/// between them unless the directory is empty or already ends with one.
pub open spec fn path_join(dir: Seq<char>, name: Seq<char>) -> Seq<char> {
    if dir.len() == 0 || dir.last() == '/' {
        dir + name
    } else {
        dir + "/"@ + name
    }
}

/// The paths of a project's configuration file and schema file, from which its
/// configuration is read.
pub fn config_file_paths(path: &str) -> (r: (String, String))
    ensures
        r.0@ == path_join(path@, "config.hx.json"@),
        r.1@ == path_join(path@, "schema.hx"@),
{
    let chars = chars_of(path);
    let needs_separator = chars.len() > 0 && chars[chars.len() - 1] != '/';
    let mut config = path.to_owned();
    let mut schema = path.to_owned();
    if needs_separator {
        config.append("/");
        schema.append("/");
    }
    config.append("config.hx.json");
    schema.append("schema.hx");
    proof {
        if needs_separator {
            assert(config@ =~= path@ + "/"@ + "config.hx.json"@);
            assert(schema@ =~= path@ + "/"@ + "schema.hx"@);
        }
    }
    (config, schema)
}

} // verus!
