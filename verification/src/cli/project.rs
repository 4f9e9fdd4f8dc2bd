//! A project's query files put together, the TypeScript interface text of its schema, and
//! the decisions of the search for a free port.

use vstd::prelude::*;
use vstd::string::StringExecFns;
use crate::generator::utils::{put, put_string};

verus! {

/// A query file: its path and its text.
pub struct HxFile {
    pub name: String,
    pub content: String,
}

/// A project's query files, one by one and as one text.
pub struct Content {
    pub content: String,
    pub files: Vec<HxFile>,
}

/// The texts of the files, joined with a newline between consecutive ones.
pub open spec fn joined_texts(fs: Seq<HxFile>) -> Seq<char>
    decreases fs.len(),
{
    if fs.len() == 0 {
        Seq::empty()
    } else if fs.len() == 1 {
        fs[0].content@
    } else {
        joined_texts(fs.drop_last()) + "\n"@ + fs.last().content@
    }
}

/// Puts the query files together: the files as given, and their texts joined with a
/// newline between consecutive ones.
pub fn generate_content(files: Vec<HxFile>) -> (r: Result<Content, String>)
    ensures
        r matches Ok(c) && c.files@ == files@ && c.content@ == joined_texts(files@),
{
    let mut s = String::new();
    let mut i: usize = 0;
    while i < files.len()
        invariant
            i <= files@.len(),
            s@ == joined_texts(files@.take(i as int)),
        decreases files.len() - i,
    {
        let ghost before = s@;
        if i > 0 {
            put(&mut s, "\n");
        }
        put_string(&mut s, &files[i].content);
        proof {
            let t = files@.take(i as int + 1);
            assert(t.drop_last() =~= files@.take(i as int));
            if i == 0 {
                assert(s@ =~= t[0].content@);
            } else {
                assert(s@ =~= joined_texts(t.drop_last()) + "\n"@ + t.last().content@);
            }
        }
        i = i + 1;
    }
    proof {
        assert(files@.take(files@.len() as int) =~= files@);
    }
    Ok(Content { content: s, files })
}

/// The texts, one after the other.
pub open spec fn concatenated(ts: Seq<String>) -> Seq<char>
    decreases ts.len(),
{
    if ts.len() == 0 {
        Seq::empty()
    } else {
        concatenated(ts.drop_last()) + ts.last()@
    }
}

fn append_all(s: &mut String, ts: &Vec<String>)
    ensures
        final(s)@ == old(s)@ + concatenated(ts@),
{
    let ghost start = s@;
    let mut i: usize = 0;
    while i < ts.len()
        invariant
            i <= ts@.len(),
            s@ == start + concatenated(ts@.take(i as int)),
        decreases ts.len() - i,
    {
        put_string(s, &ts[i]);
        proof {
            assert(ts@.take(i as int + 1).drop_last() =~= ts@.take(i as int));
            assert(s@ =~= start + concatenated(ts@.take(i as int + 1)));
        }
        i = i + 1;
    }
    proof {
        assert(ts@.take(ts@.len() as int) =~= ts@);
    }
}

/// The TypeScript interface file of a schema: the interface texts of its nodes, then of
/// its edges, then of its vectors.
pub fn typescript_interfaces(nodes: &Vec<String>, edges: &Vec<String>, vectors: &Vec<String>) -> (r:
    String)
    ensures
        r@ == concatenated(nodes@) + concatenated(edges@) + concatenated(vectors@),
{
    let mut s = String::new();
    append_all(&mut s, nodes);
    append_all(&mut s, edges);
    append_all(&mut s, vectors);
    proof {
        assert(s@ =~= concatenated(nodes@) + concatenated(edges@) + concatenated(vectors@));
    }
    s
}

/// What trying to listen on a port gave.
#[derive(Clone, Copy, Debug, PartialEq, Eq, Structural)]
pub enum BindResult {
    /// The port could be bound.
    Bound,
    /// Another listener has it.
    InUse,
    /// Binding failed for another reason.
    Failed,
}

/// What the search for a free port does next.
#[derive(Clone, Copy, Debug, PartialEq, Eq, Structural)]
pub enum PortStep {
    /// Try the same port on localhost.
    CheckLocalhost,
    /// The port is free.
    Found(u16),
    /// Try this port next.
    TryNext(u16),
    /// Stop: no port is found.
    GiveUp,
}

/// Whether the search probes `port`: every port below the highest one.
pub fn should_probe(port: u16) -> (r: bool)
    ensures
        r == (port < 65535),
{
    port < 65535
}

/// What comes after trying `port` on all interfaces: a bound port is then tried on
/// localhost; a port in use moves the search to the next port; any other failure ends it.
pub fn after_any_interface(port: u16, result: BindResult) -> (r: PortStep)
    requires
        port < 65535,
    ensures
        r == match result {
            BindResult::Bound => PortStep::CheckLocalhost,
            BindResult::InUse => PortStep::TryNext((port + 1) as u16),
            BindResult::Failed => PortStep::GiveUp,
        },
{
    match result {
        BindResult::Bound => PortStep::CheckLocalhost,
        BindResult::InUse => PortStep::TryNext(port + 1),
        BindResult::Failed => PortStep::GiveUp,
    }
}

/// What comes after trying `port` on localhost: a bound port is the answer; a port in use
/// moves the search to the next port; any other failure ends it.
pub fn after_localhost(port: u16, result: BindResult) -> (r: PortStep)
    requires
        port < 65535,
    ensures
        r == match result {
            BindResult::Bound => PortStep::Found(port),
            BindResult::InUse => PortStep::TryNext((port + 1) as u16),
            BindResult::Failed => PortStep::GiveUp,
        },
{
    match result {
        BindResult::Bound => PortStep::Found(port),
        BindResult::InUse => PortStep::TryNext(port + 1),
        BindResult::Failed => PortStep::GiveUp,
    }
}

} // verus!
