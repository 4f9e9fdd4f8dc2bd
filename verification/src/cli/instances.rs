//! The registry of local instances: look-ups, updates and removals on the list of
//! instances that the tool keeps on disk.

use vstd::prelude::*;
use crate::text::{
    chars_of, decimal, lemma_decimal_parses, parse_u16, parse_u16_spec, string_of, trim_matches,
    trim_matches_spec,
};

verus! {

/// One local instance of the database server.
pub struct InstanceInfo {
    pub short_id: u16,
    pub id: String,
    pub pid: u32,
    pub port: u16,
    pub started_at: String,
    pub available_endpoints: Vec<String>,
    pub binary_path: String,
    pub running: bool,
}

/// The abstract content of an instance record.
pub struct InstanceModel {
    pub short_id: u16,
    pub id: Seq<char>,
    pub pid: u32,
    pub port: u16,
    pub started_at: Seq<char>,
    pub available_endpoints: Seq<Seq<char>>,
    pub binary_path: Seq<char>,
    pub running: bool,
}

/// The characters of each string.
pub open spec fn strings_view(v: Seq<String>) -> Seq<Seq<char>> {
    v.map_values(|s: String| s@)
}

impl View for InstanceInfo {
    type V = InstanceModel;

    open spec fn view(&self) -> InstanceModel {
        InstanceModel {
            short_id: self.short_id,
            id: self.id@,
            pid: self.pid,
            port: self.port,
            started_at: self.started_at@,
            available_endpoints: strings_view(self.available_endpoints@),
            binary_path: self.binary_path@,
            running: self.running,
        }
    }
}

impl InstanceInfo {
    /// A copy of this record.
    pub fn duplicate(&self) -> (r: InstanceInfo)
        ensures
            r@ == self@,
    {
        let mut eps: Vec<String> = Vec::new();
        let mut i: usize = 0;
        while i < self.available_endpoints.len()
            invariant
                i <= self.available_endpoints@.len(),
                strings_view(eps@) == strings_view(self.available_endpoints@).take(i as int),
            decreases self.available_endpoints.len() - i,
        {
            let e = self.available_endpoints[i].clone();
            proof {
                assert(e@ == self.available_endpoints@[i as int]@);
                assert(strings_view(eps@.push(e)) =~= strings_view(eps@).push(e@));
                assert(strings_view(self.available_endpoints@).take(i as int + 1) =~= strings_view(
                    self.available_endpoints@,
                ).take(i as int).push(e@));
                assert(strings_view(eps@.push(e)) =~= strings_view(self.available_endpoints@).take(
                    i as int + 1,
                ));
            }
            eps.push(e);
            i = i + 1;
        }
        proof {
            assert(strings_view(self.available_endpoints@).take(
                self.available_endpoints@.len() as int,
            ) == strings_view(self.available_endpoints@));
        }
        InstanceInfo {
            short_id: self.short_id,
            id: self.id.clone(),
            pid: self.pid,
            port: self.port,
            started_at: self.started_at.clone(),
            available_endpoints: eps,
            binary_path: self.binary_path.clone(),
            running: self.running,
        }
    }
}

/// The records of a list of instances.
pub open spec fn instances_view(v: Seq<InstanceInfo>) -> Seq<InstanceModel> {
    v.map_values(|i: InstanceInfo| i@)
}

/// Where the tool keeps its files: the instance list, the cached binaries and the logs.
pub struct InstanceManager {
    pub instances_file: String,
    pub cache_dir: String,
    pub logs_dir: String,
}

/// Position of the first instance with the given short id.
pub open spec fn find_short_id(v: Seq<InstanceModel>, n: u16) -> Option<int>
    decreases v.len(),
{
    if v.len() == 0 {
        None
    } else {
        match find_short_id(v.drop_last(), n) {
            Some(k) => Some(k),
            None => if v.last().short_id == n {
                Some(v.len() - 1)
            } else {
                None
            },
        }
    }
}

/// Position of the first instance with the given id.
pub open spec fn find_id(v: Seq<InstanceModel>, id: Seq<char>) -> Option<int>
    decreases v.len(),
{
    if v.len() == 0 {
        None
    } else {
        match find_id(v.drop_last(), id) {
            Some(k) => Some(k),
            None => if v.last().id == id {
                Some(v.len() - 1)
            } else {
                None
            },
        }
    }
}

/// An id given by the user names an instance either by its number (its short id) or by
/// its full id. `None` when it is a number that no instance has.
pub open spec fn resolve_id(v: Seq<InstanceModel>, id: Seq<char>) -> Option<Seq<char>> {
    match parse_u16_spec(id) {
        Some(n) => match find_short_id(v, n) {
            Some(k) => Some(v[k].id),
            None => None,
        },
        None => Some(id),
    }
}

/// The message given when no instance has the requested number.
pub open spec fn no_instance_message(id: Seq<char>) -> Seq<char> {
    seq![
        'N', 'o', ' ', 'i', 'n', 's', 't', 'a', 'n', 'c', 'e', ' ', 'f', 'o', 'u', 'n', 'd', ' ',
        'w', 'i', 't', 'h', ' ', 'i', 'd', ' '
    ] + id
}

/// What [`InstanceManager::get_instance`] answers.
pub open spec fn get_instance_spec(v: Seq<InstanceModel>, id: Seq<char>) -> Result<
    Option<InstanceModel>,
    Seq<char>,
> {
    let t = trim_matches_spec(id, '"');
    match resolve_id(v, t) {
        None => Err(no_instance_message(t)),
        Some(full) => match find_id(v, full) {
            Some(k) => Ok(Some(v[k])),
            None => Ok(None),
        },
    }
}

/// What [`InstanceManager::delete_instance`] answers, and the list afterwards.
pub open spec fn delete_instance_spec(v: Seq<InstanceModel>, id: Seq<char>) -> (
    Result<bool, Seq<char>>,
    Seq<InstanceModel>,
) {
    match resolve_id(v, id) {
        None => (Err(no_instance_message(id)), v),
        Some(full) => match find_id(v, full) {
            Some(k) => (Ok(true), v.remove(k)),
            None => (Ok(false), v),
        },
    }
}

/// The list after [`InstanceManager::update_instance`]: the first record with the same id
/// is replaced, or the record is appended.
pub open spec fn update_instance_spec(v: Seq<InstanceModel>, u: InstanceModel) -> Seq<
    InstanceModel,
> {
    match find_id(v, u.id) {
        Some(k) => v.update(k, u),
        None => v.push(u),
    }
}

/// Whether some instance is running.
pub open spec fn any_running(v: Seq<InstanceModel>) -> bool {
    exists|k: int| 0 <= k < v.len() && #[trigger] v[k].running
}

/// What stopping the instance named by `id` does to the list: an unknown number is an
/// error; an unknown id, or an instance that is not running, changes nothing (`Ok(None)`);
/// otherwise the instance is recorded as stopped and its position is given. Surrounding
/// `"` are ignored in the id the instance is looked up by.
pub open spec fn stop_instance_spec(v: Seq<InstanceModel>, id: Seq<char>) -> (
    Result<Option<int>, Seq<char>>,
    Seq<InstanceModel>,
) {
    let target = match parse_u16_spec(id) {
        Some(n) => match find_short_id(v, n) {
            Some(k) => Some(trim_matches_spec(v[k].id, '"')),
            None => None,
        },
        None => Some(trim_matches_spec(id, '"')),
    };
    match target {
        None => (Err(no_instance_message(id)), v),
        Some(t) => match find_id(v, t) {
            None => (Ok(None), v),
            Some(p) => if !v[p].running {
                (Ok(None), v)
            } else {
                (Ok(Some(p)), v.update(p, InstanceModel { running: false, ..v[p] }))
            },
        },
    }
}

/// The number a new instance gets: one more than the number of instances, kept to 16 bits.
pub open spec fn next_short_id(len: nat) -> u16 {
    ((len + 1) % 65536) as u16
}

proof fn lemma_find_short_id(v: Seq<InstanceModel>, n: u16)
    ensures
        match find_short_id(v, n) {
            Some(k) => 0 <= k < v.len() && v[k].short_id == n && forall|j: int|
                0 <= j < k ==> v[j].short_id != n,
            None => forall|j: int| 0 <= j < v.len() ==> v[j].short_id != n,
        },
    decreases v.len(),
{
    if v.len() > 0 {
        lemma_find_short_id(v.drop_last(), n);
        assert forall|j: int| 0 <= j < v.len() - 1 implies v.drop_last()[j] == v[j] by {}
    }
}

/// The characterization of [`find_id`]: the first position holding the id.
pub proof fn lemma_find_id(v: Seq<InstanceModel>, id: Seq<char>)
    ensures
        match find_id(v, id) {
            Some(k) => 0 <= k < v.len() && v[k].id == id && forall|j: int|
                0 <= j < k ==> v[j].id != id,
            None => forall|j: int| 0 <= j < v.len() ==> v[j].id != id,
        },
    decreases v.len(),
{
    if v.len() > 0 {
        lemma_find_id(v.drop_last(), id);
        assert forall|j: int| 0 <= j < v.len() - 1 implies v.drop_last()[j] == v[j] by {}
    }
}

proof fn lemma_find_id_at(v: Seq<InstanceModel>, id: Seq<char>, k: int)
    requires
        0 <= k < v.len(),
        v[k].id == id,
        forall|j: int| 0 <= j < k ==> v[j].id != id,
    ensures
        find_id(v, id) == Some(k),
{
    lemma_find_id(v, id);
    match find_id(v, id) {
        Some(i) => {
            if i < k {
                assert(v[i].id != id);
            }
            if k < i {
                assert(v[k].id != id);
            }
        },
        None => {
            assert(v[k].id != id);
        },
    }
}

/// Position of the first instance with the given id, computed.
fn position_of_id(instances: &Vec<InstanceInfo>, id: &String) -> (r: Option<usize>)
    ensures
        match r {
            Some(k) => find_id(instances_view(instances@), id@) == Some(k as int) && k
                < instances@.len(),
            None => find_id(instances_view(instances@), id@) is None,
        },
{
    let ghost v = instances_view(instances@);
    let mut i: usize = 0;
    while i < instances.len()
        invariant
            i <= instances@.len(),
            v == instances_view(instances@),
            forall|j: int| 0 <= j < i ==> v[j].id != id@,
        decreases instances.len() - i,
    {
        if instances[i].id == *id {
            proof {
                lemma_find_id_at(v, id@, i as int);
            }
            return Some(i);
        }
        i = i + 1;
    }
    proof {
        lemma_find_id(v, id@);
        if find_id(v, id@) is Some {
            let k = find_id(v, id@)->0;
            assert(v[k].id != id@);
        }
    }
    None
}

/// The message text, computed.
fn no_instance_message_exec(id: &Vec<char>) -> (r: String)
    ensures
        r@ == no_instance_message(id@),
{
    let mut m = vec![
        'N', 'o', ' ', 'i', 'n', 's', 't', 'a', 'n', 'c', 'e', ' ', 'f', 'o', 'u', 'n', 'd', ' ',
        'w', 'i', 't', 'h', ' ', 'i', 'd', ' '
    ];
    let ghost prefix = m@;
    let mut i: usize = 0;
    while i < id.len()
        invariant
            i <= id@.len(),
            m@ == prefix + id@.take(i as int),
        decreases id.len() - i,
    {
        m.push(id[i]);
        proof {
            assert(id@.take(i as int + 1) == id@.take(i as int).push(id@[i as int]));
        }
        i = i + 1;
    }
    proof {
        assert(id@.take(id@.len() as int) == id@);
        assert(prefix == seq![
            'N', 'o', ' ', 'i', 'n', 's', 't', 'a', 'n', 'c', 'e', ' ', 'f', 'o', 'u', 'n', 'd', ' ',
            'w', 'i', 't', 'h', ' ', 'i', 'd', ' '
        ]);
    }
    string_of(&m)
}

impl InstanceManager {
    /// The instance that has the given short id, or an error when none has.
    fn id_from_short_id(&self, instances: &Vec<InstanceInfo>, n: u16) -> (r: Result<
        InstanceInfo,
        String,
    >)
        ensures
            match find_short_id(instances_view(instances@), n) {
                Some(k) => r matches Ok(i) && i@ == instances_view(instances@)[k],
                None => r is Err,
            },
    {
        let ghost v = instances_view(instances@);
        let mut i: usize = 0;
        while i < instances.len()
            invariant
                i <= instances@.len(),
                v == instances_view(instances@),
                forall|j: int| 0 <= j < i ==> v[j].short_id != n,
            decreases instances.len() - i,
        {
            if instances[i].short_id == n {
                proof {
                    lemma_find_short_id(v, n);
                    match find_short_id(v, n) {
                        Some(k) => {
                            if k < i {
                                assert(v[k].short_id != n);
                            }
                            if (i as int) < k {
                                assert(v[i as int].short_id == n);
                            }
                        },
                        None => {
                            assert(v[i as int].short_id == n);
                        },
                    }
                }
                return Ok(instances[i].duplicate());
            }
            i = i + 1;
        }
        proof {
            lemma_find_short_id(v, n);
            if find_short_id(v, n) is Some {
                let k = find_short_id(v, n)->0;
                assert(v[k].short_id != n);
            }
        }
        Err(string_of(&vec!['N', 'o', ' ', 'i', 'n', 's', 't', 'a', 'n', 'c', 'e', ' ', 'f', 'o', 'u', 'n', 'd']))
    }

    /// The full id that the user's id names (see [`resolve_id`]).
    fn resolve(&self, instances: &Vec<InstanceInfo>, id: &Vec<char>) -> (r: Option<String>)
        ensures
            match resolve_id(instances_view(instances@), id@) {
                Some(full) => r matches Some(s) && s@ == full,
                None => r is None,
            },
    {
        match parse_u16(id) {
            Some(n) => match self.id_from_short_id(instances, n) {
                Ok(info) => Some(info.id),
                Err(_) => None,
            },
            None => Some(string_of(id)),
        }
    }

    /// Looks an instance up by its number or its id; surrounding `"` are ignored.
    /// A number that no instance has is an error.
    pub fn get_instance(&self, instances: &Vec<InstanceInfo>, instance_id: &str) -> (r: Result<
        Option<InstanceInfo>,
        String,
    >)
        ensures
            match get_instance_spec(instances_view(instances@), instance_id@) {
                Ok(Some(m)) => r matches Ok(Some(i)) && i@ == m,
                Ok(None) => r matches Ok(None),
                Err(e) => r matches Err(s) && s@ == e,
            },
    {
        let raw = chars_of(instance_id);
        let t = trim_matches(&raw, '"');
        let ghost v = instances_view(instances@);
        match self.resolve(instances, &t) {
            None => Err(no_instance_message_exec(&t)),
            Some(full) => match position_of_id(instances, &full) {
                Some(k) => {
                    let d = instances[k].duplicate();
                    proof {
                        assert(v[k as int] == instances@[k as int]@);
                        assert(resolve_id(v, t@) == Some(full@));
                        assert(find_id(v, full@) == Some(k as int));
                    }
                    Ok(Some(d))
                },
                None => Ok(None),
            },
        }
    }

    /// Whether some instance is running.
    pub fn running_instances(&self, instances: &Vec<InstanceInfo>) -> (r: bool)
        ensures
            r == any_running(instances_view(instances@)),
    {
        let ghost v = instances_view(instances@);
        let mut i: usize = 0;
        while i < instances.len()
            invariant
                i <= instances@.len(),
                v == instances_view(instances@),
                forall|j: int| 0 <= j < i ==> !v[j].running,
            decreases instances.len() - i,
        {
            if instances[i].running {
                proof {
                    assert(v[i as int].running);
                }
                return true;
            }
            i = i + 1;
        }
        false
    }

    /// Removes the instance that the id names (by number or by id). `Ok(true)` when one
    /// was removed, `Ok(false)` when none has that id, an error when no instance has
    /// that number.
    pub fn delete_instance(&self, instances: &mut Vec<InstanceInfo>, instance_id: &str) -> (r:
        Result<bool, String>)
        ensures
            ({
                let (res, after) = delete_instance_spec(instances_view(old(instances)@), instance_id@);
                &&& instances_view(final(instances)@) == after
                &&& match res {
                    Ok(b) => r == Ok::<bool, String>(b),
                    Err(e) => r matches Err(s) && s@ == e,
                }
            }),
    {
        let id = chars_of(instance_id);
        match self.resolve(instances, &id) {
            None => Err(no_instance_message_exec(&id)),
            Some(full) => match position_of_id(instances, &full) {
                Some(k) => {
                    let ghost before = instances@;
                    instances.remove(k);
                    proof {
                        assert(instances_view(instances@) =~= instances_view(before).remove(
                            k as int,
                        ));
                    }
                    Ok(true)
                },
                None => Ok(false),
            },
        }
    }

    /// The full id that the user's id names: its number's id, or the id itself. An
    /// unknown number is an error.
    pub fn resolve_instance_id(&self, instances: &Vec<InstanceInfo>, instance_id: &str) -> (r:
        Result<String, String>)
        ensures
            match resolve_id(instances_view(instances@), instance_id@) {
                Some(full) => r matches Ok(s) && s@ == full,
                None => r matches Err(e) && e@ == no_instance_message(instance_id@),
            },
    {
        let id = chars_of(instance_id);
        match self.resolve(instances, &id) {
            Some(full) => Ok(full),
            None => Err(no_instance_message_exec(&id)),
        }
    }

    /// Records the instance that the id names (by number or by id) as stopped, when it is
    /// running, and gives its position so that its process can be ended and the list
    /// written back (see [`stop_instance_spec`]).
    pub fn stop_instance(&self, instances: &mut Vec<InstanceInfo>, instance_id: &str) -> (r:
        Result<Option<usize>, String>)
        ensures
            ({
                let (res, after) = stop_instance_spec(instances_view(old(instances)@), instance_id@);
                &&& instances_view(final(instances)@) == after
                &&& match res {
                    Ok(Some(p)) => r == Ok::<Option<usize>, String>(Some(p as usize)),
                    Ok(None) => r == Ok::<Option<usize>, String>(None),
                    Err(e) => r matches Err(s) && s@ == e,
                }
            }),
    {
        let raw = chars_of(instance_id);
        let ghost v = instances_view(instances@);
        let target: Vec<char> = match parse_u16(&raw) {
            Some(n) => match self.id_from_short_id(instances, n) {
                Ok(info) => {
                    let c = chars_of(info.id.as_str());
                    trim_matches(&c, '"')
                },
                Err(_) => {
                    return Err(no_instance_message_exec(&raw));
                },
            },
            None => trim_matches(&raw, '"'),
        };
        let t = string_of(&target);
        match position_of_id(instances, &t) {
            None => Ok(None),
            Some(p) => {
                if !instances[p].running {
                    return Ok(None);
                }
                let mut stopped = instances[p].duplicate();
                stopped.running = false;
                let ghost before = instances@;
                instances.set(p, stopped);
                proof {
                    assert(instances_view(instances@) =~= v.update(
                        p as int,
                        InstanceModel { running: false, ..v[p as int] },
                    ));
                }
                Ok(Some(p))
            },
        }
    }

    /// Records a newly started instance at the end of the list; its number is one more than
    /// the number of instances before it, and it is running.
    pub fn register_instance(
        &self,
        instances: &mut Vec<InstanceInfo>,
        id: String,
        pid: u32,
        port: u16,
        started_at: String,
        available_endpoints: Vec<String>,
        binary_path: String,
    ) -> (r: InstanceInfo)
        ensures
            r@ == (InstanceModel {
                short_id: next_short_id(old(instances)@.len()),
                id: id@,
                pid,
                port,
                started_at: started_at@,
                available_endpoints: strings_view(available_endpoints@),
                binary_path: binary_path@,
                running: true,
            }),
            instances_view(final(instances)@) == instances_view(old(instances)@).push(r@),
    {
        let n = instances.len();
        let short_id: u16 = if n < 65535 {
            (n + 1) as u16
        } else {
            ((n % 65536 + 1) % 65536) as u16
        };
        proof {
            assert(short_id == next_short_id(n as nat)) by (nonlinear_arith)
                requires
                    n < 65535 ==> short_id == n + 1,
                    n >= 65535 ==> short_id == (n % 65536 + 1) % 65536,
            ;
        }
        let record = InstanceInfo {
            short_id,
            id,
            pid,
            port,
            started_at,
            available_endpoints,
            binary_path,
            running: true,
        };
        let copy = record.duplicate();
        let ghost before = instances@;
        instances.push(copy);
        proof {
            assert(instances_view(instances@) =~= instances_view(before).push(record@));
        }
        record
    }

    /// Records a changed instance: the record with the same id is replaced, or the record
    /// is appended. The caller writes the list back.
    pub fn update_instance(&self, instances: &mut Vec<InstanceInfo>, updated: &InstanceInfo)
        ensures
            instances_view(final(instances)@) == update_instance_spec(
                instances_view(old(instances)@),
                updated@,
            ),
    {
        let ghost before = instances@;
        let copy = updated.duplicate();
        match position_of_id(instances, &updated.id) {
            Some(k) => {
                instances.set(k, copy);
                proof {
                    assert(instances_view(instances@) =~= instances_view(before).update(
                        k as int,
                        updated@,
                    ));
                }
            },
            None => {
                instances.push(copy);
                proof {
                    assert(instances_view(instances@) =~= instances_view(before).push(updated@));
                }
            },
        }
    }
}

/// Law: after recording an instance, looking it up by its id gives that record back,
/// for an id that is not a number and has no surrounding `"`.
pub proof fn law_get_after_update(v: Seq<InstanceModel>, u: InstanceModel)
    requires
        parse_u16_spec(u.id) is None,
        trim_matches_spec(u.id, '"') == u.id,
    ensures
        get_instance_spec(update_instance_spec(v, u), u.id) == Ok::<
            Option<InstanceModel>,
            Seq<char>,
        >(Some(u)),
{
    lemma_find_id(v, u.id);
    let w = update_instance_spec(v, u);
    match find_id(v, u.id) {
        Some(k) => {
            assert forall|j: int| 0 <= j < k implies w[j].id != u.id by {
                assert(w[j] == v[j]);
            }
            lemma_find_id_at(w, u.id, k);
        },
        None => {
            assert forall|j: int| 0 <= j < v.len() implies w[j].id != u.id by {
                assert(w[j] == v[j]);
            }
            lemma_find_id_at(w, u.id, v.len() as int);
        },
    }
}

/// Law: removing an instance by its id, when no other instance shares that id, leaves
/// no instance with that id; the id is not a number and has no surrounding `"`.
pub proof fn law_get_after_delete(v: Seq<InstanceModel>, id: Seq<char>)
    requires
        parse_u16_spec(id) is None,
        trim_matches_spec(id, '"') == id,
        forall|a: int, b: int|
            0 <= a < v.len() && 0 <= b < v.len() && v[a].id == id && v[b].id == id ==> a == b,
    ensures
        delete_instance_spec(v, id).0 is Ok,
        get_instance_spec(delete_instance_spec(v, id).1, id) == Ok::<
            Option<InstanceModel>,
            Seq<char>,
        >(None),
{
    lemma_find_id(v, id);
    let w = delete_instance_spec(v, id).1;
    lemma_find_id(w, id);
    match find_id(v, id) {
        Some(k) => {
            if let Some(m) = find_id(w, id) {
                if m < k {
                    assert(w[m] == v[m]);
                } else {
                    assert(w[m] == v[m + 1]);
                }
            }
        },
        None => {},
    }
}
/// Law: an instance can be named by its number or by its id, and both give its record,
/// when no earlier instance has the same number or the same id, and the id is neither a
/// number nor surrounded by `"`.
pub proof fn law_number_and_id_agree(v: Seq<InstanceModel>, k: int)
    requires
        0 <= k < v.len(),
        forall|j: int| 0 <= j < k ==> v[j].short_id != v[k].short_id,
        forall|j: int| 0 <= j < k ==> v[j].id != v[k].id,
        parse_u16_spec(v[k].id) is None,
        trim_matches_spec(v[k].id, '"') == v[k].id,
    ensures
        get_instance_spec(v, decimal(v[k].short_id as nat)) == Ok::<
            Option<InstanceModel>,
            Seq<char>,
        >(Some(v[k])),
        get_instance_spec(v, v[k].id) == Ok::<Option<InstanceModel>, Seq<char>>(Some(v[k])),
{
    lemma_decimal_parses(v[k].short_id);
    lemma_find_short_id(v, v[k].short_id);
    lemma_find_id_at(v, v[k].id, k);
    match find_short_id(v, v[k].short_id) {
        Some(i) => {
            if i < k {
                assert(v[i].short_id != v[k].short_id);
            }
            if i > k {
                assert(v[k].short_id != v[k].short_id);
            }
        },
        None => {
            assert(v[k].short_id != v[k].short_id);
        },
    }
}


/// Whether position `k` holds the first instance with number `n`.
pub open spec fn first_with_number(v: Seq<InstanceModel>, n: u16, k: int) -> bool {
    &&& 0 <= k < v.len()
    &&& v[k].short_id == n
    &&& forall|j: int| 0 <= j < k ==> v[j].short_id != n
}

/// Whether position `k` holds the first instance with id `id`.
pub open spec fn first_with_id(v: Seq<InstanceModel>, id: Seq<char>, k: int) -> bool {
    &&& 0 <= k < v.len()
    &&& v[k].id == id
    &&& forall|j: int| 0 <= j < k ==> v[j].id != id
}

/// Whether `id` is a number that no instance has.
pub open spec fn unknown_number(v: Seq<InstanceModel>, id: Seq<char>) -> bool {
    match parse_u16_spec(id) {
        Some(n) => forall|j: int| 0 <= j < v.len() ==> v[j].short_id != n,
        None => false,
    }
}

/// Whether `full` is the id that `id` names: the id of the first instance with that
/// number when `id` is a number, else `id` itself.
pub open spec fn names_id(v: Seq<InstanceModel>, id: Seq<char>, full: Seq<char>) -> bool {
    match parse_u16_spec(id) {
        Some(n) => exists|k: int| #[trigger] first_with_number(v, n, k) && v[k].id == full,
        None => full == id,
    }
}

proof fn lemma_resolve_id(v: Seq<InstanceModel>, id: Seq<char>)
    ensures
        resolve_id(v, id) is None <==> unknown_number(v, id),
        forall|full: Seq<char>| #[trigger] names_id(v, id, full) <==> resolve_id(v, id) == Some(full),
{
    lemma_find_short_id(v, match parse_u16_spec(id) { Some(n) => n, None => 0 });
    if let Some(n) = parse_u16_spec(id) {
        assert forall|full: Seq<char>| #[trigger] names_id(v, id, full) <==> resolve_id(v, id) == Some(full) by {
            if names_id(v, id, full) {
                let k = choose|k: int| #[trigger] first_with_number(v, n, k) && v[k].id == full;
                match find_short_id(v, n) {
                    Some(i) => {
                        if i < k {
                            assert(v[i].short_id != n);
                        }
                        if k < i {
                            assert(v[k].short_id != n);
                        }
                    },
                    None => {
                        assert(v[k].short_id != n);
                    },
                }
            }
            if resolve_id(v, id) == Some(full) {
                let i = find_short_id(v, n)->0;
                assert(first_with_number(v, n, i));
            }
        }
        if unknown_number(v, id) {
            if let Some(i) = find_short_id(v, n) {
                assert(v[i].short_id != n);
            }
        }
    }
}

proof fn lemma_first_with_id(v: Seq<InstanceModel>, id: Seq<char>)
    ensures
        forall|m: int| #[trigger] first_with_id(v, id, m) <==> find_id(v, id) == Some(m),
        find_id(v, id) is None <==> forall|j: int| 0 <= j < v.len() ==> v[j].id != id,
{
    lemma_find_id(v, id);
    assert forall|m: int| #[trigger] first_with_id(v, id, m) implies find_id(v, id) == Some(m) by {
        lemma_find_id_at(v, id, m);
    }
}

/// Law: looking an instance up, with surrounding `"` removed from the id, fails exactly
/// when the id is a number that no instance has; otherwise it gives the first instance
/// with the id that the number or the id names, or nothing when no instance has it.
pub proof fn law_get_instance(v: Seq<InstanceModel>, id: Seq<char>)
    ensures
        ({
            let t = trim_matches_spec(id, '"');
            let r = get_instance_spec(v, id);
            &&& r is Err <==> unknown_number(v, t)
            &&& unknown_number(v, t) ==> r == Err::<Option<InstanceModel>, Seq<char>>(
                no_instance_message(t),
            )
            &&& forall|full: Seq<char>, m: int|
                names_id(v, t, full) && #[trigger] first_with_id(v, full, m) ==> r == Ok::<
                    Option<InstanceModel>,
                    Seq<char>,
                >(Some(v[m]))
            &&& forall|full: Seq<char>|
                #[trigger] names_id(v, t, full) && (forall|j: int| 0 <= j < v.len() ==> v[j].id != full)
                    ==> r == Ok::<Option<InstanceModel>, Seq<char>>(None)
        }),
{
    let t = trim_matches_spec(id, '"');
    lemma_resolve_id(v, t);
    assert forall|full: Seq<char>, m: int|
        names_id(v, t, full) && #[trigger] first_with_id(v, full, m) implies get_instance_spec(v, id)
        == Ok::<Option<InstanceModel>, Seq<char>>(Some(v[m])) by {
        lemma_first_with_id(v, full);
    }
    assert forall|full: Seq<char>|
        #[trigger] names_id(v, t, full) && (forall|j: int| 0 <= j < v.len() ==> v[j].id != full)
        implies get_instance_spec(v, id) == Ok::<Option<InstanceModel>, Seq<char>>(None) by {
        lemma_first_with_id(v, full);
    }
}

/// Law: some instance is reported running exactly when one of the list is.
pub proof fn law_running_instances(v: Seq<InstanceModel>)
    ensures
        any_running(v) <==> exists|k: int| 0 <= k < v.len() && #[trigger] v[k].running,
{
}

/// Law: removing an instance fails, leaving the list as it was, exactly when the id is a
/// number that no instance has; otherwise it removes the first instance with the id that
/// the number or the id names and answers `true`, the others staying in order, or
/// answers `false` and leaves the list as it was when no instance has that id.
pub proof fn law_delete_instance(v: Seq<InstanceModel>, id: Seq<char>)
    ensures
        ({
            let (r, after) = delete_instance_spec(v, id);
            &&& r is Err <==> unknown_number(v, id)
            &&& unknown_number(v, id) ==> r == Err::<bool, Seq<char>>(no_instance_message(id))
                && after == v
            &&& forall|full: Seq<char>, m: int|
                names_id(v, id, full) && #[trigger] first_with_id(v, full, m) ==> r == Ok::<
                    bool,
                    Seq<char>,
                >(true) && after == v.remove(m)
            &&& forall|full: Seq<char>|
                #[trigger] names_id(v, id, full) && (forall|j: int| 0 <= j < v.len() ==> v[j].id != full)
                    ==> r == Ok::<bool, Seq<char>>(false) && after == v
        }),
{
    lemma_resolve_id(v, id);
    assert forall|full: Seq<char>, m: int| names_id(v, id, full) && #[trigger] first_with_id(v, full, m) implies delete_instance_spec(v, id).0 == Ok::<bool, Seq<char>>(true) && delete_instance_spec(v, id).1 == v.remove(m) by {
        lemma_first_with_id(v, full);
    }
    assert forall|full: Seq<char>|
        #[trigger] names_id(v, id, full) && (forall|j: int| 0 <= j < v.len() ==> v[j].id != full)
        implies delete_instance_spec(v, id).0 == Ok::<bool, Seq<char>>(false) && delete_instance_spec(v, id).1 == v by {
        lemma_first_with_id(v, full);
    }
}

} // verus!
