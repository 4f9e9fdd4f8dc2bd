//! The credentials file: `key=value` lines.

use vstd::prelude::*;
use vstd::string::StrSliceExecFns;
use crate::text::{
    all_ascii, ascii_lowercase, chars_eq, chars_of, lines, lines_spec, lowercase_of, parse_bool, parse_bool_spec, seqs_of,
    lemma_split_once, split_once, split_once_spec, string_of, to_lowercase,
};

verus! {

/// What the credentials file holds.
pub struct Credentials {
    pub key: Option<String>,
    pub user_id: Option<String>,
    pub metrics: Option<bool>,
}

/// The characters of an optional string.
pub open spec fn opt_chars(o: Option<String>) -> Option<Seq<char>> {
    match o {
        Some(s) => Some(s@),
        None => None,
    }
}

/// The abstract content of credentials: key, user id, metrics flag.
pub type CredentialsModel = (Option<Seq<char>>, Option<Seq<char>>, Option<bool>);

impl View for Credentials {
    type V = CredentialsModel;

    open spec fn view(&self) -> CredentialsModel {
        (opt_chars(self.key), opt_chars(self.user_id), self.metrics)
    }
}

/// Key of the user's API key line.
pub open spec fn user_key_name() -> Seq<char> {
    seq!['h', 'e', 'l', 'i', 'x', '_', 'u', 's', 'e', 'r', '_', 'k', 'e', 'y']
}

/// Key of the user id line.
pub open spec fn user_id_name() -> Seq<char> {
    seq!['h', 'e', 'l', 'i', 'x', '_', 'u', 's', 'e', 'r', '_', 'i', 'd']
}

/// Key of the metrics line.
pub open spec fn metrics_name() -> Seq<char> {
    seq!['m', 'e', 't', 'r', 'i', 'c', 's']
}

/// The effect of one line on the credentials read so far; `None` when the line is a
/// `metrics` line whose value is not a boolean.
pub open spec fn credentials_step(acc: Option<CredentialsModel>, line: Seq<char>) -> Option<
    CredentialsModel,
> {
    match acc {
        None => None,
        Some((k, u, m)) => match split_once_spec(line, '=') {
            None => Some((k, u, m)),
            Some((key, value)) => {
                let lk = lowercase_of(key);
                if lk == user_key_name() {
                    Some((Some(value), u, m))
                } else if lk == user_id_name() {
                    Some((k, Some(value), m))
                } else if lk == metrics_name() {
                    match parse_bool_spec(value) {
                        Some(b) => Some((k, u, Some(b))),
                        None => None,
                    }
                } else {
                    Some((k, u, m))
                }
            },
        },
    }
}

/// The credentials given by a sequence of lines, read in order (a later line wins).
pub open spec fn credentials_of_lines(ls: Seq<Seq<char>>) -> Option<CredentialsModel>
    decreases ls.len(),
{
    if ls.len() == 0 {
        Some((None, None, None))
    } else {
        credentials_step(credentials_of_lines(ls.drop_last()), ls.last())
    }
}

/// The credentials in a file's text; `None` when a `metrics` value is not a boolean.
pub open spec fn credentials_spec(creds: Seq<char>) -> Option<CredentialsModel> {
    credentials_of_lines(lines_spec(creds))
}

/// The value of the first line whose key is `helix_user_key` (in any letter case).
pub open spec fn key_of_lines(ls: Seq<Seq<char>>) -> Option<Seq<char>>
    decreases ls.len(),
{
    if ls.len() == 0 {
        None
    } else {
        match key_of_lines(ls.drop_last()) {
            Some(v) => Some(v),
            None => match split_once_spec(ls.last(), '=') {
                Some((key, value)) => if lowercase_of(key) == user_key_name() {
                    Some(value)
                } else {
                    None
                },
                None => None,
            },
        }
    }
}

fn name_is(lk: &Vec<char>, which: u8) -> (r: bool)
    requires
        which < 3,
    ensures
        which == 0 ==> r == (lk@ == user_key_name()),
        which == 1 ==> r == (lk@ == user_id_name()),
        which == 2 ==> r == (lk@ == metrics_name()),
{
    let name: Vec<char> = if which == 0 {
        vec!['h', 'e', 'l', 'i', 'x', '_', 'u', 's', 'e', 'r', '_', 'k', 'e', 'y']
    } else if which == 1 {
        vec!['h', 'e', 'l', 'i', 'x', '_', 'u', 's', 'e', 'r', '_', 'i', 'd']
    } else {
        vec!['m', 'e', 't', 'r', 'i', 'c', 's']
    };
    proof {
        if which == 0 {
            assert(name@ == user_key_name());
        } else if which == 1 {
            assert(name@ == user_id_name());
        } else {
            assert(name@ == metrics_name());
        }
    }
    chars_eq(lk, &name)
}

/// The lower-case form of a key.
fn lower_key(key: &Vec<char>) -> (r: Vec<char>)
    ensures
        r@ == lowercase_of(key@),
        all_ascii(key@) ==> r@ == ascii_lowercase(key@),
{
    let ks = string_of(key);
    let lower = to_lowercase(ks.as_str());
    chars_of(lower.as_str())
}

/// Reads the credentials; `None` where a `metrics` value is not `true` or `false`.
fn read_credentials(creds: &str) -> (r: Option<Credentials>)
    ensures
        match r {
            Some(c) => credentials_spec(creds@) == Some(c@),
            None => credentials_spec(creds@) is None,
        },
{
    let (ls, _starts) = lines(creds);
    let mut c = Credentials { key: None, user_id: None, metrics: None };
    let mut i: usize = 0;
    proof {
        assert(seqs_of(ls@).take(0) =~= Seq::<Seq<char>>::empty());
    }
    while i < ls.len()
        invariant
            i <= ls@.len(),
            seqs_of(ls@) == lines_spec(creds@),
            credentials_of_lines(seqs_of(ls@).take(i as int)) == Some(c@),
        decreases ls.len() - i,
    {
        proof {
            assert(seqs_of(ls@).take(i as int + 1).drop_last() == seqs_of(ls@).take(i as int));
            assert(seqs_of(ls@).take(i as int + 1).last() == ls@[i as int]@);
        }
        match split_once(&ls[i], '=') {
            Some((key, value)) => {
                let lk = lower_key(&key);
                if name_is(&lk, 0) {
                    c.key = Some(string_of(&value));
                } else if name_is(&lk, 1) {
                    c.user_id = Some(string_of(&value));
                } else if name_is(&lk, 2) {
                    match parse_bool(&value) {
                        Some(b) => {
                            c.metrics = Some(b);
                        },
                        None => {
                            proof {
                                lemma_failed_prefix_stays_failed(seqs_of(ls@), i as int + 1);
                                assert(seqs_of(ls@).take(seqs_of(ls@).len() as int) == seqs_of(
                                    ls@,
                                ));
                            }
                            return None;
                        },
                    }
                }
            },
            None => {},
        }
        i = i + 1;
    }
    proof {
        assert(seqs_of(ls@).take(ls@.len() as int) == seqs_of(ls@));
    }
    Some(c)
}

proof fn lemma_failed_prefix_stays_failed(ls: Seq<Seq<char>>, i: int)
    requires
        0 <= i <= ls.len(),
        credentials_of_lines(ls.take(i)) is None,
    ensures
        forall|j: int| i <= j <= ls.len() ==> credentials_of_lines(#[trigger] ls.take(j)) is None,
    decreases ls.len() - i,
{
    if i < ls.len() {
        assert(ls.take(i + 1).drop_last() == ls.take(i));
        lemma_failed_prefix_stays_failed(ls, i + 1);
        assert forall|j: int| i <= j <= ls.len() implies credentials_of_lines(
            #[trigger] ls.take(j),
        ) is None by {
            if j == i {
            }
        }
    }
}

/// Whether every `metrics` line of the credentials text holds a boolean, so that
/// [`parse_credentials`] accepts the text.
pub fn credentials_are_readable(creds: &str) -> (r: bool)
    ensures
        r == credentials_spec(creds@) is Some,
{
    read_credentials(creds).is_some()
}

/// Parses the credentials file: `key=value` lines, where the key is compared in lower
/// case. The last `helix_user_key`, `helix_user_id` and `metrics` lines win; other lines
/// are ignored. A `metrics` value that is not a boolean is not accepted.
pub fn parse_credentials(creds: &str) -> (r: Credentials)
    requires
        credentials_spec(creds@) is Some,
    ensures
        Some(r@) == credentials_spec(creds@),
{
    match read_credentials(creds) {
        Some(c) => c,
        None => Credentials { key: None, user_id: None, metrics: None },
    }
}

/// Parses the credentials file, or `None` where a `metrics` value is not a boolean.
pub fn try_parse_credentials(creds: &str) -> (r: Option<Credentials>)
    ensures
        match r {
            Some(c) => credentials_spec(creds@) == Some(c@),
            None => credentials_spec(creds@) is None,
        },
{
    if credentials_are_readable(creds) {
        Some(parse_credentials(creds))
    } else {
        None
    }
}

/// Returns the value of the first `helix_user_key` line (key in any letter case), if any.
pub fn parse_key_from_creds(creds: &str) -> (r: Option<&str>)
    ensures
        match key_of_lines(lines_spec(creds@)) {
            Some(v) => r matches Some(x) && x@ == v,
            None => r is None,
        },
{
    let (ls, starts) = lines(creds);
    let mut i: usize = 0;
    proof {
        assert(seqs_of(ls@).take(0) =~= Seq::<Seq<char>>::empty());
    }
    while i < ls.len()
        invariant
            i <= ls@.len(),
            starts@.len() == ls@.len(),
            seqs_of(ls@) == lines_spec(creds@),
            forall|k: int|
                0 <= k < ls@.len() ==> starts@[k] + ls@[k]@.len() <= creds@.len() && ls@[k]@
                    == creds@.subrange(starts@[k] as int, starts@[k] + ls@[k]@.len()),
            key_of_lines(seqs_of(ls@).take(i as int)) is None,
            creds@.len() <= usize::MAX,
        decreases ls.len() - i,
    {
        proof {
            assert(seqs_of(ls@).take(i as int + 1).drop_last() == seqs_of(ls@).take(i as int));
            assert(seqs_of(ls@).take(i as int + 1).last() == ls@[i as int]@);
        }
        match split_once(&ls[i], '=') {
            Some((key, value)) => {
                let lk = lower_key(&key);
                if name_is(&lk, 0) {
                    proof {
                        lemma_split_once(ls@[i as int]@, '=');
                        assert(seqs_of(ls@)[i as int] == ls@[i as int]@);
                    }
                    let from = starts[i] + key.len() + 1;
                    let to = starts[i] + ls[i].len();
                    proof {
                        lemma_key_first(seqs_of(ls@), i as int + 1);
                        assert(seqs_of(ls@).take(seqs_of(ls@).len() as int) == seqs_of(ls@));
                        let line = ls@[i as int]@;
                        assert(value@ =~= line.subrange((key@.len() + 1) as int, line.len() as int));
                        assert(line == creds@.subrange(
                            starts@[i as int] as int,
                            starts@[i as int] + line.len(),
                        ));
                        assert(value@ =~= creds@.subrange(from as int, to as int));
                    }
                    return Some(creds.substring_char(from, to));
                }
            },
            None => {},
        }
        i = i + 1;
    }
    proof {
        assert(seqs_of(ls@).take(ls@.len() as int) == seqs_of(ls@));
    }
    None
}

proof fn lemma_key_first(ls: Seq<Seq<char>>, i: int)
    requires
        0 <= i <= ls.len(),
    ensures
        forall|j: int|
            i <= j <= ls.len() ==> #[trigger] key_of_lines(ls.take(j)) == key_of_lines(ls.take(i))
                || key_of_lines(ls.take(i)) is None,
    decreases ls.len() - i,
{
    if i < ls.len() {
        assert(ls.take(i + 1).drop_last() == ls.take(i));
        lemma_key_first(ls, i + 1);
    }
}

/// Whether a line sets the user key.
pub open spec fn is_key_line(line: Seq<char>) -> bool {
    split_once_spec(line, '=') matches Some((key, _)) && lowercase_of(key) == user_key_name()
}

/// The user key part of parsed credentials.
pub open spec fn key_part(c: Option<CredentialsModel>) -> Option<Seq<char>> {
    match c {
        Some(m) => m.0,
        None => None,
    }
}

proof fn lemma_key_seen_by_fold(ls: Seq<Seq<char>>)
    requires
        key_of_lines(ls) is Some,
        credentials_of_lines(ls) is Some,
    ensures
        key_part(credentials_of_lines(ls)) is Some,
    decreases ls.len(),
{
    if ls.len() > 0 {
        if key_of_lines(ls.drop_last()) is Some && credentials_of_lines(ls.drop_last()) is Some {
            lemma_key_seen_by_fold(ls.drop_last());
        }
    }
}

proof fn lemma_single_key_agrees(ls: Seq<Seq<char>>, k: int)
    requires
        0 <= k < ls.len(),
        is_key_line(ls[k]),
        forall|j: int|
            0 <= j < ls.len() && j != k ==> !is_key_line(#[trigger] ls[j]),
        credentials_of_lines(ls) is Some,
    ensures
        key_part(credentials_of_lines(ls)) == key_of_lines(ls),
    decreases ls.len(),
{
    let p = ls.drop_last();
    if k < ls.len() - 1 {
        assert forall|j: int|
            0 <= j < p.len() && j != k implies !is_key_line(#[trigger] p[j]) by {
            assert(p[j] == ls[j]);
        }
        assert(p[k] == ls[k]);
        lemma_single_key_agrees(p, k);
    } else {
        lemma_no_key_line(p);
    }
}

proof fn lemma_no_key_line(ls: Seq<Seq<char>>)
    requires
        forall|j: int|
            0 <= j < ls.len() ==> !is_key_line(#[trigger] ls[j]),
    ensures
        key_of_lines(ls) is None,
        credentials_of_lines(ls) is Some ==> key_part(credentials_of_lines(ls)) is None,
    decreases ls.len(),
{
    if ls.len() > 0 {
        let p = ls.drop_last();
        assert forall|j: int|
            0 <= j < p.len() implies !is_key_line(#[trigger] p[j]) by {
            assert(p[j] == ls[j]);
        }
        lemma_no_key_line(p);
        assert(ls.last() == ls[ls.len() - 1]);
    }
}

/// Law: whenever [`parse_key_from_creds`] finds a user key, [`parse_credentials`] also
/// reports a user key; and when exactly one line holds the user key, both report the
/// same value.
pub proof fn law_key_lookups_agree(creds: Seq<char>)
    requires
        credentials_spec(creds) is Some,
    ensures
        key_of_lines(lines_spec(creds)) is Some ==> key_part(credentials_spec(creds)) is Some,
        (exists|k: int|
            0 <= k < lines_spec(creds).len() && is_key_line(#[trigger] lines_spec(creds)[k]) && (
            forall|j: int|
                0 <= j < lines_spec(creds).len() && j != k ==> !is_key_line(
                    #[trigger] lines_spec(creds)[j],
                ))) ==> key_part(credentials_spec(creds)) == key_of_lines(lines_spec(creds)),
{
    let ls = lines_spec(creds);
    if key_of_lines(ls) is Some {
        lemma_key_seen_by_fold(ls);
    }
    if exists|k: int|
        0 <= k < ls.len() && is_key_line(#[trigger] ls[k]) && (forall|j: int|
            0 <= j < ls.len() && j != k ==> !is_key_line(#[trigger] ls[j])) {
        let k = choose|k: int|
            0 <= k < ls.len() && is_key_line(#[trigger] ls[k]) && (forall|j: int|
                0 <= j < ls.len() && j != k ==> !is_key_line(#[trigger] ls[j]));
        lemma_single_key_agrees(ls, k);
    }
}

} // verus!
