//! Whether the installed Rust toolchain is recent enough.

use vstd::prelude::*;
use crate::text::{chars_of, parse_u32, parse_u32_spec, pieces, seqs_of, split_chars, split_words, words};

verus! {

/// The numbers among the pieces of a version, in order; pieces that are not numbers are
/// skipped.
pub open spec fn version_numbers(ps: Seq<Seq<char>>) -> Seq<u32>
    decreases ps.len(),
{
    if ps.len() == 0 {
        Seq::empty()
    } else {
        let rest = version_numbers(ps.drop_last());
        match parse_u32_spec(ps.last()) {
            Some(n) => rest.push(n),
            None => rest,
        }
    }
}

/// What `cargo --version` printed says about the toolchain: its second word (or `0.0.0`
/// when there is none), up to the first `-`, is split at each `.`; the numbers among the
/// pieces must be at least two, the first at least 1 and the second at least 88.
pub open spec fn cargo_version_supported(output: Seq<char>) -> bool {
    let ws = words(output);
    let version = if ws.len() >= 2 {
        ws[1]
    } else {
        "0.0.0"@
    };
    let core = pieces(version, '-')[0];
    let numbers = version_numbers(pieces(core, '.'));
    numbers.len() >= 2 && numbers[0] >= 1 && numbers[1] >= 88
}

/// Whether the output of `cargo --version` names a toolchain recent enough (see
/// [`cargo_version_supported`]).
pub fn cargo_version_ok(output: &str) -> (r: bool)
    ensures
        r == cargo_version_supported(output@),
{
    let chars = chars_of(output);
    let ws = split_words(&chars);
    let fallback = chars_of("0.0.0");
    let version: &Vec<char> = if ws.len() >= 2 {
        &ws[1]
    } else {
        &fallback
    };
    proof {
        if ws@.len() >= 2 {
            assert(seqs_of(ws@)[1] == ws@[1]@);
        }
    }
    let dash = split_chars(version, '-');
    proof {
        assert(seqs_of(dash@)[0] == dash@[0]@);
    }
    let dots = split_chars(&dash[0], '.');
    let mut numbers: Vec<u32> = Vec::new();
    let mut i: usize = 0;
    while i < dots.len()
        invariant
            i <= dots@.len(),
            numbers@ == version_numbers(seqs_of(dots@).take(i as int)),
        decreases dots.len() - i,
    {
        proof {
            assert(seqs_of(dots@).take(i as int + 1).drop_last() =~= seqs_of(dots@).take(i as int));
            assert(seqs_of(dots@).take(i as int + 1).last() == dots@[i as int]@);
        }
        match parse_u32(&dots[i]) {
            Some(n) => numbers.push(n),
            None => {},
        }
        i = i + 1;
    }
    proof {
        assert(seqs_of(dots@).take(dots@.len() as int) =~= seqs_of(dots@));
    }
    numbers.len() >= 2 && numbers[0] >= 1 && numbers[1] >= 88
}

} // verus!
