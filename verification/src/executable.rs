//! The exact-version check of a target package manager's executable: the
//! arguments of its version probe, the version tokens in what the probe
//! printed, and whether the required version is among them. Locating the
//! executable and running the probe happen outside.
use vstd::prelude::*;
use crate::model::{ExecutableRequirement, ResolvedExecutable};
use crate::text::{chars_of, is_ascii_alnum, is_ascii_digit, is_ascii_alnum_exec, push_str, string_of, strs, texts, words, words_exec};

verus! {

/// A character that may stand at either end of a version token.
pub open spec fn token_char(c: char) -> bool {
    is_ascii_alnum(c) || c == '.' || c == '-' || c == '+' || c == '_'
}

pub open spec fn drop_front(t: Seq<char>) -> Seq<char>
    decreases t.len(),
{
    if t.len() > 0 && !token_char(t[0]) {
        drop_front(t.drop_first())
    } else {
        t
    }
}

pub open spec fn drop_back(t: Seq<char>) -> Seq<char>
    decreases t.len(),
{
    if t.len() > 0 && !token_char(t.last()) {
        drop_back(t.drop_last())
    } else {
        t
    }
}

/// A whitespace-separated word with other characters trimmed from its ends
/// and one leading `v` removed.
pub open spec fn version_token(w: Seq<char>) -> Seq<char> {
    let t = drop_back(drop_front(w));
    if t.len() > 0 && t[0] == 'v' {
        t.drop_first()
    } else {
        t
    }
}

pub open spec fn starts_with_digit(t: Seq<char>) -> bool {
    t.len() > 0 && is_ascii_digit(t[0])
}

/// The version tokens of a probe's output: the words, as `version_token`
/// makes them, that start with a digit.
pub open spec fn version_tokens_spec(output: Seq<char>) -> Seq<Seq<char>> {
    words(output).map_values(|w: Seq<char>| version_token(w)).filter(|t: Seq<char>| starts_with_digit(t))
}

fn token_of(w: &Vec<char>) -> (r: Vec<char>)
    ensures
        r@ == version_token(w@),
{
    let mut start: usize = 0;
    assert(w@.skip(0) =~= w@);
    while start < w.len() && !(is_ascii_alnum_exec(w[start]) || w[start] == '.' || w[start] == '-' || w[start] == '+'
        || w[start] == '_')
        invariant
            start <= w.len(),
            drop_front(w@) == drop_front(w@.skip(start as int)),
        decreases w.len() - start,
    {
        assert(w@.skip(start as int).drop_first() =~= w@.skip(start + 1));
        start = start + 1;
    }
    assert(drop_front(w@.skip(start as int)) == w@.skip(start as int));
    let mut end: usize = w.len();
    assert(w@.skip(start as int).take(end - start) =~= w@.skip(start as int));
    while end > start && !(is_ascii_alnum_exec(w[end - 1]) || w[end - 1] == '.' || w[end - 1] == '-' || w[end - 1]
        == '+' || w[end - 1] == '_')
        invariant
            start <= end <= w.len(),
            drop_front(w@) == w@.skip(start as int),
            drop_back(w@.skip(start as int)) == drop_back(w@.subrange(start as int, end as int)),
        decreases end - start,
    {
        assert(w@.subrange(start as int, end as int).drop_last() =~= w@.subrange(start as int, end - 1));
        end = end - 1;
    }
    if start == 0 && end == w.len() {
        assert(w@.subrange(0, w.len() as int) =~= w@.skip(0));
    }
    assert(w@.skip(start as int) =~= w@.subrange(start as int, w.len() as int));
    let first = if end > start && w[start] == 'v' {
        start + 1
    } else {
        start
    };
    let mut r: Vec<char> = Vec::new();
    let mut k = first;
    while k < end
        invariant
            first <= k <= end <= w.len(),
            r@ == w@.subrange(first as int, k as int),
        decreases end - k,
    {
        r.push(w[k]);
        assert(w@.subrange(first as int, k + 1) =~= w@.subrange(first as int, k as int).push(w@[k as int]));
        k = k + 1;
    }
    assert(drop_back(w@.subrange(start as int, end as int)) == w@.subrange(start as int, end as int));
    assert(r@ =~= version_token(w@));
    r
}

/// The version tokens of what a version probe printed.
pub fn version_tokens(output: &str) -> (r: Vec<String>)
    ensures
        strs(r@) == version_tokens_spec(output@),
{
    let ws = words_exec(&chars_of(output));
    let ghost all = texts(ws@).map_values(|w: Seq<char>| version_token(w));
    let ghost pred = |t: Seq<char>| starts_with_digit(t);
    let mut r: Vec<String> = Vec::new();
    let mut i: usize = 0;
    while i < ws.len()
        invariant
            i <= ws.len(),
            all == texts(ws@).map_values(|w: Seq<char>| version_token(w)),
            all.len() == ws.len(),
            pred == (|t: Seq<char>| starts_with_digit(t)),
            strs(r@) == all.take(i as int).filter(pred),
        decreases ws.len() - i,
    {
        let t = token_of(&ws[i]);
        assert(all[i as int] == t@);
        proof {
            assert(all.take(i + 1).drop_last() =~= all.take(i as int));
            reveal_with_fuel(Seq::filter, 1);
        }
        if t.len() > 0 && t[0] >= '0' && t[0] <= '9' {
            let ghost before = r@;
            r.push(string_of(&t));
            assert(strs(r@) =~= strs(before).push(t@));
        }
        i = i + 1;
    }
    assert(all.take(ws.len() as int) =~= all);
    r
}

/// The arguments of the version probe: the version command after the
/// program; `None` for an empty command.
pub fn version_arguments(requirement: &ExecutableRequirement) -> (r: Option<Vec<String>>)
    ensures
        match r {
            Some(args) => requirement.version_command@.len() > 0 && strs(args@) == strs(
                requirement.version_command@,
            ).drop_first(),
            None => requirement.version_command@.len() == 0,
        },
{
    let n = requirement.version_command.len();
    if n == 0 {
        return None;
    }
    let ghost all = strs(requirement.version_command@);
    let mut args: Vec<String> = Vec::new();
    let mut i: usize = 1;
    while i < n
        invariant
            1 <= i <= n,
            n == requirement.version_command@.len(),
            all == strs(requirement.version_command@),
            strs(args@) == all.subrange(1, i as int),
        decreases n - i,
    {
        let ghost before = args@;
        args.push(requirement.version_command[i].as_str().to_owned());
        assert(strs(args@) =~= strs(before).push(all[i as int]));
        assert(all.subrange(1, i + 1) =~= all.subrange(1, i as int).push(all[i as int]));
        i = i + 1;
    }
    assert(all.subrange(1, n as int) =~= all.drop_first());
    Some(args)
}

/// The refusal of a probe that did not report the required version.
pub open spec fn version_mismatch(program: Seq<char>, required: Seq<char>, tokens: Seq<Seq<char>>) -> Seq<char> {
    program + " requires version "@ + required + ", but the resolved executable reported "@ + if tokens.len() > 0 {
        tokens[0]
    } else {
        "unrecognized"@
    }
}

/// The executable at `path` when the probe's output reports exactly the
/// required version among its version tokens; the mismatch otherwise.
pub fn check_version(requirement: &ExecutableRequirement, path: &str, output: &str) -> (r: Result<
    ResolvedExecutable,
    String,
>)
    ensures
        match r {
            Ok(e) => version_tokens_spec(output@).contains(requirement.required_version@) && e.program@
                == requirement.program@ && e.path@ == path@ && e.version@ == requirement.required_version@
                && e.package_manager_pin@ == requirement.package_manager_pin@,
            Err(m) => !version_tokens_spec(output@).contains(requirement.required_version@) && m@ == version_mismatch(
                requirement.program@,
                requirement.required_version@,
                version_tokens_spec(output@),
            ),
        },
{
    let tokens = version_tokens(output);
    let ghost tv = strs(tokens@);
    let required = chars_of(requirement.required_version.as_str());
    let mut i: usize = 0;
    while i < tokens.len()
        invariant
            i <= tokens.len(),
            tv == strs(tokens@),
            tv == version_tokens_spec(output@),
            required@ == requirement.required_version@,
            forall|j: int| 0 <= j < i ==> tv[j] != required@,
        decreases tokens.len() - i,
    {
        if crate::text::chars_eq(&chars_of(tokens[i].as_str()), &required) {
            assert(tv[i as int] == required@);
            return Ok(
                ResolvedExecutable {
                    program: requirement.program.as_str().to_owned(),
                    path: path.to_owned(),
                    version: requirement.required_version.as_str().to_owned(),
                    package_manager_pin: requirement.package_manager_pin.as_str().to_owned(),
                },
            );
        }
        i = i + 1;
    }
    let mut m = chars_of(requirement.program.as_str());
    push_str(&mut m, " requires version ");
    push_str(&mut m, requirement.required_version.as_str());
    push_str(&mut m, ", but the resolved executable reported ");
    if tokens.len() > 0 {
        push_str(&mut m, tokens[0].as_str());
    } else {
        push_str(&mut m, "unrecognized");
    }
    Err(string_of(&m))
}

} // verus!
