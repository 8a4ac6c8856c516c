use crate::ids::contains_u64;
use crate::numbers::{check_digit, dec_val, is_digit, parse_u64};
use crate::range::CommitRecord;
use vstd::prelude::*;
use vstd::string::StrSliceExecFns;

verus! {

// The reference extractor: a pure function over commit message text.
//
// The recognized cross-reference pattern is the marker `!` immediately
// followed by decimal digits, as merge tooling appends to merge-commit
// messages (e.g. `See merge request team/project!17`). A message yields
// the value of the digit run after its first marker; a message without a
// marker contributes nothing, as does one whose digit run does not fit
// in 64 bits.

/// Whether a reference marker stands at position `i`: the character `!`
/// immediately followed by a decimal digit.
pub open spec fn marker_at(s: Seq<char>, i: int) -> bool {
    0 <= i && i + 1 < s.len() && s[i] == '!' && is_digit(s[i + 1])
}

/// Position of the first reference marker at or after `i`, if any.
pub open spec fn find_marker(s: Seq<char>, i: int) -> Option<int>
    decreases s.len() - i when 0 <= i <= s.len()
{
    if i + 1 >= s.len() {
        None
    } else if marker_at(s, i) {
        Some(i)
    } else {
        find_marker(s, i + 1)
    }
}

/// First position at or after `j` that is past the run of digits
/// starting at `j`.
pub open spec fn digit_run_end(s: Seq<char>, j: int) -> int
    decreases s.len() - j when 0 <= j <= s.len()
{
    if j >= s.len() || !is_digit(s[j]) {
        j
    } else {
        digit_run_end(s, j + 1)
    }
}

/// The reference identifier embedded in a commit message, if any: the
/// value of the digit run after the first marker, when it fits in 64
/// bits.
pub open spec fn extracted(s: Seq<char>) -> Option<nat> {
    match find_marker(s, 0) {
        None => None,
        Some(i) => {
            let j = digit_run_end(s, i + 1);
            let digits = s.subrange(i + 1, j);
            if dec_val(digits) <= u64::MAX {
                Some(dec_val(digits))
            } else {
                None
            }
        },
    }
}

/// The digit run starting at `j` is made of digits and ends in bounds.
proof fn lemma_digit_run_props(s: Seq<char>, j: int)
    requires
        0 <= j <= s.len(),
    ensures
        j <= digit_run_end(s, j) <= s.len(),
        forall|k: int| j <= k < digit_run_end(s, j) ==> is_digit(#[trigger] s[k]),
    decreases s.len() - j,
{
    if j < s.len() && is_digit(s[j]) {
        lemma_digit_run_props(s, j + 1);
    }
}

/// Scans a commit message for the recognized reference pattern and hands
/// back the embedded identifier, if any.
pub fn extract_one(message: &str) -> (r: Option<u64>)
    ensures
        r is Some <==> extracted(message@) is Some,
        r matches Some(v) ==> extracted(message@) == Some(v as nat),
{
    let ghost m = message@;
    let n = message.unicode_len();
    if n == 0 {
        return None;
    }
    let mut i: usize = 0;
    let mut found = false;
    while !found && i < n - 1
        invariant
            n == m.len(),
            m == message@,
            0 < n,
            i <= n - 1,
            !found ==> find_marker(m, 0) == find_marker(m, i as int),
            found ==> find_marker(m, 0) == Some(i as int) && marker_at(m, i as int),
        decreases n - i, (if found {
            0int
        } else {
            1int
        }),
    {
        let c = message.get_char(i);
        let d = message.get_char(i + 1);
        if c == '!' && check_digit(d) {
            found = true;
        } else {
            i = i + 1;
        }
    }
    if !found {
        // the scan ran past the last position a marker fits in
        return None;
    }
    let mut j: usize = i + 1;
    let mut run_done = false;
    while !run_done
        invariant
            n == m.len(),
            m == message@,
            i + 1 <= j <= n,
            !run_done ==> digit_run_end(m, i + 1) == digit_run_end(m, j as int),
            run_done ==> digit_run_end(m, i + 1) == j as int,
        decreases n - j, (if run_done {
            0int
        } else {
            1int
        }),
    {
        if j < n {
            let c = message.get_char(j);
            if check_digit(c) {
                j = j + 1;
            } else {
                run_done = true;
            }
        } else {
            run_done = true;
        }
    }
    proof {
        lemma_digit_run_props(m, i + 1);
        // the marker guarantees at least one digit in the run
        lemma_digit_run_props(m, i + 2);
        assert(digit_run_end(m, i + 1) == digit_run_end(m, i + 2));
        assert(j as int >= i + 2);
    }
    let digits = message.substring_char(i + 1, j);
    proof {
        assert(digits@ == m.subrange(i + 1, j as int));
        assert(digits@.len() > 0);
        assert(forall|k: int|
            0 <= k < digits@.len() ==> is_digit(#[trigger] digits@[k]) && digits@[k] == m[i + 1
                + k]);
    }
    parse_u64(digits)
}

/// The identifiers extracted from a commit range: the identifier of each
/// commit whose message holds a recognized reference, each kept once, in
/// order of first occurrence.
pub open spec fn extract_ids_spec(commits: Seq<CommitRecord>) -> Seq<u64>
    decreases commits.len(),
{
    if commits.len() == 0 {
        Seq::empty()
    } else {
        let rest = extract_ids_spec(commits.drop_last());
        match extracted(commits.last().message@) {
            None => rest,
            Some(v) => if rest.contains(v as u64) {
                rest
            } else {
                rest.push(v as u64)
            },
        }
    }
}

/// Collects the unique reference identifiers embedded in the messages of
/// a commit range, in order of first occurrence. A commit without a
/// recognized reference contributes nothing; an identifier appearing in
/// several commits is looked up downstream once.
pub fn extract_ids(commits: &Vec<CommitRecord>) -> (r: Vec<u64>)
    ensures
        r@ == extract_ids_spec(commits@),
{
    let n = commits.len();
    let mut out: Vec<u64> = Vec::new();
    let mut i: usize = 0;
    while i < n
        invariant
            i <= n == commits@.len(),
            out@ == extract_ids_spec(commits@.subrange(0, i as int)),
        decreases n - i,
    {
        proof {
            assert(commits@.subrange(0, i + 1).drop_last() =~= commits@.subrange(0, i as int));
            assert(commits@.subrange(0, i + 1).last() == commits@[i as int]);
        }
        match extract_one(commits[i].message.as_str()) {
            None => {},
            Some(v) => {
                if !contains_u64(&out, v) {
                    out.push(v);
                }
            },
        }
        i = i + 1;
    }
    proof {
        assert(commits@.subrange(0, n as int) =~= commits@);
    }
    out
}

/// A commit range containing no recognized reference pattern yields no
/// identifiers at all.
pub proof fn lemma_extract_ids_none(commits: Seq<CommitRecord>)
    requires
        forall|k: int| 0 <= k < commits.len() ==> extracted(#[trigger] commits[k].message@) is None,
    ensures
        extract_ids_spec(commits) == Seq::<u64>::empty(),
    decreases commits.len(),
{
    if commits.len() > 0 {
        let n = commits.len() as int;
        assert(forall|k: int|
            0 <= k < n - 1 ==> commits.drop_last()[k] == #[trigger] commits[k]);
        lemma_extract_ids_none(commits.drop_last());
        assert(commits.last() == commits[n - 1]);
    }
}

} // verus!
