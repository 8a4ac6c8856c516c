use crate::errors::CliError;
use crate::numbers::{all_digits, dec_val, parse_u64, valid_number};
use crate::repo::git_tag_names;
use vstd::prelude::*;
use vstd::string::StrSliceExecFns;
use vstd::string::StringExecFns;

verus! {

// The tag resolver: given a tag-name prefix, finds the release tag whose
// numeric suffix is greatest among all tags matching `<prefix>*`.

/// A release tag: a name bound to a commit, carrying a numeric suffix.
///
/// Invariant (established by `resolve_latest`): the name starts with the
/// prefix it was resolved under, and the rest of the name is a decimal
/// numeral whose value is `number`.
#[derive(Debug)]
pub struct Tag {
    pub name: String,
    pub number: u64,
}

/// Whether `s` starts with the characters of `p`.
pub open spec fn starts_with(s: Seq<char>, p: Seq<char>) -> bool {
    s.len() >= p.len() && s.subrange(0, p.len() as int) == p
}

/// The characters of `name` after the prefix.
pub open spec fn suffix_of(name: Seq<char>, prefix: Seq<char>) -> Seq<char> {
    name.subrange(prefix.len() as int, name.len() as int)
}

/// Outcome of scanning a list of tag names, in order, for the greatest
/// numeric suffix.
pub enum TagScan {
    /// No candidate seen yet.
    Empty,
    /// A candidate whose suffix is not a valid number; scanning stops at
    /// the first such tag.
    Bad { suffix: Seq<char>, tag: Seq<char> },
    /// The best candidate so far; on equal values the later tag wins.
    Best { name: Seq<char>, value: nat },
}

/// The fold that `select_greatest_tag` computes: candidates are the listed
/// names (skipping names unreadable as UTF-8 and names that do not start
/// with the prefix); the first candidate whose suffix fails to parse stops
/// the scan; otherwise the candidate with the greatest value wins, the
/// later one on ties.
pub open spec fn scan_tags(prefix: Seq<char>, tags: Seq<Option<String>>) -> TagScan
    decreases tags.len(),
{
    if tags.len() == 0 {
        TagScan::Empty
    } else {
        let prev = scan_tags(prefix, tags.drop_last());
        if prev is Bad {
            prev
        } else {
            match tags.last() {
                Option::None => prev,
                Option::Some(t) => if !starts_with(t@, prefix) {
                    prev
                } else {
                    let suffix = suffix_of(t@, prefix);
                    if !valid_number(suffix) {
                        TagScan::Bad { suffix, tag: t@ }
                    } else {
                        match prev {
                            TagScan::Best { name, value } => if dec_val(suffix) >= value {
                                TagScan::Best { name: t@, value: dec_val(suffix) }
                            } else {
                                prev
                            },
                            _ => TagScan::Best { name: t@, value: dec_val(suffix) },
                        }
                    }
                },
            }
        }
    }
}

/// Message for a rejected empty prefix.
pub open spec fn empty_prefix_msg() -> Seq<char> {
    "Can't find greatest tag with no prefix, would find all tags."@
}

/// Message for a prefix no tag matches.
pub open spec fn no_tags_msg(prefix: Seq<char>) -> Seq<char> {
    "Could not find any tags with prefix: "@ + prefix
}

/// Message for a matching tag whose suffix is not a valid number.
pub open spec fn tag_parse_msg(suffix: Seq<char>, tag: Seq<char>) -> Seq<char> {
    "Could not parse u64 from: "@ + suffix + ", in tag: "@ + tag
}

/// Message for a failure of the backend while listing tags.
pub open spec fn tag_list_err_msg(cause: Seq<char>) -> Seq<char> {
    "Could not read tags from repo: "@ + cause
}

/// Whether `s` starts with the characters of `p`.
pub fn str_starts_with(s: &str, p: &str) -> (b: bool)
    ensures
        b == starts_with(s@, p@),
{
    let sl = s.unicode_len();
    let pl = p.unicode_len();
    if sl < pl {
        return false;
    }
    let mut i: usize = 0;
    while i < pl
        invariant
            i <= pl == p@.len(),
            s@.len() >= p@.len(),
            forall|j: int| 0 <= j < i ==> s@[j] == p@[j],
        decreases pl - i,
    {
        if s.get_char(i) != p.get_char(i) {
            proof {
                assert(s@.subrange(0, p@.len() as int)[i as int] == s@[i as int]);
            }
            return false;
        }
        i = i + 1;
    }
    proof {
        assert(s@.subrange(0, p@.len() as int) =~= p@);
    }
    true
}

/// Whether a listed name is a candidate under `prefix`: readable as UTF-8
/// and starting with the prefix.
pub open spec fn is_candidate(t: Option<String>, prefix: Seq<char>) -> bool {
    t is Some && starts_with(t->0@, prefix)
}

/// Once the scan has hit a bad tag, the rest of the list cannot change the
/// outcome.
proof fn lemma_scan_bad_absorbs(prefix: Seq<char>, tags: Seq<Option<String>>, j: int)
    requires
        0 <= j <= tags.len(),
        scan_tags(prefix, tags.subrange(0, j)) is Bad,
    ensures
        scan_tags(prefix, tags) == scan_tags(prefix, tags.subrange(0, j)),
    decreases tags.len() - j,
{
    if j == tags.len() {
        assert(tags.subrange(0, j) =~= tags);
    } else {
        assert(tags.subrange(0, j + 1).drop_last() =~= tags.subrange(0, j));
        lemma_scan_bad_absorbs(prefix, tags, j + 1);
    }
}

/// Where no listed name is a candidate under the prefix — in particular,
/// where no tag matches the glob at all — the scan comes up empty, so
/// `select_greatest_tag` reports that no tag was found, naming the
/// prefix.
pub proof fn lemma_no_candidates_scan_empty(prefix: Seq<char>, tags: Seq<Option<String>>)
    requires
        forall|k: int| 0 <= k < tags.len() ==> !is_candidate(#[trigger] tags[k], prefix),
    ensures
        scan_tags(prefix, tags) is Empty,
    decreases tags.len(),
{
    if tags.len() > 0 {
        let n = tags.len() as int;
        assert(forall|k: int| 0 <= k < n - 1 ==> tags.drop_last()[k] == #[trigger] tags[k]);
        lemma_no_candidates_scan_empty(prefix, tags.drop_last());
        assert(tags[n - 1] == tags.last());
    }
}

/// A scan that saw no candidate really had none to see.
proof fn lemma_scan_empty_no_candidates(prefix: Seq<char>, tags: Seq<Option<String>>)
    requires
        scan_tags(prefix, tags) is Empty,
    ensures
        forall|k: int| 0 <= k < tags.len() ==> !is_candidate(#[trigger] tags[k], prefix),
    decreases tags.len(),
{
    if tags.len() > 0 {
        let n = tags.len() as int;
        lemma_scan_empty_no_candidates(prefix, tags.drop_last());
        assert(forall|k: int| 0 <= k < n - 1 ==> tags.drop_last()[k] == #[trigger] tags[k]);
        assert(tags[n - 1] == tags.last());
    }
}

/// What a winning scan selected.
pub open spec fn best_at(
    tags: Seq<Option<String>>,
    prefix: Seq<char>,
    k: int,
    name: Seq<char>,
    value: nat,
) -> bool {
    &&& 0 <= k < tags.len()
    &&& is_candidate(tags[k], prefix)
    &&& tags[k]->0@ == name
    &&& valid_number(suffix_of(name, prefix))
    &&& dec_val(suffix_of(name, prefix)) == value
}

/// The selected tag has the greatest numeric suffix: a winning scan names
/// one of the listed candidates, every listed candidate has a valid
/// numeric suffix, and no candidate's value exceeds the winner's.
pub proof fn lemma_scan_best_props(prefix: Seq<char>, tags: Seq<Option<String>>)
    requires
        scan_tags(prefix, tags) is Best,
    ensures
        exists|k: int|
            best_at(
                tags,
                prefix,
                k,
                scan_tags(prefix, tags)->name,
                scan_tags(prefix, tags)->value,
            ),
        forall|k: int|
            0 <= k < tags.len() && is_candidate(#[trigger] tags[k], prefix) ==> (valid_number(
                suffix_of(tags[k]->0@, prefix),
            ) && dec_val(suffix_of(tags[k]->0@, prefix)) <= scan_tags(prefix, tags)->value),
    decreases tags.len(),
{
    let n = tags.len() as int;
    let cur = scan_tags(prefix, tags);
    let prev = scan_tags(prefix, tags.drop_last());
    assert(forall|k: int| 0 <= k < n - 1 ==> tags.drop_last()[k] == #[trigger] tags[k]);
    assert(tags[n - 1] == tags.last());
    if !is_candidate(tags.last(), prefix) {
        // the last name is skipped, so the scan of the rest won
        assert(cur == prev);
        lemma_scan_best_props(prefix, tags.drop_last());
        let w = choose|k: int| best_at(tags.drop_last(), prefix, k, prev->name, prev->value);
        assert(best_at(tags, prefix, w, cur->name, cur->value));
    } else {
        let t = tags.last()->0;
        let suffix = suffix_of(t@, prefix);
        // an invalid suffix would have made the scan Bad
        assert(valid_number(suffix));
        let v = dec_val(suffix);
        if prev is Best {
            lemma_scan_best_props(prefix, tags.drop_last());
            if v >= prev->value {
                assert(cur == TagScan::Best { name: t@, value: v });
                assert(best_at(tags, prefix, n - 1, cur->name, cur->value));
            } else {
                assert(cur == prev);
                let w = choose|k: int|
                    best_at(tags.drop_last(), prefix, k, prev->name, prev->value);
                assert(best_at(tags, prefix, w, cur->name, cur->value));
            }
        } else {
            // prev is Empty: the last name is the only candidate
            lemma_scan_empty_no_candidates(prefix, tags.drop_last());
            assert(cur == TagScan::Best { name: t@, value: v });
            assert(best_at(tags, prefix, n - 1, cur->name, cur->value));
        }
    }
}

/// Selects, among the listed tag names, the one with the greatest numeric
/// suffix after the prefix.
///
/// Names unreadable as UTF-8 and names that do not start with the prefix
/// are skipped; the first name whose suffix is not a valid `u64` numeral
/// is a hard parse error naming the suffix and the tag; an empty candidate
/// set is reported as not found, naming the prefix. On tags with equal
/// numeric value the one listed later wins.
pub fn select_greatest_tag(prefix: &str, tags: &Vec<Option<String>>) -> (r: Result<Tag, CliError>)
    ensures
        scan_tags(prefix@, tags@) is Empty ==> (r is Err && r->Err_0 is NotFound
            && r->Err_0.spec_message() == no_tags_msg(prefix@)),
        scan_tags(prefix@, tags@) matches TagScan::Bad { suffix, tag } ==> (r is Err
            && r->Err_0 is Parse && r->Err_0.spec_message() == tag_parse_msg(suffix, tag)),
        scan_tags(prefix@, tags@) matches TagScan::Best { name, value } ==> (r is Ok
            && r->Ok_0.name@ == name && r->Ok_0.number as nat == value),
{
    let n = tags.len();
    let mut best: Option<Tag> = None;
    let mut i: usize = 0;
    while i < n
        invariant
            i <= n == tags@.len(),
            best is None ==> scan_tags(prefix@, tags@.subrange(0, i as int)) is Empty,
            best matches Some(b) ==> scan_tags(prefix@, tags@.subrange(0, i as int))
                == (TagScan::Best { name: b.name@, value: b.number as nat }),
        decreases n - i,
    {
        proof {
            assert(tags@.subrange(0, i + 1).drop_last() =~= tags@.subrange(0, i as int));
            assert(tags@.subrange(0, i + 1).last() == tags@[i as int]);
        }
        match &tags[i] {
            None => {},
            Some(t) => {
                if str_starts_with(t.as_str(), prefix) {
                    let tl = t.as_str().unicode_len();
                    let pl = prefix.unicode_len();
                    let suffix = t.as_str().substring_char(pl, tl);
                    proof {
                        assert(suffix@ == suffix_of(t@, prefix@));
                    }
                    match parse_u64(suffix) {
                        None => {
                            let msg = String::from_str("Could not parse u64 from: ").concat(
                                suffix,
                            ).concat(", in tag: ").concat(t.as_str());
                            proof {
                                lemma_scan_bad_absorbs(prefix@, tags@, i + 1);
                            }
                            return Err(CliError::Parse(msg));
                        },
                        Some(v) => {
                            let take = match &best {
                                None => true,
                                Some(b) => v >= b.number,
                            };
                            if take {
                                best = Some(Tag { name: t.clone(), number: v });
                            }
                        },
                    }
                }
            },
        }
        i = i + 1;
    }
    proof {
        assert(tags@.subrange(0, n as int) =~= tags@);
    }
    match best {
        None => Err(
            CliError::NotFound(
                String::from_str("Could not find any tags with prefix: ").concat(prefix),
            ),
        ),
        Some(b) => Ok(b),
    }
}

/// Finds the most recent release tag matching `prefix + "*"`.
///
/// An empty prefix is rejected outright: it would match every tag in the
/// repository. Otherwise the matching tag names are listed through the
/// repository facade and the greatest numeric suffix wins, as
/// `select_greatest_tag` spells out; a failure of the backend while
/// listing is a history error.
pub fn resolve_latest(repo: &git2::Repository, prefix: &str) -> (r: Result<Tag, CliError>)
    ensures
        prefix@.len() == 0 ==> (r is Err && r->Err_0 is Configuration && r->Err_0.spec_message()
            == empty_prefix_msg()),
        r is Err && r->Err_0 is Configuration ==> prefix@.len() == 0,
        r is Err && (r->Err_0 is NotFound || r->Err_0 is Parse) ==> prefix@.len() > 0,
        r is Err ==> (r->Err_0 is Configuration || r->Err_0 is History || r->Err_0 is NotFound
            || r->Err_0 is Parse),
        r is Ok ==> (prefix@.len() > 0 && starts_with(r->Ok_0.name@, prefix@) && valid_number(
            suffix_of(r->Ok_0.name@, prefix@),
        ) && dec_val(suffix_of(r->Ok_0.name@, prefix@)) == r->Ok_0.number as nat),
{
    if prefix.is_empty() {
        return Err(
            CliError::Configuration(
                String::from_str("Can't find greatest tag with no prefix, would find all tags."),
            ),
        );
    }
    let mut glob = String::from_str(prefix);
    glob.append("*");
    match git_tag_names(repo, glob.as_str()) {
        Err(cause) => Err(
            CliError::History(
                String::from_str("Could not read tags from repo: ").concat(cause.as_str()),
            ),
        ),
        Ok(tags) => {
            let r = select_greatest_tag(prefix, &tags);
            proof {
                if scan_tags(prefix@, tags@) is Best {
                    lemma_scan_best_props(prefix@, tags@);
                }
            }
            r
        },
    }
}

} // verus!
