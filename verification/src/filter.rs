//! The filter compiler: a boolean expression tree over tags and kinds is
//! compiled, by pure structural recursion, into a parameterized predicate
//! fragment plus its positional parameter list, and can also be evaluated
//! directly against a row's kind and tag set.

use vstd::prelude::*;
use crate::types::{kind_name, FileFilter, FileKind};
use crate::strutil::str_eq;

verus! {

/// The predicate fragment compiled from a filter: a tag-membership test
/// against the junction table, a kind test, or the two children joined by
/// the boolean operator, parenthesized, with placeholders for the
/// parameters.
pub open spec fn filter_fragment(f: FileFilter) -> Seq<char>
    decreases f,
{
    match f {
        FileFilter::Tag(_) => " hash IN (SELECT file_hash FROM files_tags WHERE tag = ?) "@,
        FileFilter::Kind(_) => " kind = ?"@,
        FileFilter::And(l, r) => " ("@ + filter_fragment(*l) + " AND "@ + filter_fragment(*r)
            + ") "@,
        FileFilter::Or(l, r) => " ("@ + filter_fragment(*l) + " OR "@ + filter_fragment(*r)
            + ") "@,
    }
}

/// The parameters compiled from a filter, in left-to-right order: the tag
/// text for a tag test, the stored kind name for a kind test, and the
/// children's parameters concatenated for the boolean operators.
pub open spec fn filter_params(f: FileFilter) -> Seq<Seq<char>>
    decreases f,
{
    match f {
        FileFilter::Tag(t) => seq![t@],
        FileFilter::Kind(k) => seq![kind_name(k)],
        FileFilter::And(l, r) => filter_params(*l) + filter_params(*r),
        FileFilter::Or(l, r) => filter_params(*l) + filter_params(*r),
    }
}

/// The character sequences a string vector holds.
pub open spec fn strings_view(s: Seq<String>) -> Seq<Seq<char>> {
    Seq::new(s.len(), |i: int| s[i]@)
}

/// Whether a row with the given kind and tag set satisfies the filter: a
/// tag test is exact membership, a kind test exact equality, and the
/// operators combine the children's verdicts.
pub open spec fn filter_matches(f: FileFilter, kind: FileKind, tags: Seq<Seq<char>>) -> bool
    decreases f,
{
    match f {
        FileFilter::Tag(t) => tags.contains(t@),
        FileFilter::Kind(k) => k == kind,
        FileFilter::And(l, r) => filter_matches(*l, kind, tags) && filter_matches(*r, kind, tags),
        FileFilter::Or(l, r) => filter_matches(*l, kind, tags) || filter_matches(*r, kind, tags),
    }
}

/// Compiles a filter into its predicate fragment and positional parameter
/// list. Purely structural: no deduplication, no constant folding.
pub fn file_filter_apply(f: &FileFilter) -> (r: (String, Vec<String>))
    ensures
        r.0@ == filter_fragment(*f),
        strings_view(r.1@) == filter_params(*f),
    decreases *f,
{
    match f {
        FileFilter::Tag(t) => {
            let q = " hash IN (SELECT file_hash FROM files_tags WHERE tag = ?) ".to_owned();
            let mut params: Vec<String> = Vec::new();
            params.push(t.clone());
            proof {
                assert(strings_view(params@) =~= filter_params(*f));
            }
            (q, params)
        },
        FileFilter::Kind(k) => {
            let q = " kind = ?".to_owned();
            let mut params: Vec<String> = Vec::new();
            params.push(k.to_str().to_owned());
            proof {
                assert(strings_view(params@) =~= filter_params(*f));
            }
            (q, params)
        },
        FileFilter::And(l, r) => {
            let (q1, mut p1) = file_filter_apply(l);
            let (q2, mut p2) = file_filter_apply(r);
            let mut q = " (".to_owned();
            q.append(q1.as_str());
            q.append(" AND ");
            q.append(q2.as_str());
            q.append(") ");
            p1.append(&mut p2);
            proof {
                assert(q@ =~= filter_fragment(*f));
                assert(strings_view(p1@) =~= filter_params(*f));
            }
            (q, p1)
        },
        FileFilter::Or(l, r) => {
            let (q1, mut p1) = file_filter_apply(l);
            let (q2, mut p2) = file_filter_apply(r);
            let mut q = " (".to_owned();
            q.append(q1.as_str());
            q.append(" OR ");
            q.append(q2.as_str());
            q.append(") ");
            p1.append(&mut p2);
            proof {
                assert(q@ =~= filter_fragment(*f));
                assert(strings_view(p1@) =~= filter_params(*f));
            }
            (q, p1)
        },
    }
}

/// Decides whether a row with the given kind and tag set satisfies the
/// filter.
#[verifier::loop_isolation(false)]
pub fn filter_eval(f: &FileFilter, kind: FileKind, tags: &Vec<String>) -> (r: bool)
    ensures
        r == filter_matches(*f, kind, strings_view(tags@)),
    decreases *f,
{
    match f {
        FileFilter::Tag(t) => {
            let mut i: usize = 0;
            while i < tags.len()
                invariant
                    i <= tags@.len(),
                    forall|j: int| 0 <= j < i ==> strings_view(tags@)[j] != t@,
                decreases tags@.len() - i,
            {
                if str_eq(tags[i].as_str(), t.as_str()) {
                    proof {
                        assert(strings_view(tags@)[i as int] == t@);
                        assert(strings_view(tags@).contains(t@));
                        assert(filter_matches(*f, kind, strings_view(tags@)));
                    }
                    return true;
                }
                i += 1;
            }
            proof {
                assert forall|j: int| 0 <= j < strings_view(tags@).len() implies strings_view(
                    tags@,
                )[j] != t@ by {}
                assert(!strings_view(tags@).contains(t@));
            }
            false
        },
        FileFilter::Kind(k) => *k == kind,
        FileFilter::And(l, r) => {
            let a = filter_eval(l, kind, tags);
            let b = filter_eval(r, kind, tags);
            a && b
        },
        FileFilter::Or(l, r) => {
            let a = filter_eval(l, kind, tags);
            let b = filter_eval(r, kind, tags);
            a || b
        },
    }
}

} // verus!
