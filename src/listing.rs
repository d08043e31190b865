use vstd::prelude::*;

use vstd::multiset::Multiset;

use crate::paths::{chars_of, is_profile_file_name, is_profile_name};

verus! {

broadcast use vstd::seq_lib::group_to_multiset_ensures;

/// One entry of the config root as the directory listing gave it.
#[derive(Debug, Clone, PartialEq, Eq)]
pub struct Entry {
    /// The entry's file name.
    pub name: String,
    /// Whether the entry is a regular file.
    pub is_file: bool,
}

/// An entry that the listing shows: a regular file named as a profile.
pub open spec fn listed(e: Entry) -> bool {
    e.is_file && is_profile_name(e.name@)
}

/// The names of the listed entries, in the order of the directory listing.
pub open spec fn profile_names(s: Seq<Entry>) -> Seq<String>
    decreases s.len(),
{
    if s.len() == 0 {
        Seq::empty()
    } else {
        let prev = profile_names(s.drop_last());
        if listed(s.last()) {
            prev.push(s.last().name)
        } else {
            prev
        }
    }
}

/// `a` comes no later than `b` in lexicographic order of character codes.
pub open spec fn text_le(a: Seq<char>, b: Seq<char>) -> bool
    decreases a.len(),
{
    if a.len() == 0 {
        true
    } else if b.len() == 0 {
        false
    } else if a[0] != b[0] {
        (a[0] as int) < (b[0] as int)
    } else {
        text_le(a.drop_first(), b.drop_first())
    }
}

/// The texts are in lexicographic order.
pub open spec fn sorted_texts(s: Seq<String>) -> bool {
    forall|i: int, j: int| 0 <= i < j < s.len() ==> text_le(#[trigger] s[i]@, #[trigger] s[j]@)
}

/// Any two texts are ordered one way or the other.
pub proof fn lemma_text_le_total(a: Seq<char>, b: Seq<char>)
    ensures
        text_le(a, b) || text_le(b, a),
    decreases a.len(),
{
    if a.len() > 0 && b.len() > 0 && a[0] == b[0] {
        lemma_text_le_total(a.drop_first(), b.drop_first());
    }
}

/// Every text comes no later than itself.
pub proof fn lemma_text_le_refl(a: Seq<char>)
    ensures
        text_le(a, a),
    decreases a.len(),
{
    if a.len() > 0 {
        lemma_text_le_refl(a.drop_first());
    }
}

/// The order is transitive.
pub proof fn lemma_text_le_trans(a: Seq<char>, b: Seq<char>, c: Seq<char>)
    requires
        text_le(a, b),
        text_le(b, c),
    ensures
        text_le(a, c),
    decreases a.len(),
{
    if a.len() > 0 && b.len() > 0 && c.len() > 0 && a[0] == b[0] && b[0] == c[0] {
        lemma_text_le_trans(a.drop_first(), b.drop_first(), c.drop_first());
    }
}

/// Whether `a` comes no later than `b` in lexicographic order.
pub fn text_precedes(a: &Vec<char>, b: &Vec<char>) -> (r: bool)
    ensures
        r == text_le(a@, b@),
{
    let mut i: usize = 0;
    assert(a@.skip(0) =~= a@ && b@.skip(0) =~= b@);
    while i < a.len() && i < b.len()
        invariant
            i <= a@.len(),
            i <= b@.len(),
            text_le(a@, b@) == text_le(a@.skip(i as int), b@.skip(i as int)),
        decreases a@.len() - i,
    {
        if a[i] != b[i] {
            return a[i] < b[i];
        }
        assert(a@.skip(i as int).drop_first() =~= a@.skip(i + 1));
        assert(b@.skip(i as int).drop_first() =~= b@.skip(i + 1));
        i = i + 1;
    }
    i == a.len()
}

/// The file names of the profiles in the config root, from its directory
/// listing: the regular files named as profiles, in lexicographic order.
pub fn list_all_profiles(entries: &Vec<Entry>) -> (r: Vec<String>)
    ensures
        r@.to_multiset() == profile_names(entries@).to_multiset(),
        sorted_texts(r@),
{
    let mut rest: Vec<String> = Vec::new();
    let mut i: usize = 0;
    while i < entries.len()
        invariant
            i <= entries@.len(),
            rest@ == profile_names(entries@.subrange(0, i as int)),
        decreases entries@.len() - i,
    {
        let e = &entries[i];
        assert(entries@.subrange(0, i + 1).drop_last() =~= entries@.subrange(0, i as int));
        if e.is_file && is_profile_file_name(e.name.as_str()) {
            rest.push(e.name.clone());
        }
        i = i + 1;
    }
    assert(entries@.subrange(0, i as int) =~= entries@);
    let ghost all = rest@.to_multiset();
    let mut out: Vec<String> = Vec::new();
    while rest.len() > 0
        invariant
            out@.to_multiset().add(rest@.to_multiset()) == all,
            sorted_texts(out@),
            forall|x: int, y: int|
                0 <= x < out@.len() && 0 <= y < rest@.len() ==> text_le(
                    #[trigger] out@[x]@,
                    #[trigger] rest@[y]@,
                ),
        decreases rest@.len(),
    {
        let mut m: usize = 0;
        let mut least = chars_of(rest[0].as_str());
        let mut k: usize = 1;
        proof {
            lemma_text_le_refl(least@);
        }
        while k < rest.len()
            invariant
                m < k <= rest@.len(),
                least@ == rest@[m as int]@,
                forall|y: int| 0 <= y < k ==> text_le(rest@[m as int]@, #[trigger] rest@[y]@),
            decreases rest@.len() - k,
        {
            let c = chars_of(rest[k].as_str());
            if !text_precedes(&least, &c) {
                proof {
                    lemma_text_le_total(least@, c@);
                    assert forall|y: int| 0 <= y < k implies text_le(
                        c@,
                        #[trigger] rest@[y]@,
                    ) by {
                        lemma_text_le_trans(c@, least@, rest@[y]@);
                    }
                }
                proof {
                    lemma_text_le_refl(c@);
                }
                m = k;
                least = c;
            }
            k = k + 1;
        }
        let ghost before = rest@;
        let ghost out_before = out@;
        let x = rest.remove(m);
        out.push(x);
        proof {
            assert(rest@ == before.remove(m as int));
            assert(out@.to_multiset().add(rest@.to_multiset()) =~= all);
            assert forall|a: int, b: int| 0 <= a < b < out@.len() implies text_le(
                #[trigger] out@[a]@,
                #[trigger] out@[b]@,
            ) by {
                if b == out@.len() - 1 {
                    assert(out_before[a]@ == out@[a]@);
                    assert(text_le(out_before[a]@, before[m as int]@));
                } else {
                    assert(out_before[a] == out@[a] && out_before[b] == out@[b]);
                }
            }
            assert forall|a: int, b: int| 0 <= a < out@.len() && 0 <= b < rest@.len() implies text_le(
                #[trigger] out@[a]@,
                #[trigger] rest@[b]@,
            ) by {
                let ob = if b < m { b } else { b + 1 };
                assert(rest@[b] == before[ob]);
                if a == out@.len() - 1 {
                    assert(text_le(before[m as int]@, before[ob]@));
                } else {
                    assert(out@[a] == out_before[a]);
                    assert(text_le(out_before[a]@, before[ob]@));
                }
            }
        }
    }
    assert(rest@.to_multiset() =~= Multiset::empty());
    assert(out@.to_multiset() =~= all);
    out
}

} // verus!
