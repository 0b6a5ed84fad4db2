//! The two written forms of a UUID: canonical (36 characters, with hyphens)
//! and compact (32 characters, without).

use vstd::prelude::*;

verus! {

/// Length of the canonical form.
pub const CANONICAL_LEN: usize = 36;

/// Length of the compact form.
pub const COMPACT_LEN: usize = 32;

/// `u` has the canonical layout: 36 characters, hyphens at offsets 8, 13, 18
/// and 23. Nothing is said of the other 32 characters.
pub open spec fn is_canonical(u: Seq<char>) -> bool {
    &&& u.len() == 36
    &&& u[8] == '-'
    &&& u[13] == '-'
    &&& u[18] == '-'
    &&& u[23] == '-'
}

/// One of the characters `0` to `9`, `a` to `f` and `A` to `F`.
pub open spec fn is_hex_digit(c: char) -> bool {
    ('0' <= c && c <= '9') || ('a' <= c && c <= 'f') || ('A' <= c && c <= 'F')
}

/// `u` is a correctly formed canonical UUID: it has the canonical layout,
/// and hexadecimal digits wherever no hyphen stands.
pub open spec fn is_uuid(u: Seq<char>) -> bool {
    &&& is_canonical(u)
    &&& forall|i: int|
        0 <= i < 36 && i != 8 && i != 13 && i != 18 && i != 23 ==> is_hex_digit(#[trigger] u[i])
}

/// `s` without its hyphens, wherever they stand.
pub open spec fn without_hyphens(s: Seq<char>) -> Seq<char> {
    s.filter(|c: char| c != '-')
}

/// `canonical` without the characters at offsets 8, 13, 18 and 23. Whatever
/// follows offset 23 is kept, so an input of `n >= 36` characters gives
/// `n - 4`.
pub open spec fn compact_spec(canonical: Seq<char>) -> Seq<char>
    recommends
        canonical.len() >= 36,
{
    canonical.subrange(0, 8) + canonical.subrange(9, 13) + canonical.subrange(14, 18)
        + canonical.subrange(19, 23) + canonical.subrange(24, canonical.len() as int)
}

/// `compact` with a hyphen put in so that hyphens stand at offsets 8, 13, 18
/// and 23 of the result.
pub open spec fn expand_spec(compact: Seq<char>) -> Seq<char>
    recommends
        compact.len() == 32,
{
    let hyphen = seq!['-'];
    compact.subrange(0, 8) + hyphen + compact.subrange(8, 12) + hyphen + compact.subrange(12, 16)
        + hyphen + compact.subrange(16, 20) + hyphen + compact.subrange(20, compact.len() as int)
}

/// Strips the four structural hyphens of a canonical UUID.
///
/// The characters at offsets 8, 13, 18 and 23 are dropped without being
/// looked at; the rest is kept in order.
pub fn compact(canonical: &str) -> (out: String)
    requires
        canonical@.len() >= CANONICAL_LEN,
    ensures
        out@ == compact_spec(canonical@),
        out@.len() == canonical@.len() - 4,
{
    let n = canonical.unicode_len();
    let mut out = String::from_str(canonical.substring_char(0, 8));
    out.append(canonical.substring_char(9, 13));
    out.append(canonical.substring_char(14, 18));
    out.append(canonical.substring_char(19, 23));
    out.append(canonical.substring_char(24, n));
    out
}

/// Puts the four structural hyphens back into a compact UUID.
///
/// Purely structural: the characters are not held to be hexadecimal digits.
pub fn expand(compact: &str) -> (out: String)
    requires
        compact@.len() == COMPACT_LEN,
    ensures
        out@ == expand_spec(compact@),
        is_canonical(out@),
{
    proof {
        reveal_strlit("-");
    }
    let mut out = String::from_str(compact.substring_char(0, 8));
    out.append("-");
    out.append(compact.substring_char(8, 12));
    out.append("-");
    out.append(compact.substring_char(12, 16));
    out.append("-");
    out.append(compact.substring_char(16, 20));
    out.append("-");
    out.append(compact.substring_char(20, COMPACT_LEN));
    assert("-"@ =~= seq!['-']);
    out
}

/// Stripping the hyphens of a canonical UUID and putting them back gives the
/// UUID again.
pub proof fn lemma_expand_compact(u: Seq<char>)
    requires
        is_canonical(u),
    ensures
        compact_spec(u).len() == 32,
        expand_spec(compact_spec(u)) == u,
{
    assert(expand_spec(compact_spec(u)) =~= u);
}

/// Putting hyphens into 32 characters and stripping them gives the 32
/// characters again.
pub proof fn lemma_compact_expand(c: Seq<char>)
    requires
        c.len() == 32,
    ensures
        is_canonical(expand_spec(c)),
        compact_spec(expand_spec(c)) == c,
{
    assert(compact_spec(expand_spec(c)) =~= c);
}

/// The compact form is what is left when the characters at offsets 8, 12, 16
/// and 20 are removed one after the other, each offset counted in what the
/// removals before it left.
pub proof fn lemma_compact_by_removal(canonical: Seq<char>)
    requires
        canonical.len() >= 36,
    ensures
        compact_spec(canonical) == canonical.remove(8).remove(12).remove(16).remove(20),
{
    assert(compact_spec(canonical) =~= canonical.remove(8).remove(12).remove(16).remove(20));
}

/// The canonical form comes of inserting a hyphen at offsets 8, 13, 18 and
/// 23, one after the other.
pub proof fn lemma_expand_by_insertion(compact: Seq<char>)
    requires
        compact.len() == 32,
    ensures
        expand_spec(compact) == compact.insert(8, '-').insert(13, '-').insert(18, '-').insert(
            23,
            '-',
        ),
{
    assert(expand_spec(compact) =~= compact.insert(8, '-').insert(13, '-').insert(18, '-').insert(
        23,
        '-',
    ));
}

/// Of a correctly formed UUID the compact form is 32 hexadecimal digits,
/// the same that come of removing every hyphen.
pub proof fn lemma_compact_of_uuid(u: Seq<char>)
    requires
        is_uuid(u),
    ensures
        compact_spec(u).len() == 32,
        forall|i: int| 0 <= i < 32 ==> is_hex_digit(#[trigger] compact_spec(u)[i]),
        compact_spec(u) == without_hyphens(u),
{
    let keep = |c: char| c != '-';
    let hyphen = seq!['-'];
    let a = u.subrange(0, 8);
    let b = u.subrange(9, 13);
    let c = u.subrange(14, 18);
    let d = u.subrange(19, 23);
    let e = u.subrange(24, 36);
    assert(u =~= a + hyphen + b + hyphen + c + hyphen + d + hyphen + e);
    lemma_filter_keeps_all(a, keep);
    lemma_filter_keeps_all(b, keep);
    lemma_filter_keeps_all(c, keep);
    lemma_filter_keeps_all(d, keep);
    lemma_filter_keeps_all(e, keep);
    assert(hyphen.filter(keep) =~= Seq::<char>::empty()) by {
        reveal_with_fuel(Seq::filter, 2);
    }
    Seq::filter_distributes_over_add(a, hyphen, keep);
    Seq::filter_distributes_over_add(a + hyphen, b, keep);
    Seq::filter_distributes_over_add(a + hyphen + b, hyphen, keep);
    Seq::filter_distributes_over_add(a + hyphen + b + hyphen, c, keep);
    Seq::filter_distributes_over_add(a + hyphen + b + hyphen + c, hyphen, keep);
    Seq::filter_distributes_over_add(a + hyphen + b + hyphen + c + hyphen, d, keep);
    Seq::filter_distributes_over_add(a + hyphen + b + hyphen + c + hyphen + d, hyphen, keep);
    Seq::filter_distributes_over_add(
        a + hyphen + b + hyphen + c + hyphen + d + hyphen,
        e,
        keep,
    );
    assert(without_hyphens(u) =~= a + b + c + d + e);
}

/// A filter that every element passes changes nothing.
proof fn lemma_filter_keeps_all(s: Seq<char>, keep: spec_fn(char) -> bool)
    requires
        forall|i: int| 0 <= i < s.len() ==> keep(#[trigger] s[i]),
    ensures
        s.filter(keep) == s,
    decreases s.len(),
{
    reveal(Seq::filter);
    if s.len() > 0 {
        lemma_filter_keeps_all(s.drop_last(), keep);
        assert(s.drop_last().push(s.last()) =~= s);
    }
}

} // verus!
