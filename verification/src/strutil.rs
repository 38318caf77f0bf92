//! Verified character-level string helpers: prefix and substring tests,
//! equality, and joining, all specified over `Seq<char>`.

use vstd::prelude::*;

verus! {

/// `p` is a prefix of `s`.
pub open spec fn spec_starts_with(s: Seq<char>, p: Seq<char>) -> bool {
    p.len() <= s.len() && (forall|i: int| 0 <= i < p.len() ==> s[i] == p[i])
}

/// `p` occurs in `s` at offset `k`.
pub open spec fn contains_at(s: Seq<char>, p: Seq<char>, k: int) -> bool {
    0 <= k && k + p.len() <= s.len() && (forall|i: int| 0 <= i < p.len() ==> s[k + i] == p[i])
}

/// `p` occurs somewhere in `s`.
pub open spec fn spec_contains(s: Seq<char>, p: Seq<char>) -> bool {
    exists|k: int| contains_at(s, p, k)
}

/// Joining a sequence of parts with a separator.
pub open spec fn seq_join(parts: Seq<Seq<char>>, sep: Seq<char>) -> Seq<char>
    decreases parts.len(),
{
    if parts.len() == 0 {
        Seq::<char>::empty()
    } else if parts.len() == 1 {
        parts[0]
    } else {
        parts[0] + sep + seq_join(parts.drop_first(), sep)
    }
}

/// Appending one more part to a join extends it by a separator and the part.
pub proof fn lemma_seq_join_push(parts: Seq<Seq<char>>, sep: Seq<char>, x: Seq<char>)
    ensures
        seq_join(parts.push(x), sep) == if parts.len() == 0 {
            x
        } else {
            (seq_join(parts, sep) + sep + x)
        },
    decreases parts.len(),
{
    if parts.len() == 0 {
        assert(parts.push(x) =~= seq![x]);
        assert(seq_join(parts.push(x), sep) == x);
    } else if parts.len() == 1 {
        assert(parts.push(x).drop_first() =~= seq![x]);
        assert(seq![x].len() == 1 && seq![x][0] == x);
        assert(seq_join(seq![x], sep) == x);
        assert(parts.push(x)[0] == parts[0]);
        assert(seq_join(parts.push(x), sep) == parts[0] + sep + x);
    } else {
        assert(parts.push(x).drop_first() =~= parts.drop_first().push(x));
        lemma_seq_join_push(parts.drop_first(), sep, x);
        assert(seq_join(parts.push(x), sep) == parts[0] + sep + seq_join(
            parts.drop_first().push(x),
            sep,
        ));
        assert(seq_join(parts, sep) + sep + x =~= parts[0] + sep + (seq_join(
            parts.drop_first(),
            sep,
        ) + sep + x));
    }
}

/// Relies on `String::push`: appends exactly the one character.
#[verifier::external_body]
pub fn push_char(s: &mut String, c: char)
    ensures
        final(s)@ == old(s)@ + seq![c],
{
    s.push(c);
}

/// Whether `s` starts with `p`, by character.
pub fn str_starts_with(s: &str, p: &str) -> (r: bool)
    ensures
        r == spec_starts_with(s@, p@),
{
    let sn = s.unicode_len();
    let pn = p.unicode_len();
    if pn > sn {
        return false;
    }
    let mut i: usize = 0;
    while i < pn
        invariant
            i <= pn <= sn,
            pn == p@.len(),
            sn == s@.len(),
            forall|j: int| 0 <= j < i ==> s@[j] == p@[j],
        decreases pn - i,
    {
        if s.get_char(i) != p.get_char(i) {
            return false;
        }
        i += 1;
    }
    true
}

/// Whether `p` occurs in `s`, by character.
pub fn str_contains(s: &str, p: &str) -> (r: bool)
    ensures
        r == spec_contains(s@, p@),
{
    let sn = s.unicode_len();
    let pn = p.unicode_len();
    if pn > sn {
        assert(forall|k: int| !contains_at(s@, p@, k));
        return false;
    }
    let mut k: usize = 0;
    while k <= sn - pn
        invariant
            pn <= sn,
            pn == p@.len(),
            sn == s@.len(),
            k <= sn - pn + 1,
            forall|j: int| 0 <= j < k ==> !contains_at(s@, p@, j),
        decreases sn - pn - k + 1,
    {
        let mut i: usize = 0;
        let mut hit = true;
        while i < pn
            invariant
                k + pn <= sn,
                pn == p@.len(),
                sn == s@.len(),
                i <= pn,
                hit == (forall|j: int| 0 <= j < i ==> s@[k + j] == p@[j]),
            decreases pn - i,
        {
            if s.get_char(k + i) != p.get_char(i) {
                hit = false;
                assert(!(forall|j: int| 0 <= j < i + 1 ==> s@[k + j] == p@[j]));
                i = pn;
            } else {
                i += 1;
            }
        }
        if hit {
            assert(contains_at(s@, p@, k as int));
            return true;
        }
        assert(!contains_at(s@, p@, k as int));
        k += 1;
    }
    assert(forall|j: int| contains_at(s@, p@, j) ==> 0 <= j <= sn - pn);
    false
}

/// Whether two strings hold the same characters.
pub fn str_eq(a: &str, b: &str) -> (r: bool)
    ensures
        r == (a@ == b@),
{
    let an = a.unicode_len();
    let bn = b.unicode_len();
    if an != bn {
        return false;
    }
    let mut i: usize = 0;
    while i < an
        invariant
            i <= an,
            an == a@.len(),
            an == b@.len(),
            forall|j: int| 0 <= j < i ==> a@[j] == b@[j],
        decreases an - i,
    {
        if a.get_char(i) != b.get_char(i) {
            return false;
        }
        i += 1;
    }
    assert(a@ =~= b@);
    true
}

/// Join the parts with the separator, in order.
pub fn join_strings(parts: &Vec<String>, sep: &str) -> (r: String)
    ensures
        r@ == seq_join(parts.deep_view(), sep@),
{
    let mut out = String::new();
    let mut i: usize = 0;
    while i < parts.len()
        invariant
            i <= parts@.len(),
            parts.deep_view().len() == parts@.len(),
            forall|j: int| 0 <= j < parts@.len() ==> parts.deep_view()[j] == parts@[j]@,
            out@ == seq_join(parts.deep_view().subrange(0, i as int), sep@),
        decreases parts@.len() - i,
    {
        if i > 0 {
            out.append(sep);
        }
        out.append(parts[i].as_str());
        proof {
            let pv = parts.deep_view();
            lemma_seq_join_push(pv.subrange(0, i as int), sep@, pv[i as int]);
            assert(pv.subrange(0, i as int).push(pv[i as int]) =~= pv.subrange(0, i + 1));
        }
        i += 1;
    }
    proof {
        assert(parts.deep_view().subrange(0, parts@.len() as int) =~= parts.deep_view());
    }
    out
}

} // verus!
