//! Character-level text operations that the assembler is built from.
use vstd::prelude::*;
use vstd::std_specs::iter::IteratorSpec;
use vstd::string::*;

verus! {

broadcast use vstd::string::axiom_spec_iter, vstd::string::next_postcondition;

/// The characters of `s`, in order.
pub fn chars_of(s: &str) -> (r: Vec<char>)
    ensures
        r@ == s@,
{
    let mut it = s.chars();
    let mut out: Vec<char> = Vec::new();
    loop
        invariant
            it.obeys_prophetic_iter_laws(),
            it.decrease() is Some,
            s@ == out@ + it.remaining(),
        ensures
            out@ == s@,
        decreases it.decrease()->0,
    {
        match it.next() {
            Some(c) => {
                out.push(c);
            },
            None => {
                assert(out@ =~= s@);
                break;
            },
        }
    }
    out
}

/// Relies on std's `FromIterator<char> for String`: the string holds the
/// characters in the order given.
#[verifier::external_body]
pub(crate) fn string_of(v: &Vec<char>) -> (r: String)
    ensures
        r@ == v@,
{
    v.iter().collect()
}


/// `pat` stands in `s` starting at index `i`.
pub open spec fn occurs_at(s: Seq<char>, i: int, pat: Seq<char>) -> bool {
    0 <= i && i + pat.len() <= s.len() && s.subrange(i, i + pat.len()) == pat
}

/// `s` with every occurrence of `pat`, found from left to right without
/// overlap, replaced by `with`.
pub open spec fn replace_all(s: Seq<char>, pat: Seq<char>, with: Seq<char>) -> Seq<char>
    decreases s.len(),
{
    if s.len() == 0 || pat.len() == 0 {
        s
    } else if occurs_at(s, 0, pat) {
        with + replace_all(s.skip(pat.len() as int), pat, with)
    } else {
        seq![s[0]] + replace_all(s.skip(1), pat, with)
    }
}

/// Whether `pat` stands in `s` at index `i`.
pub fn matches_at(s: &Vec<char>, i: usize, pat: &Vec<char>) -> (r: bool)
    ensures
        r == occurs_at(s@, i as int, pat@),
{
    if i > s.len() || pat.len() > s.len() - i {
        return false;
    }
    let n = s.len();
    let mut k: usize = 0;
    while k < pat.len()
        invariant
            n == s@.len(),
            i + pat@.len() <= s@.len(),
            k <= pat@.len(),
            forall|j: int| 0 <= j < k ==> s@[i + j] == pat@[j],
        decreases pat@.len() - k,
    {
        if s[i + k] != pat[k] {
            assert(s@.subrange(i as int, i + pat@.len())[k as int] != pat@[k as int]);
            return false;
        }
        k = k + 1;
    }
    assert(s@.subrange(i as int, i + pat@.len()) =~= pat@);
    true
}

/// Appends the characters of `b` to `a`.
pub fn extend_chars(a: &mut Vec<char>, b: &Vec<char>)
    ensures
        final(a)@ == old(a)@ + b@,
{
    let mut k: usize = 0;
    while k < b.len()
        invariant
            k <= b@.len(),
            a@ == old(a)@ + b@.subrange(0, k as int),
        decreases b@.len() - k,
    {
        a.push(b[k]);
        k = k + 1;
        assert(a@ =~= old(a)@ + b@.subrange(0, k as int));
    }
    assert(b@.subrange(0, b@.len() as int) =~= b@);
}

/// `s` with every occurrence of `pat` replaced by `with`, scanning from
/// left to right.
pub fn replace_chars(s: &Vec<char>, pat: &Vec<char>, with: &Vec<char>) -> (r: Vec<char>)
    ensures
        r@ == replace_all(s@, pat@, with@),
{
    let mut out: Vec<char> = Vec::new();
    if pat.len() == 0 {
        extend_chars(&mut out, s);
        return out;
    }
    let mut i: usize = 0;
    assert(s@.skip(0) =~= s@);
    assert(out@ + replace_all(s@, pat@, with@) =~= replace_all(s@, pat@, with@));
    while i < s.len()
        invariant
            pat@.len() > 0,
            i <= s@.len(),
            replace_all(s@, pat@, with@) == out@ + replace_all(s@.skip(i as int), pat@, with@),
        decreases s@.len() - i,
    {
        let ghost rest = s@.skip(i as int);
        if matches_at(s, i, pat) {
            assert(rest.subrange(0, pat@.len() as int) =~= s@.subrange(i as int, i + pat@.len()));
            assert(rest.skip(pat@.len() as int) =~= s@.skip(i + pat@.len()));
            extend_chars(&mut out, with);
            i = i + pat.len();
        } else {
            assert(!occurs_at(rest, 0, pat@)) by {
                if occurs_at(rest, 0, pat@) {
                    assert(rest.subrange(0, pat@.len() as int) =~= s@.subrange(i as int, i + pat@.len()));
                }
            }
            assert(rest.skip(1) =~= s@.skip(i + 1));
            assert(rest[0] == s@[i as int]);
            out.push(s[i]);
            i = i + 1;
        }
    }
    assert(s@.skip(i as int).len() == 0);
    assert(out@ + seq![] =~= out@);
    out
}


/// `i` is the start of the last occurrence of `pat` in `s`.
pub open spec fn is_last_occurrence(s: Seq<char>, pat: Seq<char>, i: int) -> bool {
    occurs_at(s, i, pat) && forall|j: int| i < j ==> !occurs_at(s, j, pat)
}

/// The start of the last occurrence of `pat` in `s`, if any.
pub fn rfind_chars(s: &Vec<char>, pat: &Vec<char>) -> (r: Option<usize>)
    ensures
        r matches Some(i) ==> is_last_occurrence(s@, pat@, i as int),
        r is None ==> forall|j: int| !occurs_at(s@, j, pat@),
{
    if pat.len() > s.len() {
        return None;
    }
    let mut j: usize = s.len() - pat.len();
    loop
        invariant
            j <= s@.len() - pat@.len(),
            forall|k: int| j < k ==> !occurs_at(s@, k, pat@),
        decreases j,
    {
        if matches_at(s, j, pat) {
            return Some(j);
        }
        if j == 0 {
            return None;
        }
        j = j - 1;
    }
}

/// Replacing a one-character pattern splits at each of its occurrences.
pub proof fn lemma_replace_char_split(x: Seq<char>, y: Seq<char>, m: char, with: Seq<char>)
    requires
        !x.contains(m),
    ensures
        replace_all(x + seq![m] + y, seq![m], with) == x + with + replace_all(y, seq![m], with),
    decreases x.len(),
{
    let s = x + seq![m] + y;
    if x.len() == 0 {
        assert(s.subrange(0, 1) =~= seq![m]);
        assert(s.skip(1) =~= y);
        assert(x + with =~= with);
    } else {
        assert(s[0] == x[0]);
        assert(!occurs_at(s, 0, seq![m])) by {
            if occurs_at(s, 0, seq![m]) {
                assert(s.subrange(0, 1)[0] == m);
                assert(x.contains(m));
            }
        }
        let x1 = x.skip(1);
        assert(!x1.contains(m)) by {
            if x1.contains(m) {
                let k = choose|k: int| 0 <= k < x1.len() && x1[k] == m;
                assert(x[k + 1] == m);
            }
        }
        assert(s.skip(1) =~= x1 + seq![m] + y);
        lemma_replace_char_split(x1, y, m, with);
        assert(seq![x[0]] + (x1 + with + replace_all(y, seq![m], with))
            =~= x + with + replace_all(y, seq![m], with));
    }
}

/// Text without the one-character pattern is left unchanged.
pub proof fn lemma_replace_char_absent(x: Seq<char>, m: char, with: Seq<char>)
    requires
        !x.contains(m),
    ensures
        replace_all(x, seq![m], with) == x,
    decreases x.len(),
{
    if x.len() > 0 {
        assert(!occurs_at(x, 0, seq![m])) by {
            if occurs_at(x, 0, seq![m]) {
                assert(x.subrange(0, 1)[0] == m);
            }
        }
        let x1 = x.skip(1);
        assert(!x1.contains(m)) by {
            if x1.contains(m) {
                let k = choose|k: int| 0 <= k < x1.len() && x1[k] == m;
                assert(x[k + 1] == m);
            }
        }
        lemma_replace_char_absent(x1, m, with);
        assert(seq![x[0]] + x1 =~= x);
    }
}


/// `s` ends with `suffix`.
pub open spec fn has_suffix(s: Seq<char>, suffix: Seq<char>) -> bool {
    suffix.len() <= s.len() && s.subrange(s.len() - suffix.len(), s.len() as int) == suffix
}

/// Whether `s` ends with `suffix`.
pub fn ends_with_chars(s: &Vec<char>, suffix: &Vec<char>) -> (r: bool)
    ensures
        r == has_suffix(s@, suffix@),
{
    if suffix.len() > s.len() {
        return false;
    }
    matches_at(s, s.len() - suffix.len(), suffix)
}

/// The first `n` characters of `s`.
pub fn prefix_chars(s: &Vec<char>, n: usize) -> (r: Vec<char>)
    requires
        n <= s@.len(),
    ensures
        r@ == s@.subrange(0, n as int),
{
    let mut out: Vec<char> = Vec::new();
    let mut k: usize = 0;
    while k < n
        invariant
            k <= n,
            n <= s@.len(),
            out@ == s@.subrange(0, k as int),
        decreases n - k,
    {
        out.push(s[k]);
        k = k + 1;
        assert(out@ =~= s@.subrange(0, k as int));
    }
    out
}

/// `s` without `suffix`, where it ends with it.
pub fn strip_suffix_chars(s: &str, suffix: &str) -> (r: Option<String>)
    ensures
        r is Some <==> has_suffix(s@, suffix@),
        r matches Some(t) ==> t@ == s@.subrange(0, s@.len() - suffix@.len()),
{
    let cs = chars_of(s);
    let xs = chars_of(suffix);
    if ends_with_chars(&cs, &xs) {
        let kept = prefix_chars(&cs, cs.len() - xs.len());
        Some(string_of(&kept))
    } else {
        None
    }
}

} // verus!
