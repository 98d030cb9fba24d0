//! Text substitution: every occurrence of a pattern replaced by another text,
//! as `str::replace` does for a pattern that is not empty.
use vstd::prelude::*;

verus! {

/// Whether `pat` occurs in `s` at position `i`.
pub open spec fn occurs_at(s: Seq<char>, pat: Seq<char>, i: int) -> bool {
    0 <= i && i + pat.len() <= s.len() && s.subrange(i, i + pat.len()) == pat
}

/// `s` with every occurrence of `pat` replaced by `with`, scanning from the
/// left and resuming after each replaced occurrence.
pub open spec fn replaced(s: Seq<char>, pat: Seq<char>, with: Seq<char>) -> Seq<char>
    decreases s.len(),
{
    if s.len() == 0 {
        Seq::empty()
    } else if pat.len() > 0 && occurs_at(s, pat, 0) {
        with + replaced(s.subrange(pat.len() as int, s.len() as int), pat, with)
    } else {
        seq![s[0]] + replaced(s.subrange(1, s.len() as int), pat, with)
    }
}

/// Appends one character to a `String` (`String::push`).
#[verifier::external_body]
fn push_char(s: &mut String, c: char)
    ensures
        final(s)@ == old(s)@.push(c),
{
    s.push(c);
}

/// The characters of `s`, in order.
pub fn chars_of(s: &str) -> (v: Vec<char>)
    ensures
        v@ == s@,
{
    broadcast use vstd::string::group_string_axioms;

    let mut v: Vec<char> = Vec::new();
    for c in it: s.chars()
        invariant
            v@ == it.seq().take(it.index() as int),
            it.seq() == s@,
    {
        v.push(c);
    }
    v
}

/// Whether `pat` occurs in `s` at position `i`.
fn matches_at(s: &Vec<char>, pat: &Vec<char>, i: usize) -> (r: bool)
    requires
        i <= s.len(),
    ensures
        r == occurs_at(s@, pat@, i as int),
{
    if pat.len() > s.len() - i {
        return false;
    }
    let mut j: usize = 0;
    while j < pat.len()
        invariant
            i + pat.len() <= s.len(),
            j <= pat.len(),
            forall|k: int| 0 <= k < j ==> s@[i + k] == pat@[k],
        decreases pat.len() - j,
    {
        if s[i + j] != pat[j] {
            assert(s@.subrange(i as int, i + pat.len())[j as int] != pat@[j as int]);
            return false;
        }
        j = j + 1;
    }
    assert(s@.subrange(i as int, i + pat.len()) =~= pat@);
    true
}

/// Unfolds `replaced` on the suffix of `s` that starts at `i`.
proof fn lemma_replaced_step(s: Seq<char>, pat: Seq<char>, with: Seq<char>, i: int)
    requires
        0 <= i < s.len(),
        pat.len() > 0,
    ensures
        occurs_at(s, pat, i) ==> replaced(s.subrange(i, s.len() as int), pat, with) == with
            + replaced(s.subrange(i + pat.len(), s.len() as int), pat, with),
        !occurs_at(s, pat, i) ==> replaced(s.subrange(i, s.len() as int), pat, with) == seq![s[i]]
            + replaced(s.subrange(i + 1, s.len() as int), pat, with),
{
    let t = s.subrange(i, s.len() as int);
    if i + pat.len() <= s.len() {
        assert(t.subrange(0, pat.len() as int) =~= s.subrange(i, i + pat.len()));
    }
    assert(occurs_at(s, pat, i) == occurs_at(t, pat, 0));
    if occurs_at(s, pat, i) {
        assert(t.subrange(pat.len() as int, t.len() as int) =~= s.subrange(
            i + pat.len(),
            s.len() as int,
        ));
    } else {
        assert(t.subrange(1, t.len() as int) =~= s.subrange(i + 1, s.len() as int));
    }
}

/// `text` with every occurrence of the non-empty `pat` replaced by `with`.
pub fn replace_all(text: &str, pat: &str, with: &str) -> (r: String)
    requires
        pat@.len() > 0,
    ensures
        r@ == replaced(text@, pat@, with@),
{
    let s = chars_of(text);
    let p = chars_of(pat);
    let mut out = String::new();
    let mut i: usize = 0;
    assert(s@.subrange(0, s@.len() as int) =~= s@);
    while i < s.len()
        invariant
            i <= s.len(),
            p@.len() > 0,
            s@ == text@,
            p@ == pat@,
            out@ + replaced(s@.subrange(i as int, s@.len() as int), p@, with@) == replaced(
                text@,
                pat@,
                with@,
            ),
        decreases s.len() - i,
    {
        proof {
            lemma_replaced_step(s@, p@, with@, i as int);
        }
        if matches_at(&s, &p, i) {
            let ghost before = out@;
            out.append(with);
            assert(out@ + replaced(s@.subrange(i + p@.len(), s@.len() as int), p@, with@)
                =~= before + replaced(s@.subrange(i as int, s@.len() as int), p@, with@));
            i = i + p.len();
        } else {
            let ghost before = out@;
            push_char(&mut out, s[i]);
            assert(out@ + replaced(s@.subrange(i + 1, s@.len() as int), p@, with@)
                =~= before + replaced(s@.subrange(i as int, s@.len() as int), p@, with@));
            i = i + 1;
        }
    }
    assert(replaced(s@.subrange(i as int, s@.len() as int), p@, with@) =~= Seq::<char>::empty());
    assert(out@ =~= out@ + Seq::<char>::empty());
    out
}

/// Where `pat` does not occur, replacing it changes nothing.
pub proof fn lemma_replaced_absent(s: Seq<char>, pat: Seq<char>, with: Seq<char>)
    requires
        forall|i: int| !occurs_at(s, pat, i),
    ensures
        replaced(s, pat, with) == s,
    decreases s.len(),
{
    if s.len() > 0 {
        let t = s.subrange(1, s.len() as int);
        assert forall|i: int| !occurs_at(t, pat, i) by {
            if occurs_at(t, pat, i) {
                assert(s.subrange(i + 1, i + 1 + pat.len()) =~= t.subrange(i, i + pat.len()));
                assert(occurs_at(s, pat, i + 1));
            }
        }
        lemma_replaced_absent(t, pat, with);
        assert(!occurs_at(s, pat, 0));
        assert(seq![s[0]] + t =~= s);
    }
}

/// An occurrence at the start is replaced, and the scan resumes after it.
pub proof fn lemma_replaced_at_start(pat: Seq<char>, rest: Seq<char>, with: Seq<char>)
    requires
        pat.len() > 0,
    ensures
        replaced(pat + rest, pat, with) == with + replaced(rest, pat, with),
{
    let s = pat + rest;
    assert(s.subrange(0, pat.len() as int) =~= pat);
    assert(s.subrange(pat.len() as int, s.len() as int) =~= rest);
}

/// A prefix in which no occurrence starts is kept as it is.
pub proof fn lemma_replaced_skip(a: Seq<char>, b: Seq<char>, pat: Seq<char>, with: Seq<char>)
    requires
        pat.len() > 0,
        forall|i: int| 0 <= i < a.len() ==> !occurs_at(a + b, pat, i),
    ensures
        replaced(a + b, pat, with) == a + replaced(b, pat, with),
    decreases a.len(),
{
    if a.len() > 0 {
        let s = a + b;
        let a1 = a.subrange(1, a.len() as int);
        assert(s.subrange(1, s.len() as int) =~= a1 + b);
        assert forall|i: int| 0 <= i < a1.len() implies !occurs_at(a1 + b, pat, i) by {
            if occurs_at(a1 + b, pat, i) {
                assert(s.subrange(i + 1, i + 1 + pat.len()) =~= (a1 + b).subrange(i, i + pat.len()));
                assert(occurs_at(s, pat, i + 1));
            }
        }
        lemma_replaced_skip(a1, b, pat, with);
        assert(!occurs_at(s, pat, 0));
        assert(seq![a[0]] + (a1 + replaced(b, pat, with)) =~= a + replaced(b, pat, with));
    } else {
        assert(a + b =~= b);
        assert(a + replaced(b, pat, with) =~= replaced(b, pat, with));
    }
}

/// No occurrence starts inside a prefix none of whose characters is the
/// first character of the pattern.
pub proof fn lemma_no_start_in(a: Seq<char>, b: Seq<char>, pat: Seq<char>)
    requires
        pat.len() > 0,
        forall|i: int| 0 <= i < a.len() ==> a[i] != pat[0],
    ensures
        forall|i: int| 0 <= i < a.len() ==> !occurs_at(a + b, pat, i),
{
    assert forall|i: int| 0 <= i < a.len() implies !occurs_at(a + b, pat, i) by {
        if occurs_at(a + b, pat, i) {
            assert((a + b).subrange(i, i + pat.len())[0] == (a + b)[i]);
        }
    }
}

} // verus!
