//! The list of model ids that an upstream offers, as shown to the user.

use vstd::prelude::*;
use vstd::string::*;

use crate::text::{chars_equal, chars_of, trim, trim_str};

verus! {

/// Lexicographic order by code point, the order of `String`'s `Ord` (UTF-8
/// preserves code point order).
pub open spec fn lex_lt(a: Seq<char>, b: Seq<char>) -> bool
    decreases a.len(),
{
    if a.len() == 0 {
        b.len() > 0
    } else if b.len() == 0 {
        false
    } else if a[0] != b[0] {
        a[0] < b[0]
    } else {
        lex_lt(a.drop_first(), b.drop_first())
    }
}

/// No sequence precedes itself.
pub proof fn lemma_lex_irreflexive(a: Seq<char>)
    ensures
        !lex_lt(a, a),
    decreases a.len(),
{
    if a.len() > 0 {
        lemma_lex_irreflexive(a.drop_first());
    }
}

/// Of two different sequences one precedes the other, and not both.
pub proof fn lemma_lex_total(a: Seq<char>, b: Seq<char>)
    ensures
        a != b ==> (lex_lt(a, b) || lex_lt(b, a)),
        !(lex_lt(a, b) && lex_lt(b, a)),
    decreases a.len(),
{
    if a.len() > 0 && b.len() > 0 {
        lemma_lex_total(a.drop_first(), b.drop_first());
        if a[0] == b[0] && a.drop_first() == b.drop_first() {
            assert forall|i: int| 0 <= i < a.len() implies a[i] == b[i] by {
                if i > 0 {
                    assert(a[i] == a.drop_first()[i - 1]);
                    assert(b[i] == b.drop_first()[i - 1]);
                }
            }
            assert(a =~= b);
        }
    } else if a.len() == 0 && b.len() == 0 {
        assert(a =~= b);
    }
}

/// The order is transitive.
pub proof fn lemma_lex_transitive(a: Seq<char>, b: Seq<char>, c: Seq<char>)
    requires
        lex_lt(a, b),
        lex_lt(b, c),
    ensures
        lex_lt(a, c),
    decreases a.len(),
{
    if a.len() > 0 && b.len() > 0 && c.len() > 0 {
        if a[0] == b[0] && b[0] == c[0] {
            lemma_lex_transitive(a.drop_first(), b.drop_first(), c.drop_first());
        }
    }
}

/// The order is the dictionary order: `a` precedes `b` exactly when `a` is a
/// proper prefix of `b`, or at the first place where they differ `a` has the
/// smaller character, whatever their lengths.
pub proof fn lex_order_is_dictionary_order(a: Seq<char>, b: Seq<char>)
    ensures
        lex_lt(a, b) <==> ((a.len() < b.len() && b.take(a.len() as int) == a) || exists|i: int|
            0 <= i < a.len() && i < b.len() && a.take(i) == b.take(i) && #[trigger] a[i] < b[i]),
    decreases a.len(),
{
    if a.len() > 0 && b.len() > 0 {
        let a1 = a.drop_first();
        let b1 = b.drop_first();
        lex_order_is_dictionary_order(a1, b1);
        if a[0] != b[0] {
            if a[0] < b[0] {
                assert(a.take(0) =~= b.take(0));
                assert(0 < a.len() && 0 < b.len() && a.take(0) == b.take(0) && a[0] < b[0]);
            } else {
                if a.len() < b.len() && b.take(a.len() as int) == a {
                    assert(b.take(a.len() as int)[0] == b[0]);
                }
                assert forall|i: int|
                    0 <= i < a.len() && i < b.len() && a.take(i) == b.take(i) implies !(
                    #[trigger] a[i] < b[i]) by {
                    if i > 0 {
                        assert(a.take(i)[0] == a[0]);
                        assert(b.take(i)[0] == b[0]);
                    }
                }
            }
        } else {
            // The first characters agree: both sides reduce to the tails.
            if a1.len() < b1.len() && b1.take(a1.len() as int) == a1 {
                assert(b.take(a.len() as int) =~= seq![b[0]] + b1.take(a1.len() as int));
                assert(a =~= seq![a[0]] + a1);
            }
            if a.len() < b.len() && b.take(a.len() as int) == a {
                assert forall|k: int| 0 <= k < a1.len() implies #[trigger] b1.take(a1.len() as int)[k]
                    == a1[k] by {
                    assert(b.take(a.len() as int)[k + 1] == a[k + 1]);
                }
                assert(b1.take(a1.len() as int) =~= a1);
            }
            if exists|i: int|
                0 <= i < a1.len() && i < b1.len() && a1.take(i) == b1.take(i) && #[trigger] a1[i]
                    < b1[i] {
                let i = choose|i: int|
                    0 <= i < a1.len() && i < b1.len() && a1.take(i) == b1.take(i) && #[trigger] a1[i]
                        < b1[i];
                assert(a.take(i + 1) =~= seq![a[0]] + a1.take(i));
                assert(b.take(i + 1) =~= seq![b[0]] + b1.take(i));
                assert(a[i + 1] == a1[i] && b[i + 1] == b1[i]);
            }
            if exists|i: int|
                0 <= i < a.len() && i < b.len() && a.take(i) == b.take(i) && #[trigger] a[i] < b[i] {
                let i = choose|i: int|
                    0 <= i < a.len() && i < b.len() && a.take(i) == b.take(i) && #[trigger] a[i]
                        < b[i];
                assert(i > 0);
                assert forall|k: int| 0 <= k < i - 1 implies #[trigger] a1.take(i - 1)[k] == b1.take(
                    i - 1,
                )[k] by {
                    assert(a.take(i)[k + 1] == b.take(i)[k + 1]);
                }
                assert(a1.take(i - 1) =~= b1.take(i - 1));
                assert(a1[i - 1] == a[i] && b1[i - 1] == b[i]);
            }
        }
    } else if a.len() == 0 {
        assert(b.take(0) =~= a);
    }
}

/// Whether `a` precedes `b`.
fn lex_less(a: &Vec<char>, b: &Vec<char>) -> (r: bool)
    ensures
        r == lex_lt(a@, b@),
{
    let mut i: usize = 0;
    assert(a@.skip(0) =~= a@);
    assert(b@.skip(0) =~= b@);
    while i < a.len() && i < b.len() && a[i] == b[i]
        invariant
            i <= a@.len(),
            i <= b@.len(),
            lex_lt(a@, b@) == lex_lt(a@.skip(i as int), b@.skip(i as int)),
        decreases a.len() - i,
    {
        assert(a@.skip(i as int).drop_first() =~= a@.skip(i + 1));
        assert(b@.skip(i as int).drop_first() =~= b@.skip(i + 1));
        i = i + 1;
    }
    if i == a.len() {
        i < b.len()
    } else if i == b.len() {
        false
    } else {
        a[i] < b[i]
    }
}

/// Every element precedes every later one.
pub open spec fn strictly_sorted(v: Seq<Seq<char>>) -> bool {
    forall|i: int, j: int| 0 <= i < j < v.len() ==> lex_lt(#[trigger] v[i], #[trigger] v[j])
}

/// The views of a sequence of strings.
pub open spec fn strings_view(v: Seq<String>) -> Seq<Seq<char>> {
    v.map_values(|s: String| s@)
}

/// Whether `s` is the trimmed form of one of the first `n` ids, and not empty.
pub open spec fn is_listed(ids: Seq<Seq<char>>, n: int, s: Seq<char>) -> bool {
    s.len() > 0 && exists|i: int| 0 <= i < n && trim(#[trigger] ids[i]) == s
}

proof fn lemma_listed_step(ids: Seq<Seq<char>>, k: int, s: Seq<char>)
    requires
        0 <= k < ids.len(),
    ensures
        is_listed(ids, k, s) ==> is_listed(ids, k + 1, s),
        is_listed(ids, k + 1, s) ==> (is_listed(ids, k, s) || s == trim(ids[k])),
        (s == trim(ids[k]) && s.len() > 0) ==> is_listed(ids, k + 1, s),
{
    if is_listed(ids, k, s) {
        let w = choose|w: int| 0 <= w < k && trim(#[trigger] ids[w]) == s;
        assert(0 <= w < k + 1 && trim(ids[w]) == s);
    }
    if is_listed(ids, k + 1, s) && s != trim(ids[k]) {
        let w = choose|w: int| 0 <= w < k + 1 && trim(#[trigger] ids[w]) == s;
        assert(w != k);
        assert(0 <= w < k && trim(ids[w]) == s);
    }
    if s == trim(ids[k]) && s.len() > 0 {
        assert(trim(ids[k]) == s);
    }
}

/// The model ids as shown: each id trimmed, blank ones dropped, sorted and
/// without repeats. Sorted and repeat-free, the result is the only sequence
/// that holds exactly these ids.
pub fn normalize_model_ids(ids: Vec<String>) -> (r: Vec<String>)
    ensures
        strictly_sorted(strings_view(r@)),
        forall|s: Seq<char>|
            strings_view(r@).contains(s) <==> is_listed(strings_view(ids@), ids@.len() as int, s),
{
    let ghost iv = strings_view(ids@);
    let mut out: Vec<String> = Vec::new();
    let mut keys: Vec<Vec<char>> = Vec::new();
    let mut k: usize = 0;
    while k < ids.len()
        invariant
            k <= ids@.len(),
            iv == strings_view(ids@),
            out@.len() == keys@.len(),
            forall|i: int| 0 <= i < out@.len() ==> (#[trigger] out@[i])@ == keys@[i]@,
            strictly_sorted(strings_view(out@)),
            forall|s: Seq<char>| strings_view(out@).contains(s) <==> is_listed(iv, k as int, s),
        decreases ids.len() - k,
    {
        let t = trim_str(ids[k].as_str());
        let ghost sv = strings_view(out@);
        if !t.as_str().is_empty() {
            let tc = chars_of(t.as_str());
            let mut p: usize = 0;
            while p < keys.len() && lex_less(&keys[p], &tc)
                invariant
                    p <= keys@.len(),
                    out@.len() == keys@.len(),
                    forall|i: int| 0 <= i < out@.len() ==> (#[trigger] out@[i])@ == keys@[i]@,
                    sv == strings_view(out@),
                    forall|i: int| 0 <= i < p ==> lex_lt(#[trigger] sv[i], tc@),
                decreases keys.len() - p,
            {
                p = p + 1;
            }
            let present = p < keys.len() && chars_equal(&keys[p], &tc);
            if !present {
                proof {
                    assert forall|i: int| p <= i < sv.len() implies lex_lt(tc@, #[trigger] sv[i]) by {
                        assert(!lex_lt(sv[p as int], tc@));
                        lemma_lex_total(sv[p as int], tc@);
                        if i > p {
                            lemma_lex_transitive(tc@, sv[p as int], sv[i]);
                        }
                    }
                }
                out.insert(p, t);
                keys.insert(p, tc);
                proof {
                    let nv = strings_view(out@);
                    assert(nv =~= sv.insert(p as int, tc@));
                    assert forall|i: int, j: int| 0 <= i < j < nv.len() implies lex_lt(
                        #[trigger] nv[i],
                        #[trigger] nv[j],
                    ) by {
                        if j < p {
                            assert(nv[i] == sv[i] && nv[j] == sv[j]);
                        } else if j == p {
                            assert(nv[i] == sv[i]);
                        } else if i < p {
                            assert(nv[i] == sv[i] && nv[j] == sv[j - 1]);
                            assert(lex_lt(sv[i], tc@));
                            lemma_lex_transitive(sv[i], tc@, sv[j - 1]);
                        } else if i == p {
                            assert(nv[j] == sv[j - 1]);
                        } else {
                            assert(nv[i] == sv[i - 1] && nv[j] == sv[j - 1]);
                        }
                    }
                    assert(iv[k as int] == ids@[k as int]@);
                    assert forall|s: Seq<char>| nv.contains(s) <==> is_listed(iv, k + 1, s) by {
                        lemma_listed_step(iv, k as int, s);
                        if nv.contains(s) {
                            let q = choose|q: int| 0 <= q < nv.len() && nv[q] == s;
                            if q < p {
                                assert(sv[q] == s);
                                assert(sv.contains(s));
                            } else if q > p {
                                assert(sv[q - 1] == s);
                                assert(sv.contains(s));
                            }
                        }
                        if is_listed(iv, k + 1, s) {
                            if s == tc@ {
                                assert(nv[p as int] == s);
                            } else {
                                assert(is_listed(iv, k as int, s));
                                assert(sv.contains(s));
                                let w = choose|w: int| 0 <= w < sv.len() && sv[w] == s;
                                if w < p {
                                    assert(nv[w] == s);
                                } else {
                                    assert(nv[w + 1] == s);
                                }
                            }
                        }
                    }
                }
            } else {
                proof {
                    assert(sv[p as int] == tc@);
                    assert(iv[k as int] == ids@[k as int]@);
                    assert forall|s: Seq<char>| sv.contains(s) <==> is_listed(iv, k + 1, s) by {
                        lemma_listed_step(iv, k as int, s);
                        if s == tc@ {
                            assert(sv.contains(s));
                        }
                    }
                }
            }
        } else {
            proof {
                assert(iv[k as int] == ids@[k as int]@);
                assert forall|s: Seq<char>| sv.contains(s) <==> is_listed(iv, k + 1, s) by {
                    lemma_listed_step(iv, k as int, s);
                }
            }
        }
        k = k + 1;
    }
    out
}

} // verus!
