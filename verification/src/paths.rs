//! Separator-delimited path text: splitting a search-path variable into its
//! entries and joining path components with a platform separator. The
//! separator itself is a parameter, so one implementation serves every
//! platform.

use vstd::prelude::*;

verus! {

/// The text formed by the parts with the separator between them (not after
/// the last part).
pub open spec fn sep_joined(parts: Seq<Seq<u8>>, sep: u8) -> Seq<u8>
    decreases parts.len(),
{
    if parts.len() == 0 {
        Seq::empty()
    } else if parts.len() == 1 {
        parts[0]
    } else {
        parts.first() + seq![sep] + sep_joined(parts.drop_first(), sep)
    }
}

/// The sequence contains no separator byte.
pub open spec fn sep_free(s: Seq<u8>, sep: u8) -> bool {
    forall|i: int| 0 <= i < s.len() ==> s[i] != sep
}

/// Joining one more part appends a separator and the part.
pub proof fn lemma_sep_joined_push(parts: Seq<Seq<u8>>, p: Seq<u8>, sep: u8)
    requires
        parts.len() > 0,
    ensures
        sep_joined(parts.push(p), sep) =~= sep_joined(parts, sep) + seq![sep] + p,
    decreases parts.len(),
{
    if parts.len() == 1 {
        assert(parts.push(p).drop_first() =~= seq![p]);
        assert(parts.push(p).first() == parts[0]);
        assert(sep_joined(seq![p], sep) == p);
        assert(sep_joined(parts, sep) == parts[0]);
    } else {
        assert(parts.push(p).drop_first() =~= parts.drop_first().push(p));
        assert(parts.push(p).first() == parts.first());
        lemma_sep_joined_push(parts.drop_first(), p, sep);
        assert(sep_joined(parts.push(p), sep) == parts.first() + seq![sep] + (sep_joined(
            parts.drop_first(),
            sep,
        ) + seq![sep] + p));
    }
}

/// Split separator-delimited text into its parts: the parts contain no
/// separator, and joined back with the separator they are exactly the input.
/// There is always at least one part; empty text has one empty part.
pub fn split_separated(s: &Vec<u8>, sep: u8) -> (parts: Vec<Vec<u8>>)
    ensures
        parts@.len() >= 1,
        forall|i: int| 0 <= i < parts@.len() ==> sep_free((#[trigger] parts@[i])@, sep),
        sep_joined(parts.deep_view(), sep) == s@,
{
    let mut parts: Vec<Vec<u8>> = Vec::new();
    let mut cur: Vec<u8> = Vec::new();
    let n = s.len();
    let mut i: usize = 0;
    while i < n
        invariant
            0 <= i <= n,
            n == s@.len(),
            sep_free(cur@, sep),
            forall|j: int| 0 <= j < parts@.len() ==> sep_free((#[trigger] parts@[j])@, sep),
            if parts@.len() == 0 {
                cur@ =~= s@.take(i as int)
            } else {
                sep_joined(parts.deep_view(), sep) + seq![sep] + cur@ =~= s@.take(i as int)
            },
        decreases n - i,
    {
        let b = s[i];
        proof {
            assert(s@.take(i + 1) =~= s@.take(i as int).push(s@[i as int]));
        }
        if b == sep {
            let ghost old_parts = parts.deep_view();
            let ghost old_cur = cur@;
            proof {
                if old_parts.len() > 0 {
                    lemma_sep_joined_push(old_parts, old_cur, sep);
                }
            }
            parts.push(cur);
            cur = Vec::new();
            proof {
                assert(parts.deep_view() =~~= old_parts.push(old_cur));
                if old_parts.len() == 0 {
                    assert(parts.deep_view() =~= seq![old_cur]);
                    assert(sep_joined(parts.deep_view(), sep) == old_cur);
                }
            }
        } else {
            cur.push(b);
        }
        i += 1;
    }
    proof {
        assert(s@.take(n as int) =~= s@);
    }
    let ghost old_parts = parts.deep_view();
    let ghost old_cur = cur@;
    proof {
        if old_parts.len() > 0 {
            lemma_sep_joined_push(old_parts, old_cur, sep);
        }
    }
    parts.push(cur);
    proof {
        assert(parts.deep_view() =~~= old_parts.push(old_cur));
        if old_parts.len() == 0 {
            assert(parts.deep_view() =~= seq![old_cur]);
            assert(sep_joined(parts.deep_view(), sep) == old_cur);
        }
    }
    parts
}

/// The decomposition into separator-free parts is unique: two part lists
/// that join to the same text are the same list. In particular splitting a
/// joined list gives the original parts back.
pub proof fn lemma_sep_joined_unique(p1: Seq<Seq<u8>>, p2: Seq<Seq<u8>>, sep: u8)
    requires
        p1.len() >= 1,
        p2.len() >= 1,
        forall|i: int| 0 <= i < p1.len() ==> sep_free(#[trigger] p1[i], sep),
        forall|i: int| 0 <= i < p2.len() ==> sep_free(#[trigger] p2[i], sep),
        sep_joined(p1, sep) == sep_joined(p2, sep),
    ensures
        p1 =~= p2,
    decreases p1.len() + p2.len(),
{
    let t1 = sep_joined(p1, sep);
    let t2 = sep_joined(p2, sep);
    if p1.len() == 1 && p2.len() == 1 {
        assert(p1[0] == t1);
        assert(p2[0] == t2);
    } else if p1.len() == 1 {
        assert(sep_free(t1, sep));
        assert(t2[p2.first().len() as int] == sep);
        assert(false);
    } else if p2.len() == 1 {
        assert(sep_free(t2, sep));
        assert(t1[p1.first().len() as int] == sep);
        assert(false);
    } else {
        let a = p1.first();
        let b = p2.first();
        assert(sep_free(a, sep));
        assert(sep_free(b, sep));
        assert(forall|i: int| 0 <= i < a.len() ==> t1[i] == a[i]);
        assert(t1[a.len() as int] == sep);
        assert(forall|i: int| 0 <= i < b.len() ==> t2[i] == b[i]);
        assert(t2[b.len() as int] == sep);
        if a.len() < b.len() {
            assert(t2[a.len() as int] == b[a.len() as int]);
            assert(false);
        }
        if b.len() < a.len() {
            assert(t1[b.len() as int] == a[b.len() as int]);
            assert(false);
        }
        assert(a =~= b);
        let tail1 = sep_joined(p1.drop_first(), sep);
        let tail2 = sep_joined(p2.drop_first(), sep);
        assert(t1 =~= a + seq![sep] + tail1);
        assert(t2 =~= b + seq![sep] + tail2);
        assert(tail1 =~= tail2) by {
            assert(forall|i: int| 0 <= i < tail1.len() ==> tail1[i] == t1[a.len() + 1 + i]);
            assert(forall|i: int| 0 <= i < tail2.len() ==> tail2[i] == t2[b.len() + 1 + i]);
        }
        lemma_sep_joined_unique(p1.drop_first(), p2.drop_first(), sep);
        assert(p1 =~= p2) by {
            assert(forall|i: int|
                1 <= i < p1.len() ==> #[trigger] p1[i] == p1.drop_first()[i - 1]);
            assert(forall|i: int|
                1 <= i < p2.len() ==> #[trigger] p2[i] == p2.drop_first()[i - 1]);
        }
    }
}

/// Join path components with the separator, components unchanged.
pub fn join_components(components: &Vec<Vec<u8>>, sep: u8) -> (r: Vec<u8>)
    ensures
        r@ == sep_joined(components.deep_view(), sep),
{
    let mut r: Vec<u8> = Vec::new();
    let mut i: usize = 0;
    while i < components.len()
        invariant
            0 <= i <= components@.len(),
            r@ =~= sep_joined(components.deep_view().take(i as int), sep),
        decreases components@.len() - i,
    {
        let ghost done = components.deep_view().take(i as int);
        if i > 0 {
            r.push(sep);
        }
        let c = &components[i];
        let mut j: usize = 0;
        let ghost base = r@;
        while j < c.len()
            invariant
                0 <= j <= c@.len(),
                r@ =~= base + c@.take(j as int),
            decreases c@.len() - j,
        {
            proof {
                assert(c@.take(j + 1) =~= c@.take(j as int).push(c@[j as int]));
            }
            r.push(c[j]);
            j += 1;
        }
        proof {
            assert(c@.take(c@.len() as int) =~= c@);
            assert(components.deep_view().take(i + 1) =~= done.push(components.deep_view()[
                i as int
            ]));
            if i == 0 {
                assert(sep_joined(components.deep_view().take(1), sep) == components.deep_view()[0])
                    by {
                    assert(components.deep_view().take(1).len() == 1);
                }
                assert(r@ =~= components.deep_view()[0]);
            } else {
                lemma_sep_joined_push(done, components.deep_view()[i as int], sep);
            }
        }
        i += 1;
    }
    proof {
        assert(components.deep_view().take(components@.len() as int) =~= components.deep_view());
    }
    r
}

} // verus!
