//! The order in which program names are kept and listed: lexicographic by
//! character, the order that `Ord` for `str` gives.
use vstd::prelude::*;
use vstd::string::*;

verus! {

/// `a` comes strictly before `b`: at the first position where they differ
/// `a` has the smaller character, or `a` is a proper prefix of `b`.
pub open spec fn name_less(a: Seq<char>, b: Seq<char>) -> bool
    decreases a.len(),
{
    if a.len() == 0 {
        b.len() > 0
    } else if b.len() == 0 {
        false
    } else if a[0] != b[0] {
        (a[0] as int) < (b[0] as int)
    } else {
        name_less(a.drop_first(), b.drop_first())
    }
}

/// No name comes before itself.
pub proof fn lemma_name_less_irreflexive(a: Seq<char>)
    ensures
        !name_less(a, a),
    decreases a.len(),
{
    if a.len() > 0 {
        lemma_name_less_irreflexive(a.drop_first());
    }
}

/// The order is transitive.
pub proof fn lemma_name_less_transitive(a: Seq<char>, b: Seq<char>, c: Seq<char>)
    requires
        name_less(a, b),
        name_less(b, c),
    ensures
        name_less(a, c),
    decreases a.len(),
{
    if a.len() > 0 && b.len() > 0 && c.len() > 0 {
        if a[0] == b[0] && b[0] == c[0] {
            lemma_name_less_transitive(a.drop_first(), b.drop_first(), c.drop_first());
        }
    }
}

/// Two different names are ordered one way or the other.
pub proof fn lemma_name_less_total(a: Seq<char>, b: Seq<char>)
    requires
        a != b,
    ensures
        name_less(a, b) || name_less(b, a),
    decreases a.len(),
{
    if a.len() == 0 {
        assert(b.len() > 0) by {
            if b.len() == 0 {
                assert(a =~= b);
            }
        }
    } else if b.len() > 0 && a[0] == b[0] {
        if a.drop_first() == b.drop_first() {
            assert(a =~= seq![a[0]] + a.drop_first());
            assert(b =~= seq![b[0]] + b.drop_first());
        }
        lemma_name_less_total(a.drop_first(), b.drop_first());
    }
}

/// The order is asymmetric.
pub proof fn lemma_name_less_asymmetric(a: Seq<char>, b: Seq<char>)
    requires
        name_less(a, b),
    ensures
        !name_less(b, a),
{
    if name_less(b, a) {
        lemma_name_less_transitive(a, b, a);
        lemma_name_less_irreflexive(a);
    }
}

/// The outcome of comparing two names.
#[derive(Debug, Clone, Copy, PartialEq, Eq, Structural)]
pub enum NameOrder {
    Less,
    Equal,
    Greater,
}

/// Compares two names character by character.
pub fn compare_names(a: &str, b: &str) -> (res: NameOrder)
    ensures
        res == NameOrder::Less <==> name_less(a@, b@),
        res == NameOrder::Equal <==> a@ == b@,
        res == NameOrder::Greater <==> name_less(b@, a@),
{
    let la = a.unicode_len();
    let lb = b.unicode_len();
    let mut i: usize = 0;
    assert(a@.skip(0) =~= a@);
    assert(b@.skip(0) =~= b@);
    while i < la && i < lb
        invariant
            la == a@.len(),
            lb == b@.len(),
            i <= la,
            i <= lb,
            a@.take(i as int) =~= b@.take(i as int),
            name_less(a@, b@) == name_less(a@.skip(i as int), b@.skip(i as int)),
            name_less(b@, a@) == name_less(b@.skip(i as int), a@.skip(i as int)),
        decreases la - i,
    {
        let ca = a.get_char(i);
        let cb = b.get_char(i);
        if ca != cb {
            let lt = (ca as u32) < (cb as u32);
            assert(a@.skip(i as int)[0] == ca);
            assert(b@.skip(i as int)[0] == cb);
            proof {
                if a@ == b@ {
                    assert(a@[i as int] == b@[i as int]);
                }
            }
            if lt {
                return NameOrder::Less;
            } else {
                return NameOrder::Greater;
            }
        }
        assert(a@.skip(i as int).drop_first() =~= a@.skip(i + 1));
        assert(b@.skip(i as int).drop_first() =~= b@.skip(i + 1));
        assert(a@.take(i + 1) =~= a@.take(i as int).push(ca));
        assert(b@.take(i + 1) =~= b@.take(i as int).push(cb));
        i = i + 1;
    }
    if la == lb {
        assert(a@ =~= a@.take(i as int));
        assert(b@ =~= b@.take(i as int));
        proof {
            lemma_name_less_irreflexive(a@);
        }
        NameOrder::Equal
    } else if la < lb {
        proof {
            if a@ == b@ {
                assert(a@.len() == b@.len());
            }
        }
        NameOrder::Less
    } else {
        proof {
            if a@ == b@ {
                assert(a@.len() == b@.len());
            }
        }
        NameOrder::Greater
    }
}

} // verus!
