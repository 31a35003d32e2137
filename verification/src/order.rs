//! The order in which the files of a directory are hashed.
//!
//! Sequences are ordered like words in a dictionary: by their first
//! elements where these differ, else by what follows them, and a sequence
//! comes before every longer one that begins with it. File names are
//! ordered so as sequences of bytes, and paths as sequences of names.

use vstd::prelude::*;
use vstd::relations::*;

verus! {

/// Whether `a` comes before `b` in dictionary order, the elements being
/// ordered by `lt`.
pub open spec fn lex_lt<A>(a: Seq<A>, b: Seq<A>, lt: spec_fn(A, A) -> bool) -> bool
    decreases a.len(),
{
    if b.len() == 0 {
        false
    } else if a.len() == 0 {
        true
    } else if a[0] == b[0] {
        lex_lt(a.drop_first(), b.drop_first(), lt)
    } else {
        lt(a[0], b[0])
    }
}

/// Whether `lt` orders its values strictly and totally: nothing comes
/// before itself, of two different values one comes before the other, and
/// what comes before a value comes before all that follows that value.
pub open spec fn strict_total<A>(lt: spec_fn(A, A) -> bool) -> bool {
    &&& forall|x: A| !#[trigger] lt(x, x)
    &&& forall|x: A, y: A| x != y ==> #[trigger] lt(x, y) || lt(y, x)
    &&& forall|x: A, y: A, z: A| #[trigger] lt(x, y) && #[trigger] lt(y, z) ==> lt(x, z)
}

/// No sequence comes before itself.
pub proof fn lemma_lex_irreflexive<A>(a: Seq<A>, lt: spec_fn(A, A) -> bool)
    requires
        strict_total(lt),
    ensures
        !lex_lt(a, a, lt),
    decreases a.len(),
{
    if a.len() > 0 {
        lemma_lex_irreflexive(a.drop_first(), lt);
    }
}

/// Of two different sequences one comes before the other.
pub proof fn lemma_lex_connected<A>(a: Seq<A>, b: Seq<A>, lt: spec_fn(A, A) -> bool)
    requires
        strict_total(lt),
        a != b,
    ensures
        lex_lt(a, b, lt) || lex_lt(b, a, lt),
    decreases a.len(),
{
    if a.len() > 0 && b.len() > 0 && a[0] == b[0] {
        if a.drop_first() == b.drop_first() {
            assert(a =~= seq![a[0]] + a.drop_first());
            assert(b =~= seq![b[0]] + b.drop_first());
        }
        lemma_lex_connected(a.drop_first(), b.drop_first(), lt);
    } else if a.len() == 0 && b.len() == 0 {
        assert(a =~= b);
    }
}

/// What comes before a sequence comes before all that follows it.
pub proof fn lemma_lex_transitive<A>(a: Seq<A>, b: Seq<A>, c: Seq<A>, lt: spec_fn(A, A) -> bool)
    requires
        strict_total(lt),
        lex_lt(a, b, lt),
        lex_lt(b, c, lt),
    ensures
        lex_lt(a, c, lt),
    decreases a.len(),
{
    if a.len() > 0 {
        if a[0] == b[0] && b[0] == c[0] {
            lemma_lex_transitive(a.drop_first(), b.drop_first(), c.drop_first(), lt);
        } else if a[0] != b[0] && b[0] != c[0] {
            assert(lt(a[0], b[0]) && lt(b[0], c[0]));
            assert(lt(a[0], c[0]));
        }
    }
}

/// Dictionary order over a strict total order is a strict total order.
pub proof fn lemma_lex_strict_total<A>(lt: spec_fn(A, A) -> bool)
    requires
        strict_total(lt),
    ensures
        strict_total(|a: Seq<A>, b: Seq<A>| lex_lt(a, b, lt)),
{
    let order = |a: Seq<A>, b: Seq<A>| lex_lt(a, b, lt);
    assert forall|x: Seq<A>| !#[trigger] order(x, x) by {
        lemma_lex_irreflexive(x, lt);
    }
    assert forall|x: Seq<A>, y: Seq<A>| x != y implies #[trigger] order(x, y) || order(y, x) by {
        lemma_lex_connected(x, y, lt);
    }
    assert forall|x: Seq<A>, y: Seq<A>, z: Seq<A>| #[trigger]
        order(x, y) && #[trigger] order(y, z) implies order(x, z) by {
        lemma_lex_transitive(x, y, z, lt);
    }
}

/// The order of bytes.
pub open spec fn byte_order() -> spec_fn(u8, u8) -> bool {
    |x: u8, y: u8| x < y
}

/// The order of file names: dictionary order of their bytes.
pub open spec fn name_order() -> spec_fn(Seq<u8>, Seq<u8>) -> bool {
    |x: Seq<u8>, y: Seq<u8>| lex_lt(x, y, byte_order())
}

/// Whether the byte sequence `a` comes before `b`.
pub open spec fn bytes_lt(a: Seq<u8>, b: Seq<u8>) -> bool {
    lex_lt(a, b, byte_order())
}

/// Whether the path `a` comes before `b`: dictionary order of their names.
pub open spec fn path_lt(a: Seq<Seq<u8>>, b: Seq<Seq<u8>>) -> bool {
    lex_lt(a, b, name_order())
}

/// Bytes, names and paths are each ordered strictly and totally.
pub proof fn lemma_orders_strict_total()
    ensures
        strict_total(byte_order()),
        strict_total(name_order()),
        strict_total(|a: Seq<Seq<u8>>, b: Seq<Seq<u8>>| path_lt(a, b)),
{
    assert(strict_total(byte_order()));
    lemma_lex_strict_total(byte_order());
    assert(name_order() == |a: Seq<u8>, b: Seq<u8>| lex_lt(a, b, byte_order()));
    lemma_lex_strict_total(name_order());
    assert((|a: Seq<Seq<u8>>, b: Seq<Seq<u8>>| path_lt(a, b)) == (|a: Seq<Seq<u8>>, b: Seq<Seq<u8>>|
        lex_lt(a, b, name_order())));
}

/// How one value stands to another in an order.
#[derive(Clone, Copy, Debug, PartialEq, Eq)]
pub enum Rank {
    Before,
    Same,
    After,
}

/// Says how the bytes `a` stand to `b`.
pub fn rank_bytes(a: &Vec<u8>, b: &Vec<u8>) -> (rank: Rank)
    ensures
        rank == Rank::Before <==> bytes_lt(a@, b@),
        rank == Rank::Same <==> a@ == b@,
        rank == Rank::After <==> bytes_lt(b@, a@),
{
    proof {
        lemma_lex_irreflexive(a@, byte_order());
        if bytes_lt(a@, b@) && bytes_lt(b@, a@) {
            lemma_lex_transitive(a@, b@, a@, byte_order());
        }
    }
    let mut i: usize = 0;
    assert(a@.skip(0) =~= a@ && b@.skip(0) =~= b@);
    while i < a.len() && i < b.len()
        invariant
            i <= a.len(),
            i <= b.len(),
            a@.take(i as int) == b@.take(i as int),
            bytes_lt(a@, b@) == bytes_lt(a@.skip(i as int), b@.skip(i as int)),
            bytes_lt(b@, a@) == bytes_lt(b@.skip(i as int), a@.skip(i as int)),
        decreases a.len() - i,
    {
        if a[i] < b[i] {
            return Rank::Before;
        }
        if b[i] < a[i] {
            return Rank::After;
        }
        assert(a@.skip(i as int).drop_first() =~= a@.skip(i + 1));
        assert(b@.skip(i as int).drop_first() =~= b@.skip(i + 1));
        assert(a@.take(i + 1) =~= a@.take(i as int).push(a@[i as int]));
        assert(b@.take(i + 1) =~= b@.take(i as int).push(b@[i as int]));
        i += 1;
    }
    if i < b.len() {
        Rank::Before
    } else if i < a.len() {
        Rank::After
    } else {
        assert(a@ =~= a@.take(i as int) && b@ =~= b@.take(i as int));
        Rank::Same
    }
}

/// Says how the path `a` stands to `b`.
pub fn rank_paths(a: &Vec<Vec<u8>>, b: &Vec<Vec<u8>>) -> (rank: Rank)
    ensures
        rank == Rank::Before <==> path_lt(a.deep_view(), b.deep_view()),
        rank == Rank::Same <==> a.deep_view() == b.deep_view(),
        rank == Rank::After <==> path_lt(b.deep_view(), a.deep_view()),
{
    proof {
        lemma_orders_strict_total();
        lemma_lex_irreflexive(a.deep_view(), name_order());
        if path_lt(a.deep_view(), b.deep_view()) && path_lt(b.deep_view(), a.deep_view()) {
            lemma_lex_transitive(a.deep_view(), b.deep_view(), a.deep_view(), name_order());
        }
    }
    let ghost av = a.deep_view();
    let ghost bv = b.deep_view();
    let mut i: usize = 0;
    assert(av.skip(0) =~= av && bv.skip(0) =~= bv);
    while i < a.len() && i < b.len()
        invariant
            i <= a.len(),
            i <= b.len(),
            av == a.deep_view(),
            bv == b.deep_view(),
            av.take(i as int) == bv.take(i as int),
            path_lt(av, bv) == path_lt(av.skip(i as int), bv.skip(i as int)),
            path_lt(bv, av) == path_lt(bv.skip(i as int), av.skip(i as int)),
        decreases a.len() - i,
    {
        assert(av[i as int] == a[i as int]@ && bv[i as int] == b[i as int]@);
        match rank_bytes(&a[i], &b[i]) {
            Rank::Before => {
                proof {
                    lemma_lex_irreflexive(av[i as int], byte_order());
                }
                return Rank::Before;
            },
            Rank::After => {
                proof {
                    lemma_lex_irreflexive(av[i as int], byte_order());
                }
                return Rank::After;
            },
            Rank::Same => {},
        }
        assert(av.skip(i as int).drop_first() =~= av.skip(i + 1));
        assert(bv.skip(i as int).drop_first() =~= bv.skip(i + 1));
        assert(av.take(i + 1) =~= av.take(i as int).push(av[i as int]));
        assert(bv.take(i + 1) =~= bv.take(i as int).push(bv[i as int]));
        i += 1;
    }
    if i < b.len() {
        Rank::Before
    } else if i < a.len() {
        Rank::After
    } else {
        assert(av =~= av.take(i as int) && bv =~= bv.take(i as int));
        Rank::Same
    }
}

} // verus!
