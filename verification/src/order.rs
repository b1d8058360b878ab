//! Three-way order, and the lexicographic order it induces on sequences.

use std::cmp::Ordering;
use vstd::prelude::*;

verus! {

/// Outcome of comparing a left value with a right value.
#[derive(Clone, Copy, Debug, PartialEq, Eq, Structural)]
pub enum Order {
    /// The left value comes first.
    Less,
    /// Neither value comes first.
    Equal,
    /// The right value comes first.
    Greater,
}

impl Order {
    /// The outcome of the same comparison with its sides exchanged.
    pub open spec fn reversed(self) -> Order {
        match self {
            Order::Less => Order::Greater,
            Order::Equal => Order::Equal,
            Order::Greater => Order::Less,
        }
    }

    /// This outcome where it decides, `next` where it is `Equal`.
    pub open spec fn followed_by(self, next: Order) -> Order {
        match self {
            Order::Equal => next,
            _ => self,
        }
    }

    /// The same outcome in the standard library's type.
    pub open spec fn std_ordering(self) -> Ordering {
        match self {
            Order::Less => Ordering::Less,
            Order::Equal => Ordering::Equal,
            Order::Greater => Ordering::Greater,
        }
    }

    /// Converts the outcome to the standard library's type.
    pub fn to_ordering(self) -> (o: Ordering)
        ensures
            o == self.std_ordering(),
    {
        match self {
            Order::Less => Ordering::Less,
            Order::Equal => Ordering::Equal,
            Order::Greater => Ordering::Greater,
        }
    }
}

/// The order of two integers.
pub open spec fn int_order(x: int, y: int) -> Order {
    if x < y {
        Order::Less
    } else if x == y {
        Order::Equal
    } else {
        Order::Greater
    }
}

/// An element order that calls two elements `Equal` exactly when they are the same.
pub open spec fn separates<T>(elem: spec_fn(T, T) -> Order) -> bool {
    forall|x: T, y: T| #[trigger] elem(x, y) == Order::Equal <==> x == y
}

/// An element order whose outcome reverses when its sides are exchanged.
pub open spec fn antisymmetric<T>(elem: spec_fn(T, T) -> Order) -> bool {
    forall|x: T, y: T| #[trigger] elem(y, x) == elem(x, y).reversed()
}

/// An element order in which `Less` chains: from `x` before `y` and `y` before `z`, `x` before `z`.
pub open spec fn transitive<T>(elem: spec_fn(T, T) -> Order) -> bool {
    forall|x: T, y: T, z: T|
        #[trigger] elem(x, y) == Order::Less && #[trigger] elem(y, z) == Order::Less ==> elem(x, z)
            == Order::Less
}

/// Lexicographic order of two sequences under the element order `elem`: the first position at
/// which the elements are not `Equal` decides, and a sequence that runs out first comes first.
pub open spec fn lex_order<T>(a: Seq<T>, b: Seq<T>, elem: spec_fn(T, T) -> Order) -> Order
    decreases a.len(),
{
    if a.len() == 0 {
        if b.len() == 0 {
            Order::Equal
        } else {
            Order::Less
        }
    } else if b.len() == 0 {
        Order::Greater
    } else {
        elem(a[0], b[0]).followed_by(lex_order(a.drop_first(), b.drop_first(), elem))
    }
}

/// Two sequences are lexicographically `Equal` exactly when they are the same sequence,
/// provided the element order separates elements.
pub proof fn lemma_lex_order_equal<T>(a: Seq<T>, b: Seq<T>, elem: spec_fn(T, T) -> Order)
    requires
        separates(elem),
    ensures
        lex_order(a, b, elem) == Order::Equal <==> a == b,
    decreases a.len(),
{
    if a.len() > 0 && b.len() > 0 {
        lemma_lex_order_equal(a.drop_first(), b.drop_first(), elem);
        if a == b {
            assert(elem(a[0], b[0]) == Order::Equal);
        }
        if lex_order(a, b, elem) == Order::Equal {
            assert(elem(a[0], b[0]) == Order::Equal);
            assert(a.drop_first() == b.drop_first());
            assert(a =~= seq![a[0]] + a.drop_first());
            assert(b =~= seq![b[0]] + b.drop_first());
        }
    } else if a.len() == 0 && b.len() == 0 {
        assert(a =~= b);
    }
}

/// Exchanging the two sequences reverses their lexicographic order, provided the element order
/// is antisymmetric.
pub proof fn lemma_lex_order_reversed<T>(a: Seq<T>, b: Seq<T>, elem: spec_fn(T, T) -> Order)
    requires
        antisymmetric(elem),
    ensures
        lex_order(b, a, elem) == lex_order(a, b, elem).reversed(),
    decreases a.len(),
{
    if a.len() > 0 && b.len() > 0 {
        lemma_lex_order_reversed(a.drop_first(), b.drop_first(), elem);
        assert(elem(b[0], a[0]) == elem(a[0], b[0]).reversed());
    }
}

/// `Less` chains in lexicographic order: a sequence before a second, which is before a third,
/// is before the third, provided the element order separates elements and is transitive.
pub proof fn lemma_lex_order_transitive<T>(
    a: Seq<T>,
    b: Seq<T>,
    c: Seq<T>,
    elem: spec_fn(T, T) -> Order,
)
    requires
        separates(elem),
        transitive(elem),
        lex_order(a, b, elem) == Order::Less,
        lex_order(b, c, elem) == Order::Less,
    ensures
        lex_order(a, c, elem) == Order::Less,
    decreases a.len(),
{
    if a.len() > 0 {
        let first = elem(a[0], b[0]);
        let second = elem(b[0], c[0]);
        if first == Order::Equal && second == Order::Equal {
            assert(elem(a[0], c[0]) == Order::Equal);
            lemma_lex_order_transitive(a.drop_first(), b.drop_first(), c.drop_first(), elem);
        } else if first == Order::Equal {
            assert(elem(a[0], c[0]) == second);
        } else if second == Order::Equal {
            assert(elem(a[0], c[0]) == first);
        } else {
            assert(elem(a[0], c[0]) == Order::Less);
        }
    }
}

/// The lexicographic order of two sequences is that of what is left of them after a common
/// prefix of `n` elements that are pairwise `Equal`.
pub proof fn lemma_lex_order_skip<T>(a: Seq<T>, b: Seq<T>, elem: spec_fn(T, T) -> Order, n: int)
    requires
        0 <= n <= a.len(),
        n <= b.len(),
        forall|i: int| 0 <= i < n ==> elem(#[trigger] a[i], b[i]) == Order::Equal,
    ensures
        lex_order(a, b, elem) == lex_order(a.skip(n), b.skip(n), elem),
    decreases n,
{
    if n == 0 {
        assert(a.skip(0) =~= a);
        assert(b.skip(0) =~= b);
    } else {
        let a1 = a.drop_first();
        let b1 = b.drop_first();
        assert(elem(a[0], b[0]) == Order::Equal);
        assert forall|i: int| 0 <= i < n - 1 implies elem(#[trigger] a1[i], b1[i])
            == Order::Equal by {
            assert(a1[i] == a[i + 1]);
            assert(elem(a[i + 1], b[i + 1]) == Order::Equal);
        }
        lemma_lex_order_skip(a1, b1, elem, n - 1);
        assert(a1.skip(n - 1) =~= a.skip(n));
        assert(b1.skip(n - 1) =~= b.skip(n));
    }
}

} // verus!
