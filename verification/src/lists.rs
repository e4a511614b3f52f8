//! Small operations on lists.

use vstd::prelude::*;

use crate::text::characters;

verus! {

/// A list in the opposite order.
pub fn reversed<T>(v: Vec<T>) -> (r: Vec<T>)
    ensures
        r@ == v@.reverse(),
{
    let mut rest = v;
    let mut out: Vec<T> = Vec::new();
    while rest.len() > 0
        invariant
            rest@.len() <= v@.len(),
            rest@ =~= v@.take(rest@.len() as int),
            out@.len() == v@.len() - rest@.len(),
            forall|k: int| 0 <= k < out@.len() ==> #[trigger] out@[k] == v@[v@.len() - 1 - k],
        decreases rest@.len(),
    {
        match rest.pop() {
            Some(item) => {
                out.push(item);
            },
            None => {},
        }
    }
    assert(out@ =~= v@.reverse());
    out
}

/// Whether a text comes before another: by the first character in which they
/// differ, and a text before what continues it.
pub open spec fn precedes(a: Seq<char>, b: Seq<char>) -> bool
    decreases a.len(),
{
    if b.len() == 0 {
        false
    } else if a.len() == 0 {
        true
    } else if a[0] == b[0] {
        precedes(a.skip(1), b.skip(1))
    } else {
        (a[0] as int) < (b[0] as int)
    }
}

/// The order of texts is total: of two, one comes before the other, or they are
/// the same.
pub proof fn lemma_precedes_is_total(a: Seq<char>, b: Seq<char>)
    ensures
        precedes(a, b) || precedes(b, a) || a == b,
        !(precedes(a, b) && precedes(b, a)),
        a == b ==> !precedes(a, b),
    decreases a.len(),
{
    if a.len() > 0 && b.len() > 0 {
        if a[0] == b[0] {
            lemma_precedes_is_total(a.skip(1), b.skip(1));
            if a.skip(1) == b.skip(1) {
                assert(a.len() == b.len());
                assert forall|i: int| 0 <= i < a.len() implies a[i] == b[i] by {
                    if i > 0 {
                        assert(a.skip(1)[i - 1] == b.skip(1)[i - 1]);
                    }
                }
                assert(a =~= b);
            }
        }
    } else if a.len() == 0 && b.len() == 0 {
        assert(a =~= b);
    }
}

/// The order of texts is transitive.
pub proof fn lemma_precedes_is_transitive(a: Seq<char>, b: Seq<char>, c: Seq<char>)
    requires
        precedes(a, b),
        precedes(b, c),
    ensures
        precedes(a, c),
    decreases a.len(),
{
    if a.len() > 0 && b.len() > 0 && c.len() > 0 && a[0] == b[0] && b[0] == c[0] {
        lemma_precedes_is_transitive(a.skip(1), b.skip(1), c.skip(1));
    }
}

fn char_precedes(p: char, q: char) -> (r: bool)
    ensures
        r == ((p as int) < (q as int)),
{
    (p as u32) < (q as u32)
}

/// Whether a text comes before another.
pub fn text_precedes(a: &str, b: &str) -> (r: bool)
    ensures
        r == precedes(a@, b@),
{
    let x = characters(a);
    let y = characters(b);
    let mut i: usize = 0;
    assert(x@.skip(0) =~= x@);
    assert(y@.skip(0) =~= y@);
    while i < x.len() && i < y.len()
        invariant
            x@ == a@,
            y@ == b@,
            i <= x@.len(),
            i <= y@.len(),
            precedes(x@, y@) == precedes(x@.skip(i as int), y@.skip(i as int)),
        decreases x@.len() - i,
    {
        assert(x@.skip(i as int)[0] == x@[i as int]);
        assert(y@.skip(i as int)[0] == y@[i as int]);
        let p: char = x[i];
        let q: char = y[i];
        if p != q {
            return char_precedes(p, q);
        }
        assert(x@.skip(i as int).skip(1) =~= x@.skip(i as int + 1));
        assert(y@.skip(i as int).skip(1) =~= y@.skip(i as int + 1));
        i = i + 1;
    }
    i < y.len()
}

/// Whether texts are in ascending order, each once.
pub open spec fn is_ascending(v: Seq<String>) -> bool {
    forall|i: int, j: int|
        #![trigger v[i], v[j]]
        0 <= i < j < v.len() ==> precedes(v[i]@, v[j]@)
}

/// Whether a list names a text.
pub open spec fn names(v: Seq<String>, text: Seq<char>) -> bool {
    exists|i: int| 0 <= i < v.len() && #[trigger] v[i]@ == text
}

/// Whether a list names a text.
pub fn lists(v: &Vec<String>, text: &String) -> (r: bool)
    ensures
        r == names(v@, text@),
{
    let mut i: usize = 0;
    while i < v.len()
        invariant
            i <= v@.len(),
            forall|k: int| 0 <= k < i ==> #[trigger] v@[k]@ != text@,
        decreases v@.len() - i,
    {
        if v[i] == *text {
            return true;
        }
        i = i + 1;
    }
    false
}

/// Put a text into a list, which stays ascending if it is: at its place, unless it
/// is there.
pub fn insert_text(v: Vec<String>, text: String) -> (r: Vec<String>)
    ensures
        is_ascending(v@) ==> is_ascending(r@),
        forall|t: Seq<char>| #[trigger] names(r@, t) == (names(v@, t) || t == text@),
{
    let mut out = v;
    let mut i: usize = 0;
    while i < out.len() && text_precedes(out[i].as_str(), text.as_str())
        invariant
            out == v,
            i <= out@.len(),
            forall|k: int| 0 <= k < i ==> precedes(#[trigger] out@[k]@, text@),
        decreases out@.len() - i,
    {
        i = i + 1;
    }
    if i < out.len() && out[i] == text {
        assert forall|t: Seq<char>| #[trigger] names(out@, t) == (names(v@, t) || t == text@) by {
            if t == text@ {
                assert(out@[i as int]@ == t);
            }
        }
        return out;
    }
    proof {
        if i < out@.len() {
            lemma_precedes_is_total(out@[i as int]@, text@);
            assert(precedes(text@, out@[i as int]@));
        }
    }
    out.insert(i, text);
    proof {
        assert(out@ == v@.insert(i as int, text));
        assert forall|a: int, b: int|
            #![trigger out@[a], out@[b]]
            is_ascending(v@) && 0 <= a < b < out@.len() implies precedes(
            out@[a]@,
            out@[b]@,
        ) by {
            if b < i {
                assert(out@[a] == v@[a] && out@[b] == v@[b]);
            } else if b == i {
                assert(out@[a] == v@[a]);
            } else if a == i {
                assert(out@[b] == v@[b - 1]);
                if b - 1 > i {
                    assert(precedes(v@[i as int]@, v@[b - 1]@));
                    lemma_precedes_is_transitive(text@, v@[i as int]@, v@[b - 1]@);
                }
            } else if a < i {
                assert(out@[a] == v@[a] && out@[b] == v@[b - 1]);
            } else {
                assert(out@[a] == v@[a - 1] && out@[b] == v@[b - 1]);
            }
        }
        assert forall|t: Seq<char>| #[trigger] names(out@, t) == (names(v@, t) || t == text@) by {
            if names(v@, t) {
                let k = choose|k: int| 0 <= k < v@.len() && #[trigger] v@[k]@ == t;
                if k < i {
                    assert(out@[k]@ == t);
                } else {
                    assert(out@[k + 1]@ == t);
                }
            }
            if t == text@ {
                assert(out@[i as int]@ == t);
            }
            if names(out@, t) {
                let k = choose|k: int| 0 <= k < out@.len() && #[trigger] out@[k]@ == t;
                if k < i {
                    assert(v@[k]@ == t);
                } else if k > i {
                    assert(v@[k - 1]@ == t);
                }
            }
        }
    }
    out
}

/// A list names what is in it, and what is added to it; an empty one names nothing.
pub proof fn lemma_list_names_its_members(v: Seq<String>, last: String, text: Seq<char>)
    ensures
        !names(Seq::empty(), text),
        names(v.push(last), text) <==> names(v, text) || last@ == text,
{
    let longer = v.push(last);
    if names(v, text) {
        let i = choose|i: int| 0 <= i < v.len() && #[trigger] v[i]@ == text;
        assert(longer[i]@ == text);
    }
    if names(longer, text) && last@ != text {
        let i = choose|i: int| 0 <= i < longer.len() && #[trigger] longer[i]@ == text;
        assert(v[i]@ == text);
    }
    assert(longer[v.len() as int]@ == last@);
}

/// The first character in which two texts differ decides which comes first, the smaller
/// one before the greater, whatever stands before it or behind it; and a text comes
/// before what continues it.
pub proof fn lemma_first_difference_decides(
    common: Seq<char>,
    x: char,
    y: char,
    a: Seq<char>,
    b: Seq<char>,
)
    requires
        x != y,
    ensures
        precedes(common + seq![x] + a, common + seq![y] + b) <==> x < y,
        precedes(common, common + seq![x] + a),
        !precedes(common + seq![x] + a, common),
    decreases common.len(),
{
    let one = common + seq![x] + a;
    let other = common + seq![y] + b;
    if common.len() == 0 {
        assert(one[0] == x);
        assert(other[0] == y);
    } else {
        let rest = common.skip(1);
        lemma_first_difference_decides(rest, x, y, a, b);
        assert(one.skip(1) =~= rest + seq![x] + a);
        assert(other.skip(1) =~= rest + seq![y] + b);
        assert(one[0] == common[0]);
        assert(other[0] == common[0]);
    }
}

} // verus!
