//! Character-level rules shared by the validated identities.
use vstd::prelude::*;

verus! {

/// Upper bound, in characters, of every validated identity.
pub const MAX_REFERENCE_LENGTH: usize = 160;

/// `c` is an ASCII lowercase letter.
pub open spec fn is_lower(c: char) -> bool {
    'a' <= c && c <= 'z'
}

/// `c` is an ASCII digit.
pub open spec fn is_digit(c: char) -> bool {
    '0' <= c && c <= '9'
}

/// `c` is an ASCII letter or digit.
pub open spec fn is_alphanumeric(c: char) -> bool {
    is_lower(c) || is_digit(c) || ('A' <= c && c <= 'Z')
}

/// `c` has the Unicode `White_Space` property (what `char::is_whitespace` tests).
pub open spec fn is_whitespace(c: char) -> bool {
    let u = c as u32;
    ||| 0x09 <= u <= 0x0d
    ||| u == 0x20
    ||| u == 0x85
    ||| u == 0xa0
    ||| u == 0x1680
    ||| 0x2000 <= u <= 0x200a
    ||| u == 0x2028
    ||| u == 0x2029
    ||| u == 0x202f
    ||| u == 0x205f
    ||| u == 0x3000
}

/// `c` is in the Unicode general category `Cc` (what `char::is_control` tests).
pub open spec fn is_control(c: char) -> bool {
    let u = c as u32;
    u <= 0x1f || (0x7f <= u <= 0x9f)
}

pub fn lower(c: char) -> (r: bool)
    ensures
        r == is_lower(c),
{
    'a' <= c && c <= 'z'
}

pub fn whitespace(c: char) -> (r: bool)
    ensures
        r == is_whitespace(c),
{
    let u = c as u32;
    (0x09 <= u && u <= 0x0d) || u == 0x20 || u == 0x85 || u == 0xa0 || u == 0x1680 || (0x2000
        <= u && u <= 0x200a) || u == 0x2028 || u == 0x2029 || u == 0x202f || u == 0x205f || u
        == 0x3000
}

/// The characters of `s`, in order.
pub fn chars_of(s: &str) -> (v: Vec<char>)
    ensures
        v@ == s@,
{
    let mut v: Vec<char> = Vec::new();
    for c in it: s.chars()
        invariant
            v@ == it.seq().take(it.index() as int),
    {
        v.push(c);
    }
    v
}

/// Strict lexicographic order by character code: the order of `str` comparison.
pub open spec fn text_precedes(a: Seq<char>, b: Seq<char>) -> bool
    decreases a.len(),
{
    if b.len() == 0 {
        false
    } else if a.len() == 0 {
        true
    } else if a[0] != b[0] {
        a[0] < b[0]
    } else {
        text_precedes(a.drop_first(), b.drop_first())
    }
}

/// No text precedes itself.
pub proof fn lemma_precedes_irreflexive(a: Seq<char>)
    ensures
        !text_precedes(a, a),
    decreases a.len(),
{
    if a.len() > 0 {
        lemma_precedes_irreflexive(a.drop_first());
    }
}

/// Of two different texts, exactly one precedes the other.
pub proof fn lemma_precedes_total(a: Seq<char>, b: Seq<char>)
    ensures
        a != b ==> text_precedes(a, b) || text_precedes(b, a),
        !(text_precedes(a, b) && text_precedes(b, a)),
    decreases a.len(),
{
    if a.len() > 0 && b.len() > 0 && a[0] == b[0] {
        lemma_precedes_total(a.drop_first(), b.drop_first());
        if a.drop_first() == b.drop_first() {
            assert(a =~= seq![a[0]] + a.drop_first());
            assert(b =~= seq![b[0]] + b.drop_first());
        }
    } else if a.len() == 0 && b.len() == 0 {
        assert(a =~= b);
    }
}

/// The order is transitive.
pub proof fn lemma_precedes_transitive(a: Seq<char>, b: Seq<char>, c: Seq<char>)
    requires
        text_precedes(a, b),
        text_precedes(b, c),
    ensures
        text_precedes(a, c),
    decreases a.len(),
{
    if a.len() > 0 && a[0] == b[0] && b[0] == c[0] {
        lemma_precedes_transitive(a.drop_first(), b.drop_first(), c.drop_first());
    }
}

/// Characters compare by code point.
pub proof fn lemma_char_order(x: char, y: char)
    ensures
        (x < y) == ((x as u32) < (y as u32)),
        (y < x) == ((y as u32) < (x as u32)),
{
}

/// The order of single characters is their code-point order.
pub proof fn lemma_precedes_single(x: char, y: char)
    ensures
        text_precedes(seq![x], seq![y]) == ((x as u32) < (y as u32)),
{
    assert(seq![x][0] == x);
    assert(seq![y][0] == y);
    if x == y {
        lemma_precedes_irreflexive(seq![x]);
        assert(seq![x] =~= seq![y]);
    }
}

/// A proper prefix precedes the longer text.
pub proof fn lemma_prefix_precedes(a: Seq<char>, b: Seq<char>)
    requires
        a.len() < b.len(),
        b.take(a.len() as int) == a,
    ensures
        text_precedes(a, b),
    decreases a.len(),
{
    if a.len() > 0 {
        assert(b.take(a.len() as int)[0] == b[0]);
        assert(b.drop_first().take(a.drop_first().len() as int) =~= a.drop_first()) by {
            assert forall|i: int| 0 <= i < a.len() - 1 implies b.drop_first()[i] == a.drop_first()[i] by {
                assert(b.take(a.len() as int)[i + 1] == b[i + 1]);
            }
        }
        lemma_prefix_precedes(a.drop_first(), b.drop_first());
    }
}

/// Of two texts agreeing on their first `k` characters and differing at position `k`, the one
/// with the smaller code point there comes first.
pub proof fn lemma_first_difference_decides(a: Seq<char>, b: Seq<char>, k: int)
    requires
        0 <= k < a.len(),
        k < b.len(),
        a.take(k) == b.take(k),
        a[k] != b[k],
    ensures
        text_precedes(a, b) == ((a[k] as u32) < (b[k] as u32)),
        text_precedes(b, a) == ((b[k] as u32) < (a[k] as u32)),
    decreases k,
{
    if k > 0 {
        assert(a.take(k)[0] == a[0]);
        assert(b.take(k)[0] == b[0]);
        assert(a.drop_first().take(k - 1) =~= b.drop_first().take(k - 1)) by {
            assert forall|i: int| 0 <= i < k - 1 implies a.drop_first()[i] == b.drop_first()[i] by {
                assert(a.take(k)[i + 1] == a[i + 1]);
                assert(b.take(k)[i + 1] == b[i + 1]);
            }
        }
        lemma_first_difference_decides(a.drop_first(), b.drop_first(), k - 1);
        assert(a.drop_first()[k - 1] == a[k]);
        assert(b.drop_first()[k - 1] == b[k]);
        assert(a[0] == b[0]);
        assert(text_precedes(a, b) == text_precedes(a.drop_first(), b.drop_first()));
        assert(text_precedes(b, a) == text_precedes(b.drop_first(), a.drop_first()));
    } else {
        lemma_char_order(a[0], b[0]);
    }
}

/// `a` is a prefix of `b`.
pub open spec fn is_prefix(a: Seq<char>, b: Seq<char>) -> bool {
    a.len() <= b.len() && b.take(a.len() as int) == a
}

/// `a` and `b` agree on their first `k` characters and `a` has the smaller code point at `k`.
pub open spec fn smaller_at(a: Seq<char>, b: Seq<char>, k: int) -> bool {
    &&& 0 <= k < a.len()
    &&& k < b.len()
    &&& a.take(k) == b.take(k)
    &&& (a[k] as u32) < (b[k] as u32)
}

/// The first position at which two texts, neither a prefix of the other, differ.
proof fn first_difference(a: Seq<char>, b: Seq<char>) -> (k: int)
    requires
        !is_prefix(a, b),
        !is_prefix(b, a),
    ensures
        0 <= k < a.len(),
        k < b.len(),
        a.take(k) == b.take(k),
        a[k] != b[k],
    decreases a.len(),
{
    if a.len() == 0 {
        assert(b.take(0) =~= a);
    }
    if b.len() == 0 {
        assert(a.take(0) =~= b);
    }
    if a[0] != b[0] {
        assert(a.take(0) =~= b.take(0));
        0
    } else {
        let a1 = a.drop_first();
        let b1 = b.drop_first();
        if is_prefix(a1, b1) {
            assert(b.take(a.len() as int) =~= a) by {
                assert forall|i: int| 1 <= i < a.len() implies b.take(a.len() as int)[i] == a[i] by {
                    assert(b1.take(a1.len() as int)[i - 1] == a1[i - 1]);
                }
            }
        }
        if is_prefix(b1, a1) {
            assert(a.take(b.len() as int) =~= b) by {
                assert forall|i: int| 1 <= i < b.len() implies a.take(b.len() as int)[i] == b[i] by {
                    assert(a1.take(b1.len() as int)[i - 1] == b1[i - 1]);
                }
            }
        }
        let k1 = first_difference(a1, b1);
        assert(a.take(k1 + 1) =~= b.take(k1 + 1)) by {
            assert forall|i: int| 1 <= i < k1 + 1 implies a[i] == b[i] by {
                assert(a1.take(k1)[i - 1] == b1.take(k1)[i - 1]);
            }
        }
        k1 + 1
    }
}

/// `a` precedes `b` exactly when `a` is a proper prefix of `b`, or at the first position where
/// they differ `a` has the smaller code point: the order of `str` comparison.
pub proof fn lemma_precedes_characterized(a: Seq<char>, b: Seq<char>)
    ensures
        text_precedes(a, b) <==> ((a.len() < b.len() && is_prefix(a, b)) || exists|k: int|
            smaller_at(a, b, k)),
{
    if a.len() < b.len() && is_prefix(a, b) {
        lemma_prefix_precedes(a, b);
    } else if is_prefix(b, a) {
        assert forall|k: int| !smaller_at(a, b, k) by {
            if 0 <= k < b.len() && k < a.len() {
                assert(a.take(b.len() as int)[k] == a[k]);
            }
        }
        if b.len() < a.len() {
            lemma_prefix_precedes(b, a);
            lemma_precedes_total(a, b);
        } else {
            assert(a =~= b) by {
                assert(a.take(b.len() as int) =~= a);
            }
            lemma_precedes_irreflexive(a);
        }
    } else {
        if is_prefix(a, b) {
            assert(b.take(b.len() as int) =~= b);
        }
        let k = first_difference(a, b);
        lemma_first_difference_decides(a, b, k);
        if exists|j: int| smaller_at(a, b, j) {
            let j = choose|j: int| smaller_at(a, b, j);
            if j < k {
                assert(a.take(k)[j] == b.take(k)[j]);
            } else if j > k {
                assert(a.take(j)[k] == b.take(j)[k]);
            }
        }
        if (a[k] as u32) < (b[k] as u32) {
            assert(smaller_at(a, b, k));
        }
    }
}

/// Decides `text_precedes` on two strings.
pub fn precedes(a: &str, b: &str) -> (r: bool)
    ensures
        r == text_precedes(a@, b@),
{
    let x = chars_of(a);
    let y = chars_of(b);
    let mut i: usize = 0;
    assert(x@.skip(0) =~= x@);
    assert(y@.skip(0) =~= y@);
    while i < x.len() && i < y.len()
        invariant
            x@ == a@,
            y@ == b@,
            i <= x@.len(),
            i <= y@.len(),
            text_precedes(x@, y@) == text_precedes(x@.skip(i as int), y@.skip(i as int)),
        decreases x@.len() - i,
    {
        let cx: char = x[i];
        let cy: char = y[i];
        if cx != cy {
            assert(x@.skip(i as int)[0] == cx);
            assert(y@.skip(i as int)[0] == cy);
            return cx < cy;
        }
        assert(x@.skip(i as int).drop_first() =~= x@.skip(i + 1));
        assert(y@.skip(i as int).drop_first() =~= y@.skip(i + 1));
        i += 1;
    }
    i < y.len()
}

/// The control characters are exactly the C0 controls U+0000..=U+001F, DEL U+007F and the C1
/// controls U+0080..=U+009F; printable ASCII and every character from U+00A0 on are not.
pub proof fn lemma_control_characters(c: char)
    ensures
        is_control(c) <==> ((c as u32) < 0x20 || (0x7f <= (c as u32) && (c as u32) < 0xa0)),
        0x20 <= (c as u32) < 0x7f ==> !is_control(c),
        (c as u32) >= 0xa0 ==> !is_control(c),
{
}

/// The lowercase letters are exactly `'a'` to `'z'`, and the ASCII letters and digits are
/// exactly the ranges `'a'..='z'`, `'A'..='Z'` and `'0'..='9'`.
pub proof fn lemma_ascii_classes(c: char)
    ensures
        is_lower(c) <==> 0x61 <= (c as u32) <= 0x7a,
        is_digit(c) <==> 0x30 <= (c as u32) <= 0x39,
        is_alphanumeric(c) <==> (0x61 <= (c as u32) <= 0x7a || 0x41 <= (c as u32) <= 0x5a || 0x30
            <= (c as u32) <= 0x39),
{
}

} // verus!
