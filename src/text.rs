use vstd::prelude::*;
use vstd::std_specs::iter::IteratorSpec;

verus! {

/// Whether `i` is a position at which `p` occurs in `s`.
pub open spec fn occurs_at(s: Seq<char>, p: Seq<char>, i: int) -> bool {
    0 <= i && i + p.len() <= s.len() && s.subrange(i, i + p.len()) == p
}

/// The first position at or after `i` at which `p` occurs in `s`.
pub open spec fn find_from(s: Seq<char>, p: Seq<char>, i: int) -> Option<int>
    decreases s.len() - i,
{
    if i < 0 || i >= s.len() || i + p.len() > s.len() {
        None
    } else if occurs_at(s, p, i) {
        Some(i)
    } else {
        find_from(s, p, i + 1)
    }
}

/// The first position at which `p` occurs in `s`.
pub open spec fn find_first(s: Seq<char>, p: Seq<char>) -> Option<int> {
    find_from(s, p, 0)
}

/// Unicode's White_Space property, as `char::is_whitespace` tests it.
pub open spec fn is_white(c: char) -> bool {
    let u = c as u32;
    (0x09 <= u && u <= 0x0D) || u == 0x20 || u == 0x85 || u == 0xA0 || u == 0x1680
        || (0x2000 <= u && u <= 0x200A) || u == 0x2028 || u == 0x2029 || u == 0x202F
        || u == 0x205F || u == 0x3000
}

/// `s` without its leading whitespace.
pub open spec fn trim_start(s: Seq<char>) -> Seq<char>
    decreases s.len(),
{
    if s.len() > 0 && is_white(s[0]) {
        trim_start(s.drop_first())
    } else {
        s
    }
}

/// `s` without its trailing whitespace.
pub open spec fn trim_end(s: Seq<char>) -> Seq<char>
    decreases s.len(),
{
    if s.len() > 0 && is_white(s.last()) {
        trim_end(s.drop_last())
    } else {
        s
    }
}

/// `s` without leading and trailing whitespace.
pub open spec fn trim(s: Seq<char>) -> Seq<char> {
    trim_end(trim_start(s))
}

/// Tests a character for Unicode whitespace.
pub fn is_whitespace_char(c: char) -> (r: bool)
    ensures
        r == is_white(c),
{
    let u = c as u32;
    (0x09 <= u && u <= 0x0D) || u == 0x20 || u == 0x85 || u == 0xA0 || u == 0x1680
        || (0x2000 <= u && u <= 0x200A) || u == 0x2028 || u == 0x2029 || u == 0x202F
        || u == 0x205F || u == 0x3000
}

/// The characters of `s`, in order.
pub fn chars_of(s: &str) -> (r: Vec<char>)
    ensures
        r@ == s@,
{
    broadcast use vstd::string::group_string_axioms;

    let mut r: Vec<char> = Vec::new();
    for c in it: s.chars()
        invariant
            it.seq() == s@,
            r@ == it.seq().take(it.index() as int),
    {
        r.push(c);
    }
    assert(r@ =~= s@);
    r
}

/// The search from `i` finds the first occurrence at or after `i`, or reports
/// that there is none.
pub proof fn lemma_find_from(s: Seq<char>, p: Seq<char>, i: int)
    requires
        0 <= i,
        p.len() > 0,
    ensures
        find_from(s, p, i) matches Some(k) ==> i <= k && occurs_at(s, p, k) && forall|j: int|
            i <= j < k ==> !occurs_at(s, p, j),
        find_from(s, p, i) is None ==> forall|j: int| i <= j ==> !occurs_at(s, p, j),
    decreases s.len() - i,
{
    if i < 0 || i >= s.len() || i + p.len() > s.len() {
    } else if occurs_at(s, p, i) {
    } else {
        lemma_find_from(s, p, i + 1);
    }
}

/// An occurrence that none comes before is the first.
pub proof fn lemma_first_at(s: Seq<char>, p: Seq<char>, k: int)
    requires
        p.len() > 0,
        occurs_at(s, p, k),
        forall|j: int| 0 <= j < k ==> !occurs_at(s, p, j),
    ensures
        find_first(s, p) == Some(k),
{
    lemma_find_from(s, p, 0);
}

/// An occurrence in a part of `s` is an occurrence in `s`.
pub proof fn lemma_occurs_in_subrange(s: Seq<char>, p: Seq<char>, a: int, b: int, i: int)
    requires
        0 <= a <= b <= s.len(),
        occurs_at(s.subrange(a, b), p, i),
    ensures
        occurs_at(s, p, a + i),
{
    assert(s.subrange(a, b).subrange(i, i + p.len()) =~= s.subrange(a + i, a + i + p.len()));
}

/// In `x + w + y`, where `w` is made of line feeds and `p` holds none, `p`
/// occurs only inside `x` or inside `y`, and wherever it occurs in either.
pub proof fn lemma_occurs_across(x: Seq<char>, w: Seq<char>, y: Seq<char>, p: Seq<char>)
    requires
        p.len() > 0,
        w.len() > 0,
        forall|m: int| 0 <= m < w.len() ==> w[m] == '\n',
        forall|k: int| 0 <= k < p.len() ==> p[k] != '\n',
    ensures
        forall|i: int|
            #[trigger] occurs_at(x + w + y, p, i) ==> (i + p.len() <= x.len() && occurs_at(x, p, i)) || (
            i >= x.len() + w.len() && occurs_at(y, p, i - x.len() - w.len())),
        forall|i: int| #[trigger] occurs_at(x, p, i) ==> occurs_at(x + w + y, p, i),
        forall|i: int| #[trigger] occurs_at(y, p, i) ==> occurs_at(x + w + y, p, x.len() + w.len() + i),
{
    let o = x + w + y;
    assert forall|i: int|
        occurs_at(o, p, i) implies (i + p.len() <= x.len() && occurs_at(x, p, i)) || (i >= x.len()
            + w.len() && occurs_at(y, p, i - x.len() - w.len())) by {
        if i < x.len() && i + p.len() > x.len() {
            assert(o.subrange(i, i + p.len())[x.len() - i] == o[x.len() as int]);
        } else if x.len() <= i < x.len() + w.len() {
            assert(o.subrange(i, i + p.len())[0] == o[i]);
        } else if i + p.len() <= x.len() {
            assert(o.subrange(i, i + p.len()) =~= x.subrange(i, i + p.len()));
        } else {
            assert(o.subrange(i, i + p.len()) =~= y.subrange(
                i - x.len() - w.len(),
                i - x.len() - w.len() + p.len(),
            ));
        }
    }
    assert forall|i: int| occurs_at(x, p, i) implies occurs_at(o, p, i) by {
        assert(o.subrange(i, i + p.len()) =~= x.subrange(i, i + p.len()));
    }
    assert forall|i: int| occurs_at(y, p, i) implies occurs_at(o, p, x.len() + w.len() + i) by {
        assert(o.subrange(x.len() + w.len() + i, x.len() + w.len() + i + p.len())
            =~= y.subrange(i, i + p.len()));
    }
}

/// `trim_start` removes a run of whitespace from the front and keeps the rest.
pub proof fn lemma_trim_start_shape(y: Seq<char>)
    ensures
        trim_start(y).len() <= y.len(),
        trim_start(y) == y.subrange(y.len() - trim_start(y).len(), y.len() as int),
        forall|j: int| 0 <= j < y.len() - trim_start(y).len() ==> is_white(y[j]),
        trim_start(y).len() == 0 || !is_white(trim_start(y)[0]),
    decreases y.len(),
{
    if y.len() > 0 && is_white(y[0]) {
        let z = y.drop_first();
        lemma_trim_start_shape(z);
        let r = trim_start(z);
        assert(z.subrange(z.len() - r.len(), z.len() as int) =~= y.subrange(
            y.len() - r.len(),
            y.len() as int,
        ));
        assert forall|j: int| 0 <= j < y.len() - r.len() implies is_white(y[j]) by {
            if j > 0 {
                assert(y[j] == z[j - 1]);
            }
        }
    } else {
        assert(y.subrange(0, y.len() as int) =~= y);
    }
}

/// `trim_end` removes a run of whitespace from the back and keeps the rest.
pub proof fn lemma_trim_end_shape(y: Seq<char>)
    ensures
        trim_end(y).len() <= y.len(),
        trim_end(y) == y.subrange(0, trim_end(y).len() as int),
        forall|j: int| trim_end(y).len() <= j < y.len() ==> is_white(y[j]),
        trim_end(y).len() == 0 || !is_white(trim_end(y).last()),
    decreases y.len(),
{
    if y.len() > 0 && is_white(y.last()) {
        let z = y.drop_last();
        lemma_trim_end_shape(z);
        let r = trim_end(z);
        assert(z.subrange(0, r.len() as int) =~= y.subrange(0, r.len() as int));
        assert forall|j: int| r.len() <= j < y.len() implies is_white(y[j]) by {
            if j < y.len() - 1 {
                assert(y[j] == z[j]);
            }
        }
    } else {
        assert(y.subrange(0, y.len() as int) =~= y);
    }
}

/// The trimmed text of `s[a..b]` is `s[lo..lo + n]`, with only whitespace
/// around it and no whitespace at either of its ends.
pub proof fn lemma_trim_range(s: Seq<char>, a: int, b: int) -> (lo: int)
    requires
        0 <= a <= b <= s.len(),
    ensures
        a <= lo,
        lo + trim(s.subrange(a, b)).len() <= b,
        trim(s.subrange(a, b)) == s.subrange(lo, lo + trim(s.subrange(a, b)).len()),
        forall|j: int| a <= j < lo ==> is_white(s[j]),
        forall|j: int| lo + trim(s.subrange(a, b)).len() <= j < b ==> is_white(s[j]),
        trim(s.subrange(a, b)).len() == 0 || (!is_white(trim(s.subrange(a, b))[0]) && !is_white(
            trim(s.subrange(a, b)).last(),
        )),
{
    let y = s.subrange(a, b);
    let ts = trim_start(y);
    lemma_trim_start_shape(y);
    lemma_trim_end_shape(ts);
    let t = trim_end(ts);
    let lo = a + y.len() - ts.len();
    assert forall|j: int| a <= j < lo implies is_white(s[j]) by {
        assert(s[j] == y[j - a]);
    }
    assert forall|j: int| lo + t.len() <= j < b implies is_white(s[j]) by {
        assert(s[j] == ts[j - lo]);
    }
    assert(t =~= s.subrange(lo, lo + t.len()));
    if t.len() > 0 {
        assert(t[0] == ts[0]);
    }
    lo
}

/// Whitespace added after a text that neither starts nor ends with whitespace
/// is all that trimming removes.
pub proof fn lemma_trim_fixed(t: Seq<char>, w: Seq<char>)
    requires
        t.len() == 0 || (!is_white(t[0]) && !is_white(t.last())),
        forall|m: int| 0 <= m < w.len() ==> is_white(w[m]),
    ensures
        trim(t + w) == t,
{
    lemma_trim_end_white_tail(t, w);
    if t.len() > 0 {
        assert((t + w)[0] == t[0]);
    } else {
        assert(t + w =~= w);
        lemma_trim_start_shape(w);
        if trim_start(w).len() > 0 {
            assert(trim_start(w)[0] == w[w.len() - trim_start(w).len()]);
        }
        assert(trim_start(w) =~= t);
    }
}

/// Trailing whitespace after a text that does not end in whitespace is
/// exactly what `trim_end` removes.
proof fn lemma_trim_end_white_tail(t: Seq<char>, w: Seq<char>)
    requires
        t.len() == 0 || !is_white(t.last()),
        forall|m: int| 0 <= m < w.len() ==> is_white(w[m]),
    ensures
        trim_end(t + w) == t,
    decreases w.len(),
{
    if w.len() == 0 {
        assert(t + w =~= t);
    } else {
        assert((t + w).drop_last() =~= t + w.drop_last());
        lemma_trim_end_white_tail(t, w.drop_last());
    }
}

/// A text that opens with `p`, whose first and last characters are not
/// whitespace, still opens with `p` once trimmed.
pub proof fn lemma_trim_keeps_opening(y: Seq<char>, p: Seq<char>)
    requires
        p.len() > 0,
        occurs_at(y, p, 0),
        !is_white(p[0]),
        !is_white(p.last()),
    ensures
        occurs_at(trim(y), p, 0),
{
    assert(y[0] == y.subrange(0, p.len() as int)[0]);
    assert(trim_start(y) == y);
    lemma_trim_end_shape(y);
    let t = trim_end(y);
    assert(y[p.len() - 1] == y.subrange(0, p.len() as int)[p.len() - 1]);
    assert(t.subrange(0, p.len() as int) =~= y.subrange(0, p.len() as int));
}

/// Whether `p` occurs in `s` at position `i`.
fn matches_at(s: &Vec<char>, p: &Vec<char>, i: usize) -> (r: bool)
    requires
        i + p@.len() <= s@.len(),
    ensures
        r == occurs_at(s@, p@, i as int),
{
    let n = s.len();
    let mut j: usize = 0;
    while j < p.len()
        invariant
            n == s@.len(),
            i + p@.len() <= s@.len(),
            j <= p@.len(),
            forall|k: int| 0 <= k < j ==> s@[i + k] == p@[k],
        decreases p@.len() - j,
    {
        if s[i + j] != p[j] {
            assert(s@.subrange(i as int, i + p@.len())[j as int] != p@[j as int]);
            return false;
        }
        j = j + 1;
    }
    assert(s@.subrange(i as int, i + p@.len()) =~= p@);
    true
}

/// The first position at which `p` occurs in `s`, if any.
pub fn find(s: &Vec<char>, p: &Vec<char>) -> (r: Option<usize>)
    requires
        p@.len() > 0,
    ensures
        r matches Some(i) ==> find_first(s@, p@) == Some(i as int) && i + p@.len() <= s@.len(),
        r is None ==> find_first(s@, p@) is None,
{
    let mut i: usize = 0;
    while i < s.len() && p.len() <= s.len() - i
        invariant
            p@.len() > 0,
            i <= s@.len(),
            find_first(s@, p@) == find_from(s@, p@, i as int),
        decreases s@.len() - i,
    {
        if matches_at(s, p, i) {
            proof {
                lemma_find_from(s@, p@, i as int);
            }
            return Some(i);
        }
        i = i + 1;
    }
    None
}

/// The bounds of `s[a..b]` once its leading and trailing whitespace is removed.
pub fn trimmed_bounds(s: &Vec<char>, a: usize, b: usize) -> (r: (usize, usize))
    requires
        a <= b <= s@.len(),
    ensures
        a <= r.0 <= r.1 <= b,
        s@.subrange(r.0 as int, r.1 as int) == trim(s@.subrange(a as int, b as int)),
{
    let mut lo: usize = a;
    while lo < b && is_whitespace_char(s[lo])
        invariant
            a <= lo <= b <= s@.len(),
            trim_start(s@.subrange(a as int, b as int)) == trim_start(s@.subrange(lo as int, b as int)),
        decreases b - lo,
    {
        assert(s@.subrange(lo as int, b as int).drop_first() =~= s@.subrange(lo + 1, b as int));
        lo = lo + 1;
    }
    assert(trim_start(s@.subrange(lo as int, b as int)) == s@.subrange(lo as int, b as int));
    let mut hi: usize = b;
    while hi > lo && is_whitespace_char(s[hi - 1])
        invariant
            a <= lo <= hi <= b <= s@.len(),
            trim(s@.subrange(a as int, b as int)) == trim_end(s@.subrange(lo as int, hi as int)),
        decreases hi - lo,
    {
        assert(s@.subrange(lo as int, hi as int).drop_last() =~= s@.subrange(lo as int, hi - 1));
        hi = hi - 1;
    }
    (lo, hi)
}

} // verus!
