use vstd::prelude::*;

use crate::text::{
    ascii_lower_char, ascii_lowered, lemma_ascii_lower_char, char_lowercase, chars_of, is_ascii_char, is_ascii_text, is_ascii_upper,
    joined, lowercase_of_char, no_ascii_upper, string_of,
};

verus! {

/// An ASCII letter or digit.
pub open spec fn is_ascii_alnum(c: char) -> bool {
    let u = c as u32;
    (48 <= u <= 57) || (65 <= u <= 90) || (97 <= u <= 122)
}

/// The characters of `s`, each lower-cased on its own (`flat_map` of
/// `char::to_lowercase`).
pub open spec fn lowered(s: Seq<char>) -> Seq<char>
    decreases s.len(),
{
    if s.len() == 0 {
        Seq::empty()
    } else {
        lowered(s.drop_last()) + char_lowercase(s.last())
    }
}

/// `t` with every run of characters other than ASCII letters and digits
/// replaced by one `-`.
pub open spec fn dashed(t: Seq<char>) -> Seq<char>
    decreases t.len(),
{
    if t.len() == 0 {
        Seq::empty()
    } else {
        let r = dashed(t.drop_last());
        if is_ascii_alnum(t.last()) {
            r.push(t.last())
        } else if r.len() > 0 && r.last() == '-' {
            r
        } else {
            r.push('-')
        }
    }
}

/// `s` without leading `-`.
pub open spec fn trim_dashes_start(s: Seq<char>) -> Seq<char>
    decreases s.len(),
{
    if s.len() > 0 && s[0] == '-' {
        trim_dashes_start(s.drop_first())
    } else {
        s
    }
}

/// `s` without trailing `-`.
pub open spec fn trim_dashes_end(s: Seq<char>) -> Seq<char>
    decreases s.len(),
{
    if s.len() > 0 && s.last() == '-' {
        trim_dashes_end(s.drop_last())
    } else {
        s
    }
}

/// The slug of an already lower-cased name: runs of characters other than
/// ASCII letters and digits as one `-`, no `-` at either end.
pub open spec fn slug_of(t: Seq<char>) -> Seq<char> {
    trim_dashes_end(trim_dashes_start(dashed(t)))
}

/// The slug of a category name: lower-cased, then `slug_of`.
pub open spec fn slug(category: Seq<char>) -> Seq<char> {
    slug_of(lowered(category))
}

/// The anchor for an already lower-cased name: `category-` and its slug, or
/// just `category` when the slug is empty.
pub open spec fn anchor_of(t: Seq<char>) -> Seq<char> {
    if slug_of(t).len() == 0 {
        "category"@
    } else {
        "category-"@ + slug_of(t)
    }
}

/// The HTML id of a category's section: `anchor_of` the lower-cased name.
pub open spec fn anchor_id(category: Seq<char>) -> Seq<char> {
    anchor_of(lowered(category))
}

/// No two dashes in a row.
pub open spec fn no_double_dash(s: Seq<char>) -> bool {
    forall|i: int, j: int|
        #![trigger s[i], s[j]]
        0 <= i && j == i + 1 && j < s.len() ==> !(s[i] == '-' && s[j] == '-')
}

/// A slug: ASCII letters, digits and dashes, no dash at either end and no
/// two dashes in a row.
pub open spec fn is_slug(s: Seq<char>) -> bool {
    &&& forall|i: int| 0 <= i < s.len() ==> is_ascii_alnum(#[trigger] s[i]) || s[i] == '-'
    &&& s.len() > 0 ==> s[0] != '-' && s.last() != '-'
    &&& no_double_dash(s)
}

proof fn lemma_dashed_shape(t: Seq<char>)
    ensures
        no_double_dash(dashed(t)),
        no_ascii_upper(t) ==> no_ascii_upper(dashed(t)),
    decreases t.len(),
{
    if t.len() > 0 {
        let p = t.drop_last();
        lemma_dashed_shape(p);
        let r = dashed(p);
        let d = dashed(t);
        assert forall|i: int, j: int|
            #![trigger d[i], d[j]]
            0 <= i && j == i + 1 && j < d.len() implies !(d[i] == '-' && d[j] == '-') by {
            if j < r.len() {
                assert(d[i] == r[i] && d[j] == r[j]);
            } else if d.len() > r.len() {
                assert(d[i] == r[i]);
            }
        }
        if no_ascii_upper(t) {
            assert forall|k: int| 0 <= k < p.len() implies !is_ascii_upper(#[trigger] p[k]) by {
                assert(p[k] == t[k]);
            }
            assert(!is_ascii_upper(t[t.len() - 1]));
            assert forall|i: int| 0 <= i < d.len() implies !is_ascii_upper(#[trigger] d[i]) by {
                if i < r.len() {
                    assert(d[i] == r[i]);
                }
            }
        }
    }
}

proof fn lemma_trim_dashes_start_suffix(s: Seq<char>) -> (a: int)
    ensures
        0 <= a <= s.len(),
        trim_dashes_start(s) == s.subrange(a, s.len() as int),
        trim_dashes_start(s).len() > 0 ==> trim_dashes_start(s)[0] != '-',
    decreases s.len(),
{
    if s.len() > 0 && s[0] == '-' {
        let a = lemma_trim_dashes_start_suffix(s.drop_first());
        assert(s.drop_first().subrange(a, s.drop_first().len() as int) == s.subrange(
            a + 1,
            s.len() as int,
        ));
        a + 1
    } else {
        assert(s.subrange(0, s.len() as int) == s);
        0
    }
}

proof fn lemma_trim_dashes_end_prefix(s: Seq<char>) -> (b: int)
    ensures
        0 <= b <= s.len(),
        trim_dashes_end(s) == s.subrange(0, b),
        trim_dashes_end(s).len() > 0 ==> trim_dashes_end(s).last() != '-',
    decreases s.len(),
{
    if s.len() > 0 && s.last() == '-' {
        let b = lemma_trim_dashes_end_prefix(s.drop_last());
        assert(s.drop_last().subrange(0, b) == s.subrange(0, b));
        b
    } else {
        assert(s.subrange(0, s.len() as int) == s);
        s.len() as int
    }
}

proof fn lemma_dashed_chars(t: Seq<char>)
    ensures
        forall|i: int| 0 <= i < dashed(t).len() ==> is_ascii_alnum(#[trigger] dashed(t)[i])
            || dashed(t)[i] == '-',
    decreases t.len(),
{
    if t.len() > 0 {
        lemma_dashed_chars(t.drop_last());
        let r = dashed(t.drop_last());
        let d = dashed(t);
        assert forall|i: int| 0 <= i < d.len() implies is_ascii_alnum(#[trigger] d[i]) || d[i]
            == '-' by {
            if i < r.len() {
                assert(d[i] == r[i]);
            }
        }
    }
}

proof fn lemma_trim_dashes_start_skip(s: Seq<char>, i: int)
    requires
        0 <= i <= s.len(),
        forall|k: int| 0 <= k < i ==> #[trigger] s[k] == '-',
    ensures
        trim_dashes_start(s) == trim_dashes_start(s.subrange(i, s.len() as int)),
    decreases i,
{
    if i > 0 {
        assert(s[0] == '-');
        lemma_trim_dashes_start_skip(s.drop_first(), i - 1);
        assert(s.drop_first().subrange(i - 1, s.drop_first().len() as int) == s.subrange(
            i,
            s.len() as int,
        ));
    } else {
        assert(s.subrange(0, s.len() as int) == s);
    }
}

proof fn lemma_trim_dashes_end_cut(s: Seq<char>, j: int)
    requires
        0 <= j <= s.len(),
        forall|k: int| j <= k < s.len() ==> #[trigger] s[k] == '-',
    ensures
        trim_dashes_end(s) == trim_dashes_end(s.subrange(0, j)),
    decreases s.len() - j,
{
    if j < s.len() {
        assert(s.drop_last() == s.subrange(0, s.len() - 1));
        lemma_trim_dashes_end_cut(s.drop_last(), j);
        assert(s.drop_last().subrange(0, j) == s.subrange(0, j));
    } else {
        assert(s.subrange(0, j) == s);
    }
}

/// `s` without `-` at either end.
fn trim_dashes(s: &[char]) -> (r: Vec<char>)
    ensures
        r@ == trim_dashes_end(trim_dashes_start(s@)),
{
    let n = s.len();
    let mut i: usize = 0;
    while i < n && s[i] == '-'
        invariant
            i <= n == s@.len(),
            forall|k: int| 0 <= k < i ==> #[trigger] s@[k] == '-',
        decreases n - i,
    {
        i += 1;
    }
    let mut j: usize = n;
    while j > i && s[j - 1] == '-'
        invariant
            i <= j <= n == s@.len(),
            forall|k: int| j <= k < n ==> #[trigger] s@[k] == '-',
        decreases j,
    {
        j -= 1;
    }
    proof {
        lemma_trim_dashes_start_skip(s@, i as int);
        let rest = s@.subrange(i as int, n as int);
        assert(trim_dashes_start(rest) == rest);
        assert forall|k: int| j - i <= k < rest.len() implies #[trigger] rest[k] == '-' by {
            assert(rest[k] == s@[k + i]);
        }
        lemma_trim_dashes_end_cut(rest, j - i);
        let mid = rest.subrange(0, j - i);
        assert(mid == s@.subrange(i as int, j as int));
        if j > i {
            assert(mid.last() == s@[j - 1]);
        }
        assert(trim_dashes_end(mid) == mid);
    }
    crate::text::slice_range(s, i, j)
}

/// The id of a category's section, which the header's links point to.  An
/// ASCII name is lower-cased in ASCII, so its anchor holds no capital letter.
pub fn category_anchor_id(category: &str) -> (r: String)
    ensures
        r@ == anchor_id(category@),
        is_ascii_text(category@) ==> lowered(category@) == ascii_lowered(category@),
        is_ascii_text(category@) ==> r@ == anchor_of(ascii_lowered(category@)),
        is_ascii_text(category@) ==> no_ascii_upper(r@),
{
    let cs = chars_of(category);
    let n = cs.len();
    let mut out: Vec<char> = Vec::new();
    let ghost mut low: Seq<char> = Seq::empty();
    for i in 0..n
        invariant
            n == cs@.len(),
            cs@ == category@,
            low == lowered(cs@.take(i as int)),
            out@ == dashed(low),
            is_ascii_text(cs@) ==> no_ascii_upper(low),
            is_ascii_text(cs@) ==> low == ascii_lowered(cs@.take(i as int)),
    {
        let lc = lowercase_of_char(cs[i]);
        proof {
            if is_ascii_text(cs@) {
                assert(is_ascii_char(cs@[i as int]));
                assert(!is_ascii_upper(lc@[0]));
            }
        }
        let m = lc.len();
        let ghost base = low;
        for j in 0..m
            invariant
                m == lc@.len(),
                out@ == dashed(base + lc@.take(j as int)),
        {
            let c = lc[j];
            let ghost before = base + lc@.take(j as int);
            proof {
                assert((base + lc@.take(j + 1)).drop_last() == before);
                assert((base + lc@.take(j + 1)).last() == c);
            }
            let u = c as u32;
            if (48 <= u && u <= 57) || (65 <= u && u <= 90) || (97 <= u && u <= 122) {
                out.push(c);
            } else if out.len() > 0 && out[out.len() - 1] == '-' {
            } else {
                out.push('-');
            }
        }
        proof {
            assert(lc@.take(m as int) == lc@);
            assert(cs@.take(i + 1).drop_last() == cs@.take(i as int));
            assert(cs@.take(i + 1).last() == cs@[i as int]);
            low = base + lc@;
            if is_ascii_text(cs@) {
                assert(ascii_lowered(cs@.take(i + 1)) =~= ascii_lowered(cs@.take(i as int)).push(
                    ascii_lower_char(cs@[i as int]),
                ));
                assert forall|k: int| 0 <= k < low.len() implies !is_ascii_upper(#[trigger] low[k]) by {
                    if k >= base.len() {
                        assert(low[k] == lc@[k - base.len()]);
                    } else {
                        assert(low[k] == base[k]);
                    }
                }
            }
        }
    }
    assert(cs@.take(n as int) == cs@);
    proof {
        if is_ascii_text(cs@) {
            assert(ascii_lowered(cs@.take(n as int)) == ascii_lowered(category@));
        }
    }
    let s = trim_dashes(out.as_slice());
    proof {
        lemma_anchor_id_is_fragment_safe(category@);
        reveal_strlit("category");
        reveal_strlit("category-");
        if is_ascii_text(category@) {
            let a = anchor_id(category@);
            assert forall|k: int| 0 <= k < a.len() implies !is_ascii_upper(#[trigger] a[k]) by {
                if slug(category@).len() > 0 && k >= 9 {
                    assert(a[k] == slug(category@)[k - 9]);
                }
            }
        }
    }
    if s.len() == 0 {
        "category".to_owned()
    } else {
        joined("category-", string_of(s.as_slice()).as_str())
    }
}

/// `s` without its dashes.
pub open spec fn without_dashes(s: Seq<char>) -> Seq<char>
    decreases s.len(),
{
    if s.len() == 0 {
        Seq::empty()
    } else if s.last() == '-' {
        without_dashes(s.drop_last())
    } else {
        without_dashes(s.drop_last()).push(s.last())
    }
}

/// The ASCII letters and digits of `t`, in order: the characters `0`–`9`,
/// `A`–`Z` and `a`–`z`.
pub open spec fn letters_and_digits(t: Seq<char>) -> Seq<char>
    decreases t.len(),
{
    if t.len() == 0 {
        Seq::empty()
    } else {
        let u = t.last() as u32;
        let rest = letters_and_digits(t.drop_last());
        if (48 <= u && u <= 57) || (65 <= u && u <= 90) || (97 <= u && u <= 122) {
            rest.push(t.last())
        } else {
            rest
        }
    }
}

proof fn lemma_without_dashes_prepend(x: char, r: Seq<char>)
    ensures
        without_dashes(seq![x] + r) == (if x == '-' {
            Seq::empty()
        } else {
            seq![x]
        }) + without_dashes(r),
    decreases r.len(),
{
    let pre: Seq<char> = if x == '-' {
        Seq::empty()
    } else {
        seq![x]
    };
    if r.len() == 0 {
        assert(seq![x] + r =~= seq![x]);
        assert(seq![x].drop_last() =~= Seq::<char>::empty());
        assert(without_dashes(Seq::<char>::empty()) == Seq::<char>::empty());
        assert(Seq::<char>::empty().push(x) =~= seq![x]);
        assert(pre + Seq::<char>::empty() =~= pre);
    } else {
        lemma_without_dashes_prepend(x, r.drop_last());
        assert((seq![x] + r).drop_last() =~= seq![x] + r.drop_last());
        assert((seq![x] + r).last() == r.last());
        let w = without_dashes(r.drop_last());
        assert((pre + w).push(r.last()) =~= pre + w.push(r.last()));
    }
}

proof fn lemma_without_dashes_of_dashed(t: Seq<char>)
    ensures
        without_dashes(dashed(t)) == letters_and_digits(t),
    decreases t.len(),
{
    if t.len() > 0 {
        lemma_without_dashes_of_dashed(t.drop_last());
        let r = dashed(t.drop_last());
        if is_ascii_alnum(t.last()) {
            assert(r.push(t.last()).drop_last() == r);
        } else if r.len() > 0 && r.last() == '-' {
        } else {
            assert(r.push('-').drop_last() == r);
        }
    }
}

proof fn lemma_without_dashes_trim_start(s: Seq<char>)
    ensures
        without_dashes(trim_dashes_start(s)) == without_dashes(s),
    decreases s.len(),
{
    if s.len() > 0 && s[0] == '-' {
        lemma_without_dashes_trim_start(s.drop_first());
        assert(s == seq![s[0]] + s.drop_first());
        lemma_without_dashes_prepend(s[0], s.drop_first());
        assert(Seq::<char>::empty() + without_dashes(s.drop_first()) == without_dashes(
            s.drop_first(),
        ));
    }
}

proof fn lemma_without_dashes_trim_end(s: Seq<char>)
    ensures
        without_dashes(trim_dashes_end(s)) == without_dashes(s),
    decreases s.len(),
{
    if s.len() > 0 && s.last() == '-' {
        lemma_without_dashes_trim_end(s.drop_last());
    }
}

/// The slug keeps every ASCII letter and digit of the lower-cased name, in
/// order, and nothing else but dashes: with its dashes removed it is the
/// name's letters and digits.  So two names whose lower-cased letters and
/// digits differ get different anchors.
pub proof fn lemma_slug_keeps_letters_and_digits(category: Seq<char>)
    ensures
        without_dashes(slug(category)) == letters_and_digits(lowered(category)),
        without_dashes(slug_of(ascii_lowered(category))) == letters_and_digits(
            ascii_lowered(category),
        ),
{
    let t = lowered(category);
    lemma_without_dashes_of_dashed(t);
    lemma_without_dashes_trim_start(dashed(t));
    lemma_without_dashes_trim_end(trim_dashes_start(dashed(t)));
    let a = ascii_lowered(category);
    lemma_without_dashes_of_dashed(a);
    lemma_without_dashes_trim_start(dashed(a));
    lemma_without_dashes_trim_end(trim_dashes_start(dashed(a)));
}

/// Two categories share an anchor only when their lower-cased names have
/// the same ASCII letters and digits in the same order.
pub proof fn lemma_shared_anchor_same_letters_and_digits(c1: Seq<char>, c2: Seq<char>)
    requires
        anchor_id(c1) == anchor_id(c2),
    ensures
        letters_and_digits(lowered(c1)) == letters_and_digits(lowered(c2)),
{
    lemma_slug_keeps_letters_and_digits(c1);
    lemma_slug_keeps_letters_and_digits(c2);
    reveal_strlit("category");
    reveal_strlit("category-");
    if slug(c1).len() > 0 && slug(c2).len() > 0 {
        assert(slug(c1) =~= anchor_id(c1).subrange(9, anchor_id(c1).len() as int));
        assert(slug(c2) =~= anchor_id(c2).subrange(9, anchor_id(c2).len() as int));
    } else if slug(c1).len() > 0 {
        assert(anchor_id(c1).len() > 8);
    } else if slug(c2).len() > 0 {
        assert(anchor_id(c2).len() > 8);
    }
}

/// The slug of any lower-cased text is made of ASCII letters, digits and
/// dashes, neither starts nor ends with a dash and has no two dashes in a
/// row; where the text has no capital letters, neither has the slug.
pub proof fn lemma_slug_of_shape(t0: Seq<char>)
    ensures
        is_slug(slug_of(t0)),
        no_ascii_upper(t0) ==> no_ascii_upper(slug_of(t0)),
{
    let d = dashed(t0);
    lemma_dashed_chars(t0);
    lemma_dashed_shape(t0);
    let a = lemma_trim_dashes_start_suffix(d);
    let t = trim_dashes_start(d);
    let b = lemma_trim_dashes_end_prefix(t);
    let u = slug_of(t0);
    assert(u == t.subrange(0, b));
    assert forall|i: int| 0 <= i < u.len() implies #[trigger] u[i] == d[a + i] by {
        assert(u[i] == t[i]);
        assert(t[i] == d[a + i]);
    }
    assert forall|i: int| 0 <= i < u.len() implies is_ascii_alnum(#[trigger] u[i]) || u[i] == '-' by {
        assert(u[i] == d[a + i]);
    }
    if u.len() > 0 {
        assert(u[0] == t[0]);
    }
    assert forall|i: int, j: int|
        #![trigger u[i], u[j]]
        0 <= i && j == i + 1 && j < u.len() implies !(u[i] == '-' && u[j] == '-') by {
        assert(u[i] == d[a + i] && u[j] == d[a + j]);
    }
    if no_ascii_upper(t0) {
        assert forall|i: int| 0 <= i < u.len() implies !is_ascii_upper(#[trigger] u[i]) by {
            assert(u[i] == d[a + i]);
        }
    }
}


/// A category's anchor is always a usable URL fragment: `category` when the
/// slug is empty, else `category-` and the slug, which is made of ASCII
/// letters, digits and dashes, neither starts nor ends with a dash and has no
/// two dashes in a row.  Where the lower-cased name has no capital letters,
/// neither has the slug; in particular the slug of an ASCII name lower-cased
/// in ASCII (what `category_anchor_id` gives such a name) has none.
pub proof fn lemma_anchor_id_is_fragment_safe(category: Seq<char>)
    ensures
        slug(category).len() == 0 ==> anchor_id(category) == "category"@,
        slug(category).len() > 0 ==> anchor_id(category) == "category-"@ + slug(category),
        is_slug(slug(category)),
        no_ascii_upper(lowered(category)) ==> no_ascii_upper(slug(category)),
        is_slug(slug_of(ascii_lowered(category))),
        no_ascii_upper(slug_of(ascii_lowered(category))),
{
    lemma_slug_of_shape(lowered(category));
    let a = ascii_lowered(category);
    assert forall|i: int| 0 <= i < a.len() implies !is_ascii_upper(#[trigger] a[i]) by {
        lemma_ascii_lower_char(category[i]);
    }
    lemma_slug_of_shape(a);
}

} // verus!
