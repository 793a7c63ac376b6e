//! URL-safe anchors for headings.

use vstd::prelude::*;
use crate::text;
use crate::text::{char_is_whitespace, chars_of, join_strings, push_char, push_decimal, push_str};

verus! {

/// The lowercase form of `s`, as `str::to_lowercase` gives it (Unicode
/// lowercase mapping, which may change the length of the text).
pub uninterp spec fn std_lowercase(s: Seq<char>) -> Seq<char>;

/// Whether `c` is an ASCII character.
pub open spec fn is_ascii_char(c: char) -> bool {
    (c as u32) < 128
}

/// Whether `c` is an ASCII upper-case letter.
pub open spec fn is_ascii_upper(c: char) -> bool {
    'A' <= c && c <= 'Z'
}

/// The ASCII lower-case form of `c`: `A`–`Z` become `a`–`z`, every other
/// character stays.
pub open spec fn ascii_lower(c: char) -> char {
    if is_ascii_upper(c) {
        ((c as u32) + 32) as char
    } else {
        c
    }
}

/// Calls `str::to_lowercase`; the result, a function of the text alone, is
/// named `std_lowercase`. Its documentation maps each character by its
/// Unicode lower-case mapping, under which ASCII `A`–`Z` become `a`–`z` and
/// every other ASCII character stays; so an all-ASCII text is lowered
/// character by character, which the second clause states. The result is
/// lowercase text, so it holds no ASCII upper-case letter (third clause).
#[verifier::external_body]
pub(crate) fn lowercase(s: &str) -> (r: String)
    ensures
        r@ == std_lowercase(s@),
        (forall|i: int| 0 <= i < s@.len() ==> is_ascii_char(#[trigger] s@[i])) ==> r@ == s@.map_values(
            |c: char| ascii_lower(c),
        ),
        forall|i: int| 0 <= i < r@.len() ==> !is_ascii_upper(#[trigger] r@[i]),
{
    s.to_lowercase()
}

/// Whether `c` is an ASCII letter or digit.
pub open spec fn is_ascii_alphanumeric(c: char) -> bool {
    ('0' <= c && c <= '9') || ('a' <= c && c <= 'z') || ('A' <= c && c <= 'Z')
}

/// What a character of the lowercased text becomes in a slug: letters and
/// digits stay, whitespace, `-`, `_` and `.` become `-`, anything else goes.
pub open spec fn slug_char(c: char) -> Option<char> {
    if is_ascii_alphanumeric(c) {
        Some(c)
    } else if text::is_white_space(c) || c == '-' || c == '_' || c == '.' {
        Some('-')
    } else {
        None
    }
}

/// `s` with `slug_char` applied to each character.
pub open spec fn slug_map(s: Seq<char>) -> Seq<char>
    decreases s.len(),
{
    if s.len() == 0 {
        Seq::empty()
    } else {
        match slug_char(s.last()) {
            Some(c) => slug_map(s.drop_last()).push(c),
            None => slug_map(s.drop_last()),
        }
    }
}

/// The pieces of `s` between dashes, as `str::split('-')` gives them.
pub open spec fn dash_pieces(s: Seq<char>) -> Seq<Seq<char>>
    decreases s.len(),
{
    match text::index_of(s, '-') {
        Some(k) => {
            proof {
                text::lemma_index_of(s, '-');
            }
            seq![s.subrange(0, k)] + dash_pieces(s.subrange(k + 1, s.len() as int))
        },
        None => seq![s],
    }
}

/// The non-empty pieces, in order.
pub open spec fn non_empty(ps: Seq<Seq<char>>) -> Seq<Seq<char>>
    decreases ps.len(),
{
    if ps.len() == 0 {
        Seq::empty()
    } else {
        (if ps[0].len() > 0 { seq![ps[0]] } else { Seq::empty() }) + non_empty(ps.drop_first())
    }
}

/// The slug of a lowercased text: mapped by `slug_char`, cut at dashes,
/// and the non-empty pieces joined by single dashes.
pub open spec fn slug_of_lower(s: Seq<char>) -> Seq<char> {
    text::join(non_empty(dash_pieces(slug_map(s))), "-"@)
}

/// The slug of a heading text: the slug of its lowercased form. An all-ASCII
/// text is lowered letter by letter.
pub open spec fn slug(t: Seq<char>) -> Seq<char> {
    if all_chars(t, |c: char| is_ascii_char(c)) {
        slug_of_lower(t.map_values(|c: char| ascii_lower(c)))
    } else {
        slug_of_lower(std_lowercase(t))
    }
}

fn is_alnum(c: char) -> (r: bool)
    ensures
        r == is_ascii_alphanumeric(c),
{
    ('0' <= c && c <= '9') || ('a' <= c && c <= 'z') || ('A' <= c && c <= 'Z')
}

proof fn lemma_pieces_no_dash(s: Seq<char>)
    requires
        !s.contains('-'),
    ensures
        dash_pieces(s) == seq![s],
{
    text::lemma_index_of(s, '-');
    if let Some(k) = text::index_of(s, '-') {
        assert(s.contains('-'));
    }
}

proof fn lemma_pieces_at_dash(cur: Seq<char>, r: Seq<char>)
    requires
        !cur.contains('-'),
        r.len() > 0,
        r[0] == '-',
    ensures
        dash_pieces(cur + r) == seq![cur] + dash_pieces(r.drop_first()),
{
    let s = cur + r;
    assert forall|j: int| 0 <= j < cur.len() implies s[j] != '-' by {
        assert(s[j] == cur[j]);
        if cur[j] == '-' {
            assert(cur.contains('-'));
        }
    }
    text::lemma_index_of_unique(s, '-', cur.len() as int);
    assert(s.subrange(0, cur.len() as int) =~= cur);
    assert(s.subrange(cur.len() as int + 1, s.len() as int) =~= r.drop_first());
}

/// Generates a URL-safe slug from heading text.
pub fn generate_slug(t: &str) -> (r: String)
    ensures
        r@ == slug(t@),
        all_chars(t@, |c: char| is_ascii_char(c)) ==> r@ == slug_of_lower(
            t@.map_values(|c: char| ascii_lower(c)),
        ),
        slug_shaped(r@),
        no_ascii_upper(r@),
        slug_shaped(t@) && no_ascii_upper(t@) ==> r@ == t@,
{
    let lower = lowercase(t);
    proof {
        slug_is_shaped(lower@);
        if slug_shaped(t@) && no_ascii_upper(t@) {
            assert forall|i: int| 0 <= i < t@.len() implies is_ascii_char(#[trigger] t@[i]) by {
                assert(is_ascii_alphanumeric(t@[i]) || t@[i] == '-');
            }
            assert(lower@ =~= t@) by {
                assert forall|i: int| 0 <= i < t@.len() implies lower@[i] == t@[i] by {
                    assert(!is_ascii_upper(t@[i]));
                }
            }
            slug_of_slug_is_itself(t@);
        }
    }
    slug_from_lowercase(lower.as_str())
}

/// Makes the slug of text that is already lowercased: ASCII letters and
/// digits stay, whitespace, `-`, `_` and `.` separate words, anything else
/// is dropped, and the words are joined by single dashes.
pub fn slug_from_lowercase(lower: &str) -> (r: String)
    ensures
        r@ == slug_of_lower(lower@),
{
    let v = chars_of(lower);
    let mut m: Vec<char> = Vec::new();
    let mut i: usize = 0;
    while i < v.len()
        invariant
            i <= v@.len(),
            m@ == slug_map(v@.take(i as int)),
        decreases v@.len() - i,
    {
        let c = v[i];
        assert(v@.take(i + 1).drop_last() =~= v@.take(i as int));
        assert(v@.take(i + 1).last() == c);
        if is_alnum(c) {
            m.push(c);
        } else if char_is_whitespace(c) || c == '-' || c == '_' || c == '.' {
            m.push('-');
        }
        i += 1;
    }
    assert(v@.take(v@.len() as int) =~= v@);
    let ghost mapped = m@;
    let mut pieces: Vec<String> = Vec::new();
    let mut cur = String::new();
    let mut j: usize = 0;
    assert(m@.subrange(0, m@.len() as int) =~= m@);
    assert(cur@ + m@.subrange(0, m@.len() as int) =~= m@);
    assert(!cur@.contains('-'));
    while j < m.len()
        invariant
            j <= m@.len(),
            mapped == m@,
            !cur@.contains('-'),
            text::join(non_empty(dash_pieces(mapped)), "-"@) == text::join(
                non_empty(pieces@.map_values(|p: String| p@) + dash_pieces(cur@ + m@.subrange(j as int, m@.len() as int))),
                "-"@,
            ),
            forall|k: int| 0 <= k < pieces@.len() ==> (#[trigger] pieces@[k])@.len() > 0,
        decreases m@.len() - j,
    {
        let c = m[j];
        let ghost rest = m@.subrange(j as int, m@.len() as int);
        let ghost acc = pieces@.map_values(|p: String| p@);
        assert(rest[0] == c);
        assert(rest.drop_first() =~= m@.subrange(j + 1, m@.len() as int));
        if c == '-' {
            proof {
                lemma_pieces_at_dash(cur@, rest);
                lemma_non_empty_split(acc, cur@, dash_pieces(rest.drop_first()));
            }
            if !cur.as_str().is_empty() {
                let mut done = String::new();
                std::mem::swap(&mut done, &mut cur);
                pieces.push(done);
                assert(pieces@.map_values(|p: String| p@) =~= acc.push(done@));
            }
            assert(!cur@.contains('-'));
        } else {
            let ghost before = cur@;
            push_char(&mut cur, c);
            assert(cur@ + m@.subrange(j + 1, m@.len() as int) =~= before + rest);
            assert(!cur@.contains('-')) by {
                if cur@.contains('-') {
                    let k = choose|k: int| 0 <= k < cur@.len() && cur@[k] == '-';
                    if k < before.len() {
                        assert(before[k] == '-');
                    }
                }
            }
        }
        j += 1;
    }
    proof {
        assert(m@.subrange(j as int, m@.len() as int) =~= Seq::<char>::empty());
        assert(cur@ + m@.subrange(j as int, m@.len() as int) =~= cur@);
        lemma_pieces_no_dash(cur@);
    }
    let ghost acc = pieces@.map_values(|p: String| p@);
    let ghost last = cur@;
    proof {
        lemma_non_empty_all(acc);
        lemma_non_empty_append(acc, seq![last]);
        assert(seq![last].drop_first() =~= Seq::<Seq<char>>::empty());
        assert(non_empty(Seq::<Seq<char>>::empty()) =~= Seq::<Seq<char>>::empty());
        assert(non_empty(seq![last]) == (if last.len() > 0 { seq![last] } else { Seq::<Seq<char>>::empty() })
            + non_empty(seq![last].drop_first()));
    }
    if !cur.as_str().is_empty() {
        pieces.push(cur);
    }
    assert(pieces@.map_values(|p: String| p@) =~= non_empty(acc + seq![last]));
    join_strings(&pieces, "-")
}

/// `non_empty` over a concatenation.
proof fn lemma_non_empty_append(a: Seq<Seq<char>>, b: Seq<Seq<char>>)
    ensures
        non_empty(a + b) == non_empty(a) + non_empty(b),
    decreases a.len(),
{
    if a.len() == 0 {
        assert(a + b =~= b);
    } else {
        lemma_non_empty_append(a.drop_first(), b);
        assert((a + b).drop_first() =~= a.drop_first() + b);
        assert((a + b)[0] == a[0]);
    }
}

/// A list of non-empty pieces is its own `non_empty`.
proof fn lemma_non_empty_all(a: Seq<Seq<char>>)
    requires
        forall|k: int| 0 <= k < a.len() ==> a[k].len() > 0,
    ensures
        non_empty(a) == a,
    decreases a.len(),
{
    if a.len() > 0 {
        lemma_non_empty_all(a.drop_first());
        assert(seq![a[0]] + a.drop_first() =~= a);
    }
}

/// Moving the current piece to the list of finished ones.
proof fn lemma_non_empty_split(acc: Seq<Seq<char>>, cur: Seq<char>, rest: Seq<Seq<char>>)
    ensures
        non_empty(acc + (seq![cur] + rest)) == non_empty(
            (if cur.len() > 0 { acc.push(cur) } else { acc }) + rest,
        ),
{
    lemma_non_empty_append(acc, seq![cur] + rest);
    lemma_non_empty_append(seq![cur], rest);
    let left = if cur.len() > 0 { acc.push(cur) } else { acc };
    lemma_non_empty_append(left, rest);
    if cur.len() > 0 {
        lemma_non_empty_append(acc, seq![cur]);
        assert(acc.push(cur) =~= acc + seq![cur]);
    }
    assert(seq![cur].drop_first() =~= Seq::<Seq<char>>::empty());
    assert(non_empty(seq![cur]) == (if cur.len() > 0 { seq![cur] } else { Seq::<Seq<char>>::empty() }) + non_empty(Seq::<Seq<char>>::empty()));
}

// ---------------------------------------------------------------------------
// The shape of a slug
// ---------------------------------------------------------------------------

/// Whether every character of `s` satisfies `p`.
pub open spec fn all_chars(s: Seq<char>, p: spec_fn(char) -> bool) -> bool {
    forall|i: int| 0 <= i < s.len() ==> p(#[trigger] s[i])
}

/// Whether `s` has the shape of a slug: ASCII letters, digits and dashes,
/// no dash at either end and no two dashes in a row.
pub open spec fn slug_shaped(s: Seq<char>) -> bool {
    &&& all_chars(s, |c: char| is_ascii_alphanumeric(c) || c == '-')
    &&& s.len() > 0 ==> s[0] != '-' && s[s.len() - 1] != '-'
    &&& forall|i: int| 0 <= i < s.len() - 1 ==> !(#[trigger] s[i] == '-' && s[i + 1] == '-')
}

/// Whether `s` holds no ASCII upper-case letter.
pub open spec fn no_ascii_upper(s: Seq<char>) -> bool {
    all_chars(s, |c: char| !is_ascii_upper(c))
}

proof fn lemma_slug_map_chars(s: Seq<char>)
    ensures
        all_chars(slug_map(s), |c: char| is_ascii_alphanumeric(c) || c == '-'),
        no_ascii_upper(s) ==> no_ascii_upper(slug_map(s)),
    decreases s.len(),
{
    if s.len() > 0 {
        lemma_slug_map_chars(s.drop_last());
        let prev = slug_map(s.drop_last());
        let m = slug_map(s);
        assert(no_ascii_upper(s) ==> no_ascii_upper(s.drop_last())) by {
            if no_ascii_upper(s) {
                assert forall|i: int| 0 <= i < s.drop_last().len() implies !is_ascii_upper(#[trigger] s.drop_last()[i]) by {
                    assert(s.drop_last()[i] == s[i]);
                }
            }
        }
        assert(!is_ascii_upper(s[s.len() - 1]) <== no_ascii_upper(s));
        assert forall|i: int| 0 <= i < m.len() implies (is_ascii_alphanumeric(#[trigger] m[i]) || m[i] == '-') by {
            if i < prev.len() {
                assert(m[i] == prev[i]);
            }
        }
        if no_ascii_upper(s) {
            assert forall|i: int| 0 <= i < m.len() implies !is_ascii_upper(#[trigger] m[i]) by {
                if i < prev.len() {
                    assert(m[i] == prev[i]);
                }
            }
        }
    }
}

proof fn lemma_dash_pieces_chars(s: Seq<char>, p: spec_fn(char) -> bool)
    requires
        all_chars(s, |c: char| p(c) || c == '-'),
    ensures
        forall|k: int|
            0 <= k < dash_pieces(s).len() ==> all_chars(#[trigger] dash_pieces(s)[k], p) && !dash_pieces(s)[k].contains('-'),
    decreases s.len(),
{
    text::lemma_index_of(s, '-');
    match text::index_of(s, '-') {
        Some(k) => {
            let head = s.subrange(0, k);
            let rest = s.subrange(k + 1, s.len() as int);
            assert(all_chars(rest, |c: char| p(c) || c == '-')) by {
                assert forall|i: int| 0 <= i < rest.len() implies (p(#[trigger] rest[i]) || rest[i] == '-') by {
                    assert(rest[i] == s[k + 1 + i]);
                }
            }
            lemma_dash_pieces_chars(rest, p);
            assert forall|i: int| 0 <= i < head.len() implies p(#[trigger] head[i]) by {
                assert(head[i] == s[i]);
            }
            assert(!head.contains('-')) by {
                if head.contains('-') {
                    let j = choose|j: int| 0 <= j < head.len() && head[j] == '-';
                    assert(s[j] == '-');
                }
            }
            let ps = dash_pieces(s);
            assert(ps == seq![head] + dash_pieces(rest));
            assert forall|j: int| 0 <= j < ps.len() implies all_chars(#[trigger] ps[j], p) && !ps[j].contains('-') by {
                if j > 0 {
                    assert(ps[j] == dash_pieces(rest)[j - 1]);
                }
            }
        },
        None => {
            assert forall|i: int| 0 <= i < s.len() implies p(#[trigger] s[i]) by {
                if s[i] == '-' {
                    assert(s.contains('-'));
                }
            }
            assert(dash_pieces(s) == seq![s]);
        },
    }
}

proof fn lemma_non_empty_keeps(ps: Seq<Seq<char>>, p: spec_fn(char) -> bool)
    requires
        forall|k: int| 0 <= k < ps.len() ==> all_chars(#[trigger] ps[k], p) && !ps[k].contains('-'),
    ensures
        forall|k: int|
            0 <= k < non_empty(ps).len() ==> all_chars(#[trigger] non_empty(ps)[k], p) && !non_empty(ps)[k].contains('-')
                && non_empty(ps)[k].len() > 0,
    decreases ps.len(),
{
    if ps.len() > 0 {
        let tail = ps.drop_first();
        assert forall|k: int| 0 <= k < tail.len() implies all_chars(#[trigger] tail[k], p) && !tail[k].contains('-') by {
            assert(tail[k] == ps[k + 1]);
        }
        lemma_non_empty_keeps(tail, p);
        let head: Seq<Seq<char>> = if ps[0].len() > 0 { seq![ps[0]] } else { Seq::empty() };
        let ne = non_empty(ps);
        assert(ne == head + non_empty(tail));
        assert forall|k: int| 0 <= k < ne.len() implies all_chars(#[trigger] ne[k], p) && !ne[k].contains('-') && ne[k].len() > 0 by {
            if k >= head.len() {
                assert(ne[k] == non_empty(tail)[k - head.len()]);
            }
        }
    }
}

proof fn lemma_join_shaped(ps: Seq<Seq<char>>, p: spec_fn(char) -> bool)
    requires
        forall|k: int| 0 <= k < ps.len() ==> all_chars(#[trigger] ps[k], p) && !ps[k].contains('-') && ps[k].len() > 0,
    ensures
        ({
            let j = text::join(ps, "-"@);
            &&& all_chars(j, |c: char| p(c) || c == '-')
            &&& j.len() > 0 ==> j[0] != '-' && j[j.len() - 1] != '-'
            &&& forall|i: int| 0 <= i < j.len() - 1 ==> !(#[trigger] j[i] == '-' && j[i + 1] == '-')
            &&& ps.len() > 0 ==> j.len() > 0
        }),
    decreases ps.len(),
{
    reveal_strlit("-");
    if ps.len() == 1 {
        let q = ps[0];
        assert forall|i: int| 0 <= i < q.len() implies q[i] != '-' by {
            if q[i] == '-' {
                assert(q.contains('-'));
            }
        }
    } else if ps.len() > 1 {
        let prev = ps.drop_last();
        assert forall|k: int| 0 <= k < prev.len() implies all_chars(#[trigger] prev[k], p) && !prev[k].contains('-') && prev[k].len() > 0 by {
            assert(prev[k] == ps[k]);
        }
        lemma_join_shaped(prev, p);
        let a = text::join(prev, "-"@);
        let q = ps.last();
        assert(q == ps[ps.len() - 1]);
        let j = text::join(ps, "-"@);
        assert(j == a + "-"@ + q);
        assert forall|i: int| 0 <= i < q.len() implies q[i] != '-' && p(q[i]) by {
            if q[i] == '-' {
                assert(q.contains('-'));
            }
        }
        assert forall|i: int| 0 <= i < j.len() implies (p(#[trigger] j[i]) || j[i] == '-') by {
            if i < a.len() {
                assert(j[i] == a[i]);
            } else if i > a.len() {
                assert(j[i] == q[i - a.len() - 1]);
            }
        }
        assert forall|i: int| 0 <= i < j.len() - 1 implies !(#[trigger] j[i] == '-' && j[i + 1] == '-') by {
            if i < a.len() - 1 {
                assert(j[i] == a[i] && j[i + 1] == a[i + 1]);
            } else if i == a.len() - 1 {
                assert(j[i] == a[a.len() - 1]);
            } else if i == a.len() {
                assert(j[i + 1] == q[0]);
            } else {
                assert(j[i] == q[i - a.len() - 1]);
            }
        }
        assert(j[j.len() - 1] == q[q.len() - 1]);
        assert(j[0] == a[0]);
    }
}

/// Every slug has the shape of one: ASCII letters, digits and dashes, no
/// dash at either end, no two dashes in a row; and text without ASCII
/// upper-case letters gives a slug without them.
pub proof fn slug_is_shaped(lower: Seq<char>)
    ensures
        slug_shaped(slug_of_lower(lower)),
        no_ascii_upper(lower) ==> no_ascii_upper(slug_of_lower(lower)),
{
    let m = slug_map(lower);
    lemma_slug_map_chars(lower);
    let p1 = |c: char| is_ascii_alphanumeric(c);
    assert(all_chars(m, |c: char| p1(c) || c == '-'));
    lemma_dash_pieces_chars(m, p1);
    lemma_non_empty_keeps(dash_pieces(m), p1);
    lemma_join_shaped(non_empty(dash_pieces(m)), p1);
    let r = slug_of_lower(lower);
    assert(all_chars(r, |c: char| is_ascii_alphanumeric(c) || c == '-'));
    if no_ascii_upper(lower) {
        let p2 = |c: char| is_ascii_alphanumeric(c) && !is_ascii_upper(c);
        assert(all_chars(m, |c: char| p2(c) || c == '-')) by {
            assert forall|i: int| 0 <= i < m.len() implies (p2(#[trigger] m[i]) || m[i] == '-') by {
                assert(is_ascii_alphanumeric(m[i]) || m[i] == '-');
                assert(!is_ascii_upper(m[i]));
            }
        }
        lemma_dash_pieces_chars(m, p2);
        lemma_non_empty_keeps(dash_pieces(m), p2);
        lemma_join_shaped(non_empty(dash_pieces(m)), p2);
        assert forall|i: int| 0 <= i < r.len() implies !is_ascii_upper(#[trigger] r[i]) by {
            assert(p2(r[i]) || r[i] == '-');
        }
    }
}

proof fn lemma_slug_map_keeps(r: Seq<char>)
    requires
        all_chars(r, |c: char| is_ascii_alphanumeric(c) || c == '-'),
    ensures
        slug_map(r) == r,
    decreases r.len(),
{
    if r.len() > 0 {
        let prev = r.drop_last();
        assert forall|i: int| 0 <= i < prev.len() implies (is_ascii_alphanumeric(#[trigger] prev[i]) || prev[i] == '-') by {
            assert(prev[i] == r[i]);
        }
        lemma_slug_map_keeps(prev);
        assert(is_ascii_alphanumeric(r[r.len() - 1]) || r[r.len() - 1] == '-');
        assert(prev.push(r.last()) =~= r);
    }
}

proof fn lemma_join_front(p: Seq<char>, q: Seq<Seq<char>>, sep: Seq<char>)
    requires
        q.len() > 0,
    ensures
        text::join(seq![p] + q, sep) == p + sep + text::join(q, sep),
    decreases q.len(),
{
    let all = seq![p] + q;
    if q.len() == 1 {
        assert(all.drop_last() =~= seq![p]);
        assert(all.last() == q[0]);
        assert(text::join(seq![p], sep) == p);
        assert(text::join(all, sep) == text::join(all.drop_last(), sep) + sep + all.last());
        assert(text::join(q, sep) == q[0]);
    } else {
        lemma_join_front(p, q.drop_last(), sep);
        assert(all.drop_last() =~= seq![p] + q.drop_last());
        assert(all.last() == q.last());
        assert(text::join(all, sep) == text::join(all.drop_last(), sep) + sep + all.last());
        assert(text::join(q, sep) == text::join(q.drop_last(), sep) + sep + q.last());
        assert(p + sep + text::join(q.drop_last(), sep) + sep + q.last() =~= p + sep + (text::join(
            q.drop_last(),
            sep,
        ) + sep + q.last()));
    }
}

proof fn lemma_slug_of_slug(r: Seq<char>)
    requires
        slug_shaped(r),
    ensures
        text::join(non_empty(dash_pieces(r)), "-"@) == r,
    decreases r.len(),
{
    reveal_strlit("-");
    text::lemma_index_of(r, '-');
    match text::index_of(r, '-') {
        None => {
            assert(dash_pieces(r) == seq![r]);
            assert(seq![r].drop_first() =~= Seq::<Seq<char>>::empty());
            assert(non_empty(Seq::<Seq<char>>::empty()) =~= Seq::<Seq<char>>::empty());
            if r.len() > 0 {
                assert(non_empty(seq![r]) =~= seq![r]);
            } else {
                assert(non_empty(seq![r]) =~= Seq::<Seq<char>>::empty());
            }
        },
        Some(k) => {
            let head = r.subrange(0, k);
            let rest = r.subrange(k + 1, r.len() as int);
            assert(k > 0);
            assert(k < r.len() - 1);
            assert(r[k + 1] != '-');
            assert(slug_shaped(rest)) by {
                assert forall|i: int| 0 <= i < rest.len() implies (is_ascii_alphanumeric(#[trigger] rest[i]) || rest[i] == '-') by {
                    assert(rest[i] == r[k + 1 + i]);
                }
                assert forall|i: int| 0 <= i < rest.len() - 1 implies !(#[trigger] rest[i] == '-' && rest[i + 1] == '-') by {
                    assert(rest[i] == r[k + 1 + i] && rest[i + 1] == r[k + 2 + i]);
                }
                assert(rest[0] == r[k + 1]);
                assert(rest[rest.len() - 1] == r[r.len() - 1]);
            }
            lemma_slug_of_slug(rest);
            let ps = dash_pieces(r);
            assert(ps == seq![head] + dash_pieces(rest));
            assert(ps.drop_first() =~= dash_pieces(rest));
            assert(ps[0] == head);
            let q = non_empty(dash_pieces(rest));
            assert(non_empty(ps) == seq![head] + q);
            assert(q.len() > 0) by {
                if q.len() == 0 {
                    assert(text::join(q, "-"@) =~= Seq::<char>::empty());
                }
            }
            lemma_join_front(head, q, "-"@);
            assert(head + "-"@ + rest =~= r);
        },
    }
}

/// Making a slug of a slug gives it back: text in the shape of a slug,
/// without ASCII upper-case letters (as every result of `generate_slug` is),
/// is its own slug.
pub proof fn slug_of_slug_is_itself(r: Seq<char>)
    requires
        slug_shaped(r),
        no_ascii_upper(r),
    ensures
        slug_of_lower(r) == r,
        slug(r) == r,
{
    lemma_slug_map_keeps(r);
    lemma_slug_of_slug(r);
    assert forall|i: int| 0 <= i < r.len() implies is_ascii_char(#[trigger] r[i]) by {
        assert(is_ascii_alphanumeric(r[i]) || r[i] == '-');
    }
    assert(r.map_values(|c: char| ascii_lower(c)) =~= r) by {
        assert forall|i: int| 0 <= i < r.len() implies r.map_values(|c: char| ascii_lower(c))[i] == r[i] by {
            assert(!is_ascii_upper(r[i]));
        }
    }
}

} // verus!
