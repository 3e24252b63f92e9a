//! Text rules shared by the diff and patch logic: blank characters, the two
//! trims, line and field splitting, and the facts that connect them.

use vstd::prelude::*;

verus! {

/// The whitespace characters that trimming removes.
pub open spec fn is_blank_char(c: char) -> bool {
    c == ' ' || c == '\t' || c == '\n' || c == '\r' || c == '\u{b}' || c == '\u{c}'
}

/// Exec test for [`is_blank_char`].
pub fn blank_char(c: char) -> (r: bool)
    ensures
        r == is_blank_char(c),
{
    c == ' ' || c == '\t' || c == '\n' || c == '\r' || c == '\u{b}' || c == '\u{c}'
}

/// The text with its leading blank characters removed.
pub open spec fn trim_start_spec(s: Seq<char>) -> Seq<char>
    decreases s.len(),
{
    if s.len() > 0 && is_blank_char(s[0]) {
        trim_start_spec(s.skip(1))
    } else {
        s
    }
}

/// The text with its trailing blank characters removed.
pub open spec fn trim_end_spec(s: Seq<char>) -> Seq<char>
    decreases s.len(),
{
    if s.len() > 0 && is_blank_char(s[s.len() - 1]) {
        trim_end_spec(s.take(s.len() - 1))
    } else {
        s
    }
}

/// The text with blank characters removed at both ends.
pub open spec fn trim_spec(s: Seq<char>) -> Seq<char> {
    trim_end_spec(trim_start_spec(s))
}

/// A text whose trim is empty consists of blank characters only, and the
/// other way round.
pub proof fn lemma_blank_text(s: Seq<char>)
    ensures
        (trim_spec(s).len() == 0) <==> (forall|k: int| 0 <= k < s.len() ==> is_blank_char(s[k])),
{
    if forall|k: int| 0 <= k < s.len() ==> is_blank_char(s[k]) {
        lemma_all_blank_trim_start(s);
    }
    if trim_spec(s).len() == 0 {
        lemma_trim_start_suffix(s);
        let m = choose|m: int|
            0 <= m <= s.len() && trim_start_spec(s) == s.skip(m) && (forall|k: int|
                0 <= k < m ==> is_blank_char(s[k]));
        lemma_trim_end_empty_all_blank(s.skip(m));
        assert forall|k: int| 0 <= k < s.len() implies is_blank_char(s[k]) by {
            if k >= m {
                assert(s.skip(m)[k - m] == s[k]);
            }
        }
    }
}

/// `trim_start` removes a blank prefix and nothing else.
pub proof fn lemma_trim_start_suffix(s: Seq<char>)
    ensures
        exists|m: int|
            0 <= m <= s.len() && trim_start_spec(s) == s.skip(m) && (forall|k: int|
                0 <= k < m ==> is_blank_char(s[k])),
    decreases s.len(),
{
    if s.len() > 0 && is_blank_char(s[0]) {
        lemma_trim_start_suffix(s.skip(1));
        let m0 = choose|m0: int|
            0 <= m0 <= s.skip(1).len() && trim_start_spec(s.skip(1)) == s.skip(1).skip(m0) && (
            forall|k: int| 0 <= k < m0 ==> is_blank_char(s.skip(1)[k]));
        assert(s.skip(1).skip(m0) =~= s.skip(m0 + 1));
        let m = m0 + 1;
        assert(trim_start_spec(s) == s.skip(m));
        assert forall|k: int| 0 <= k < m implies is_blank_char(s[k]) by {
            if k > 0 {
                assert(s.skip(1)[k - 1] == s[k]);
            }
        }
    } else {
        assert(s.skip(0) =~= s);
    }
}

/// A text of blank characters only trims from the start to nothing.
pub proof fn lemma_all_blank_trim_start(s: Seq<char>)
    requires
        forall|k: int| 0 <= k < s.len() ==> is_blank_char(s[k]),
    ensures
        trim_start_spec(s).len() == 0,
    decreases s.len(),
{
    if s.len() > 0 {
        assert(forall|k: int| 0 <= k < s.skip(1).len() ==> s.skip(1)[k] == s[k + 1]);
        lemma_all_blank_trim_start(s.skip(1));
    }
}

/// If trimming the end leaves nothing, every character was blank.
pub proof fn lemma_trim_end_empty_all_blank(s: Seq<char>)
    requires
        trim_end_spec(s).len() == 0,
    ensures
        forall|k: int| 0 <= k < s.len() ==> is_blank_char(s[k]),
    decreases s.len(),
{
    if s.len() > 0 {
        if is_blank_char(s[s.len() - 1]) {
            lemma_trim_end_empty_all_blank(s.take(s.len() - 1));
            assert forall|k: int| 0 <= k < s.len() implies is_blank_char(s[k]) by {
                if k < s.len() - 1 {
                    assert(s.take(s.len() - 1)[k] == s[k]);
                }
            }
        }
    }
}

/// A nonempty trim of the whole implies a nonempty trim of the end alone.
pub proof fn lemma_trim_nonempty_trim_end(s: Seq<char>)
    requires
        trim_spec(s).len() > 0,
    ensures
        trim_end_spec(s).len() > 0,
{
    if trim_end_spec(s).len() == 0 {
        lemma_trim_end_empty_all_blank(s);
        lemma_blank_text(s);
    }
}

/// Exec trim of both ends.
#[verifier::loop_isolation(false)]
pub fn trim_str(s: &str) -> (r: String)
    ensures
        r@ == trim_spec(s@),
{
    let n = s.unicode_len();
    proof {
        assert(s@.skip(0) =~= s@);
    }
    let mut i: usize = 0;
    while i < n && blank_char(s.get_char(i))
        invariant
            0 <= i <= n,
            trim_start_spec(s@) == trim_start_spec(s@.skip(i as int)),
            forall|j: int| 0 <= j < i ==> is_blank_char(s@[j]),
        decreases n - i,
    {
        proof {
            assert(s@.skip(i as int).skip(1) =~= s@.skip(i as int + 1));
        }
        i += 1;
    }
    if i == n {
        proof {
            assert(s@.skip(n as int) =~= Seq::<char>::empty());
            assert(trim_spec(s@).len() == 0);
        }
        return String::new();
    }
    proof {
        assert(trim_start_spec(s@) == s@.skip(i as int));
    }
    let mut j: usize = n;
    while j > i && blank_char(s.get_char(j - 1))
        invariant
            i <= j <= n,
            trim_end_spec(s@.skip(i as int)) == trim_end_spec(s@.subrange(i as int, j as int)),
        decreases j,
    {
        proof {
            assert(s@.skip(i as int) =~= s@.subrange(i as int, n as int));
            let t = s@.subrange(i as int, j as int);
            assert(t[t.len() - 1] == s@[j - 1]);
            assert(t.take(t.len() - 1) =~= s@.subrange(i as int, j as int - 1));
        }
        j -= 1;
    }
    proof {
        assert(s@.skip(i as int) =~= s@.subrange(i as int, n as int));
        let t = s@.subrange(i as int, j as int);
        if j > i {
            assert(t[t.len() - 1] == s@[j - 1]);
            assert(trim_end_spec(t) == t);
        } else {
            assert(t =~= Seq::<char>::empty());
        }
    }
    let piece = s.substring_char(i, j);
    piece.to_owned()
}

/// Exec trim of the end alone.
#[verifier::loop_isolation(false)]
pub fn trim_end_str(s: &str) -> (r: String)
    ensures
        r@ == trim_end_spec(s@),
{
    let n = s.unicode_len();
    proof {
        assert(s@.subrange(0, n as int) =~= s@);
    }
    let mut j: usize = n;
    while j > 0 && blank_char(s.get_char(j - 1))
        invariant
            0 <= j <= n,
            trim_end_spec(s@) == trim_end_spec(s@.subrange(0, j as int)),
        decreases j,
    {
        proof {
            assert(s@.subrange(0, n as int) =~= s@);
            let t = s@.subrange(0, j as int);
            assert(t[t.len() - 1] == s@[j - 1]);
            assert(t.take(t.len() - 1) =~= s@.subrange(0, j as int - 1));
        }
        j -= 1;
    }
    proof {
        assert(s@.subrange(0, n as int) =~= s@);
        let t = s@.subrange(0, j as int);
        if j > 0 {
            assert(t[t.len() - 1] == s@[j - 1]);
            assert(trim_end_spec(t) == t);
        } else {
            assert(t =~= Seq::<char>::empty());
        }
    }
    let piece = s.substring_char(0, j);
    piece.to_owned()
}

/// Exec test for a text that is empty or blank.
#[verifier::loop_isolation(false)]
pub fn is_blank_str(s: &str) -> (r: bool)
    ensures
        r == (trim_spec(s@).len() == 0),
{
    let n = s.unicode_len();
    let mut i: usize = 0;
    while i < n
        invariant
            0 <= i <= n,
            forall|j: int| 0 <= j < i ==> is_blank_char(s@[j]),
        decreases n - i,
    {
        if !blank_char(s.get_char(i)) {
            proof {
                lemma_blank_text(s@);
            }
            return false;
        }
        i += 1;
    }
    proof {
        lemma_blank_text(s@);
    }
    true
}

/// Index of the first occurrence of `c` in `s`, or `-1` when absent.
pub open spec fn first_index_of(s: Seq<char>, c: char) -> int
    decreases s.len(),
{
    if s.len() == 0 {
        -1
    } else if s[0] == c {
        0
    } else {
        let r = first_index_of(s.skip(1), c);
        if r < 0 {
            -1
        } else {
            r + 1
        }
    }
}

/// `first_index_of` is a position of `c` preceded by no other, or `-1` when
/// `c` does not occur.
pub proof fn lemma_first_index_bounds(s: Seq<char>, c: char)
    ensures
        -1 <= first_index_of(s, c) < s.len(),
        first_index_of(s, c) >= 0 ==> s[first_index_of(s, c)] == c && (forall|j: int|
            0 <= j < first_index_of(s, c) ==> s[j] != c),
        first_index_of(s, c) < 0 ==> (forall|j: int| 0 <= j < s.len() ==> s[j] != c),
    decreases s.len(),
{
    if s.len() > 0 && s[0] != c {
        lemma_first_index_bounds(s.skip(1), c);
        let r = first_index_of(s.skip(1), c);
        if r >= 0 {
            assert(s.skip(1)[r] == s[r + 1]);
            assert forall|j: int| 0 <= j < r + 1 implies s[j] != c by {
                if j > 0 {
                    assert(s.skip(1)[j - 1] == s[j]);
                }
            }
        } else {
            assert forall|j: int| 0 <= j < s.len() implies s[j] != c by {
                if j > 0 {
                    assert(s.skip(1)[j - 1] == s[j]);
                }
            }
        }
    }
}

/// The first occurrence is wherever a scan that saw no earlier one stops.
pub proof fn lemma_first_index_at(s: Seq<char>, c: char, m: int)
    requires
        0 <= m < s.len(),
        s[m] == c,
        forall|j: int| 0 <= j < m ==> s[j] != c,
    ensures
        first_index_of(s, c) == m,
    decreases m,
{
    if m > 0 {
        assert(forall|k: int| 0 <= k < s.skip(1).len() ==> s.skip(1)[k] == s[k + 1]);
        lemma_first_index_at(s.skip(1), c, m - 1);
    }
}

/// The split of `s` at every occurrence of `sep`, empty pieces kept; a text
/// without the separator is one piece, even when empty.
pub open spec fn split_on(s: Seq<char>, sep: char) -> Seq<Seq<char>>
    decreases s.len(),
    via split_on_decreases
{
    let i = first_index_of(s, sep);
    if i < 0 {
        seq![s]
    } else {
        seq![s.take(i)] + split_on(s.skip(i + 1), sep)
    }
}

#[via_fn]
proof fn split_on_decreases(s: Seq<char>, sep: char) {
    lemma_first_index_bounds(s, sep);
}

/// Exec split at a separator character, empty pieces kept.
#[verifier::loop_isolation(false)]
pub fn split_str(s: &str, sep: char) -> (r: Vec<String>)
    ensures
        r.deep_view() == split_on(s@, sep),
{
    let n = s.unicode_len();
    proof {
        assert(s@.skip(0) =~= s@);
    }
    let mut out: Vec<String> = Vec::new();
    let mut start: usize = 0;
    let mut i: usize = 0;
    while i < n
        invariant
            0 <= start <= i <= n,
            split_on(s@, sep) == out.deep_view() + split_on(s@.skip(start as int), sep),
            forall|j: int| start <= j < i ==> s@[j] != sep,
        decreases n - i,
    {
        if s.get_char(i) == sep {
            let ghost pre = out.deep_view();
            let piece = s.substring_char(start, i);
            out.push(piece.to_owned());
            proof {
                let t = s@.skip(start as int);
                assert(forall|k: int| 0 <= k < t.len() ==> t[k] == s@[start + k]);
                lemma_first_index_at(t, sep, i - start as int);
                assert(t.take(i - start as int) =~= s@.subrange(start as int, i as int));
                assert(t.skip(i - start as int + 1) =~= s@.skip(i as int + 1));
                assert(out.deep_view() =~= pre.push(s@.subrange(start as int, i as int)));
                assert(split_on(t, sep) == seq![s@.subrange(start as int, i as int)] + split_on(
                    s@.skip(i as int + 1),
                    sep,
                ));
                assert(out.deep_view() + split_on(s@.skip(i as int + 1), sep) =~= pre + split_on(
                    t,
                    sep,
                ));
            }
            start = i + 1;
        }
        i += 1;
    }
    let ghost pre = out.deep_view();
    let piece = s.substring_char(start, n);
    out.push(piece.to_owned());
    proof {
        let t = s@.skip(start as int);
        assert(forall|k: int| 0 <= k < t.len() ==> t[k] == s@[start + k]);
        lemma_first_index_bounds(t, sep);
        if first_index_of(t, sep) >= 0 {
            assert(t[first_index_of(t, sep)] == sep);
            assert(false);
        }
        assert(t =~= s@.subrange(start as int, n as int));
        assert(split_on(t, sep) == seq![t]);
        assert(out.deep_view() =~= pre.push(t));
        assert(out.deep_view() =~= pre + split_on(t, sep));
    }
    out
}

/// A line with one trailing carriage return removed, the way line splitting
/// treats a `\r\n` ending.
pub open spec fn strip_cr(l: Seq<char>) -> Seq<char> {
    if l.len() > 0 && l[l.len() - 1] == '\r' {
        l.take(l.len() - 1)
    } else {
        l
    }
}

/// Exec form of [`strip_cr`].
pub fn strip_cr_string(l: &String) -> (r: String)
    ensures
        r@ == strip_cr(l@),
{
    let n = l.as_str().unicode_len();
    if n > 0 && l.as_str().get_char(n - 1) == '\r' {
        let piece = l.as_str().substring_char(0, n - 1);
        piece.to_owned()
    } else {
        l.clone()
    }
}

} // verus!
