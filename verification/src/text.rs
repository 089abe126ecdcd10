//! Text model of a quote file: splitting into lines, trimming white space,
//! and the resulting sequence of usable entries.

use vstd::prelude::*;

verus! {

/// A character that trimming removes: the Unicode white-space set.
pub open spec fn is_space(c: char) -> bool {
    let u = c as u32;
    (9 <= u && u <= 13) || u == 32 || u == 0x85 || u == 0xa0 || u == 0x1680 || (0x2000 <= u && u
        <= 0x200a) || u == 0x2028 || u == 0x2029 || u == 0x202f || u == 0x205f || u == 0x3000
}

/// Runtime test for `is_space`.
pub fn is_space_char(c: char) -> (r: bool)
    ensures
        r == is_space(c),
{
    let u = c as u32;
    (9 <= u && u <= 13) || u == 32 || u == 0x85 || u == 0xa0 || u == 0x1680 || (0x2000 <= u && u
        <= 0x200a) || u == 0x2028 || u == 0x2029 || u == 0x202f || u == 0x205f || u == 0x3000
}

/// The characters left after removing leading white space.
pub open spec fn trim_start(s: Seq<char>) -> Seq<char>
    decreases s.len(),
{
    if s.len() > 0 && is_space(s[0]) {
        trim_start(s.drop_first())
    } else {
        s
    }
}

/// The characters left after removing trailing white space.
pub open spec fn trim_end(s: Seq<char>) -> Seq<char>
    decreases s.len(),
{
    if s.len() > 0 && is_space(s.last()) {
        trim_end(s.drop_last())
    } else {
        s
    }
}

/// The characters left after removing leading and trailing white space.
pub open spec fn trim_spaces(s: Seq<char>) -> Seq<char> {
    trim_end(trim_start(s))
}

/// If everything before `a` is white space and position `a` (when it exists)
/// is not, trimming the front keeps exactly the characters from `a` on.
proof fn lemma_trim_start_at(s: Seq<char>, a: int)
    requires
        0 <= a <= s.len(),
        forall|i: int| 0 <= i < a ==> is_space(#[trigger] s[i]),
        a < s.len() ==> !is_space(s[a]),
    ensures
        trim_start(s) == s.skip(a),
    decreases a,
{
    if a == 0 {
        assert(s.skip(0) =~= s);
    } else {
        let t = s.drop_first();
        lemma_trim_start_at(t, a - 1);
        assert(t.skip(a - 1) =~= s.skip(a));
    }
}

/// If everything from `b` on is white space and position `b - 1` (when it
/// exists) is not, trimming the back keeps exactly the characters before `b`.
proof fn lemma_trim_end_at(s: Seq<char>, b: int)
    requires
        0 <= b <= s.len(),
        forall|i: int| b <= i < s.len() ==> is_space(#[trigger] s[i]),
        b > 0 ==> !is_space(s[b - 1]),
    ensures
        trim_end(s) == s.take(b),
    decreases s.len(),
{
    if b == s.len() {
        assert(s.take(b) =~= s);
    } else {
        let t = s.drop_last();
        lemma_trim_end_at(t, b);
        assert(t.take(b) =~= s.take(b));
    }
}

/// Number of characters before the first line feed, or the whole length when
/// there is none.
pub open spec fn first_line_len(s: Seq<char>) -> int
    decreases s.len(),
{
    if s.len() == 0 {
        0
    } else if s[0] == '\n' {
        0
    } else {
        1 + first_line_len(s.drop_first())
    }
}

proof fn lemma_first_line_len_bounds(s: Seq<char>)
    ensures
        0 <= first_line_len(s) <= s.len(),
    decreases s.len(),
{
    if s.len() > 0 && s[0] != '\n' {
        lemma_first_line_len_bounds(s.drop_first());
    }
}

/// The first line ends exactly at `k` when no line feed stands before `k` and
/// one stands at `k` (or the text ends there).
proof fn lemma_first_line_len_at(s: Seq<char>, k: int)
    requires
        0 <= k <= s.len(),
        forall|i: int| 0 <= i < k ==> #[trigger] s[i] != '\n',
        k < s.len() ==> s[k] == '\n',
    ensures
        first_line_len(s) == k,
    decreases k,
{
    if k > 0 {
        let t = s.drop_first();
        lemma_first_line_len_at(t, k - 1);
    }
}

/// The usable entries of a quote text: each line trimmed of surrounding white
/// space, blank lines dropped, in the order the lines stand in the text.
pub open spec fn quote_entries(s: Seq<char>) -> Seq<Seq<char>>
    decreases s.len(),
    via quote_entries_decreases
{
    if s.len() == 0 {
        Seq::empty()
    } else {
        let k = first_line_len(s);
        let line = trim_spaces(s.take(k));
        let head = if line.len() > 0 {
            seq![line]
        } else {
            Seq::<Seq<char>>::empty()
        };
        let rest = if k == s.len() {
            Seq::<Seq<char>>::empty()
        } else {
            quote_entries(s.skip(k + 1))
        };
        head + rest
    }
}

#[via_fn]
proof fn quote_entries_decreases(s: Seq<char>) {
    lemma_first_line_len_bounds(s);
}

/// One step of reading a text line by line: with no line feed between `start`
/// and `j`, and one at `j` (or the end of the text), the entries of the tail
/// beginning at `start` are the trimmed line `[start, j)` (when not blank)
/// followed by the entries of the tail beginning after `j`.
pub proof fn lemma_quote_entries_step(s: Seq<char>, start: int, j: int)
    requires
        0 <= start <= j <= s.len(),
        forall|i: int| start <= i < j ==> #[trigger] s[i] != '\n',
        j < s.len() ==> s[j] == '\n',
    ensures
        quote_entries(s.skip(start)) == (if trim_spaces(s.subrange(start, j)).len() > 0 {
            seq![trim_spaces(s.subrange(start, j))]
        } else {
            Seq::<Seq<char>>::empty()
        }) + (if j < s.len() {
            quote_entries(s.skip(j + 1))
        } else {
            Seq::<Seq<char>>::empty()
        }),
{
    let rest = s.skip(start);
    let line = trim_spaces(s.subrange(start, j));
    let head = if line.len() > 0 {
        seq![line]
    } else {
        Seq::<Seq<char>>::empty()
    };
    let tail = if j < s.len() {
        quote_entries(s.skip(j + 1))
    } else {
        Seq::<Seq<char>>::empty()
    };
    if start == s.len() {
        assert(rest =~= Seq::<char>::empty());
        assert(s.subrange(start, j) =~= Seq::<char>::empty());
        assert(quote_entries(rest) =~= head + tail);
    } else {
        assert forall|i: int| 0 <= i < j - start implies #[trigger] rest[i] != '\n' by {
            assert(s[start + i] != '\n');
        }
        lemma_first_line_len_at(rest, j - start);
        assert(rest.take(j - start) =~= s.subrange(start, j));
        if j < s.len() {
            assert(rest.skip(j - start + 1) =~= s.skip(j + 1));
            assert(quote_entries(rest) == head + tail);
        } else {
            assert(j - start == rest.len());
            assert(quote_entries(rest) == head + tail);
        }
    }
}

/// The front-trimmed text never begins with white space.
proof fn lemma_trim_start_head(s: Seq<char>)
    ensures
        trim_start(s).len() == 0 || !is_space(trim_start(s)[0]),
    decreases s.len(),
{
    if s.len() > 0 && is_space(s[0]) {
        lemma_trim_start_head(s.drop_first());
    }
}

/// The back-trimmed text never ends with white space.
proof fn lemma_trim_end_last(s: Seq<char>)
    ensures
        trim_end(s).len() == 0 || !is_space(trim_end(s).last()),
    decreases s.len(),
{
    if s.len() > 0 && is_space(s.last()) {
        lemma_trim_end_last(s.drop_last());
    }
}

/// The back-trimmed text is a prefix of the text.
proof fn lemma_trim_end_is_prefix(s: Seq<char>)
    ensures
        trim_end(s).len() <= s.len(),
        forall|i: int| 0 <= i < trim_end(s).len() ==> #[trigger] trim_end(s)[i] == s[i],
    decreases s.len(),
{
    if s.len() > 0 && is_space(s.last()) {
        lemma_trim_end_is_prefix(s.drop_last());
    }
}

/// Trimming is idempotent: a trimmed text trims to itself.
pub proof fn lemma_trim_spaces_idempotent(s: Seq<char>)
    ensures
        trim_spaces(trim_spaces(s)) == trim_spaces(s),
{
    let u = trim_start(s);
    let t = trim_end(u);
    lemma_trim_start_head(s);
    lemma_trim_end_last(s);
    lemma_trim_end_is_prefix(u);
    if t.len() == 0 {
        assert(trim_start(t) == t);
        assert(trim_end(t) == t);
    } else {
        assert(t[0] == u[0]);
        assert(trim_start(t) == t);
        lemma_trim_end_last(u);
        assert(trim_end(t) == t);
    }
}

/// The entries of a quote text are usable as they stand: none is blank, and
/// none carries surrounding white space, so trimming leaves each unchanged.
pub proof fn lemma_quote_entries_trimmed(s: Seq<char>)
    ensures
        forall|i: int|
            0 <= i < quote_entries(s).len() ==> #[trigger] quote_entries(s)[i].len() > 0
                && trim_spaces(quote_entries(s)[i]) == quote_entries(s)[i],
    decreases s.len(),
{
    if s.len() > 0 {
        lemma_first_line_len_bounds(s);
        let k = first_line_len(s);
        lemma_trim_spaces_idempotent(s.take(k));
        if k < s.len() {
            lemma_quote_entries_trimmed(s.skip(k + 1));
        }
        let entries = quote_entries(s);
        let line = trim_spaces(s.take(k));
        let head = if line.len() > 0 {
            seq![line]
        } else {
            Seq::<Seq<char>>::empty()
        };
        let rest = if k == s.len() {
            Seq::<Seq<char>>::empty()
        } else {
            quote_entries(s.skip(k + 1))
        };
        assert(entries == head + rest);
        assert forall|i: int|
            0 <= i < entries.len() implies #[trigger] entries[i].len() > 0 && trim_spaces(
            entries[i],
        ) == entries[i] by {
            if i < head.len() {
                assert(entries[i] == line);
            } else {
                assert(entries[i] == rest[i - head.len()]);
            }
        }
    }
}

/// Returns the line with surrounding white space removed.
pub fn trim_line<'a>(line: &'a str) -> (r: &'a str)
    ensures
        r@ == trim_spaces(line@),
{
    let n = line.unicode_len();
    let mut a: usize = 0;
    while a < n && is_space_char(line.get_char(a))
        invariant
            a <= n,
            n == line@.len(),
            forall|i: int| 0 <= i < a ==> is_space(#[trigger] line@[i]),
        decreases n - a,
    {
        a = a + 1;
    }
    let mut b: usize = n;
    while b > a && is_space_char(line.get_char(b - 1))
        invariant
            a <= b <= n,
            n == line@.len(),
            forall|i: int| b <= i < n ==> is_space(#[trigger] line@[i]),
        decreases b,
    {
        b = b - 1;
    }
    proof {
        lemma_trim_start_at(line@, a as int);
        lemma_trim_end_at(line@.skip(a as int), b - a);
        assert(line@.skip(a as int).take(b - a) =~= line@.subrange(a as int, b as int));
    }
    line.substring_char(a, b)
}

} // verus!
