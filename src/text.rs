use vstd::prelude::*;

verus! {

/// The position of the first `c` in `s`, or `s.len()` when there is none.
pub open spec fn first_index(s: Seq<char>, c: char) -> int
    decreases s.len(),
{
    if s.len() == 0 {
        0
    } else if s[0] == c {
        0
    } else {
        1 + first_index(s.skip(1), c)
    }
}

/// `l` without one trailing carriage return.
pub open spec fn strip_cr(l: Seq<char>) -> Seq<char> {
    if l.len() > 0 && l.last() == '\r' {
        l.drop_last()
    } else {
        l
    }
}

/// The lines of `t`: split at `\n` or `\r\n`; the last line ending is optional.
pub open spec fn lines(t: Seq<char>) -> Seq<Seq<char>>
    decreases t.len(),
{
    if t.len() == 0 {
        seq![]
    } else {
        let n = first_index(t, '\n');
        if 0 <= n < t.len() {
            seq![strip_cr(t.take(n))] + lines(t.skip(n + 1))
        } else {
            seq![t]
        }
    }
}

/// `s` holds no `c`.
pub open spec fn free_of(s: Seq<char>, c: char) -> bool {
    forall|j: int| 0 <= j < s.len() ==> #[trigger] s[j] != c
}

/// A text that is read back as one line exactly.
pub open spec fn is_single_line(l: Seq<char>) -> bool {
    free_of(l, '\n') && !(l.len() > 0 && l.last() == '\r')
}

pub proof fn lemma_first_index(s: Seq<char>, c: char, i: int)
    requires
        0 <= i <= s.len(),
        forall|j: int| 0 <= j < i ==> #[trigger] s[j] != c,
        i == s.len() || s[i] == c,
    ensures
        first_index(s, c) == i,
    decreases i,
{
    if i > 0 {
        let r = s.skip(1);
        assert forall|j: int| 0 <= j < i - 1 implies #[trigger] r[j] != c by {
            assert(r[j] == s[j + 1]);
        }
        lemma_first_index(r, c, i - 1);
    }
}

/// Reading past a run free of `c` adds its length to the position of `c`.
pub proof fn lemma_first_index_concat(a: Seq<char>, b: Seq<char>, c: char)
    requires
        free_of(a, c),
        b.len() > 0,
        b[0] == c,
    ensures
        first_index(a + b, c) == a.len(),
{
    let s = a + b;
    assert forall|j: int| 0 <= j < a.len() implies #[trigger] s[j] != c by {
        assert(s[j] == a[j]);
    }
    lemma_first_index(s, c, a.len() as int);
}

/// A line followed by a line feed is read back as that line, then the rest.
pub proof fn lemma_lines_cons(l: Seq<char>, rest: Seq<char>)
    requires
        is_single_line(l),
    ensures
        lines(l + seq!['\n'] + rest) == seq![l] + lines(rest),
{
    let t = l + seq!['\n'] + rest;
    assert(t =~= l + (seq!['\n'] + rest));
    lemma_first_index_concat(l, seq!['\n'] + rest, '\n');
    assert(t.take(l.len() as int) =~= l);
    assert(t.skip(l.len() as int + 1) =~= rest);
}

/// The position of the first `c` among the characters `from..end` of `s`, or `end`.
pub fn find_char(s: &str, from: usize, end: usize, c: char) -> (i: usize)
    requires
        from <= end <= s@.len(),
    ensures
        from <= i <= end,
        i - from == first_index(s@.subrange(from as int, end as int), c),
{
    let ghost sub = s@.subrange(from as int, end as int);
    let mut i: usize = from;
    while i < end
        invariant
            from <= i <= end <= s@.len(),
            sub == s@.subrange(from as int, end as int),
            forall|j: int| 0 <= j < i - from ==> #[trigger] sub[j] != c,
        decreases end - i,
    {
        if s.get_char(i) == c {
            proof {
                lemma_first_index(sub, c, i - from);
            }
            return i;
        }
        assert(sub[i - from] == s@[i as int]);
        i = i + 1;
    }
    proof {
        lemma_first_index(sub, c, i - from);
    }
    i
}

/// Relies on std's `String::push`: the character is appended at the end.
#[verifier::external_body]
pub(crate) fn push_char(s: &mut String, c: char)
    ensures
        final(s)@ == old(s)@.push(c),
{
    s.push(c)
}

} // verus!
