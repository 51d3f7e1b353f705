//! Character-level text handling shared by the decoders.
//!
//! Text is handled as a sequence of characters. The functions here cut it
//! into lines, whitespace-separated words and `key: value` halves.

use vstd::prelude::*;

verus! {

/// A class of characters that a scan runs over.
#[derive(Clone, Copy)]
pub enum CharClass {
    /// Unicode white space.
    Space,
    /// Anything but white space.
    NonSpace,
    /// The decimal digits `0` to `9`.
    Digit,
    /// The given character only.
    Only(char),
    /// Anything but the given character.
    Except(char),
}

/// Whether `c` is white space: the characters with the Unicode property
/// `White_Space`.
pub open spec fn is_space(c: char) -> bool {
    let n = c as u32;
    ||| 0x09 <= n <= 0x0d
    ||| n == 0x20
    ||| n == 0x85
    ||| n == 0xa0
    ||| n == 0x1680
    ||| 0x2000 <= n <= 0x200a
    ||| n == 0x2028
    ||| n == 0x2029
    ||| n == 0x202f
    ||| n == 0x205f
    ||| n == 0x3000
}

/// Whether `c` is one of the decimal digits `0` to `9`.
pub open spec fn is_digit(c: char) -> bool {
    '0' <= c <= '9'
}

impl CharClass {
    /// Whether `c` belongs to the class.
    pub open spec fn holds(self, c: char) -> bool {
        match self {
            CharClass::Space => is_space(c),
            CharClass::NonSpace => !is_space(c),
            CharClass::Digit => is_digit(c),
            CharClass::Only(d) => c == d,
            CharClass::Except(d) => c != d,
        }
    }

    /// Tests whether `c` belongs to the class.
    pub fn test(&self, c: char) -> (r: bool)
        ensures
            r == self.holds(c),
    {
        match self {
            CharClass::Space => white_space(c),
            CharClass::NonSpace => !white_space(c),
            CharClass::Digit => '0' <= c && c <= '9',
            CharClass::Only(d) => c == *d,
            CharClass::Except(d) => c != *d,
        }
    }
}

/// Tests whether `c` is white space.
pub fn white_space(c: char) -> (r: bool)
    ensures
        r == is_space(c),
{
    let n: u32 = c as u32;
    (0x09 <= n && n <= 0x0d) || n == 0x20 || n == 0x85 || n == 0xa0 || n == 0x1680 || (0x2000 <= n
        && n <= 0x200a) || n == 0x2028 || n == 0x2029 || n == 0x202f || n == 0x205f || n == 0x3000
}

/// The number of characters at the start of `s` that belong to `k`.
pub open spec fn run_len(s: Seq<char>, k: CharClass) -> nat
    decreases s.len(),
{
    if s.len() > 0 && k.holds(s[0]) {
        1 + run_len(s.skip(1), k)
    } else {
        0
    }
}

/// The number of characters at the end of `s` that belong to `k`.
pub open spec fn tail_len(s: Seq<char>, k: CharClass) -> nat
    decreases s.len(),
{
    if s.len() > 0 && k.holds(s.last()) {
        1 + tail_len(s.drop_last(), k)
    } else {
        0
    }
}

/// A run at the start of `s` is as long as the first `n` characters when
/// those belong to the class and the next one, if any, does not.
pub proof fn lemma_run_len(s: Seq<char>, k: CharClass, n: nat)
    requires
        n <= s.len(),
        forall|i: int| 0 <= i < n ==> k.holds(#[trigger] s[i]),
        n == s.len() || !k.holds(s[n as int]),
    ensures
        run_len(s, k) == n,
    decreases n,
{
    if n > 0 {
        let t = s.skip(1);
        assert forall|i: int| 0 <= i < n - 1 implies k.holds(#[trigger] t[i]) by {
            assert(t[i] == s[i + 1]);
        }
        lemma_run_len(t, k, (n - 1) as nat);
    }
}

/// A run stays within the text, covers only characters of its class and
/// stops at the first character outside it.
pub proof fn lemma_run_len_bounds(s: Seq<char>, k: CharClass)
    ensures
        run_len(s, k) <= s.len(),
        forall|i: int| 0 <= i < run_len(s, k) ==> k.holds(#[trigger] s[i]),
        run_len(s, k) < s.len() ==> !k.holds(s[run_len(s, k) as int]),
    decreases s.len(),
{
    if s.len() > 0 && k.holds(s[0]) {
        let t = s.skip(1);
        lemma_run_len_bounds(t, k);
        assert forall|i: int| 0 <= i < run_len(s, k) implies k.holds(#[trigger] s[i]) by {
            if i > 0 {
                assert(s[i] == t[i - 1]);
            }
        }
    }
}

/// The same for a run at the end of `s`.
pub proof fn lemma_tail_len(s: Seq<char>, k: CharClass, n: nat)
    requires
        n <= s.len(),
        forall|i: int| s.len() - n <= i < s.len() ==> k.holds(#[trigger] s[i]),
        n == s.len() || !k.holds(s[s.len() - n - 1]),
    ensures
        tail_len(s, k) == n,
    decreases n,
{
    if n > 0 {
        let t = s.drop_last();
        assert forall|i: int| t.len() - (n - 1) <= i < t.len() implies k.holds(#[trigger] t[i]) by {
            assert(t[i] == s[i]);
        }
        lemma_tail_len(t, k, (n - 1) as nat);
    }
}

/// Where the run of `k` that starts at `from` ends.
pub fn scan(s: &[char], from: usize, k: CharClass) -> (to: usize)
    requires
        from <= s@.len(),
    ensures
        to == from + run_len(s@.skip(from as int), k),
        from <= to <= s@.len(),
{
    let mut to: usize = from;
    while to < s.len() && k.test(s[to])
        invariant
            from <= to <= s@.len(),
            forall|i: int| from <= i < to ==> k.holds(#[trigger] s@[i]),
        decreases s@.len() - to,
    {
        to += 1;
    }
    proof {
        let t = s@.skip(from as int);
        assert forall|i: int| 0 <= i < to - from implies k.holds(#[trigger] t[i]) by {
            assert(t[i] == s@[from + i]);
        }
        lemma_run_len(t, k, (to - from) as nat);
    }
    to
}

/// Where the run of `k` that ends at `to` starts.
pub fn scan_back(s: &[char], to: usize, k: CharClass) -> (from: usize)
    requires
        to <= s@.len(),
    ensures
        from == to - tail_len(s@.take(to as int), k),
        from <= to,
{
    let mut from: usize = to;
    while from > 0 && k.test(s[from - 1])
        invariant
            from <= to <= s@.len(),
            forall|i: int| from <= i < to ==> k.holds(#[trigger] s@[i]),
        decreases from,
    {
        from -= 1;
    }
    proof {
        let t = s@.take(to as int);
        assert forall|i: int| t.len() - (to - from) <= i < t.len() implies k.holds(
            #[trigger] t[i],
        ) by {
            assert(t[i] == s@[i]);
        }
        lemma_tail_len(t, k, (to - from) as nat);
    }
    from
}

/// The views of the items of `v`, in order.
pub open spec fn views<T: View>(v: Seq<T>) -> Seq<T::V> {
    Seq::new(v.len(), |i: int| v[i]@)
}

/// The texts that the vectors of `v` hold, in order.
pub open spec fn texts(v: Seq<Vec<char>>) -> Seq<Seq<char>> {
    views(v)
}

/// Appending an item appends its view.
pub proof fn lemma_views_push<T: View>(v: Seq<T>, x: T)
    ensures
        views(v.push(x)) == views(v).push(x@),
{
    assert(views(v.push(x)) =~= views(v).push(x@));
}

/// Appending a vector appends its text.
pub proof fn lemma_texts_push(v: Seq<Vec<char>>, x: Vec<char>)
    ensures
        texts(v.push(x)) == texts(v).push(x@),
{
    lemma_views_push(v, x);
}

/// The characters of `s` from `from` up to `to`, as a vector of their own.
pub fn copy_range(s: &[char], from: usize, to: usize) -> (out: Vec<char>)
    requires
        from <= to <= s@.len(),
    ensures
        out@ == s@.subrange(from as int, to as int),
{
    let mut out: Vec<char> = Vec::new();
    let mut i: usize = from;
    while i < to
        invariant
            from <= i <= to <= s@.len(),
            out@ == s@.subrange(from as int, i as int),
        decreases to - i,
    {
        out.push(s[i]);
        i += 1;
        assert(out@ =~= s@.subrange(from as int, i as int));
    }
    out
}

/// Whether two texts are the same.
pub fn same(a: &[char], b: &[char]) -> (r: bool)
    ensures
        r == (a@ == b@),
{
    if a.len() != b.len() {
        return false;
    }
    let mut i: usize = 0;
    while i < a.len()
        invariant
            i <= a@.len(),
            a@.len() == b@.len(),
            forall|j: int| 0 <= j < i ==> a@[j] == b@[j],
        decreases a@.len() - i,
    {
        if a[i] != b[i] {
            return false;
        }
        i += 1;
    }
    assert(a@ =~= b@);
    true
}

/// Whether `s` begins with `prefix`.
pub fn starts_with(s: &[char], prefix: &[char]) -> (r: bool)
    ensures
        r == prefix@.is_prefix_of(s@),
{
    if prefix.len() > s.len() {
        return false;
    }
    let mut i: usize = 0;
    while i < prefix.len()
        invariant
            i <= prefix@.len() <= s@.len(),
            forall|j: int| 0 <= j < i ==> s@[j] == prefix@[j],
        decreases prefix@.len() - i,
    {
        if s[i] != prefix[i] {
            assert(s@.subrange(0, prefix@.len() as int)[i as int] != prefix@[i as int]);
            return false;
        }
        i += 1;
    }
    assert(prefix@ =~= s@.subrange(0, prefix@.len() as int));
    true
}

/// A line without the carriage return that may end it.
pub open spec fn strip_cr(s: Seq<char>) -> Seq<char> {
    if s.len() > 0 && s.last() == '\r' {
        s.drop_last()
    } else {
        s
    }
}

/// The lines of `s`. A line ends with a line feed, or with a carriage return
/// and a line feed; neither belongs to the line. What follows the last line
/// feed is a line too, unless it is empty.
pub open spec fn lines(s: Seq<char>) -> Seq<Seq<char>>
    decreases s.len(),
{
    if s.len() == 0 {
        Seq::empty()
    } else {
        let n = run_len(s, CharClass::Except('\n')) as int;
        if n >= s.len() {
            seq![s]
        } else {
            seq![strip_cr(s.take(n))] + lines(s.skip(n + 1))
        }
    }
}

/// Cuts `s` into its lines.
pub fn split_lines(s: &[char]) -> (out: Vec<Vec<char>>)
    ensures
        texts(out@) == lines(s@),
{
    let mut out: Vec<Vec<char>> = Vec::new();
    let mut pos: usize = 0;
    assert(s@.skip(0) =~= s@);
    assert(texts(out@) =~= Seq::<Seq<char>>::empty());
    while pos < s.len()
        invariant
            pos <= s@.len(),
            lines(s@) == texts(out@) + lines(s@.skip(pos as int)),
        decreases s@.len() - pos,
    {
        let ghost rest = s@.skip(pos as int);
        let ghost before = texts(out@);
        let end = scan(s, pos, CharClass::Except('\n'));
        if end == s.len() {
            let line = copy_range(s, pos, end);
            proof {
                assert(line@ =~= rest);
                lemma_texts_push(out@, line);
                assert(s@.skip(end as int).len() == 0);
                assert(before + seq![rest] =~= before.push(rest));
                assert(before.push(rest) + lines(s@.skip(end as int)) =~= before.push(rest));
            }
            out.push(line);
            pos = end;
        } else {
            let stop = if end > pos && s[end - 1] == '\r' {
                end - 1
            } else {
                end
            };
            let line = copy_range(s, pos, stop);
            proof {
                let n = (end - pos) as int;
                assert(rest.take(n) =~= s@.subrange(pos as int, end as int));
                assert(line@ =~= strip_cr(rest.take(n)));
                assert(rest.skip(n + 1) =~= s@.skip(end + 1));
                lemma_texts_push(out@, line);
                assert(before + (seq![line@] + lines(s@.skip(end + 1))) =~= before.push(line@)
                    + lines(s@.skip(end + 1)));
            }
            out.push(line);
            pos = end + 1;
        }
    }
    proof {
        assert(s@.skip(pos as int).len() == 0);
        assert(texts(out@) + lines(s@.skip(pos as int)) =~= texts(out@));
    }
    out
}

/// The words of `s`: its longest stretches without white space, in order.
pub open spec fn words(s: Seq<char>) -> Seq<Seq<char>>
    decreases s.len(),
{
    if s.len() == 0 {
        Seq::empty()
    } else if is_space(s[0]) {
        words(s.skip(1))
    } else {
        let n = run_len(s, CharClass::NonSpace) as int;
        proof {
            lemma_run_len_bounds(s, CharClass::NonSpace);
        }
        seq![s.take(n)] + words(s.skip(n))
    }
}

/// White space at the start of a text adds no word.
pub proof fn lemma_words_skip_space(s: Seq<char>, n: nat)
    requires
        n <= run_len(s, CharClass::Space),
    ensures
        words(s) == words(s.skip(n as int)),
    decreases n,
{
    if n == 0 {
        assert(s.skip(0) =~= s);
    } else {
        lemma_run_len_bounds(s, CharClass::Space);
        lemma_words_skip_space(s.skip(1), (n - 1) as nat);
        assert(s.skip(1).skip(n - 1) =~= s.skip(n as int));
    }
}

/// Cuts `s` into its words.
pub fn split_words(s: &[char]) -> (out: Vec<Vec<char>>)
    ensures
        texts(out@) == words(s@),
{
    let mut out: Vec<Vec<char>> = Vec::new();
    let mut pos: usize = 0;
    assert(s@.skip(0) =~= s@);
    assert(texts(out@) =~= Seq::<Seq<char>>::empty());
    loop
        invariant
            pos <= s@.len(),
            words(s@) == texts(out@) + words(s@.skip(pos as int)),
        ensures
            texts(out@) == words(s@),
        decreases s@.len() - pos,
    {
        let ghost before = texts(out@);
        let start = scan(s, pos, CharClass::Space);
        proof {
            lemma_words_skip_space(s@.skip(pos as int), (start - pos) as nat);
            assert(s@.skip(pos as int).skip(start - pos) =~= s@.skip(start as int));
        }
        if start == s.len() {
            proof {
                assert(s@.skip(start as int).len() == 0);
                assert(before + words(s@.skip(start as int)) =~= before);
            }
            break ;
        }
        let ghost rest = s@.skip(start as int);
        let end = scan(s, start, CharClass::NonSpace);
        let word = copy_range(s, start, end);
        proof {
            lemma_run_len_bounds(s@.skip(pos as int), CharClass::Space);
            assert(rest[0] == s@.skip(pos as int)[start - pos]);
            assert(!is_space(rest[0]));
            let n = (end - start) as int;
            assert(word@ =~= rest.take(n));
            assert(rest.skip(n) =~= s@.skip(end as int));
            lemma_texts_push(out@, word);
            assert(before + (seq![word@] + words(s@.skip(end as int))) =~= before.push(word@)
                + words(s@.skip(end as int)));
        }
        out.push(word);
        pos = end;
    }
    out
}

/// The two parts of `s` around the first `sep`, if `sep` occurs.
pub open spec fn split_at_first(s: Seq<char>, sep: char) -> Option<(Seq<char>, Seq<char>)> {
    let n = run_len(s, CharClass::Except(sep)) as int;
    if n >= s.len() {
        None
    } else {
        Some((s.take(n), s.skip(n + 1)))
    }
}

/// Cuts `s` at the first `sep`.
pub fn split_once(s: &[char], sep: char) -> (r: Option<(Vec<char>, Vec<char>)>)
    ensures
        match r {
            Some((a, b)) => split_at_first(s@, sep) == Some((a@, b@)),
            None => split_at_first(s@, sep).is_none(),
        },
{
    assert(s@.skip(0) =~= s@);
    let n = scan(s, 0, CharClass::Except(sep));
    if n == s.len() {
        None
    } else {
        let a = copy_range(s, 0, n);
        let b = copy_range(s, n + 1, s.len());
        assert(a@ =~= s@.take(n as int));
        assert(b@ =~= s@.skip(n + 1));
        Some((a, b))
    }
}

/// `s` without the characters of `k` at its end.
pub open spec fn strip_end(s: Seq<char>, k: CharClass) -> Seq<char> {
    s.take(s.len() - tail_len(s, k))
}

/// `s` without the characters of `k` at its start.
pub open spec fn strip_start(s: Seq<char>, k: CharClass) -> Seq<char> {
    s.skip(run_len(s, k) as int)
}

/// `s` without the white space at its start and at its end.
pub open spec fn trimmed(s: Seq<char>) -> Seq<char> {
    strip_end(strip_start(s, CharClass::Space), CharClass::Space)
}

/// Removes the characters of `k` from the end of `s`.
pub fn trim_end(s: &[char], k: CharClass) -> (out: Vec<char>)
    ensures
        out@ == strip_end(s@, k),
{
    assert(s@.take(s@.len() as int) =~= s@);
    let end = scan_back(s, s.len(), k);
    let out = copy_range(s, 0, end);
    assert(out@ =~= strip_end(s@, k));
    out
}

/// Removes the white space from both ends of `s`.
pub fn trim(s: &[char]) -> (out: Vec<char>)
    ensures
        out@ == trimmed(s@),
{
    assert(s@.skip(0) =~= s@);
    let start = scan(s, 0, CharClass::Space);
    let mut end: usize = s.len();
    while end > start && white_space(s[end - 1])
        invariant
            start <= end <= s@.len(),
            forall|i: int| end <= i < s@.len() ==> is_space(#[trigger] s@[i]),
        decreases end,
    {
        end -= 1;
    }
    let out = copy_range(s, start, end);
    proof {
        let t = s@.skip(start as int);
        let n = (s@.len() - end) as nat;
        assert forall|i: int| t.len() - n <= i < t.len() implies CharClass::Space.holds(
            #[trigger] t[i],
        ) by {
            assert(t[i] == s@[start + i]);
        }
        lemma_tail_len(t, CharClass::Space, n);
        assert(out@ =~= trimmed(s@));
    }
    out
}

/// The characters of `s`, in order.
pub fn chars_of(s: &str) -> (out: Vec<char>)
    ensures
        out@ == s@,
{
    let mut out: Vec<char> = Vec::new();
    for c in it: s.chars()
        invariant
            out@ == it.seq().take(it.index() as int),
            it.seq() == s@,
    {
        out.push(c);
    }
    out
}

/// `String::push` of std: puts `c` at the end of `s` and leaves the rest of
/// `s` as it was.
#[verifier::external_body]
fn push_char(s: &mut String, c: char)
    ensures
        final(s)@ == old(s)@.push(c),
{
    s.push(c);
}

/// The string made of the characters of `s`.
pub fn string_of(s: &[char]) -> (out: String)
    ensures
        out@ == s@,
{
    let mut out = String::new();
    let mut i: usize = 0;
    while i < s.len()
        invariant
            i <= s@.len(),
            out@ == s@.take(i as int),
        decreases s@.len() - i,
    {
        push_char(&mut out, s[i]);
        i += 1;
        assert(out@ =~= s@.take(i as int));
    }
    assert(s@.take(s@.len() as int) =~= s@);
    out
}

/// `s` without the occurrences of `c`.
pub open spec fn without(s: Seq<char>, c: char) -> Seq<char>
    decreases s.len(),
{
    if s.len() == 0 {
        Seq::empty()
    } else if s.last() == c {
        without(s.drop_last(), c)
    } else {
        without(s.drop_last(), c).push(s.last())
    }
}

/// Removes the occurrences of `c` from `s`.
pub fn remove_char(s: &[char], c: char) -> (out: Vec<char>)
    ensures
        out@ == without(s@, c),
{
    let mut out: Vec<char> = Vec::new();
    let mut i: usize = 0;
    assert(s@.take(0) =~= Seq::<char>::empty());
    while i < s.len()
        invariant
            i <= s@.len(),
            out@ == without(s@.take(i as int), c),
        decreases s@.len() - i,
    {
        assert(s@.take(i + 1).drop_last() =~= s@.take(i as int));
        assert(s@.take(i + 1).last() == s@[i as int]);
        if s[i] != c {
            out.push(s[i]);
        }
        i += 1;
    }
    assert(s@.take(i as int) =~= s@);
    out
}

} // verus!
