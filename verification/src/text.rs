//! Byte-level text: padding, trimming, lines and whitespace-separated tokens.
//!
//! Everything on the wire is a sequence of bytes. A command line is cut out of
//! what was read, stripped of NUL padding and surrounding whitespace, and split
//! into tokens at runs of ASCII whitespace.

use vstd::prelude::*;

verus! {

/// The line feed that ends a header line.
pub const NEWLINE: u8 = 10;

/// The single space that separates the fields of a header line.
pub const SPACE: u8 = 32;

/// The slash that separates the segments of a name.
pub const SLASH: u8 = 47;

/// ASCII whitespace: space, tab, line feed, vertical tab, form feed, carriage return.
pub open spec fn is_space(b: u8) -> bool {
    b == 32 || (9 <= b && b <= 13)
}

/// What is stripped from both ends of a command line: NUL bytes and whitespace.
pub open spec fn is_padding(b: u8) -> bool {
    b == 0 || is_space(b)
}

/// What cuts a byte string into pieces.
#[derive(Clone, Copy, Debug, PartialEq, Eq)]
pub enum Separator {
    /// Any ASCII whitespace byte: a command line is cut into tokens.
    Whitespace,
    /// The slash: a name is cut into path segments.
    Slash,
}

impl Separator {
    /// Whether `b` separates two pieces.
    pub open spec fn cuts(self, b: u8) -> bool {
        match self {
            Separator::Whitespace => is_space(b),
            Separator::Slash => b == SLASH,
        }
    }

    pub fn cuts_byte(self, b: u8) -> (r: bool)
        ensures
            r == self.cuts(b),
    {
        match self {
            Separator::Whitespace => is_space_byte(b),
            Separator::Slash => b == SLASH,
        }
    }
}

/// No byte of `s` is a separator.
pub open spec fn uncut(sep: Separator, s: Seq<u8>) -> bool {
    forall|i: int| 0 <= i < s.len() ==> !sep.cuts(#[trigger] s[i])
}

/// `s` is one piece: not empty and free of separators.
pub open spec fn is_piece(sep: Separator, s: Seq<u8>) -> bool {
    s.len() > 0 && uncut(sep, s)
}

/// `s` is one token: not empty and free of whitespace.
pub open spec fn is_word(s: Seq<u8>) -> bool {
    is_piece(Separator::Whitespace, s)
}

/// Length of the longest prefix of `s` that holds no separator.
pub open spec fn run_len(sep: Separator, s: Seq<u8>) -> nat
    decreases s.len(),
{
    if s.len() > 0 && !sep.cuts(s[0]) {
        1 + run_len(sep, s.skip(1))
    } else {
        0
    }
}

/// The pieces of `s` between separators, in order; runs of separators count
/// as one, and separators at either end add nothing.
pub open spec fn pieces(sep: Separator, s: Seq<u8>) -> Seq<Seq<u8>>
    decreases s.len(),
{
    if s.len() == 0 {
        Seq::empty()
    } else if sep.cuts(s[0]) {
        pieces(sep, s.skip(1))
    } else {
        proof {
            lemma_run_len_bounds(sep, s);
        }
        seq![s.take(run_len(sep, s) as int)] + pieces(sep, s.skip(run_len(sep, s) as int))
    }
}

/// The whitespace-separated tokens of `s`, in order.
pub open spec fn tokens(s: Seq<u8>) -> Seq<Seq<u8>> {
    pieces(Separator::Whitespace, s)
}

/// The slash-separated segments of `s`, in order.
pub open spec fn segments(s: Seq<u8>) -> Seq<Seq<u8>> {
    pieces(Separator::Slash, s)
}

/// `s` without its leading padding.
pub open spec fn trim_start(s: Seq<u8>) -> Seq<u8>
    decreases s.len(),
{
    if s.len() > 0 && is_padding(s[0]) {
        trim_start(s.skip(1))
    } else {
        s
    }
}

/// `s` without its trailing padding.
pub open spec fn trim_end(s: Seq<u8>) -> Seq<u8>
    decreases s.len(),
{
    if s.len() > 0 && is_padding(s.last()) {
        trim_end(s.drop_last())
    } else {
        s
    }
}

/// `s` without padding at either end.
pub open spec fn trim(s: Seq<u8>) -> Seq<u8> {
    trim_end(trim_start(s))
}

/// Number of bytes in front of the first line feed of `s`; all of `s` when it
/// holds none.
pub open spec fn line_len(s: Seq<u8>) -> nat
    decreases s.len(),
{
    if s.len() > 0 && s[0] != NEWLINE {
        1 + line_len(s.skip(1))
    } else {
        0
    }
}

/// The first line of `s`, without its line feed.
pub open spec fn first_line(s: Seq<u8>) -> Seq<u8> {
    s.take(line_len(s) as int)
}

/// What follows the first line of `s` and its line feed.
pub open spec fn after_first_line(s: Seq<u8>) -> Seq<u8> {
    if line_len(s) < s.len() {
        s.skip(line_len(s) as int + 1)
    } else {
        Seq::empty()
    }
}

/// `s` begins with `prefix`.
pub open spec fn has_prefix(s: Seq<u8>, prefix: Seq<u8>) -> bool {
    prefix.len() <= s.len() && s.take(prefix.len() as int) == prefix
}

/// The views of a vector of byte strings.
pub open spec fn views(v: Seq<Vec<u8>>) -> Seq<Seq<u8>> {
    Seq::new(v.len(), |i: int| v[i]@)
}

pub proof fn lemma_run_len_bounds(sep: Separator, s: Seq<u8>)
    ensures
        run_len(sep, s) <= s.len(),
        s.len() > 0 && !sep.cuts(s[0]) ==> run_len(sep, s) >= 1,
        uncut(sep, s.take(run_len(sep, s) as int)),
        run_len(sep, s) < s.len() ==> sep.cuts(s[run_len(sep, s) as int]),
    decreases s.len(),
{
    if s.len() > 0 && !sep.cuts(s[0]) {
        let t = s.skip(1);
        lemma_run_len_bounds(sep, t);
        let n = run_len(sep, s) as int;
        assert forall|i: int| 0 <= i < n implies !sep.cuts(#[trigger] s.take(n)[i]) by {
            if i > 0 {
                assert(s.take(n)[i] == t.take(n - 1)[i - 1]);
            }
        }
        if n < s.len() {
            assert(s[n] == t[n - 1]);
        }
    }
}

/// A run free of separators that ends at the end of `s` or at a separator is
/// the first run of `s`.
pub proof fn lemma_run_len_is(sep: Separator, s: Seq<u8>, n: int)
    requires
        0 <= n <= s.len(),
        uncut(sep, s.take(n)),
        n < s.len() ==> sep.cuts(s[n]),
    ensures
        run_len(sep, s) == n,
    decreases n,
{
    if n == 0 {
    } else {
        assert(s[0] == s.take(n)[0]);
        let t = s.skip(1);
        assert forall|i: int| 0 <= i < n - 1 implies !sep.cuts(#[trigger] t.take(n - 1)[i]) by {
            assert(t.take(n - 1)[i] == s.take(n)[i + 1]);
        }
        lemma_run_len_is(sep, t, n - 1);
    }
}

/// Leading separators add no piece.
pub proof fn lemma_pieces_skip_cuts(sep: Separator, s: Seq<u8>, n: int)
    requires
        0 <= n <= s.len(),
        forall|i: int| 0 <= i < n ==> sep.cuts(#[trigger] s[i]),
    ensures
        pieces(sep, s) == pieces(sep, s.skip(n)),
    decreases n,
{
    if n == 0 {
        assert(s.skip(0) =~= s);
    } else {
        let t = s.skip(1);
        assert forall|i: int| 0 <= i < n - 1 implies sep.cuts(#[trigger] t[i]) by {
            assert(t[i] == s[i + 1]);
        }
        lemma_pieces_skip_cuts(sep, t, n - 1);
        assert(t.skip(n - 1) =~= s.skip(n));
    }
}

/// A piece in front of a separator, or in front of nothing, is the first piece.
pub proof fn lemma_pieces_first(sep: Separator, w: Seq<u8>, rest: Seq<u8>)
    requires
        is_piece(sep, w),
        rest.len() > 0 ==> sep.cuts(rest[0]),
    ensures
        pieces(sep, w + rest) == seq![w] + pieces(sep, rest),
{
    let s = w + rest;
    let n = w.len() as int;
    assert(s.take(n) =~= w);
    assert(s.skip(n) =~= rest);
    assert(s[0] == w[0]);
    lemma_run_len_is(sep, s, n);
}

/// Cutting at a separator cuts the pieces: where `y` is empty or begins with
/// a separator, the pieces of `x + y` are those of `x` followed by those of `y`.
pub proof fn lemma_pieces_concat(sep: Separator, x: Seq<u8>, y: Seq<u8>)
    requires
        y.len() > 0 ==> sep.cuts(y[0]),
    ensures
        pieces(sep, x + y) == pieces(sep, x) + pieces(sep, y),
    decreases x.len(),
{
    let s = x + y;
    if x.len() == 0 {
        assert(s =~= y);
        assert(pieces(sep, x) + pieces(sep, y) =~= pieces(sep, y));
    } else if sep.cuts(x[0]) {
        assert(s[0] == x[0]);
        assert(s.skip(1) =~= x.skip(1) + y);
        lemma_pieces_concat(sep, x.skip(1), y);
    } else {
        lemma_run_len_bounds(sep, x);
        let n = run_len(sep, x) as int;
        assert(s[0] == x[0]);
        assert(s.take(n) =~= x.take(n));
        if n < x.len() {
            assert(s[n] == x[n]);
        } else if y.len() > 0 {
            assert(s[n] == y[0]);
        }
        lemma_run_len_is(sep, s, n);
        assert(s.skip(n) =~= x.skip(n) + y);
        lemma_pieces_concat(sep, x.skip(n), y);
        assert(pieces(sep, s) =~= pieces(sep, x) + pieces(sep, y));
    }
}

/// A sequence made of separators only has no piece.
pub proof fn lemma_pieces_all_cuts(sep: Separator, s: Seq<u8>)
    requires
        forall|i: int| 0 <= i < s.len() ==> sep.cuts(#[trigger] s[i]),
    ensures
        pieces(sep, s) == Seq::<Seq<u8>>::empty(),
{
    lemma_pieces_skip_cuts(sep, s, s.len() as int);
    assert(s.skip(s.len() as int) =~= Seq::<u8>::empty());
}

/// Every piece is not empty and free of separators.
pub proof fn lemma_pieces_are_pieces(sep: Separator, s: Seq<u8>)
    ensures
        forall|i: int| 0 <= i < pieces(sep, s).len() ==> is_piece(sep, #[trigger] pieces(sep, s)[i]),
    decreases s.len(),
{
    if s.len() == 0 {
        assert(pieces(sep, s).len() == 0);
    } else if sep.cuts(s[0]) {
        lemma_pieces_are_pieces(sep, s.skip(1));
        assert(pieces(sep, s) == pieces(sep, s.skip(1)));
    } else {
        lemma_run_len_bounds(sep, s);
        let n = run_len(sep, s) as int;
        lemma_pieces_are_pieces(sep, s.skip(n));
        let head = seq![s.take(n)];
        let tail = pieces(sep, s.skip(n));
        assert(pieces(sep, s) == head + tail);
        assert forall|i: int| 0 <= i < pieces(sep, s).len() implies is_piece(
            sep,
            #[trigger] pieces(sep, s)[i],
        ) by {
            if i > 0 {
                assert((head + tail)[i] == tail[i - 1]);
            } else {
                assert((head + tail)[0] == s.take(n));
                assert(s.take(n).len() == n);
            }
        }
    }
}

proof fn lemma_trim_start_skip(s: Seq<u8>, n: int)
    requires
        0 <= n <= s.len(),
        forall|i: int| 0 <= i < n ==> is_padding(#[trigger] s[i]),
    ensures
        trim_start(s) == trim_start(s.skip(n)),
    decreases n,
{
    if n == 0 {
        assert(s.skip(0) =~= s);
    } else {
        let t = s.skip(1);
        assert forall|i: int| 0 <= i < n - 1 implies is_padding(#[trigger] t[i]) by {
            assert(t[i] == s[i + 1]);
        }
        lemma_trim_start_skip(t, n - 1);
        assert(t.skip(n - 1) =~= s.skip(n));
    }
}

proof fn lemma_trim_end_take(s: Seq<u8>, n: int)
    requires
        0 <= n <= s.len(),
        forall|i: int| n <= i < s.len() ==> is_padding(#[trigger] s[i]),
    ensures
        trim_end(s) == trim_end(s.take(n)),
    decreases s.len() - n,
{
    if n == s.len() {
        assert(s.take(n) =~= s);
    } else {
        let t = s.drop_last();
        assert forall|i: int| n <= i < t.len() implies is_padding(#[trigger] t[i]) by {
            assert(t[i] == s[i]);
        }
        lemma_trim_end_take(t, n);
        assert(t.take(n) =~= s.take(n));
    }
}

/// Trimming leaves a sequence that neither starts nor ends with padding.
pub proof fn lemma_trim_is_tight(s: Seq<u8>)
    ensures
        trim(s).len() > 0 ==> !is_padding(trim(s)[0]) && !is_padding(trim(s).last()),
{
    lemma_trim_start_tight(s);
    lemma_trim_end_keeps_front(trim_start(s));
}

proof fn lemma_trim_start_tight(s: Seq<u8>)
    ensures
        trim_start(s).len() > 0 ==> !is_padding(trim_start(s)[0]),
    decreases s.len(),
{
    if s.len() > 0 && is_padding(s[0]) {
        lemma_trim_start_tight(s.skip(1));
    }
}

proof fn lemma_trim_end_keeps_front(s: Seq<u8>)
    ensures
        trim_end(s).len() <= s.len(),
        trim_end(s) == s.take(trim_end(s).len() as int),
        trim_end(s).len() > 0 ==> !is_padding(trim_end(s).last()),
    decreases s.len(),
{
    if s.len() > 0 && is_padding(s.last()) {
        let t = s.drop_last();
        lemma_trim_end_keeps_front(t);
        assert(t.take(trim_end(t).len() as int) =~= s.take(trim_end(t).len() as int));
    } else {
        assert(s.take(s.len() as int) =~= s);
    }
}

proof fn lemma_line_len_is(s: Seq<u8>, n: int)
    requires
        0 <= n <= s.len(),
        forall|i: int| 0 <= i < n ==> #[trigger] s[i] != NEWLINE,
        n < s.len() ==> s[n] == NEWLINE,
    ensures
        line_len(s) == n,
    decreases n,
{
    if n > 0 {
        let t = s.skip(1);
        assert forall|i: int| 0 <= i < n - 1 implies #[trigger] t[i] != NEWLINE by {
            assert(t[i] == s[i + 1]);
        }
        lemma_line_len_is(t, n - 1);
    }
}

/// The first line ends where the text ends or at a line feed, and holds none.
pub proof fn lemma_line_len_bounds(s: Seq<u8>)
    ensures
        line_len(s) <= s.len(),
        line_len(s) < s.len() ==> s[line_len(s) as int] == NEWLINE,
        forall|i: int| 0 <= i < line_len(s) ==> #[trigger] s[i] != NEWLINE,
    decreases s.len(),
{
    if s.len() > 0 && s[0] != NEWLINE {
        let t = s.skip(1);
        lemma_line_len_bounds(t);
        assert forall|i: int| 0 <= i < line_len(s) implies #[trigger] s[i] != NEWLINE by {
            if i > 0 {
                assert(s[i] == t[i - 1]);
            }
        }
    }
}

/// A line without a line feed, followed by a line feed and `rest`, is read
/// back as that line and that rest.
pub proof fn lemma_first_line_of_joined(line: Seq<u8>, rest: Seq<u8>)
    requires
        forall|i: int| 0 <= i < line.len() ==> #[trigger] line[i] != NEWLINE,
    ensures
        first_line(line + seq![NEWLINE] + rest) == line,
        after_first_line(line + seq![NEWLINE] + rest) == rest,
{
    let s = line + seq![NEWLINE] + rest;
    let n = line.len() as int;
    assert forall|i: int| 0 <= i < n implies #[trigger] s[i] != NEWLINE by {
        assert(s[i] == line[i]);
    }
    assert(s[n] == NEWLINE);
    lemma_line_len_is(s, n);
    assert(s.take(n) =~= line);
    assert(s.skip(n + 1) =~= rest);
}

pub fn is_space_byte(b: u8) -> (r: bool)
    ensures
        r == is_space(b),
{
    b == 32 || (9 <= b && b <= 13)
}

pub fn is_padding_byte(b: u8) -> (r: bool)
    ensures
        r == is_padding(b),
{
    b == 0 || is_space_byte(b)
}

/// Whether two byte strings hold the same bytes.
pub fn bytes_eq(a: &[u8], b: &[u8]) -> (r: bool)
    ensures
        r == (a@ == b@),
{
    if a.len() != b.len() {
        return false;
    }
    let mut i: usize = 0;
    while i < a.len()
        invariant
            i <= a.len(),
            a.len() == b.len(),
            forall|j: int| 0 <= j < i ==> a@[j] == b@[j],
        decreases a.len() - i,
    {
        if a[i] != b[i] {
            return false;
        }
        i += 1;
    }
    assert(a@ =~= b@);
    true
}

/// Whether `s` begins with `prefix`.
pub fn starts_with(s: &[u8], prefix: &[u8]) -> (r: bool)
    ensures
        r == has_prefix(s@, prefix@),
{
    if prefix.len() > s.len() {
        return false;
    }
    let mut i: usize = 0;
    while i < prefix.len()
        invariant
            i <= prefix.len() <= s.len(),
            forall|j: int| 0 <= j < i ==> s@[j] == prefix@[j],
        decreases prefix.len() - i,
    {
        if s[i] != prefix[i] {
            assert(s@.take(prefix@.len() as int)[i as int] == s@[i as int]);
            return false;
        }
        i += 1;
    }
    assert(s@.take(prefix@.len() as int) =~= prefix@);
    true
}

/// A copy of the bytes of `s` from `from` up to `to`.
pub fn copy_range(s: &[u8], from: usize, to: usize) -> (r: Vec<u8>)
    requires
        from <= to <= s@.len(),
    ensures
        r@ == s@.subrange(from as int, to as int),
{
    let mut out: Vec<u8> = Vec::new();
    let mut i: usize = from;
    while i < to
        invariant
            from <= i <= to <= s@.len(),
            out@ == s@.subrange(from as int, i as int),
        decreases to - i,
    {
        out.push(s[i]);
        assert(out@ =~= s@.subrange(from as int, i as int + 1));
        i += 1;
    }
    out
}

/// Strips NUL padding and whitespace from both ends of `s`.
pub fn trim_bytes(s: &[u8]) -> (r: Vec<u8>)
    ensures
        r@ == trim(s@),
{
    let mut start: usize = 0;
    while start < s.len() && is_padding_byte(s[start])
        invariant
            start <= s.len(),
            forall|i: int| 0 <= i < start ==> is_padding(#[trigger] s@[i]),
        decreases s.len() - start,
    {
        start += 1;
    }
    let mut end: usize = s.len();
    while end > start && is_padding_byte(s[end - 1])
        invariant
            start <= end <= s.len(),
            forall|i: int| end <= i < s.len() ==> is_padding(#[trigger] s@[i]),
        decreases end,
    {
        end -= 1;
    }
    proof {
        let t = s@.skip(start as int);
        lemma_trim_start_skip(s@, start as int);
        if start < s.len() {
            assert(t[0] == s@[start as int]);
        }
        assert(trim_start(s@) == t);
        let n = end - start;
        assert forall|i: int| n <= i < t.len() implies is_padding(#[trigger] t[i]) by {
            assert(t[i] == s@[i + start]);
        }
        lemma_trim_end_take(t, n as int);
        let u = t.take(n as int);
        if n > 0 {
            assert(u.last() == s@[end - 1]);
        }
        assert(trim_end(u) == u);
        assert(u =~= s@.subrange(start as int, end as int));
    }
    copy_range(s, start, end)
}

/// Cuts `s` at its first line feed: the length of the first line, and the
/// index at which the rest begins.
pub fn split_line(s: &[u8]) -> (r: (usize, usize))
    ensures
        r.0 == line_len(s@),
        r.0 <= r.1 <= s@.len(),
        s@.take(r.0 as int) == first_line(s@),
        s@.skip(r.1 as int) == after_first_line(s@),
{
    let mut i: usize = 0;
    while i < s.len() && s[i] != NEWLINE
        invariant
            i <= s.len(),
            forall|j: int| 0 <= j < i ==> #[trigger] s@[j] != NEWLINE,
        decreases s.len() - i,
    {
        i += 1;
    }
    proof {
        lemma_line_len_is(s@, i as int);
    }
    if i < s.len() {
        (i, i + 1)
    } else {
        assert(s@.skip(i as int) =~= Seq::<u8>::empty());
        (i, i)
    }
}

/// Splits `s` into its pieces between separators.
pub fn split_pieces(sep: Separator, s: &[u8]) -> (r: Vec<Vec<u8>>)
    ensures
        views(r@) == pieces(sep, s@),
{
    let mut out: Vec<Vec<u8>> = Vec::new();
    let mut i: usize = 0;
    assert(views(out@) =~= Seq::<Seq<u8>>::empty());
    assert(s@.skip(0) =~= s@);
    while i < s.len()
        invariant
            i <= s.len(),
            pieces(sep, s@) == views(out@) + pieces(sep, s@.skip(i as int)),
        decreases s.len() - i,
    {
        let ghost rest = s@.skip(i as int);
        if sep.cuts_byte(s[i]) {
            assert(rest[0] == s@[i as int]);
            assert(rest.skip(1) =~= s@.skip(i as int + 1));
            i += 1;
        } else {
            let start = i;
            while i < s.len() && !sep.cuts_byte(s[i])
                invariant
                    start <= i <= s.len(),
                    forall|j: int| start <= j < i ==> !sep.cuts(#[trigger] s@[j]),
                decreases s.len() - i,
            {
                i += 1;
            }
            let word = copy_range(s, start, i);
            proof {
                let n = i - start;
                assert(rest[0] == s@[start as int]);
                assert forall|j: int| 0 <= j < n implies !sep.cuts(
                    #[trigger] rest.take(n as int)[j],
                ) by {
                    assert(rest.take(n as int)[j] == s@[start + j]);
                }
                if n < rest.len() {
                    assert(rest[n as int] == s@[i as int]);
                }
                lemma_run_len_is(sep, rest, n as int);
                assert(rest.take(n as int) =~= word@);
                assert(rest.skip(n as int) =~= s@.skip(i as int));
                assert(views(out@.push(word)) =~= views(out@) + seq![word@]);
            }
            out.push(word);
        }
    }
    assert(s@.skip(i as int) =~= Seq::<u8>::empty());
    out
}

/// Splits `s` into its whitespace-separated tokens.
pub fn split_tokens(s: &[u8]) -> (r: Vec<Vec<u8>>)
    ensures
        views(r@) == tokens(s@),
{
    split_pieces(Separator::Whitespace, s)
}

} // verus!
