//! Text as sequences of characters: trimming, splitting, joining and writing numbers.

use vstd::prelude::*;
use vstd::slice::slice_subrange;

verus! {

/// The characters with Unicode's `White_Space` property.
pub open spec fn is_white(c: char) -> bool {
    ||| '\u{9}' <= c <= '\u{d}'
    ||| c == ' '
    ||| c == '\u{85}'
    ||| c == '\u{a0}'
    ||| c == '\u{1680}'
    ||| '\u{2000}' <= c <= '\u{200a}'
    ||| c == '\u{2028}'
    ||| c == '\u{2029}'
    ||| c == '\u{202f}'
    ||| c == '\u{205f}'
    ||| c == '\u{3000}'
}

/// `char::is_whitespace`: whether a character has Unicode's `White_Space` property, which is
/// claimed to be exactly the set listed by [`is_white`].
pub assume_specification[ char::is_whitespace ](c: char) -> (r: bool)
    ensures
        r == is_white(c),
;

/// `String::push`: appends one character.
pub assume_specification[ String::push ](s: &mut String, c: char)
    ensures
        final(s)@ == old(s)@.push(c),
;

/// A set of characters that trimming removes.
#[derive(Clone, Copy)]
pub enum CharClass {
    /// White space.
    White,
    /// One character.
    Only(char),
}

impl CharClass {
    /// Membership in the class.
    pub open spec fn has(self, c: char) -> bool {
        match self {
            CharClass::White => is_white(c),
            CharClass::Only(d) => c == d,
        }
    }

    /// Tests membership in the class.
    pub fn contains(self, c: char) -> (r: bool)
        ensures
            r == self.has(c),
    {
        match self {
            CharClass::White => c.is_whitespace(),
            CharClass::Only(d) => c == d,
        }
    }
}

/// `s` without its longest prefix in `class`.
pub open spec fn trim_start(s: Seq<char>, class: CharClass) -> Seq<char>
    decreases s.len(),
{
    if s.len() > 0 && class.has(s[0]) {
        trim_start(s.skip(1), class)
    } else {
        s
    }
}

/// `s` without its longest suffix in `class`.
pub open spec fn trim_end(s: Seq<char>, class: CharClass) -> Seq<char>
    decreases s.len(),
{
    if s.len() > 0 && class.has(s.last()) {
        trim_end(s.drop_last(), class)
    } else {
        s
    }
}

/// `s` without its longest prefix and suffix in `class`.
pub open spec fn trim(s: Seq<char>, class: CharClass) -> Seq<char> {
    trim_end(trim_start(s, class), class)
}

/// The index of the first `c` in `s`, or the length of `s` where there is none.
pub open spec fn find(s: Seq<char>, c: char) -> int
    decreases s.len(),
{
    if s.len() == 0 || s[0] == c {
        0
    } else {
        1 + find(s.skip(1), c)
    }
}

/// The index of the first white-space character of `s`, or its length where there is none.
pub open spec fn find_white(s: Seq<char>) -> int
    decreases s.len(),
{
    if s.len() == 0 || is_white(s[0]) {
        0
    } else {
        1 + find_white(s.skip(1))
    }
}

/// The pieces of `s` between occurrences of `c`: one more than there are occurrences.
pub open spec fn split(s: Seq<char>, c: char) -> Seq<Seq<char>>
    decreases s.len(),
    via split_decreases
{
    let i = find(s, c);
    if i == s.len() {
        seq![s]
    } else {
        seq![s.take(i)] + split(s.skip(i + 1), c)
    }
}

#[via_fn]
proof fn split_decreases(s: Seq<char>, c: char) {
    lemma_find(s, c);
}

/// A line without the carriage return that may stand before its line feed.
pub open spec fn without_return(s: Seq<char>) -> Seq<char> {
    if s.len() > 0 && s.last() == '\r' {
        s.drop_last()
    } else {
        s
    }
}

/// The lines of `s`: each ends with a line feed, with or without a carriage return before it,
/// except that the last one may end with the text.
pub open spec fn lines(s: Seq<char>) -> Seq<Seq<char>>
    decreases s.len(),
    via lines_decreases
{
    let i = find(s, '\n');
    if s.len() == 0 {
        Seq::empty()
    } else if i == s.len() {
        seq![s]
    } else {
        seq![without_return(s.take(i))] + lines(s.skip(i + 1))
    }
}

#[via_fn]
proof fn lines_decreases(s: Seq<char>) {
    lemma_find(s, '\n');
}

/// The maximal runs of `s` without white space.
pub open spec fn words(s: Seq<char>) -> Seq<Seq<char>>
    decreases s.len(),
    via words_decreases
{
    let t = trim_start(s, CharClass::White);
    if t.len() == 0 {
        Seq::empty()
    } else {
        seq![t.take(find_white(t))] + words(t.skip(find_white(t)))
    }
}

#[via_fn]
proof fn words_decreases(s: Seq<char>) {
    lemma_trim_start(s, CharClass::White);
    lemma_find_white(trim_start(s, CharClass::White));
}

/// Every line followed by a line feed.
pub open spec fn unlines(ls: Seq<Seq<char>>) -> Seq<char>
    decreases ls.len(),
{
    if ls.len() == 0 {
        Seq::empty()
    } else {
        unlines(ls.drop_last()) + ls.last() + seq!['\n']
    }
}

/// The lines with a line feed between neighbours.
pub open spec fn join(ls: Seq<Seq<char>>) -> Seq<char>
    decreases ls.len(),
{
    if ls.len() == 0 {
        Seq::empty()
    } else if ls.len() == 1 {
        ls[0]
    } else {
        join(ls.drop_last()) + seq!['\n'] + ls.last()
    }
}

/// Whether `t` stands somewhere in `s`.
pub open spec fn has_part(s: Seq<char>, t: Seq<char>) -> bool {
    exists|i: int| has_part_at(s, t, i)
}

/// Whether `t` stands in `s` at `i`.
pub open spec fn has_part_at(s: Seq<char>, t: Seq<char>, i: int) -> bool {
    &&& 0 <= i
    &&& i + t.len() <= s.len()
    &&& s.subrange(i, i + t.len()) == t
}

/// The decimal digit with value `d`.
pub open spec fn digit(d: int) -> char {
    ('0' as int + d) as char
}

/// The decimal notation of a natural number.
pub open spec fn decimal_nat(n: nat) -> Seq<char>
    decreases n,
{
    if n < 10 {
        seq![digit(n as int)]
    } else {
        decimal_nat(n / 10).push(digit((n % 10) as int))
    }
}

/// The decimal notation of an integer.
pub open spec fn decimal(n: int) -> Seq<char> {
    if n < 0 {
        seq!['-'] + decimal_nat((-n) as nat)
    } else {
        decimal_nat(n as nat)
    }
}

/// The contents of a sequence of strings.
pub open spec fn texts(s: Seq<String>) -> Seq<Seq<char>> {
    Seq::new(s.len(), |i: int| s[i]@)
}

/// The contents of a sequence of slices.
pub open spec fn slices(s: Seq<&[char]>) -> Seq<Seq<char>> {
    Seq::new(s.len(), |i: int| s[i]@)
}

/// The characters of a string.
pub fn chars_of(s: &str) -> (r: Vec<char>)
    ensures
        r@ == s@,
{
    let mut r: Vec<char> = Vec::new();
    for c in it: s.chars()
        invariant
            it.seq() == s@,
            r@ == s@.take(it.index() as int),
    {
        r.push(c);
    }
    r
}

/// The string with the given characters.
pub fn string_of(s: &[char]) -> (r: String)
    ensures
        r@ == s@,
{
    let mut r = String::new();
    let mut i: usize = 0;
    while i < s.len()
        invariant
            i <= s.len(),
            r@ == s@.take(i as int),
        decreases s.len() - i,
    {
        r.push(s[i]);
        i += 1;
    }
    assert(s@.take(i as int) =~= s@);
    r
}

/// Removes the longest prefix and suffix in `class`.
pub fn trim_chars<'a>(s: &'a [char], class: CharClass) -> (r: &'a [char])
    ensures
        r@ == trim(s@, class),
{
    let mut lo: usize = 0;
    assert(s@.skip(0) =~= s@);
    while lo < s.len() && class.contains(s[lo])
        invariant
            lo <= s.len(),
            trim_start(s@, class) == trim_start(s@.skip(lo as int), class),
        decreases s.len() - lo,
    {
        assert(s@.skip(lo as int).skip(1) =~= s@.skip(lo + 1));
        lo += 1;
    }
    let mut hi: usize = s.len();
    assert(s@.skip(lo as int) =~= s@.subrange(lo as int, hi as int));
    while hi > lo && class.contains(s[hi - 1])
        invariant
            lo <= hi <= s.len(),
            trim(s@, class) == trim_end(s@.subrange(lo as int, hi as int), class),
        decreases hi,
    {
        assert(s@.subrange(lo as int, hi as int).drop_last() =~= s@.subrange(lo as int, hi - 1));
        hi -= 1;
    }
    slice_subrange(s, lo, hi)
}

/// Finds the first `c`, or the length where there is none.
pub fn find_char(s: &[char], c: char) -> (r: usize)
    ensures
        r == find(s@, c),
        r <= s@.len(),
{
    let mut i: usize = 0;
    assert(s@.skip(0) =~= s@);
    while i < s.len() && s[i] != c
        invariant
            i <= s.len(),
            find(s@, c) == i + find(s@.skip(i as int), c),
        decreases s.len() - i,
    {
        assert(s@.skip(i as int).skip(1) =~= s@.skip(i + 1));
        i += 1;
    }
    i
}

/// The pieces between occurrences of `c`.
pub fn split_chars<'a>(s: &'a [char], c: char) -> (r: Vec<&'a [char]>)
    ensures
        slices(r@) == split(s@, c),
        r@.len() >= 1,
{
    let mut r: Vec<&'a [char]> = Vec::new();
    let mut rest: &'a [char] = s;
    let mut at = find_char(rest, c);
    while at < rest.len()
        invariant
            at == find(rest@, c),
            at <= rest@.len(),
            split(s@, c) == slices(r@) + split(rest@, c),
        decreases rest@.len(),
    {
        let ghost before = slices(r@);
        let piece = slice_subrange(rest, 0, at);
        let tail = slice_subrange(rest, at + 1, rest.len());
        r.push(piece);
        proof {
            assert(piece@ =~= rest@.take(at as int));
            assert(tail@ =~= rest@.skip(at + 1));
            assert(slices(r@) =~= before + seq![piece@]);
            assert(before + (seq![piece@] + split(tail@, c)) =~= slices(r@) + split(tail@, c));
        }
        rest = tail;
        at = find_char(rest, c);
    }
    let ghost before = slices(r@);
    r.push(rest);
    assert(slices(r@) =~= before + seq![rest@]);
    r
}

/// The lines of a text.
pub fn split_lines<'a>(s: &'a [char]) -> (r: Vec<&'a [char]>)
    ensures
        slices(r@) == lines(s@),
{
    let mut r: Vec<&'a [char]> = Vec::new();
    let mut rest: &'a [char] = s;
    assert(slices(r@) + lines(s@) =~= lines(s@));
    while rest.len() > 0
        invariant
            lines(s@) == slices(r@) + lines(rest@),
        decreases rest@.len(),
    {
        let ghost before = slices(r@);
        let at = find_char(rest, '\n');
        if at == rest.len() {
            r.push(rest);
            let tail = slice_subrange(rest, at, at);
            assert(lines(tail@) =~= Seq::empty());
            assert(slices(r@) =~= before + seq![rest@]);
            assert(lines(s@) =~= slices(r@) + lines(tail@));
            rest = tail;
        } else {
            let end = if at > 0 && rest[at - 1] == '\r' {
                at - 1
            } else {
                at
            };
            let line = slice_subrange(rest, 0, end);
            let tail = slice_subrange(rest, at + 1, rest.len());
            r.push(line);
            proof {
                assert(line@ =~= without_return(rest@.take(at as int)));
                assert(tail@ =~= rest@.skip(at + 1));
                assert(slices(r@) =~= before + seq![line@]);
                assert(before + (seq![line@] + lines(tail@)) =~= slices(r@) + lines(tail@));
            }
            rest = tail;
        }
    }
    assert(lines(s@) =~= slices(r@));
    r
}

/// The maximal runs without white space.
pub fn split_words<'a>(s: &'a [char]) -> (r: Vec<&'a [char]>)
    ensures
        slices(r@) == words(s@),
{
    let mut r: Vec<&'a [char]> = Vec::new();
    let mut i: usize = 0;
    assert(s@.skip(0) =~= s@);
    assert(slices(r@) + words(s@) =~= words(s@));
    while i < s.len()
        invariant
            i <= s.len(),
            words(s@) == slices(r@) + words(s@.skip(i as int)),
        decreases s.len() - i,
    {
        let ghost rest = s@.skip(i as int);
        if s[i].is_whitespace() {
            proof {
                assert(rest.skip(1) =~= s@.skip(i + 1));
                lemma_words_skip_white(rest);
            }
            i += 1;
        } else {
            let ghost before = slices(r@);
            let mut j: usize = i;
            while j < s.len() && !s[j].is_whitespace()
                invariant
                    i <= j <= s.len(),
                    rest == s@.skip(i as int),
                    find_white(rest) == (j - i) + find_white(s@.skip(j as int)),
                decreases s.len() - j,
            {
                assert(s@.skip(j as int).skip(1) =~= s@.skip(j + 1));
                j += 1;
            }
            let word = slice_subrange(s, i, j);
            r.push(word);
            proof {
                lemma_find_white(rest);
                assert(word@ =~= rest.take(j - i));
                assert(rest.skip(j - i) =~= s@.skip(j as int));
                assert(slices(r@) =~= before + seq![word@]);
                assert(before + (seq![word@] + words(s@.skip(j as int))) =~= slices(r@) + words(
                    s@.skip(j as int),
                ));
            }
            i = j;
        }
    }
    assert(words(s@.skip(i as int)) =~= Seq::empty());
    assert(words(s@) =~= slices(r@));
    r
}

/// Whether `t` stands somewhere in `s`.
pub fn contains_part(s: &[char], t: &[char]) -> (r: bool)
    ensures
        r == has_part(s@, t@),
{
    if t.len() > s.len() {
        return false;
    }
    let mut i: usize = 0;
    while i <= s.len() - t.len()
        invariant
            t.len() <= s.len(),
            i <= s.len() - t.len() + 1,
            forall|k: int| 0 <= k < i ==> !has_part_at(s@, t@, k),
        decreases s.len() - t.len() + 1 - i,
    {
        let mut j: usize = 0;
        while j < t.len() && s[i + j] == t[j]
            invariant
                i + t.len() <= s.len(),
                j <= t.len(),
                forall|k: int| 0 <= k < j ==> s@[i + k] == t@[k],
            decreases t.len() - j,
        {
            j += 1;
        }
        if j == t.len() {
            assert(s@.subrange(i as int, i + t.len()) =~= t@);
            assert(has_part_at(s@, t@, i as int));
            return true;
        }
        assert(!has_part_at(s@, t@, i as int)) by {
            if has_part_at(s@, t@, i as int) {
                assert(s@.subrange(i as int, i + t.len())[j as int] == s@[i + j]);
            }
        }
        i += 1;
    }
    false
}

/// Appends every line and a line feed after it.
pub fn append_lines(out: &mut String, ls: &Vec<String>)
    ensures
        final(out)@ == old(out)@ + unlines(texts(ls@)),
{
    let ghost start = out@;
    let mut i: usize = 0;
    assert(texts(ls@).take(0) =~= Seq::empty());
    assert(start + unlines(texts(ls@).take(0)) =~= start);
    while i < ls.len()
        invariant
            i <= ls.len(),
            out@ == start + unlines(texts(ls@).take(i as int)),
        decreases ls.len() - i,
    {
        out.append(ls[i].as_str());
        out.push('\n');
        proof {
            let done = texts(ls@).take(i + 1);
            assert(done.drop_last() =~= texts(ls@).take(i as int));
            assert(done.last() == ls@[i as int]@);
            assert(out@ =~= start + unlines(done));
        }
        i += 1;
    }
    assert(texts(ls@).take(i as int) =~= texts(ls@));
}

/// The lines `from..to` with a line feed between neighbours.
pub fn join_lines(ls: &Vec<String>, from: usize, to: usize) -> (r: String)
    requires
        from <= to <= ls@.len(),
    ensures
        r@ == join(texts(ls@).subrange(from as int, to as int)),
{
    let mut r = String::new();
    let mut i: usize = from;
    assert(texts(ls@).subrange(from as int, from as int) =~= Seq::empty());
    while i < to
        invariant
            from <= i <= to <= ls@.len(),
            r@ == join(texts(ls@).subrange(from as int, i as int)),
        decreases to - i,
    {
        let ghost before = r@;
        if i > from {
            r.push('\n');
        }
        r.append(ls[i].as_str());
        proof {
            let done = texts(ls@).subrange(from as int, i + 1);
            assert(done.drop_last() =~= texts(ls@).subrange(from as int, i as int));
            assert(done.last() == ls@[i as int]@);
            assert(r@ =~= join(done));
        }
        i += 1;
    }
    r
}

/// Appends the decimal notation of a natural number.
pub fn append_u64(out: &mut String, n: u64)
    ensures
        final(out)@ == old(out)@ + decimal(n as int),
    decreases n,
{
    if n >= 10 {
        append_u64(out, n / 10);
    }
    let d = (n % 10) as u8;
    let c = (48u8 + d) as char;
    out.push(c);
    assert(out@ =~= old(out)@ + decimal(n as int));
}

/// Appends the decimal notation of an integer.
pub fn append_i64(out: &mut String, n: i64)
    ensures
        final(out)@ == old(out)@ + decimal(n as int),
{
    if n < 0 {
        out.push('-');
        if n == i64::MIN {
            append_u64(out, 9_223_372_036_854_775_808);
        } else {
            append_u64(out, (-n) as u64);
        }
        assert(out@ =~= old(out)@ + decimal(n as int));
    } else {
        append_u64(out, n as u64);
    }
}

/// Trimming at the start removes a run of characters of the class and stops before any other.
pub proof fn lemma_trim_start(s: Seq<char>, class: CharClass)
    ensures
        trim_start(s, class).len() <= s.len(),
        trim_start(s, class) == s.skip(s.len() - trim_start(s, class).len()),
        trim_start(s, class).len() > 0 ==> !class.has(trim_start(s, class)[0]),
        forall|i: int| 0 <= i < s.len() - trim_start(s, class).len() ==> class.has(#[trigger] s[i]),
    decreases s.len(),
{
    if s.len() > 0 && class.has(s[0]) {
        lemma_trim_start(s.skip(1), class);
        let t = trim_start(s.skip(1), class);
        assert(s.skip(1).skip(s.len() - 1 - t.len()) =~= s.skip(s.len() - t.len()));
        assert forall|i: int| 0 <= i < s.len() - t.len() implies class.has(#[trigger] s[i]) by {
            if i > 0 {
                assert(s.skip(1)[i - 1] == s[i]);
            }
        }
    } else {
        assert(s.skip(0) =~= s);
    }
}

/// Nothing before the first `c` is a `c`.
pub proof fn lemma_find(s: Seq<char>, c: char)
    ensures
        0 <= find(s, c) <= s.len(),
        find(s, c) < s.len() ==> s[find(s, c)] == c,
        forall|i: int| 0 <= i < find(s, c) ==> #[trigger] s[i] != c,
    decreases s.len(),
{
    if s.len() > 0 && s[0] != c {
        lemma_find(s.skip(1), c);
        assert forall|i: int| 0 <= i < find(s, c) implies #[trigger] s[i] != c by {
            if i > 0 {
                assert(s.skip(1)[i - 1] == s[i]);
            }
        }
    }
}

proof fn lemma_find_white(s: Seq<char>)
    ensures
        0 <= find_white(s) <= s.len(),
        s.len() > 0 && !is_white(s[0]) ==> find_white(s) > 0,
        find_white(s) < s.len() ==> is_white(s[find_white(s)]),
        forall|i: int| 0 <= i < find_white(s) ==> !is_white(#[trigger] s[i]),
    decreases s.len(),
{
    if s.len() > 0 && !is_white(s[0]) {
        lemma_find_white(s.skip(1));
        assert forall|i: int| 0 <= i < find_white(s) implies !is_white(#[trigger] s[i]) by {
            if i > 0 {
                assert(s.skip(1)[i - 1] == s[i]);
            }
        }
    }
}

/// Trimming leaves alone exactly the texts that neither start nor end with a character of the
/// class.
pub proof fn lemma_trim_fixed(s: Seq<char>, class: CharClass)
    ensures
        trim(s, class) == s <==> (s.len() > 0 ==> !class.has(s[0]) && !class.has(s.last())),
{
    lemma_trim_start(s, class);
    lemma_trim_end(trim_start(s, class), class);
    if s.len() > 0 && trim(s, class) == s {
        assert(trim_start(s, class) =~= s);
    }
}

/// What trimming leaves is a part of the text that neither starts nor ends with a character of
/// the class, so trimming again changes nothing.
pub proof fn lemma_trim(s: Seq<char>, class: CharClass)
    ensures
        trim(trim(s, class), class) == trim(s, class),
        exists|i: int, j: int|
            0 <= i <= j <= s.len() && trim(s, class) == #[trigger] s.subrange(i, j),
        trim(s, class).len() > 0 ==> !class.has(trim(s, class)[0]) && !class.has(
            trim(s, class).last(),
        ),
{
    lemma_trim_start(s, class);
    let t = trim_start(s, class);
    lemma_trim_end(t, class);
    let u = trim_end(t, class);
    let i = s.len() - t.len();
    assert(u =~= s.subrange(i, i + u.len()));
    if u.len() > 0 {
        assert(u[0] == t[0]);
    }
    lemma_trim_fixed(u, class);
}

proof fn lemma_trim_end(s: Seq<char>, class: CharClass)
    ensures
        trim_end(s, class).len() <= s.len(),
        trim_end(s, class) == s.take(trim_end(s, class).len() as int),
        trim_end(s, class).len() > 0 ==> !class.has(trim_end(s, class).last()),
        s.len() > 0 && class.has(s.last()) ==> trim_end(s, class).len() < s.len(),
    decreases s.len(),
{
    if s.len() > 0 && class.has(s.last()) {
        lemma_trim_end(s.drop_last(), class);
        let t = trim_end(s.drop_last(), class);
        assert(s.drop_last().take(t.len() as int) =~= s.take(t.len() as int));
    } else {
        assert(s.take(s.len() as int) =~= s);
    }
}

/// Trimming makes no text longer.
pub proof fn lemma_trim_is_no_longer(s: Seq<char>, class: CharClass)
    ensures
        trim(s, class).len() <= s.len(),
{
    lemma_trim_start(s, class);
    lemma_trim_end(trim_start(s, class), class);
}

/// Trimming at the start keeps a last character where it keeps one before it.
proof fn lemma_trim_start_push(s: Seq<char>, c: char, class: CharClass)
    requires
        class.has(c),
    ensures
        trim_start(s.push(c), class) == if trim_start(s, class).len() == 0 {
            Seq::empty()
        } else {
            trim_start(s, class).push(c)
        },
    decreases s.len(),
{
    if s.len() == 0 {
        let none = Seq::<char>::empty();
        assert(s.push(c).skip(1) =~= none);
        assert(trim_start(none, class) == none);
    } else if class.has(s[0]) {
        lemma_trim_start_push(s.skip(1), c, class);
        assert(s.push(c).skip(1) =~= s.skip(1).push(c));
    }
}

/// A character of the class at the end makes no difference to what trimming leaves.
pub proof fn lemma_trim_push(s: Seq<char>, c: char, class: CharClass)
    requires
        class.has(c),
    ensures
        trim(s.push(c), class) == trim(s, class),
{
    lemma_trim_start_push(s, c, class);
    let t = trim_start(s, class);
    assert(t.push(c).drop_last() =~= t);
    if t.len() == 0 {
        assert(t =~= Seq::empty());
    }
}

/// Trimming adds no character.
pub proof fn lemma_trim_adds_nothing(s: Seq<char>, class: CharClass)
    ensures
        forall|c: char| #[trigger] trim(s, class).contains(c) ==> s.contains(c),
{
    lemma_trim(s, class);
    let (i, j) = choose|i: int, j: int|
        0 <= i <= j <= s.len() && trim(s, class) == #[trigger] s.subrange(i, j);
    assert forall|c: char| #[trigger] trim(s, class).contains(c) implies s.contains(c) by {
        let k = choose|k: int| 0 <= k < j - i && s.subrange(i, j)[k] == c;
        assert(s[i + k] == c);
    }
}

/// Trimming keeps a first character outside the class.
pub proof fn lemma_trim_keeps_first(s: Seq<char>, class: CharClass)
    requires
        s.len() > 0,
        !class.has(s[0]),
    ensures
        trim(s, class).len() > 0,
        trim(s, class)[0] == s[0],
    decreases s.len(),
{
    if class.has(s.last()) {
        assert(s.drop_last()[0] == s[0]);
        lemma_trim_keeps_first(s.drop_last(), class);
    }
}

/// Trimming removes the quotes around a text that has none of its own at its ends.
pub proof fn lemma_trim_quoted(q: char, s: Seq<char>)
    requires
        s.len() > 0 ==> s[0] != q && s.last() != q,
    ensures
        trim(seq![q] + s + seq![q], CharClass::Only(q)) == s,
{
    let class = CharClass::Only(q);
    let whole = seq![q] + s + seq![q];
    let t = s + seq![q];
    assert(whole.skip(1) =~= t);
    assert(trim_start(whole, class) == trim_start(t, class));
    if s.len() == 0 {
        assert(t.skip(1) =~= s);
        assert(trim_start(s, class) == s);
    } else {
        assert(t[0] == s[0]);
        assert(trim_start(t, class) == t);
        assert(t.drop_last() =~= s);
    }
    assert(trim_end(s, class) == s);
}

/// The first `c` stands right after a text without one.
pub proof fn lemma_find_after(a: Seq<char>, c: char, b: Seq<char>)
    requires
        !a.contains(c),
    ensures
        find(a + seq![c] + b, c) == a.len(),
        find(a, c) == a.len(),
{
    let s = a + seq![c] + b;
    lemma_find(s, c);
    lemma_find(a, c);
    assert(s[a.len() as int] == c);
    if find(s, c) < a.len() {
        assert(s[find(s, c)] == a[find(s, c)]);
        assert(a.contains(c));
    }
}

/// A text without the separator is one piece, and the piece before the first separator is the
/// first piece.
pub proof fn lemma_split_after(a: Seq<char>, c: char, b: Seq<char>)
    requires
        !a.contains(c),
    ensures
        split(a, c) == seq![a],
        split(a + seq![c] + b, c) == seq![a] + split(b, c),
{
    let s = a + seq![c] + b;
    lemma_find_after(a, c, b);
    assert(s.take(a.len() as int) =~= a);
    assert(s.skip(a.len() + 1int) =~= b);
}

/// No piece holds the separator, and every piece is part of the text.
pub proof fn lemma_split_pieces(s: Seq<char>, c: char)
    ensures
        split(s, c).len() >= 1,
        forall|k: int|
            #![trigger split(s, c)[k]]
            0 <= k < split(s, c).len() ==> !split(s, c)[k].contains(c) && forall|d: char|
                split(s, c)[k].contains(d) ==> s.contains(d),
    decreases s.len(),
{
    lemma_find(s, c);
    let i = find(s, c);
    if i < s.len() {
        let tail = s.skip(i + 1);
        lemma_split_pieces(tail, c);
        assert forall|k: int| #![trigger split(s, c)[k]] 0 <= k < split(s, c).len() implies !split(
            s,
            c,
        )[k].contains(c) && forall|d: char| split(s, c)[k].contains(d) ==> s.contains(d) by {
            if k > 0 {
                assert(split(s, c)[k] == split(tail, c)[k - 1]);
                assert forall|d: char| tail.contains(d) implies s.contains(d) by {
                    let j = choose|j: int| 0 <= j < tail.len() && tail[j] == d;
                    assert(s[j + i + 1] == d);
                }
            } else {
                assert forall|d: char| s.take(i).contains(d) implies s.contains(d) by {
                    let j = choose|j: int| 0 <= j < s.take(i).len() && s.take(i)[j] == d;
                    assert(s[j] == d);
                }
            }
        }
    }
}

/// A text that a line feed can follow: it has none itself, and does not end with a carriage
/// return.
pub open spec fn is_line(s: Seq<char>) -> bool {
    &&& !s.contains('\n')
    &&& s.len() > 0 ==> s.last() != '\r'
}

proof fn lemma_unlines_first(ls: Seq<Seq<char>>)
    requires
        ls.len() > 0,
    ensures
        unlines(ls) == ls[0] + seq!['\n'] + unlines(ls.skip(1)),
    decreases ls.len(),
{
    if ls.len() == 1 {
        assert(ls.drop_last() =~= Seq::empty());
        assert(ls.skip(1) =~= Seq::empty());
        assert(unlines(ls) =~= ls[0] + seq!['\n'] + unlines(ls.skip(1)));
    } else {
        lemma_unlines_first(ls.drop_last());
        assert(ls.drop_last().skip(1) =~= ls.skip(1).drop_last());
        assert(ls.skip(1).last() == ls.last());
        assert(unlines(ls) =~= ls[0] + seq!['\n'] + unlines(ls.skip(1)));
    }
}

/// Lines that are written one after the other are read back as they were.
pub proof fn lemma_lines_of_unlines(ls: Seq<Seq<char>>)
    requires
        forall|i: int| 0 <= i < ls.len() ==> is_line(#[trigger] ls[i]),
    ensures
        lines(unlines(ls)) == ls,
    decreases ls.len(),
{
    if ls.len() == 0 {
        assert(lines(unlines(ls)) =~= ls);
    } else {
        let rest = unlines(ls.skip(1));
        let s = ls[0] + seq!['\n'] + rest;
        lemma_unlines_first(ls);
        assert(is_line(ls[0]));
        lemma_find_after(ls[0], '\n', rest);
        assert(s.take(ls[0].len() as int) =~= ls[0]);
        assert(s.skip(ls[0].len() + 1int) =~= rest);
        assert forall|i: int| 0 <= i < ls.skip(1).len() implies is_line(#[trigger] ls.skip(1)[i]) by {
            assert(ls.skip(1)[i] == ls[i + 1]);
        }
        lemma_lines_of_unlines(ls.skip(1));
        assert(seq![ls[0]] + ls.skip(1) =~= ls);
    }
}

/// No line holds a line feed.
pub proof fn lemma_lines_have_no_feed(s: Seq<char>)
    ensures
        forall|k: int| 0 <= k < lines(s).len() ==> !(#[trigger] lines(s)[k]).contains('\n'),
    decreases s.len(),
{
    lemma_find(s, '\n');
    let i = find(s, '\n');
    if i < s.len() {
        let tail = s.skip(i + 1);
        lemma_lines_have_no_feed(tail);
        assert forall|k: int| 0 <= k < lines(s).len() implies !(#[trigger] lines(s)[k]).contains(
            '\n',
        ) by {
            if k > 0 {
                assert(lines(s)[k] == lines(tail)[k - 1]);
            }
        }
    }
}

/// A word is not empty and holds no white space.
pub proof fn lemma_words(s: Seq<char>)
    ensures
        forall|k: int|
            #![trigger words(s)[k]]
            0 <= k < words(s).len() ==> words(s)[k].len() > 0 && forall|i: int|
                0 <= i < words(s)[k].len() ==> !is_white(#[trigger] words(s)[k][i]),
    decreases s.len(),
{
    let t = trim_start(s, CharClass::White);
    lemma_trim_start(s, CharClass::White);
    lemma_find_white(t);
    if t.len() > 0 {
        let tail = t.skip(find_white(t));
        lemma_words(tail);
        assert forall|k: int| #![trigger words(s)[k]] 0 <= k < words(s).len() implies words(
            s,
        )[k].len() > 0 && forall|i: int|
            0 <= i < words(s)[k].len() ==> !is_white(#[trigger] words(s)[k][i]) by {
            if k > 0 {
                assert(words(s)[k] == words(tail)[k - 1]);
            } else {
                assert(words(s)[0] == t.take(find_white(t)));
            }
        }
    }
}

proof fn lemma_words_skip_white(s: Seq<char>)
    requires
        s.len() > 0,
        is_white(s[0]),
    ensures
        words(s) == words(s.skip(1)),
{
}

/// How many line feeds a text holds.
pub open spec fn feeds(s: Seq<char>) -> nat
    decreases s.len(),
{
    if s.len() == 0 {
        0
    } else {
        feeds(s.drop_last()) + if s.last() == '\n' {
            1nat
        } else {
            0nat
        }
    }
}

/// The line feeds of two texts add up.
pub proof fn lemma_feeds_add(a: Seq<char>, b: Seq<char>)
    ensures
        feeds(a + b) == feeds(a) + feeds(b),
    decreases b.len(),
{
    if b.len() == 0 {
        assert(a + b =~= a);
    } else {
        lemma_feeds_add(a, b.drop_last());
        assert((a + b).drop_last() =~= a + b.drop_last());
    }
}

/// A text without a line feed has none.
pub proof fn lemma_no_feeds(s: Seq<char>)
    requires
        forall|i: int| 0 <= i < s.len() ==> s[i] != '\n',
    ensures
        feeds(s) == 0,
    decreases s.len(),
{
    if s.len() > 0 {
        lemma_no_feeds(s.drop_last());
    }
}

/// A text has as many lines as line feeds, and one more where it goes on after the last of them.
pub proof fn lemma_line_count(s: Seq<char>)
    ensures
        lines(s).len() == feeds(s) + if s.len() > 0 && s.last() != '\n' {
            1nat
        } else {
            0nat
        },
    decreases s.len(),
{
    lemma_find(s, '\n');
    let i = find(s, '\n');
    if i == s.len() {
        lemma_no_feeds(s);
    } else {
        let (head, tail) = (s.take(i), s.skip(i + 1));
        lemma_line_count(tail);
        lemma_no_feeds(head);
        lemma_feeds_add(head.push('\n'), tail);
        assert(head.push('\n').drop_last() =~= head);
        assert(s =~= head.push('\n') + tail);
        if tail.len() > 0 {
            assert(tail.last() == s.last());
        }
    }
}

/// A number is written without line feeds.
pub proof fn lemma_decimal_has_no_feed(n: int)
    ensures
        feeds(decimal(n)) == 0,
{
    if n < 0 {
        lemma_decimal_nat_has_no_feed((-n) as nat);
        lemma_no_feeds(seq!['-']);
        lemma_feeds_add(seq!['-'], decimal_nat((-n) as nat));
    } else {
        lemma_decimal_nat_has_no_feed(n as nat);
    }
}

proof fn lemma_decimal_nat_has_no_feed(n: nat)
    ensures
        feeds(decimal_nat(n)) == 0,
    decreases n,
{
    if n < 10 {
        lemma_no_feeds(decimal_nat(n));
    } else {
        lemma_decimal_nat_has_no_feed(n / 10);
        assert(decimal_nat(n).drop_last() =~= decimal_nat(n / 10));
    }
}

} // verus!
