//! What trimming, splitting, joining and writing numbers come to, told by what is put in.

use vstd::prelude::*;

use crate::text::{CharClass, decimal, decimal_nat, digit, find, find_white, has_part, has_part_at};
use crate::text::{is_white, join, lemma_find, lemma_find_after, lemma_split_after, lemma_trim_start};
use crate::text::{lines, split, trim, trim_end, trim_start, unlines, without_return, words};

verus! {

/// Whether all characters of a text are white space.
pub open spec fn all_white(s: Seq<char>) -> bool {
    forall|i: int| 0 <= i < s.len() ==> is_white(#[trigger] s[i])
}

/// Whether a text is not empty and none of its characters is white space.
pub open spec fn is_word(s: Seq<char>) -> bool {
    s.len() > 0 && forall|i: int| 0 <= i < s.len() ==> !is_white(#[trigger] s[i])
}

/// Whether a text neither starts nor ends with white space.
pub open spec fn is_trimmed(s: Seq<char>) -> bool {
    s.len() > 0 ==> !is_white(s[0]) && !is_white(s.last())
}

/// Trimming removes exactly what is of the class at both ends.
proof fn lemma_trim_between(a: Seq<char>, s: Seq<char>, b: Seq<char>, class: CharClass)
    requires
        forall|i: int| 0 <= i < a.len() ==> class.has(#[trigger] a[i]),
        forall|i: int| 0 <= i < b.len() ==> class.has(#[trigger] b[i]),
        s.len() > 0 ==> !class.has(s[0]) && !class.has(s.last()),
    ensures
        trim(a + s + b, class) == s,
    decreases a.len() + b.len(),
{
    let whole = a + s + b;
    if a.len() > 0 {
        assert(whole[0] == a[0]);
        assert(whole.skip(1) =~= a.skip(1) + s + b);
        lemma_trim_between(a.skip(1), s, b, class);
    } else if s.len() == 0 {
        assert(whole =~= b);
        if b.len() > 0 {
            let none = Seq::<char>::empty();
            assert(whole[0] == b[0]);
            assert(whole.skip(1) =~= none + s + b.skip(1));
            lemma_trim_between(none, s, b.skip(1), class);
        } else {
            assert(whole =~= s);
        }
    } else {
        assert(whole[0] == s[0]);
        lemma_trim_end_between(s, b, class);
        assert(whole =~= s + b);
    }
}

proof fn lemma_trim_end_between(s: Seq<char>, b: Seq<char>, class: CharClass)
    requires
        forall|i: int| 0 <= i < b.len() ==> class.has(#[trigger] b[i]),
        s.len() > 0,
        !class.has(s.last()),
    ensures
        trim_end(s + b, class) == s,
    decreases b.len(),
{
    if b.len() > 0 {
        assert((s + b).last() == b.last());
        assert((s + b).drop_last() =~= s + b.drop_last());
        lemma_trim_end_between(s, b.drop_last(), class);
    } else {
        assert(s + b =~= s);
    }
}

/// A text between white space is what trimming leaves, where it has none at its own ends.
pub proof fn lemma_trimming_white(a: Seq<char>, s: Seq<char>, b: Seq<char>)
    requires
        all_white(a),
        all_white(b),
        is_trimmed(s),
    ensures
        trim(a + s + b, CharClass::White) == s,
{
    lemma_trim_between(a, s, b, CharClass::White);
}

/// A text between quotes, as many as there are, is what trimming leaves, where it has none at its
/// own ends.
pub proof fn lemma_trimming_quotes(q: char, m: nat, s: Seq<char>, n: nat)
    requires
        s.len() > 0 ==> s[0] != q && s.last() != q,
    ensures
        trim(Seq::new(m, |i: int| q) + s + Seq::new(n, |i: int| q), CharClass::Only(q)) == s,
{
    lemma_trim_between(Seq::new(m, |i: int| q), s, Seq::new(n, |i: int| q), CharClass::Only(q));
}

/// Any text is what trimming leaves of it, between white space.
pub proof fn lemma_white_ends(s: Seq<char>) -> (r: (Seq<char>, Seq<char>))
    ensures
        all_white(r.0),
        all_white(r.1),
        is_trimmed(trim(s, CharClass::White)),
        s == r.0 + trim(s, CharClass::White) + r.1,
{
    let class = CharClass::White;
    lemma_trim_start(s, class);
    let t = trim_start(s, class);
    let a = s.take(s.len() - t.len());
    let b = lemma_white_end(t);
    let u = trim_end(t, class);
    assert(s =~= a + t);
    assert(a + t =~= a + u + b);
    if u.len() > 0 {
        assert(u[0] == t[0]);
    }
    (a, b)
}

proof fn lemma_white_end(t: Seq<char>) -> (b: Seq<char>)
    ensures
        all_white(b),
        t == trim_end(t, CharClass::White) + b,
        trim_end(t, CharClass::White).len() > 0 ==> !is_white(
            trim_end(t, CharClass::White).last(),
        ),
    decreases t.len(),
{
    let class = CharClass::White;
    if t.len() > 0 && is_white(t.last()) {
        let b = lemma_white_end(t.drop_last());
        let r = b.push(t.last());
        let u = trim_end(t.drop_last(), class);
        assert(trim_end(t, class) == u);
        assert(t =~= t.drop_last().push(t.last()));
        assert(t =~= u + r);
        r
    } else {
        let r = Seq::<char>::empty();
        assert(t =~= trim_end(t, class) + r);
        r
    }
}

/// The pieces of two texts with the separator between them are the pieces of the first and then
/// those of the second.
pub proof fn lemma_splitting(a: Seq<char>, c: char, b: Seq<char>)
    ensures
        split(a + seq![c] + b, c) == split(a, c) + split(b, c),
        !a.contains(c) ==> split(a, c) == seq![a],
    decreases a.len(),
{
    let s = a + seq![c] + b;
    if !a.contains(c) {
        lemma_split_after(a, c, b);
    } else {
        lemma_find(a, c);
        let i = find(a, c);
        if i == a.len() {
            let k = choose|k: int| 0 <= k < a.len() && a[k] == c;
            assert(a[k] != c);
        }
        let (head, tail) = (a.take(i), a.skip(i + 1));
        assert(!head.contains(c)) by {
            if head.contains(c) {
                let k = choose|k: int| 0 <= k < head.len() && head[k] == c;
                assert(a[k] == c);
            }
        }
        lemma_splitting(tail, c, b);
        lemma_split_after(head, c, tail);
        lemma_split_after(head, c, tail + seq![c] + b);
        assert(a =~= head + seq![c] + tail);
        assert(s =~= head + seq![c] + (tail + seq![c] + b));
        assert(seq![head] + (split(tail, c) + split(b, c)) =~= (seq![head] + split(tail, c))
            + split(b, c));
    }
}

/// A text without line feeds is a line, and so is one before a line feed, without the carriage
/// return that may stand between them.
pub proof fn lemma_reading_lines(a: Seq<char>, b: Seq<char>)
    requires
        !a.contains('\n'),
    ensures
        lines(Seq::<char>::empty()) == Seq::<Seq<char>>::empty(),
        a.len() > 0 ==> lines(a) == seq![a],
        a.len() == 0 || a.last() != '\r' ==> lines(a + seq!['\n'] + b) == seq![a] + lines(b),
        lines(a + seq!['\r', '\n'] + b) == seq![a] + lines(b),
{
    let s = a + seq!['\n'] + b;
    lemma_find_after(a, '\n', b);
    assert(s.take(a.len() as int) =~= a);
    assert(s.skip(a.len() + 1int) =~= b);
    let r = a.push('\r');
    assert(!r.contains('\n')) by {
        if r.contains('\n') {
            let k = choose|k: int| 0 <= k < r.len() && r[k] == '\n';
            assert(a[k] == '\n');
        }
    }
    let t = r + seq!['\n'] + b;
    lemma_find_after(r, '\n', b);
    assert(t =~= a + seq!['\r', '\n'] + b);
    assert(t.take(r.len() as int) =~= r);
    assert(t.skip(r.len() + 1int) =~= b);
    assert(without_return(r) =~= a);
}

/// White space holds no word, and a word that white space or the end follows is the first one.
pub proof fn lemma_reading_words(gap: Seq<char>, word: Seq<char>, rest: Seq<char>)
    requires
        all_white(gap),
        is_word(word),
        rest.len() > 0 ==> is_white(rest[0]),
    ensures
        words(gap) == Seq::<Seq<char>>::empty(),
        words(gap + word + rest) == seq![word] + words(rest),
    decreases gap.len(),
{
    let s = gap + word + rest;
    if gap.len() > 0 {
        lemma_reading_words(gap.skip(1), word, rest);
        assert(s[0] == gap[0]);
        assert(s.skip(1) =~= gap.skip(1) + word + rest);
        assert(trim_start(s, CharClass::White) == trim_start(s.skip(1), CharClass::White));
        assert(trim_start(gap, CharClass::White) == trim_start(gap.skip(1), CharClass::White));
    } else {
        assert(s =~= word + rest);
        assert(s[0] == word[0]);
        lemma_word_ends(word, rest);
        assert(s.take(word.len() as int) =~= word);
        assert(s.skip(word.len() as int) =~= rest);
    }
}

proof fn lemma_word_ends(word: Seq<char>, rest: Seq<char>)
    requires
        forall|i: int| 0 <= i < word.len() ==> !is_white(#[trigger] word[i]),
        rest.len() > 0 ==> is_white(rest[0]),
    ensures
        find_white(word + rest) == word.len(),
    decreases word.len(),
{
    let s = word + rest;
    if word.len() > 0 {
        assert(s[0] == word[0]);
        assert(s.skip(1) =~= word.skip(1) + rest);
        lemma_word_ends(word.skip(1), rest);
    } else {
        assert(s =~= rest);
    }
}

/// Written lines are the first one, a line feed, and the others.
pub proof fn lemma_writing_lines(first: Seq<char>, rest: Seq<Seq<char>>)
    ensures
        unlines(Seq::<Seq<char>>::empty()) == Seq::<char>::empty(),
        unlines(seq![first] + rest) == first + seq!['\n'] + unlines(rest),
    decreases rest.len(),
{
    let all = seq![first] + rest;
    if rest.len() == 0 {
        assert(all.drop_last() =~= Seq::empty());
        assert(unlines(all) =~= first + seq!['\n'] + unlines(rest));
    } else {
        lemma_writing_lines(first, rest.drop_last());
        assert(all.drop_last() =~= seq![first] + rest.drop_last());
        assert(all.last() == rest.last());
        assert(unlines(all) == unlines(all.drop_last()) + all.last() + seq!['\n']);
        assert(unlines(all) =~= first + seq!['\n'] + unlines(rest));
    }
}

/// Joined lines are the first one, and where there are others a line feed and they.
pub proof fn lemma_joining_lines(first: Seq<char>, rest: Seq<Seq<char>>)
    ensures
        join(Seq::<Seq<char>>::empty()) == Seq::<char>::empty(),
        join(seq![first]) == first,
        rest.len() > 0 ==> join(seq![first] + rest) == first + seq!['\n'] + join(rest),
    decreases rest.len(),
{
    let all = seq![first] + rest;
    if rest.len() == 1 {
        assert(all.drop_last() =~= seq![first]);
        assert(all.last() == rest[0]);
    } else if rest.len() > 1 {
        lemma_joining_lines(first, rest.drop_last());
        assert(all.drop_last() =~= seq![first] + rest.drop_last());
        assert(join(all) =~= first + seq!['\n'] + join(rest));
    }
}

/// A text holds another exactly where it is that text between two others.
pub proof fn lemma_parts(s: Seq<char>, t: Seq<char>)
    ensures
        has_part(s, t) <==> exists|a: Seq<char>, b: Seq<char>| s == #[trigger] (a + t + b),
{
    if has_part(s, t) {
        let i = choose|i: int| has_part_at(s, t, i);
        let (a, b) = (s.take(i), s.skip(i + t.len()));
        assert(s =~= a + t + b);
    }
    if exists|a: Seq<char>, b: Seq<char>| s == #[trigger] (a + t + b) {
        let (a, b) = choose|a: Seq<char>, b: Seq<char>| s == #[trigger] (a + t + b);
        assert(s.subrange(a.len() as int, (a.len() + t.len()) as int) =~= t);
        assert(has_part_at(s, t, a.len() as int));
    }
}

/// The number that a run of decimal digits stands for.
pub open spec fn value_of(digits: Seq<char>) -> int
    decreases digits.len(),
{
    if digits.len() == 0 {
        0
    } else {
        10 * value_of(digits.drop_last()) + (digits.last() as int - '0' as int)
    }
}

/// Whether a text is made of decimal digits, without a zero before others.
pub open spec fn is_numeral(s: Seq<char>) -> bool {
    &&& s.len() > 0
    &&& forall|i: int| 0 <= i < s.len() ==> '0' <= #[trigger] s[i] <= '9'
    &&& s.len() > 1 ==> s[0] != '0'
}

/// A number is written so that its digits stand for it, with a minus before them where it is
/// negative.
pub proof fn lemma_writing_numbers(n: int)
    ensures
        n >= 0 ==> is_numeral(decimal(n)) && value_of(decimal(n)) == n,
        n < 0 ==> decimal(n).len() > 0 && decimal(n)[0] == '-' && is_numeral(decimal(n).skip(1))
            && value_of(decimal(n).skip(1)) == -n,
{
    if n >= 0 {
        lemma_writing_naturals(n as nat);
    } else {
        lemma_writing_naturals((-n) as nat);
        assert(decimal(n).skip(1) =~= decimal_nat((-n) as nat));
    }
}

proof fn lemma_writing_naturals(n: nat)
    ensures
        is_numeral(decimal_nat(n)),
        value_of(decimal_nat(n)) == n,
        n > 0 ==> decimal_nat(n)[0] != '0',
    decreases n,
{
    if n < 10 {
        let s = decimal_nat(n);
        assert(s.drop_last() =~= Seq::empty());
        assert(value_of(s.drop_last()) == 0);
        assert(s.last() == digit(n as int));
    } else {
        lemma_writing_naturals(n / 10);
        assert(decimal_nat(n).drop_last() =~= decimal_nat(n / 10));
        assert(decimal_nat(n).last() == digit((n % 10) as int));
    }
}

} // verus!
