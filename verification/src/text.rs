//! Text as sequences of characters: the string operations that the protocol code is built from.
use vstd::prelude::*;
use vstd::slice::slice_subrange;
use vstd::string::*;
use vstd::utf8::*;

verus! {

/// `String::push` of std: appends one character to the end of the string.
pub assume_specification[ String::push ](s: &mut String, c: char)
    ensures
        final(s)@ == old(s)@.push(c),
;

/// The characters of `s`.
pub fn chars_of(s: &str) -> (out: Vec<char>)
    ensures
        out@ == s@,
{
    let mut out: Vec<char> = Vec::new();
    for c in it: s.chars()
        invariant
            it.seq() == s@,
            out@ == s@.take(it.index()),
    {
        out.push(c);
    }
    out
}

/// The string that `chars` spells.
pub fn string_of(chars: &[char]) -> (out: String)
    ensures
        out@ == chars@,
{
    let mut out: String = String::new();
    let mut i: usize = 0;
    while i < chars.len()
        invariant
            i <= chars@.len(),
            out@ == chars@.take(i as int),
        decreases chars@.len() - i,
    {
        out.push(chars[i]);
        i = i + 1;
    }
    assert(chars@.take(chars@.len() as int) == chars@);
    out
}

/// Whether two strings hold the same characters.
pub fn str_eq(a: &str, b: &str) -> (eq: bool)
    ensures
        eq == (a@ == b@),
{
    let x: &[u8] = a.as_bytes();
    let y: &[u8] = b.as_bytes();
    proof {
        encode_utf8_decode_utf8(a@);
        encode_utf8_decode_utf8(b@);
    }
    if x.len() != y.len() {
        return false;
    }
    let mut i: usize = 0;
    while i < x.len()
        invariant
            i <= x@.len() == y@.len(),
            x@ == encode_utf8(a@),
            y@ == encode_utf8(b@),
            forall|j: int| 0 <= j < i ==> x@[j] == y@[j],
        decreases x@.len() - i,
    {
        if x[i] != y[i] {
            return false;
        }
        i = i + 1;
    }
    assert(x@ =~= y@);
    true
}

/// `c` with an ASCII capital turned into its small letter; every other character is unchanged.
pub open spec fn lowered_char(c: char) -> char {
    if 'A' <= c <= 'Z' {
        (c as u8 + 32) as char
    } else {
        c
    }
}

/// `s` with each ASCII capital turned into its small letter.
pub open spec fn lowered(s: Seq<char>) -> Seq<char> {
    Seq::new(s.len(), |i: int| lowered_char(s[i]))
}

/// Turns the ASCII capitals of `s` into small letters.
pub fn lower(s: &str) -> (out: String)
    ensures
        out@ == lowered(s@),
{
    let chars: Vec<char> = chars_of(s);
    let mut out: String = String::new();
    let mut i: usize = 0;
    while i < chars.len()
        invariant
            i <= chars@.len(),
            chars@ == s@,
            out@ == lowered(s@).take(i as int),
        decreases chars@.len() - i,
    {
        let c: char = chars[i];
        if 'A' <= c && c <= 'Z' {
            out.push((c as u8 + 32) as char);
        } else {
            out.push(c);
        }
        i = i + 1;
    }
    assert(lowered(s@).take(s@.len() as int) == lowered(s@));
    out
}

/// Whether two strings are the same but for the case of their ASCII letters.
pub fn eq_ignore_ascii_case(a: &str, b: &str) -> (eq: bool)
    ensures
        eq == (lowered(a@) == lowered(b@)),
{
    let x: String = lower(a);
    let y: String = lower(b);
    str_eq(x.as_str(), y.as_str())
}

/// The position of the first `c` in `s`.
pub fn find_first(s: &[char], c: char) -> (pos: Option<usize>)
    ensures
        match pos {
            Some(i) => s@.index_of_first(c) == Some(i as int),
            None => s@.index_of_first(c) is None,
        },
{
    proof {
        s@.index_of_first_ensures(c);
    }
    let mut i: usize = 0;
    while i < s.len()
        invariant
            i <= s@.len(),
            forall|j: int| 0 <= j < i ==> s@[j] != c,
        decreases s@.len() - i,
    {
        if s[i] == c {
            proof {
                s@.index_of_first_ensures(c);
                assert(s@.contains(s@[i as int]));
            }
            return Some(i);
        }
        i = i + 1;
    }
    None
}

/// The position of the last `c` in `s`.
pub fn find_last(s: &[char], c: char) -> (pos: Option<usize>)
    ensures
        match pos {
            Some(i) => s@.index_of_last(c) == Some(i as int),
            None => s@.index_of_last(c) is None,
        },
{
    proof {
        s@.index_of_last_ensures(c);
    }
    let mut n: usize = s.len();
    while n > 0
        invariant
            n <= s@.len(),
            forall|j: int| n <= j < s@.len() ==> s@[j] != c,
        decreases n,
    {
        if s[n - 1] == c {
            proof {
                s@.index_of_last_ensures(c);
                assert(s@.contains(s@[n - 1]));
            }
            return Some(n - 1);
        }
        n = n - 1;
    }
    None
}

/// Whether `s` starts with the characters of `prefix`.
pub fn starts_with(s: &[char], prefix: &str) -> (yes: bool)
    ensures
        yes == prefix@.is_prefix_of(s@),
{
    let p: Vec<char> = chars_of(prefix);
    if p.len() > s.len() {
        return false;
    }
    let mut i: usize = 0;
    while i < p.len()
        invariant
            i <= p@.len() <= s@.len(),
            p@ == prefix@,
            forall|j: int| 0 <= j < i ==> s@[j] == p@[j],
        decreases p@.len() - i,
    {
        if s[i] != p[i] {
            assert(s@.subrange(0, p@.len() as int)[i as int] != p@[i as int]);
            return false;
        }
        i = i + 1;
    }
    assert(p@ =~= s@.subrange(0, p@.len() as int));
    true
}

/// Whether `s` holds the characters of `text`.
pub fn spells(s: &[char], text: &str) -> (yes: bool)
    ensures
        yes == (s@ == text@),
{
    let len: usize = text.unicode_len();
    let yes: bool = s.len() == len && starts_with(s, text);
    proof {
        if s@.len() == text@.len() {
            assert(s@.subrange(0, text@.len() as int) =~= s@);
        }
    }
    yes
}

/// The characters with the Unicode property White_Space.
pub open spec fn whitespace(c: char) -> bool {
    ||| '\u{9}' <= c <= '\u{d}'
    ||| c == '\u{20}'
    ||| c == '\u{85}'
    ||| c == '\u{a0}'
    ||| c == '\u{1680}'
    ||| '\u{2000}' <= c <= '\u{200a}'
    ||| c == '\u{2028}'
    ||| c == '\u{2029}'
    ||| c == '\u{202f}'
    ||| c == '\u{205f}'
    ||| c == '\u{3000}'
}

/// Whether `c` has the Unicode property White_Space.
pub fn is_whitespace(c: char) -> (yes: bool)
    ensures
        yes == whitespace(c),
{
    ('\u{9}' <= c && c <= '\u{d}') || c == '\u{20}' || c == '\u{85}' || c == '\u{a0}' || c
        == '\u{1680}' || ('\u{2000}' <= c && c <= '\u{200a}') || c == '\u{2028}' || c == '\u{2029}'
        || c == '\u{202f}' || c == '\u{205f}' || c == '\u{3000}'
}

/// `s` without its leading white space.
pub open spec fn trimmed_start(s: Seq<char>) -> Seq<char>
    decreases s.len(),
{
    if s.len() > 0 && whitespace(s[0]) {
        trimmed_start(s.skip(1))
    } else {
        s
    }
}

/// `s` without its trailing white space.
pub open spec fn trimmed_end(s: Seq<char>) -> Seq<char>
    decreases s.len(),
{
    if s.len() > 0 && whitespace(s.last()) {
        trimmed_end(s.drop_last())
    } else {
        s
    }
}

/// `s` without the white space around it.
pub open spec fn trimmed(s: Seq<char>) -> Seq<char> {
    trimmed_end(trimmed_start(s))
}

/// Drops the leading white space.
pub fn trim_start(s: &[char]) -> (out: &[char])
    ensures
        out@ == trimmed_start(s@),
{
    let mut i: usize = 0;
    assert(s@.skip(0) == s@);
    while i < s.len() && is_whitespace(s[i])
        invariant
            i <= s@.len(),
            trimmed_start(s@) == trimmed_start(s@.skip(i as int)),
        decreases s@.len() - i,
    {
        assert(s@.skip(i as int).skip(1) == s@.skip(i + 1));
        i = i + 1;
    }
    slice_subrange(s, i, s.len())
}

/// Drops the trailing white space.
pub fn trim_end(s: &[char]) -> (out: &[char])
    ensures
        out@ == trimmed_end(s@),
{
    let mut n: usize = s.len();
    assert(s@.take(n as int) == s@);
    while n > 0 && is_whitespace(s[n - 1])
        invariant
            n <= s@.len(),
            trimmed_end(s@) == trimmed_end(s@.take(n as int)),
        decreases n,
    {
        assert(s@.take(n as int).drop_last() == s@.take(n - 1));
        n = n - 1;
    }
    slice_subrange(s, 0, n)
}

/// Drops the white space on both sides.
pub fn trim(s: &[char]) -> (out: &[char])
    ensures
        out@ == trimmed(s@),
{
    trim_end(trim_start(s))
}

/// `s` without one carriage return at its end.
pub open spec fn without_return(s: Seq<char>) -> Seq<char> {
    if s.len() > 0 && s.last() == '\r' {
        s.drop_last()
    } else {
        s
    }
}

/// The first line of `s`, without its line ending, which is a line feed or a carriage return and a
/// line feed.
pub open spec fn first_line(s: Seq<char>) -> Seq<char> {
    match s.index_of_first('\n') {
        Some(i) => without_return(s.take(i)),
        None => s,
    }
}

/// What follows the first line of `s` and its line ending.
pub open spec fn after_line(s: Seq<char>) -> Seq<char> {
    match s.index_of_first('\n') {
        Some(i) => s.skip(i + 1),
        None => Seq::empty(),
    }
}

/// The lines of `s`. The ending of the last line is optional.
pub open spec fn lines(s: Seq<char>) -> Seq<Seq<char>>
    decreases s.len(),
{
    if s.len() == 0 {
        Seq::empty()
    } else {
        proof {
            s.index_of_first_ensures('\n');
        }
        seq![first_line(s)] + lines(after_line(s))
    }
}

/// Splits the first line from the rest.
pub fn split_line(s: &[char]) -> (out: (&[char], &[char]))
    ensures
        out.0@ == first_line(s@),
        out.1@ == after_line(s@),
        s@.len() > 0 ==> out.1@.len() < s@.len(),
{
    proof {
        s@.index_of_first_ensures('\n');
    }
    match find_first(s, '\n') {
        Some(i) => {
            let end: usize = if i > 0 && s[i - 1] == '\r' {
                i - 1
            } else {
                i
            };
            assert(s@.take(i as int).len() == i);
            assert(i > 0 ==> s@.take(i as int).last() == s@[i - 1]);
            assert(i > 0 ==> s@.take(i as int).drop_last() == s@.take(i - 1));
            (slice_subrange(s, 0, end), slice_subrange(s, i + 1, s.len()))
        },
        None => (s, slice_subrange(s, s.len(), s.len())),
    }
}

/// `lines`, each with a carriage return and a line feed after it.
pub open spec fn ended_lines(lines: Seq<Seq<char>>) -> Seq<char>
    decreases lines.len(),
{
    if lines.len() == 0 {
        Seq::empty()
    } else {
        lines[0] + seq!['\r', '\n'] + ended_lines(lines.skip(1))
    }
}

/// Lines that are written one after another are read back, followed by the lines of what follows them.
pub proof fn written_lines_are_read(written: Seq<Seq<char>>, rest: Seq<char>)
    requires
        forall|i: int| 0 <= i < written.len() ==> !(#[trigger] written[i]).contains('\n'),
    ensures
        lines(ended_lines(written) + rest) == written + lines(rest),
    decreases written.len(),
{
    if written.len() == 0 {
        assert(ended_lines(written) + rest =~= rest);
        assert(written + lines(rest) =~= lines(rest));
    } else {
        let line = written[0];
        let after = ended_lines(written.skip(1)) + rest;
        let all = ended_lines(written) + rest;
        let at: int = line.len() as int + 1;
        assert(all =~= line + seq!['\r', '\n'] + after);
        all.index_of_first_ensures('\n');
        assert(all[at] == '\n');
        assert(all.contains('\n'));
        assert forall|j: int| 0 <= j < at implies all[j] != '\n' by {
            if j < line.len() {
                assert(all[j] == line[j]);
                assert(line.contains(line[j]));
            }
        }
        assert(all.index_of_first('\n') == Some(at));
        assert(all.take(at).last() == '\r');
        assert(first_line(all) =~= line);
        assert(after_line(all) =~= after);
        assert forall|i: int| 0 <= i < written.skip(1).len() implies !(
        #[trigger] written.skip(1)[i]).contains('\n') by {
            assert(written.skip(1)[i] == written[i + 1]);
        }
        written_lines_are_read(written.skip(1), rest);
        assert(written + lines(rest) =~= seq![line] + (written.skip(1) + lines(rest)));
    }
}

/// The text of lines is that of the ones before the last, and the last.
pub proof fn lemma_ended_lines_last(lines: Seq<Seq<char>>)
    requires
        lines.len() > 0,
    ensures
        ended_lines(lines) == ended_lines(lines.drop_last()) + lines.last() + seq!['\r', '\n'],
    decreases lines.len(),
{
    if lines.len() == 1 {
        assert(ended_lines(lines.skip(1)) =~= Seq::<char>::empty());
        assert(ended_lines(lines.drop_last()) =~= Seq::<char>::empty());
        assert(ended_lines(lines) =~= ended_lines(lines.drop_last()) + lines.last() + seq![
            '\r',
            '\n',
        ]);
    } else {
        lemma_ended_lines_last(lines.skip(1));
        assert(lines.skip(1).drop_last() =~= lines.drop_last().skip(1));
        assert(lines.drop_last()[0] == lines[0]);
        assert(lines.skip(1).last() == lines.last());
        assert(ended_lines(lines.drop_last()) == lines[0] + seq!['\r', '\n'] + ended_lines(
            lines.drop_last().skip(1),
        ));
        assert(ended_lines(lines) =~= ended_lines(lines.drop_last()) + lines.last() + seq![
            '\r',
            '\n',
        ]);
    }
}

/// Trailing white space after a text that does not end in white space is what is dropped.
pub proof fn lemma_trimmed_end(text: Seq<char>, space: Seq<char>)
    requires
        text.len() > 0 ==> !whitespace(text.last()),
        forall|i: int| 0 <= i < space.len() ==> whitespace(#[trigger] space[i]),
    ensures
        trimmed_end(text + space) == text,
    decreases space.len(),
{
    if space.len() == 0 {
        assert(text + space =~= text);
    } else {
        assert((text + space).last() == space.last());
        assert((text + space).drop_last() =~= text + space.drop_last());
        lemma_trimmed_end(text, space.drop_last());
    }
}

/// Leading white space before a text that does not start with white space is what is dropped.
pub proof fn lemma_trimmed_start(space: Seq<char>, text: Seq<char>)
    requires
        text.len() > 0 ==> !whitespace(text[0]),
        forall|i: int| 0 <= i < space.len() ==> whitespace(#[trigger] space[i]),
    ensures
        trimmed_start(space + text) == text,
    decreases space.len(),
{
    if space.len() == 0 {
        assert(space + text =~= text);
    } else {
        assert((space + text)[0] == space[0]);
        assert((space + text).skip(1) =~= space.skip(1) + text);
        assert forall|i: int| 0 <= i < space.skip(1).len() implies whitespace(
            #[trigger] space.skip(1)[i],
        ) by {
            assert(space.skip(1)[i] == space[i + 1]);
        }
        lemma_trimmed_start(space.skip(1), text);
    }
}

proof fn lemma_trimmed_shrinks(s: Seq<char>)
    ensures
        trimmed_start(s) == s || trimmed_start(s).len() < s.len(),
        trimmed_end(s) == s || trimmed_end(s).len() < s.len(),
    decreases s.len(),
{
    if s.len() > 0 {
        lemma_trimmed_shrinks(s.skip(1));
        lemma_trimmed_shrinks(s.drop_last());
    }
}

/// A text that trimming leaves as it is neither starts nor ends with white space.
pub proof fn lemma_trimmed_ends(s: Seq<char>)
    requires
        trimmed(s) == s,
        s.len() > 0,
    ensures
        !whitespace(s[0]),
        !whitespace(s.last()),
{
    lemma_trimmed_shrinks(s);
    lemma_trimmed_shrinks(trimmed_start(s));
    if whitespace(s[0]) {
        lemma_trimmed_shrinks(s.skip(1));
    }
    if whitespace(s.last()) {
        lemma_trimmed_shrinks(s.drop_last());
    }
}

/// `n` in decimal digits.
pub open spec fn decimal(n: nat) -> Seq<char>
    decreases n,
{
    let digit = ('0' as u8 + n % 10) as char;
    if n < 10 {
        seq![digit]
    } else {
        decimal(n / 10).push(digit)
    }
}

/// Appends `n` in decimal digits.
pub fn append_decimal(out: &mut String, n: usize)
    ensures
        final(out)@ == old(out)@ + decimal(n as nat),
    decreases n,
{
    if n >= 10 {
        append_decimal(out, n / 10);
    }
    let digit: u8 = (n % 10) as u8;
    out.push((48 + digit) as char);
    assert(out@ =~= old(out)@ + decimal(n as nat));
}

/// Lowering turns the letters from A to Z into those from a to z, one for one, and leaves everything else.
pub proof fn capitals_become_small(s: Seq<char>, i: int, k: int)
    requires
        0 <= i < s.len(),
        0 <= k < 26,
    ensures
        lowered(s).len() == s.len(),
        s[i] == "ABCDEFGHIJKLMNOPQRSTUVWXYZ"@[k] ==> lowered(s)[i]
            == "abcdefghijklmnopqrstuvwxyz"@[k],
        !"ABCDEFGHIJKLMNOPQRSTUVWXYZ"@.contains(s[i]) ==> lowered(s)[i] == s[i],
{
    reveal_strlit("ABCDEFGHIJKLMNOPQRSTUVWXYZ");
    reveal_strlit("abcdefghijklmnopqrstuvwxyz");
    let capitals = "ABCDEFGHIJKLMNOPQRSTUVWXYZ"@;
    let small = "abcdefghijklmnopqrstuvwxyz"@;
    assert(capitals =~= Seq::new(26, |n: int| (65 + n) as char));
    assert(small =~= Seq::new(26, |n: int| (97 + n) as char));
    assert(capitals[k] == (65 + k) as char);
    assert(small[k] == (97 + k) as char);
    let c = s[i];
    if 'A' <= c <= 'Z' {
        assert(capitals[c as int - 65] == c);
    }
}

/// Trimming takes off the white space around a text, all of it and nothing else.
pub proof fn white_space_around_is_dropped(left: Seq<char>, core: Seq<char>, right: Seq<char>)
    requires
        forall|i: int| 0 <= i < left.len() ==> whitespace(#[trigger] left[i]),
        forall|i: int| 0 <= i < right.len() ==> whitespace(#[trigger] right[i]),
        core.len() > 0 ==> !whitespace(core[0]) && !whitespace(core.last()),
    ensures
        trimmed(left + core + right) == core,
        trimmed_start(left + core + right) == if core.len() > 0 {
            core + right
        } else {
            Seq::empty()
        },
        trimmed_end(left + core + right) == if core.len() > 0 {
            left + core
        } else {
            Seq::empty()
        },
{
    if core.len() > 0 {
        assert((core + right)[0] == core[0]);
        assert(left + core + right =~= left + (core + right));
        lemma_trimmed_start(left, core + right);
        lemma_trimmed_end(core, right);
        assert((left + core).last() == core.last());
        lemma_trimmed_end(left + core, right);
    } else {
        let space = left + right;
        assert(left + core + right =~= space);
        assert forall|i: int| 0 <= i < space.len() implies whitespace(#[trigger] space[i]) by {
            if i < left.len() {
                assert(space[i] == left[i]);
            } else {
                assert(space[i] == right[i - left.len()]);
            }
        }
        lemma_trimmed_start(space, Seq::empty());
        lemma_trimmed_end(Seq::empty(), space);
        assert(space + Seq::<char>::empty() =~= space);
        assert(Seq::<char>::empty() + space =~= space);
        assert(core =~= Seq::empty());
    }
}

/// Lines end at line feeds, with or without a carriage return before them; the last may go without.
pub proof fn lines_end_at_line_feeds(line: Seq<char>, rest: Seq<char>)
    requires
        !line.contains('\n'),
    ensures
        lines(Seq::empty()) == Seq::<Seq<char>>::empty(),
        line.len() > 0 ==> lines(line) == seq![line],
        lines(line + seq!['\r', '\n'] + rest) == seq![line] + lines(rest),
        line.len() == 0 || line.last() != '\r' ==> lines(line + seq!['\n'] + rest) == seq![line]
            + lines(rest),
{
    assert(lines(Seq::empty()) =~= Seq::<Seq<char>>::empty());
    line.index_of_first_ensures('\n');
    if line.len() > 0 {
        assert(first_line(line) == line);
        assert(lines(line) =~= seq![line]);
    }
    written_lines_are_read(seq![line], rest);
    assert(ended_lines(seq![line]) =~= line + seq!['\r', '\n']) by {
        assert(seq![line].skip(1) =~= Seq::<Seq<char>>::empty());
        assert(ended_lines(seq![line].skip(1)) =~= Seq::<char>::empty());
    }
    let all = line + seq!['\n'] + rest;
    let at = line.len() as int;
    all.index_of_first_ensures('\n');
    assert(all[at] == '\n');
    assert(all.contains('\n'));
    assert forall|j: int| 0 <= j < at implies all[j] != '\n' by {
        assert(all[j] == line[j]);
        assert(line.contains(line[j]));
    }
    assert(all.index_of_first('\n') == Some(at));
    assert(all.take(at) =~= line);
    assert(after_line(all) =~= rest);
}

/// The number that decimal digits stand for.
pub open spec fn number(digits: Seq<char>) -> nat
    decreases digits.len(),
{
    if digits.len() == 0 {
        0
    } else {
        number(digits.drop_last()) * 10 + (digits.last() as nat - '0' as nat) as nat
    }
}

/// A number that is written in decimal is read back; it is written in digits alone, and without leading
/// zeros.
pub proof fn decimals_are_read_back(n: nat)
    ensures
        number(decimal(n)) == n,
        decimal(n).len() > 0,
        forall|i: int| 0 <= i < decimal(n).len() ==> '0' <= #[trigger] decimal(n)[i] <= '9',
        n > 0 ==> decimal(n)[0] != '0',
        n == 0 ==> decimal(n) == seq!['0'],
    decreases n,
{
    assert(number(Seq::empty()) == 0);
    assert(decimal(n).last() as nat - '0' as nat == n % 10);
    if n >= 10 {
        decimals_are_read_back(n / 10);
        assert(decimal(n).drop_last() =~= decimal(n / 10));
        assert(decimal(n)[0] == decimal(n / 10)[0]);
    } else {
        assert(decimal(n).drop_last() =~= Seq::empty());
    }
}

} // verus!
