//! Text: decimal numbers, white space, and characters of strings.

use vstd::prelude::*;

verus! {

/// `String::push` appends a character to the end of the string.
pub assume_specification[ String::push ](s: &mut String, c: char)
    ensures
        final(s)@ == old(s)@.push(c),
;

/// `String::pop` removes the last character and returns it; an empty string
/// stays as it is and gives `None`.
pub assume_specification[ String::pop ](s: &mut String) -> (r: Option<char>)
    ensures
        old(s)@.len() == 0 ==> r is None && final(s)@ == old(s)@,
        old(s)@.len() > 0 ==> r == Some(old(s)@.last()) && final(s)@ == old(s)@.drop_last(),
;

/// The character of a decimal digit.
pub open spec fn digit(d: int) -> char {
    (48 + d) as char
}

/// A number in decimal notation, without leading zeros.
pub open spec fn decimal(n: nat) -> Seq<char>
    decreases n,
{
    if n < 10 {
        seq![digit(n as int)]
    } else {
        decimal(n / 10).push(digit((n % 10) as int))
    }
}

/// A number in decimal notation, with a minus sign where it is negative.
pub open spec fn signed_decimal(n: int) -> Seq<char> {
    if n < 0 {
        seq!['-'] + decimal((-n) as nat)
    } else {
        decimal(n as nat)
    }
}

/// Appends a number in decimal notation.
pub fn push_decimal(s: &mut String, n: u64)
    ensures
        final(s)@ == old(s)@ + decimal(n as nat),
    decreases n,
{
    if n >= 10 {
        push_decimal(s, n / 10);
    }
    let d: u8 = (n % 10) as u8;
    let c: char = (48u8 + d) as char;
    s.push(c);
    assert(c == digit((n % 10) as int));
    assert(s@ =~= old(s)@ + decimal(n as nat));
}

/// Appends a number in decimal notation, with its sign where it is negative.
pub fn push_signed_decimal(s: &mut String, n: i64)
    ensures
        final(s)@ == old(s)@ + signed_decimal(n as int),
{
    if n < 0 {
        s.push('-');
        let magnitude: u64 = (-(n as i128)) as u64;
        push_decimal(s, magnitude);
        assert(s@ =~= old(s)@ + signed_decimal(n as int));
    } else {
        push_decimal(s, n as u64);
    }
}

/// Whether a character is white space: the characters with the Unicode
/// property of that name.
pub open spec fn is_space(c: char) -> bool {
    let v = c as int;
    ||| 9 <= v <= 13
    ||| v == 32
    ||| v == 0x85
    ||| v == 0xA0
    ||| v == 0x1680
    ||| 0x2000 <= v <= 0x200A
    ||| v == 0x2028
    ||| v == 0x2029
    ||| v == 0x202F
    ||| v == 0x205F
    ||| v == 0x3000
}

pub fn is_whitespace(c: char) -> (r: bool)
    ensures
        r == is_space(c),
{
    let v: u32 = c as u32;
    (9 <= v && v <= 13) || v == 32 || v == 0x85 || v == 0xA0 || v == 0x1680 || (0x2000 <= v && v
        <= 0x200A) || v == 0x2028 || v == 0x2029 || v == 0x202F || v == 0x205F || v == 0x3000
}

/// `s` without the white space at its end.
pub open spec fn trimmed_end(s: Seq<char>) -> Seq<char>
    decreases s.len(),
{
    if s.len() > 0 && is_space(s.last()) {
        trimmed_end(s.drop_last())
    } else {
        s
    }
}

/// `s` without the white space at its start.
pub open spec fn trimmed_start(s: Seq<char>) -> Seq<char>
    decreases s.len(),
{
    if s.len() > 0 && is_space(s[0]) {
        trimmed_start(s.drop_first())
    } else {
        s
    }
}

/// Removes the white space at the end.
pub fn trim_end(v: &mut Vec<char>)
    ensures
        final(v)@ == trimmed_end(old(v)@),
{
    while v.len() > 0 && is_whitespace(v[v.len() - 1])
        invariant
            trimmed_end(v@) == trimmed_end(old(v)@),
        decreases v@.len(),
    {
        let ghost before = v@;
        v.pop();
        assert(v@ =~= before.drop_last());
    }
}

/// The characters of a string.
pub fn chars_of(s: &str) -> (r: Vec<char>)
    ensures
        r@ == s@,
{
    let mut out: Vec<char> = Vec::new();
    for c in it: s.chars()
        invariant
            it.seq() == s@,
            out@ == it.seq().take(it.index()),
    {
        assert(it.seq().take(it.index() + 1) =~= it.seq().take(it.index()).push(c));
        out.push(c);
    }
    assert(s@.take(s@.len() as int) =~= s@);
    out
}

/// A string of its own with the same text.
pub fn own(s: &str) -> (r: String)
    ensures
        r@ == s@,
{
    let mut t = String::new();
    t.append(s);
    assert(t@ =~= s@);
    t
}

/// Appends characters to a string.
pub fn push_chars(s: &mut String, v: &Vec<char>)
    ensures
        final(s)@ == old(s)@ + v@,
{
    let mut i: usize = 0;
    assert(s@ =~= old(s)@ + v@.take(0));
    while i < v.len()
        invariant
            i <= v@.len(),
            s@ == old(s)@ + v@.take(i as int),
        decreases v@.len() - i,
    {
        s.push(v[i]);
        assert(v@.take(i + 1) =~= v@.take(i as int).push(v@[i as int]));
        assert(s@ =~= old(s)@ + v@.take(i + 1));
        i += 1;
    }
    assert(v@.take(v@.len() as int) =~= v@);
}

/// A copy of a list of strings.
pub fn copy_strings(v: &Vec<String>) -> (r: Vec<String>)
    ensures
        crate::protocol::texts(r@) == crate::protocol::texts(v@),
{
    let mut out: Vec<String> = Vec::new();
    let mut i: usize = 0;
    while i < v.len()
        invariant
            i <= v@.len(),
            out@.len() == i,
            forall|j: int| 0 <= j < i ==> (#[trigger] out@[j])@ == v@[j]@,
        decreases v@.len() - i,
    {
        out.push(v[i].clone());
        i += 1;
    }
    assert(crate::protocol::texts(out@) =~= crate::protocol::texts(v@));
    out
}

/// A copy of an optional string.
pub fn copy_opt_string(s: &Option<String>) -> (r: Option<String>)
    ensures
        crate::protocol::opt_text(r) == crate::protocol::opt_text(*s),
{
    match s {
        Some(t) => Some(t.clone()),
        None => None,
    }
}

/// What separates the pieces of a text.
#[derive(Debug, Clone, Copy, PartialEq, Eq, Structural)]
pub enum Separator {
    /// White space, between words.
    Space,
    /// A line end.
    LineEnd,
    /// A slash, between the parts of a path.
    Slash,
}

impl Separator {
    /// Whether a character separates.
    pub open spec fn is(self, c: char) -> bool {
        match self {
            Separator::Space => is_space(c),
            Separator::LineEnd => c == '\n',
            Separator::Slash => c == '/',
        }
    }

    fn matches(&self, c: char) -> (r: bool)
        ensures
            r == self.is(c),
    {
        match self {
            Separator::Space => is_whitespace(c),
            Separator::LineEnd => c == '\n',
            Separator::Slash => c == '/',
        }
    }
}

/// Where the piece that `i` lies in ends.
pub open spec fn piece_end(s: Seq<char>, sep: Separator, i: int) -> int
    decreases s.len() - i,
{
    if i < 0 || i >= s.len() || sep.is(s[i]) {
        i
    } else {
        piece_end(s, sep, i + 1)
    }
}

proof fn lemma_piece_end(s: Seq<char>, sep: Separator, i: int)
    requires
        0 <= i <= s.len(),
    ensures
        i <= piece_end(s, sep, i) <= s.len(),
        i < s.len() && !sep.is(s[i]) ==> i < piece_end(s, sep, i),
    decreases s.len() - i,
{
    if i < s.len() && !sep.is(s[i]) {
        lemma_piece_end(s, sep, i + 1);
    }
}

/// The pieces of a text from `i` on: its longest runs without a separator.
pub open spec fn pieces_from(s: Seq<char>, sep: Separator, i: int) -> Seq<Seq<char>>
    decreases s.len() - i,
    via pieces_from_decreases
{
    if i < 0 || i >= s.len() {
        Seq::empty()
    } else if sep.is(s[i]) {
        pieces_from(s, sep, i + 1)
    } else {
        let e = piece_end(s, sep, i);
        seq![s.subrange(i, e)] + pieces_from(s, sep, e)
    }
}

#[via_fn]
proof fn pieces_from_decreases(s: Seq<char>, sep: Separator, i: int) {
    if 0 <= i < s.len() {
        lemma_piece_end(s, sep, i);
    }
}

/// The pieces of a text.
pub open spec fn pieces(s: Seq<char>, sep: Separator) -> Seq<Seq<char>> {
    pieces_from(s, sep, 0)
}

/// What lists of characters say.
pub open spec fn char_views(v: Seq<Vec<char>>) -> Seq<Seq<char>> {
    Seq::new(v.len(), |i: int| v[i]@)
}

/// Takes a text apart.
pub fn split(s: &Vec<char>, sep: Separator) -> (r: Vec<Vec<char>>)
    ensures
        char_views(r@) == pieces(s@, sep),
{
    let mut r: Vec<Vec<char>> = Vec::new();
    let mut i: usize = 0;
    assert(char_views(r@) + pieces_from(s@, sep, 0) =~= pieces(s@, sep));
    while i < s.len()
        invariant
            i <= s@.len(),
            char_views(r@) + pieces_from(s@, sep, i as int) == pieces(s@, sep),
        decreases s@.len() - i,
    {
        if sep.matches(s[i]) {
            i += 1;
        } else {
            let ghost start = i as int;
            let ghost before = r@;
            let mut piece: Vec<char> = Vec::new();
            assert(piece@ =~= s@.subrange(start, i as int));
            while i < s.len() && !sep.matches(s[i])
                invariant
                    0 <= start <= i <= s@.len(),
                    piece@ == s@.subrange(start, i as int),
                    piece_end(s@, sep, start) == piece_end(s@, sep, i as int),
                decreases s@.len() - i,
            {
                piece.push(s[i]);
                assert(s@.subrange(start, i + 1) =~= s@.subrange(start, i as int).push(
                    s@[i as int],
                ));
                i += 1;
            }
            proof {
                lemma_piece_end(s@, sep, start);
            }
            let ghost found = piece@;
            r.push(piece);
            assert(char_views(r@) =~= char_views(before).push(found));
            assert(char_views(r@) + pieces_from(s@, sep, i as int) =~= char_views(before) + (
            seq![found] + pieces_from(s@, sep, i as int)));
        }
    }
    assert(char_views(r@) + pieces_from(s@, sep, i as int) =~= char_views(r@));
    r
}

/// `s` without the characters `c` at its start.
pub open spec fn without_leading(s: Seq<char>, c: char) -> Seq<char>
    decreases s.len(),
{
    if s.len() > 0 && s[0] == c {
        without_leading(s.drop_first(), c)
    } else {
        s
    }
}

/// The string with some characters.
pub fn string_of(v: &Vec<char>) -> (r: String)
    ensures
        r@ == v@,
{
    let mut s = String::new();
    push_chars(&mut s, v);
    assert(s@ =~= v@);
    s
}

/// Whether some characters are those of a string, from a place on.
pub fn equals_from(v: &Vec<char>, from: usize, s: &str) -> (r: bool)
    requires
        from <= v@.len(),
    ensures
        r == (v@.skip(from as int) == s@),
{
    let t = chars_of(s);
    let n: usize = v.len();
    if n - from != t.len() {
        assert(v@.skip(from as int).len() != s@.len());
        return false;
    }
    let mut i: usize = 0;
    while i < t.len()
        invariant
            i <= t@.len(),
            t@ == s@,
            from + t@.len() == n,
            n == v@.len(),
            forall|j: int| 0 <= j < i ==> v@[from + j] == #[trigger] t@[j],
        decreases t@.len() - i,
    {
        if v[from + i] != t[i] {
            assert(v@.skip(from as int)[i as int] != s@[i as int]);
            return false;
        }
        i += 1;
    }
    assert(v@.skip(from as int) =~= s@);
    true
}

/// The number that decimal digits stand for.
pub open spec fn decimal_value(s: Seq<char>) -> int
    decreases s.len(),
{
    if s.len() == 0 {
        0
    } else {
        decimal_value(s.drop_last()) * 10 + (s.last() as int - '0' as int)
    }
}

/// A number in decimal notation is read back as that number. It consists of
/// digits, and begins with a zero only where it is zero.
pub proof fn law_decimal_is_read_back(n: nat)
    ensures
        decimal_value(decimal(n)) == n,
        decimal(n).len() > 0,
        forall|i: int| 0 <= i < decimal(n).len() ==> '0' <= #[trigger] decimal(n)[i] <= '9',
        n > 0 ==> decimal(n)[0] != '0',
    decreases n,
{
    let s = decimal(n);
    if n < 10 {
        assert(s.drop_last() =~= Seq::<char>::empty());
        assert(decimal_value(s.drop_last()) == 0);
    } else {
        law_decimal_is_read_back(n / 10);
        assert(s.drop_last() =~= decimal(n / 10));
        assert(s[0] == decimal(n / 10)[0]);
    }
}

/// Trimming takes away the white space at the end, and nothing else.
pub proof fn law_trimmed_end_loses_white_space_alone(s: Seq<char>)
    ensures
        trimmed_end(s).len() <= s.len(),
        trimmed_end(s) == s.take(trimmed_end(s).len() as int),
        forall|i: int| trimmed_end(s).len() <= i < s.len() ==> is_space(#[trigger] s[i]),
        trimmed_end(s).len() > 0 ==> !is_space(trimmed_end(s).last()),
    decreases s.len(),
{
    if s.len() > 0 && is_space(s.last()) {
        law_trimmed_end_loses_white_space_alone(s.drop_last());
        let n = trimmed_end(s).len() as int;
        assert(s.drop_last().take(n) =~= s.take(n));
        assert forall|i: int| n <= i < s.len() implies is_space(#[trigger] s[i]) by {
            if i < s.len() - 1 {
                assert(s.drop_last()[i] == s[i]);
            }
        }
    } else {
        assert(s.take(s.len() as int) =~= s);
    }
}

/// Trimming takes away the white space at the start, and nothing else.
pub proof fn law_trimmed_start_loses_white_space_alone(s: Seq<char>)
    ensures
        trimmed_start(s).len() <= s.len(),
        trimmed_start(s) == s.skip(s.len() - trimmed_start(s).len()),
        forall|i: int| 0 <= i < s.len() - trimmed_start(s).len() ==> is_space(#[trigger] s[i]),
        trimmed_start(s).len() > 0 ==> !is_space(trimmed_start(s)[0]),
    decreases s.len(),
{
    if s.len() > 0 && is_space(s[0]) {
        let rest = s.drop_first();
        law_trimmed_start_loses_white_space_alone(rest);
        let n = s.len() - trimmed_start(s).len();
        assert(rest.skip(n - 1) =~= s.skip(n));
        assert forall|i: int| 0 <= i < n implies is_space(#[trigger] s[i]) by {
            if i > 0 {
                assert(rest[i - 1] == s[i]);
            }
        }
    } else {
        assert(s.skip(0) =~= s);
    }
}

proof fn lemma_piece_end_stops(s: Seq<char>, sep: Separator, i: int)
    requires
        0 <= i <= s.len(),
    ensures
        i <= piece_end(s, sep, i) <= s.len(),
        forall|j: int| i <= j < piece_end(s, sep, i) ==> !sep.is(#[trigger] s[j]),
        piece_end(s, sep, i) < s.len() ==> sep.is(s[piece_end(s, sep, i)]),
    decreases s.len() - i,
{
    if i < s.len() && !sep.is(s[i]) {
        lemma_piece_end_stops(s, sep, i + 1);
    }
}

proof fn lemma_pieces_of_whole(s: Seq<char>, sep: Separator, i: int, e: int)
    requires
        0 <= i <= e <= s.len(),
        forall|j: int| i <= j < e ==> !sep.is(#[trigger] s[j]),
        e == s.len() || sep.is(s[e]),
    ensures
        piece_end(s, sep, i) == e,
    decreases e - i,
{
    if i < e {
        lemma_pieces_of_whole(s, sep, i + 1, e);
    }
}

proof fn lemma_pieces_after(a: Seq<char>, b: Seq<char>, sep: Separator, i: int)
    requires
        0 <= i <= b.len(),
    ensures
        pieces_from(a + b, sep, a.len() + i) == pieces_from(b, sep, i),
    decreases b.len() - i,
{
    let all = a + b;
    if i < b.len() {
        assert(all[a.len() + i] == b[i]);
        if sep.is(b[i]) {
            lemma_pieces_after(a, b, sep, i + 1);
        } else {
            lemma_piece_end_stops(b, sep, i);
            let e = piece_end(b, sep, i);
            assert(e > i);
            assert forall|j: int| a.len() + i <= j < a.len() + e implies !sep.is(
                #[trigger] all[j],
            ) by {
                assert(all[j] == b[j - a.len()]);
            }
            if e < b.len() {
                assert(all[a.len() + e] == b[e]);
            }
            lemma_pieces_of_whole(all, sep, a.len() + i, a.len() + e);
            lemma_pieces_after(a, b, sep, e);
            assert(all.subrange(a.len() + i, a.len() + e) =~= b.subrange(i, e));
        }
    }
}

proof fn lemma_pieces_before(a: Seq<char>, c: char, b: Seq<char>, sep: Separator, i: int)
    requires
        0 <= i <= a.len(),
        sep.is(c),
    ensures
        pieces_from(a.push(c) + b, sep, i) == pieces_from(a, sep, i) + pieces(b, sep),
    decreases a.len() - i,
{
    let all = a.push(c) + b;
    if i < a.len() {
        assert(all[i] == a[i]);
        if sep.is(a[i]) {
            lemma_pieces_before(a, c, b, sep, i + 1);
        } else {
            lemma_piece_end_stops(a, sep, i);
            let e = piece_end(a, sep, i);
            assert forall|j: int| i <= j < e implies !sep.is(#[trigger] all[j]) by {
                assert(all[j] == a[j]);
            }
            if e < a.len() {
                assert(all[e] == a[e]);
            } else {
                assert(all[e] == c);
            }
            lemma_pieces_of_whole(all, sep, i, e);
            lemma_pieces_before(a, c, b, sep, e);
            assert(all.subrange(i, e) =~= a.subrange(i, e));
            assert(pieces_from(all, sep, i) =~= pieces_from(a, sep, i) + pieces(b, sep));
        }
    } else {
        assert(all[i] == c);
        lemma_pieces_after(a.push(c), b, sep, 0);
        assert(pieces_from(a, sep, i) + pieces(b, sep) =~= pieces(b, sep));
    }
}

/// Taking a text apart undoes putting texts together with a separator between
/// them, a text without a separator is one piece, and no text gives no piece.
pub proof fn law_pieces_are_what_is_between_separators(
    a: Seq<char>,
    c: char,
    b: Seq<char>,
    sep: Separator,
)
    requires
        sep.is(c),
    ensures
        pieces(a.push(c) + b, sep) == pieces(a, sep) + pieces(b, sep),
        a.len() > 0 && (forall|i: int| 0 <= i < a.len() ==> !sep.is(#[trigger] a[i])) ==> pieces(
            a,
            sep,
        ) == seq![a],
        a.len() == 0 ==> pieces(a, sep) == Seq::<Seq<char>>::empty(),
{
    lemma_pieces_before(a, c, b, sep, 0);
    if a.len() > 0 && (forall|i: int| 0 <= i < a.len() ==> !sep.is(#[trigger] a[i])) {
        let n = a.len() as int;
        lemma_pieces_of_whole(a, sep, 0, n);
        assert(a.subrange(0, n) =~= a);
        assert(pieces_from(a, sep, n) =~= Seq::<Seq<char>>::empty());
        assert(pieces(a, sep) =~= seq![a]);
    }
}

/// Leading characters are all taken away, and nothing else.
pub proof fn law_leading_characters_are_taken_away(s: Seq<char>, c: char)
    ensures
        without_leading(s, c).len() <= s.len(),
        without_leading(s, c) == s.skip(s.len() - without_leading(s, c).len()),
        forall|i: int| 0 <= i < s.len() - without_leading(s, c).len() ==> #[trigger] s[i] == c,
        without_leading(s, c).len() > 0 ==> without_leading(s, c)[0] != c,
    decreases s.len(),
{
    if s.len() > 0 && s[0] == c {
        let rest = s.drop_first();
        law_leading_characters_are_taken_away(rest, c);
        let n = s.len() - without_leading(s, c).len();
        assert(rest.skip(n - 1) =~= s.skip(n));
        assert forall|i: int| 0 <= i < n implies #[trigger] s[i] == c by {
            if i > 0 {
                assert(rest[i - 1] == s[i]);
            }
        }
    } else {
        assert(s.skip(0) =~= s);
    }
}

/// Blanks, tabulators and the ends of lines are white space; what is printed in
/// ASCII is not.
pub proof fn law_printed_characters_are_no_white_space(c: char)
    ensures
        c == ' ' || c == '\t' || c == '\n' || c == '\r' ==> is_space(c),
        '!' <= c <= '~' ==> !is_space(c),
{
}

/// A negative number has a minus sign before its digits, another has not.
pub proof fn law_sign_is_written_before(n: int)
    ensures
        n >= 0 ==> signed_decimal(n) == decimal(n as nat),
        n < 0 ==> signed_decimal(n)[0] == '-' && signed_decimal(n).skip(1) == decimal((-n) as nat),
{
    if n < 0 {
        assert(signed_decimal(n).skip(1) =~= decimal((-n) as nat));
    }
}

/// White space is what separates words, lines, paragraphs and pages: blanks of whatever
/// width, also those that do not break, tabs, and whatever ends a line. No letter, digit
/// or sign of ASCII is.
pub proof fn law_white_space_is_blank(c: char)
    ensures
        (c as int) < 0x80 ==> (is_space(c) <==> c == ' ' || c == '\t' || c == '\n' || c == '\u{b}'
            || c == '\u{c}' || c == '\r'),
        0x80 <= c as int <= 0x2fff ==> (is_space(c) <==> c == '\u{85}' || c == '\u{a0}' || c
            == '\u{1680}' || c == '\u{2028}' || c == '\u{2029}' || c == '\u{202f}' || c
            == '\u{205f}' || ('\u{2000}' <= c && c <= '\u{200a}')),
        0x3000 <= c as int ==> (is_space(c) <==> c == '\u{3000}'),
{
}

} // verus!
