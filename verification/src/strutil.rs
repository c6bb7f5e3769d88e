//! String utilities for the code generators: decimal formatting, joining,
//! line splitting and indenting, trimming, and the word predicates used to
//! classify binding expressions. Every function's result is pinned to a
//! specification over character sequences.

use vstd::prelude::*;
use vstd::string::StrSliceExecFns;
use vstd::string::StringExecFns;

verus! {

/// The character for one decimal digit.
pub open spec fn spec_digit_char(d: nat) -> char {
    if d == 0 {
        '0'
    } else if d == 1 {
        '1'
    } else if d == 2 {
        '2'
    } else if d == 3 {
        '3'
    } else if d == 4 {
        '4'
    } else if d == 5 {
        '5'
    } else if d == 6 {
        '6'
    } else if d == 7 {
        '7'
    } else if d == 8 {
        '8'
    } else {
        '9'
    }
}

/// The decimal representation of a number, most significant digit first.
pub open spec fn spec_dec(n: nat) -> Seq<char>
    decreases n,
{
    if n < 10 {
        seq![spec_digit_char(n)]
    } else {
        spec_dec(n / 10).push(spec_digit_char(n % 10))
    }
}

fn digit_to_str(d: u64) -> (r: &'static str)
    requires
        d < 10,
    ensures
        r@ =~= seq![spec_digit_char(d as nat)],
{
    proof {
        reveal_strlit("0");
        reveal_strlit("1");
        reveal_strlit("2");
        reveal_strlit("3");
        reveal_strlit("4");
        reveal_strlit("5");
        reveal_strlit("6");
        reveal_strlit("7");
        reveal_strlit("8");
        reveal_strlit("9");
    }
    match d {
        0 => "0",
        1 => "1",
        2 => "2",
        3 => "3",
        4 => "4",
        5 => "5",
        6 => "6",
        7 => "7",
        8 => "8",
        _ => "9",
    }
}

/// Formats a number in decimal.
pub fn u64_to_string(n: u64) -> (r: String)
    ensures
        r@ == spec_dec(n as nat),
    decreases n,
{
    if n < 10 {
        let r = String::from_str(digit_to_str(n));
        proof {
            assert(r@ =~= spec_dec(n as nat));
        }
        r
    } else {
        let mut s = u64_to_string(n / 10);
        s.append(digit_to_str(n % 10));
        proof {
            assert(s@ =~= spec_dec((n / 10) as nat).push(spec_digit_char((n % 10) as nat)));
        }
        s
    }
}

/// Formats a mask in decimal.
pub fn u32_to_string(n: u32) -> (r: String)
    ensures
        r@ == spec_dec(n as nat),
{
    u64_to_string(n as u64)
}

/// Joins the pieces with the separator between adjacent pieces.
pub open spec fn spec_join(items: Seq<Seq<char>>, sep: Seq<char>) -> Seq<char>
    decreases items.len(),
{
    if items.len() == 0 {
        Seq::empty()
    } else if items.len() == 1 {
        items[0]
    } else {
        spec_join(items.drop_last(), sep) + sep + items.last()
    }
}

/// Joins strings with a separator between adjacent entries.
pub fn join_strings(items: &Vec<String>, sep: &str) -> (r: String)
    ensures
        r@ == spec_join(items.deep_view(), sep@),
{
    if items.len() == 0 {
        let r = String::new();
        proof {
            assert(r@ =~= spec_join(items.deep_view(), sep@));
        }
        return r;
    }
    let mut r = items[0].clone();
    let mut i: usize = 1;
    while i < items.len()
        invariant
            1 <= i <= items@.len(),
            r@ == spec_join(items.deep_view().take(i as int), sep@),
        decreases items@.len() - i,
    {
        r.append(sep);
        r.append(items[i].as_str());
        i = i + 1;
        proof {
            assert(items.deep_view().take(i as int).drop_last() =~= items.deep_view().take(
                i as int - 1,
            ));
            assert(items.deep_view().take(i as int).last() == items@[i as int - 1]@);
        }
    }
    proof {
        assert(items.deep_view().take(items@.len() as int) =~= items.deep_view());
        assert(items.deep_view().take(1).drop_last() =~= Seq::<Seq<char>>::empty());
    }
    r
}

/// Splits a character sequence at every separator character, keeping empty
/// pieces; the result always has at least one piece.
pub open spec fn spec_split_char(s: Seq<char>, c: char) -> Seq<Seq<char>>
    decreases s.len(),
{
    if s.len() == 0 {
        seq![Seq::<char>::empty()]
    } else if s.last() == c {
        spec_split_char(s.drop_last(), c).push(Seq::<char>::empty())
    } else {
        let p = spec_split_char(s.drop_last(), c);
        p.update(p.len() - 1, p.last().push(s.last()))
    }
}

/// The lines of a text: pieces between newline characters, a trailing
/// newline yielding no final empty line.
pub open spec fn spec_lines(s: Seq<char>) -> Seq<Seq<char>> {
    if s.len() == 0 {
        Seq::empty()
    } else if s.last() == '\n' {
        spec_split_char(s.drop_last(), '\n')
    } else {
        spec_split_char(s, '\n')
    }
}

/// Splits a text into its lines.
pub fn split_lines(s: &str) -> (r: Vec<String>)
    ensures
        r.deep_view() == spec_lines(s@),
{
    let n = s.unicode_len();
    let mut r: Vec<String> = Vec::new();
    if n == 0 {
        proof {
            assert(r.deep_view() =~= spec_lines(s@));
        }
        return r;
    }
    let m: usize = if s.get_char(n - 1) == '\n' {
        n - 1
    } else {
        n
    };
    let ghost t = s@.take(m as int);
    proof {
        if s@.last() == '\n' {
            assert(t =~= s@.drop_last());
        } else {
            assert(t =~= s@);
        }
        assert(t.take(0) =~= Seq::<char>::empty());
        assert(s@.subrange(0, 0) =~= Seq::<char>::empty());
        assert(r.deep_view().push(s@.subrange(0, 0)) =~= spec_split_char(t.take(0), '\n'));
    }
    let mut start: usize = 0;
    let mut i: usize = 0;
    while i < m
        invariant
            0 <= start <= i <= m <= s@.len(),
            t == s@.take(m as int),
            spec_split_char(t.take(i as int), '\n') == r.deep_view().push(
                s@.subrange(start as int, i as int),
            ),
        decreases m - i,
    {
        let ghost prev = t.take(i as int);
        let ghost pieces = r.deep_view().push(s@.subrange(start as int, i as int));
        if s.get_char(i) == '\n' {
            r.push(String::from_str(s.substring_char(start, i)));
            start = i + 1;
            proof {
                assert(t.take(i as int + 1).drop_last() =~= prev);
                assert(t.take(i as int + 1).last() == '\n');
                assert(spec_split_char(t.take(i as int + 1), '\n') == pieces.push(
                    Seq::<char>::empty(),
                ));
                assert(r.deep_view() =~= pieces);
                assert(s@.subrange(start as int, i as int + 1) =~= Seq::<char>::empty());
                assert(r.deep_view().push(s@.subrange(start as int, i as int + 1)) =~= pieces.push(
                    Seq::<char>::empty(),
                ));
            }
        } else {
            proof {
                assert(t.take(i as int + 1).drop_last() =~= prev);
                assert(t.take(i as int + 1).last() == s@[i as int]);
                assert(pieces.last().push(s@[i as int]) =~= s@.subrange(start as int, i as int + 1));
                assert(pieces.update(pieces.len() - 1, s@.subrange(start as int, i as int + 1))
                    =~= r.deep_view().push(s@.subrange(start as int, i as int + 1)));
            }
        }
        i = i + 1;
    }
    r.push(String::from_str(s.substring_char(start, m)));
    proof {
        assert(t.take(m as int) =~= t);
        assert(s@.subrange(start as int, m as int) =~= t.subrange(start as int, m as int));
        assert(r.deep_view() =~= spec_split_char(t, '\n'));
    }
    r
}

/// A line as it appears in generated output: empty lines stay empty, others
/// get one level of indentation.
pub open spec fn spec_indent_line(l: Seq<char>) -> Seq<char> {
    if l.len() == 0 {
        l
    } else {
        "    "@ + l
    }
}

/// A block of text with every nonempty line indented one level.
pub open spec fn spec_create_indent(s: Seq<char>) -> Seq<char> {
    spec_join(spec_lines(s).map(|i: int, l: Seq<char>| spec_indent_line(l)), "\n"@)
}

/// Indents every nonempty line of a statement by one level.
pub fn create_indent(string: &str) -> (r: String)
    ensures
        r@ == spec_create_indent(string@),
{
    let lines = split_lines(string);
    let ghost mapped = spec_lines(string@).map(|i: int, l: Seq<char>| spec_indent_line(l));
    let mut out = String::new();
    let mut i: usize = 0;
    proof {
        assert(out@ =~= spec_join(mapped.take(0), "\n"@));
        assert(mapped.take(0) =~= Seq::<Seq<char>>::empty());
    }
    while i < lines.len()
        invariant
            0 <= i <= lines@.len(),
            lines.deep_view() == spec_lines(string@),
            mapped == spec_lines(string@).map(|i: int, l: Seq<char>| spec_indent_line(l)),
            out@ == spec_join(mapped.take(i as int), "\n"@),
        decreases lines@.len() - i,
    {
        if i != 0 {
            out.append("\n");
        }
        if lines[i].as_str().unicode_len() != 0 {
            out.append("    ");
        }
        out.append(lines[i].as_str());
        i = i + 1;
        proof {
            assert(mapped.take(i as int).drop_last() =~= mapped.take(i as int - 1));
            assert(mapped.take(i as int).last() == spec_indent_line(lines@[i as int - 1]@));
            if i == 1 {
                assert(out@ =~= spec_indent_line(lines@[0]@));
            } else {
                assert(out@ =~= spec_join(mapped.take(i as int - 1), "\n"@) + "\n"@
                    + spec_indent_line(lines@[i as int - 1]@));
            }
        }
    }
    proof {
        assert(mapped.take(lines@.len() as int) =~= mapped);
    }
    out
}

/// A whitespace character, for trimming binding expressions.
pub open spec fn spec_is_space(c: char) -> bool {
    c == ' ' || c == '\t' || c == '\n' || c == '\r'
}

/// The sequence without leading whitespace.
pub open spec fn spec_trim_start(s: Seq<char>) -> Seq<char>
    decreases s.len(),
{
    if s.len() > 0 && spec_is_space(s[0]) {
        spec_trim_start(s.drop_first())
    } else {
        s
    }
}

/// The sequence without trailing whitespace.
pub open spec fn spec_trim_end(s: Seq<char>) -> Seq<char>
    decreases s.len(),
{
    if s.len() > 0 && spec_is_space(s.last()) {
        spec_trim_end(s.drop_last())
    } else {
        s
    }
}

/// The sequence without leading or trailing whitespace.
pub open spec fn spec_trim(s: Seq<char>) -> Seq<char> {
    spec_trim_end(spec_trim_start(s))
}

/// Whether a character is whitespace.
pub fn is_space_char(c: char) -> (r: bool)
    ensures
        r == spec_is_space(c),
{
    c == ' ' || c == '\t' || c == '\n' || c == '\r'
}

/// An operator character: a maximal run of these forms one token.
pub open spec fn spec_is_op_char(c: char) -> bool {
    c == '=' || c == '!' || c == '<' || c == '>' || c == '&' || c == '|' || c == '+' || c == '-'
        || c == '*' || c == '/' || c == '%' || c == '^' || c == '~' || c == '?'
}

/// Whether a character is an operator character.
pub fn is_op_char(c: char) -> (r: bool)
    ensures
        r == spec_is_op_char(c),
{
    c == '=' || c == '!' || c == '<' || c == '>' || c == '&' || c == '|' || c == '+' || c == '-'
        || c == '*' || c == '/' || c == '%' || c == '^' || c == '~' || c == '?'
}

/// A string-literal quote character.
pub open spec fn spec_is_quote(c: char) -> bool {
    c == '\'' || c == '"'
}

/// Whether a character opens a quoted string literal.
pub fn is_quote_char(c: char) -> (r: bool)
    ensures
        r == spec_is_quote(c),
{
    c == '\'' || c == '"'
}

/// Removes leading and trailing whitespace.
pub fn trim_str(s: &str) -> (r: String)
    ensures
        r@ == spec_trim(s@),
{
    let n = s.unicode_len();
    let mut i: usize = 0;
    proof {
        assert(s@.skip(0) =~= s@);
    }
    while i < n && is_space_char(s.get_char(i))
        invariant
            0 <= i <= n == s@.len(),
            spec_trim_start(s@) == spec_trim_start(s@.skip(i as int)),
        decreases n - i,
    {
        proof {
            assert(s@.skip(i as int).drop_first() =~= s@.skip(i as int + 1));
        }
        i = i + 1;
    }
    proof {
        assert(spec_trim_start(s@.skip(i as int)) == s@.skip(i as int));
    }
    let mut j: usize = n;
    proof {
        assert(s@.subrange(i as int, j as int) =~= s@.skip(i as int));
    }
    while j > i && is_space_char(s.get_char(j - 1))
        invariant
            0 <= i <= j <= n == s@.len(),
            spec_trim_end(s@.skip(i as int)) == spec_trim_end(s@.subrange(i as int, j as int)),
        decreases j,
    {
        proof {
            assert(s@.subrange(i as int, j as int).drop_last() =~= s@.subrange(
                i as int,
                j as int - 1,
            ));
            assert(s@.subrange(i as int, j as int).last() == s@[j as int - 1]);
        }
        j = j - 1;
    }
    proof {
        assert(spec_trim_end(s@.subrange(i as int, j as int)) == s@.subrange(i as int, j as int));
    }
    String::from_str(s.substring_char(i, j))
}

/// A character that may appear in a one-word binding target: an ASCII
/// letter or digit, `_`, or `$`.
pub open spec fn spec_is_word_char(c: char) -> bool {
    (97 <= c as u32 && c as u32 <= 122) || (65 <= c as u32 && c as u32 <= 90) || (48 <= c as u32
        && c as u32 <= 57) || c == '_' || c == '$'
}

/// An ASCII letter or digit: the characters that words are made of when
/// searching a text for a variable name.
pub open spec fn spec_is_alnum(c: char) -> bool {
    (97 <= c as u32 && c as u32 <= 122) || (65 <= c as u32 && c as u32 <= 90) || (48 <= c as u32
        && c as u32 <= 57)
}

/// Whether a character may appear in a one-word binding target.
pub fn is_word_char(c: char) -> (r: bool)
    ensures
        r == spec_is_word_char(c),
{
    let u = c as u32;
    (97 <= u && u <= 122) || (65 <= u && u <= 90) || (48 <= u && u <= 57) || c == '_' || c == '$'
}

/// Whether a character is an ASCII letter or digit.
pub fn is_alnum_char(c: char) -> (r: bool)
    ensures
        r == spec_is_alnum(c),
{
    let u = c as u32;
    (97 <= u && u <= 122) || (65 <= u && u <= 90) || (48 <= u && u <= 57)
}

/// Every character of the word is a word character.
pub open spec fn spec_word_is_one_word(w: Seq<char>) -> bool {
    forall|k: int| 0 <= k < w.len() ==> spec_is_word_char(w[k])
}

/// Whether an event-binding expression is a single word, and so a reference
/// to a named handler function rather than an inline statement.
pub fn word_is_one_word(word: &str) -> (r: bool)
    ensures
        r == spec_word_is_one_word(word@),
{
    let n = word.unicode_len();
    let mut i: usize = 0;
    while i < n
        invariant
            0 <= i <= n == word@.len(),
            forall|k: int| 0 <= k < i ==> spec_is_word_char(word@[k]),
        decreases n - i,
    {
        if !is_word_char(word.get_char(i)) {
            return false;
        }
        i = i + 1;
    }
    true
}

/// Character-sequence equality of two string slices.
pub fn str_eq(a: &str, b: &str) -> (r: bool)
    ensures
        r == (a@ == b@),
{
    let n = a.unicode_len();
    if n != b.unicode_len() {
        return false;
    }
    let mut i: usize = 0;
    while i < n
        invariant
            0 <= i <= n == a@.len(),
            a@.len() == b@.len(),
            forall|k: int| 0 <= k < i ==> a@[k] == b@[k],
        decreases n - i,
    {
        if a.get_char(i) != b.get_char(i) {
            return false;
        }
        i = i + 1;
    }
    proof {
        assert(a@ =~= b@);
    }
    true
}

/// The maximal word pieces of a text, split wherever a character is not an
/// ASCII letter or digit.
pub open spec fn spec_word_pieces(t: Seq<char>) -> Seq<Seq<char>>
    decreases t.len(),
{
    if t.len() == 0 {
        seq![Seq::<char>::empty()]
    } else if !spec_is_alnum(t.last()) {
        spec_word_pieces(t.drop_last()).push(Seq::<char>::empty())
    } else {
        let p = spec_word_pieces(t.drop_last());
        p.update(p.len() - 1, p.last().push(t.last()))
    }
}

/// Whether the word occurs in the text as a maximal letter-and-digit run.
pub open spec fn spec_word_exists_in_text(w: Seq<char>, t: Seq<char>) -> bool {
    spec_word_pieces(t).contains(w)
}

/// Whether a variable name occurs in a text as a whole word: the text is cut
/// at every character that is not an ASCII letter or digit, and one of the
/// pieces must equal the word.
pub fn word_exists_in_text(word: &str, text: &str) -> (r: bool)
    ensures
        r == spec_word_exists_in_text(word@, text@),
{
    let n = text.unicode_len();
    let mut start: usize = 0;
    let mut i: usize = 0;
    let mut found = false;
    proof {
        assert(text@.take(0) =~= Seq::<char>::empty());
        assert(text@.subrange(0, 0) =~= Seq::<char>::empty());
    }
    while i < n
        invariant
            0 <= start <= i <= n == text@.len(),
            found == (exists|k: int|
                0 <= k < spec_word_pieces(text@.take(i as int)).len() - 1 && spec_word_pieces(
                    text@.take(i as int),
                )[k] == word@),
            spec_word_pieces(text@.take(i as int)).last() == text@.subrange(
                start as int,
                i as int,
            ),
            spec_word_pieces(text@.take(i as int)).len() >= 1,
        decreases n - i,
    {
        let ghost prev = spec_word_pieces(text@.take(i as int));
        proof {
            assert(text@.take(i as int + 1).drop_last() =~= text@.take(i as int));
            assert(text@.take(i as int + 1).last() == text@[i as int]);
        }
        if !is_alnum_char(text.get_char(i)) {
            let piece = text.substring_char(start, i);
            if str_eq(piece, word) {
                found = true;
            }
            start = i + 1;
            proof {
                let cur = spec_word_pieces(text@.take(i as int + 1));
                assert(cur == prev.push(Seq::<char>::empty()));
                assert(text@.subrange(start as int, i as int + 1) =~= Seq::<char>::empty());
                assert forall|k: int| 0 <= k < cur.len() - 1 implies cur[k] == prev[k] by {}
                if piece@ == word@ {
                    assert(cur[prev.len() - 1] == word@);
                }
            }
        } else {
            proof {
                let cur = spec_word_pieces(text@.take(i as int + 1));
                assert(cur == prev.update(prev.len() - 1, prev.last().push(text@[i as int])));
                assert(prev.last().push(text@[i as int]) =~= text@.subrange(
                    start as int,
                    i as int + 1,
                ));
                assert forall|k: int| 0 <= k < cur.len() - 1 implies cur[k] == prev[k] by {}
            }
        }
        i = i + 1;
    }
    let piece = text.substring_char(start, n);
    let last_match = str_eq(piece, word);
    proof {
        assert(text@.take(n as int) =~= text@);
        let pieces = spec_word_pieces(text@);
        if found || (piece@ == word@) {
            if found {
                let k = choose|k: int| 0 <= k < pieces.len() - 1 && pieces[k] == word@;
                assert(pieces[k] == word@);
            } else {
                assert(pieces.last() == word@);
            }
            assert(pieces.contains(word@));
        } else {
            assert forall|k: int| 0 <= k < pieces.len() implies pieces[k] != word@ by {
                if k < pieces.len() - 1 {
                } else {
                    assert(pieces[k] == pieces.last());
                }
            }
            if pieces.contains(word@) {
                let k = choose|k: int| 0 <= k < pieces.len() && pieces[k] == word@;
                assert(pieces[k] != word@);
            }
        }
    }
    found || last_match
}

/// Whether a list of names contains the given name.
pub open spec fn spec_contains_string(v: Seq<Seq<char>>, s: Seq<char>) -> bool {
    v.contains(s)
}

/// Whether a list of names contains the given name.
pub fn contains_string(v: &Vec<String>, s: &str) -> (r: bool)
    ensures
        r == spec_contains_string(v.deep_view(), s@),
{
    let mut i: usize = 0;
    while i < v.len()
        invariant
            0 <= i <= v@.len(),
            forall|k: int| 0 <= k < i ==> v.deep_view()[k] != s@,
        decreases v@.len() - i,
    {
        if str_eq(v[i].as_str(), s) {
            proof {
                assert(v.deep_view()[i as int] == s@);
            }
            return true;
        }
        i = i + 1;
    }
    proof {
        if v.deep_view().contains(s@) {
            let k = choose|k: int| 0 <= k < v.deep_view().len() && v.deep_view()[k] == s@;
            assert(v.deep_view()[k] != s@);
        }
    }
    false
}

/// Whether two lists of names hold the same names in the same order.
pub fn vec_string_eq(a: &Vec<String>, b: &Vec<String>) -> (r: bool)
    ensures
        r == (a.deep_view() == b.deep_view()),
{
    if a.len() != b.len() {
        proof {
            assert(a.deep_view().len() != b.deep_view().len());
        }
        return false;
    }
    let mut i: usize = 0;
    while i < a.len()
        invariant
            0 <= i <= a@.len(),
            a@.len() == b@.len(),
            forall|k: int| 0 <= k < i ==> a.deep_view()[k] == b.deep_view()[k],
        decreases a@.len() - i,
    {
        if !str_eq(a[i].as_str(), b[i].as_str()) {
            proof {
                assert(a.deep_view()[i as int] != b.deep_view()[i as int]);
            }
            return false;
        }
        i = i + 1;
    }
    proof {
        assert(a.deep_view() =~= b.deep_view());
    }
    true
}

/// A copy of a list of strings.
pub fn clone_string_vec(v: &Vec<String>) -> (r: Vec<String>)
    ensures
        r@ == v@,
        r.deep_view() == v.deep_view(),
{
    let mut r: Vec<String> = Vec::new();
    let mut i: usize = 0;
    while i < v.len()
        invariant
            0 <= i <= v@.len(),
            r@ =~= v@.take(i as int),
        decreases v@.len() - i,
    {
        r.push(v[i].clone());
        i = i + 1;
    }
    proof {
        assert(v@.take(v@.len() as int) =~= v@);
        assert(r@ =~= v@);
        assert(r.deep_view() =~= v.deep_view());
    }
    r
}

/// A copy of a list of indexes.
pub fn clone_usize_vec(v: &Vec<usize>) -> (r: Vec<usize>)
    ensures
        r@ == v@,
{
    let mut r: Vec<usize> = Vec::new();
    let mut i: usize = 0;
    while i < v.len()
        invariant
            0 <= i <= v@.len(),
            r@ =~= v@.take(i as int),
        decreases v@.len() - i,
    {
        r.push(v[i]);
        i = i + 1;
    }
    proof {
        assert(v@.take(v@.len() as int) =~= v@);
        assert(r@ =~= v@);
    }
    r
}

} // verus!
