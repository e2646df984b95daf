use vstd::prelude::*;

verus! {

/// `String::push` from std: appends one character at the end.
pub assume_specification[ String::push ](s: &mut String, ch: char)
    ensures
        final(s)@ == old(s)@.push(ch),
;

/// The characters of a string, in order.
pub fn chars_of(s: &str) -> (v: Vec<char>)
    ensures
        v@ == s@,
{
    let mut v: Vec<char> = Vec::new();
    for c in iter: s.chars()
        invariant
            iter.seq() == s@,
            v@ == s@.take(iter.index() as int),
    {
        assert(s@.take(iter.index() + 1) == s@.take(iter.index() as int).push(c));
        v.push(c);
    }
    assert(s@.take(s@.len() as int) == s@);
    v
}

/// Whether two strings hold the same characters.
pub fn str_eq(a: &str, b: &str) -> (r: bool)
    ensures
        r == (a@ == b@),
{
    let x = chars_of(a);
    let y = chars_of(b);
    if x.len() != y.len() {
        return false;
    }
    let mut i: usize = 0;
    while i < x.len()
        invariant
            x@ == a@,
            y@ == b@,
            x@.len() == y@.len(),
            i <= x@.len(),
            forall|j: int| 0 <= j < i ==> x@[j] == y@[j],
        decreases x@.len() - i,
    {
        if x[i] != y[i] {
            return false;
        }
        i = i + 1;
    }
    assert(x@ =~= y@);
    true
}

/// The views of a sequence of strings.
pub open spec fn views(v: Seq<String>) -> Seq<Seq<char>> {
    v.map_values(|s: String| s@)
}

/// The view of an optional string.
pub open spec fn opt_view(s: Option<String>) -> Option<Seq<char>> {
    match s {
        Some(x) => Some(x@),
        None => None,
    }
}

/// A character with ASCII upper case turned into lower case; others unchanged.
pub open spec fn ascii_lower(c: char) -> char {
    if 'A' <= c && c <= 'Z' {
        ((c as u32) + 32) as char
    } else {
        c
    }
}

/// `s` and `t` are equal once ASCII letters are folded to lower case.
pub open spec fn eq_ignore_ascii_case(s: Seq<char>, t: Seq<char>) -> bool {
    &&& s.len() == t.len()
    &&& forall|i: int| 0 <= i < s.len() ==> ascii_lower(#[trigger] s[i]) == ascii_lower(t[i])
}

fn lower_char(c: char) -> (r: char)
    ensures
        r == ascii_lower(c),
{
    if 'A' <= c && c <= 'Z' {
        let u: u32 = c as u32;
        let l: u8 = (u + 32) as u8;
        assert(l as u32 == u + 32);
        l as char
    } else {
        c
    }
}

/// Compares two strings, ignoring the case of ASCII letters.
pub fn str_eq_ignore_ascii_case(s: &str, t: &str) -> (r: bool)
    ensures
        r == eq_ignore_ascii_case(s@, t@),
{
    let n = s.unicode_len();
    let m = t.unicode_len();
    if n != m {
        return false;
    }
    let mut i: usize = 0;
    while i < n
        invariant
            n == s@.len(),
            m == t@.len(),
            n == m,
            i <= n,
            forall|j: int| 0 <= j < i ==> ascii_lower(#[trigger] s@[j]) == ascii_lower(t@[j]),
        decreases n - i,
    {
        if lower_char(s.get_char(i)) != lower_char(t.get_char(i)) {
            return false;
        }
        i = i + 1;
    }
    true
}


/// The character of a decimal digit.
pub open spec fn digit_char(d: int) -> char {
    if d == 0 {
        '0'
    } else if d == 1 {
        '1'
    } else if d == 2 {
        '2'
    } else if d == 3 {
        '3'
    } else if d == 4 {
        '4'
    } else if d == 5 {
        '5'
    } else if d == 6 {
        '6'
    } else if d == 7 {
        '7'
    } else if d == 8 {
        '8'
    } else {
        '9'
    }
}

/// The decimal representation of `n`, without sign or leading zeros.
pub open spec fn decimal(n: nat) -> Seq<char>
    decreases n,
{
    if n < 10 {
        seq![digit_char(n as int)]
    } else {
        decimal(n / 10).push(digit_char((n % 10) as int))
    }
}

fn digit_str(d: u64) -> (s: &'static str)
    requires
        d < 10,
    ensures
        s@ == seq![digit_char(d as int)],
{
    if d == 0 {
        proof { reveal_strlit("0"); }
        "0"
    } else if d == 1 {
        proof { reveal_strlit("1"); }
        "1"
    } else if d == 2 {
        proof { reveal_strlit("2"); }
        "2"
    } else if d == 3 {
        proof { reveal_strlit("3"); }
        "3"
    } else if d == 4 {
        proof { reveal_strlit("4"); }
        "4"
    } else if d == 5 {
        proof { reveal_strlit("5"); }
        "5"
    } else if d == 6 {
        proof { reveal_strlit("6"); }
        "6"
    } else if d == 7 {
        proof { reveal_strlit("7"); }
        "7"
    } else if d == 8 {
        proof { reveal_strlit("8"); }
        "8"
    } else {
        proof { reveal_strlit("9"); }
        "9"
    }
}

/// Appends the decimal representation of `n` to `out`.
pub fn push_decimal(out: &mut String, n: u64)
    ensures
        final(out)@ == old(out)@ + decimal(n as nat),
    decreases n,
{
    if n >= 10 {
        push_decimal(out, n / 10);
    }
    out.append(digit_str(n % 10));
    proof {
        if n >= 10 {
            assert(decimal(n as nat) == decimal((n / 10) as nat).push(digit_char((n % 10) as int)));
        }
    }
}

/// The decimal representation of `n` as a new string.
pub fn decimal_string(n: u64) -> (s: String)
    ensures
        s@ == decimal(n as nat),
{
    let mut s = String::new();
    push_decimal(&mut s, n);
    s
}

/// A line with one trailing carriage return removed, if it has one.
pub open spec fn strip_cr(line: Seq<char>) -> Seq<char> {
    if line.len() > 0 && line.last() == '\r' {
        line.drop_last()
    } else {
        line
    }
}

/// Reading `s` from the left: the non-empty lines that a line feed has ended
/// so far (each without its line feed and without one carriage return before
/// it), and the characters after the last line feed.
pub open spec fn line_scan(s: Seq<char>) -> (Seq<Seq<char>>, Seq<char>)
    decreases s.len(),
{
    if s.len() == 0 {
        (Seq::empty(), Seq::empty())
    } else {
        let (done, cur) = line_scan(s.drop_last());
        if s.last() == '\n' {
            let line = strip_cr(cur);
            (if line.len() > 0 { done.push(line) } else { done }, Seq::empty())
        } else {
            (done, cur.push(s.last()))
        }
    }
}

/// The non-empty lines of `s`: `s` split at line feeds, each line ended by a
/// line feed losing one carriage return before it; the text after the last
/// line feed is the last line, kept as it is.
pub open spec fn nonempty_lines(s: Seq<char>) -> Seq<Seq<char>> {
    let (done, cur) = line_scan(s);
    if cur.len() > 0 {
        done.push(cur)
    } else {
        done
    }
}

/// The non-empty lines of `text`, in order.
pub fn split_nonempty_lines(text: &str) -> (lines: Vec<String>)
    ensures
        views(lines@) == nonempty_lines(text@),
{
    let mut lines: Vec<String> = Vec::new();
    let mut cur = String::new();
    let mut pending_cr = false;
    for c in iter: text.chars()
        invariant
            iter.seq() == text@,
            ({
                let (done, scur) = line_scan(text@.take(iter.index() as int));
                &&& views(lines@) == done
                &&& scur == (if pending_cr { cur@.push('\r') } else { cur@ })
                &&& !pending_cr ==> (cur@.len() == 0 || cur@.last() != '\r')
            }),
    {
        let ghost prefix = text@.take(iter.index() as int);
        let ghost old_lines = views(lines@);
        proof {
            assert(text@.take(iter.index() + 1).drop_last() == prefix);
        }
        if c == '\n' {
            if pending_cr {
                assert(strip_cr(cur@.push('\r')) == cur@);
            }
            if cur.unicode_len() > 0 {
                let line = cur;
                lines.push(line);
                proof {
                    assert(views(lines@) == old_lines.push(line@));
                }
            }
            cur = String::new();
            pending_cr = false;
        } else if c == '\r' {
            if pending_cr {
                cur.push('\r');
            }
            pending_cr = true;
        } else {
            if pending_cr {
                cur.push('\r');
            }
            cur.push(c);
            pending_cr = false;
        }
    }
    proof {
        assert(text@.take(text@.len() as int) == text@);
    }
    if pending_cr {
        cur.push('\r');
    }
    if cur.unicode_len() > 0 {
        let ghost old_lines = views(lines@);
        let line = cur;
        lines.push(line);
        proof {
            assert(views(lines@) == old_lines.push(line@));
        }
    }
    lines
}

proof fn lemma_line_scan_shape(s: Seq<char>)
    ensures
        forall|i: int| 0 <= i < line_scan(s).0.len() ==> (#[trigger] line_scan(s).0[i]).len() > 0,
        forall|i: int| 0 <= i < line_scan(s).0.len() ==> !(#[trigger] line_scan(s).0[i]).contains('\n'),
        !line_scan(s).1.contains('\n'),
    decreases s.len(),
{
    if s.len() > 0 {
        lemma_line_scan_shape(s.drop_last());
        let (done, cur) = line_scan(s.drop_last());
        let c = s.last();
        if c == '\n' {
            let line = strip_cr(cur);
            assert forall|j: int| 0 <= j < line.len() implies line[j] != '\n' by {
                assert(line[j] == cur[j]);
            }
            if line.len() > 0 {
                assert forall|i: int| 0 <= i < done.push(line).len() implies !(
                #[trigger] done.push(line)[i]).contains('\n') by {
                    if i < done.len() {
                        assert(done.push(line)[i] == done[i]);
                    }
                }
            }
        } else {
            assert forall|j: int| 0 <= j < cur.push(c).len() implies cur.push(c)[j] != '\n' by {
                if j < cur.len() {
                    assert(cur.push(c)[j] == cur[j]);
                }
            }
        }
    }
}

/// Every line that `nonempty_lines` gives is non-empty and holds no line feed.
pub proof fn law_lines_are_nonempty(s: Seq<char>)
    ensures
        forall|i: int| 0 <= i < nonempty_lines(s).len() ==> (#[trigger] nonempty_lines(s)[i]).len() > 0,
        forall|i: int| 0 <= i < nonempty_lines(s).len() ==> !(#[trigger] nonempty_lines(s)[i]).contains('\n'),
{
    lemma_line_scan_shape(s);
}

/// The characters of Unicode's White_Space property, which `char::is_whitespace`
/// tests for.
pub open spec fn is_white_space(c: char) -> bool {
    ||| ('\u{9}' <= c && c <= '\u{D}')
    ||| c == ' '
    ||| c == '\u{85}'
    ||| c == '\u{A0}'
    ||| c == '\u{1680}'
    ||| ('\u{2000}' <= c && c <= '\u{200A}')
    ||| c == '\u{2028}'
    ||| c == '\u{2029}'
    ||| c == '\u{202F}'
    ||| c == '\u{205F}'
    ||| c == '\u{3000}'
}

fn white_space(c: char) -> (r: bool)
    ensures
        r == is_white_space(c),
{
    ('\u{9}' <= c && c <= '\u{D}') || c == ' ' || c == '\u{85}' || c == '\u{A0}' || c == '\u{1680}'
        || ('\u{2000}' <= c && c <= '\u{200A}') || c == '\u{2028}' || c == '\u{2029}' || c
        == '\u{202F}' || c == '\u{205F}' || c == '\u{3000}'
}

/// A request line holds nothing but white space; such lines are skipped.
pub fn is_blank(line: &str) -> (r: bool)
    ensures
        r == forall|i: int| 0 <= i < line@.len() ==> is_white_space(#[trigger] line@[i]),
{
    for c in iter: line.chars()
        invariant
            iter.seq() == line@,
            forall|i: int| 0 <= i < iter.index() ==> is_white_space(#[trigger] line@[i]),
    {
        if !white_space(c) {
            return false;
        }
    }
    true
}

} // verus!
