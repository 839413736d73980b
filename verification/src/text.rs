//! Character and string building blocks shared by every stage: decimal
//! rendering of integers, escaping, joining and line splitting.
use vstd::prelude::*;
use vstd::std_specs::iter::IteratorSpec;

verus! {

broadcast use vstd::string::group_string_axioms;

/// The decimal digit `d` (0..=9) as a character.
pub open spec fn digit_char(d: int) -> char {
    ((48 + d) as u32) as char
}

/// Decimal rendering of a natural number, most significant digit first.
pub open spec fn nat_digits(n: nat) -> Seq<char>
    decreases n,
{
    if n < 10 {
        seq![digit_char(n as int)]
    } else {
        nat_digits(n / 10).push(digit_char((n % 10) as int))
    }
}

/// Decimal rendering of a signed integer, with a leading `-` when negative.
pub open spec fn int_text(n: int) -> Seq<char> {
    if n < 0 {
        seq!['-'] + nat_digits((-n) as nat)
    } else {
        nat_digits(n as nat)
    }
}

/// `true` / `false` as text.
pub open spec fn bool_text(b: bool) -> Seq<char> {
    if b { "true"@ } else { "false"@ }
}

/// Appends one character to `s`.
#[verifier::external_body]
pub fn push_char(s: &mut String, c: char)
    ensures
        final(s)@ == old(s)@.push(c),
{
    s.push(c);
}

/// Appends a string slice to `s`.
pub fn push_str(s: &mut String, t: &str)
    ensures
        final(s)@ == old(s)@ + t@,
{
    s.append(t);
}

/// A fresh, empty string.
pub fn empty_string() -> (s: String)
    ensures
        s@ == Seq::<char>::empty(),
{
    String::new()
}

/// A string holding the characters of `t`.
pub fn to_owned_string(t: &str) -> (s: String)
    ensures
        s@ == t@,
{
    let mut s = String::new();
    s.append(t);
    assert(s@ =~= t@);
    s
}

/// A copy of `t`.
pub fn copy_string(t: &String) -> (s: String)
    ensures
        s@ == t@,
{
    t.clone()
}

/// A string holding exactly the characters of `v`.
pub fn string_from_chars(v: &Vec<char>) -> (s: String)
    ensures
        s@ == v@,
{
    let mut s = String::new();
    let mut i: usize = 0;
    while i < v.len()
        invariant
            i <= v.len(),
            s@ == v@.subrange(0, i as int),
        decreases v.len() - i,
    {
        push_char(&mut s, v[i]);
        i = i + 1;
        assert(s@ =~= v@.subrange(0, i as int));
    }
    assert(v@.subrange(0, v.len() as int) =~= v@);
    s
}

/// The characters of `t`, in order.
pub fn chars_of(t: &str) -> (v: Vec<char>)
    ensures
        v@ == t@,
{
    broadcast use vstd::string::next_postcondition;

    let mut v: Vec<char> = Vec::new();
    let mut it = t.chars();
    loop
        invariant
            it.obeys_prophetic_iter_laws(),
            v@ + it.remaining() == t@,
            it.decrease() is Some,
        decreases it.decrease()->0,
    {
        let ghost before = it.remaining();
        match it.next() {
            Some(c) => {
                v.push(c);
                assert(v@ + it.remaining() =~= t@);
            },
            None => {
                assert(v@ =~= t@);
                return v;
            },
        }
    }
}

/// Whether `a` and `b` hold the same characters.
pub fn str_eq(a: &str, b: &str) -> (r: bool)
    ensures
        r == (a@ == b@),
{
    let x = to_owned_string(a);
    let y = to_owned_string(b);
    x == y
}

/// Whether the string `a` and the slice `b` hold the same characters.
pub fn string_eq_str(a: &String, b: &str) -> (r: bool)
    ensures
        r == (a@ == b@),
{
    let y = to_owned_string(b);
    *a == y
}

fn digit_of(d: u64) -> (c: char)
    requires
        d < 10,
    ensures
        c == digit_char(d as int),
{
    let b: u8 = 48 + d as u8;
    b as char
}

/// Appends the decimal digits of `n`.
pub fn push_nat(out: &mut String, n: u64)
    ensures
        final(out)@ == old(out)@ + nat_digits(n as nat),
    decreases n,
{
    if n >= 10 {
        push_nat(out, n / 10);
    }
    let c = digit_of(n % 10);
    push_char(out, c);
    assert(final(out)@ =~= old(out)@ + nat_digits(n as nat)) by {
        reveal_with_fuel(nat_digits, 2);
    }
}

/// Appends the decimal digits of a 128-bit `n`.
pub fn push_u128(out: &mut String, n: u128)
    ensures
        final(out)@ == old(out)@ + nat_digits(n as nat),
    decreases n,
{
    if n >= 10 {
        push_u128(out, n / 10);
    }
    let c = digit_of((n % 10) as u64);
    push_char(out, c);
    assert(final(out)@ =~= old(out)@ + nat_digits(n as nat)) by {
        reveal_with_fuel(nat_digits, 2);
    }
}

/// Appends the decimal text of a signed integer.
pub fn push_int(out: &mut String, n: i64)
    ensures
        final(out)@ == old(out)@ + int_text(n as int),
{
    if n < 0 {
        push_char(out, '-');
        let mag: u64 = if n == i64::MIN {
            9223372036854775808u64
        } else {
            (-n) as u64
        };
        push_nat(out, mag);
        assert(final(out)@ =~= old(out)@ + int_text(n as int));
    } else {
        push_nat(out, n as u64);
    }
}

/// Decimal text of an unsigned integer.
pub fn nat_to_string(n: u64) -> (s: String)
    ensures
        s@ == nat_digits(n as nat),
{
    let mut s = String::new();
    push_nat(&mut s, n);
    assert(s@ =~= nat_digits(n as nat));
    s
}

/// Decimal text of a signed integer.
pub fn int_to_string(n: i64) -> (s: String)
    ensures
        s@ == int_text(n as int),
{
    let mut s = String::new();
    push_int(&mut s, n);
    assert(s@ =~= int_text(n as int));
    s
}

/// Decimal text of a `usize`.
pub fn usize_to_string(n: usize) -> (s: String)
    ensures
        s@ == nat_digits(n as nat),
{
    nat_to_string(n as u64)
}

/// `true` / `false` as a string.
pub fn bool_to_string(b: bool) -> (s: String)
    ensures
        s@ == bool_text(b),
{
    if b {
        to_owned_string("true")
    } else {
        to_owned_string("false")
    }
}

/// Hexadecimal digit (upper case) for `d` in 0..16.
pub open spec fn hex_digit(d: int) -> char {
    if d < 10 {
        digit_char(d)
    } else {
        ((55 + d) as u32) as char
    }
}

pub fn hex_digit_of(d: u32) -> (c: char)
    requires
        d < 16,
    ensures
        c == hex_digit(d as int),
{
    let b: u8 = if d < 10 { 48 + d as u8 } else { 55 + d as u8 };
    b as char
}

/// JSON escape of one character.
pub open spec fn json_escape_char(c: char) -> Seq<char> {
    if c == '"' {
        seq!['\\', '"']
    } else if c == '\\' {
        seq!['\\', '\\']
    } else if c == '\u{08}' {
        seq!['\\', 'b']
    } else if c == '\u{0C}' {
        seq!['\\', 'f']
    } else if c == '\n' {
        seq!['\\', 'n']
    } else if c == '\r' {
        seq!['\\', 'r']
    } else if c == '\t' {
        seq!['\\', 't']
    } else if (c as u32) < 0x20 {
        seq!['\\', 'u', '0', '0', hex_digit(((c as u32) / 16) as int), hex_digit(((c as u32) % 16) as int)]
    } else {
        seq![c]
    }
}

/// JSON string-body escape of a whole character sequence.
pub open spec fn json_escape(s: Seq<char>) -> Seq<char>
    decreases s.len(),
{
    if s.len() == 0 {
        Seq::empty()
    } else {
        json_escape(s.drop_last()) + json_escape_char(s.last())
    }
}

/// Appends the JSON escape of `t`.
pub fn push_json_escaped(out: &mut String, t: &str)
    ensures
        final(out)@ == old(out)@ + json_escape(t@),
{
    let v = chars_of(t);
    let ghost start = out@;
    let mut i: usize = 0;
    while i < v.len()
        invariant
            i <= v.len(),
            v@ == t@,
            out@ == start + json_escape(v@.subrange(0, i as int)),
        decreases v.len() - i,
    {
        let c = v[i];
        if c == '"' {
            push_char(out, '\\');
            push_char(out, '"');
        } else if c == '\\' {
            push_char(out, '\\');
            push_char(out, '\\');
        } else if c == '\u{08}' {
            push_char(out, '\\');
            push_char(out, 'b');
        } else if c == '\u{0C}' {
            push_char(out, '\\');
            push_char(out, 'f');
        } else if c == '\n' {
            push_char(out, '\\');
            push_char(out, 'n');
        } else if c == '\r' {
            push_char(out, '\\');
            push_char(out, 'r');
        } else if c == '\t' {
            push_char(out, '\\');
            push_char(out, 't');
        } else if (c as u32) < 0x20 {
            push_char(out, '\\');
            push_char(out, 'u');
            push_char(out, '0');
            push_char(out, '0');
            let hi = hex_digit_of((c as u32) / 16);
            let lo = hex_digit_of((c as u32) % 16);
            push_char(out, hi);
            push_char(out, lo);
        } else {
            push_char(out, c);
        }
        assert(v@.subrange(0, i + 1).drop_last() =~= v@.subrange(0, i as int));
        i = i + 1;
        assert(out@ =~= start + json_escape(v@.subrange(0, i as int)));
    }
    assert(v@.subrange(0, v.len() as int) =~= v@);
}

/// JSON escape of `t` as a new string.
pub fn escape_json_string(t: &str) -> (s: String)
    ensures
        s@ == json_escape(t@),
{
    let mut s = String::new();
    push_json_escaped(&mut s, t);
    assert(s@ =~= json_escape(t@));
    s
}

/// `parts` joined with `sep` between consecutive elements.
pub open spec fn join(parts: Seq<Seq<char>>, sep: Seq<char>) -> Seq<char>
    decreases parts.len(),
{
    if parts.len() == 0 {
        Seq::empty()
    } else if parts.len() == 1 {
        parts[0]
    } else {
        join(parts.drop_last(), sep) + sep + parts.last()
    }
}

/// Joining one more part.
pub proof fn lemma_join_push(parts: Seq<Seq<char>>, sep: Seq<char>, p: Seq<char>)
    ensures
        join(parts.push(p), sep) == if parts.len() == 0 {
            p
        } else {
            join(parts, sep) + sep + p
        },
{
    assert(parts.push(p).drop_last() =~= parts);
    if parts.len() == 0 {
        assert(parts.push(p)[0] == p);
    }
}

/// The parts one after another.
pub open spec fn concat(parts: Seq<Seq<char>>) -> Seq<char>
    decreases parts.len(),
{
    if parts.len() == 0 {
        Seq::empty()
    } else {
        concat(parts.drop_last()) + parts.last()
    }
}

/// Concatenating one more part.
pub proof fn lemma_concat_push(parts: Seq<Seq<char>>, p: Seq<char>)
    ensures
        concat(parts.push(p)) == concat(parts) + p,
{
    assert(parts.push(p).drop_last() =~= parts);
}

/// The views of a vector of strings.
pub open spec fn views(v: Seq<String>) -> Seq<Seq<char>> {
    v.map_values(|s: String| s@)
}

/// Appends `parts` joined by `sep`.
pub fn push_joined(out: &mut String, parts: &Vec<String>, sep: &str)
    ensures
        final(out)@ == old(out)@ + join(views(parts@), sep@),
{
    let ghost start = out@;
    let mut i: usize = 0;
    while i < parts.len()
        invariant
            i <= parts.len(),
            out@ == start + join(views(parts@.subrange(0, i as int)), sep@),
        decreases parts.len() - i,
    {
        if i > 0 {
            push_str(out, sep);
        }
        push_str(out, parts[i].as_str());
        proof {
            let pre = views(parts@.subrange(0, i as int));
            let post = views(parts@.subrange(0, i + 1));
            assert(post.drop_last() =~= pre);
            assert(post.last() == parts@[i as int]@);
            if i == 0 {
                assert(post =~= seq![parts@[0]@]);
            }
        }
        i = i + 1;
    }
    assert(parts@.subrange(0, parts.len() as int) =~= parts@);
}

/// `parts` joined by `sep`, as a new string.
pub fn join_strings(parts: &Vec<String>, sep: &str) -> (s: String)
    ensures
        s@ == join(views(parts@), sep@),
{
    let mut s = String::new();
    push_joined(&mut s, parts, sep);
    assert(s@ =~= join(views(parts@), sep@));
    s
}

/// The index of the first `c` in `s` at or after `from`, if any.
pub open spec fn find_from(s: Seq<char>, c: char, from: int) -> Option<int>
    decreases s.len() - from,
{
    if from >= s.len() || from < 0 {
        None
    } else if s[from] == c {
        Some(from)
    } else {
        find_from(s, c, from + 1)
    }
}

/// A line without its terminating carriage return (dropped only when the
/// line was ended by a newline).
pub open spec fn strip_cr(line: Seq<char>) -> Seq<char> {
    if line.len() > 0 && line.last() == '\r' {
        line.drop_last()
    } else {
        line
    }
}

/// The lines of `s` starting at `from`, as `str::lines` yields them: split at
/// `\n`, a `\r` right before the `\n` removed, no empty line after a final
/// newline.
pub open spec fn lines_from(s: Seq<char>, from: int) -> Seq<Seq<char>>
    decreases s.len() - from,
{
    if from < 0 || from >= s.len() {
        Seq::empty()
    } else {
        match find_from(s, '\n', from) {
            None => seq![s.subrange(from, s.len() as int)],
            Some(i) => {
                if i < from || i >= s.len() {
                    Seq::empty()
                } else {
                    seq![strip_cr(s.subrange(from, i))] + lines_from(s, i + 1)
                }
            },
        }
    }
}

pub proof fn lemma_find_from_bounds(s: Seq<char>, c: char, from: int)
    requires
        0 <= from,
    ensures
        find_from(s, c, from) matches Some(i) ==> from <= i < s.len() && s[i] == c,
        find_from(s, c, from) is None ==> forall|k: int| from <= k < s.len() ==> s[k] != c,
    decreases s.len() - from,
{
    if from >= s.len() || from < 0 {
    } else if s[from] == c {
    } else {
        lemma_find_from_bounds(s, c, from + 1);
    }
}

/// The lines of `t`, as `str::lines` yields them.
pub fn split_lines(t: &str) -> (lines: Vec<String>)
    ensures
        views(lines@) == lines_from(t@, 0),
{
    let v = chars_of(t);
    let mut lines: Vec<String> = Vec::new();
    let mut start: usize = 0;
    let mut current: Vec<char> = Vec::new();
    let mut i: usize = 0;
    proof {
        lemma_find_from_bounds(v@, '\n', 0);
    }
    while i < v.len()
        invariant
            v@ == t@,
            start <= i <= v.len(),
            current@ == v@.subrange(start as int, i as int),
            forall|k: int| start <= k < i ==> v@[k] != '\n',
            views(lines@) + lines_from(v@, start as int) == lines_from(v@, 0),
        decreases v.len() - i,
    {
        if v[i] == '\n' {
            proof {
                lemma_find_from_bounds(v@, '\n', start as int);
                assert(find_from(v@, '\n', start as int) == Some(i as int)) by {
                    lemma_find_first(v@, '\n', start as int, i as int);
                }
            }
            let mut line = current;
            if line.len() > 0 && line[line.len() - 1] == '\r' {
                line.pop();
            }
            let s = string_from_chars(&line);
            let ghost old_lines = views(lines@);
            lines.push(s);
            proof {
                assert(s@ == strip_cr(v@.subrange(start as int, i as int)));
                assert(views(lines@) =~= old_lines.push(s@));
                assert(lines_from(v@, start as int) =~= seq![s@] + lines_from(v@, i + 1));
                assert(views(lines@) + lines_from(v@, i + 1) =~= old_lines + lines_from(
                    v@,
                    start as int,
                ));
            }
            current = Vec::new();
            i = i + 1;
            start = i;
            assert(current@ =~= v@.subrange(start as int, i as int));
        } else {
            current.push(v[i]);
            i = i + 1;
            assert(current@ =~= v@.subrange(start as int, i as int));
        }
    }
    if start < v.len() {
        proof {
            lemma_find_from_bounds(v@, '\n', start as int);
            assert(find_from(v@, '\n', start as int) is None) by {
                lemma_no_find(v@, '\n', start as int);
            }
        }
        let s = string_from_chars(&current);
        let ghost old_lines = views(lines@);
        lines.push(s);
        proof {
            assert(views(lines@) =~= old_lines.push(s@));
            assert(lines_from(v@, start as int) =~= seq![s@]);
        }
    } else {
        assert(lines_from(v@, start as int) =~= Seq::<Seq<char>>::empty());
        assert(views(lines@) + lines_from(v@, start as int) =~= views(lines@));
    }
    lines
}

proof fn lemma_find_first(s: Seq<char>, c: char, from: int, i: int)
    requires
        0 <= from <= i < s.len(),
        s[i] == c,
        forall|k: int| from <= k < i ==> s[k] != c,
    ensures
        find_from(s, c, from) == Some(i),
    decreases i - from,
{
    if from < i {
        lemma_find_first(s, c, from + 1, i);
    }
}

proof fn lemma_no_find(s: Seq<char>, c: char, from: int)
    requires
        0 <= from,
        forall|k: int| from <= k < s.len() ==> s[k] != c,
    ensures
        find_from(s, c, from) is None,
    decreases s.len() - from,
{
    if from < s.len() {
        lemma_no_find(s, c, from + 1);
    }
}

} // verus!

verus! {

/// Whether `c` is white space, as `char::is_whitespace` defines it (the
/// Unicode `White_Space` property).
pub open spec fn is_space(c: char) -> bool {
    let u = c as u32;
    (0x9 <= u <= 0xD) || u == 0x20 || u == 0x85 || u == 0xA0 || u == 0x1680 || (0x2000 <= u
        <= 0x200A) || u == 0x2028 || u == 0x2029 || u == 0x202F || u == 0x205F || u == 0x3000
}

/// Whether `c` is white space.
pub fn char_is_space(c: char) -> (r: bool)
    ensures
        r == is_space(c),
{
    let u = c as u32;
    (0x9 <= u && u <= 0xD) || u == 0x20 || u == 0x85 || u == 0xA0 || u == 0x1680 || (0x2000 <= u
        && u <= 0x200A) || u == 0x2028 || u == 0x2029 || u == 0x202F || u == 0x205F || u == 0x3000
}

/// The index of the first character at or after `from` that is not white
/// space (`s.len()` when there is none).
pub open spec fn first_non_space(s: Seq<char>, from: int) -> int
    decreases s.len() - from,
{
    if from >= s.len() {
        s.len() as int
    } else if !is_space(s[from]) {
        from
    } else {
        first_non_space(s, from + 1)
    }
}

/// One past the index of the last character before `end` that is not white
/// space (`0` when there is none).
pub open spec fn last_non_space_end(s: Seq<char>, end: int) -> int
    decreases end,
{
    if end <= 0 {
        0
    } else if !is_space(s[end - 1]) {
        end
    } else {
        last_non_space_end(s, end - 1)
    }
}

/// `s` without leading and trailing white space.
pub open spec fn trim(s: Seq<char>) -> Seq<char> {
    let a = first_non_space(s, 0);
    let b = last_non_space_end(s, s.len() as int);
    if a < b {
        s.subrange(a, b)
    } else {
        Seq::empty()
    }
}

/// The characters of `v[from..to]` as a string.
pub fn string_of_range(v: &Vec<char>, from: usize, to: usize) -> (s: String)
    requires
        from <= to <= v@.len(),
    ensures
        s@ == v@.subrange(from as int, to as int),
{
    let mut s = String::new();
    let mut i = from;
    while i < to
        invariant
            from <= i <= to,
            to <= v@.len(),
            s@ == v@.subrange(from as int, i as int),
        decreases to - i,
    {
        push_char(&mut s, v[i]);
        i = i + 1;
        assert(s@ =~= v@.subrange(from as int, i as int));
    }
    s
}

/// `t` without leading and trailing white space.
pub fn trim_string(t: &str) -> (s: String)
    ensures
        s@ == trim(t@),
{
    let v = chars_of(t);
    let mut a: usize = 0;
    while a < v.len() && char_is_space(v[a])
        invariant
            a <= v@.len(),
            v@ == t@,
            first_non_space(v@, 0) == first_non_space(v@, a as int),
        decreases v.len() - a,
    {
        a = a + 1;
    }
    let mut b: usize = v.len();
    while b > 0 && char_is_space(v[b - 1])
        invariant
            b <= v@.len(),
            v@ == t@,
            last_non_space_end(v@, v@.len() as int) == last_non_space_end(v@, b as int),
        decreases b,
    {
        b = b - 1;
    }
    if a < b {
        string_of_range(&v, a, b)
    } else {
        String::new()
    }
}

/// `s` split at its first `c`: the part before it, and the part after it
/// when `c` occurs.
pub open spec fn split_once(s: Seq<char>, c: char) -> (Seq<char>, Option<Seq<char>>) {
    match find_from(s, c, 0) {
        Some(i) => (s.subrange(0, i), Some(s.subrange(i + 1, s.len() as int))),
        None => (s, None),
    }
}

/// `t` split at its first `c`.
pub fn split_once_at(t: &str, c: char) -> (r: (String, Option<String>))
    ensures
        r.0@ == split_once(t@, c).0,
        r.1 matches Some(x) ==> split_once(t@, c).1 == Some(x@),
        r.1 is None ==> split_once(t@, c).1 is None,
{
    let v = chars_of(t);
    let mut i: usize = 0;
    while i < v.len()
        invariant
            i <= v@.len(),
            v@ == t@,
            find_from(v@, c, 0) == find_from(v@, c, i as int),
        decreases v.len() - i,
    {
        if v[i] == c {
            let before = string_of_range(&v, 0, i);
            let after = string_of_range(&v, i + 1, v.len());
            return (before, Some(after));
        }
        i = i + 1;
    }
    assert(v@.subrange(0, v@.len() as int) =~= v@);
    (string_of_range(&v, 0, v.len()), None)
}

/// Whether `t` has no characters.
pub fn is_empty_text(t: &str) -> (r: bool)
    ensures
        r == (t@.len() == 0),
{
    chars_of(t).len() == 0
}

/// Lexicographic order of character sequences, by code point (the order of
/// `str`'s `Ord`, which compares UTF-8 bytes).
pub open spec fn text_le(a: Seq<char>, b: Seq<char>) -> bool
    decreases a.len(),
{
    if a.len() == 0 {
        true
    } else if b.len() == 0 {
        false
    } else if a[0] != b[0] {
        (a[0] as u32) < (b[0] as u32)
    } else {
        text_le(a.drop_first(), b.drop_first())
    }
}

/// Strictly before, in lexicographic order.
pub open spec fn text_lt(a: Seq<char>, b: Seq<char>) -> bool {
    text_le(a, b) && a != b
}

/// Whether `a` comes before `b` or equals it, lexicographically.
pub fn text_less_eq(a: &str, b: &str) -> (r: bool)
    ensures
        r == text_le(a@, b@),
{
    let x = chars_of(a);
    let y = chars_of(b);
    let mut i: usize = 0;
    assert(a@.skip(0) =~= a@);
    assert(b@.skip(0) =~= b@);
    while i < x.len() && i < y.len() && x[i] == y[i]
        invariant
            i <= x@.len(),
            i <= y@.len(),
            x@ == a@,
            y@ == b@,
            text_le(a@, b@) == text_le(a@.skip(i as int), b@.skip(i as int)),
        decreases x.len() - i,
    {
        assert(a@.skip(i as int).drop_first() =~= a@.skip(i + 1));
        assert(b@.skip(i as int).drop_first() =~= b@.skip(i + 1));
        i = i + 1;
    }
    if i == x.len() {
        true
    } else if i == y.len() {
        false
    } else {
        (x[i] as u32) < (y[i] as u32)
    }
}

/// Whether `a` comes strictly before `b`, lexicographically.
pub fn text_less(a: &str, b: &str) -> (r: bool)
    ensures
        r == text_lt(a@, b@),
{
    text_less_eq(a, b) && !str_eq(a, b)
}

/// `x` inserted before the first entry whose key follows its key (after
/// the entries with an equal key).
pub open spec fn insert_keyed<V>(s: Seq<(Seq<char>, V)>, x: (Seq<char>, V)) -> Seq<(Seq<char>, V)>
    decreases s.len(),
{
    if s.len() == 0 {
        seq![x]
    } else if text_lt(x.0, s[0].0) {
        seq![x] + s
    } else {
        seq![s[0]] + insert_keyed(s.drop_first(), x)
    }
}

/// The entries sorted by key, entries with equal keys in their original
/// order.
pub open spec fn sort_keyed<V>(s: Seq<(Seq<char>, V)>) -> Seq<(Seq<char>, V)>
    decreases s.len(),
{
    if s.len() == 0 {
        Seq::empty()
    } else {
        insert_keyed(sort_keyed(s.drop_last()), s.last())
    }
}

pub proof fn lemma_insert_keyed_at<V>(s: Seq<(Seq<char>, V)>, x: (Seq<char>, V), p: int)
    requires
        0 <= p <= s.len(),
        forall|k: int| 0 <= k < p ==> !text_lt(x.0, s[k].0),
        p < s.len() ==> text_lt(x.0, s[p].0),
    ensures
        insert_keyed(s, x) == s.insert(p, x),
    decreases s.len(),
{
    if s.len() == 0 {
        assert(s.insert(p, x) =~= seq![x]);
    } else if p == 0 {
        assert(s.insert(0, x) =~= seq![x] + s);
    } else {
        let d = s.drop_first();
        assert forall|k: int| 0 <= k < p - 1 implies !text_lt(x.0, d[k].0) by {
            assert(d[k] == s[k + 1]);
        }
        lemma_insert_keyed_at(d, x, p - 1);
        assert(s.insert(p, x) =~= seq![s[0]] + d.insert(p - 1, x));
    }
}

/// `x` inserted before the first text that follows it.
pub open spec fn insert_text(s: Seq<Seq<char>>, x: Seq<char>) -> Seq<Seq<char>>
    decreases s.len(),
{
    if s.len() == 0 {
        seq![x]
    } else if text_lt(x, s[0]) {
        seq![x] + s
    } else {
        seq![s[0]] + insert_text(s.drop_first(), x)
    }
}

/// The texts in lexicographic order.
pub open spec fn sort_texts(s: Seq<Seq<char>>) -> Seq<Seq<char>>
    decreases s.len(),
{
    if s.len() == 0 {
        Seq::empty()
    } else {
        insert_text(sort_texts(s.drop_last()), s.last())
    }
}

proof fn lemma_insert_text_at(s: Seq<Seq<char>>, x: Seq<char>, p: int)
    requires
        0 <= p <= s.len(),
        forall|k: int| 0 <= k < p ==> !text_lt(x, s[k]),
        p < s.len() ==> text_lt(x, s[p]),
    ensures
        insert_text(s, x) == s.insert(p, x),
    decreases s.len(),
{
    if s.len() == 0 {
        assert(s.insert(p, x) =~= seq![x]);
    } else if p == 0 {
        assert(s.insert(0, x) =~= seq![x] + s);
    } else {
        let d = s.drop_first();
        assert forall|k: int| 0 <= k < p - 1 implies !text_lt(x, d[k]) by {
            assert(d[k] == s[k + 1]);
        }
        lemma_insert_text_at(d, x, p - 1);
        assert(s.insert(p, x) =~= seq![s[0]] + d.insert(p - 1, x));
    }
}

/// The strings in lexicographic order.
pub fn sorted_strings(v: &Vec<String>) -> (out: Vec<String>)
    ensures
        views(out@) == sort_texts(views(v@)),
{
    let mut out: Vec<String> = Vec::new();
    let mut i: usize = 0;
    while i < v.len()
        invariant
            i <= v.len(),
            views(out@) == sort_texts(views(v@.take(i as int))),
        decreases v.len() - i,
    {
        let x = v[i].as_str();
        let mut p: usize = 0;
        while p < out.len() && !text_less(x, out[p].as_str())
            invariant
                p <= out.len(),
                forall|k: int| 0 <= k < p ==> !text_lt(x@, out@[k]@),
            decreases out.len() - p,
        {
            p = p + 1;
        }
        let ghost before = views(out@);
        proof {
            assert forall|k: int| 0 <= k < p implies !text_lt(x@, before[k]) by {
                assert(before[k] == out@[k]@);
            }
            if p < out.len() {
                assert(before[p as int] == out@[p as int]@);
            }
            lemma_insert_text_at(before, x@, p as int);
        }
        out.insert(p, copy_string(&v[i]));
        proof {
            assert(views(out@) =~= before.insert(p as int, x@));
            let t1 = views(v@.take(i + 1));
            assert(t1.drop_last() =~= views(v@.take(i as int)));
            assert(t1.last() == x@);
        }
        i = i + 1;
    }
    assert(v@.take(v.len() as int) =~= v@);
    out
}

} // verus!
