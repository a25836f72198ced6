//! Text as sequences of characters: the slicing, splitting and escaping that
//! path rules, listings and messages are written in.

use vstd::prelude::*;

verus! {

broadcast use vstd::seq::group_seq_axioms;

/// The views of the elements of a sequence.
pub open spec fn views<T: View>(s: Seq<T>) -> Seq<T::V> {
    Seq::new(s.len(), |i: int| s[i]@)
}

/// `String::push` appends one character to the end of the string.
pub assume_specification[ String::push ](s: &mut String, c: char)
    ensures
        final(s)@ == old(s)@.push(c),
;

/// The characters of a string, in order.
pub fn chars_of(s: &str) -> (out: Vec<char>)
    ensures
        out@ == s@,
{
    let mut out: Vec<char> = Vec::new();
    for c in it: s.chars()
        invariant
            out@ == it.seq().take(it.index() as int),
            it.seq() == s@,
    {
        out.push(c);
    }
    out
}

/// The string with the given characters.
pub fn string_of(chars: &Vec<char>, from: usize, to: usize) -> (out: String)
    requires
        from <= to <= chars@.len(),
    ensures
        out@ == chars@.subrange(from as int, to as int),
{
    let mut out = String::new();
    let mut i: usize = from;
    while i < to
        invariant
            from <= i <= to <= chars@.len(),
            out@ == chars@.subrange(from as int, i as int),
        decreases to - i,
    {
        out.push(chars[i]);
        i += 1;
    }
    out
}

/// Whether two strings hold the same characters.
pub fn same(a: &str, b: &str) -> (out: bool)
    ensures
        out == (a@ == b@),
{
    a.to_owned() == b.to_owned()
}

/// Whether `s` holds the character `c`.
pub fn contains_char(s: &str, c: char) -> (out: bool)
    ensures
        out == s@.contains(c),
{
    let chars = chars_of(s);
    let mut i: usize = 0;
    while i < chars.len()
        invariant
            i <= chars@.len(),
            chars@ == s@,
            forall|k: int| 0 <= k < i ==> s@[k] != c,
        decreases chars.len() - i,
    {
        if chars[i] == c {
            assert(s@[i as int] == c);
            return true;
        }
        i += 1;
    }
    false
}

/// Whether `s` starts with `prefix`.
pub fn starts_with(s: &str, prefix: &str) -> (out: bool)
    ensures
        out == prefix@.is_prefix_of(s@),
{
    let a = chars_of(s);
    let b = chars_of(prefix);
    if b.len() > a.len() {
        return false;
    }
    let mut i: usize = 0;
    while i < b.len()
        invariant
            i <= b@.len() <= a@.len(),
            a@ == s@,
            b@ == prefix@,
            forall|k: int| 0 <= k < i ==> a@[k] == b@[k],
        decreases b.len() - i,
    {
        if a[i] != b[i] {
            assert(prefix@[i as int] != s@.subrange(0, prefix@.len() as int)[i as int]);
            return false;
        }
        i += 1;
    }
    assert(prefix@ =~= s@.subrange(0, prefix@.len() as int));
    true
}

/// What follows `prefix` in `s`, where `s` starts with it.
pub open spec fn stripped(s: Seq<char>, prefix: Seq<char>) -> Option<Seq<char>> {
    if prefix.is_prefix_of(s) {
        Some(s.skip(prefix.len() as int))
    } else {
        None
    }
}

/// What follows `prefix` in `s`, where `s` starts with it.
pub fn strip_prefix(s: &str, prefix: &str) -> (out: Option<String>)
    ensures
        match out {
            Some(rest) => stripped(s@, prefix@) == Some(rest@),
            None => stripped(s@, prefix@) is None,
        },
{
    if starts_with(s, prefix) {
        let chars = chars_of(s);
        let skipped = chars_of(prefix);
        let rest = string_of(&chars, skipped.len(), chars.len());
        assert(rest@ =~= s@.skip(prefix@.len() as int));
        Some(rest)
    } else {
        None
    }
}

/// `s` without the slashes at its end.
pub open spec fn trim_end(s: Seq<char>) -> Seq<char>
    decreases s.len(),
{
    if s.len() > 0 && s.last() == '/' {
        trim_end(s.drop_last())
    } else {
        s
    }
}

/// What was trimmed does not end in a slash.
pub proof fn trim_end_is_trimmed(s: Seq<char>)
    ensures
        trim_end(s).len() > 0 ==> trim_end(s).last() != '/',
        trim_end(s).is_prefix_of(s),
    decreases s.len(),
{
    if s.len() > 0 && s.last() == '/' {
        trim_end_is_trimmed(s.drop_last());
        let t = trim_end(s);
        assert(t =~= s.subrange(0, t.len() as int)) by {
            assert(t == s.drop_last().subrange(0, t.len() as int));
        }
    } else {
        assert(s.subrange(0, s.len() as int) =~= s);
    }
}

/// Trimming keeps all up to a character that is no slash.
pub proof fn trim_end_keeps_what_is_no_slash(s: Seq<char>, at: int)
    requires
        0 <= at < s.len(),
        s[at] != '/',
    ensures
        at < trim_end(s).len(),
    decreases s.len(),
{
    if s.last() == '/' {
        trim_end_keeps_what_is_no_slash(s.drop_last(), at);
    }
}

/// `s` without the slashes at its start.
pub open spec fn trim_start(s: Seq<char>) -> Seq<char>
    decreases s.len(),
{
    if s.len() > 0 && s[0] == '/' {
        trim_start(s.skip(1))
    } else {
        s
    }
}

/// `s` without the slashes at its end.
pub fn trim_end_slashes(s: &str) -> (out: String)
    ensures
        out@ == trim_end(s@),
{
    let chars = chars_of(s);
    let mut end: usize = chars.len();
    assert(chars@.take(end as int) =~= s@);
    while end > 0 && chars[end - 1] == '/'
        invariant
            end <= chars@.len(),
            trim_end(chars@.take(end as int)) == trim_end(s@),
        decreases end,
    {
        assert(chars@.take(end as int).drop_last() =~= chars@.take(end - 1));
        end -= 1;
    }
    let out = string_of(&chars, 0, end);
    assert(out@ =~= chars@.take(end as int));
    out
}

/// `s` without the slashes at its start.
pub fn trim_start_slashes(s: &str) -> (out: String)
    ensures
        out@ == trim_start(s@),
{
    let chars = chars_of(s);
    let mut start: usize = 0;
    assert(chars@.skip(0) =~= s@);
    while start < chars.len() && chars[start] == '/'
        invariant
            start <= chars@.len(),
            trim_start(chars@.skip(start as int)) == trim_start(s@),
        decreases chars.len() - start,
    {
        assert(chars@.skip(start as int).skip(1) =~= chars@.skip(start + 1));
        start += 1;
    }
    let out = string_of(&chars, start, chars.len());
    assert(out@ =~= chars@.skip(start as int));
    out
}

/// `s` without the `./` pairs at its start.
pub open spec fn trim_dot_slash(s: Seq<char>) -> Seq<char>
    decreases s.len(),
{
    if s.len() >= 2 && s[0] == '.' && s[1] == '/' {
        trim_dot_slash(s.skip(2))
    } else {
        s
    }
}

/// What was trimmed does not start with a dot and a slash.
pub proof fn trim_dot_slash_is_trimmed(s: Seq<char>)
    ensures
        !(trim_dot_slash(s).len() >= 2 && trim_dot_slash(s)[0] == '.' && trim_dot_slash(s)[1]
            == '/'),
    decreases s.len(),
{
    if s.len() >= 2 && s[0] == '.' && s[1] == '/' {
        trim_dot_slash_is_trimmed(s.skip(2));
    }
}

/// What was trimmed is the end of what it was trimmed from.
pub proof fn trim_dot_slash_keeps_the_end(s: Seq<char>)
    ensures
        trim_dot_slash(s).len() <= s.len(),
        trim_dot_slash(s) == s.skip(s.len() - trim_dot_slash(s).len()),
    decreases s.len(),
{
    if s.len() >= 2 && s[0] == '.' && s[1] == '/' {
        let rest = s.skip(2);
        trim_dot_slash_keeps_the_end(rest);
        let t = trim_dot_slash(rest);
        assert(rest.skip(rest.len() - t.len()) =~= s.skip(s.len() - t.len()));
    } else {
        assert(s.skip(0) =~= s);
    }
}

/// `s` without the `./` pairs at its start.
pub fn trim_dot_slashes(s: &str) -> (out: String)
    ensures
        out@ == trim_dot_slash(s@),
{
    let chars = chars_of(s);
    let mut start: usize = 0;
    assert(chars@.skip(0) =~= s@);
    while chars.len() - start >= 2 && chars[start] == '.' && chars[start + 1] == '/'
        invariant
            start <= chars@.len(),
            trim_dot_slash(chars@.skip(start as int)) == trim_dot_slash(s@),
        decreases chars.len() - start,
    {
        assert(chars@.skip(start as int).skip(2) =~= chars@.skip(start + 2));
        start += 2;
    }
    let out = string_of(&chars, start, chars.len());
    assert(out@ =~= chars@.skip(start as int));
    out
}

/// The parts of `s` between its slashes. Read from the left, a slash opens a
/// new part and any other character extends the last one, so that there is
/// always one part more than there are slashes.
pub open spec fn segments(s: Seq<char>) -> Seq<Seq<char>>
    decreases s.len(),
{
    if s.len() == 0 {
        seq![Seq::empty()]
    } else if s.last() == '/' {
        segments(s.drop_last()).push(Seq::empty())
    } else {
        let before = segments(s.drop_last());
        before.drop_last().push(before.last().push(s.last()))
    }
}

/// Every text has a part before its first slash, though it may be empty.
pub proof fn segments_nonempty(s: Seq<char>)
    ensures
        segments(s).len() >= 1,
    decreases s.len(),
{
    if s.len() > 0 {
        segments_nonempty(s.drop_last());
    }
}

/// The parts of `s` between its slashes.
pub fn split_slashes(s: &str) -> (out: Vec<String>)
    ensures
        views(out@) == segments(s@),
        out@.len() >= 1,
{
    let chars = chars_of(s);
    let mut out: Vec<String> = Vec::new();
    let mut current = String::new();
    let mut i: usize = 0;
    assert(views(out@).push(current@) =~= segments(chars@.take(0)));
    while i < chars.len()
        invariant
            i <= chars@.len(),
            views(out@).push(current@) == segments(chars@.take(i as int)),
        decreases chars.len() - i,
    {
        let ghost before = views(out@).push(current@);
        assert(chars@.take(i + 1).drop_last() =~= chars@.take(i as int));
        if chars[i] == '/' {
            out.push(current);
            current = String::new();
            assert(views(out@) =~= before);
            assert(current@ =~= Seq::<char>::empty());
        } else {
            current.push(chars[i]);
            assert(before.drop_last() =~= views(out@));
        }
        i += 1;
    }
    let ghost before = views(out@).push(current@);
    assert(chars@.take(i as int) =~= s@);
    out.push(current);
    assert(views(out@) =~= before);
    out
}

/// The position of the last slash of `s`.
pub open spec fn last_slash(s: Seq<char>) -> Option<int>
    decreases s.len(),
{
    if s.len() == 0 {
        None
    } else if s.last() == '/' {
        Some(s.len() - 1)
    } else {
        last_slash(s.drop_last())
    }
}

/// What stands before and after the last slash of `s`.
pub open spec fn split_last(s: Seq<char>) -> Option<(Seq<char>, Seq<char>)> {
    match last_slash(s) {
        Some(at) => Some((s.take(at), s.skip(at + 1))),
        None => None,
    }
}

/// The last slash of a text is a slash, and none stands behind it.
pub proof fn last_slash_bounds(s: Seq<char>)
    ensures
        last_slash(s) matches Some(at) ==> 0 <= at < s.len() && s[at] == '/',
        last_slash(s) matches Some(at) ==> !s.skip(at + 1).contains('/'),
        last_slash(s) is None ==> !s.contains('/'),
    decreases s.len(),
{
    if s.len() > 0 && s.last() != '/' {
        last_slash_bounds(s.drop_last());
        if let Some(at) = last_slash(s) {
            let tail = s.skip(at + 1);
            assert forall|k: int| 0 <= k < tail.len() implies tail[k] != '/' by {
                if k < tail.len() - 1 {
                    assert(tail[k] == s.drop_last().skip(at + 1)[k]);
                }
            }
        } else {
            assert forall|k: int| 0 <= k < s.len() implies s[k] != '/' by {
                if k < s.len() - 1 {
                    assert(s.drop_last()[k] == s[k]);
                    assert(s.drop_last().contains(s[k]));
                }
            }
        }
    }
}

/// What stands before and after the last slash of `s`.
pub fn rsplit_slash(s: &str) -> (out: Option<(String, String)>)
    ensures
        match out {
            Some((before, after)) => split_last(s@) == Some((before@, after@)),
            None => split_last(s@) is None,
        },
{
    let chars = chars_of(s);
    let mut end: usize = chars.len();
    assert(chars@.take(end as int) =~= s@);
    while end > 0
        invariant
            end <= chars@.len(),
            chars@ == s@,
            last_slash(chars@.take(end as int)) == last_slash(s@),
        decreases end,
    {
        assert(chars@.take(end as int).drop_last() =~= chars@.take(end - 1));
        if chars[end - 1] == '/' {
            let before = string_of(&chars, 0, end - 1);
            let after = string_of(&chars, end, chars.len());
            assert(before@ =~= s@.take(end - 1));
            assert(after@ =~= s@.skip(end as int));
            return Some((before, after));
        }
        end -= 1;
    }
    None
}

/// The control characters: the C0 range, the delete character and the C1 range.
pub open spec fn is_control(c: char) -> bool {
    c as int <= 0x1f || 0x7f <= c as int <= 0x9f
}

/// Whether `s` holds a control character.
pub open spec fn has_control(s: Seq<char>) -> bool {
    exists|i: int| 0 <= i < s.len() && is_control(#[trigger] s[i])
}

/// The code point of a character.
pub fn code(c: char) -> (out: u32)
    ensures
        out as int == c as int,
{
    c as u32
}

/// Whether `c` is a control character.
pub fn control(c: char) -> (out: bool)
    ensures
        out == is_control(c),
{
    let code: u32 = c as u32;
    code <= 0x1f || (0x7f <= code && code <= 0x9f)
}

/// Whether `s` holds a control character.
pub fn holds_control(s: &str) -> (out: bool)
    ensures
        out == has_control(s@),
{
    let chars = chars_of(s);
    let mut i: usize = 0;
    while i < chars.len()
        invariant
            i <= chars@.len(),
            chars@ == s@,
            forall|k: int| 0 <= k < i ==> !is_control(s@[k]),
        decreases chars.len() - i,
    {
        if control(chars[i]) {
            assert(is_control(s@[i as int]));
            return true;
        }
        i += 1;
    }
    false
}

/// The characters that Unicode calls white space.
pub open spec fn is_space(c: char) -> bool {
    let code = c as int;
    ||| 0x09 <= code <= 0x0d
    ||| code == 0x20
    ||| code == 0x85
    ||| code == 0xa0
    ||| code == 0x1680
    ||| 0x2000 <= code <= 0x200a
    ||| code == 0x2028
    ||| code == 0x2029
    ||| code == 0x202f
    ||| code == 0x205f
    ||| code == 0x3000
}

/// Whether `c` is white space.
pub fn space(c: char) -> (out: bool)
    ensures
        out == is_space(c),
{
    let code: u32 = c as u32;
    (0x09 <= code && code <= 0x0d) || code == 0x20 || code == 0x85 || code == 0xa0 || code
        == 0x1680 || (0x2000 <= code && code <= 0x200a) || code == 0x2028 || code == 0x2029 || code
        == 0x202f || code == 0x205f || code == 0x3000
}

/// `s` without the white space at its end.
pub open spec fn trim_space_end(s: Seq<char>) -> Seq<char>
    decreases s.len(),
{
    if s.len() > 0 && is_space(s.last()) {
        trim_space_end(s.drop_last())
    } else {
        s
    }
}

/// `s` without the white space at its start.
pub open spec fn trim_space_start(s: Seq<char>) -> Seq<char>
    decreases s.len(),
{
    if s.len() > 0 && is_space(s[0]) {
        trim_space_start(s.skip(1))
    } else {
        s
    }
}

/// `s` without the white space at its two ends.
pub open spec fn trim_space(s: Seq<char>) -> Seq<char> {
    trim_space_end(trim_space_start(s))
}

/// `s` without the white space at its two ends.
pub fn trim(s: &str) -> (out: String)
    ensures
        out@ == trim_space(s@),
{
    let chars = chars_of(s);
    let mut start: usize = 0;
    assert(chars@.skip(0) =~= s@);
    while start < chars.len() && space(chars[start])
        invariant
            start <= chars@.len(),
            trim_space_start(chars@.skip(start as int)) == trim_space_start(s@),
        decreases chars.len() - start,
    {
        assert(chars@.skip(start as int).skip(1) =~= chars@.skip(start + 1));
        start += 1;
    }
    let mut end: usize = chars.len();
    assert(chars@.subrange(start as int, end as int) =~= trim_space_start(s@));
    while end > start && space(chars[end - 1])
        invariant
            start <= end <= chars@.len(),
            trim_space_end(chars@.subrange(start as int, end as int)) == trim_space(s@),
        decreases end,
    {
        assert(chars@.subrange(start as int, end as int).drop_last() =~= chars@.subrange(
            start as int,
            end - 1,
        ));
        end -= 1;
    }
    string_of(&chars, start, end)
}

/// The lower-case digit for a value below sixteen.
pub open spec fn digit(value: nat) -> char {
    if value < 10 {
        (('0' as nat) + value) as char
    } else {
        (('a' as nat) + value - 10) as char
    }
}

/// The numeral of `n`, most significant digit first.
pub open spec fn numeral(n: nat, base: nat) -> Seq<char>
    decreases n,
{
    if n < base || base < 2 {
        seq![digit(n)]
    } else {
        proof {
            assert(n / base < n) by (nonlinear_arith)
                requires
                    n >= base,
                    base >= 2,
            ;
        }
        numeral(n / base, base).push(digit(n % base))
    }
}

/// The lower-case digit for a value below sixteen.
fn digit_char(value: u64) -> (out: char)
    requires
        value < 16,
    ensures
        out == digit(value as nat),
{
    if value < 10 {
        (48u8 + value as u8) as char
    } else {
        (87u8 + value as u8) as char
    }
}

/// Appends the numeral of `n` to `out`.
fn push_numeral(out: &mut String, n: u64, base: u64)
    requires
        base == 10 || base == 16,
    ensures
        final(out)@ == old(out)@ + numeral(n as nat, base as nat),
    decreases n,
{
    if n >= base {
        push_numeral(out, n / base, base);
    }
    out.push(digit_char(n % base));
    assert(out@ =~= old(out)@ + numeral(n as nat, base as nat));
}

/// The decimal numeral of `n`.
pub open spec fn decimal(n: nat) -> Seq<char> {
    numeral(n, 10)
}

/// The decimal numeral of `n`.
pub fn decimal_of(n: usize) -> (out: String)
    ensures
        out@ == decimal(n as nat),
{
    decimal_u64(n as u64)
}

/// The decimal numeral of `n`.
pub fn decimal_u64(n: u64) -> (out: String)
    ensures
        out@ == decimal(n as nat),
{
    let mut out = String::new();
    push_numeral(&mut out, n, 10);
    assert(out@ =~= decimal(n as nat));
    out
}

/// The escape of a character by its code point: `\u{..}` in lower-case hexadecimal.
pub open spec fn unicode_escape(c: char) -> Seq<char> {
    seq!['\\', 'u', '{'] + numeral(c as nat, 16) + seq!['}']
}

/// The escape that leaves printable ASCII as it is, other than quotes and the
/// backslash, and writes every other character in printable ASCII.
pub open spec fn escape_char(c: char) -> Seq<char> {
    if c == '\t' {
        seq!['\\', 't']
    } else if c == '\r' {
        seq!['\\', 'r']
    } else if c == '\n' {
        seq!['\\', 'n']
    } else if c == '\'' || c == '"' || c == '\\' {
        seq!['\\', c]
    } else if 0x20 <= c as int <= 0x7e {
        seq![c]
    } else {
        unicode_escape(c)
    }
}

/// `s` with every character escaped for use in a message.
pub open spec fn escaped(s: Seq<char>) -> Seq<char>
    decreases s.len(),
{
    if s.len() == 0 {
        Seq::empty()
    } else {
        escaped(s.drop_last()) + escape_char(s.last())
    }
}

/// Appends the code point escape of `c` to `out`.
fn push_unicode_escape(out: &mut String, c: char)
    ensures
        final(out)@ == old(out)@ + unicode_escape(c),
{
    out.push('\\');
    out.push('u');
    out.push('{');
    push_numeral(out, c as u32 as u64, 16);
    out.push('}');
    assert(out@ =~= old(out)@ + unicode_escape(c));
}

/// Appends the escape of `c` to `out`.
fn push_escaped(out: &mut String, c: char)
    ensures
        final(out)@ == old(out)@ + escape_char(c),
{
    let code: u32 = c as u32;
    if c == '\t' {
        out.push('\\');
        out.push('t');
    } else if c == '\r' {
        out.push('\\');
        out.push('r');
    } else if c == '\n' {
        out.push('\\');
        out.push('n');
    } else if c == '\'' || c == '"' || c == '\\' {
        out.push('\\');
        out.push(c);
    } else if 0x20 <= code && code <= 0x7e {
        out.push(c);
    } else {
        push_unicode_escape(out, c);
    }
    assert(out@ =~= old(out)@ + escape_char(c));
}

/// `s` with every character escaped for use in a message.
pub fn escape(s: &str) -> (out: String)
    ensures
        out@ == escaped(s@),
{
    let chars = chars_of(s);
    let mut out = String::new();
    let mut i: usize = 0;
    while i < chars.len()
        invariant
            i <= chars@.len(),
            out@ == escaped(chars@.take(i as int)),
        decreases chars.len() - i,
    {
        assert(chars@.take(i + 1).drop_last() =~= chars@.take(i as int));
        push_escaped(&mut out, chars[i]);
        i += 1;
    }
    assert(chars@.take(i as int) =~= s@);
    out
}

/// The escape that leaves everything but control characters as it is.
pub open spec fn display_char(c: char) -> Seq<char> {
    if c == '\n' {
        seq!['\\', 'n']
    } else if c == '\r' {
        seq!['\\', 'r']
    } else if c == '\t' {
        seq!['\\', 't']
    } else if c == '\u{1b}' {
        seq!['\\', 'x', '1', 'b']
    } else if is_control(c) {
        unicode_escape(c)
    } else {
        seq![c]
    }
}

/// `s` with its control characters escaped for display on a terminal.
pub open spec fn displayed(s: Seq<char>) -> Seq<char>
    decreases s.len(),
{
    if s.len() == 0 {
        Seq::empty()
    } else {
        displayed(s.drop_last()) + display_char(s.last())
    }
}

/// Appends the display form of `c` to `out`.
fn push_displayed(out: &mut String, c: char)
    ensures
        final(out)@ == old(out)@ + display_char(c),
{
    if c == '\n' {
        out.push('\\');
        out.push('n');
    } else if c == '\r' {
        out.push('\\');
        out.push('r');
    } else if c == '\t' {
        out.push('\\');
        out.push('t');
    } else if c == '\u{1b}' {
        out.push('\\');
        out.push('x');
        out.push('1');
        out.push('b');
    } else if control(c) {
        push_unicode_escape(out, c);
    } else {
        out.push(c);
    }
    assert(out@ =~= old(out)@ + display_char(c));
}

/// `s` with its control characters escaped for display on a terminal.
pub fn display(s: &str) -> (out: String)
    ensures
        out@ == displayed(s@),
{
    let chars = chars_of(s);
    let mut out = String::new();
    let mut i: usize = 0;
    while i < chars.len()
        invariant
            i <= chars@.len(),
            out@ == displayed(chars@.take(i as int)),
        decreases chars.len() - i,
    {
        assert(chars@.take(i + 1).drop_last() =~= chars@.take(i as int));
        push_displayed(&mut out, chars[i]);
        i += 1;
    }
    assert(chars@.take(i as int) =~= s@);
    out
}

/// Whether every character of `s` is printable ASCII.
pub open spec fn is_printable(s: Seq<char>) -> bool {
    forall|i: int| 0 <= i < s.len() ==> 0x20 <= (#[trigger] s[i]) as int <= 0x7e
}

/// A numeral is printable.
pub proof fn numeral_is_printable(n: nat, base: nat)
    requires
        base == 10 || base == 16,
    ensures
        is_printable(numeral(n, base)),
    decreases n,
{
    if n >= base {
        numeral_is_printable(n / base, base);
    }
}

/// An escaped message is printable ASCII throughout, so no character of a path
/// can steer the terminal it is shown on.
pub proof fn escaped_is_printable(s: Seq<char>)
    ensures
        is_printable(escaped(s)),
        !has_control(escaped(s)),
    decreases s.len(),
{
    if s.len() > 0 {
        escaped_is_printable(s.drop_last());
        numeral_is_printable(s.last() as nat, 16);
    }
}

/// Text prepared for display holds no control character.
pub proof fn displayed_has_no_control(s: Seq<char>)
    ensures
        !has_control(displayed(s)),
    decreases s.len(),
{
    if s.len() > 0 {
        let before = displayed(s.drop_last());
        let last = display_char(s.last());
        displayed_has_no_control(s.drop_last());
        numeral_is_printable(s.last() as nat, 16);
        assert forall|i: int| 0 <= i < displayed(s).len() implies !is_control(
            #[trigger] displayed(s)[i],
        ) by {
            if i < before.len() {
                assert(displayed(s)[i] == before[i]);
            } else {
                assert(displayed(s)[i] == last[i - before.len()]);
            }
        }
    }
}

/// Text without control characters is displayed as it is.
pub proof fn displayed_keeps_plain_text(s: Seq<char>)
    requires
        !has_control(s),
    ensures
        displayed(s) == s,
    decreases s.len(),
{
    if s.len() > 0 {
        let before = s.drop_last();
        assert(!is_control(s.last()));
        assert forall|i: int| 0 <= i < before.len() implies !is_control(#[trigger] before[i]) by {
            assert(before[i] == s[i]);
        }
        displayed_keeps_plain_text(before);
        assert(displayed(s) =~= s);
    }
}

/// The concatenation of two strings.
pub fn cat(a: &str, b: &str) -> (out: String)
    ensures
        out@ == a@ + b@,
{
    let mut out = a.to_owned();
    out.append(b);
    out
}

/// The concatenation of three strings.
pub fn cat3(a: &str, b: &str, c: &str) -> (out: String)
    ensures
        out@ == a@ + b@ + c@,
{
    let mut out = cat(a, b);
    out.append(c);
    out
}

/// The concatenation of four strings.
pub fn cat4(a: &str, b: &str, c: &str, d: &str) -> (out: String)
    ensures
        out@ == a@ + b@ + c@ + d@,
{
    let mut out = cat3(a, b, c);
    out.append(d);
    out
}

/// The concatenation of five strings.
pub fn cat5(a: &str, b: &str, c: &str, d: &str, e: &str) -> (out: String)
    ensures
        out@ == a@ + b@ + c@ + d@ + e@,
{
    let mut out = cat4(a, b, c, d);
    out.append(e);
    out
}

/// The quoted form of a string, as the `Debug` impl of `str` writes it.
pub uninterp spec fn debug_text(s: Seq<char>) -> Seq<char>;

/// The `Debug` form of a `str`, by `format!` with `{:?}`: quoted, with escapes
/// for quotes, backslashes and what cannot be printed. The contract names it, and
/// says that it holds no control character: those are escaped.
#[verifier::external_body]
pub(crate) fn debug_of(s: &str) -> (out: String)
    ensures
        out@ == debug_text(s@),
        !has_control(out@),
{
    format!("{:?}", s)
}

/// Some text with the quoted form of a string behind it.
pub(crate) fn quote_after(before: &str, s: &str) -> (out: String)
    ensures
        out@ == before@ + debug_text(s@),
        has_control(out@) == has_control(before@),
{
    let quoted = debug_of(s);
    proof {
        control_in_either(before@, quoted@);
    }
    cat(before, &quoted)
}

/// Whether `s` holds `part` somewhere.
pub open spec fn holds_text(s: Seq<char>, part: Seq<char>) -> bool {
    exists|i: int| 0 <= i <= s.len() && part.is_prefix_of(#[trigger] s.skip(i))
}

/// Whether `s` holds `part` somewhere.
pub fn contains_text(s: &str, part: &str) -> (out: bool)
    ensures
        out == holds_text(s@, part@),
{
    let chars = chars_of(s);
    let total: usize = chars.len();
    let mut i: usize = 0;
    loop
        invariant
            i <= total,
            total == chars@.len(),
            chars@ == s@,
            forall|k: int| 0 <= k < i ==> !part@.is_prefix_of(#[trigger] s@.skip(k)),
        decreases total - i,
    {
        let rest = string_of(&chars, i, total);
        assert(rest@ =~= s@.skip(i as int));
        if starts_with(&rest, part) {
            return true;
        }
        if i == total {
            return false;
        }
        i += 1;
    }
}

/// Whether a character is an upper-case ASCII letter.
pub open spec fn is_upper(c: char) -> bool {
    'A' <= c <= 'Z'
}

/// Whether two characters are the same but for the case of an ASCII letter.
pub open spec fn alike(a: char, b: char) -> bool {
    a == b || (is_upper(a) && a as int + 32 == b as int) || (is_upper(b) && b as int + 32
        == a as int)
}

/// Whether two texts are the same but for the case of ASCII letters.
pub open spec fn same_but_case(a: Seq<char>, b: Seq<char>) -> bool {
    a.len() == b.len() && forall|i: int| 0 <= i < a.len() ==> alike(#[trigger] a[i], b[i])
}

/// Whether two characters are the same but for the case of an ASCII letter.
fn are_alike(a: char, b: char) -> (out: bool)
    ensures
        out == alike(a, b),
{
    let x: u32 = code(a);
    let y: u32 = code(b);
    a == b || ('A' <= a && a <= 'Z' && x + 32 == y) || ('A' <= b && b <= 'Z' && y + 32 == x)
}

/// Whether two texts are the same but for the case of ASCII letters.
pub fn same_ignoring_case(a: &str, b: &str) -> (out: bool)
    ensures
        out == same_but_case(a@, b@),
{
    let x = chars_of(a);
    let y = chars_of(b);
    if x.len() != y.len() {
        return false;
    }
    let mut i: usize = 0;
    while i < x.len()
        invariant
            i <= x@.len(),
            x@ == a@,
            y@ == b@,
            x@.len() == y@.len(),
            forall|k: int| 0 <= k < i ==> alike(#[trigger] a@[k], b@[k]),
        decreases x.len() - i,
    {
        if !are_alike(x[i], y[i]) {
            assert(!alike(a@[i as int], b@[i as int]));
            return false;
        }
        i += 1;
    }
    true
}

/// Whether a character is a decimal digit.
pub open spec fn is_digit(c: char) -> bool {
    '0' <= c <= '9'
}

/// The number that some digits make.
pub open spec fn number(digits: Seq<char>) -> nat
    decreases digits.len(),
{
    if digits.len() == 0 {
        0
    } else {
        number(digits.drop_last()) * 10 + (digits.last() as int - '0' as int) as nat
    }
}

/// The digits of a number without the plus sign that may stand before them.
pub open spec fn unsigned(s: Seq<char>) -> Seq<char> {
    if s.len() > 0 && s[0] == '+' {
        s.skip(1)
    } else {
        s
    }
}

/// The number that a text writes, if it writes one.
pub open spec fn number_of(s: Seq<char>) -> Option<nat> {
    let digits = unsigned(s);
    if digits.len() > 0 && forall|i: int| 0 <= i < digits.len() ==> is_digit(#[trigger] digits[i]) {
        Some(number(digits))
    } else {
        None
    }
}

/// What a text that is read as a number says.
#[derive(Debug, Clone, Copy, PartialEq, Eq, Structural)]
pub enum Number {
    /// It writes no number.
    Nothing,
    Known(usize),
    /// It writes a number that is larger than any that can be held.
    TooLarge,
}

/// The number that a text writes.
pub fn read_number(s: &str) -> (out: Number)
    ensures
        match out {
            Number::Nothing => number_of(s@) is None,
            Number::Known(n) => number_of(s@) == Some(n as nat),
            Number::TooLarge => number_of(s@) matches Some(n) && n > usize::MAX,
        },
{
    let chars = chars_of(s);
    let total: usize = chars.len();
    let start: usize = if total > 0 && chars[0] == '+' {
        1
    } else {
        0
    };
    let ghost digits = unsigned(s@);
    assert(digits =~= chars@.skip(start as int));
    if start == total {
        return Number::Nothing;
    }
    let mut i: usize = start;
    let mut value: usize = 0;
    let mut large = false;
    assert(number(digits.take(0)) == 0);
    while i < total
        invariant
            start <= i <= total,
            start <= 1,
            total == chars@.len(),
            digits == unsigned(s@),
            digits == chars@.skip(start as int),
            forall|k: int| 0 <= k < i - start ==> is_digit(#[trigger] digits[k]),
            !large ==> value == number(digits.take(i - start)),
            large ==> number(digits.take(i - start)) > usize::MAX,
        decreases total - i,
    {
        let c: char = chars[i];
        assert(digits[i - start] == c);
        if c < '0' || '9' < c {
            assert(!is_digit(digits[i - start]));
            return Number::Nothing;
        }
        let step: usize = (code(c) - 48) as usize;
        proof {
            let more = digits.take(i - start + 1);
            assert(more.drop_last() =~= digits.take(i - start));
            assert(more.last() == c);
            assert(number(more) == number(digits.take(i - start)) * 10 + step);
        }
        if !large {
            match value.checked_mul(10) {
                Some(tens) => match tens.checked_add(step) {
                    Some(sum) => {
                        value = sum;
                    },
                    None => {
                        large = true;
                    },
                },
                None => {
                    large = true;
                },
            }
        }
        i += 1;
    }
    assert(digits.take(digits.len() as int) =~= digits);
    if large {
        Number::TooLarge
    } else {
        Number::Known(value)
    }
}

/// Two texts together hold a control character if and only if one of them does.
pub proof fn control_in_either(a: Seq<char>, b: Seq<char>)
    ensures
        has_control(a + b) == (has_control(a) || has_control(b)),
{
    if has_control(a) {
        let i = choose|i: int| 0 <= i < a.len() && is_control(#[trigger] a[i]);
        assert((a + b)[i] == a[i]);
    }
    if has_control(b) {
        let i = choose|i: int| 0 <= i < b.len() && is_control(#[trigger] b[i]);
        assert((a + b)[a.len() + i] == b[i]);
    }
}

/// The numeral of a number reads back as that number, and holds nothing but digits.
pub proof fn decimal_reads_back(n: nat)
    ensures
        number_of(decimal(n)) == Some(n),
        number(decimal(n)) == n,
        decimal(n).len() > 0,
        forall|i: int| 0 <= i < decimal(n).len() ==> is_digit(#[trigger] decimal(n)[i]),
        trim_space(decimal(n)) == decimal(n),
    decreases n,
{
    let s = decimal(n);
    if n >= 10 {
        decimal_reads_back(n / 10);
        let fewer = decimal(n / 10);
        assert(s == fewer.push(digit(n % 10)));
        assert(s.drop_last() =~= fewer);
        assert(s.last() == digit(n % 10));
        assert forall|i: int| 0 <= i < s.len() implies is_digit(#[trigger] s[i]) by {
            if i < fewer.len() {
                assert(s[i] == fewer[i]);
            }
        }
        assert(number(s) == n);
    } else {
        assert(s.drop_last() =~= Seq::<char>::empty());
        assert(number(s.drop_last()) == 0);
        assert(s.last() == digit(n));
    }
    assert(is_digit(s[0]));
    assert(is_digit(s[s.len() - 1]));
    assert(unsigned(s) == s);
}

/// Two numbers are written alike only if they are the same.
pub proof fn decimal_tells_numbers_apart(a: nat, b: nat)
    ensures
        decimal(a) == decimal(b) <==> a == b,
{
    decimal_reads_back(a);
    decimal_reads_back(b);
}

/// A prefix is stripped exactly where a text starts with it, and what is left is
/// what followed it.
pub proof fn stripped_is_what_follows(s: Seq<char>, prefix: Seq<char>, rest: Seq<char>)
    ensures
        stripped(s, prefix) == Some(rest) <==> s == prefix + rest,
{
    if s == prefix + rest {
        assert(s.subrange(0, prefix.len() as int) =~= prefix);
        assert(s.skip(prefix.len() as int) =~= rest);
    }
    if stripped(s, prefix) == Some(rest) {
        assert forall|i: int| 0 <= i < prefix.len() implies s[i] == prefix[i] by {
            assert(s.subrange(0, prefix.len() as int)[i] == prefix[i]);
        }
        assert(s =~= prefix + rest);
    }
}

/// Whether a text is all slashes.
pub open spec fn all_slashes(s: Seq<char>) -> bool {
    forall|i: int| 0 <= i < s.len() ==> #[trigger] s[i] == '/'
}

/// What is trimmed off the end or the start of a text is all its slashes there and
/// nothing else.
pub proof fn trimmed_off_are_all_slashes(s: Seq<char>)
    ensures
        trim_end(s).len() <= s.len(),
        s.take(trim_end(s).len() as int) == trim_end(s),
        all_slashes(s.skip(trim_end(s).len() as int)),
        trim_end(s).len() > 0 ==> trim_end(s).last() != '/',
        trim_start(s).len() <= s.len(),
        s.skip(s.len() - trim_start(s).len()) == trim_start(s),
        all_slashes(s.take(s.len() - trim_start(s).len())),
        trim_start(s).len() > 0 ==> trim_start(s)[0] != '/',
    decreases s.len(),
{
    if s.len() > 0 {
        let fewer = s.drop_last();
        let rest = s.skip(1);
        trimmed_off_are_all_slashes(fewer);
        trimmed_off_are_all_slashes(rest);
        if s.last() == '/' {
            let t = trim_end(s);
            assert(s.take(t.len() as int) =~= fewer.take(t.len() as int));
            assert forall|i: int| 0 <= i < s.skip(t.len() as int).len() implies #[trigger] s.skip(
                t.len() as int,
            )[i] == '/' by {
                if i < s.len() - 1 - t.len() {
                    assert(s.skip(t.len() as int)[i] == fewer.skip(t.len() as int)[i]);
                }
            }
        } else {
            assert(s.take(s.len() as int) =~= s);
        }
        if s[0] == '/' {
            let t = trim_start(s);
            assert(s.skip(s.len() - t.len()) =~= rest.skip(rest.len() - t.len()));
            assert forall|i: int| 0 <= i < s.take(s.len() - t.len()).len() implies #[trigger] s.take(
                s.len() - t.len(),
            )[i] == '/' by {
                if i > 0 {
                    assert(s.take(s.len() - t.len())[i] == rest.take(rest.len() - t.len())[i - 1]);
                }
            }
        } else {
            assert(s.skip(0) =~= s);
        }
    } else {
        assert(s.take(0) =~= s);
        assert(s.skip(0) =~= s);
    }
}

/// Whether a text is all spaces.
pub open spec fn all_spaces(s: Seq<char>) -> bool {
    forall|i: int| 0 <= i < s.len() ==> is_space(#[trigger] s[i])
}

proof fn trimmed_end_is_all_spaces(s: Seq<char>)
    ensures
        trim_space_end(s).len() <= s.len(),
        s.take(trim_space_end(s).len() as int) == trim_space_end(s),
        all_spaces(s.skip(trim_space_end(s).len() as int)),
        trim_space_end(s).len() > 0 ==> !is_space(trim_space_end(s).last()),
    decreases s.len(),
{
    if s.len() > 0 && is_space(s.last()) {
        let fewer = s.drop_last();
        trimmed_end_is_all_spaces(fewer);
        let t = trim_space_end(s);
        assert(s.take(t.len() as int) =~= fewer.take(t.len() as int));
        assert forall|i: int| 0 <= i < s.skip(t.len() as int).len() implies is_space(
            #[trigger] s.skip(t.len() as int)[i],
        ) by {
            if i < s.len() - 1 - t.len() {
                assert(s.skip(t.len() as int)[i] == fewer.skip(t.len() as int)[i]);
            }
        }
    } else {
        assert(s.take(s.len() as int) =~= s);
    }
}

proof fn trimmed_start_is_all_spaces(s: Seq<char>)
    ensures
        trim_space_start(s).len() <= s.len(),
        s.skip(s.len() - trim_space_start(s).len()) == trim_space_start(s),
        all_spaces(s.take(s.len() - trim_space_start(s).len())),
        trim_space_start(s).len() > 0 ==> !is_space(trim_space_start(s)[0]),
    decreases s.len(),
{
    if s.len() > 0 && is_space(s[0]) {
        let rest = s.skip(1);
        trimmed_start_is_all_spaces(rest);
        let t = trim_space_start(s);
        assert(s.skip(s.len() - t.len()) =~= rest.skip(rest.len() - t.len()));
        assert forall|i: int| 0 <= i < s.take(s.len() - t.len()).len() implies is_space(
            #[trigger] s.take(s.len() - t.len())[i],
        ) by {
            if i > 0 {
                assert(s.take(s.len() - t.len())[i] == rest.take(rest.len() - t.len())[i - 1]);
            }
        }
    } else {
        assert(s.skip(0) =~= s);
    }
}

/// What is trimmed off a text is spaces on both ends, all of them and nothing
/// else.
pub proof fn trimmed_off_are_all_spaces(s: Seq<char>)
    ensures
        trim_space(s).len() > 0 ==> !is_space(trim_space(s)[0]) && !is_space(trim_space(s).last()),
        exists|before: Seq<char>, after: Seq<char>|
            all_spaces(before) && all_spaces(after) && s == #[trigger] (before + trim_space(s)
                + after),
{
    let started = trim_space_start(s);
    let t = trim_space(s);
    trimmed_start_is_all_spaces(s);
    trimmed_end_is_all_spaces(started);
    let before = s.take(s.len() - started.len());
    let after = started.skip(t.len() as int);
    assert(started =~= t + after) by {
        assert(started =~= started.take(t.len() as int) + started.skip(t.len() as int));
    }
    assert(s =~= before + t + after) by {
        assert(s =~= s.take(s.len() - started.len()) + s.skip(s.len() - started.len()));
    }
    if t.len() > 0 {
        assert(t[0] == started[0]) by {
            assert(started.take(t.len() as int)[0] == t[0]);
        }
    }
}

/// Some segments with a slash between every two of them.
pub open spec fn glued(segments: Seq<Seq<char>>) -> Seq<char>
    decreases segments.len(),
{
    if segments.len() == 0 {
        Seq::empty()
    } else if segments.len() == 1 {
        segments[0]
    } else {
        glued(segments.drop_last()) + seq!['/'] + segments.last()
    }
}

/// The segments of a text hold no slash, and with a slash between every two of
/// them they make the text again.
pub proof fn segments_make_the_text_again(s: Seq<char>)
    ensures
        glued(segments(s)) == s,
        forall|i: int| 0 <= i < segments(s).len() ==> !(#[trigger] segments(s)[i]).contains('/'),
        segments(s).len() >= 1,
    decreases s.len(),
{
    let all = segments(s);
    if s.len() > 0 {
        let fewer = s.drop_last();
        let parts = segments(fewer);
        segments_make_the_text_again(fewer);
        assert(s =~= fewer.push(s.last()));
        if s.last() == '/' {
            assert(all.drop_last() =~= parts);
            assert(glued(all) =~= s);
            assert forall|i: int| 0 <= i < all.len() implies !(#[trigger] all[i]).contains('/') by {
                if i < parts.len() {
                    assert(all[i] == parts[i]);
                }
            }
        } else {
            assert(all.drop_last() =~= parts.drop_last());
            assert(all.last() == parts.last().push(s.last()));
            assert(parts.last() == parts[parts.len() - 1]);
            if parts.len() == 1 {
                assert(glued(all) =~= s);
            } else {
                assert(glued(all) =~= s);
            }
            assert forall|i: int| 0 <= i < all.len() implies !(#[trigger] all[i]).contains('/') by {
                if i < parts.len() - 1 {
                    assert(all[i] == parts[i]);
                } else {
                    let longer = parts.last().push(s.last());
                    assert(all[i] == longer);
                    assert forall|k: int| 0 <= k < longer.len() implies longer[k] != '/' by {
                        if k < parts.last().len() {
                            assert(longer[k] == parts.last()[k]);
                        }
                    }
                }
            }
        }
    } else {
        assert(s =~= Seq::<char>::empty());
    }
}

/// A letter as a lower-case one, and any other character as it is.
pub open spec fn lowered(c: char) -> char {
    if is_upper(c) {
        (c as int + 32) as char
    } else {
        c
    }
}

/// Two texts are the same but for the case of their letters exactly where they are
/// the same once every letter is made a lower-case one.
pub proof fn same_but_case_is_same_in_lower_case(a: Seq<char>, b: Seq<char>)
    ensures
        same_but_case(a, b) <==> a.map_values(|c: char| lowered(c)) == b.map_values(
            |c: char| lowered(c),
        ),
        same_but_case(a, a),
        same_but_case(a, b) == same_but_case(b, a),
{
    let x = a.map_values(|c: char| lowered(c));
    let y = b.map_values(|c: char| lowered(c));
    assert forall|c: char, d: char| alike(c, d) <==> #[trigger] lowered(c) == #[trigger] lowered(
        d,
    ) by {}
    if same_but_case(a, b) {
        assert forall|i: int| 0 <= i < x.len() implies x[i] == y[i] by {
            assert(alike(a[i], b[i]));
        }
        assert(x =~= y);
        assert forall|i: int| 0 <= i < b.len() implies alike(#[trigger] b[i], a[i]) by {
            assert(alike(a[i], b[i]));
        }
    }
    if same_but_case(b, a) {
        assert forall|i: int| 0 <= i < a.len() implies alike(#[trigger] a[i], b[i]) by {
            assert(alike(b[i], a[i]));
        }
    }
    if x == y {
        assert(x.len() == y.len());
        assert forall|i: int| 0 <= i < a.len() implies alike(#[trigger] a[i], b[i]) by {
            assert(x[i] == lowered(a[i]));
            assert(y[i] == lowered(b[i]));
        }
    }
}

/// A text with anything but digits behind a sign is no number, and one of digits
/// is, each worth ten times the next.
pub proof fn number_is_read_digit_by_digit(digits: Seq<char>, next: char)
    requires
        is_digit(next),
    ensures
        number_of(Seq::empty()) is None,
        number_of(seq!['+']) is None,
        number_of(digits) matches Some(value) ==> number_of(digits.push(next)) == Some(
            value * 10 + (next as nat - '0' as nat) as nat,
        ),
        number_of(seq![next]) == Some((next as nat - '0' as nat) as nat),
        digits.len() > 0 && is_digit(digits[0]) ==> number_of(seq!['+'] + digits) == number_of(
            digits,
        ),
{
    assert(seq!['+'].skip(1) =~= Seq::<char>::empty());
    let more = digits.push(next);
    assert(more.drop_last() =~= digits);
    if number_of(digits) is Some {
        let plain = unsigned(digits);
        assert(unsigned(more) =~= plain.push(next));
        assert(plain.push(next).drop_last() =~= plain);
        assert forall|i: int| 0 <= i < unsigned(more).len() implies is_digit(
            #[trigger] unsigned(more)[i],
        ) by {
            if i < plain.len() {
                assert(unsigned(more)[i] == plain[i]);
            }
        }
    }
    let one = seq![next];
    assert(one.drop_last() =~= Seq::<char>::empty());
    assert(unsigned(one) =~= one);
    reveal_with_fuel(number, 2);
    if digits.len() > 0 && is_digit(digits[0]) {
        assert((seq!['+'] + digits).skip(1) =~= digits);
    }
}

/// What a digit is worth.
pub open spec fn worth(c: char) -> nat {
    if is_digit(c) {
        (c as int - '0' as int) as nat
    } else {
        (c as int - 'a' as int + 10) as nat
    }
}

/// What some digits are worth in a base.
pub open spec fn valued(digits: Seq<char>, base: nat) -> nat
    decreases digits.len(),
{
    if digits.len() == 0 {
        0
    } else {
        valued(digits.drop_last(), base) * base + worth(digits.last())
    }
}

/// The digits of a number are worth that number.
pub proof fn numeral_is_worth_its_number(n: nat, base: nat)
    requires
        base == 10 || base == 16,
    ensures
        valued(numeral(n, base), base) == n,
        numeral(n, base).len() > 0,
    decreases n,
{
    let all = numeral(n, base);
    if n < base {
        assert(all.drop_last() =~= Seq::<char>::empty());
        reveal_with_fuel(valued, 2);
    } else {
        numeral_is_worth_its_number(n / base, base);
        assert(all.drop_last() =~= numeral(n / base, base));
        assert(worth(digit(n % base)) == n % base);
    }
}

/// No two characters are escaped alike.
pub proof fn escapes_tell_characters_apart(a: char, b: char)
    ensures
        escape_char(a) == escape_char(b) ==> a == b,
        0x20 <= a as int <= 0x7e && a != '\'' && a != '"' && a != '\\' <==> escape_char(a)
            == seq![a],
        is_control(a) ==> escape_char(a)[0] == '\\' && display_char(a)[0] == '\\',
        !is_control(a) ==> display_char(a) == seq![a],
        is_control(a) && is_control(b) && display_char(a) == display_char(b) ==> a == b,
{
    numeral_is_worth_its_number(a as nat, 16);
    numeral_is_worth_its_number(b as nat, 16);
    let x = unicode_escape(a);
    let y = unicode_escape(b);
    assert(x.subrange(3, x.len() - 1) =~= numeral(a as nat, 16));
    assert(y.subrange(3, y.len() - 1) =~= numeral(b as nat, 16));
    assert(x[1] == 'u' && y[1] == 'u');
    if escape_char(a) == seq![a] {
        assert(escape_char(a).len() == 1);
    }
    if escape_char(a) == escape_char(b) && a != b {
        let e = escape_char(a);
        let f = escape_char(b);
        assert(e.len() == f.len());
        assert(e[0] == f[0]);
        if e.len() > 1 {
            assert(e[1] == f[1]);
        }
    }
    if is_control(a) && is_control(b) && display_char(a) == display_char(b) && a != b {
        let e = display_char(a);
        let f = display_char(b);
        assert(e.len() == f.len());
        assert(e[1] == f[1]);
    }
}

/// The characters that are no text to a terminal are those of the two control
/// ranges and the one between them.
pub proof fn controls_are_two_ranges(c: char)
    ensures
        is_control(c) <==> (c as int) < 0x20 || (0x7f <= c as int && (c as int) < 0xa0),
        is_control('\u{1b}'),
        is_control('\u{85}'),
        !is_control(' '),
{
}

/// A space is a blank, one of the characters that end a line or a page, a tab, or
/// one of the wider and narrower blanks of other scripts.
pub proof fn spaces_are_all_white_space(c: char)
    ensures
        is_space(c) <==> c == ' ' || c == '\t' || c == '\n' || c == '\u{0b}' || c == '\u{0c}' || c
            == '\r' || c == '\u{85}' || c == '\u{a0}' || c == '\u{1680}' || '\u{2000}' <= c
            <= '\u{200a}' || c == '\u{2028}' || c == '\u{2029}' || c == '\u{202f}' || c
            == '\u{205f}' || c == '\u{3000}',
{
}

/// A text behind a slash has an empty segment before those of the text.
pub proof fn segments_behind_a_slash(s: Seq<char>)
    ensures
        segments(seq!['/'] + s) == seq![Seq::<char>::empty()] + segments(s),
    decreases s.len(),
{
    let whole = seq!['/'] + s;
    segments_nonempty(s);
    if s.len() == 0 {
        assert(whole =~= seq!['/']);
        assert(whole.drop_last() =~= Seq::<char>::empty());
        assert(s =~= Seq::<char>::empty());
        assert(segments(whole.drop_last()) == seq![Seq::<char>::empty()]);
        assert(segments(whole) =~= seq![Seq::<char>::empty()] + segments(s));
    } else {
        let fewer = s.drop_last();
        segments_behind_a_slash(fewer);
        segments_nonempty(fewer);
        assert(whole.drop_last() =~= seq!['/'] + fewer);
        assert(whole.last() == s.last());
        assert(segments(whole) =~= seq![Seq::<char>::empty()] + segments(s));
    }
}

} // verus!
