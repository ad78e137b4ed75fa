//! Character-level text utilities: conversions between strings and character
//! vectors, CSV quoting, message shortening, trimming and decimal rendering.

use vstd::prelude::*;

verus! {

/// Reads the characters of `s` into a vector, in order.
pub(crate) fn chars_of(s: &str) -> (v: Vec<char>)
    ensures
        v@ == s@,
{
    broadcast use vstd::string::axiom_spec_iter;

    let mut v: Vec<char> = Vec::new();
    for c in it: s.chars()
        invariant
            it.seq() == s@,
            v@ == it.seq().take(it.index() as int),
    {
        v.push(c);
    }
    v
}

/// Builds a string from a vector of characters, in order.
///
/// Trusted: collects the characters into a `String` through
/// `FromIterator<char>`; the contract claims the string holds exactly them.
#[verifier::external_body]
pub(crate) fn string_of(v: &Vec<char>) -> (s: String)
    ensures
        s@ == v@,
{
    v.iter().collect()
}

/// Appends all of `src` to `dst`.
pub(crate) fn push_all(dst: &mut Vec<char>, src: &Vec<char>)
    ensures
        final(dst)@ == old(dst)@ + src@,
{
    let ghost start = dst@;
    let mut i: usize = 0;
    while i < src.len()
        invariant
            i <= src.len(),
            dst@ == start + src@.take(i as int),
        decreases src.len() - i,
    {
        dst.push(src[i]);
        i = i + 1;
        assert(src@.take(i as int) == src@.take(i - 1).push(src@[i - 1]));
    }
    assert(src@.take(src.len() as int) == src@);
}

/// Appends the characters of `s` to `dst`.
pub(crate) fn push_str(dst: &mut Vec<char>, s: &str)
    ensures
        final(dst)@ == old(dst)@ + s@,
{
    let v = chars_of(s);
    push_all(dst, &v);
}

// ---------------------------------------------------------------------------
// CSV cells

/// The characters of `s` with every double quote doubled.
pub open spec fn double_quotes(s: Seq<char>) -> Seq<char>
    decreases s.len(),
{
    if s.len() == 0 {
        Seq::empty()
    } else {
        double_quotes(s.drop_last()) + (if s.last() == '"' {
            seq!['"', '"']
        } else {
            seq![s.last()]
        })
    }
}

/// A CSV cell: the value wrapped in double quotes, inner quotes doubled.
pub open spec fn csv_cell_text(s: Seq<char>) -> Seq<char> {
    seq!['"'] + double_quotes(s) + seq!['"']
}

/// Quotes `value` as one CSV field, doubling the double quotes inside it.
pub fn csv_cell(value: &str) -> (cell: String)
    ensures
        cell@ == csv_cell_text(value@),
{
    let chars = chars_of(value);
    let mut out: Vec<char> = Vec::new();
    out.push('"');
    let mut i: usize = 0;
    while i < chars.len()
        invariant
            i <= chars.len(),
            out@ == seq!['"'] + double_quotes(chars@.take(i as int)),
        decreases chars.len() - i,
    {
        let c = chars[i];
        if c == '"' {
            out.push('"');
            out.push('"');
        } else {
            out.push(c);
        }
        i = i + 1;
        assert(chars@.take(i as int).drop_last() == chars@.take(i - 1));
    }
    assert(chars@.take(chars.len() as int) == chars@);
    out.push('"');
    string_of(&out)
}

/// The text of a CSV field body with each doubled quote read back as one.
pub open spec fn undouble_quotes(s: Seq<char>) -> Seq<char>
    decreases s.len(),
{
    if s.len() == 0 {
        Seq::empty()
    } else if s.len() >= 2 && s[0] == '"' && s[1] == '"' {
        seq!['"'] + undouble_quotes(s.skip(2))
    } else {
        seq![s[0]] + undouble_quotes(s.drop_first())
    }
}

/// The value inside a quoted CSV field: the quotes around it dropped and
/// doubled quotes read back as one.
pub open spec fn csv_field_value(cell: Seq<char>) -> Seq<char> {
    undouble_quotes(cell.subrange(1, cell.len() - 1))
}

proof fn lemma_double_quotes_front(s: Seq<char>)
    requires
        s.len() > 0,
    ensures
        double_quotes(s) == (if s[0] == '"' {
            seq!['"', '"']
        } else {
            seq![s[0]]
        }) + double_quotes(s.drop_first()),
    decreases s.len(),
{
    if s.len() == 1 {
        assert(s.drop_first() =~= Seq::<char>::empty());
        assert(s.drop_last() =~= Seq::<char>::empty());
    } else {
        lemma_double_quotes_front(s.drop_last());
        assert(s.drop_last().drop_first() =~= s.drop_first().drop_last());
        assert(s.drop_first().last() == s.last());
        assert(s.drop_last()[0] == s[0]);
    }
}

/// Reading a quoted CSV cell back gives the value that was quoted.
pub proof fn lemma_csv_cell_round_trip(s: Seq<char>)
    ensures
        csv_field_value(csv_cell_text(s)) == s,
{
    let c = csv_cell_text(s);
    assert(c.subrange(1, c.len() - 1) =~= double_quotes(s));
    lemma_undouble_double(s);
}

proof fn lemma_undouble_double(s: Seq<char>)
    ensures
        undouble_quotes(double_quotes(s)) == s,
    decreases s.len(),
{
    if s.len() > 0 {
        lemma_double_quotes_front(s);
        lemma_undouble_double(s.drop_first());
        let d = double_quotes(s);
        let rest = double_quotes(s.drop_first());
        if s[0] == '"' {
            assert(d.skip(2) =~= rest);
            assert(undouble_quotes(d) == seq!['"'] + undouble_quotes(d.skip(2)));
        } else {
            assert(d.drop_first() =~= rest);
            if d.len() >= 2 {
                assert(d[0] == s[0]);
            }
            assert(undouble_quotes(d) == seq![s[0]] + undouble_quotes(d.drop_first()));
        }
        assert(s =~= seq![s[0]] + s.drop_first());
    } else {
        assert(double_quotes(s) =~= Seq::<char>::empty());
    }
}

// ---------------------------------------------------------------------------
// Shortened messages

/// The ellipsis appended to a message that was cut short.
pub open spec fn ellipsis() -> char {
    '\u{2026}'
}

/// At most `max_chars` characters of `message`, followed by an ellipsis when
/// characters were dropped.
pub open spec fn compact_text(message: Seq<char>, max_chars: nat) -> Seq<char> {
    if message.len() > max_chars {
        message.take(max_chars as int).push(ellipsis())
    } else {
        message
    }
}

/// Shortens `message` to `max_chars` characters, marking the cut with an
/// ellipsis. Works on characters, so multi-byte characters are never split.
pub fn compact_message(message: &str, max_chars: usize) -> (short: String)
    ensures
        short@ == compact_text(message@, max_chars as nat),
{
    let chars = chars_of(message);
    if chars.len() <= max_chars {
        return string_of(&chars);
    }
    let mut out: Vec<char> = Vec::new();
    let mut i: usize = 0;
    while i < max_chars
        invariant
            i <= max_chars < chars.len(),
            out@ == chars@.take(i as int),
        decreases max_chars - i,
    {
        out.push(chars[i]);
        i = i + 1;
        assert(chars@.take(i as int) == chars@.take(i - 1).push(chars@[i - 1]));
    }
    out.push('\u{2026}');
    string_of(&out)
}


// ---------------------------------------------------------------------------
// Decimal numbers

/// The character of the decimal digit `d` (0 to 9).
pub open spec fn digit_char(d: nat) -> char {
    if d == 0 { '0' } else if d == 1 { '1' } else if d == 2 { '2' } else if d == 3 { '3' }
    else if d == 4 { '4' } else if d == 5 { '5' } else if d == 6 { '6' } else if d == 7 { '7' }
    else if d == 8 { '8' } else { '9' }
}

/// The decimal digits of `n`, most significant first, without leading zeros.
pub open spec fn decimal(n: nat) -> Seq<char>
    decreases n,
{
    if n < 10 {
        seq![digit_char(n)]
    } else {
        decimal(n / 10).push(digit_char(n % 10))
    }
}

/// `n` in decimal, padded on the left with zeros to at least `width` characters.
pub open spec fn zero_padded(n: nat, width: nat) -> Seq<char> {
    let digits = decimal(n);
    if digits.len() >= width {
        digits
    } else {
        Seq::new((width - digits.len()) as nat, |i: int| '0') + digits
    }
}

/// `n` in decimal with a leading minus sign when it is negative.
pub open spec fn signed_decimal(n: int) -> Seq<char> {
    if n < 0 {
        seq!['-'] + decimal((-n) as nat)
    } else {
        decimal(n as nat)
    }
}

fn digit_char_of(d: u8) -> (c: char)
    requires
        d < 10,
    ensures
        c == digit_char(d as nat),
{
    match d {
        0 => '0',
        1 => '1',
        2 => '2',
        3 => '3',
        4 => '4',
        5 => '5',
        6 => '6',
        7 => '7',
        8 => '8',
        _ => '9',
    }
}

/// Appends the decimal digits of `n` to `out`.
pub(crate) fn push_decimal(out: &mut Vec<char>, n: u128)
    ensures
        final(out)@ == old(out)@ + decimal(n as nat),
    decreases n,
{
    if n < 10 {
        out.push(digit_char_of(n as u8));
        assert(decimal(n as nat) == seq![digit_char(n as nat)]);
    } else {
        push_decimal(out, n / 10);
        out.push(digit_char_of((n % 10) as u8));
    }
}

/// Appends `n` in decimal, zero-padded to at least `width` characters.
pub(crate) fn push_zero_padded(out: &mut Vec<char>, n: u128, width: usize)
    ensures
        final(out)@ == old(out)@ + zero_padded(n as nat, width as nat),
{
    let mut digits: Vec<char> = Vec::new();
    push_decimal(&mut digits, n);
    assert(digits@ == decimal(n as nat));
    let ghost start = out@;
    let mut pad: usize = 0;
    if digits.len() < width {
        pad = width - digits.len();
    }
    let mut i: usize = 0;
    while i < pad
        invariant
            i <= pad,
            out@ == start + Seq::new(i as nat, |k: int| '0'),
        decreases pad - i,
    {
        out.push('0');
        i = i + 1;
        assert(out@ == start + Seq::new(i as nat, |k: int| '0'));
    }
    push_all(out, &digits);
    if digits.len() >= width {
        assert(Seq::new(0, |k: int| '0') + digits@ == digits@);
    }
}

/// Appends `n` in decimal, with a minus sign when negative.
pub(crate) fn push_signed_decimal(out: &mut Vec<char>, n: i128)
    ensures
        final(out)@ == old(out)@ + signed_decimal(n as int),
{
    if n < 0 {
        out.push('-');
        let magnitude: u128 = if n == i128::MIN {
            (i128::MAX as u128) + 1
        } else {
            (-n) as u128
        };
        push_decimal(out, magnitude);
    } else {
        push_decimal(out, n as u128);
    }
}


// ---------------------------------------------------------------------------
// Whitespace trimming

/// Unicode `White_Space` characters, as `char::is_whitespace` counts them.
pub open spec fn is_white(c: char) -> bool {
    let u = c as u32;
    ||| u == 0x20
    ||| 0x09 <= u <= 0x0d
    ||| u == 0x85
    ||| u == 0xa0
    ||| u == 0x1680
    ||| 0x2000 <= u <= 0x200a
    ||| u == 0x2028
    ||| u == 0x2029
    ||| u == 0x202f
    ||| u == 0x205f
    ||| u == 0x3000
}

fn is_white_char(c: char) -> (w: bool)
    ensures
        w == is_white(c),
{
    let u = c as u32;
    u == 0x20 || (0x09 <= u && u <= 0x0d) || u == 0x85 || u == 0xa0 || u == 0x1680 || (0x2000
        <= u && u <= 0x200a) || u == 0x2028 || u == 0x2029 || u == 0x202f || u == 0x205f || u
        == 0x3000
}

/// `s` without its leading whitespace.
pub open spec fn trim_start(s: Seq<char>) -> Seq<char>
    decreases s.len(),
{
    if s.len() > 0 && is_white(s[0]) {
        trim_start(s.drop_first())
    } else {
        s
    }
}

/// `s` without its trailing whitespace.
pub open spec fn trim_end(s: Seq<char>) -> Seq<char>
    decreases s.len(),
{
    if s.len() > 0 && is_white(s.last()) {
        trim_end(s.drop_last())
    } else {
        s
    }
}

/// `s` without leading and trailing whitespace.
pub open spec fn trimmed(s: Seq<char>) -> Seq<char> {
    trim_end(trim_start(s))
}

proof fn lemma_trim_start_skip(s: Seq<char>, i: int)
    requires
        0 <= i <= s.len(),
        forall|k: int| 0 <= k < i ==> is_white(#[trigger] s[k]),
    ensures
        trim_start(s) == trim_start(s.skip(i)),
    decreases i,
{
    if i > 0 {
        let t = s.drop_first();
        assert(t.skip(i - 1) =~= s.skip(i));
        assert(is_white(s[0]));
        assert(trim_start(s) == trim_start(t));
        assert forall|k: int| 0 <= k < i - 1 implies is_white(#[trigger] t[k]) by {
            assert(t[k] == s[k + 1]);
        }
        lemma_trim_start_skip(t, i - 1);
    } else {
        assert(s.skip(0) =~= s);
    }
}

proof fn lemma_trim_end_take(s: Seq<char>, j: int)
    requires
        0 <= j <= s.len(),
        forall|k: int| j <= k < s.len() ==> is_white(#[trigger] s[k]),
    ensures
        trim_end(s) == trim_end(s.take(j)),
    decreases s.len() - j,
{
    if j < s.len() {
        assert(s.drop_last().take(j) == s.take(j));
        lemma_trim_end_take(s.drop_last(), j);
    } else {
        assert(s.take(j) == s);
    }
}

/// Removes leading and trailing Unicode whitespace, as `str::trim` does.
pub fn trim(s: &str) -> (t: String)
    ensures
        t@ == trimmed(s@),
{
    let chars = chars_of(s);
    let n = chars.len();
    let mut i: usize = 0;
    while i < n && is_white_char(chars[i])
        invariant
            i <= n == chars@.len(),
            forall|k: int| 0 <= k < i ==> is_white(#[trigger] chars@[k]),
        decreases n - i,
    {
        i = i + 1;
    }
    proof {
        lemma_trim_start_skip(chars@, i as int);
    }
    let ghost rest = chars@.skip(i as int);
    assert(trim_start(chars@) == rest) by {
        if rest.len() > 0 {
            assert(rest[0] == chars@[i as int]);
        }
    }
    let mut j: usize = n;
    while j > i && is_white_char(chars[j - 1])
        invariant
            i <= j <= n == chars@.len(),
            forall|k: int| j <= k < n ==> is_white(#[trigger] chars@[k]),
        decreases j,
    {
        j = j - 1;
    }
    let ghost kept = rest.take(j - i);
    proof {
        assert forall|k: int| j - i <= k < rest.len() implies is_white(#[trigger] rest[k]) by {
            assert(rest[k] == chars@[k + i]);
        }
        lemma_trim_end_take(rest, j - i);
        if kept.len() > 0 {
            assert(kept.last() == chars@[j - 1]);
        }
    }
    let mut out: Vec<char> = Vec::new();
    let mut k: usize = i;
    while k < j
        invariant
            i <= k <= j <= n == chars@.len(),
            out@ == chars@.subrange(i as int, k as int),
        decreases j - k,
    {
        out.push(chars[k]);
        k = k + 1;
        assert(out@ == chars@.subrange(i as int, k as int));
    }
    assert(out@ == kept);
    string_of(&out)
}

// ---------------------------------------------------------------------------
// ASCII case-insensitive comparison

/// `c` with ASCII capitals lowered; every other character is kept.
pub open spec fn ascii_lower(c: char) -> char {
    if 'A' <= c <= 'Z' {
        ((c as u32) + 32) as char
    } else {
        c
    }
}

/// `a` and `b` are equal once ASCII letters are folded to lower case.
pub open spec fn same_ignoring_ascii_case(a: Seq<char>, b: Seq<char>) -> bool {
    &&& a.len() == b.len()
    &&& forall|i: int| 0 <= i < a.len() ==> ascii_lower(#[trigger] a[i]) == ascii_lower(b[i])
}

fn ascii_lower_char(c: char) -> (l: char)
    ensures
        l == ascii_lower(c),
{
    if 'A' <= c && c <= 'Z' {
        ((c as u8) + 32) as char
    } else {
        c
    }
}

/// Compares two strings ignoring the case of ASCII letters, as
/// `str::eq_ignore_ascii_case` does.
pub fn eq_ignore_ascii_case(a: &str, b: &str) -> (same: bool)
    ensures
        same == same_ignoring_ascii_case(a@, b@),
{
    let x = chars_of(a);
    let y = chars_of(b);
    if x.len() != y.len() {
        return false;
    }
    let mut i: usize = 0;
    while i < x.len()
        invariant
            i <= x.len() == y.len(),
            x@ == a@,
            y@ == b@,
            forall|k: int| 0 <= k < i ==> ascii_lower(#[trigger] x@[k]) == ascii_lower(y@[k]),
        decreases x.len() - i,
    {
        if ascii_lower_char(x[i]) != ascii_lower_char(y[i]) {
            assert(ascii_lower(a@[i as int]) != ascii_lower(b@[i as int]));
            return false;
        }
        i = i + 1;
    }
    true
}

} // verus!
