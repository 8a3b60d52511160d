//! Reading and writing short pieces of text: the decimal and hexadecimal
//! numbers, names and lists that the front end shows and keeps.
//!
//! Text is handled as a sequence of characters. The contracts say what each
//! function gives back over `Seq<char>`, in the terms the standard library
//! documents for the operation of the same name.
use vstd::prelude::*;
use vstd::string::*;

verus! {

broadcast use vstd::seq_lib::group_seq_properties;

// ---------------------------------------------------------------------------
// Numbers written out
// ---------------------------------------------------------------------------

/// The digit character for a value below ten.
pub open spec fn digit_char(d: nat) -> char {
    if d == 0 {
        '0'
    } else if d == 1 {
        '1'
    } else if d == 2 {
        '2'
    } else if d == 3 {
        '3'
    } else if d == 4 {
        '4'
    } else if d == 5 {
        '5'
    } else if d == 6 {
        '6'
    } else if d == 7 {
        '7'
    } else if d == 8 {
        '8'
    } else {
        '9'
    }
}

/// The hexadecimal digit for a value below sixteen, in capitals.
pub open spec fn hex_char(d: nat) -> char {
    if d < 10 {
        digit_char(d)
    } else if d == 10 {
        'A'
    } else if d == 11 {
        'B'
    } else if d == 12 {
        'C'
    } else if d == 13 {
        'D'
    } else if d == 14 {
        'E'
    } else {
        'F'
    }
}

/// A number written in decimal, with no leading zeros: what `{}` writes.
pub open spec fn decimal(n: nat) -> Seq<char>
    decreases n,
{
    if n < 10 {
        seq![digit_char(n)]
    } else {
        decimal(n / 10).push(digit_char(n % 10))
    }
}

/// A 16-bit value as four hexadecimal digits in capitals: what `{:04X}`
/// writes.
pub open spec fn hex4(v: u16) -> Seq<char> {
    seq![
        hex_char((v as nat / 4096) % 16),
        hex_char((v as nat / 256) % 16),
        hex_char((v as nat / 16) % 16),
        hex_char(v as nat % 16),
    ]
}

/// A byte as two hexadecimal digits in capitals: what `{:02X}` writes.
pub open spec fn hex2(b: u8) -> Seq<char> {
    seq![hex_char(b as nat / 16), hex_char(b as nat % 16)]
}

/// `s` left-aligned in a field `width` characters wide: what `{:<width$}`
/// writes. Text already that wide is left as it is.
pub open spec fn pad_right(s: Seq<char>, width: nat) -> Seq<char> {
    if s.len() >= width {
        s
    } else {
        s + Seq::new((width - s.len()) as nat, |i: int| ' ')
    }
}

/// `s` right-aligned in a field `width` characters wide: what `{:>width$}`
/// writes, and what `{:width$}` writes for a number.
pub open spec fn pad_left(s: Seq<char>, width: nat) -> Seq<char> {
    if s.len() >= width {
        s
    } else {
        Seq::new((width - s.len()) as nat, |i: int| ' ') + s
    }
}

/// `String::push`, which vstd leaves without a contract.
#[verifier::external_body]
pub(crate) fn push_char(s: &mut String, c: char)
    ensures
        final(s)@ == old(s)@.push(c),
{
    s.push(c);
}

fn digit_of(d: u64) -> (c: char)
    requires
        d < 10,
    ensures
        c == digit_char(d as nat),
{
    if d == 0 {
        '0'
    } else if d == 1 {
        '1'
    } else if d == 2 {
        '2'
    } else if d == 3 {
        '3'
    } else if d == 4 {
        '4'
    } else if d == 5 {
        '5'
    } else if d == 6 {
        '6'
    } else if d == 7 {
        '7'
    } else if d == 8 {
        '8'
    } else {
        '9'
    }
}

fn hex_of(d: u16) -> (c: char)
    requires
        d < 16,
    ensures
        c == hex_char(d as nat),
{
    if d < 10 {
        digit_of(d as u64)
    } else if d == 10 {
        'A'
    } else if d == 11 {
        'B'
    } else if d == 12 {
        'C'
    } else if d == 13 {
        'D'
    } else if d == 14 {
        'E'
    } else {
        'F'
    }
}

/// Append a number in decimal.
pub fn push_decimal(s: &mut String, n: u64)
    ensures
        final(s)@ == old(s)@ + decimal(n as nat),
    decreases n,
{
    if n < 10 {
        push_char(s, digit_of(n));
        assert(old(s)@.push(digit_char(n as nat)) =~= old(s)@ + seq![digit_char(n as nat)]);
    } else {
        push_decimal(s, n / 10);
        push_char(s, digit_of(n % 10));
        assert(old(s)@ + decimal(n as nat) =~= (old(s)@ + decimal((n / 10) as nat)).push(
            digit_char((n % 10) as nat),
        ));
    }
}

/// Append four hexadecimal digits.
pub fn push_hex4(s: &mut String, v: u16)
    ensures
        final(s)@ == old(s)@ + hex4(v),
{
    push_char(s, hex_of((v / 4096) % 16));
    push_char(s, hex_of((v / 256) % 16));
    push_char(s, hex_of((v / 16) % 16));
    push_char(s, hex_of(v % 16));
    assert(final(s)@ =~= old(s)@ + hex4(v));
}

/// Append two hexadecimal digits.
pub fn push_hex2(s: &mut String, b: u8)
    ensures
        final(s)@ == old(s)@ + hex2(b),
{
    push_char(s, hex_of((b / 16) as u16));
    push_char(s, hex_of((b % 16) as u16));
    assert(final(s)@ =~= old(s)@ + hex2(b));
}

/// Append one hexadecimal digit: what `{:X}` writes for a value below
/// sixteen.
pub fn push_hex1(s: &mut String, d: u8)
    requires
        d < 16,
    ensures
        final(s)@ == old(s)@.push(hex_char(d as nat)),
{
    push_char(s, hex_of(d as u16));
}

/// Append the characters of `t`.
pub fn push_chars(s: &mut String, t: &Vec<char>)
    ensures
        final(s)@ == old(s)@ + t@,
{
    let mut i: usize = 0;
    while i < t.len()
        invariant
            i <= t.len(),
            s@ == old(s)@ + t@.take(i as int),
        decreases t.len() - i,
    {
        push_char(s, t[i]);
        assert(t@.take(i + 1) =~= t@.take(i as int).push(t@[i as int]));
        i = i + 1;
    }
    assert(t@.take(t.len() as int) =~= t@);
}

/// Append a piece of text.
pub fn push_str(s: &mut String, t: &str)
    ensures
        final(s)@ == old(s)@ + t@,
{
    let n = t.unicode_len();
    let mut i: usize = 0;
    while i < n
        invariant
            n == t@.len(),
            i <= n,
            s@ == old(s)@ + t@.take(i as int),
        decreases n - i,
    {
        push_char(s, t.get_char(i));
        assert(t@.take(i + 1) =~= t@.take(i as int).push(t@[i as int]));
        i = i + 1;
    }
    assert(t@.take(n as int) =~= t@);
}

/// The characters of a piece of text, one by one.
pub fn chars_of(t: &str) -> (v: Vec<char>)
    ensures
        v@ == t@,
{
    let n = t.unicode_len();
    let mut v: Vec<char> = Vec::new();
    let mut i: usize = 0;
    while i < n
        invariant
            n == t@.len(),
            i <= n,
            v@ == t@.take(i as int),
        decreases n - i,
    {
        v.push(t.get_char(i));
        assert(t@.take(i + 1) =~= t@.take(i as int).push(t@[i as int]));
        i = i + 1;
    }
    assert(t@.take(n as int) =~= t@);
    v
}

/// A string holding the given characters.
pub fn string_of(t: &Vec<char>) -> (s: String)
    ensures
        s@ == t@,
{
    let mut s = String::new();
    push_chars(&mut s, t);
    assert(Seq::<char>::empty() + t@ =~= t@);
    s
}

/// Append `t` left-aligned in a field `width` characters wide.
pub fn push_padded(s: &mut String, t: &Vec<char>, width: usize)
    ensures
        final(s)@ == old(s)@ + pad_right(t@, width as nat),
{
    push_chars(s, t);
    let mut n: usize = t.len();
    while n < width
        invariant
            t.len() <= n || n == t.len(),
            s@ == old(s)@ + t@ + Seq::new((n - t.len()) as nat, |i: int| ' '),
            t.len() <= n <= width || (n == t.len() && width < t.len()),
        decreases width - n,
    {
        push_char(s, ' ');
        assert(Seq::new((n + 1 - t.len()) as nat, |i: int| ' ') =~= Seq::new(
            (n - t.len()) as nat,
            |i: int| ' ',
        ).push(' '));
        n = n + 1;
    }
    if t.len() >= width {
        assert(s@ =~= old(s)@ + pad_right(t@, width as nat));
    } else {
        assert(s@ =~= old(s)@ + pad_right(t@, width as nat));
    }
}

/// Append `t` right-aligned in a field `width` characters wide.
pub fn push_right_aligned(s: &mut String, t: &Vec<char>, width: usize)
    ensures
        final(s)@ == old(s)@ + pad_left(t@, width as nat),
{
    let mut n: usize = t.len();
    while n < width
        invariant
            t.len() <= n,
            n <= width || n == t.len(),
            s@ == old(s)@ + Seq::new((n - t.len()) as nat, |i: int| ' '),
        decreases width - n,
    {
        push_char(s, ' ');
        assert(Seq::new((n + 1 - t.len()) as nat, |i: int| ' ') =~= Seq::new(
            (n - t.len()) as nat,
            |i: int| ' ',
        ).push(' '));
        n = n + 1;
    }
    let ghost before = s@;
    push_chars(s, t);
    if t.len() >= width {
        assert(s@ =~= old(s)@ + pad_left(t@, width as nat));
    } else {
        assert(n == width);
        assert(s@ =~= old(s)@ + pad_left(t@, width as nat));
    }
}


// ---------------------------------------------------------------------------
// Characters and case
// ---------------------------------------------------------------------------

/// What `char::to_ascii_lowercase` makes of a character: the capital letters
/// of ASCII become small ones and everything else is left alone.
pub open spec fn lower_char(c: char) -> char {
    if 'A' <= c && c <= 'Z' {
        ((c as u32) + 32) as char
    } else {
        c
    }
}

/// A piece of text with its ASCII capitals made small.
pub open spec fn ascii_lower(s: Seq<char>) -> Seq<char> {
    s.map_values(|c: char| lower_char(c))
}

/// Whether two pieces of text are the same but for the case of ASCII letters:
/// `str::eq_ignore_ascii_case`.
pub open spec fn eq_ignore_case(a: Seq<char>, b: Seq<char>) -> bool {
    ascii_lower(a) == ascii_lower(b)
}

/// Whether `needle` occurs in `hay` as a run of characters: `str::contains`.
pub open spec fn contains_seq(hay: Seq<char>, needle: Seq<char>) -> bool {
    exists|i: int| 0 <= i && i + needle.len() <= hay.len() && #[trigger] hay.subrange(
        i,
        i + needle.len(),
    ) == needle
}

/// Whether a character is white space, as `char::is_whitespace` has it: the
/// characters with Unicode's `White_Space` property.
pub open spec fn is_space(c: char) -> bool {
    ||| '\t' <= c && c <= '\r'
    ||| c == ' '
    ||| c == '\u{85}'
    ||| c == '\u{a0}'
    ||| c == '\u{1680}'
    ||| '\u{2000}' <= c && c <= '\u{200a}'
    ||| c == '\u{2028}'
    ||| c == '\u{2029}'
    ||| c == '\u{202f}'
    ||| c == '\u{205f}'
    ||| c == '\u{3000}'
}

/// White space taken off the front.
pub open spec fn trim_start(s: Seq<char>) -> Seq<char>
    decreases s.len(),
{
    if s.len() > 0 && is_space(s[0]) {
        trim_start(s.drop_first())
    } else {
        s
    }
}

/// White space taken off the end.
pub open spec fn trim_end(s: Seq<char>) -> Seq<char>
    decreases s.len(),
{
    if s.len() > 0 && is_space(s.last()) {
        trim_end(s.drop_last())
    } else {
        s
    }
}

/// White space taken off both ends: `str::trim`.
pub open spec fn trim(s: Seq<char>) -> Seq<char> {
    trim_end(trim_start(s))
}

fn is_lower_case_capital(c: char) -> (b: bool)
    ensures
        b == ('A' <= c && c <= 'Z'),
{
    'A' <= c && c <= 'Z'
}

/// A character with its ASCII capital made small.
pub fn lower_of(c: char) -> (r: char)
    ensures
        r == lower_char(c),
{
    if is_lower_case_capital(c) {
        let b: u8 = c as u8;
        let r: char = (b + 32) as char;
        assert(r == ((c as u32) + 32) as char);
        r
    } else {
        c
    }
}

/// Text with its ASCII capitals made small: `str::to_ascii_lowercase`.
pub fn to_lower(s: &Vec<char>) -> (r: Vec<char>)
    ensures
        r@ == ascii_lower(s@),
{
    let mut r: Vec<char> = Vec::new();
    let mut i: usize = 0;
    while i < s.len()
        invariant
            i <= s.len(),
            r@ == ascii_lower(s@.take(i as int)),
        decreases s.len() - i,
    {
        r.push(lower_of(s[i]));
        assert(ascii_lower(s@.take(i + 1)) =~= ascii_lower(s@.take(i as int)).push(
            lower_char(s@[i as int]),
        ));
        i = i + 1;
    }
    assert(s@.take(s.len() as int) =~= s@);
    r
}

/// Whether two runs of characters are the same.
pub fn same(a: &Vec<char>, b: &Vec<char>) -> (r: bool)
    ensures
        r == (a@ == b@),
{
    if a.len() != b.len() {
        return false;
    }
    let mut i: usize = 0;
    while i < a.len()
        invariant
            a.len() == b.len(),
            i <= a.len(),
            forall|j: int| 0 <= j < i ==> a@[j] == b@[j],
        decreases a.len() - i,
    {
        if a[i] != b[i] {
            return false;
        }
        i = i + 1;
    }
    assert(a@ =~= b@);
    true
}

/// Whether two pieces of text agree but for ASCII case.
pub fn same_ignoring_case(a: &Vec<char>, b: &Vec<char>) -> (r: bool)
    ensures
        r == eq_ignore_case(a@, b@),
{
    let la = to_lower(a);
    let lb = to_lower(b);
    same(&la, &lb)
}

/// Whether `needle` occurs in `hay`.
pub fn contains(hay: &Vec<char>, needle: &Vec<char>) -> (r: bool)
    ensures
        r == contains_seq(hay@, needle@),
{
    if needle.len() > hay.len() {
        return false;
    }
    let last: usize = hay.len() - needle.len();
    let mut i: usize = 0;
    loop
        invariant
            last == hay.len() - needle.len(),
            i <= last,
            forall|k: int|
                0 <= k < i ==> #[trigger] hay@.subrange(k, k + needle.len()) != needle@,
        decreases last - i,
    {
        let mut j: usize = 0;
        let mut ok = true;
        while j < needle.len()
            invariant
                i <= last,
                last == hay.len() - needle.len(),
                j <= needle.len(),
                ok ==> forall|m: int| 0 <= m < j ==> hay@[i + m] == needle@[m],
                !ok ==> hay@.subrange(i as int, i + needle.len()) != needle@,
            decreases needle.len() - j,
        {
            if ok && hay[i + j] != needle[j] {
                ok = false;
                assert(hay@.subrange(i as int, i + needle.len())[j as int] != needle@[j as int]);
            }
            j = j + 1;
        }
        if ok {
            assert(hay@.subrange(i as int, i + needle.len()) =~= needle@);
            return true;
        }
        if i == last {
            assert forall|k: int|
                0 <= k && k + needle@.len() <= hay@.len() implies #[trigger] hay@.subrange(
                k,
                k + needle@.len(),
            ) != needle@ by {
                assert(k <= i);
            }
            return false;
        }
        i = i + 1;
    }
}

/// Whether a character is white space.
pub fn space(c: char) -> (r: bool)
    ensures
        r == is_space(c),
{
    ('\t' <= c && c <= '\r') || c == ' ' || c == '\u{85}' || c == '\u{a0}' || c == '\u{1680}'
        || ('\u{2000}' <= c && c <= '\u{200a}') || c == '\u{2028}' || c == '\u{2029}' || c
        == '\u{202f}' || c == '\u{205f}' || c == '\u{3000}'
}

proof fn lemma_trim_start_skip(s: Seq<char>, i: int)
    requires
        0 <= i <= s.len(),
        forall|j: int| 0 <= j < i ==> is_space(s[j]),
    ensures
        trim_start(s) == trim_start(s.subrange(i, s.len() as int)),
    decreases i,
{
    if i > 0 {
        assert(s.drop_first().subrange(i - 1, s.drop_first().len() as int) =~= s.subrange(
            i,
            s.len() as int,
        ));
        lemma_trim_start_skip(s.drop_first(), i - 1);
    } else {
        assert(s.subrange(0, s.len() as int) =~= s);
    }
}

proof fn lemma_trim_end_cut(s: Seq<char>, j: int)
    requires
        0 <= j <= s.len(),
        forall|k: int| j <= k < s.len() ==> is_space(s[k]),
    ensures
        trim_end(s) == trim_end(s.subrange(0, j)),
    decreases s.len() - j,
{
    if j < s.len() {
        assert(s.drop_last().subrange(0, j) =~= s.subrange(0, j));
        lemma_trim_end_cut(s.drop_last(), j);
    } else {
        assert(s.subrange(0, j) =~= s);
    }
}

/// Text with the white space taken off both ends.
pub fn trimmed(s: &Vec<char>) -> (r: Vec<char>)
    ensures
        r@ == trim(s@),
{
    let mut i: usize = 0;
    while i < s.len() && space(s[i])
        invariant
            i <= s.len(),
            forall|j: int| 0 <= j < i ==> is_space(s@[j]),
        decreases s.len() - i,
    {
        i = i + 1;
    }
    proof {
        lemma_trim_start_skip(s@, i as int);
    }
    let ghost rest = s@.subrange(i as int, s.len() as int);
    assert(trim_start(rest) == rest);
    let mut j: usize = s.len();
    while j > i && space(s[j - 1])
        invariant
            i <= j <= s.len(),
            forall|k: int| j <= k < s.len() ==> is_space(s@[k]),
        decreases j,
    {
        j = j - 1;
    }
    proof {
        lemma_trim_end_cut(rest, j - i);
        assert(rest.subrange(0, j - i) =~= s@.subrange(i as int, j as int));
    }
    let mut r: Vec<char> = Vec::new();
    let mut k: usize = i;
    while k < j
        invariant
            i <= k <= j <= s.len(),
            r@ == s@.subrange(i as int, k as int),
        decreases j - k,
    {
        r.push(s[k]);
        assert(s@.subrange(i as int, k + 1) =~= s@.subrange(i as int, k as int).push(
            s@[k as int],
        ));
        k = k + 1;
    }
    r
}


// ---------------------------------------------------------------------------
// Taking text apart
// ---------------------------------------------------------------------------

/// The characters of each of a list of pieces.
pub open spec fn seqs(v: Seq<Vec<char>>) -> Seq<Seq<char>> {
    v.map_values(|x: Vec<char>| x@)
}

/// The pieces between the separators, in order, empty ones included:
/// `str::split` with a character. There is always at least one piece.
pub open spec fn split_on(s: Seq<char>, sep: char) -> Seq<Seq<char>>
    decreases s.len(),
{
    if s.len() == 0 {
        seq![Seq::<char>::empty()]
    } else {
        let p = split_on(s.drop_last(), sep);
        if s.last() == sep {
            p.push(Seq::<char>::empty())
        } else {
            p.update(p.len() - 1, p.last().push(s.last()))
        }
    }
}

/// The pieces put back together with the separator between them.
pub open spec fn join(pieces: Seq<Seq<char>>, sep: char) -> Seq<char>
    decreases pieces.len(),
{
    if pieces.len() == 0 {
        Seq::<char>::empty()
    } else if pieces.len() == 1 {
        pieces[0]
    } else {
        join(pieces.drop_last(), sep).push(sep) + pieces.last()
    }
}

/// Where a character first occurs.
pub open spec fn index_of(s: Seq<char>, c: char) -> Option<int>
    decreases s.len(),
{
    if s.len() == 0 {
        None
    } else if s[0] == c {
        Some(0)
    } else {
        match index_of(s.drop_first(), c) {
            Some(i) => Some(i + 1),
            None => None,
        }
    }
}

/// What comes before the first separator and what comes after it:
/// `str::split_once` with a character.
pub open spec fn split_once(s: Seq<char>, sep: char) -> Option<(Seq<char>, Seq<char>)> {
    match index_of(s, sep) {
        Some(i) => Some((s.take(i), s.skip(i + 1))),
        None => None,
    }
}

/// Whether a character occurs at all.
pub open spec fn has_char(s: Seq<char>, c: char) -> bool {
    exists|i: int| 0 <= i < s.len() && s[i] == c
}

/// The rest of `s` after `prefix`: `str::strip_prefix`.
pub open spec fn strip_prefix(s: Seq<char>, prefix: Seq<char>) -> Option<Seq<char>> {
    if prefix.len() <= s.len() && s.take(prefix.len() as int) == prefix {
        Some(s.skip(prefix.len() as int))
    } else {
        None
    }
}

/// What comes before `suffix` at the end of `s`: `str::strip_suffix`.
pub open spec fn strip_suffix(s: Seq<char>, suffix: Seq<char>) -> Option<Seq<char>> {
    if suffix.len() <= s.len() && s.skip(s.len() - suffix.len()) == suffix {
        Some(s.take(s.len() - suffix.len()))
    } else {
        None
    }
}

pub proof fn lemma_split_nonempty(s: Seq<char>, sep: char)
    ensures
        split_on(s, sep).len() >= 1,
    decreases s.len(),
{
    if s.len() > 0 {
        lemma_split_nonempty(s.drop_last(), sep);
    }
}

/// Splitting text that ends in a piece with no separator in it.
pub proof fn lemma_split_append(a: Seq<char>, b: Seq<char>, sep: char)
    requires
        !has_char(b, sep),
    ensures
        ({
            let p = split_on(a, sep);
            split_on(a + b, sep) == p.update(p.len() - 1, p.last() + b)
        }),
    decreases b.len(),
{
    lemma_split_nonempty(a, sep);
    let p = split_on(a, sep);
    if b.len() == 0 {
        assert(a + b =~= a);
        assert(p.last() + b =~= p.last());
        assert(p.update(p.len() - 1, p.last() + b) =~= p);
    } else {
        let b0 = b.drop_last();
        assert(!has_char(b0, sep)) by {
            if has_char(b0, sep) {
                let i = choose|i: int| 0 <= i < b0.len() && b0[i] == sep;
                assert(b[i] == sep);
            }
        }
        lemma_split_append(a, b0, sep);
        assert((a + b).drop_last() =~= a + b0);
        assert((a + b).last() == b.last());
        assert(b.last() != sep) by {
            assert(b[b.len() - 1] == b.last());
        }
        lemma_split_nonempty(a + b0, sep);
        assert(p.last() + b =~= (p.last() + b0).push(b.last()));
        assert(split_on(a + b, sep) =~= p.update(p.len() - 1, p.last() + b));
    }
}

/// Text joined with a separator that none of its pieces holds splits back
/// into the same pieces.
pub proof fn lemma_split_join(pieces: Seq<Seq<char>>, sep: char)
    requires
        pieces.len() >= 1,
        forall|i: int| 0 <= i < pieces.len() ==> !has_char(#[trigger] pieces[i], sep),
    ensures
        split_on(join(pieces, sep), sep) == pieces,
    decreases pieces.len(),
{
    if pieces.len() == 1 {
        lemma_split_append(Seq::<char>::empty(), pieces[0], sep);
        assert(Seq::<char>::empty() + pieces[0] =~= pieces[0]);
        assert(split_on(Seq::<char>::empty(), sep) =~= seq![Seq::<char>::empty()]);
        assert(Seq::<char>::empty() + pieces[0] =~= pieces[0]);
        assert(seq![Seq::<char>::empty()].update(0, Seq::<char>::empty() + pieces[0])
            =~= pieces);
    } else {
        let front = pieces.drop_last();
        assert forall|i: int| 0 <= i < front.len() implies !has_char(#[trigger] front[i], sep) by {
            assert(front[i] == pieces[i]);
        }
        lemma_split_join(front, sep);
        let a = join(front, sep).push(sep);
        assert(!has_char(pieces.last(), sep)) by {
            assert(pieces[pieces.len() - 1] == pieces.last());
        }
        lemma_split_append(a, pieces.last(), sep);
        assert(a.drop_last() =~= join(front, sep));
        let p = split_on(a, sep);
        assert(p =~= front.push(Seq::<char>::empty()));
        assert(Seq::<char>::empty() + pieces.last() =~= pieces.last());
        assert(p.update(p.len() - 1, p.last() + pieces.last()) =~= pieces);
    }
}

pub proof fn lemma_index_of(s: Seq<char>, c: char)
    ensures
        match index_of(s, c) {
            Some(i) => 0 <= i < s.len() && s[i] == c && forall|j: int| 0 <= j < i ==> s[j] != c,
            None => !has_char(s, c),
        },
    decreases s.len(),
{
    if s.len() > 0 {
        lemma_index_of(s.drop_first(), c);
        if s[0] != c {
            match index_of(s.drop_first(), c) {
                Some(i) => {
                    assert forall|j: int| 0 <= j < i + 1 implies s[j] != c by {
                        if j > 0 {
                            assert(s[j] == s.drop_first()[j - 1]);
                        }
                    }
                },
                None => {
                    if has_char(s, c) {
                        let k = choose|k: int| 0 <= k < s.len() && s[k] == c;
                        assert(s.drop_first()[k - 1] == c);
                    }
                },
            }
        }
    }
}

/// The pieces of `s` between the separators.
pub fn split(s: &Vec<char>, sep: char) -> (r: Vec<Vec<char>>)
    ensures
        seqs(r@) == split_on(s@, sep),
{
    let mut pieces: Vec<Vec<char>> = Vec::new();
    let mut cur: Vec<char> = Vec::new();
    let mut i: usize = 0;
    while i < s.len()
        invariant
            i <= s.len(),
            seqs(pieces@).push(cur@) == split_on(s@.take(i as int), sep),
        decreases s.len() - i,
    {
        let ghost before = s@.take(i as int);
        assert(s@.take(i + 1).drop_last() =~= before);
        assert(s@.take(i + 1).last() == s@[i as int]);
        if s[i] == sep {
            let done = cur;
            let ghost old_pieces = pieces@;
            let ghost done_view = done@;
            pieces.push(done);
            cur = Vec::new();
            assert(seqs(pieces@) =~= seqs(old_pieces).push(done_view));
            assert(seqs(pieces@).push(cur@) =~= split_on(before, sep).push(
                Seq::<char>::empty(),
            ));
        } else {
            let ghost p = split_on(before, sep);
            cur.push(s[i]);
            assert(seqs(pieces@).push(cur@) =~= p.update(p.len() - 1, p.last().push(s@[i as int])));
        }
        i = i + 1;
    }
    let ghost last = cur@;
    let ghost old_pieces = pieces@;
    pieces.push(cur);
    assert(s@.take(s.len() as int) =~= s@);
    assert(seqs(pieces@) =~= seqs(old_pieces).push(last));
    pieces
}

/// Where a character first occurs in `s`, if it does.
pub fn find_char(s: &Vec<char>, c: char) -> (r: Option<usize>)
    ensures
        r matches Some(i) ==> index_of(s@, c) == Some(i as int),
        r is None ==> index_of(s@, c) is None,
{
    proof {
        lemma_index_of(s@, c);
    }
    let mut i: usize = 0;
    while i < s.len()
        invariant
            i <= s.len(),
            forall|j: int| 0 <= j < i ==> s@[j] != c,
        decreases s.len() - i,
    {
        if s[i] == c {
            proof {
                lemma_index_of(s@, c);
                match index_of(s@, c) {
                    Some(k) => {
                        assert(s@[k] == c);
                        if k < i {
                            assert(s@[k] != c);
                        }
                        if k > i {
                            assert(s@[i as int] != c);
                        }
                    },
                    None => {
                        assert(s@[i as int] == c);
                    },
                }
            }
            return Some(i);
        }
        i = i + 1;
    }
    proof {
        match index_of(s@, c) {
            Some(k) => {
                assert(s@[k] == c);
            },
            None => {},
        }
    }
    None
}

/// The run of `s` from `from` up to `to`.
pub fn slice(s: &Vec<char>, from: usize, to: usize) -> (r: Vec<char>)
    requires
        from <= to <= s.len(),
    ensures
        r@ == s@.subrange(from as int, to as int),
{
    let mut r: Vec<char> = Vec::new();
    let mut k: usize = from;
    while k < to
        invariant
            from <= k <= to <= s.len(),
            r@ == s@.subrange(from as int, k as int),
        decreases to - k,
    {
        r.push(s[k]);
        assert(s@.subrange(from as int, k + 1) =~= s@.subrange(from as int, k as int).push(
            s@[k as int],
        ));
        k = k + 1;
    }
    r
}

/// What comes before the first `sep` and what comes after it.
pub fn split_once_at(s: &Vec<char>, sep: char) -> (r: Option<(Vec<char>, Vec<char>)>)
    ensures
        match split_once(s@, sep) {
            Some((a, b)) => r matches Some((x, y)) && x@ == a && y@ == b,
            None => r is None,
        },
{
    proof {
        lemma_index_of(s@, sep);
    }
    match find_char(s, sep) {
        Some(i) => {
            let a = slice(s, 0, i);
            let b = slice(s, i + 1, s.len());
            assert(a@ =~= s@.take(i as int));
            assert(b@ =~= s@.skip(i + 1));
            Some((a, b))
        },
        None => None,
    }
}

/// The rest of `s` after `prefix`, if it starts with it.
pub fn strip_prefix_of(s: &Vec<char>, prefix: &Vec<char>) -> (r: Option<Vec<char>>)
    ensures
        match strip_prefix(s@, prefix@) {
            Some(t) => r matches Some(x) && x@ == t,
            None => r is None,
        },
{
    if prefix.len() > s.len() {
        return None;
    }
    let head = slice(s, 0, prefix.len());
    assert(head@ =~= s@.take(prefix.len() as int));
    if same(&head, prefix) {
        let rest = slice(s, prefix.len(), s.len());
        assert(rest@ =~= s@.skip(prefix.len() as int));
        Some(rest)
    } else {
        None
    }
}

/// What comes before `suffix`, if `s` ends with it.
pub fn strip_suffix_of(s: &Vec<char>, suffix: &Vec<char>) -> (r: Option<Vec<char>>)
    ensures
        match strip_suffix(s@, suffix@) {
            Some(t) => r matches Some(x) && x@ == t,
            None => r is None,
        },
{
    if suffix.len() > s.len() {
        return None;
    }
    let cut = s.len() - suffix.len();
    let tail = slice(s, cut, s.len());
    assert(tail@ =~= s@.skip(cut as int));
    if same(&tail, suffix) {
        let front = slice(s, 0, cut);
        assert(front@ =~= s@.take(cut as int));
        Some(front)
    } else {
        None
    }
}

// ---------------------------------------------------------------------------
// Numbers read back
// ---------------------------------------------------------------------------

pub open spec fn is_digit(c: char) -> bool {
    '0' <= c && c <= '9'
}

pub open spec fn digit_value(c: char) -> nat {
    ((c as u32) - ('0' as u32)) as nat
}

/// The value of a run of decimal digits.
pub open spec fn digits_value(s: Seq<char>) -> nat
    decreases s.len(),
{
    if s.len() == 0 {
        0
    } else {
        digits_value(s.drop_last()) * 10 + digit_value(s.last())
    }
}

pub open spec fn all_digits(s: Seq<char>) -> bool {
    forall|i: int| 0 <= i < s.len() ==> is_digit(#[trigger] s[i])
}

/// What `str::parse` makes of text as an unsigned number, before it is held
/// to the range of a type: a `+` may lead, then at least one decimal digit
/// and nothing else.
pub open spec fn parse_unsigned(s: Seq<char>) -> Option<nat> {
    let body = if s.len() > 0 && s[0] == '+' {
        s.drop_first()
    } else {
        s
    };
    if body.len() == 0 || !all_digits(body) {
        None
    } else {
        Some(digits_value(body))
    }
}

/// `str::parse` into an unsigned type whose largest value is `max`.
pub open spec fn parse_within(s: Seq<char>, max: nat) -> Option<nat> {
    match parse_unsigned(s) {
        Some(n) => if n <= max {
            Some(n)
        } else {
            None
        },
        None => None,
    }
}

proof fn lemma_digits_grow(s: Seq<char>, k: int)
    requires
        0 <= k <= s.len(),
        all_digits(s),
    ensures
        digits_value(s.take(k)) <= digits_value(s),
    decreases s.len() - k,
{
    if k < s.len() {
        assert(s.drop_last().take(k) =~= s.take(k));
        assert(all_digits(s.drop_last()));
        lemma_digits_grow(s.drop_last(), k);
    } else {
        assert(s.take(k) =~= s);
    }
}

fn digit_at(c: char) -> (r: Option<u64>)
    ensures
        r matches Some(d) ==> is_digit(c) && d == digit_value(c) && d < 10,
        r is None ==> !is_digit(c),
{
    if '0' <= c && c <= '9' {
        let v: u32 = (c as u32) - ('0' as u32);
        Some(v as u64)
    } else {
        None
    }
}

/// Read a run of decimal digits as a number no larger than `max`.
fn parse_digits(body: &Vec<char>, max: u64) -> (r: Option<u64>)
    ensures
        r matches Some(n) ==> all_digits(body@) && n == digits_value(body@) && n <= max,
        r is None ==> !all_digits(body@) || digits_value(body@) > max,
{
    let mut acc: u64 = 0;
    let mut i: usize = 0;
    while i < body.len()
        invariant
            i <= body.len(),
            all_digits(body@.take(i as int)),
            acc == digits_value(body@.take(i as int)),
            acc <= max,
        decreases body.len() - i,
    {
        let ghost pre = body@.take(i as int);
        assert(body@.take(i + 1).drop_last() =~= pre);
        assert(body@.take(i + 1).last() == body@[i as int]);
        match digit_at(body[i]) {
            None => {
                return None;
            },
            Some(d) => {
                if d > max || acc > (max - d) / 10 {
                    proof {
                        if d <= max {
                            assert(acc * 10 + d > max) by (nonlinear_arith)
                                requires
                                    acc > (max - d) / 10,
                                    d <= max,
                            {}
                        }
                        if all_digits(body@) {
                            assert(all_digits(body@.take(i + 1)));
                            lemma_digits_grow(body@, i + 1);
                        }
                    }
                    return None;
                }
                proof {
                    assert(acc * 10 + d <= max) by (nonlinear_arith)
                        requires
                            acc <= (max - d) / 10,
                            d <= max,
                    {}
                }
                acc = acc * 10 + d;
                assert(all_digits(body@.take(i + 1))) by {
                    assert forall|j: int| 0 <= j < i + 1 implies is_digit(
                        #[trigger] body@.take(i + 1)[j],
                    ) by {
                        if j < i {
                            assert(body@.take(i + 1)[j] == pre[j]);
                        }
                    }
                }
            },
        }
        i = i + 1;
    }
    assert(body@.take(body.len() as int) =~= body@);
    Some(acc)
}

/// Read a number no larger than `max`, as `str::parse` does.
pub fn parse_number(s: &Vec<char>, max: u64) -> (r: Option<u64>)
    ensures
        match parse_within(s@, max as nat) {
            Some(n) => r == Some(n as u64),
            None => r is None,
        },
{
    let body = if s.len() > 0 && s[0] == '+' {
        slice(s, 1, s.len())
    } else {
        slice(s, 0, s.len())
    };
    assert(body@ =~= (if s@.len() > 0 && s@[0] == '+' {
        s@.drop_first()
    } else {
        s@
    }));
    if body.len() == 0 {
        return None;
    }
    parse_digits(&body, max)
}

/// A hexadecimal digit, in either case.
pub open spec fn is_hex_digit(c: char) -> bool {
    ('0' <= c && c <= '9') || ('a' <= c && c <= 'f') || ('A' <= c && c <= 'F')
}

/// What a hexadecimal digit is worth.
pub open spec fn hex_digit_value(c: char) -> nat {
    if '0' <= c && c <= '9' {
        ((c as u32) - ('0' as u32)) as nat
    } else if 'a' <= c && c <= 'f' {
        ((c as u32) - ('a' as u32) + 10) as nat
    } else {
        ((c as u32) - ('A' as u32) + 10) as nat
    }
}

/// The value of a run of hexadecimal digits.
pub open spec fn hex_value(s: Seq<char>) -> nat
    decreases s.len(),
{
    if s.len() == 0 {
        0
    } else {
        hex_value(s.drop_last()) * 16 + hex_digit_value(s.last())
    }
}

pub open spec fn all_hex(s: Seq<char>) -> bool {
    forall|i: int| 0 <= i < s.len() ==> is_hex_digit(#[trigger] s[i])
}

/// What `u16::from_str_radix(s, 16)` gives: a `+` may lead, then at least one
/// hexadecimal digit and nothing else, worth no more than `u16::MAX`.
pub open spec fn parse_hex(s: Seq<char>) -> Option<u16> {
    let body = if s.len() > 0 && s[0] == '+' {
        s.drop_first()
    } else {
        s
    };
    if body.len() == 0 || !all_hex(body) || hex_value(body) > u16::MAX {
        None
    } else {
        Some(hex_value(body) as u16)
    }
}

/// `s` with every copy of `c` at its start taken off: `str::trim_start_matches`
/// with a character.
pub open spec fn strip_leading(s: Seq<char>, c: char) -> Seq<char>
    decreases s.len(),
{
    if s.len() > 0 && s[0] == c {
        strip_leading(s.drop_first(), c)
    } else {
        s
    }
}

proof fn lemma_hex_grow(s: Seq<char>, k: int)
    requires
        0 <= k <= s.len(),
    ensures
        hex_value(s.take(k)) <= hex_value(s),
    decreases s.len() - k,
{
    if k < s.len() {
        assert(s.drop_last().take(k) =~= s.take(k));
        lemma_hex_grow(s.drop_last(), k);
    } else {
        assert(s.take(k) =~= s);
    }
}

fn hex_digit_at(c: char) -> (r: Option<u32>)
    ensures
        r matches Some(d) ==> is_hex_digit(c) && d == hex_digit_value(c) && d < 16,
        r is None ==> !is_hex_digit(c),
{
    if '0' <= c && c <= '9' {
        Some((c as u32) - ('0' as u32))
    } else if 'a' <= c && c <= 'f' {
        Some((c as u32) - ('a' as u32) + 10)
    } else if 'A' <= c && c <= 'F' {
        Some((c as u32) - ('A' as u32) + 10)
    } else {
        None
    }
}

/// Read text as a 16-bit hexadecimal number, as `u16::from_str_radix` does
/// with radix sixteen.
pub fn parse_hex16(s: &Vec<char>) -> (r: Option<u16>)
    ensures
        r == parse_hex(s@),
{
    let body = if s.len() > 0 && s[0] == '+' {
        slice(s, 1, s.len())
    } else {
        slice(s, 0, s.len())
    };
    assert(body@ =~= (if s@.len() > 0 && s@[0] == '+' {
        s@.drop_first()
    } else {
        s@
    }));
    if body.len() == 0 {
        return None;
    }
    let mut acc: u32 = 0;
    let mut i: usize = 0;
    while i < body.len()
        invariant
            i <= body.len(),
            body@ == (if s@.len() > 0 && s@[0] == '+' {
                s@.drop_first()
            } else {
                s@
            }),
            body@.len() > 0,
            all_hex(body@.take(i as int)),
            acc == hex_value(body@.take(i as int)),
            acc <= u16::MAX,
        decreases body.len() - i,
    {
        let ghost pre = body@.take(i as int);
        assert(body@.take(i + 1).drop_last() =~= pre);
        assert(body@.take(i + 1).last() == body@[i as int]);
        match hex_digit_at(body[i]) {
            None => {
                assert(!is_hex_digit(body@[i as int]));
                assert(!all_hex(body@));
                return None;
            },
            Some(d) => {
                let next: u32 = acc * 16 + d;
                if next > 65535 {
                    proof {
                        assert(hex_value(body@.take(i + 1)) == acc * 16 + d);
                        lemma_hex_grow(body@, i + 1);
                        assert(hex_value(body@) > u16::MAX);
                    }
                    return None;
                }
                assert(hex_value(body@.take(i + 1)) == next);
                acc = next;
                assert(all_hex(body@.take(i + 1))) by {
                    assert forall|j: int| 0 <= j < i + 1 implies is_hex_digit(
                        #[trigger] body@.take(i + 1)[j],
                    ) by {
                        if j < i {
                            assert(body@.take(i + 1)[j] == pre[j]);
                        }
                    }
                }
            },
        }
        i = i + 1;
    }
    assert(body@.take(body.len() as int) =~= body@);
    Some(acc as u16)
}

/// Take every copy of `c` off the start of `s`.
pub fn strip_leading_of(s: &Vec<char>, c: char) -> (r: Vec<char>)
    ensures
        r@ == strip_leading(s@, c),
{
    let mut i: usize = 0;
    while i < s.len() && s[i] == c
        invariant
            i <= s.len(),
            strip_leading(s@, c) == strip_leading(s@.skip(i as int), c),
        decreases s.len() - i,
    {
        assert(s@.skip(i as int).drop_first() =~= s@.skip(i + 1));
        i = i + 1;
    }
    let r = slice(s, i, s.len());
    assert(r@ =~= s@.skip(i as int));
    r
}


// ---------------------------------------------------------------------------
// Facts about what is written
// ---------------------------------------------------------------------------

/// None of the characters is `c`, checked one at a time from the end.
pub open spec fn lacks(s: Seq<char>, c: char) -> bool
    decreases s.len(),
{
    s.len() == 0 || (s.last() != c && lacks(s.drop_last(), c))
}

pub proof fn lemma_lacks(s: Seq<char>, c: char)
    requires
        lacks(s, c),
    ensures
        !has_char(s, c),
    decreases s.len(),
{
    if s.len() > 0 {
        lemma_lacks(s.drop_last(), c);
        if has_char(s, c) {
            let i = choose|i: int| 0 <= i < s.len() && s[i] == c;
            if i < s.len() - 1 {
                assert(s.drop_last()[i] == c);
            }
        }
    }
}

pub proof fn lemma_has_char_concat(a: Seq<char>, b: Seq<char>, c: char)
    ensures
        has_char(a + b, c) <==> has_char(a, c) || has_char(b, c),
{
    if has_char(a + b, c) {
        let i = choose|i: int| 0 <= i < (a + b).len() && (a + b)[i] == c;
        if i >= a.len() {
            assert(b[i - a.len()] == c);
        }
    }
    if has_char(a, c) {
        let i = choose|i: int| 0 <= i < a.len() && a[i] == c;
        assert((a + b)[i] == c);
    }
    if has_char(b, c) {
        let i = choose|i: int| 0 <= i < b.len() && b[i] == c;
        assert((a + b)[a.len() + i] == c);
    }
}

/// Text with something other than white space at each end is its own trim.
pub proof fn lemma_trim_clean(s: Seq<char>)
    requires
        s.len() > 0,
        !is_space(s[0]),
        !is_space(s.last()),
    ensures
        trim(s) == s,
{
}

/// Where `c` first occurs in text that has none of it before that point.
pub proof fn lemma_index_after(a: Seq<char>, b: Seq<char>, c: char)
    requires
        !has_char(a, c),
    ensures
        index_of(a + seq![c] + b, c) == Some(a.len() as int),
        split_once(a + seq![c] + b, c) == Some((a, b)),
    decreases a.len(),
{
    let s = a + seq![c] + b;
    if a.len() == 0 {
        assert(s[0] == c);
    } else {
        assert(a[0] != c);
        assert(!has_char(a.drop_first(), c)) by {
            if has_char(a.drop_first(), c) {
                let i = choose|i: int| 0 <= i < a.drop_first().len() && a.drop_first()[i] == c;
                assert(a[i + 1] == c);
            }
        }
        lemma_index_after(a.drop_first(), b, c);
        assert(s.drop_first() =~= a.drop_first() + seq![c] + b);
    }
    assert(s.take(a.len() as int) =~= a);
    assert(s.skip(a.len() as int + 1) =~= b);
}

/// A number written in decimal reads back as itself.
pub proof fn lemma_decimal_reads_back(n: nat)
    ensures
        all_digits(decimal(n)),
        digits_value(decimal(n)) == n,
        decimal(n).len() >= 1,
        parse_unsigned(decimal(n)) == Some(n),
        !is_space(decimal(n)[0]),
        !is_space(decimal(n).last()),
        decimal(n)[0] != '+',
        forall|c: char| !is_digit(c) ==> !has_char(decimal(n), c),
    decreases n,
{
    let d = decimal(n);
    if n < 10 {
        assert(d == seq![digit_char(n)]);
        assert(digit_value(digit_char(n)) == n);
        assert(d.drop_last() =~= Seq::<char>::empty());
        assert(d.last() == digit_char(n));
        assert(digits_value(d) == digits_value(d.drop_last()) * 10 + digit_value(d.last()));
    } else {
        lemma_decimal_reads_back(n / 10);
        let front = decimal(n / 10);
        assert(d.drop_last() =~= front);
        assert(digit_value(digit_char(n % 10)) == n % 10);
        assert(d.last() == digit_char(n % 10));
        assert(digits_value(d) == digits_value(front) * 10 + digit_value(d.last()));
        assert((n / 10) * 10 + n % 10 == n) by (nonlinear_arith);
        assert(all_digits(d)) by {
            assert forall|i: int| 0 <= i < d.len() implies is_digit(#[trigger] d[i]) by {
                if i < front.len() {
                    assert(d[i] == front[i]);
                }
            }
        }
        assert(d[0] == front[0]);
    }
    assert forall|c: char| !is_digit(c) implies !has_char(decimal(n), c) by {
        if has_char(d, c) {
            let i = choose|i: int| 0 <= i < d.len() && d[i] == c;
            assert(is_digit(d[i]));
        }
    }
}

/// Text that differs somewhere but for case is not the same ignoring case.
pub proof fn lemma_differ_at(a: Seq<char>, b: Seq<char>, i: int)
    requires
        0 <= i < a.len(),
        i < b.len(),
        lower_char(a[i]) != lower_char(b[i]),
    ensures
        !eq_ignore_case(a, b),
{
    assert(ascii_lower(a)[i] != ascii_lower(b)[i]);
}

/// Text of different lengths is not the same, whatever the case.
pub proof fn lemma_differ_len(a: Seq<char>, b: Seq<char>)
    requires
        a.len() != b.len(),
    ensures
        !eq_ignore_case(a, b),
        a != b,
{
    assert(ascii_lower(a).len() != ascii_lower(b).len());
}

/// What stripping one character off the end does.
pub proof fn lemma_strip_suffix_char(t: Seq<char>, c: char)
    ensures
        strip_suffix(t, seq![c]) == if t.len() > 0 && t.last() == c {
            Some(t.drop_last())
        } else {
            None::<Seq<char>>
        },
{
    if t.len() > 0 {
        let tail = t.skip(t.len() - 1);
        assert(tail.len() == 1);
        assert(tail[0] == t.last());
        if t.last() == c {
            assert(tail =~= seq![c]);
            assert(t.take(t.len() - 1) =~= t.drop_last());
        } else {
            assert(tail != seq![c]) by {
                assert(tail[0] != seq![c][0]);
            }
        }
    }
}

/// Text that differs somewhere is not the same text.
pub proof fn lemma_not_same(a: Seq<char>, b: Seq<char>, i: int)
    requires
        0 <= i < a.len(),
        i < b.len(),
        a[i] != b[i],
    ensures
        a != b,
{
}

} // verus!
