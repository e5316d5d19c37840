//! Text as Mercury's control port uses it: fields between single spaces, white space around
//! a field, and decimal numbers.

use vstd::prelude::*;

verus! {

/// The index of the first `c` in `s`, or the length of `s` if there is none.
pub open spec fn first_index<T>(s: Seq<T>, c: T) -> int
    decreases s.len(),
{
    if s.len() == 0 || s[0] == c {
        0
    } else {
        1 + first_index(s.skip(1), c)
    }
}

/// The fields of `s`, of which `c` is the separator: at least one, and one more than `s` has
/// separators.
pub open spec fn split_on<T>(s: Seq<T>, c: T) -> Seq<Seq<T>>
    decreases s.len(),
{
    let i = first_index(s, c);
    if 0 <= i < s.len() {
        seq![s.take(i)] + split_on(s.skip(i + 1), c)
    } else {
        seq![s]
    }
}

/// The fields `parts` with `c` between them.
pub open spec fn joined<T>(parts: Seq<Seq<T>>, c: T) -> Seq<T>
    decreases parts.len(),
{
    if parts.len() == 0 {
        Seq::empty()
    } else if parts.len() == 1 {
        parts[0]
    } else {
        parts[0].push(c) + joined(parts.skip(1), c)
    }
}

/// What `first_index` finds.
pub proof fn lemma_first_index<T>(s: Seq<T>, c: T)
    ensures
        0 <= first_index(s, c) <= s.len(),
        first_index(s, c) < s.len() ==> s[first_index(s, c)] == c,
        forall|j: int| 0 <= j < first_index(s, c) ==> s[j] != c,
    decreases s.len(),
{
    if s.len() == 0 || s[0] == c {
    } else {
        lemma_first_index(s.skip(1), c);
        assert forall|j: int| 0 <= j < first_index(s, c) implies s[j] != c by {
            if j > 0 {
                assert(s.skip(1)[j - 1] == s[j]);
            }
        }
    }
}

/// `first_index` is the only index with no `c` before it and a `c` at it or the end after it.
pub proof fn lemma_first_index_unique<T>(s: Seq<T>, c: T, i: int)
    requires
        0 <= i <= s.len(),
        i < s.len() ==> s[i] == c,
        forall|j: int| 0 <= j < i ==> s[j] != c,
    ensures
        first_index(s, c) == i,
{
    lemma_first_index(s, c);
    if first_index(s, c) < i {
        assert(s[first_index(s, c)] != c);
    }
}

/// Splitting loses nothing: the fields, joined again, are what was split, and the separator is
/// in none of them.
pub proof fn split_joins_back<T>(s: Seq<T>, c: T)
    ensures
        split_on(s, c).len() > 0,
        joined(split_on(s, c), c) == s,
        forall|i: int| 0 <= i < split_on(s, c).len() ==> !(#[trigger] split_on(s, c)[i]).contains(c),
    decreases s.len(),
{
    lemma_first_index(s, c);
    let i = first_index(s, c);
    let fields = split_on(s, c);
    if i < s.len() {
        let rest = split_on(s.skip(i + 1), c);
        split_joins_back(s.skip(i + 1), c);
        assert(fields.skip(1) =~= rest);
        assert(s.take(i).push(c) + s.skip(i + 1) =~= s);
        assert forall|k: int| 0 <= k < fields.len() implies !(#[trigger] fields[k]).contains(c) by {
            if k > 0 {
                assert(fields[k] == rest[k - 1]);
            }
        }
    }
}

/// A field without the separator, and more behind a separator, are split in that field and the
/// fields of the rest.
pub proof fn lemma_split_field<T>(field: Seq<T>, c: T, rest: Seq<T>)
    requires
        !field.contains(c),
    ensures
        split_on(field.push(c) + rest, c) == seq![field] + split_on(rest, c),
{
    let s = field.push(c) + rest;
    let i = field.len() as int;
    assert forall|j: int| 0 <= j < i implies s[j] != c by {
        assert(field.contains(field[j]));
    }
    lemma_first_index_unique(s, c, i);
    assert(s.take(i) =~= field);
    assert(s.skip(i + 1) =~= rest);
}

/// A field without the separator is split in itself alone.
pub proof fn lemma_split_last<T>(field: Seq<T>, c: T)
    requires
        !field.contains(c),
    ensures
        split_on(field, c) == seq![field],
{
    assert forall|j: int| 0 <= j < field.len() implies field[j] != c by {
        assert(field.contains(field[j]));
    }
    lemma_first_index_unique(field, c, field.len() as int);
}

/// The characters of `s`, one by one.
pub fn characters(s: &str) -> (r: Vec<char>)
    ensures
        r@ == s@,
{
    let mut r: Vec<char> = Vec::new();
    for c in it: s.chars()
        invariant
            r@ == s@.take(it.index() as int),
            it.seq() == s@,
    {
        assert(s@.take(it.index() as int).push(c) =~= s@.take(it.index() + 1));
        r.push(c);
    }
    assert(s@.take(s@.len() as int) =~= s@);
    r
}

/// Whether two texts are the same.
pub fn text_eq(a: &str, b: &str) -> (r: bool)
    ensures
        r == (a@ == b@),
{
    let x = characters(a);
    let y = characters(b);
    if x.len() != y.len() {
        return false;
    }
    let mut i: usize = 0;
    while i < x.len()
        invariant
            x@ == a@,
            y@ == b@,
            x.len() == y.len(),
            i <= x.len(),
            forall|j: int| 0 <= j < i ==> x[j] == y[j],
        decreases x.len() - i,
    {
        if x[i] != y[i] {
            return false;
        }
        i += 1;
    }
    assert(x@ =~= y@);
    true
}

/// What the texts of `parts` hold.
pub open spec fn texts(parts: Seq<&str>) -> Seq<Seq<char>> {
    parts.map_values(|p: &str| p@)
}

/// Splits `s` at every `c`.
pub fn split<'a>(s: &'a str, c: char) -> (r: Vec<&'a str>)
    ensures
        texts(r@) == split_on(s@, c),
        r.len() > 0,
{
    let chars = characters(s);
    let mut parts: Vec<&'a str> = Vec::new();
    let mut start: usize = 0;
    let mut i: usize = 0;
    assert(s@.skip(0) =~= s@);
    assert(texts(parts@) + split_on(s@, c) =~= split_on(s@, c));
    while i < chars.len()
        invariant
            chars@ == s@,
            start <= i <= chars.len(),
            forall|j: int| start <= j < i ==> s@[j] != c,
            texts(parts@) + split_on(s@.skip(start as int), c) == split_on(s@, c),
        decreases chars.len() - i,
    {
        if chars[i] == c {
            let ghost rest = s@.skip(start as int);
            let ghost before = parts@;
            let part = s.substring_char(start, i);
            parts.push(part);
            proof {
                lemma_first_index_unique(rest, c, i - start);
                assert(rest.take(i - start) =~= s@.subrange(start as int, i as int));
                assert(rest.skip(i - start + 1) =~= s@.skip(i + 1));
                assert(texts(parts@) =~= texts(before).push(part@));
                assert(texts(parts@) + split_on(s@.skip(i + 1), c) =~= texts(before) + (
                seq![part@] + split_on(s@.skip(i + 1), c)));
            }
            start = i + 1;
        }
        i += 1;
    }
    let ghost rest = s@.skip(start as int);
    let ghost before = parts@;
    let part = s.substring_char(start, i);
    parts.push(part);
    proof {
        lemma_first_index_unique(rest, c, i - start);
        assert(rest =~= s@.subrange(start as int, i as int));
        assert(texts(parts@) =~= texts(before) + seq![part@]);
    }
    parts
}

/// Whether `c` has Unicode's `White_Space` property.
pub open spec fn white_space(c: char) -> bool {
    ||| '\u{9}' <= c <= '\u{d}'
    ||| c == '\u{20}'
    ||| c == '\u{85}'
    ||| c == '\u{a0}'
    ||| c == '\u{1680}'
    ||| '\u{2000}' <= c <= '\u{200a}'
    ||| c == '\u{2028}'
    ||| c == '\u{2029}'
    ||| c == '\u{202f}'
    ||| c == '\u{205f}'
    ||| c == '\u{3000}'
}

/// Whether `c` is white space.
pub fn is_white_space(c: char) -> (r: bool)
    ensures
        r == white_space(c),
{
    ('\u{9}' <= c && c <= '\u{d}') || c == '\u{20}' || c == '\u{85}' || c == '\u{a0}' || c
        == '\u{1680}' || ('\u{2000}' <= c && c <= '\u{200a}') || c == '\u{2028}' || c == '\u{2029}'
        || c == '\u{202f}' || c == '\u{205f}' || c == '\u{3000}'
}

/// `s` without the white space that it starts with.
pub open spec fn trimmed_start(s: Seq<char>) -> Seq<char>
    decreases s.len(),
{
    if s.len() > 0 && white_space(s[0]) {
        trimmed_start(s.skip(1))
    } else {
        s
    }
}

/// `s` without the white space that it ends with.
pub open spec fn trimmed_end(s: Seq<char>) -> Seq<char>
    decreases s.len(),
{
    if s.len() > 0 && white_space(s.last()) {
        trimmed_end(s.drop_last())
    } else {
        s
    }
}

/// `s` without the white space around it.
pub open spec fn trimmed(s: Seq<char>) -> Seq<char> {
    trimmed_end(trimmed_start(s))
}

/// What is left has no white space at either end, and text without any there is left as it is.
pub proof fn trimmed_is_trimmed(s: Seq<char>)
    ensures
        trimmed(s).len() > 0 ==> !white_space(trimmed(s)[0]) && !white_space(trimmed(s).last()),
        (s.len() == 0 || !white_space(s[0]) && !white_space(s.last())) ==> trimmed(s) == s,
{
    lemma_trimmed_start(s);
    lemma_trimmed_end(trimmed_start(s));
}

proof fn lemma_trimmed_start(s: Seq<char>)
    ensures
        trimmed_start(s).len() > 0 ==> !white_space(trimmed_start(s)[0]),
    decreases s.len(),
{
    if s.len() > 0 && white_space(s[0]) {
        lemma_trimmed_start(s.skip(1));
    }
}

proof fn lemma_trimmed_end(s: Seq<char>)
    ensures
        trimmed_end(s).len() <= s.len(),
        trimmed_end(s) == s.take(trimmed_end(s).len() as int),
        trimmed_end(s).len() > 0 ==> !white_space(trimmed_end(s).last()),
    decreases s.len(),
{
    if s.len() > 0 && white_space(s.last()) {
        let n = trimmed_end(s).len() as int;
        lemma_trimmed_end(s.drop_last());
        assert(s.drop_last().take(n) =~= s.take(n));
    } else {
        assert(s.take(s.len() as int) =~= s);
    }
}

/// Takes the white space around `s` away.
pub fn trim<'a>(s: &'a str) -> (r: &'a str)
    ensures
        r@ == trimmed(s@),
{
    let chars = characters(s);
    let mut start: usize = 0;
    assert(s@.skip(0) =~= s@);
    while start < chars.len() && is_white_space(chars[start])
        invariant
            chars@ == s@,
            start <= chars.len(),
            trimmed_start(s@.skip(start as int)) == trimmed_start(s@),
        decreases chars.len() - start,
    {
        assert(s@.skip(start as int).skip(1) =~= s@.skip(start + 1));
        start += 1;
    }
    let mut end: usize = chars.len();
    assert(s@.subrange(start as int, end as int) =~= s@.skip(start as int));
    while start < end && is_white_space(chars[end - 1])
        invariant
            chars@ == s@,
            start <= end <= chars.len(),
            trimmed_end(s@.subrange(start as int, end as int)) == trimmed(s@),
        decreases end,
    {
        assert(s@.subrange(start as int, end as int).drop_last() =~= s@.subrange(
            start as int,
            end - 1,
        ));
        end -= 1;
    }
    s.substring_char(start, end)
}

/// Whether `c` is a decimal digit.
pub open spec fn is_digit(c: char) -> bool {
    '0' <= c <= '9'
}

/// Whether `s` is made of decimal digits, at least one.
pub open spec fn all_digits(s: Seq<char>) -> bool {
    &&& s.len() > 0
    &&& forall|i: int| 0 <= i < s.len() ==> is_digit(#[trigger] s[i])
}

/// The number that the digits `s` write.
pub open spec fn digits_value(s: Seq<char>) -> nat
    decreases s.len(),
{
    if s.len() == 0 {
        0
    } else {
        digits_value(s.drop_last()) * 10 + (s.last() as nat - '0' as nat) as nat
    }
}

/// `s` without the plus sign that it may start with.
pub open spec fn without_plus(s: Seq<char>) -> Seq<char> {
    if s.len() > 0 && s[0] == '+' {
        s.skip(1)
    } else {
        s
    }
}

/// The number that `s` writes: decimal digits, after a plus sign or without one. There is none
/// if `s` is not of that form, or if the number does not fit in a `usize`.
pub open spec fn number(s: Seq<char>) -> Option<usize> {
    let digits = without_plus(s);
    if all_digits(digits) && digits_value(digits) <= usize::MAX {
        Some(digits_value(digits) as usize)
    } else {
        None
    }
}

/// The first digits of a number write no more than all of them.
proof fn lemma_digits_value_take(s: Seq<char>, i: int)
    requires
        0 <= i <= s.len(),
    ensures
        digits_value(s.take(i)) <= digits_value(s),
    decreases s.len(),
{
    if i < s.len() {
        lemma_digits_value_take(s.drop_last(), i);
        assert(s.drop_last().take(i) =~= s.take(i));
    } else {
        assert(s.take(i) =~= s);
    }
}

/// Reads a decimal number.
pub fn parse_number(s: &str) -> (r: Option<usize>)
    ensures
        r == number(s@),
{
    let chars = characters(s);
    let start: usize = if chars.len() > 0 && chars[0] == '+' {
        1
    } else {
        0
    };
    let ghost digits = without_plus(s@);
    assert(digits =~= s@.skip(start as int));
    if start == chars.len() {
        return None;
    }
    let mut value: usize = 0;
    let mut i: usize = start;
    assert(digits.take(0) =~= Seq::<char>::empty());
    while i < chars.len()
        invariant
            chars@ == s@,
            start <= i <= chars.len(),
            digits == without_plus(s@),
            digits == s@.skip(start as int),
            forall|j: int| 0 <= j < i - start ==> is_digit(#[trigger] digits[j]),
            value == digits_value(digits.take(i - start)),
        decreases chars.len() - i,
    {
        let c = chars[i];
        assert(digits[i - start] == c);
        if !('0' <= c && c <= '9') {
            assert(!is_digit(digits[i - start]));
            return None;
        }
        let d: usize = (c as u32 - '0' as u32) as usize;
        proof {
            assert(digits.take(i - start + 1).drop_last() =~= digits.take(i - start));
            assert(digits_value(digits.take(i - start + 1)) == value * 10 + d);
            lemma_digits_value_take(digits, i - start + 1);
        }
        if value > (usize::MAX - d) / 10 {
            return None;
        }
        value = value * 10 + d;
        i += 1;
    }
    assert(digits.take(i - start) =~= digits);
    Some(value)
}

/// The decimal digit of `d`, for `d` under ten.
pub open spec fn digit(d: nat) -> char {
    if d == 0 {
        '0'
    } else if d == 1 {
        '1'
    } else if d == 2 {
        '2'
    } else if d == 3 {
        '3'
    } else if d == 4 {
        '4'
    } else if d == 5 {
        '5'
    } else if d == 6 {
        '6'
    } else if d == 7 {
        '7'
    } else if d == 8 {
        '8'
    } else {
        '9'
    }
}

/// `n` in decimal digits, without leading zeros.
pub open spec fn decimal(n: nat) -> Seq<char>
    decreases n,
{
    if n < 10 {
        seq![digit(n)]
    } else {
        decimal(n / 10).push(digit(n % 10))
    }
}

/// The text of one decimal digit.
fn digit_text(d: usize) -> (r: &'static str)
    requires
        d < 10,
    ensures
        r@ == seq![digit(d as nat)],
{
    proof {
        reveal_strlit("0");
        reveal_strlit("1");
        reveal_strlit("2");
        reveal_strlit("3");
        reveal_strlit("4");
        reveal_strlit("5");
        reveal_strlit("6");
        reveal_strlit("7");
        reveal_strlit("8");
        reveal_strlit("9");
    }
    let r = if d == 0 {
        "0"
    } else if d == 1 {
        "1"
    } else if d == 2 {
        "2"
    } else if d == 3 {
        "3"
    } else if d == 4 {
        "4"
    } else if d == 5 {
        "5"
    } else if d == 6 {
        "6"
    } else if d == 7 {
        "7"
    } else if d == 8 {
        "8"
    } else {
        "9"
    };
    assert(r@ =~= seq![digit(d as nat)]);
    r
}

/// Writes a number in decimal digits.
pub fn format_number(n: usize) -> (r: String)
    ensures
        r@ == decimal(n as nat),
    decreases n,
{
    if n < 10 {
        String::from_str(digit_text(n))
    } else {
        let mut r = format_number(n / 10);
        let ghost before = r@;
        r.append(digit_text(n % 10));
        assert(r@ =~= before.push(digit((n % 10) as nat)));
        r
    }
}

/// A number's own digits are read as that number.
pub proof fn decimal_reads_back(n: usize)
    ensures
        number(decimal(n as nat)) == Some(n),
{
    lemma_decimal(n as nat);
}

/// The digits of a number are digits, start with none but a digit, and write the number.
pub proof fn lemma_decimal(n: nat)
    ensures
        all_digits(decimal(n)),
        without_plus(decimal(n)) == decimal(n),
        digits_value(decimal(n)) == n,
    decreases n,
{
    reveal_with_fuel(digits_value, 2);
    if n < 10 {
        assert(decimal(n).drop_last() =~= Seq::<char>::empty());
    } else {
        lemma_decimal(n / 10);
        assert(decimal(n).drop_last() =~= decimal(n / 10));
        assert(is_digit(decimal(n / 10)[0]));
    }
}

/// The texts of a list are those of its entries, one for one.
pub proof fn texts_are_those_of_the_entries(parts: Seq<&str>)
    ensures
        texts(parts).len() == parts.len(),
        forall|i: int| 0 <= i < parts.len() ==> #[trigger] texts(parts)[i] == parts[i]@,
{
}

/// Splitting starts with what stands before the first separator, and goes on with the split of what
/// stands behind it.
pub proof fn split_takes_field_by_field<T>(field: Seq<T>, c: T, rest: Seq<T>)
    requires
        forall|i: int| 0 <= i < field.len() ==> #[trigger] field[i] != c,
    ensures
        split_on(field, c) == seq![field],
        split_on(field + seq![c] + rest, c).len() == split_on(rest, c).len() + 1,
        split_on(field + seq![c] + rest, c)[0] == field,
        split_on(field + seq![c] + rest, c).skip(1) == split_on(rest, c),
{
    assert(!field.contains(c));
    lemma_split_last(field, c);
    lemma_split_field(field, c, rest);
    assert(field + seq![c] + rest =~= field.push(c) + rest);
    assert((seq![field] + split_on(rest, c)).skip(1) =~= split_on(rest, c));
}

/// White space is what Unicode gives that property, by code points.
pub proof fn white_space_is_that_of_unicode(c: char)
    ensures
        white_space(c) <==> {
            let u = c as int;
            ||| 9 <= u <= 13
            ||| u == 32
            ||| u == 133
            ||| u == 160
            ||| u == 5760
            ||| 8192 <= u <= 8202
            ||| u == 8232
            ||| u == 8233
            ||| u == 8239
            ||| u == 8287
            ||| u == 12288
        },
{
}

/// Trimming takes the white space before and behind a text, all of it and nothing else. White space
/// within the text stays.
pub proof fn trimming_takes_the_white_space_around(
    lead: Seq<char>,
    core: Seq<char>,
    tail: Seq<char>,
)
    requires
        forall|i: int| 0 <= i < lead.len() ==> white_space(#[trigger] lead[i]),
        forall|i: int| 0 <= i < tail.len() ==> white_space(#[trigger] tail[i]),
        core.len() > 0 ==> !white_space(core[0]) && !white_space(core.last()),
    ensures
        trimmed(lead + core + tail) == core,
{
    assert(lead + core + tail =~= lead + (core + tail));
    lemma_trimmed_lead(lead, core + tail);
    if core.len() > 0 {
        assert((core + tail)[0] == core[0]);
        lemma_trimmed_tail(core, tail);
    } else {
        assert(core + tail =~= tail + Seq::<char>::empty());
        lemma_trimmed_lead(tail, Seq::empty());
        assert(trimmed(lead + core + tail) =~= core);
    }
}

proof fn lemma_trimmed_lead(lead: Seq<char>, s: Seq<char>)
    requires
        forall|i: int| 0 <= i < lead.len() ==> white_space(#[trigger] lead[i]),
    ensures
        trimmed_start(lead + s) == trimmed_start(s),
    decreases lead.len(),
{
    if lead.len() == 0 {
        assert(lead + s =~= s);
    } else {
        assert(white_space(lead[0]));
        assert((lead + s).skip(1) =~= lead.skip(1) + s);
        assert forall|i: int| 0 <= i < lead.skip(1).len() implies white_space(
            #[trigger] lead.skip(1)[i],
        ) by {
            assert(white_space(lead[i + 1]));
        }
        lemma_trimmed_lead(lead.skip(1), s);
    }
}

proof fn lemma_trimmed_tail(s: Seq<char>, tail: Seq<char>)
    requires
        forall|i: int| 0 <= i < tail.len() ==> white_space(#[trigger] tail[i]),
        s.len() > 0,
        !white_space(s.last()),
    ensures
        trimmed_end(s + tail) == s,
    decreases tail.len(),
{
    if tail.len() == 0 {
        assert(s + tail =~= s);
    } else {
        assert(white_space(tail[tail.len() - 1]));
        assert((s + tail).last() == tail.last());
        assert((s + tail).drop_last() =~= s + tail.drop_last());
        lemma_trimmed_tail(s, tail.drop_last());
    }
}

/// A digit alone is read as its value. A digit behind other digits makes ten times their number and
/// its own value, and no number at all where that is too large.
pub proof fn numbers_are_read_digit_by_digit(s: Seq<char>, c: char)
    requires
        forall|i: int| 0 <= i < s.len() ==> 48 <= (#[trigger] s[i]) as int <= 57,
        48 <= c as int <= 57,
    ensures
        number(seq![c]) == Some((c as int - 48) as usize),
        s.len() > 0 ==> number(s.push(c)) == match number(s) {
            Some(n) => if n * 10 + (c as int - 48) <= usize::MAX {
                Some((n * 10 + (c as int - 48)) as usize)
            } else {
                None
            },
            None => None,
        },
{
    let t = s.push(c);
    reveal_with_fuel(digits_value, 2);
    assert(seq![c].drop_last() =~= Seq::<char>::empty());
    assert(all_digits(seq![c])) by {
        assert(is_digit(seq![c][0]));
    }
    assert(without_plus(seq![c]) == seq![c]);
    assert(number(seq![c]) == Some((c as int - 48) as usize));
    if s.len() > 0 {
        assert(48 <= s[0] as int <= 57);
        assert(without_plus(s) == s);
        assert(t[0] == s[0]);
        assert(without_plus(t) == t);
        assert forall|i: int| 0 <= i < t.len() implies is_digit(#[trigger] t[i]) by {
            if i < s.len() {
                assert(48 <= s[i] as int <= 57);
            }
        }
        assert(all_digits(s)) by {
            assert forall|i: int| 0 <= i < s.len() implies is_digit(#[trigger] s[i]) by {
                assert(48 <= s[i] as int <= 57);
            }
        }
        assert(t.drop_last() =~= s);
    }
}

/// One plus sign before a number changes nothing.
pub proof fn numbers_may_have_a_plus(s: Seq<char>)
    requires
        s.len() > 0,
        s[0] != '+',
    ensures
        number(seq!['+'] + s) == number(s),
{
    assert((seq!['+'] + s).skip(1) =~= s);
}

/// Text without digits, and text with anything but digits behind a plus sign that may be first, is
/// no number.
pub proof fn other_text_is_no_number(s: Seq<char>, i: int)
    requires
        0 <= i < s.len(),
        !(48 <= s[i] as int <= 57),
        i > 0 || s[0] != '+',
    ensures
        number(s) is None,
        number(Seq::<char>::empty()) is None,
        number(seq!['+']) is None,
{
    assert(seq!['+'].skip(1) =~= Seq::<char>::empty());
    let digits = without_plus(s);
    if s[0] == '+' {
        assert(digits[i - 1] == s[i]);
        assert(!is_digit(digits[i - 1]));
    } else {
        assert(!is_digit(digits[i]));
    }
}

/// A number is written with its last digit behind the digits of its tenth part, and a number under
/// ten as one digit.
pub proof fn numbers_are_written_digit_by_digit(n: nat)
    ensures
        n < 10 ==> decimal(n).len() == 1 && decimal(n)[0] as int == 48 + n,
        n >= 10 ==> decimal(n).drop_last() == decimal(n / 10) && decimal(n).last() as int == 48 + n
            % 10,
        decimal(n).len() > 0,
        forall|i: int| 0 <= i < decimal(n).len() ==> 48 <= (#[trigger] decimal(n)[i]) as int <= 57,
        n > 0 ==> decimal(n)[0] as int != 48,
    decreases n,
{
    lemma_decimal(n);
    assert forall|i: int| 0 <= i < decimal(n).len() implies 48 <= (#[trigger] decimal(n)[i]) as int
        <= 57 by {
        assert(is_digit(decimal(n)[i]));
    }
    if n >= 10 {
        assert(decimal(n).drop_last() =~= decimal(n / 10));
        numbers_are_written_digit_by_digit(n / 10);
        assert(decimal(n)[0] == decimal(n / 10)[0]);
    }
}

} // verus!
