//! Text as sequences of characters.
use vstd::prelude::*;
use vstd::slice::{slice_subrange, slice_to_vec};
use vstd::utf8::{decode_utf8, encode_utf8, valid_utf8};

verus! {

/// `String::push` appends the given character.
pub assume_specification[ String::push ](s: &mut String, c: char)
    ensures
        final(s)@ == old(s)@.push(c),
;

/// `String::push_str` appends the given text.
pub assume_specification[ String::push_str ](s: &mut String, t: &str)
    ensures
        final(s)@ == old(s)@ + t@,
;

/// The UTF-8 bytes of `s`.
pub open spec fn utf8(s: Seq<char>) -> Seq<u8> {
    encode_utf8(s)
}

/// The text that bytes stand for, with what is not UTF-8 replaced.
pub uninterp spec fn utf8_lossy(bytes: Seq<u8>) -> Seq<char>;

/// `String::from_utf8_lossy`: a function of the bytes, which reads them exactly
/// where they are UTF-8.
#[verifier::external_body]
pub(crate) fn lossy(bytes: &[u8]) -> (r: String)
    ensures
        r@ == utf8_lossy(bytes@),
        valid_utf8(bytes@) ==> r@ == decode_utf8(bytes@),
{
    String::from_utf8_lossy(bytes).into_owned()
}

/// `String::from_utf8`: reads bytes exactly, and only where they are UTF-8.
#[verifier::external_body]
pub(crate) fn from_utf8(bytes: Vec<u8>) -> (r: Option<String>)
    ensures
        match r {
            Some(s) => valid_utf8(bytes@) && s@ == decode_utf8(bytes@),
            None => r is None && !valid_utf8(bytes@),
        },
{
    String::from_utf8(bytes).ok()
}

/// `s` in Unicode lower case.
pub uninterp spec fn lowercase(s: Seq<char>) -> Seq<char>;

/// `str::to_lowercase`: a function of the text.
#[verifier::external_body]
pub(crate) fn to_lowercase(s: &str) -> (r: String)
    ensures
        r@ == lowercase(s@),
{
    s.to_lowercase()
}

/// How two texts are ordered, by their first difference: -1, 0 or 1. A text
/// stands before every longer text that begins with it.
pub open spec fn text_order(a: Seq<char>, b: Seq<char>) -> int
    decreases a.len(),
{
    if a.len() == 0 {
        if b.len() == 0 {
            0
        } else {
            -1
        }
    } else if b.len() == 0 {
        1
    } else if a[0] as int != b[0] as int {
        if (a[0] as int) < (b[0] as int) {
            -1
        } else {
            1
        }
    } else {
        text_order(a.drop_first(), b.drop_first())
    }
}

/// Whether `c` has the Unicode property `White_Space`.
pub open spec fn is_space(c: char) -> bool {
    let n = c as u32;
    ||| 0x09 <= n <= 0x0d
    ||| n == 0x20
    ||| n == 0x85
    ||| n == 0xa0
    ||| n == 0x1680
    ||| 0x2000 <= n <= 0x200a
    ||| n == 0x2028
    ||| n == 0x2029
    ||| n == 0x202f
    ||| n == 0x205f
    ||| n == 0x3000
}

/// `s` without its leading whitespace.
pub open spec fn trim_start(s: Seq<char>) -> Seq<char>
    decreases s.len(),
{
    if s.len() > 0 && is_space(s[0]) {
        trim_start(s.drop_first())
    } else {
        s
    }
}

/// `s` without its trailing whitespace.
pub open spec fn trim_end(s: Seq<char>) -> Seq<char>
    decreases s.len(),
{
    if s.len() > 0 && is_space(s.last()) {
        trim_end(s.drop_last())
    } else {
        s
    }
}

/// `s` without its surrounding whitespace.
pub open spec fn trimmed(s: Seq<char>) -> Seq<char> {
    trim_end(trim_start(s))
}

/// Whether `p` stands in `s` at position `i`.
pub open spec fn stands_at(s: Seq<char>, p: Seq<char>, i: int) -> bool {
    0 <= i && i + p.len() <= s.len() && s.subrange(i, i + p.len()) == p
}

/// Whether `s` begins with `p`.
pub open spec fn has_prefix(s: Seq<char>, p: Seq<char>) -> bool {
    stands_at(s, p, 0)
}

/// Whether `p` stands anywhere in `s`.
pub open spec fn has_part(s: Seq<char>, p: Seq<char>) -> bool {
    exists|i: int| stands_at(s, p, i)
}

/// The first position, from `from` on, at which `p` stands in `s`.
pub open spec fn find_from(s: Seq<char>, p: Seq<char>, from: int) -> Option<int>
    decreases s.len() + 1 - from,
{
    if from + p.len() > s.len() || from < 0 {
        None
    } else if stands_at(s, p, from) {
        Some(from)
    } else {
        find_from(s, p, from + 1)
    }
}

/// The first position at which `c` stands in `s`, or the length of `s`.
pub open spec fn index_of(s: Seq<char>, c: char) -> int
    decreases s.len(),
{
    if s.len() == 0 || s[0] == c {
        0
    } else {
        1 + index_of(s.drop_first(), c)
    }
}

/// One line as it ends at a line feed: a carriage return before it goes too.
pub open spec fn strip_cr(s: Seq<char>) -> Seq<char> {
    if s.len() > 0 && s.last() == '\r' {
        s.drop_last()
    } else {
        s
    }
}

/// The lines of `s`. Each ends at a line feed or at the end of the text, and a
/// final line feed opens no further line.
pub open spec fn lines(s: Seq<char>) -> Seq<Seq<char>>
    decreases s.len(),
    via lines_decreases
{
    if s.len() == 0 {
        Seq::empty()
    } else if index_of(s, '\n') < s.len() {
        seq![strip_cr(s.take(index_of(s, '\n')))] + lines(s.skip(index_of(s, '\n') + 1))
    } else {
        seq![s]
    }
}

#[via_fn]
proof fn lines_decreases(s: Seq<char>) {
    lemma_index_of(s, '\n');
}

/// Whether a text is made of whole lines: it is empty or ends in a line feed.
pub open spec fn whole_lines(s: Seq<char>) -> bool {
    s.len() == 0 || s.last() == '\n'
}

/// Whole lines followed by a text have the lines of both.
pub proof fn lemma_lines_of_both(a: Seq<char>, b: Seq<char>)
    requires
        whole_lines(a),
    ensures
        lines(a + b) == lines(a) + lines(b),
    decreases a.len(),
{
    if a.len() == 0 {
        assert(a + b =~= b);
        assert(lines(a) + lines(b) =~= lines(b));
    } else {
        let n = index_of(a, '\n');
        lemma_index_of(a, '\n');
        assert(n < a.len());
        lemma_index_of_is(a + b, '\n', n);
        let rest = a.skip(n + 1);
        assert((a + b).take(n) =~= a.take(n));
        assert((a + b).skip(n + 1) =~= rest + b);
        lemma_lines_of_both(rest, b);
        assert(lines(a + b) =~= lines(a) + lines(b));
    }
}

/// One line with its line feed.
pub proof fn lemma_one_line(l: Seq<char>)
    requires
        !l.contains('\n'),
    ensures
        lines(l.push('\n')) == seq![strip_cr(l)],
{
    let s = l.push('\n');
    assert forall|i: int| 0 <= i < l.len() implies s[i] != '\n' by {
        assert(l.contains(l[i]));
    }
    lemma_index_of_is(s, '\n', l.len() as int);
    assert(s.take(l.len() as int) =~= l);
    assert(s.skip(l.len() as int + 1) =~= Seq::empty());
    assert(lines(Seq::<char>::empty()) =~= Seq::<Seq<char>>::empty());
    assert(lines(s) =~= seq![strip_cr(l)]);
}

proof fn lemma_trim_more(s: Seq<char>, c: char)
    requires
        is_space(c),
    ensures
        trimmed(s.push(c)) == trimmed(s),
    decreases s.len(),
{
    let more = s.push(c);
    if s.len() == 0 {
        assert(more.drop_first() =~= s);
        assert(trim_start(more.drop_first()) == s);
    } else if is_space(s[0]) {
        assert(more.drop_first() =~= s.drop_first().push(c));
        lemma_trim_more(s.drop_first(), c);
    } else {
        assert(more.drop_last() =~= s);
    }
}

/// A space at the end of a text does not outlive trimming.
pub proof fn lemma_trim_space(s: Seq<char>)
    requires
        s.len() > 0,
        is_space(s.last()),
    ensures
        trimmed(s) == trimmed(s.drop_last()),
{
    lemma_trim_more(s.drop_last(), s.last());
    assert(s.drop_last().push(s.last()) =~= s);
}

/// `index_of` finds the first place of `c`.
pub proof fn lemma_index_of(s: Seq<char>, c: char)
    ensures
        0 <= index_of(s, c) <= s.len(),
        forall|i: int| 0 <= i < index_of(s, c) ==> s[i] != c,
        index_of(s, c) < s.len() ==> s[index_of(s, c)] == c,
    decreases s.len(),
{
    if s.len() > 0 && s[0] != c {
        lemma_index_of(s.drop_first(), c);
        assert forall|i: int| 0 <= i < index_of(s, c) implies s[i] != c by {
            if i > 0 {
                assert(s[i] == s.drop_first()[i - 1]);
            }
        }
    }
}

/// The place where every earlier character differs is `index_of`.
pub proof fn lemma_index_of_is(s: Seq<char>, c: char, i: int)
    requires
        0 <= i <= s.len(),
        forall|j: int| 0 <= j < i ==> s[j] != c,
        i < s.len() ==> s[i] == c,
    ensures
        index_of(s, c) == i,
{
    lemma_index_of(s, c);
}

/// The decimal digits of `n`.
pub open spec fn decimal(n: nat) -> Seq<char>
    decreases n,
{
    if n < 10 {
        seq![('0' as u32 + n) as char]
    } else {
        decimal(n / 10).push(('0' as u32 + n % 10) as char)
    }
}

/// Whether `c` is an ASCII digit.
pub open spec fn is_digit(c: char) -> bool {
    '0' as u32 <= c as u32 <= '9' as u32
}

/// The number that the digits `s` write.
pub open spec fn digits_value(s: Seq<char>) -> nat
    decreases s.len(),
{
    if s.len() == 0 {
        0
    } else {
        (10 * digits_value(s.drop_last()) + (s.last() as u32 - '0' as u32)) as nat
    }
}

/// The digits of a number as it may be written: one leading `+` is allowed.
pub open spec fn unsigned_digits(s: Seq<char>) -> Seq<char> {
    if s.len() > 0 && s[0] == '+' {
        s.drop_first()
    } else {
        s
    }
}

/// The number that `s` writes, if it writes one of at most `max`.
pub open spec fn unsigned(s: Seq<char>, max: nat) -> Option<nat> {
    let d = unsigned_digits(s);
    if d.len() > 0 && (forall|i: int| 0 <= i < d.len() ==> is_digit(#[trigger] d[i])) && digits_value(d) <= max {
        Some(digits_value(d))
    } else {
        None
    }
}

/// `c` in ASCII lower case.
pub open spec fn ascii_lower(c: char) -> char {
    if 'A' as u32 <= c as u32 <= 'Z' as u32 {
        ((c as u32) + 32) as char
    } else {
        c
    }
}

/// `s` with its ASCII letters in lower case.
pub open spec fn lower(s: Seq<char>) -> Seq<char> {
    s.map_values(|c: char| ascii_lower(c))
}

/// The parts of `v`, with `sep` between each two.
pub open spec fn joined(v: Seq<Seq<char>>, sep: Seq<char>) -> Seq<char>
    decreases v.len(),
{
    if v.len() == 0 {
        Seq::empty()
    } else if v.len() == 1 {
        v[0]
    } else {
        joined(v.drop_last(), sep) + sep + v.last()
    }
}

/// The texts of `v`.
pub open spec fn texts(v: Seq<String>) -> Seq<Seq<char>> {
    v.map_values(|s: String| s@)
}

/// The characters of `s`, in order.
pub fn chars_of(s: &str) -> (v: Vec<char>)
    ensures
        v@ == s@,
{
    let mut v: Vec<char> = Vec::new();
    for c in it: s.chars()
        invariant
            v@ == it.seq().take(it.index() as int),
    {
        v.push(c);
        assert(it.seq().take(it.index() as int).push(c) =~= it.seq().take(it.index() + 1));
    }
    v
}

/// The text made of the characters `v`.
pub fn text_of(v: &[char]) -> (s: String)
    ensures
        s@ == v@,
{
    let mut s = String::new();
    let mut i: usize = 0;
    while i < v.len()
        invariant
            i <= v@.len(),
            s@ == v@.take(i as int),
        decreases v@.len() - i,
    {
        s.push(v[i]);
        i = i + 1;
        assert(v@.take(i as int) =~= v@.take(i - 1).push(v@[i - 1]));
    }
    assert(v@.take(v@.len() as int) =~= v@);
    s
}

/// A copy of the text `s`.
pub fn owned(s: &str) -> (r: String)
    ensures
        r@ == s@,
{
    s.to_string()
}

/// Whether two character sequences are the same.
pub fn same_chars(a: &[char], b: &[char]) -> (r: bool)
    ensures
        r == (a@ == b@),
{
    if a.len() != b.len() {
        return false;
    }
    let mut i: usize = 0;
    while i < a.len()
        invariant
            a@.len() == b@.len(),
            i <= a@.len(),
            forall|j: int| 0 <= j < i ==> a@[j] == b@[j],
        decreases a@.len() - i,
    {
        if a[i] != b[i] {
            return false;
        }
        i = i + 1;
    }
    assert(a@ =~= b@);
    true
}

/// Whether two texts are the same.
pub fn same_text(a: &str, b: &str) -> (r: bool)
    ensures
        r == (a@ == b@),
{
    same_chars(&chars_of(a), &chars_of(b))
}

/// How two texts are ordered.
pub fn order_texts(a: &[char], b: &[char]) -> (r: i8)
    ensures
        r == text_order(a@, b@),
{
    let mut i: usize = 0;
    assert(a@.skip(0) =~= a@);
    assert(b@.skip(0) =~= b@);
    while i < a.len() && i < b.len()
        invariant
            i <= a@.len(),
            i <= b@.len(),
            text_order(a@, b@) == text_order(a@.skip(i as int), b@.skip(i as int)),
        decreases a@.len() - i,
    {
        let p: char = a[i];
        let q: char = b[i];
        let x: u32 = p as u32;
        let y: u32 = q as u32;
        proof {
            lemma_char_number(p);
            lemma_char_number(q);
        }
        if x < y {
            return -1;
        }
        if x > y {
            return 1;
        }
        assert(a@.skip(i as int).drop_first() =~= a@.skip(i + 1));
        assert(b@.skip(i as int).drop_first() =~= b@.skip(i + 1));
        i = i + 1;
    }
    if a.len() == b.len() {
        0
    } else if i == a.len() {
        -1
    } else {
        1
    }
}

/// A character's number is the same in 32 bits.
proof fn lemma_char_number(c: char)
    ensures
        c as u32 == c as int,
{
}

/// The order of texts is the same read either way.
pub proof fn lemma_text_order_flips(a: Seq<char>, b: Seq<char>)
    ensures
        text_order(a, b) == -text_order(b, a),
        -1 <= text_order(a, b) <= 1,
    decreases a.len(),
{
    if a.len() > 0 && b.len() > 0 {
        lemma_text_order_flips(a.drop_first(), b.drop_first());
    }
}

/// Only equal texts are in neither order.
pub proof fn lemma_text_order_equal(a: Seq<char>, b: Seq<char>)
    ensures
        text_order(a, b) == 0 <==> a == b,
    decreases a.len(),
{
    if a.len() > 0 && b.len() > 0 {
        lemma_text_order_equal(a.drop_first(), b.drop_first());
        if a.drop_first() == b.drop_first() && a[0] as int == b[0] as int {
            assert(a =~= seq![a[0]] + a.drop_first());
            assert(b =~= seq![b[0]] + b.drop_first());
        }
    } else if a.len() == 0 && b.len() == 0 {
        assert(a =~= b);
    }
}

/// The order of texts is transitive.
pub proof fn lemma_text_order_chain(a: Seq<char>, b: Seq<char>, c: Seq<char>)
    requires
        text_order(a, b) <= 0,
        text_order(b, c) <= 0,
    ensures
        text_order(a, c) <= 0,
        text_order(a, b) < 0 || text_order(b, c) < 0 ==> text_order(a, c) < 0,
    decreases a.len(),
{
    if a.len() > 0 && b.len() > 0 && c.len() > 0 {
        if a[0] as int == b[0] as int && b[0] as int == c[0] as int {
            lemma_text_order_chain(a.drop_first(), b.drop_first(), c.drop_first());
        }
    }
}

/// Whether `v` holds the text `s`.
pub fn is_text(v: &[char], s: &str) -> (r: bool)
    ensures
        r == (v@ == s@),
{
    same_chars(v, &chars_of(s))
}

/// Whether `c` is whitespace.
pub fn space(c: char) -> (r: bool)
    ensures
        r == is_space(c),
{
    let n: u32 = c as u32;
    (0x09 <= n && n <= 0x0d) || n == 0x20 || n == 0x85 || n == 0xa0 || n == 0x1680 || (0x2000 <= n && n <= 0x200a)
        || n == 0x2028 || n == 0x2029 || n == 0x202f || n == 0x205f || n == 0x3000
}

/// `v` without its surrounding whitespace.
pub fn trim(v: &[char]) -> (r: &[char])
    ensures
        r@ == trimmed(v@),
{
    let mut from: usize = 0;
    assert(v@.subrange(0, v@.len() as int) =~= v@);
    while from < v.len() && space(v[from])
        invariant
            from <= v@.len(),
            trim_start(v@) == trim_start(v@.subrange(from as int, v@.len() as int)),
        decreases v@.len() - from,
    {
        assert(v@.subrange(from as int, v@.len() as int).drop_first() =~= v@.subrange(from + 1, v@.len() as int));
        from = from + 1;
    }
    let mut to: usize = v.len();
    while to > from && space(v[to - 1])
        invariant
            from <= to <= v@.len(),
            trim_end(v@.subrange(from as int, v@.len() as int)) == trim_end(v@.subrange(from as int, to as int)),
        decreases to,
    {
        assert(v@.subrange(from as int, to as int).drop_last() =~= v@.subrange(from as int, to - 1));
        to = to - 1;
    }
    slice_subrange(v, from, to)
}

/// Whether `p` stands in `v` at position `at`.
pub fn matches_at(v: &[char], p: &[char], at: usize) -> (r: bool)
    ensures
        r == stands_at(v@, p@, at as int),
{
    if p.len() > v.len() || at > v.len() - p.len() {
        return false;
    }
    same_chars(slice_subrange(v, at, at + p.len()), p)
}

/// The first position, from `from` on, at which `p` stands in `v`.
pub fn find(v: &[char], p: &[char], from: usize) -> (r: Option<usize>)
    ensures
        match r {
            Some(i) => find_from(v@, p@, from as int) == Some(i as int),
            None => find_from(v@, p@, from as int) is None,
        },
{
    let mut i: usize = from;
    while p.len() <= v.len() && i <= v.len() - p.len()
        invariant
            from <= i,
            find_from(v@, p@, from as int) == find_from(v@, p@, i as int),
        decreases v@.len() + 1 - i,
    {
        if matches_at(v, p, i) {
            return Some(i);
        }
        if i == v.len() - p.len() {
            assert(find_from(v@, p@, i + 1) is None);
            return None;
        }
        i = i + 1;
    }
    None
}

/// `find_from` gives the first place, or none where there is no place.
pub proof fn lemma_find_from(s: Seq<char>, p: Seq<char>, from: int)
    requires
        0 <= from,
    ensures
        match find_from(s, p, from) {
            Some(i) => from <= i && stands_at(s, p, i) && forall|j: int| from <= j < i ==> !stands_at(s, p, j),
            None => forall|j: int| from <= j ==> !stands_at(s, p, j),
        },
    decreases s.len() + 1 - from,
{
    if from + p.len() <= s.len() && !stands_at(s, p, from) {
        lemma_find_from(s, p, from + 1);
    }
}

/// Whether `p` stands anywhere in `v`.
pub fn contains(v: &[char], p: &[char]) -> (r: bool)
    ensures
        r == has_part(v@, p@),
{
    proof {
        lemma_find_from(v@, p@, 0);
    }
    match find(v, p, 0) {
        Some(i) => {
            assert(stands_at(v@, p@, i as int));
            true
        },
        None => false,
    }
}

/// The position of the first `c` in `v`, or the length of `v`.
pub fn position(v: &[char], c: char) -> (r: usize)
    ensures
        r == index_of(v@, c),
{
    let mut i: usize = 0;
    while i < v.len() && v[i] != c
        invariant
            i <= v@.len(),
            forall|j: int| 0 <= j < i ==> v@[j] != c,
        decreases v@.len() - i,
    {
        i = i + 1;
    }
    proof {
        lemma_index_of_is(v@, c, i as int);
    }
    i
}

/// The lines of `v`.
pub fn split_lines(v: &[char]) -> (r: Vec<Vec<char>>)
    ensures
        r@.map_values(|l: Vec<char>| l@) == lines(v@),
{
    let mut out: Vec<Vec<char>> = Vec::new();
    let mut at: usize = 0;
    assert(v@.skip(0) =~= v@);
    assert(out@.map_values(|l: Vec<char>| l@) =~= Seq::<Seq<char>>::empty());
    assert(lines(v@) =~= Seq::<Seq<char>>::empty() + lines(v@));
    while at < v.len()
        invariant
            at <= v@.len(),
            lines(v@) == out@.map_values(|l: Vec<char>| l@) + lines(v@.skip(at as int)),
        decreases v@.len() - at,
    {
        let ghost rest = v@.skip(at as int);
        let ghost before = out@.map_values(|l: Vec<char>| l@);
        let tail = slice_subrange(v, at, v.len());
        assert(tail@ =~= rest);
        let n: usize = position(tail, '\n');
        proof {
            lemma_index_of(rest, '\n');
        }
        if n < tail.len() {
            let mut end: usize = n;
            if n > 0 && tail[n - 1] == '\r' {
                end = n - 1;
            }
            let line = slice_to_vec(slice_subrange(tail, 0, end));
            assert(line@ =~= strip_cr(rest.take(n as int)));
            out.push(line);
            at = at + n + 1;
            assert(v@.skip(at as int) =~= rest.skip(n + 1));
            assert(out@.map_values(|l: Vec<char>| l@) =~= before.push(line@));
            assert(lines(v@) =~= before.push(line@) + lines(v@.skip(at as int)));
        } else {
            let line = slice_to_vec(tail);
            assert(line@ =~= rest);
            out.push(line);
            at = v.len();
            assert(v@.skip(at as int) =~= Seq::<char>::empty());
            assert(lines(rest) == seq![rest]);
            assert(out@.map_values(|l: Vec<char>| l@) =~= before.push(line@));
            assert(lines(v@) =~= before.push(line@) + lines(v@.skip(at as int)));
        }
    }
    assert(v@.skip(at as int) =~= Seq::<char>::empty());
    assert(lines(v@) =~= out@.map_values(|l: Vec<char>| l@));
    out
}

/// Appends the decimal digits of `n`.
pub fn push_decimal(s: &mut String, n: u64)
    ensures
        final(s)@ == old(s)@ + decimal(n as nat),
    decreases n,
{
    if n >= 10 {
        push_decimal(s, n / 10);
    }
    let digit: u8 = 48 + (n % 10) as u8;
    s.push(digit as char);
    assert(s@ =~= old(s)@ + decimal(n as nat));
}

/// The decimal digits of `n`.
pub fn number(n: u64) -> (s: String)
    ensures
        s@ == decimal(n as nat),
{
    let mut s = String::new();
    push_decimal(&mut s, n);
    assert(s@ =~= decimal(n as nat));
    s
}

/// A signed number in decimal.
pub open spec fn signed(n: int) -> Seq<char> {
    if n < 0 {
        seq!['-'] + decimal((-n) as nat)
    } else {
        decimal(n as nat)
    }
}

/// Appends a signed number in decimal.
pub fn push_signed(s: &mut String, n: i32)
    ensures
        final(s)@ == old(s)@ + signed(n as int),
{
    if n < 0 {
        s.push('-');
        push_decimal(s, (-(n as i64)) as u64);
    } else {
        push_decimal(s, n as u64);
    }
    assert(s@ =~= old(s)@ + signed(n as int));
}

/// Further digits never make a number smaller.
proof fn lemma_digits_prefix(s: Seq<char>, k: int)
    requires
        0 <= k <= s.len(),
        forall|i: int| 0 <= i < s.len() ==> is_digit(#[trigger] s[i]),
    ensures
        digits_value(s.take(k)) <= digits_value(s),
    decreases s.len(),
{
    if k == s.len() {
        assert(s.take(k) =~= s);
    } else {
        let t = s.drop_last();
        assert forall|i: int| 0 <= i < t.len() implies is_digit(#[trigger] t[i]) by {
            assert(t[i] == s[i]);
        }
        lemma_digits_prefix(t, k);
        assert(t.take(k) =~= s.take(k));
    }
}

/// Reads `v` as a number of at most `max`.
pub fn parse_unsigned(v: &[char], max: u64) -> (r: Option<u64>)
    ensures
        match r {
            Some(n) => unsigned(v@, max as nat) == Some(n as nat),
            None => unsigned(v@, max as nat) is None,
        },
{
    let from: usize = if v.len() > 0 && v[0] == '+' { 1 } else { 0 };
    let d = slice_subrange(v, from, v.len());
    assert(d@ =~= unsigned_digits(v@));
    if d.len() == 0 {
        return None;
    }
    let mut acc: u64 = 0;
    let mut i: usize = 0;
    while i < d.len()
        invariant
            d@ == unsigned_digits(v@),
            0 < d@.len(),
            i <= d@.len(),
            forall|j: int| 0 <= j < i ==> is_digit(#[trigger] d@[j]),
            acc == digits_value(d@.take(i as int)),
            acc <= max,
        decreases d@.len() - i,
    {
        let c: u32 = d[i] as u32;
        if c < 48 || c > 57 {
            assert(!is_digit(d@[i as int]));
            return None;
        }
        let next: u128 = acc as u128 * 10 + (c - 48) as u128;
        assert(d@.take(i + 1).drop_last() =~= d@.take(i as int));
        assert(next == digits_value(d@.take(i + 1)));
        if next > max as u128 {
            proof {
                if forall|j: int| 0 <= j < d@.len() ==> is_digit(#[trigger] d@[j]) {
                    lemma_digits_prefix(d@, i + 1);
                }
            }
            return None;
        }
        acc = next as u64;
        i = i + 1;
    }
    assert(d@.take(d@.len() as int) =~= d@);
    Some(acc)
}

/// `c` in ASCII lower case.
pub fn lower_char(c: char) -> (r: char)
    ensures
        r == ascii_lower(c),
{
    let n: u32 = c as u32;
    if 65 <= n && n <= 90 {
        let b: u8 = n as u8 + 32;
        b as char
    } else {
        c
    }
}

/// `v` with its ASCII letters in lower case.
pub fn lower_chars(v: &[char]) -> (r: Vec<char>)
    ensures
        r@ == lower(v@),
{
    let mut out: Vec<char> = Vec::new();
    let mut i: usize = 0;
    while i < v.len()
        invariant
            i <= v@.len(),
            out@.len() == i,
            forall|j: int| 0 <= j < i ==> out@[j] == ascii_lower(v@[j]),
        decreases v@.len() - i,
    {
        out.push(lower_char(v[i]));
        i = i + 1;
    }
    assert(out@ =~= lower(v@));
    out
}

/// The texts of `v` with `sep` between each two.
pub fn join(v: &[String], sep: &str) -> (r: String)
    ensures
        r@ == joined(texts(v@), sep@),
{
    let mut out = String::new();
    let mut i: usize = 0;
    while i < v.len()
        invariant
            i <= v@.len(),
            out@ == joined(texts(v@.take(i as int)), sep@),
        decreases v@.len() - i,
    {
        let ghost t = texts(v@.take(i + 1));
        assert(t.drop_last() =~= texts(v@.take(i as int)));
        assert(t.last() == v@[i as int]@);
        if i > 0 {
            out.push_str(sep);
        }
        out.push_str(v[i].as_str());
        assert(out@ =~= joined(t, sep@));
        i = i + 1;
    }
    assert(v@.take(v@.len() as int) =~= v@);
    out
}

/// `a` with the relative path `b` behind it, as paths are joined: an absolute
/// `b` stands alone, and one separator stands between the two.
pub open spec fn path_join(a: Seq<char>, b: Seq<char>) -> Seq<char> {
    if b.len() > 0 && b[0] == '/' {
        b
    } else if a.len() == 0 || a.last() == '/' {
        a + b
    } else {
        a + seq!['/'] + b
    }
}

/// Joins two paths.
pub fn join_path(a: &str, b: &str) -> (r: String)
    ensures
        r@ == path_join(a@, b@),
{
    let first = chars_of(a);
    let second = chars_of(b);
    if second.len() > 0 && second[0] == '/' {
        return owned(b);
    }
    let mut out = owned(a);
    if first.len() > 0 && first[first.len() - 1] != '/' {
        out.push('/');
    }
    out.push_str(b);
    assert(out@ =~= path_join(a@, b@));
    out
}

/// Whether `c` stands in `v`.
pub fn has_char(v: &[char], c: char) -> (r: bool)
    ensures
        r == v@.contains(c),
{
    let mut i: usize = 0;
    while i < v.len()
        invariant
            i <= v@.len(),
            forall|j: int| 0 <= j < i ==> v@[j] != c,
        decreases v@.len() - i,
    {
        if v[i] == c {
            return true;
        }
        i = i + 1;
    }
    false
}

/// A number that is written out reads back as itself.
pub proof fn a_written_number_reads_back(n: nat, max: nat)
    requires
        n <= max,
    ensures
        unsigned(decimal(n), max) == Some(n),
        digits_value(decimal(n)) == n,
        decimal(n).len() > 0,
        forall|i: int| 0 <= i < decimal(n).len() ==> '0' as u32 <= (#[trigger] decimal(n)[i]) as u32 <= '9' as u32,
    decreases n,
{
    let d = decimal(n);
    if n < 10 {
        assert(d.drop_last() =~= Seq::empty());
        assert(digits_value(d.drop_last()) == 0);
    } else {
        a_written_number_reads_back(n / 10, max);
        assert(d.drop_last() =~= decimal(n / 10));
    }
    assert forall|i: int| 0 <= i < d.len() implies is_digit(#[trigger] d[i]) by {
        if n >= 10 && i < d.len() - 1 {
            assert(d[i] == decimal(n / 10)[i]);
        }
    }
    assert(is_digit(d[0]));
    assert(unsigned_digits(d) == d);
}

/// A letter in upper case becomes the same letter in lower case, and everything
/// else stays, place by place.
pub proof fn lower_case_changes_capitals_alone(s: Seq<char>, i: int)
    requires
        0 <= i < s.len(),
    ensures
        lower(s).len() == s.len(),
        'A' as u32 <= s[i] as u32 <= 'Z' as u32 ==> lower(s)[i] as u32 - 'a' as u32 == s[i] as u32 - 'A' as u32,
        !('A' as u32 <= s[i] as u32 <= 'Z' as u32) ==> lower(s)[i] == s[i],
{
}

proof fn lemma_trim_start_cut(s: Seq<char>) -> (i: int)
    ensures
        0 <= i <= s.len(),
        trim_start(s) == s.skip(i),
        forall|k: int| 0 <= k < i ==> is_space(#[trigger] s[k]),
        i < s.len() ==> !is_space(s[i]),
    decreases s.len(),
{
    if s.len() > 0 && is_space(s[0]) {
        let i = lemma_trim_start_cut(s.drop_first());
        assert(s.drop_first().skip(i) =~= s.skip(i + 1));
        assert forall|k: int| 0 <= k < i + 1 implies is_space(#[trigger] s[k]) by {
            if k > 0 {
                assert(s[k] == s.drop_first()[k - 1]);
            }
        }
        i + 1
    } else {
        assert(s.skip(0) =~= s);
        0
    }
}

proof fn lemma_trim_end_cut(s: Seq<char>) -> (j: int)
    ensures
        0 <= j <= s.len(),
        trim_end(s) == s.take(j),
        forall|k: int| j <= k < s.len() ==> is_space(#[trigger] s[k]),
        j > 0 ==> !is_space(s[j - 1]),
    decreases s.len(),
{
    if s.len() > 0 && is_space(s.last()) {
        let j = lemma_trim_end_cut(s.drop_last());
        assert(s.drop_last().take(j) =~= s.take(j));
        assert forall|k: int| j <= k < s.len() implies is_space(#[trigger] s[k]) by {
            if k < s.len() - 1 {
                assert(s[k] == s.drop_last()[k]);
            }
        }
        j
    } else {
        assert(s.take(s.len() as int) =~= s);
        s.len() as int
    }
}

/// Trimming cuts off spaces at both ends, all of them, and nothing else.
pub proof fn trimming_cuts_the_spaces_at_both_ends(s: Seq<char>)
    ensures
        exists|i: int, j: int| #[trigger]
            is_inner(s, i, j) && trimmed(s) == s.subrange(i, j),
        trimmed(s).len() > 0 ==> !is_space(trimmed(s)[0]) && !is_space(trimmed(s).last()),
{
    let i = lemma_trim_start_cut(s);
    let rest = s.skip(i);
    let n = lemma_trim_end_cut(rest);
    assert(rest.take(n) =~= s.subrange(i, i + n));
    assert forall|k: int| i + n <= k < s.len() implies is_space(#[trigger] s[k]) by {
        assert(rest[k - i] == s[k]);
    }
    assert(is_inner(s, i, i + n));
}

/// Whether only spaces stand before `i` and from `j` on.
pub open spec fn is_inner(s: Seq<char>, i: int, j: int) -> bool {
    &&& 0 <= i <= j <= s.len()
    &&& forall|k: int| 0 <= k < i ==> is_space(#[trigger] s[k])
    &&& forall|k: int| j <= k < s.len() ==> is_space(#[trigger] s[k])
}

/// A text without a space at either end is not trimmed.
pub proof fn lemma_already_trimmed(s: Seq<char>)
    requires
        s.len() > 0 ==> !is_space(s[0]) && !is_space(s.last()),
    ensures
        trimmed(s) == s,
{
}

/// Among the plain characters the space, the tab and the four ends of a line and a
/// page are spaces, and no others.
pub proof fn the_plain_spaces_are_these(c: char)
    requires
        (c as u32) < 0x80,
    ensures
        is_space(c) <==> c == ' ' || c == '\t' || c == '\n' || c == '\r' || c as u32 == 0x0b || c as u32 == 0x0c,
{
}

/// A line ends before its line feed, and before the carriage return in front of
/// that; any other character belongs to the line.
pub proof fn a_line_ends_before_its_end(l: Seq<char>)
    requires
        !l.contains('\n'),
    ensures
        lines(l + "\r\n"@) == seq![l],
        l.len() == 0 || l.last() != '\r' ==> lines(l + "\n"@) == seq![l],
        l.len() > 0 ==> lines(l) == seq![l],
{
    reveal_strlit("\r\n");
    reveal_strlit("\n");
    let r = l.push('\r');
    assert forall|i: int| 0 <= i < r.len() implies r[i] != '\n' by {
        if i < l.len() {
            assert(l.contains(l[i]));
        }
    }
    lemma_one_line(l);
    lemma_one_line(r);
    assert(r.drop_last() =~= l);
    assert(l + "\r\n"@ =~= r.push('\n'));
    assert(l + "\n"@ =~= l.push('\n'));
    lemma_index_of(l, '\n');
    if index_of(l, '\n') < l.len() {
        assert(l.contains(l[index_of(l, '\n')]));
    }
}

/// A part that is joined to a path stands behind it with one slash between them;
/// one that begins at the root takes its place.
pub proof fn a_joined_path_has_one_slash(a: Seq<char>, b: Seq<char>)
    ensures
        b.len() > 0 && b[0] == '/' ==> path_join(a, b) == b,
        !(b.len() > 0 && b[0] == '/') && a.len() > 0 && a.last() != '/' ==> path_join(a, b) == a + "/"@ + b,
        !(b.len() > 0 && b[0] == '/') && (a.len() == 0 || a.last() == '/') ==> path_join(a, b) == a + b,
{
    reveal_strlit("/");
    assert("/"@ =~= seq!['/']);
}

/// Texts are joined in order, with the separator between them and nowhere else.
pub proof fn joined_texts_stand_in_order(a: Seq<Seq<char>>, last: Seq<char>, sep: Seq<char>)
    ensures
        joined(Seq::empty(), sep).len() == 0,
        joined(seq![last], sep) == last,
        a.len() > 0 ==> joined(a.push(last), sep) == joined(a, sep) + sep + last,
{
    assert(a.push(last).drop_last() =~= a);
}

/// A number below zero has a minus sign before its digits.
pub proof fn a_number_is_written_with_its_sign(n: int)
    ensures
        n < 0 ==> signed(n)[0] == '-' && signed(n).skip(1) == decimal((-n) as nat),
        n >= 0 ==> signed(n) == decimal(n as nat),
{
    assert(n < 0 ==> signed(n).skip(1) =~= decimal((-n) as nat));
}

/// A plus sign before a number changes nothing; a text with any other sign, and an
/// empty one, is no number.
pub proof fn a_plus_sign_changes_nothing(n: nat, max: nat, s: Seq<char>)
    requires
        n <= max,
    ensures
        unsigned("+"@ + decimal(n), max) == Some(n),
        unsigned(Seq::empty(), max) is None,
        s.len() > 0 && s[0] != '+' && !('0' as u32 <= s[0] as u32 <= '9' as u32) ==> unsigned(s, max) is None,
{
    reveal_strlit("+");
    a_written_number_reads_back(n, max);
    let t = "+"@ + decimal(n);
    assert(t.drop_first() =~= decimal(n));
    if s.len() > 0 && s[0] != '+' && !('0' as u32 <= s[0] as u32 <= '9' as u32) {
        assert(!is_digit(unsigned_digits(s)[0]));
    }
}

} // verus!
