//! Character-level operations on strings.
//!
//! A string is viewed as the sequence of its characters. The spec functions say
//! what each operation yields; the executable functions compute it.
use vstd::prelude::*;
use vstd::string::*;

verus! {

/// `String::push` puts one character at the end of the string.
pub assume_specification[ String::push ](s: &mut String, c: char)
    ensures
        final(s)@ == old(s)@.push(c),
;

/// The view of an optional string.
pub open spec fn text_view(t: Option<&str>) -> Option<Seq<char>> {
    match t {
        Some(s) => Some(s@),
        None => None,
    }
}

/// What an optional string holds.
pub open spec fn string_view(s: Option<String>) -> Option<Seq<char>> {
    match s {
        Some(t) => Some(t@),
        None => None,
    }
}

/// The views of a list of strings.
pub open spec fn string_views(strings: Seq<String>) -> Seq<Seq<char>> {
    strings.map_values(|s: String| s@)
}

/// The views of a list of pairs of strings.
pub open spec fn pair_views(pairs: Seq<(String, String)>) -> Seq<(Seq<char>, Seq<char>)> {
    pairs.map_values(|p: (String, String)| (p.0@, p.1@))
}

/// The characters that Unicode gives the property `White_Space`.
pub open spec fn white_space(c: char) -> bool {
    let u = c as u32;
    ||| 0x09 <= u <= 0x0d
    ||| u == 0x20
    ||| u == 0x85
    ||| u == 0xa0
    ||| u == 0x1680
    ||| 0x2000 <= u <= 0x200a
    ||| u == 0x2028
    ||| u == 0x2029
    ||| u == 0x202f
    ||| u == 0x205f
    ||| u == 0x3000
}

/// `s` without its leading white space.
pub open spec fn trim_start_of(s: Seq<char>) -> Seq<char>
    decreases s.len(),
{
    if s.len() > 0 && white_space(s[0]) {
        trim_start_of(s.drop_first())
    } else {
        s
    }
}

/// `s` without its trailing white space.
pub open spec fn trim_end_of(s: Seq<char>) -> Seq<char>
    decreases s.len(),
{
    if s.len() > 0 && white_space(s.last()) {
        trim_end_of(s.drop_last())
    } else {
        s
    }
}

/// `s` without its leading and trailing white space.
pub open spec fn trim_of(s: Seq<char>) -> Seq<char> {
    trim_end_of(trim_start_of(s))
}

/// Whether `needle` stands in `hay` at position `i`.
pub open spec fn occurs_at(hay: Seq<char>, needle: Seq<char>, i: int) -> bool {
    0 <= i && i + needle.len() <= hay.len() && hay.subrange(i, i + needle.len()) == needle
}

/// Whether `needle` stands anywhere in `hay` at position `from` or later.
pub open spec fn occurs_from(hay: Seq<char>, needle: Seq<char>, from: int) -> bool {
    exists|i: int| from <= i && #[trigger] occurs_at(hay, needle, i)
}

/// Whether `i` is the leftmost position, at `from` or later, at which `needle` stands in `hay`.
pub open spec fn first_occurrence(hay: Seq<char>, needle: Seq<char>, from: int, i: int) -> bool {
    &&& from <= i
    &&& occurs_at(hay, needle, i)
    &&& forall|j: int| from <= j < i ==> !#[trigger] occurs_at(hay, needle, j)
}

/// The leftmost position, at `from` or later, at which `needle` stands in `hay`.
pub open spec fn position_of(hay: Seq<char>, needle: Seq<char>, from: int) -> Option<int> {
    if occurs_from(hay, needle, from) {
        Some(choose|i: int| first_occurrence(hay, needle, from, i))
    } else {
        None
    }
}

/// There is one leftmost position at most.
pub proof fn lemma_position_of(hay: Seq<char>, needle: Seq<char>, from: int, i: int)
    requires
        first_occurrence(hay, needle, from, i),
    ensures
        position_of(hay, needle, from) == Some(i),
{
    let j = choose|j: int| first_occurrence(hay, needle, from, j);
    assert(first_occurrence(hay, needle, from, j));
    assert(!(i < j) && !(j < i));
}

/// What `String::from_utf8_lossy` makes of bytes.
pub uninterp spec fn lossy_text(bytes: Seq<u8>) -> Seq<char>;

/// `String::from_utf8_lossy`: UTF-8 is decoded, and what is none is replaced in a
/// way that depends on the bytes alone.
#[verifier::external_body]
pub(crate) fn decode_lossy(bytes: &Vec<u8>) -> (r: String)
    ensures
        r@ == lossy_text(bytes@),
        vstd::utf8::valid_utf8(bytes@) ==> r@ == vstd::utf8::decode_utf8(bytes@),
{
    String::from_utf8_lossy(bytes).into_owned()
}

/// `s` with every occurrence of `needle` taken out, found from left to right
/// without overlap.
pub open spec fn remove_of(s: Seq<char>, needle: Seq<char>) -> Seq<char>
    decreases s.len(),
{
    if s.len() == 0 || needle.len() == 0 {
        s
    } else if needle.is_prefix_of(s) {
        remove_of(s.skip(needle.len() as int), needle)
    } else {
        seq![s[0]] + remove_of(s.drop_first(), needle)
    }
}

/// What follows the last `sep` of `s`; all of `s` where it holds none.
pub open spec fn last_part_of(s: Seq<char>, sep: char) -> Seq<char>
    decreases s.len(),
{
    if s.len() == 0 || s.last() == sep {
        Seq::empty()
    } else {
        last_part_of(s.drop_last(), sep).push(s.last())
    }
}

/// `s` without the copies of `suffix` that it ends with.
pub open spec fn trim_suffix_of(s: Seq<char>, suffix: Seq<char>) -> Seq<char>
    decreases s.len(),
{
    if suffix.len() > 0 && suffix.is_suffix_of(s) {
        trim_suffix_of(s.take(s.len() - suffix.len()), suffix)
    } else {
        s
    }
}

/// The pieces of `s` between its occurrences of `sep`.
pub open spec fn split_of(s: Seq<char>, sep: char) -> Seq<Seq<char>>
    decreases s.len(),
{
    if s.len() == 0 {
        seq![s]
    } else {
        let front = split_of(s.drop_last(), sep);
        if s.last() == sep {
            front.push(Seq::empty())
        } else {
            front.drop_last().push(front.last().push(s.last()))
        }
    }
}

/// The character of a decimal digit.
pub open spec fn digit_char(d: int) -> char
    recommends
        0 <= d < 10,
{
    ('0' as u32 + d) as char
}

/// `n` in decimal, without leading zeros.
pub open spec fn decimal_of(n: nat) -> Seq<char>
    decreases n,
{
    if n < 10 {
        seq![digit_char(n as int)]
    } else {
        decimal_of(n / 10).push(digit_char((n % 10) as int))
    }
}

/// Whether `c` is a decimal digit of ASCII.
pub open spec fn is_digit(c: char) -> bool {
    '0' <= c <= '9'
}

/// Whether every character of `s` is a decimal digit.
pub open spec fn all_digits(s: Seq<char>) -> bool {
    forall|i: int| 0 <= i < s.len() ==> is_digit(#[trigger] s[i])
}

/// The number that a sequence of decimal digits denotes.
pub open spec fn number_of(s: Seq<char>) -> nat
    decreases s.len(),
{
    if s.len() == 0 {
        0
    } else {
        number_of(s.drop_last()) * 10 + (s.last() as u32 - '0' as u32) as nat
    }
}

/// The digits of `s` without the plus sign that may stand before them.
pub open spec fn unsigned_part(s: Seq<char>) -> Seq<char> {
    if s.len() > 0 && s[0] == '+' {
        s.drop_first()
    } else {
        s
    }
}

/// The `usize` that `s` denotes in decimal: an optional plus sign and at least
/// one digit. `None` where `s` has another form or the number does not fit.
pub open spec fn usize_of(s: Seq<char>) -> Option<usize> {
    let d = unsigned_part(s);
    if d.len() > 0 && all_digits(d) && number_of(d) <= usize::MAX {
        Some(number_of(d) as usize)
    } else {
        None
    }
}

/// The characters of `s`, in order.
pub fn chars_of(s: &str) -> (v: Vec<char>)
    ensures
        v@ == s@,
{
    let mut v: Vec<char> = Vec::new();
    for c in it: s.chars()
        invariant
            v@ == it.seq().take(it.index()),
            it.seq() == s@,
    {
        v.push(c);
    }
    v
}

/// Whether two strings hold the same characters.
pub fn same_text(a: &str, b: &str) -> (r: bool)
    ensures
        r == (a@ == b@),
{
    let x = a.to_owned();
    let y = b.to_owned();
    x == y
}

/// Whether `c` is white space.
pub fn is_white_space(c: char) -> (r: bool)
    ensures
        r == white_space(c),
{
    let u = c as u32;
    (0x09 <= u && u <= 0x0d) || u == 0x20 || u == 0x85 || u == 0xa0 || u == 0x1680 || (0x2000 <= u
        && u <= 0x200a) || u == 0x2028 || u == 0x2029 || u == 0x202f || u == 0x205f || u == 0x3000
}

/// `s` without its leading and trailing white space.
pub fn trim(s: &str) -> (r: &str)
    ensures
        r@ == trim_of(s@),
{
    let v = chars_of(s);
    let mut start: usize = 0;
    assert(s@.skip(0) =~= s@);
    while start < v.len() && is_white_space(v[start])
        invariant
            v@ == s@,
            start <= v.len(),
            trim_start_of(s@) == trim_start_of(s@.skip(start as int)),
        decreases v.len() - start,
    {
        assert(s@.skip(start as int).drop_first() =~= s@.skip(start + 1));
        start = start + 1;
    }
    assert(trim_start_of(s@) == s@.skip(start as int));
    let mut end: usize = v.len();
    assert(s@.subrange(start as int, end as int) =~= s@.skip(start as int));
    while start < end && is_white_space(v[end - 1])
        invariant
            v@ == s@,
            start <= end <= v.len(),
            trim_of(s@) == trim_end_of(s@.subrange(start as int, end as int)),
        decreases end,
    {
        assert(s@.subrange(start as int, end as int).drop_last() =~= s@.subrange(
            start as int,
            end - 1,
        ));
        end = end - 1;
    }
    s.substring_char(start, end)
}

/// Whether `prefix` stands at the front of `s`.
pub fn starts_with(s: &str, prefix: &str) -> (r: bool)
    ensures
        r == prefix@.is_prefix_of(s@),
{
    let v = chars_of(s);
    let p = chars_of(prefix);
    matches_at(&v, &p, 0)
}

/// What follows `prefix` in `s`, or `None` where `s` does not start with it.
pub fn strip_prefix<'a>(s: &'a str, prefix: &str) -> (r: Option<&'a str>)
    ensures
        r is Some <==> prefix@.is_prefix_of(s@),
        r matches Some(rest) ==> rest@ == s@.skip(prefix@.len() as int),
{
    let v = chars_of(s);
    let p = chars_of(prefix);
    if matches_at(&v, &p, 0) {
        Some(s.substring_char(p.len(), v.len()))
    } else {
        None
    }
}

/// Whether `needle` stands in `hay` at position `i`.
pub fn matches_at(hay: &Vec<char>, needle: &Vec<char>, i: usize) -> (r: bool)
    requires
        i <= hay@.len(),
    ensures
        r == occurs_at(hay@, needle@, i as int),
        r == needle@.is_prefix_of(hay@.skip(i as int)),
{
    if needle.len() > hay.len() - i {
        return false;
    }
    let mut k: usize = 0;
    while k < needle.len()
        invariant
            k <= needle.len(),
            i + needle.len() <= hay.len(),
            forall|j: int| 0 <= j < k ==> hay@[i + j] == needle@[j],
        decreases needle.len() - k,
    {
        if hay[i + k] != needle[k] {
            assert(hay@.subrange(i as int, i + needle@.len())[k as int] != needle@[k as int]);
            assert(hay@.skip(i as int)[k as int] != needle@[k as int]);
            return false;
        }
        k = k + 1;
    }
    assert(hay@.subrange(i as int, i + needle@.len()) =~= needle@);
    assert(hay@.skip(i as int).subrange(0, needle@.len() as int) =~= needle@);
    true
}

/// The leftmost position of `needle` in `hay` at `from` or later.
pub fn find_from(hay: &Vec<char>, needle: &Vec<char>, from: usize) -> (r: Option<usize>)
    requires
        from <= hay@.len(),
    ensures
        r is Some <==> occurs_from(hay@, needle@, from as int),
        r matches Some(i) ==> first_occurrence(hay@, needle@, from as int, i as int),
        r matches Some(i) ==> position_of(hay@, needle@, from as int) == Some(i as int),
{
    let mut i: usize = from;
    loop
        invariant
            from <= i <= hay@.len(),
            forall|j: int| from <= j < i ==> !#[trigger] occurs_at(hay@, needle@, j),
        decreases hay@.len() - i,
    {
        if matches_at(hay, needle, i) {
            proof {
                lemma_position_of(hay@, needle@, from as int, i as int);
            }
            return Some(i);
        }
        if i == hay.len() {
            return None;
        }
        i = i + 1;
    }
}

/// `s` with every occurrence of `needle` taken out.
pub fn remove_all(s: &str, needle: &str) -> (r: String)
    requires
        needle@.len() > 0,
    ensures
        r@ == remove_of(s@, needle@),
{
    let v = chars_of(s);
    let n = chars_of(needle);
    let mut out = String::new();
    let mut i: usize = 0;
    assert(s@.skip(0) =~= s@);
    while i < v.len()
        invariant
            v@ == s@,
            n@ == needle@,
            n@.len() > 0,
            i <= v.len(),
            remove_of(s@, needle@) == out@ + remove_of(s@.skip(i as int), needle@),
        decreases v.len() - i,
    {
        let ghost rest = s@.skip(i as int);
        if matches_at(&v, &n, i) {
            assert(rest.skip(n@.len() as int) =~= s@.skip(i + n@.len()));
            i = i + n.len();
        } else {
            let ghost before = out@;
            out.push(v[i]);
            proof {
                assert(rest.drop_first() =~= s@.skip(i + 1));
                let tail = remove_of(s@.skip(i + 1), needle@);
                assert(before + (seq![rest[0]] + tail) =~= before.push(rest[0]) + tail);
            }
            i = i + 1;
        }
    }
    assert(s@.skip(i as int).len() == 0);
    assert(out@ + remove_of(s@.skip(i as int), needle@) =~= out@);
    out
}

/// What follows the last `sep` of `s`.
pub fn last_part(s: &str, sep: char) -> (r: &str)
    ensures
        r@ == last_part_of(s@, sep),
{
    let v = chars_of(s);
    let mut i: usize = v.len();
    assert(s@.subrange(i as int, i as int) =~= Seq::<char>::empty());
    assert(s@.take(i as int) =~= s@);
    assert(last_part_of(s@, sep) + Seq::<char>::empty() =~= last_part_of(s@, sep));
    while i > 0 && v[i - 1] != sep
        invariant
            v@ == s@,
            i <= v.len(),
            last_part_of(s@, sep) == last_part_of(s@.take(i as int), sep) + s@.skip(i as int),
        decreases i,
    {
        proof {
            let t = s@.take(i as int);
            assert(t.drop_last() =~= s@.take(i - 1));
            assert(last_part_of(s@.take(i - 1), sep).push(t.last()) + s@.skip(i as int)
                =~= last_part_of(s@.take(i - 1), sep) + s@.skip(i - 1));
        }
        i = i - 1;
    }
    assert(last_part_of(s@.take(i as int), sep) + s@.skip(i as int) =~= s@.skip(i as int));
    assert(s@.subrange(i as int, v@.len() as int) =~= s@.skip(i as int));
    s.substring_char(i, v.len())
}

/// `s` without the copies of `suffix` that it ends with.
pub fn trim_suffix<'a>(s: &'a str, suffix: &str) -> (r: &'a str)
    requires
        suffix@.len() > 0,
    ensures
        r@ == trim_suffix_of(s@, suffix@),
{
    let v = chars_of(s);
    let p = chars_of(suffix);
    let mut end: usize = v.len();
    assert(s@.take(end as int) =~= s@);
    while end >= p.len() && matches_before(&v, &p, end)
        invariant
            v@ == s@,
            p@ == suffix@,
            p@.len() > 0,
            end <= v.len(),
            trim_suffix_of(s@, suffix@) == trim_suffix_of(s@.take(end as int), suffix@),
        decreases end,
    {
        assert(s@.take(end as int).take(end - p@.len()) =~= s@.take(end - p@.len()));
        end = end - p.len();
    }
    assert(s@.subrange(0, end as int) =~= s@.take(end as int));
    s.substring_char(0, end)
}

/// Whether the first `end` characters of `v` end with `suffix`.
fn matches_before(v: &Vec<char>, suffix: &Vec<char>, end: usize) -> (r: bool)
    requires
        suffix@.len() <= end <= v@.len(),
    ensures
        r == suffix@.is_suffix_of(v@.take(end as int)),
{
    let start = end - suffix.len();
    let mut k: usize = 0;
    while k < suffix.len()
        invariant
            k <= suffix.len(),
            start + suffix.len() == end,
            end <= v.len(),
            forall|j: int| 0 <= j < k ==> v@[start + j] == suffix@[j],
        decreases suffix.len() - k,
    {
        if v[start + k] != suffix[k] {
            let ghost t = v@.take(end as int);
            assert(t.subrange(t.len() - suffix@.len(), t.len() as int)[k as int]
                != suffix@[k as int]);
            return false;
        }
        k = k + 1;
    }
    assert(v@.take(end as int).subrange(start as int, end as int) =~= suffix@);
    true
}

/// The pieces of `s` between its occurrences of `sep`.
pub fn split(s: &str, sep: char) -> (r: Vec<String>)
    ensures
        r@.map_values(|p: String| p@) == split_of(s@, sep),
        r@.len() > 0,
{
    let v = chars_of(s);
    let mut done: Vec<String> = Vec::new();
    let mut piece = String::new();
    let mut i: usize = 0;
    assert(s@.take(0) =~= Seq::<char>::empty());
    assert(done@.map_values(|p: String| p@).push(piece@) =~= split_of(s@.take(0), sep));
    while i < v.len()
        invariant
            v@ == s@,
            i <= v.len(),
            done@.map_values(|p: String| p@).push(piece@) == split_of(s@.take(i as int), sep),
        decreases v.len() - i,
    {
        let ghost front = split_of(s@.take(i as int), sep);
        let ghost before = done@.map_values(|p: String| p@);
        assert(s@.take(i + 1).drop_last() =~= s@.take(i as int));
        assert(front.drop_last() =~= before);
        if v[i] == sep {
            done.push(piece);
            piece = String::new();
            assert(done@.map_values(|p: String| p@) =~= front);
        } else {
            piece.push(v[i]);
        }
        i = i + 1;
    }
    assert(s@.take(i as int) =~= s@);
    done.push(piece);
    assert(done@.map_values(|p: String| p@) =~= split_of(s@, sep));
    done
}

/// `n` in decimal.
pub fn decimal(n: u64) -> (r: String)
    ensures
        r@ == decimal_of(n as nat),
    decreases n,
{
    let d = (n % 10) as u8;
    let c = (48 + d) as char;
    if n < 10 {
        let mut s = String::new();
        s.push(c);
        s
    } else {
        let mut s = decimal(n / 10);
        s.push(c);
        s
    }
}

/// Reads a decimal number: an optional plus sign and at least one digit.
pub fn parse_usize(s: &str) -> (r: Option<usize>)
    ensures
        r == usize_of(s@),
{
    let v = chars_of(s);
    let mut i: usize = 0;
    if v.len() > 0 && v[0] == '+' {
        i = 1;
    }
    let start = i;
    let ghost d = unsigned_part(s@);
    assert(d =~= s@.skip(start as int));
    if start == v.len() {
        return None;
    }
    let mut n: usize = 0;
    assert(d.take(0) =~= Seq::<char>::empty());
    while i < v.len()
        invariant
            v@ == s@,
            d == s@.skip(start as int),
            start <= i <= v.len(),
            d.len() > 0,
            d == unsigned_part(s@),
            n == number_of(d.take(i - start)),
            forall|j: int| 0 <= j < i - start ==> is_digit(#[trigger] d[j]),
        decreases v.len() - i,
    {
        let c = v[i];
        assert(d[i - start] == c);
        if !('0' <= c && c <= '9') {
            return None;
        }
        let digit = (c as u32 - 48) as usize;
        proof {
            assert(d.take(i - start + 1).drop_last() =~= d.take(i - start));
            lemma_number_of_prefix(d, i - start + 1);
        }
        match n.checked_mul(10) {
            None => {
                return None;
            },
            Some(m) => match m.checked_add(digit) {
                None => {
                    return None;
                },
                Some(k) => {
                    n = k;
                },
            },
        }
        i = i + 1;
    }
    assert(d.take(i - start) =~= d);
    Some(n)
}

/// The number of a prefix is at most the number of the whole.
proof fn lemma_number_of_prefix(d: Seq<char>, k: int)
    requires
        0 <= k <= d.len(),
    ensures
        number_of(d.take(k)) <= number_of(d),
    decreases d.len(),
{
    if k == d.len() {
        assert(d.take(k) =~= d);
    } else {
        lemma_number_of_prefix(d.drop_last(), k);
        assert(d.drop_last().take(k) =~= d.take(k));
    }
}

/// The decimal form of a number reads back as that number.
pub proof fn lemma_decimal_reads_back(n: usize)
    ensures
        usize_of(decimal_of(n as nat)) == Some(n),
{
    lemma_decimal_number(n as nat);
}

/// The decimal form of `n` is made of digits that denote `n`.
pub proof fn lemma_decimal_number(n: nat)
    ensures
        decimal_of(n).len() > 0,
        all_digits(decimal_of(n)),
        number_of(decimal_of(n)) == n,
    decreases n,
{
    if n < 10 {
        assert(decimal_of(n).drop_last() =~= Seq::<char>::empty());
        assert(number_of(Seq::<char>::empty()) == 0);
    } else {
        lemma_decimal_number(n / 10);
        assert(decimal_of(n).drop_last() =~= decimal_of(n / 10));
    }
}

/// The decimal forms of two numbers differ where the numbers do.
pub proof fn lemma_decimal_injective(m: nat, n: nat)
    requires
        decimal_of(m) == decimal_of(n),
    ensures
        m == n,
{
    lemma_decimal_number(m);
    lemma_decimal_number(n);
}

/// Trimmed text has no white space at its ends, and trimming it again changes nothing.
pub proof fn lemma_trimmed_text(s: Seq<char>)
    ensures
        trim_of(s).len() > 0 ==> !white_space(trim_of(s)[0]) && !white_space(trim_of(s).last()),
        trim_of(trim_of(s)) == trim_of(s),
{
    let front = trim_start_of(s);
    lemma_trim_start(s);
    lemma_trim_end(front);
    let t = trim_of(s);
    if t.len() > 0 {
        assert(t[0] == front[0]);
    }
}

proof fn lemma_trim_start(s: Seq<char>)
    ensures
        trim_start_of(s).len() > 0 ==> !white_space(trim_start_of(s)[0]),
    decreases s.len(),
{
    if s.len() > 0 && white_space(s[0]) {
        lemma_trim_start(s.drop_first());
    }
}

proof fn lemma_trim_end(s: Seq<char>)
    ensures
        trim_end_of(s).is_prefix_of(s),
        trim_end_of(s).len() > 0 ==> !white_space(trim_end_of(s).last()),
    decreases s.len(),
{
    if s.len() > 0 && white_space(s.last()) {
        lemma_trim_end(s.drop_last());
    }
}

/// The path of a file in a directory.
pub open spec fn path_in(dir: Seq<char>, file: Seq<char>) -> Seq<char> {
    if dir.len() == 0 || dir.last() == '/' {
        dir + file
    } else {
        dir + "/"@ + file
    }
}

/// The path of `file`, a name without a leading slash, in the directory `dir`.
pub fn join_path(dir: &str, file: &str) -> (r: String)
    ensures
        r@ == path_in(dir@, file@),
{
    let chars = chars_of(dir);
    let mut path = dir.to_owned();
    if chars.len() > 0 && chars[chars.len() - 1] != '/' {
        path.append("/");
    }
    path.append(file);
    path
}

/// Trimming takes nothing but white space from the ends: what is left is one stretch of
/// the text, and all that stood before it and behind it is white space. The result
/// gives where that stretch starts and ends.
pub proof fn lemma_trim_keeps_the_middle(s: Seq<char>) -> (r: (int, int))
    ensures
        0 <= r.0 <= r.1 <= s.len(),
        trim_of(s) == s.subrange(r.0, r.1),
        forall|k: int| 0 <= k < r.0 ==> white_space(#[trigger] s[k]),
        forall|k: int| r.1 <= k < s.len() ==> white_space(#[trigger] s[k]),
{
    let i = lemma_trim_start_keeps_the_rest(s);
    let front = trim_start_of(s);
    let n = lemma_trim_end_keeps_the_rest(front);
    assert(trim_of(s) =~= s.subrange(i, i + n));
    assert forall|k: int| i + n <= k < s.len() implies white_space(#[trigger] s[k]) by {
        assert(front[k - i] == s[k]);
    }
    (i, i + n)
}

proof fn lemma_trim_start_keeps_the_rest(s: Seq<char>) -> (i: int)
    ensures
        0 <= i <= s.len(),
        trim_start_of(s) == s.skip(i),
        forall|k: int| 0 <= k < i ==> white_space(#[trigger] s[k]),
    decreases s.len(),
{
    if s.len() > 0 && white_space(s[0]) {
        let i = lemma_trim_start_keeps_the_rest(s.drop_first());
        assert(s.drop_first().skip(i) =~= s.skip(i + 1));
        assert forall|k: int| 0 <= k < i + 1 implies white_space(#[trigger] s[k]) by {
            if k > 0 {
                assert(s.drop_first()[k - 1] == s[k]);
            }
        }
        i + 1
    } else {
        assert(s.skip(0) =~= s);
        0
    }
}

proof fn lemma_trim_end_keeps_the_rest(s: Seq<char>) -> (n: int)
    ensures
        0 <= n <= s.len(),
        trim_end_of(s) == s.take(n),
        forall|k: int| n <= k < s.len() ==> white_space(#[trigger] s[k]),
    decreases s.len(),
{
    if s.len() > 0 && white_space(s.last()) {
        let n = lemma_trim_end_keeps_the_rest(s.drop_last());
        assert(s.drop_last().take(n) =~= s.take(n));
        assert forall|k: int| n <= k < s.len() implies white_space(#[trigger] s[k]) by {
            if k < s.len() - 1 {
                assert(s.drop_last()[k] == s[k]);
            }
        }
        n
    } else {
        assert(s.take(s.len() as int) =~= s);
        s.len() as int
    }
}

/// Text without white space at its ends is left as it is by trimming.
pub proof fn lemma_trimmed_text_stays(s: Seq<char>)
    requires
        s.len() > 0 ==> !white_space(s[0]) && !white_space(s.last()),
    ensures
        trim_of(s) == s,
{
}

/// Text that does not hold `needle` is left as it is by taking `needle` out.
pub proof fn lemma_nothing_to_remove(s: Seq<char>, needle: Seq<char>)
    requires
        !occurs_from(s, needle, 0),
    ensures
        remove_of(s, needle) == s,
    decreases s.len(),
{
    if s.len() > 0 && needle.len() > 0 {
        if needle.is_prefix_of(s) {
            assert(occurs_at(s, needle, 0));
        } else {
            let rest = s.drop_first();
            assert forall|i: int| 0 <= i implies !#[trigger] occurs_at(rest, needle, i) by {
                if occurs_at(rest, needle, i) {
                    assert(s.subrange(i + 1, i + 1 + needle.len()) =~= rest.subrange(
                        i,
                        i + needle.len(),
                    ));
                    assert(occurs_at(s, needle, i + 1));
                }
            }
            lemma_nothing_to_remove(rest, needle);
            assert(seq![s[0]] + rest =~= s);
        }
    }
}

/// Taking `needle` out keeps all that stands before its first occurrence, drops that
/// occurrence, and goes on behind it.
pub proof fn lemma_remove_goes_on_behind(s: Seq<char>, needle: Seq<char>, i: int)
    requires
        needle.len() > 0,
        first_occurrence(s, needle, 0, i),
    ensures
        remove_of(s, needle) == s.take(i) + remove_of(s.skip(i + needle.len()), needle),
    decreases s.len(),
{
    let n = needle.len() as int;
    if i == 0 {
        assert(s.subrange(0, n) =~= needle);
        assert(needle.is_prefix_of(s));
        assert(s.take(0) + remove_of(s.skip(n), needle) =~= remove_of(s.skip(n), needle));
    } else {
        assert(!occurs_at(s, needle, 0));
        assert(!needle.is_prefix_of(s));
        let rest = s.drop_first();
        assert(rest.subrange(i - 1, i - 1 + n) =~= s.subrange(i, i + n));
        assert forall|j: int| 0 <= j < i - 1 implies !#[trigger] occurs_at(rest, needle, j) by {
            if occurs_at(rest, needle, j) {
                assert(s.subrange(j + 1, j + 1 + n) =~= rest.subrange(j, j + n));
                assert(occurs_at(s, needle, j + 1));
            }
        }
        lemma_remove_goes_on_behind(rest, needle, i - 1);
        assert(rest.skip(i - 1 + n) =~= s.skip(i + n));
        assert(seq![s[0]] + rest.take(i - 1) =~= s.take(i));
        assert(remove_of(s, needle) =~= s.take(i) + remove_of(s.skip(i + n), needle));
    }
}

/// The last part of a text is its end, holds no separator, and stands behind one unless
/// it is the whole text.
pub proof fn lemma_last_part_stands_behind_the_last_separator(s: Seq<char>, sep: char)
    ensures
        ({
            let part = last_part_of(s, sep);
            &&& part.is_suffix_of(s)
            &&& !part.contains(sep)
            &&& part.len() < s.len() ==> s[s.len() - part.len() - 1] == sep
        }),
    decreases s.len(),
{
    let part = last_part_of(s, sep);
    if s.len() > 0 && s.last() != sep {
        lemma_last_part_stands_behind_the_last_separator(s.drop_last(), sep);
        let before = last_part_of(s.drop_last(), sep);
        assert(part =~= s.subrange(s.len() - part.len(), s.len() as int));
        if part.contains(sep) {
            let k = choose|k: int| 0 <= k < part.len() && part[k] == sep;
            assert(before[k] == sep);
        }
    } else {
        assert(part =~= s.subrange(s.len() as int, s.len() as int));
    }
}

/// `n` copies of `piece`, one behind the other.
pub open spec fn copies(piece: Seq<char>, n: nat) -> Seq<char>
    decreases n,
{
    if n == 0 {
        Seq::empty()
    } else {
        copies(piece, (n - 1) as nat) + piece
    }
}

/// Taking a suffix off takes off all of its copies, and nothing else. The result gives
/// their number.
pub proof fn lemma_trim_suffix_takes_all_copies(s: Seq<char>, suffix: Seq<char>) -> (n: nat)
    requires
        suffix.len() > 0,
    ensures
        s == trim_suffix_of(s, suffix) + copies(suffix, n),
        !suffix.is_suffix_of(trim_suffix_of(s, suffix)),
    decreases s.len(),
{
    if suffix.is_suffix_of(s) {
        let front = s.take(s.len() - suffix.len());
        let n = lemma_trim_suffix_takes_all_copies(front, suffix);
        assert(front + suffix =~= s);
        assert(trim_suffix_of(s, suffix) + copies(suffix, n + 1) =~= front + suffix);
        n + 1
    } else {
        assert(s + copies(suffix, 0) =~= s);
        0
    }
}

/// `parts` one behind the other, with `sep` between them.
pub open spec fn joined_by(parts: Seq<Seq<char>>, sep: char) -> Seq<char>
    decreases parts.len(),
{
    if parts.len() == 0 {
        Seq::empty()
    } else if parts.len() == 1 {
        parts[0]
    } else {
        joined_by(parts.drop_last(), sep).push(sep) + parts.last()
    }
}

/// Splitting loses nothing: the parts with the separator between them are the text, and
/// no part holds a separator.
pub proof fn lemma_split_parts_join_again(s: Seq<char>, sep: char)
    ensures
        split_of(s, sep).len() > 0,
        joined_by(split_of(s, sep), sep) == s,
        forall|i: int|
            0 <= i < split_of(s, sep).len() ==> !(#[trigger] split_of(s, sep)[i]).contains(sep),
    decreases s.len(),
{
    let parts = split_of(s, sep);
    if s.len() == 0 {
        assert(parts[0] =~= s);
    } else {
        lemma_split_parts_join_again(s.drop_last(), sep);
        let front = split_of(s.drop_last(), sep);
        if s.last() == sep {
            assert(parts.drop_last() =~= front);
            assert(joined_by(parts, sep) =~= s.drop_last().push(sep));
            assert(s.drop_last().push(sep) =~= s);
        } else {
            let last = front.last().push(s.last());
            assert(parts.last() == last);
            if parts.len() == 1 {
                assert(front.last() == front[0]);
                assert(last =~= s);
            } else {
                assert(parts.drop_last() =~= front.drop_last());
                assert(joined_by(parts, sep) =~= joined_by(front, sep).push(s.last()));
                assert(s.drop_last().push(s.last()) =~= s);
            }
            assert(!last.contains(sep)) by {
                if last.contains(sep) {
                    let k = choose|k: int| 0 <= k < last.len() && last[k] == sep;
                    assert(!front[front.len() - 1].contains(sep));
                    assert(front.last()[k] == sep);
                }
            }
            assert forall|i: int| 0 <= i < parts.len() implies !(
            #[trigger] parts[i]).contains(sep) by {
                if i < parts.len() - 1 {
                    assert(parts[i] == front[i]);
                }
            }
        }
    }
}

/// Behind a number each digit counts for itself and makes the others ten times as much.
pub proof fn lemma_digits_count_by_place(s: Seq<char>, d: int)
    requires
        0 <= d < 10,
    ensures
        number_of(s.push(digit_char(d))) == 10 * number_of(s) + d,
        is_digit(digit_char(d)),
{
    assert(s.push(digit_char(d)).drop_last() =~= s);
}

/// A number is read wherever there are digits alone, or digits behind one plus sign,
/// and nowhere else, unless it is too large.
pub proof fn lemma_what_is_read_as_a_number(s: Seq<char>)
    ensures
        s.len() > 0 && all_digits(s) && number_of(s) <= usize::MAX ==> usize_of(s) == Some(
            number_of(s) as usize,
        ),
        s.len() > 0 && all_digits(s) ==> usize_of(seq!['+'] + s) == usize_of(s),
        usize_of(s) is Some ==> s.len() > 0 && (all_digits(s) || (s[0] == '+' && s.len() > 1
            && all_digits(s.drop_first()))),
        usize_of(s) is Some ==> usize_of(s)->0 == number_of(
            if s[0] == '+' {
                s.drop_first()
            } else {
                s
            },
        ),
{
    assert((seq!['+'] + s).drop_first() =~= s);
    if s.len() > 0 && all_digits(s) {
        assert(is_digit(s[0]));
    }
}

/// A number is written without leading zeros.
pub proof fn lemma_decimal_has_no_leading_zero(n: nat)
    ensures
        n > 0 ==> decimal_of(n)[0] != '0',
        n == 0 ==> decimal_of(n) == seq!['0'],
    decreases n,
{
    if n >= 10 {
        lemma_decimal_has_no_leading_zero(n / 10);
        lemma_decimal_number(n / 10);
    }
}

/// The path of a file in a directory starts with the directory, and what follows its
/// last slash is the file.
pub proof fn lemma_path_names_directory_and_file(dir: Seq<char>, file: Seq<char>)
    requires
        dir.len() > 0,
        !file.contains('/'),
    ensures
        dir.is_prefix_of(path_in(dir, file)),
        last_part_of(path_in(dir, file), '/') == file,
        path_in(dir, file).len() <= dir.len() + 1 + file.len(),
{
    reveal_strlit("/");
    let path = path_in(dir, file);
    assert(dir =~= path.subrange(0, dir.len() as int));
    let front = path.take(path.len() - file.len());
    assert(front.last() == '/');
    assert(path =~= front + file);
    lemma_last_part_of_file(front, file);
}

/// Behind a slash, a name without one is the last part.
pub proof fn lemma_last_part_of_file(front: Seq<char>, file: Seq<char>)
    requires
        front.len() > 0,
        front.last() == '/',
        !file.contains('/'),
    ensures
        last_part_of(front + file, '/') == file,
    decreases file.len(),
{
    if file.len() == 0 {
        assert(front + file =~= front);
    } else {
        let rest = file.drop_last();
        assert(!rest.contains('/')) by {
            if rest.contains('/') {
                let k = choose|k: int| 0 <= k < rest.len() && rest[k] == '/';
                assert(file[k] == '/');
            }
        }
        assert(file[file.len() - 1] != '/');
        lemma_last_part_of_file(front, rest);
        assert((front + file).drop_last() =~= front + rest);
        assert(rest.push(file.last()) =~= file);
    }
}

/// What stands before a separator and what stands behind it are split each for itself.
pub proof fn lemma_split_at_separator(a: Seq<char>, b: Seq<char>, sep: char)
    ensures
        split_of(a.push(sep) + b, sep) == split_of(a, sep) + split_of(b, sep),
    decreases b.len(),
{
    let all = a.push(sep) + b;
    lemma_split_parts_join_again(a, sep);
    lemma_split_parts_join_again(b, sep);
    if b.len() == 0 {
        assert(all =~= a.push(sep));
        assert(all.drop_last() =~= a);
        assert(b =~= Seq::<char>::empty());
        assert(split_of(b, sep) =~= seq![b]);
        assert(split_of(all, sep) =~= split_of(a, sep) + split_of(b, sep));
    } else {
        let rest = b.drop_last();
        lemma_split_parts_join_again(rest, sep);
        lemma_split_at_separator(a, rest, sep);
        assert(all.drop_last() =~= a.push(sep) + rest);
        assert(all.last() == b.last());
        assert(split_of(all, sep) =~= split_of(a, sep) + split_of(b, sep));
    }
}

/// Text without a separator is split into itself.
pub proof fn lemma_split_without_separator(s: Seq<char>, sep: char)
    requires
        !s.contains(sep),
    ensures
        split_of(s, sep) == seq![s],
    decreases s.len(),
{
    if s.len() > 0 {
        let rest = s.drop_last();
        assert(!rest.contains(sep)) by {
            if rest.contains(sep) {
                let k = choose|k: int| 0 <= k < rest.len() && rest[k] == sep;
                assert(s[k] == sep);
            }
        }
        assert(s[s.len() - 1] != sep);
        lemma_split_without_separator(rest, sep);
        assert(rest.push(s.last()) =~= s);
        assert(split_of(s, sep) =~= seq![s]);
    }
}

/// A character that stands in a text behind none of its kind is found there.
pub proof fn lemma_character_is_found(before: Seq<char>, c: char, behind: Seq<char>)
    requires
        !before.contains(c),
    ensures
        position_of(before.push(c) + behind, seq![c], 0) == Some(before.len() as int),
{
    let all = before.push(c) + behind;
    let n = before.len() as int;
    assert(all.subrange(n, n + 1) =~= seq![c]);
    assert forall|j: int| 0 <= j < n implies !#[trigger] occurs_at(all, seq![c], j) by {
        if occurs_at(all, seq![c], j) {
            assert(all.subrange(j, j + 1)[0] == before[j]);
        }
    }
    lemma_position_of(all, seq![c], 0, n);
}

/// The view of a list of strings has the text of each string at its place, and so has
/// that of a list of pairs and of an optional string.
pub proof fn lemma_views_of_strings(
    strings: Seq<String>,
    pairs: Seq<(String, String)>,
    string: Option<String>,
    i: int,
)
    ensures
        string_views(strings).len() == strings.len(),
        0 <= i < strings.len() ==> string_views(strings)[i] == strings[i]@,
        pair_views(pairs).len() == pairs.len(),
        0 <= i < pairs.len() ==> pair_views(pairs)[i] == (pairs[i].0@, pairs[i].1@),
        string is Some ==> string_view(string) == Some(string->0@),
        string is None ==> string_view(string) is None,
{
}

/// The view of an optional text is its text, where there is one.
pub proof fn lemma_view_of_text(t: Option<&str>)
    ensures
        t is Some ==> text_view(t) == Some(t->0@),
        t is None ==> text_view(t) is None,
{
}

/// Where a text stands in another: each of its characters stands at its place there.
/// It is found at the leftmost such place, and nowhere where there is none.
pub proof fn lemma_occurrences(hay: Seq<char>, needle: Seq<char>, from: int, i: int)
    ensures
        occurs_at(hay, needle, i) <==> 0 <= i && i + needle.len() <= hay.len() && forall|k: int|
            0 <= k < needle.len() ==> hay[i + k] == #[trigger] needle[k],
        position_of(hay, needle, from) is Some ==> from <= position_of(hay, needle, from)->0
            && occurs_at(hay, needle, position_of(hay, needle, from)->0),
        from <= i && occurs_at(hay, needle, i) ==> position_of(hay, needle, from) is Some
            && position_of(hay, needle, from)->0 <= i,
{
    let n = needle.len() as int;
    if occurs_at(hay, needle, i) {
        assert forall|k: int| 0 <= k < n implies hay[i + k] == #[trigger] needle[k] by {
            assert(hay.subrange(i, i + n)[k] == hay[i + k]);
        }
    }
    if 0 <= i && i + n <= hay.len() && (forall|k: int|
        0 <= k < n ==> hay[i + k] == #[trigger] needle[k]) {
        assert(hay.subrange(i, i + n) =~= needle);
    }
    if occurs_from(hay, needle, from) {
        let j = choose|j: int| from <= j && #[trigger] occurs_at(hay, needle, j);
        let first = lemma_leftmost(hay, needle, from, j);
        lemma_position_of(hay, needle, from, first);
        if from <= i && occurs_at(hay, needle, i) {
            assert(!(i < first));
        }
    }
}

proof fn lemma_leftmost(hay: Seq<char>, needle: Seq<char>, from: int, j: int) -> (i: int)
    requires
        from <= j,
        occurs_at(hay, needle, j),
    ensures
        first_occurrence(hay, needle, from, i),
    decreases j - from,
{
    if exists|k: int| from <= k < j && #[trigger] occurs_at(hay, needle, k) {
        let k = choose|k: int| from <= k < j && #[trigger] occurs_at(hay, needle, k);
        lemma_leftmost(hay, needle, from, k)
    } else {
        j
    }
}

/// Between a directory and a file stands one slash, whether the directory ends with one
/// or not.
pub proof fn lemma_one_slash_between(dir: Seq<char>, file: Seq<char>)
    ensures
        dir.len() > 0 && dir.last() != '/' ==> path_in(dir, file) == dir.push('/') + file,
        dir.len() > 0 && dir.last() == '/' ==> path_in(dir, file) == dir + file,
        dir.len() == 0 ==> path_in(dir, file) == file,
{
    reveal_strlit("/");
    assert(dir + "/"@ =~= dir.push('/'));
    assert(Seq::<char>::empty() + file =~= file);
    if dir.len() == 0 {
        assert(dir + file =~= file);
    }
}

} // verus!
