//! Text helpers over `str` and `String`, stated on the characters a string holds.
use vstd::prelude::*;
use vstd::string::*;
use vstd::utf8::*;

verus! {

broadcast use vstd::seq::group_seq_axioms;

/// `String::push` appends one character.
pub assume_specification[ String::push ](s: &mut String, c: char)
    ensures
        final(s)@ == old(s)@.push(c),
;

/// `String::from_utf8` succeeds exactly on well-formed UTF-8, and the string it
/// gives back holds the same bytes.
#[verifier::external_body]
pub(crate) fn string_from_utf8(bytes: Vec<u8>) -> (r: Option<String>)
    ensures
        r is Some <==> valid_utf8(bytes@),
        r matches Some(s) ==> encode_utf8(s@) == bytes@,
{
    String::from_utf8(bytes).ok()
}

// ---------------------------------------------------------------------------
// Characters
// ---------------------------------------------------------------------------

/// The ASCII lower-case form of a character; anything but `A..=Z` is itself.
pub open spec fn lower_char(c: char) -> char {
    if 'A' <= c && c <= 'Z' {
        ((c as u32 + 32) as u32) as char
    } else {
        c
    }
}

/// The ASCII lower-case form of a text, character by character.
pub open spec fn lower(s: Seq<char>) -> Seq<char> {
    Seq::new(s.len(), |i: int| lower_char(s[i]))
}

/// Unicode's `White_Space` property.
pub open spec fn is_space(c: char) -> bool {
    let u = c as u32;
    ||| 0x09 <= u <= 0x0d
    ||| u == 0x20
    ||| u == 0x85
    ||| u == 0xa0
    ||| u == 0x1680
    ||| 0x2000 <= u <= 0x200a
    ||| u == 0x2028
    ||| u == 0x2029
    ||| u == 0x202f
    ||| u == 0x205f
    ||| u == 0x3000
}

/// Unicode's general category `Cc`.
pub open spec fn is_control(c: char) -> bool {
    let u = c as u32;
    u <= 0x1f || 0x7f <= u <= 0x9f
}

pub fn char_to_lower(c: char) -> (r: char)
    ensures
        r == lower_char(c),
{
    if c >= 'A' && c <= 'Z' {
        let b: u8 = c as u8;
        (b + 32) as char
    } else {
        c
    }
}

pub fn char_is_space(c: char) -> (r: bool)
    ensures
        r == is_space(c),
{
    let u: u32 = c as u32;
    (0x09 <= u && u <= 0x0d) || u == 0x20 || u == 0x85 || u == 0xa0 || u == 0x1680 || (0x2000 <= u
        && u <= 0x200a) || u == 0x2028 || u == 0x2029 || u == 0x202f || u == 0x205f || u == 0x3000
}

pub fn char_is_control(c: char) -> (r: bool)
    ensures
        r == is_control(c),
{
    let u: u32 = c as u32;
    u <= 0x1f || (0x7f <= u && u <= 0x9f)
}

// ---------------------------------------------------------------------------
// Moving between strings and character vectors
// ---------------------------------------------------------------------------

pub fn chars_of(s: &str) -> (r: Vec<char>)
    ensures
        r@ == s@,
{
    let mut r: Vec<char> = Vec::new();
    for c in it: s.chars()
        invariant
            r@ == it.seq().take(it.index() as int),
            it.seq() == s@,
    {
        r.push(c);
    }
    r
}

/// The characters of `v` from `from` up to, not including, `to`.
pub fn string_of(v: &Vec<char>, from: usize, to: usize) -> (r: String)
    requires
        from <= to <= v@.len(),
    ensures
        r@ == v@.subrange(from as int, to as int),
{
    let mut r = String::new();
    let mut i: usize = from;
    while i < to
        invariant
            from <= i <= to <= v@.len(),
            r@ == v@.subrange(from as int, i as int),
        decreases to - i,
    {
        r.push(v[i]);
        i = i + 1;
    }
    r
}

pub fn owned(s: &str) -> (r: String)
    ensures
        r@ == s@,
{
    s.to_owned()
}

/// The texts that a list of strings holds.
pub open spec fn texts(v: Seq<String>) -> Seq<Seq<char>> {
    Seq::new(v.len(), |i: int| v[i]@)
}

/// The text of an optional string.
pub open spec fn opt_text(s: Option<String>) -> Option<Seq<char>> {
    match s {
        Some(t) => Some(t@),
        None => None,
    }
}

// ---------------------------------------------------------------------------
// Comparing
// ---------------------------------------------------------------------------

pub fn text_eq(a: &str, b: &str) -> (r: bool)
    ensures
        r == (a@ == b@),
{
    let x = chars_of(a);
    let y = chars_of(b);
    if x.len() != y.len() {
        return false;
    }
    let mut i: usize = 0;
    while i < x.len()
        invariant
            i <= x.len(),
            x@ == a@,
            y@ == b@,
            x@.len() == y@.len(),
            x@.take(i as int) == y@.take(i as int),
        decreases x.len() - i,
    {
        if x[i] != y[i] {
            return false;
        }
        assert(x@.take(i + 1) == x@.take(i as int).push(x@[i as int]));
        assert(y@.take(i + 1) == y@.take(i as int).push(y@[i as int]));
        i = i + 1;
    }
    assert(x@.take(x@.len() as int) == x@);
    assert(y@.take(y@.len() as int) == y@);
    true
}

/// The ASCII lower-case copy of `s`.
pub fn to_lower(s: &str) -> (r: String)
    ensures
        r@ == lower(s@),
{
    let v = chars_of(s);
    let mut r = String::new();
    let mut i: usize = 0;
    while i < v.len()
        invariant
            i <= v.len(),
            v@ == s@,
            r@ == lower(v@).take(i as int),
        decreases v.len() - i,
    {
        r.push(char_to_lower(v[i]));
        assert(lower(v@).take(i + 1) == lower(v@).take(i as int).push(lower_char(v@[i as int])));
        i = i + 1;
    }
    assert(lower(v@).take(v@.len() as int) == lower(v@));
    r
}

/// Whether two texts are equal when ASCII case is ignored.
pub open spec fn same_ignoring_case(a: Seq<char>, b: Seq<char>) -> bool {
    lower(a) == lower(b)
}

pub fn eq_ignore_case(a: &str, b: &str) -> (r: bool)
    ensures
        r == same_ignoring_case(a@, b@),
{
    let x = to_lower(a);
    let y = to_lower(b);
    text_eq(x.as_str(), y.as_str())
}

/// Whether `prefix` begins `s`.
pub open spec fn begins_with(s: Seq<char>, prefix: Seq<char>) -> bool {
    prefix.len() <= s.len() && s.take(prefix.len() as int) == prefix
}

pub fn starts_with(s: &str, prefix: &str) -> (r: bool)
    ensures
        r == begins_with(s@, prefix@),
{
    let v = chars_of(s);
    let p = chars_of(prefix);
    if p.len() > v.len() {
        return false;
    }
    let head = string_of(&v, 0, p.len());
    assert(v@.subrange(0, p@.len() as int) == s@.take(prefix@.len() as int));
    text_eq(head.as_str(), prefix)
}

/// Whether `suffix` ends `s`.
pub open spec fn ends_with(s: Seq<char>, suffix: Seq<char>) -> bool {
    suffix.len() <= s.len() && s.skip(s.len() - suffix.len()) == suffix
}

/// What stands before `suffix`, if `s` ends with it.
pub fn strip_suffix(s: &str, suffix: &str) -> (r: Option<String>)
    ensures
        r is Some <==> ends_with(s@, suffix@),
        r matches Some(t) ==> t@ == s@.take(s@.len() - suffix@.len()),
{
    let v = chars_of(s);
    let p = chars_of(suffix);
    if p.len() > v.len() {
        return None;
    }
    let cut: usize = v.len() - p.len();
    let tail = string_of(&v, cut, v.len());
    assert(v@.subrange(cut as int, v@.len() as int) == s@.skip(s@.len() - suffix@.len()));
    if text_eq(tail.as_str(), suffix) {
        let head = string_of(&v, 0, cut);
        assert(v@.subrange(0, cut as int) == s@.take(cut as int));
        Some(head)
    } else {
        None
    }
}

/// `s` without its first character, if that is `c`.
pub open spec fn without_first(s: Seq<char>, c: char) -> Option<Seq<char>> {
    if s.len() > 0 && s[0] == c {
        Some(s.skip(1))
    } else {
        None
    }
}

pub fn strip_first(s: &str, c: char) -> (r: Option<String>)
    ensures
        opt_text(r) == without_first(s@, c),
{
    let v = chars_of(s);
    if v.len() > 0 && v[0] == c {
        let t = string_of(&v, 1, v.len());
        assert(v@.subrange(1, v@.len() as int) == s@.skip(1));
        Some(t)
    } else {
        None
    }
}

pub fn contains_char(s: &str, c: char) -> (r: bool)
    ensures
        r == s@.contains(c),
{
    let v = chars_of(s);
    let mut i: usize = 0;
    while i < v.len()
        invariant
            i <= v.len(),
            v@ == s@,
            forall|j: int| 0 <= j < i ==> v@[j] != c,
        decreases v.len() - i,
    {
        if v[i] == c {
            return true;
        }
        i = i + 1;
    }
    false
}

// ---------------------------------------------------------------------------
// Splitting
// ---------------------------------------------------------------------------

/// The first position at which `c` stands in `s`, or the length of `s`.
pub open spec fn position_of(s: Seq<char>, c: char) -> int
    decreases s.len(),
{
    if s.len() == 0 {
        0
    } else if s[0] == c {
        0
    } else {
        1 + position_of(s.skip(1), c)
    }
}

pub proof fn lemma_position_of(s: Seq<char>, c: char)
    ensures
        0 <= position_of(s, c) <= s.len(),
        forall|j: int| 0 <= j < position_of(s, c) ==> s[j] != c,
        position_of(s, c) < s.len() ==> s[position_of(s, c)] == c,
    decreases s.len(),
{
    if s.len() > 0 && s[0] != c {
        lemma_position_of(s.skip(1), c);
        assert forall|j: int| 0 <= j < position_of(s, c) implies s[j] != c by {
            if j > 0 {
                assert(s.skip(1)[j - 1] == s[j]);
            }
        }
    }
}

pub proof fn lemma_position_is(s: Seq<char>, c: char, p: int)
    requires
        0 <= p <= s.len(),
        forall|j: int| 0 <= j < p ==> s[j] != c,
        p < s.len() ==> s[p] == c,
    ensures
        position_of(s, c) == p,
{
    lemma_position_of(s, c);
}

/// The pieces of `s` between occurrences of `c`: always at least one.
pub open spec fn pieces(s: Seq<char>, c: char) -> Seq<Seq<char>>
    decreases s.len(),
    via pieces_decreases
{
    let p = position_of(s, c);
    if p >= s.len() {
        seq![s]
    } else {
        seq![s.take(p)] + pieces(s.skip(p + 1), c)
    }
}

#[via_fn]
proof fn pieces_decreases(s: Seq<char>, c: char) {
    lemma_position_of(s, c);
}

pub fn split_at_each(s: &str, c: char) -> (r: Vec<String>)
    ensures
        texts(r@) == pieces(s@, c),
{
    let v = chars_of(s);
    let mut r: Vec<String> = Vec::new();
    let mut from: usize = 0;
    let mut i: usize = 0;
    assert(v@.skip(0) == s@);
    while i < v.len()
        invariant
            from <= i <= v.len(),
            v@ == s@,
            forall|j: int| from <= j < i ==> v@[j] != c,
            texts(r@) + pieces(v@.skip(from as int), c) == pieces(s@, c),
        decreases v.len() - i,
    {
        if v[i] == c {
            let ghost rest = v@.skip(from as int);
            let ghost before = r@;
            let piece = string_of(&v, from, i);
            proof {
                assert forall|j: int| 0 <= j < i - from implies rest[j] != c by {
                    assert(rest[j] == v@[from + j]);
                }
                lemma_position_is(rest, c, i - from);
                assert(rest.take(i - from) == v@.subrange(from as int, i as int));
                assert(rest.skip(i - from + 1) == v@.skip(i + 1));
            }
            r.push(piece);
            from = i + 1;
            proof {
                assert(texts(r@) == texts(before).push(piece@));
                assert(texts(r@) + pieces(v@.skip(from as int), c) == texts(before) + (seq![piece@]
                    + pieces(v@.skip(from as int), c)));
            }
        }
        i = i + 1;
    }
    let last = string_of(&v, from, v.len());
    let ghost before = r@;
    proof {
        let rest = v@.skip(from as int);
        assert forall|j: int| 0 <= j < rest.len() implies rest[j] != c by {
            assert(rest[j] == v@[from + j]);
        }
        lemma_position_is(rest, c, rest.len() as int);
        assert(rest == last@);
    }
    r.push(last);
    assert(texts(r@) == texts(before) + seq![last@]);
    r
}

/// The last position at which `c` stands in `s`, or -1.
pub open spec fn last_position_of(s: Seq<char>, c: char) -> int
    decreases s.len(),
{
    if s.len() == 0 {
        -1
    } else if s.last() == c {
        s.len() - 1
    } else {
        last_position_of(s.drop_last(), c)
    }
}

/// What stands before and after the last `c` of `s`.
pub open spec fn around_last(s: Seq<char>, c: char) -> Option<(Seq<char>, Seq<char>)> {
    let p = last_position_of(s, c);
    if 0 <= p < s.len() {
        Some((s.take(p), s.skip(p + 1)))
    } else {
        None
    }
}

pub fn split_at_last(s: &str, c: char) -> (r: Option<(String, String)>)
    ensures
        r is Some <==> around_last(s@, c) is Some,
        r matches Some((a, b)) ==> around_last(s@, c) == Some((a@, b@)),
{
    let v = chars_of(s);
    let mut i: usize = v.len();
    assert(v@.take(v@.len() as int) == s@);
    while i > 0
        invariant
            i <= v.len(),
            v@ == s@,
            last_position_of(s@, c) == last_position_of(v@.take(i as int), c),
        decreases i,
    {
        assert(v@.take(i as int).drop_last() == v@.take(i - 1));
        i = i - 1;
        if v[i] == c {
            let a = string_of(&v, 0, i);
            let b = string_of(&v, i + 1, v.len());
            assert(v@.subrange(0, i as int) == s@.take(i as int));
            assert(v@.subrange(i + 1, v@.len() as int) == s@.skip(i + 1));
            return Some((a, b));
        }
    }
    None
}

/// `s` without leading white space.
pub open spec fn trim_start(s: Seq<char>) -> Seq<char>
    decreases s.len(),
{
    if s.len() > 0 && is_space(s[0]) {
        trim_start(s.skip(1))
    } else {
        s
    }
}

/// `s` without trailing white space.
pub open spec fn trim_end(s: Seq<char>) -> Seq<char>
    decreases s.len(),
{
    if s.len() > 0 && is_space(s.last()) {
        trim_end(s.drop_last())
    } else {
        s
    }
}

/// `s` without leading and trailing white space.
pub open spec fn trimmed(s: Seq<char>) -> Seq<char> {
    trim_end(trim_start(s))
}

pub fn trim(s: &str) -> (r: String)
    ensures
        r@ == trimmed(s@),
{
    let v = chars_of(s);
    let mut a: usize = 0;
    assert(v@.skip(0) == s@);
    while a < v.len() && char_is_space(v[a])
        invariant
            a <= v.len(),
            v@ == s@,
            trim_start(s@) == trim_start(v@.skip(a as int)),
        decreases v.len() - a,
    {
        assert(v@.skip(a as int).skip(1) == v@.skip(a + 1));
        a = a + 1;
    }
    let ghost t = v@.skip(a as int);
    assert(trim_start(s@) == t);
    let mut b: usize = v.len();
    assert(v@.subrange(a as int, b as int) == t);
    while b > a && char_is_space(v[b - 1])
        invariant
            a <= b <= v.len(),
            v@ == s@,
            trim_end(t) == trim_end(v@.subrange(a as int, b as int)),
        decreases b - a,
    {
        assert(v@.subrange(a as int, b as int).drop_last() == v@.subrange(a as int, b - 1));
        b = b - 1;
    }
    string_of(&v, a, b)
}

/// The length of the run of characters before the first white space of `s`.
pub open spec fn word_len(s: Seq<char>) -> int
    decreases s.len(),
{
    if s.len() == 0 || is_space(s[0]) {
        0
    } else {
        1 + word_len(s.skip(1))
    }
}

pub proof fn lemma_word_len(s: Seq<char>)
    ensures
        0 <= word_len(s) <= s.len(),
    decreases s.len(),
{
    if s.len() > 0 && !is_space(s[0]) {
        lemma_word_len(s.skip(1));
    }
}

pub proof fn lemma_trim_start_len(s: Seq<char>)
    ensures
        trim_start(s).len() <= s.len(),
        trim_start(s).len() > 0 ==> !is_space(trim_start(s)[0]),
    decreases s.len(),
{
    if s.len() > 0 && is_space(s[0]) {
        lemma_trim_start_len(s.skip(1));
    }
}

pub proof fn lemma_trim_end_len(s: Seq<char>)
    ensures
        trim_end(s).len() <= s.len(),
        trim_end(s).len() == s.len() ==> trim_end(s) == s,
        trim_end(s).len() > 0 ==> !is_space(trim_end(s).last()),
    decreases s.len(),
{
    if s.len() > 0 && is_space(s.last()) {
        lemma_trim_end_len(s.drop_last());
    }
}

pub proof fn lemma_trim_start_same(s: Seq<char>)
    ensures
        trim_start(s).len() == s.len() ==> trim_start(s) == s,
{
    if s.len() > 0 && is_space(s[0]) {
        lemma_trim_start_len(s.skip(1));
    }
}

/// The maximal runs of characters that are not white space, in order.
pub open spec fn words(s: Seq<char>) -> Seq<Seq<char>>
    decreases s.len(),
    via words_decreases
{
    let t = trim_start(s);
    if t.len() == 0 {
        Seq::empty()
    } else {
        seq![t.take(word_len(t))] + words(t.skip(word_len(t)))
    }
}

#[via_fn]
proof fn words_decreases(s: Seq<char>) {
    lemma_trim_start_len(s);
    lemma_word_len(trim_start(s));
    if trim_start(s).len() > 0 {
        lemma_word_len(trim_start(s).skip(1));
    }
}

pub fn split_words(s: &str) -> (r: Vec<String>)
    ensures
        texts(r@) == words(s@),
{
    let v = chars_of(s);
    let mut r: Vec<String> = Vec::new();
    let mut i: usize = 0;
    assert(v@.skip(0) == s@);
    loop
        invariant
            i <= v.len(),
            v@ == s@,
            texts(r@) + words(v@.skip(i as int)) == words(s@),
        decreases v.len() - i,
    {
        let ghost start = v@.skip(i as int);
        let ghost before = r@;
        while i < v.len() && char_is_space(v[i])
            invariant
                i <= v.len(),
                trim_start(start) == trim_start(v@.skip(i as int)),
                start.len() >= v.len() - i,
            decreases v.len() - i,
        {
            assert(v@.skip(i as int).skip(1) == v@.skip(i + 1));
            i = i + 1;
        }
        let ghost t = v@.skip(i as int);
        assert(trim_start(start) == t);
        if i == v.len() {
            assert(texts(r@) + Seq::<Seq<char>>::empty() == texts(r@));
            return r;
        }
        let from: usize = i;
        while i < v.len() && !char_is_space(v[i])
            invariant
                from <= i <= v.len(),
                word_len(t) == (i - from) + word_len(v@.skip(i as int)),
            decreases v.len() - i,
        {
            assert(v@.skip(i as int).skip(1) == v@.skip(i + 1));
            i = i + 1;
        }
        assert(word_len(t) == i - from);
        proof {
            lemma_trim_start_len(start);
            assert(t.len() > 0 && !is_space(t[0]));
            if i == from {
                assert(word_len(t) >= 1) by {
                    lemma_word_len(t.skip(1));
                }
            }
        }
        let w = string_of(&v, from, i);
        proof {
            assert(t.take(i - from) == w@);
            assert(t.skip(i - from) == v@.skip(i as int));
        }
        r.push(w);
        proof {
            assert(texts(r@) == texts(before).push(w@));
            assert(texts(r@) + words(v@.skip(i as int)) == texts(before) + (seq![w@] + words(
                v@.skip(i as int),
            )));
        }
    }
}

/// The first word of `s`, or all of `s` where it has none.
pub open spec fn first_word_of(s: Seq<char>) -> Seq<char> {
    if words(s).len() > 0 {
        words(s)[0]
    } else {
        s
    }
}

pub fn first_word(s: &str) -> (r: String)
    ensures
        r@ == first_word_of(s@),
{
    let w = split_words(s);
    if w.len() > 0 {
        assert(texts(w@)[0] == w@[0]@);
        w[0].clone()
    } else {
        owned(s)
    }
}

// ---------------------------------------------------------------------------
// Joining and numbers
// ---------------------------------------------------------------------------

/// The first `n` texts of `list`, with `sep` between each two.
pub open spec fn joined_upto(list: Seq<Seq<char>>, sep: Seq<char>, n: nat) -> Seq<char>
    decreases n,
{
    if n == 0 {
        Seq::empty()
    } else if n == 1 {
        list[0]
    } else {
        joined_upto(list, sep, (n - 1) as nat) + sep + list[n - 1]
    }
}

/// All texts of `list`, with `sep` between each two.
pub open spec fn joined(list: Seq<Seq<char>>, sep: Seq<char>) -> Seq<char> {
    joined_upto(list, sep, list.len())
}

pub fn join(list: &Vec<String>, sep: &str) -> (r: String)
    ensures
        r@ == joined(texts(list@), sep@),
{
    let mut r = String::new();
    let mut i: usize = 0;
    while i < list.len()
        invariant
            i <= list.len(),
            r@ == joined_upto(texts(list@), sep@, i as nat),
        decreases list.len() - i,
    {
        if i > 0 {
            r.append(sep);
        }
        r.append(list[i].as_str());
        i = i + 1;
    }
    r
}

/// The digit character of a number below ten.
pub open spec fn digit(d: int) -> char {
    ((48 + d) as u32) as char
}

/// Decimal notation without leading zeros.
pub open spec fn decimal(n: nat) -> Seq<char>
    decreases n,
{
    if n < 10 {
        seq![digit(n as int)]
    } else {
        decimal(n / 10).push(digit((n % 10) as int))
    }
}

/// Decimal notation with a leading minus sign below zero.
pub open spec fn signed_decimal(n: int) -> Seq<char> {
    if n < 0 {
        seq!['-'] + decimal((-n) as nat)
    } else {
        decimal(n as nat)
    }
}

pub fn decimal_u64(n: u64) -> (r: String)
    ensures
        r@ == decimal(n as nat),
    decreases n,
{
    if n < 10 {
        let mut r = String::new();
        r.push((48 + n as u8) as char);
        assert(r@ == seq![digit(n as int)]);
        r
    } else {
        let mut r = decimal_u64(n / 10);
        r.push((48 + (n % 10) as u8) as char);
        r
    }
}

pub fn decimal_i32(n: i32) -> (r: String)
    ensures
        r@ == signed_decimal(n as int),
{
    if n < 0 {
        let mut r = String::new();
        r.push('-');
        let m = decimal_u64((-(n as i64)) as u64);
        r.append(m.as_str());
        assert(r@ == seq!['-'] + decimal((-(n as int)) as nat));
        r
    } else {
        decimal_u64(n as u64)
    }
}

/// The value of a run of decimal digits, or `None` where another character stands in it.
pub open spec fn digits_value(s: Seq<char>) -> Option<nat>
    decreases s.len(),
{
    if s.len() == 0 {
        Some(0)
    } else {
        match digits_value(s.drop_last()) {
            Some(v) if '0' <= s.last() && s.last() <= '9' => Some(
                (v * 10 + (s.last() as u32 - 48)) as nat,
            ),
            _ => None,
        }
    }
}

/// A 16-bit number as text: an optional `+`, then one or more digits.
pub open spec fn u16_of(s: Seq<char>) -> Option<u16> {
    let digits = if s.len() > 0 && s[0] == '+' {
        s.skip(1)
    } else {
        s
    };
    if digits.len() == 0 {
        None
    } else {
        match digits_value(digits) {
            Some(v) if v <= u16::MAX => Some(v as u16),
            _ => None,
        }
    }
}

proof fn lemma_digits_prefix(s: Seq<char>, n: int)
    requires
        0 <= n <= s.len(),
    ensures
        digits_value(s.take(n)) is None ==> digits_value(s) is None,
        digits_value(s) matches Some(v) ==> (digits_value(s.take(n)) matches Some(u) && u <= v),
    decreases s.len(),
{
    if n < s.len() {
        lemma_digits_prefix(s.drop_last(), n);
        assert(s.drop_last().take(n) == s.take(n));
    } else {
        assert(s.take(n) == s);
    }
}

pub fn parse_u16(s: &str) -> (r: Option<u16>)
    ensures
        r == u16_of(s@),
{
    let v = chars_of(s);
    let from: usize = if v.len() > 0 && v[0] == '+' {
        1
    } else {
        0
    };
    let ghost digits = v@.skip(from as int);
    assert(v@.skip(0) == v@);
    if from == v.len() {
        return None;
    }
    let mut i: usize = from;
    let mut value: u32 = 0;
    assert(digits.take(0) == Seq::<char>::empty());
    while i < v.len()
        invariant
            from <= i <= v.len(),
            digits == v@.skip(from as int),
            v@ == s@,
            digits == (if s@.len() > 0 && s@[0] == '+' {
                s@.skip(1)
            } else {
                s@
            }),
            digits.len() > 0,
            value <= u16::MAX,
            digits_value(digits.take(i - from)) == Some(value as nat),
        decreases v.len() - i,
    {
        let c = v[i];
        proof {
            assert(digits.take(i - from + 1).drop_last() == digits.take(i - from));
            assert(digits.take(i - from + 1).last() == c);
            lemma_digits_prefix(digits, i - from + 1);
        }
        if c < '0' || c > '9' {
            return None;
        }
        value = value * 10 + (c as u32 - 48);
        if value > 65535 {
            return None;
        }
        i = i + 1;
    }
    assert(digits.take(v@.len() - from) == digits);
    Some(value as u16)
}

/// Whether a list holds a text.
pub fn holds_text(v: &Vec<String>, s: &str) -> (r: bool)
    ensures
        r == texts(v@).contains(s@),
{
    let mut i: usize = 0;
    while i < v.len()
        invariant
            i <= v.len(),
            forall|j: int| 0 <= j < i ==> texts(v@)[j] != s@,
        decreases v.len() - i,
    {
        if text_eq(v[i].as_str(), s) {
            assert(texts(v@)[i as int] == s@);
            return true;
        }
        i = i + 1;
    }
    false
}

/// Whether a list holds a text when ASCII case is ignored.
pub open spec fn holds_ignoring_case(v: Seq<Seq<char>>, s: Seq<char>) -> bool {
    exists|i: int| 0 <= i < v.len() && same_ignoring_case(#[trigger] v[i], s)
}

pub fn holds_ignore_case(v: &Vec<String>, s: &str) -> (r: bool)
    ensures
        r == holds_ignoring_case(texts(v@), s@),
{
    let mut i: usize = 0;
    while i < v.len()
        invariant
            i <= v.len(),
            forall|j: int| 0 <= j < i ==> !same_ignoring_case(#[trigger] texts(v@)[j], s@),
        decreases v.len() - i,
    {
        if eq_ignore_case(v[i].as_str(), s) {
            assert(same_ignoring_case(texts(v@)[i as int], s@));
            return true;
        }
        i = i + 1;
    }
    false
}

/// A copy of a list of texts.
pub fn copy_texts(v: &Vec<String>) -> (r: Vec<String>)
    ensures
        texts(r@) == texts(v@),
{
    let mut r: Vec<String> = Vec::new();
    append_texts(&mut r, v);
    assert(texts(r@) == texts(v@));
    r
}

/// Appends copies of all texts of `v`.
pub fn append_texts(out: &mut Vec<String>, v: &Vec<String>)
    ensures
        texts(final(out)@) == texts(old(out)@) + texts(v@),
{
    let ghost before = texts(out@);
    let mut i: usize = 0;
    assert(texts(out@) == before + texts(v@).take(0));
    while i < v.len()
        invariant
            i <= v.len(),
            texts(out@) == before + texts(v@).take(i as int),
        decreases v.len() - i,
    {
        let ghost o = out@;
        out.push(v[i].clone());
        assert(texts(out@) == texts(o).push(texts(v@)[i as int]));
        assert(texts(out@) == before + texts(v@).take(i + 1));
        i = i + 1;
    }
    assert(texts(v@).take(v@.len() as int) == texts(v@));
}

/// `part` stands somewhere in `s`, as it is.
pub open spec fn holds_part(s: Seq<char>, part: Seq<char>) -> bool {
    exists|i: int|
        0 <= i && i + part.len() <= s.len() && #[trigger] s.subrange(i, i + part.len()) == part
}

pub proof fn lemma_holds_part(a: Seq<char>, part: Seq<char>, b: Seq<char>)
    ensures
        holds_part(a + part + b, part),
        holds_part(a + part, part),
{
    let i = a.len() as int;
    assert((a + part + b).subrange(i, i + part.len()) == part);
    assert((a + part).subrange(i, i + part.len()) == part);
}

/// The length of a text in bytes.
pub open spec fn byte_len(s: Seq<char>) -> nat {
    encode_utf8(s).len()
}

/// The end of a text is no longer than the whole, in bytes.
pub proof fn lemma_suffix_bytes(a: Seq<char>, b: Seq<char>)
    ensures
        byte_len(b) <= byte_len(a + b),
    decreases a.len(),
{
    if a.len() == 0 {
        assert(a + b == b);
    } else {
        lemma_suffix_bytes(a.drop_first(), b);
        assert((a + b).drop_first() == a.drop_first() + b);
    }
}

/// Lower-casing twice changes nothing more.
pub proof fn lemma_lower_twice(s: Seq<char>)
    ensures
        lower(lower(s)) == lower(s),
{
    assert(lower(lower(s)) =~= lower(s));
}

pub fn cat2(a: &str, b: &str) -> (r: String)
    ensures
        r@ == a@ + b@,
{
    let mut r = owned(a);
    r.append(b);
    r
}

pub fn cat3(a: &str, b: &str, c: &str) -> (r: String)
    ensures
        r@ == a@ + b@ + c@,
{
    let mut r = cat2(a, b);
    r.append(c);
    r
}

pub fn cat4(a: &str, b: &str, c: &str, d: &str) -> (r: String)
    ensures
        r@ == a@ + b@ + c@ + d@,
{
    let mut r = cat3(a, b, c);
    r.append(d);
    r
}

pub fn cat5(a: &str, b: &str, c: &str, d: &str, e: &str) -> (r: String)
    ensures
        r@ == a@ + b@ + c@ + d@ + e@,
{
    let mut r = cat4(a, b, c, d);
    r.append(e);
    r
}

// ---------------------------------------------------------------------------
// Laws of texts
// ---------------------------------------------------------------------------

/// Lower case changes the twenty-six capital letters of ASCII into their small ones, and nothing
/// else.
pub proof fn law_lower_changes_capitals(s: Seq<char>, i: int)
    requires
        0 <= i < s.len(),
    ensures
        lower(s).len() == s.len(),
        65 <= s[i] as u32 && s[i] as u32 <= 90 ==> lower(s)[i] as u32 == s[i] as u32 + 32,
        !(65 <= s[i] as u32 && s[i] as u32 <= 90) ==> lower(s)[i] == s[i],
{
}

pub proof fn lemma_joined_front(a: Seq<char>, rest: Seq<Seq<char>>, sep: Seq<char>, n: nat)
    requires
        1 <= n <= rest.len(),
    ensures
        joined_upto(seq![a] + rest, sep, n + 1) == a + sep + joined_upto(rest, sep, n),
    decreases n,
{
    let all = seq![a] + rest;
    assert(all[n as int] == rest[n - 1]);
    if n == 1 {
        assert(joined_upto(all, sep, 1) == a);
    } else {
        lemma_joined_front(a, rest, sep, (n - 1) as nat);
        assert(joined_upto(all, sep, n + 1) == joined_upto(all, sep, n) + sep + rest[n - 1]);
        assert(a + sep + joined_upto(rest, sep, (n - 1) as nat) + sep + rest[n - 1] == a + sep + (
        joined_upto(rest, sep, (n - 1) as nat) + sep + rest[n - 1]));
    }
}

/// The pieces of a text hold no separator, and with one between each two they are the text.
pub proof fn law_pieces_make_the_text(s: Seq<char>, c: char)
    ensures
        pieces(s, c).len() > 0,
        joined(pieces(s, c), seq![c]) == s,
        forall|i: int| 0 <= i < pieces(s, c).len() ==> !(#[trigger] pieces(s, c)[i]).contains(c),
    decreases s.len(),
{
    let p = position_of(s, c);
    lemma_position_of(s, c);
    if p < s.len() {
        let rest = s.skip(p + 1);
        let a = s.take(p);
        law_pieces_make_the_text(rest, c);
        let ps = pieces(rest, c);
        lemma_joined_front(a, ps, seq![c], ps.len());
        assert(pieces(s, c) == seq![a] + ps);
        assert(a + seq![c] + rest == s);
        assert forall|i: int| 0 <= i < pieces(s, c).len() implies !(#[trigger] pieces(
            s,
            c,
        )[i]).contains(c) by {
            if i > 0 {
                assert(pieces(s, c)[i] == ps[i - 1]);
            }
        }
    }
}

/// Every text of a list stands in what they are joined to.
pub proof fn law_joined_holds_each(list: Seq<Seq<char>>, sep: Seq<char>, i: int)
    requires
        0 <= i < list.len(),
    ensures
        holds_part(joined(list, sep), list[i]),
{
    lemma_joined_holds(list, sep, list.len(), i);
}

proof fn lemma_joined_holds(list: Seq<Seq<char>>, sep: Seq<char>, n: nat, i: int)
    requires
        0 <= i < n <= list.len(),
    ensures
        holds_part(joined_upto(list, sep, n), list[i]),
    decreases n,
{
    let empty = Seq::<char>::empty();
    if n == 1 {
        lemma_holds_part(empty, list[0], empty);
        assert(empty + list[0] == list[0]);
    } else {
        let before = joined_upto(list, sep, (n - 1) as nat);
        if i == n - 1 {
            lemma_holds_part(before + sep, list[i], empty);
        } else {
            lemma_joined_holds(list, sep, (n - 1) as nat, i);
            lemma_part_of_part(empty, before, sep + list[n - 1], list[i]);
            assert(empty + before + (sep + list[n - 1]) == before + sep + list[n - 1]);
        }
    }
}

/// What stands in a text stands in every text around it.
pub proof fn lemma_part_of_part(a: Seq<char>, s: Seq<char>, b: Seq<char>, part: Seq<char>)
    requires
        holds_part(s, part),
    ensures
        holds_part(a + s + b, part),
{
    let i = choose|i: int|
        0 <= i && i + part.len() <= s.len() && #[trigger] s.subrange(i, i + part.len()) == part;
    let j = a.len() + i;
    assert((a + s + b).subrange(j, j + part.len()) == part);
}

/// A trimmed text neither begins nor ends with white space, and nothing but white space was cut
/// off.
pub proof fn law_trimmed_cuts_white_space(s: Seq<char>)
    ensures
        trimmed(s).len() > 0 ==> !is_space(trimmed(s)[0]) && !is_space(trimmed(s).last()),
        exists|a: int, b: int|
            0 <= a <= b <= s.len() && trimmed(s) == #[trigger] s.subrange(a, b) && (forall|i: int|
                0 <= i < a || b <= i < s.len() ==> is_space(#[trigger] s[i])),
{
    let t = trim_start(s);
    lemma_trim_start_cut(s);
    lemma_trim_end_cut(t);
    let a = s.len() - t.len();
    let b = a + trim_end(t).len();
    assert(trimmed(s) == s.subrange(a, b));
    assert forall|i: int| 0 <= i < a || b <= i < s.len() implies is_space(#[trigger] s[i]) by {
        if i >= b {
            assert(t[i - a] == s[i]);
        }
    }
}

proof fn lemma_trim_start_cut(s: Seq<char>)
    ensures
        trim_start(s).len() <= s.len(),
        trim_start(s) == s.skip(s.len() - trim_start(s).len()),
        trim_start(s).len() > 0 ==> !is_space(trim_start(s)[0]),
        forall|i: int| 0 <= i < s.len() - trim_start(s).len() ==> is_space(#[trigger] s[i]),
    decreases s.len(),
{
    if s.len() > 0 && is_space(s[0]) {
        lemma_trim_start_cut(s.skip(1));
        assert forall|i: int| 0 <= i < s.len() - trim_start(s).len() implies is_space(
            #[trigger] s[i],
        ) by {
            if i > 0 {
                assert(s.skip(1)[i - 1] == s[i]);
            }
        }
    }
}

proof fn lemma_trim_end_cut(s: Seq<char>)
    ensures
        trim_end(s).len() <= s.len(),
        trim_end(s) == s.take(trim_end(s).len() as int),
        trim_end(s).len() > 0 ==> !is_space(trim_end(s).last()),
        forall|i: int| trim_end(s).len() <= i < s.len() ==> is_space(#[trigger] s[i]),
    decreases s.len(),
{
    if s.len() > 0 && is_space(s.last()) {
        lemma_trim_end_cut(s.drop_last());
        assert forall|i: int| trim_end(s).len() <= i < s.len() implies is_space(#[trigger] s[i]) by {
            if i < s.len() - 1 {
                assert(s.drop_last()[i] == s[i]);
            }
        }
    }
}

/// A text around its last separator: what stands behind it holds no other, and the two parts with
/// the separator between them are the text.
pub proof fn law_around_last_makes_the_text(s: Seq<char>, c: char)
    ensures
        around_last(s, c) is Some <==> s.contains(c),
        around_last(s, c) matches Some((a, b)) ==> s == a + seq![c] + b && !b.contains(c),
    decreases s.len(),
{
    lemma_last_position(s, c);
    let p = last_position_of(s, c);
    if 0 <= p {
        assert(s == s.take(p) + seq![c] + s.skip(p + 1));
        assert(s.contains(s[p]));
        let b = s.skip(p + 1);
        if b.contains(c) {
            let j = choose|j: int| 0 <= j < b.len() && b[j] == c;
            assert(s[p + 1 + j] == c);
        }
    } else if s.contains(c) {
        let j = choose|j: int| 0 <= j < s.len() && s[j] == c;
        assert(s[j] != c);
    }
}

proof fn lemma_last_position(s: Seq<char>, c: char)
    ensures
        -1 <= last_position_of(s, c) < s.len(),
        last_position_of(s, c) >= 0 ==> s[last_position_of(s, c)] == c,
        forall|j: int| last_position_of(s, c) < j < s.len() ==> #[trigger] s[j] != c,
    decreases s.len(),
{
    if s.len() > 0 && s.last() != c {
        lemma_last_position(s.drop_last(), c);
        assert forall|j: int| last_position_of(s, c) < j < s.len() implies #[trigger] s[j] != c by {
            if j < s.len() - 1 {
                assert(s.drop_last()[j] == s[j]);
            }
        }
    }
}

/// A number in digits is read as the number.
pub proof fn law_decimal_reads_back(n: nat)
    ensures
        digits_value(decimal(n)) == Some(n),
        decimal(n).len() > 0,
        n > 0 ==> decimal(n)[0] != '0',
    decreases n,
{
    if n >= 10 {
        law_decimal_reads_back(n / 10);
        let d = decimal(n);
        assert(d.drop_last() == decimal(n / 10));
    } else {
        assert(decimal(n).drop_last() == Seq::<char>::empty());
        assert(digits_value(Seq::<char>::empty()) == Some(0nat));
    }
}

/// Texts that hold no separator are the pieces of what they are joined to.
pub proof fn law_joined_texts_are_its_pieces(list: Seq<Seq<char>>, c: char)
    requires
        list.len() > 0,
        forall|i: int| 0 <= i < list.len() ==> !(#[trigger] list[i]).contains(c),
    ensures
        pieces(joined(list, seq![c]), c) == list,
    decreases list.len(),
{
    let a = list[0];
    let rest = list.skip(1);
    let s = joined(list, seq![c]);
    assert(list == seq![a] + rest);
    if list.len() == 1 {
        assert(s == a);
        lemma_position_of(a, c);
        if position_of(a, c) < a.len() {
            assert(a.contains(a[position_of(a, c)]));
        }
        assert(list == seq![a]);
    } else {
        assert forall|i: int| 0 <= i < rest.len() implies !(#[trigger] rest[i]).contains(c) by {
            assert(rest[i] == list[i + 1]);
        }
        law_joined_texts_are_its_pieces(rest, c);
        lemma_joined_front(a, rest, seq![c], rest.len());
        let tail = joined(rest, seq![c]);
        assert(s == a + seq![c] + tail);
        assert forall|j: int| 0 <= j < a.len() implies s[j] != c by {
            assert(a.contains(a[j]));
        }
        lemma_position_is(s, c, a.len() as int);
        assert(s.take(a.len() as int) == a);
        assert(s.skip(a.len() as int + 1) == tail);
    }
}

/// A text begins with another exactly where it goes on from it, and ends with another exactly where
/// that comes last.
pub proof fn law_beginnings_and_ends(s: Seq<char>, part: Seq<char>)
    ensures
        begins_with(s, part) <==> exists|rest: Seq<char>| s == #[trigger] (part + rest),
        ends_with(s, part) <==> exists|head: Seq<char>| s == #[trigger] (head + part),
{
    if begins_with(s, part) {
        assert(s == part + s.skip(part.len() as int));
    }
    if exists|rest: Seq<char>| s == #[trigger] (part + rest) {
        let rest = choose|rest: Seq<char>| s == #[trigger] (part + rest);
        assert((part + rest).take(part.len() as int) == part);
    }
    if ends_with(s, part) {
        assert(s == s.take(s.len() - part.len()) + part);
    }
    if exists|head: Seq<char>| s == #[trigger] (head + part) {
        let head = choose|head: Seq<char>| s == #[trigger] (head + part);
        assert((head + part).skip(head.len() as int) == part);
    }
}

/// A character is taken off the head of a text exactly where it stands there.
pub proof fn law_first_character_is_taken_off(s: Seq<char>, c: char)
    ensures
        without_first(seq![c] + s, c) == Some(s),
        s.len() == 0 || s[0] != c ==> without_first(s, c) is None,
{
    assert((seq![c] + s).skip(1) == s);
}

/// The words of a text stand between its white space: the first is what comes before the first
/// white space, the others are those of the rest, and white space in front does not count.
pub proof fn law_words_stand_between_white_space(word: Seq<char>, rest: Seq<char>, space: char)
    requires
        word.len() > 0,
        forall|i: int| 0 <= i < word.len() ==> !is_space(#[trigger] word[i]),
        rest.len() == 0 || is_space(rest[0]),
        is_space(space),
    ensures
        words(word + rest) == seq![word] + words(rest),
        first_word_of(word + rest) == word,
        words(seq![space] + rest) == words(rest),
        words(Seq::<char>::empty()).len() == 0,
{
    let s = word + rest;
    assert(s[0] == word[0]);
    assert(trim_start(s) == s);
    lemma_word_ends(word, rest);
    assert(s.take(word.len() as int) == word);
    assert(s.skip(word.len() as int) == rest);
    let t = seq![space] + rest;
    assert(t.skip(1) == rest);
    assert(trim_start(t) == trim_start(rest));
}

proof fn lemma_word_ends(word: Seq<char>, rest: Seq<char>)
    requires
        forall|i: int| 0 <= i < word.len() ==> !is_space(#[trigger] word[i]),
        rest.len() == 0 || is_space(rest[0]),
    ensures
        word_len(word + rest) == word.len(),
    decreases word.len(),
{
    if word.len() > 0 {
        let s = word + rest;
        let t = word.skip(1);
        assert(s.skip(1) == t + rest);
        assert(s[0] == word[0]);
        assert forall|i: int| 0 <= i < t.len() implies !is_space(#[trigger] t[i]) by {
            assert(t[i] == word[i + 1]);
        }
        lemma_word_ends(t, rest);
    } else {
        assert(word + rest == rest);
    }
}

/// A port is read as the number that its digits are, with or without a plus sign; no number beyond
/// 65535 is a port, and neither is a text without digits.
pub proof fn law_ports_are_read(n: nat)
    ensures
        n <= 65535 ==> u16_of(decimal(n)) == Some(n as u16),
        n <= 65535 ==> u16_of(seq!['+'] + decimal(n)) == Some(n as u16),
        n > 65535 ==> u16_of(decimal(n)) is None,
        u16_of(Seq::<char>::empty()) is None,
{
    law_decimal_reads_back(n);
    lemma_first_digit(n);
    let d = decimal(n);
    assert((seq!['+'] + d).skip(1) == d);
}

proof fn lemma_first_digit(n: nat)
    ensures
        decimal(n).len() > 0,
        decimal(n)[0] != '+',
    decreases n,
{
    if n >= 10 {
        lemma_first_digit(n / 10);
    }
}

/// White space and control characters are told apart from letters and digits.
pub proof fn law_letters_are_neither_space_nor_control(c: char)
    ensures
        ('a' <= c && c <= 'z') || ('A' <= c && c <= 'Z') || ('0' <= c && c <= '9') ==> !is_space(c)
            && !is_control(c),
        is_space(' ') && is_space('\t') && is_space('\n') && is_space('\r'),
        is_control('\0') && is_control('\t') && is_control('\n') && is_control('\r') && !is_control(
            ' ',
        ),
{
}

} // verus!
