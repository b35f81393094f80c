//! Small operations on text, stated over sequences of characters.

use vstd::prelude::*;

verus! {

/// `needle` stands in `hay` at position `i`.
pub open spec fn occurs_at(hay: Seq<char>, needle: Seq<char>, i: int) -> bool {
    &&& 0 <= i
    &&& i + needle.len() <= hay.len()
    &&& hay.subrange(i, i + needle.len()) == needle
}

/// `needle` stands somewhere in `hay`. The empty text stands in every text.
pub open spec fn has_infix(hay: Seq<char>, needle: Seq<char>) -> bool {
    exists|i: int| #[trigger] occurs_at(hay, needle, i)
}

/// `i` is the first position of `c` in `s`, or the length of `s` where `c`
/// does not occur.
pub open spec fn is_first_index(s: Seq<char>, c: char, i: int) -> bool {
    &&& 0 <= i <= s.len()
    &&& forall|j: int| 0 <= j < i ==> s[j] != c
    &&& i < s.len() ==> s[i] == c
}

/// The first position of `c` in `s`, or the length of `s`.
pub open spec fn first_index(s: Seq<char>, c: char) -> int {
    choose|i: int| is_first_index(s, c, i)
}

/// `s` up to, and without, its first `c`; the whole of `s` where it has none.
pub open spec fn head_before(s: Seq<char>, c: char) -> Seq<char> {
    s.take(first_index(s, c))
}

/// `s` with every `from` turned into `to`.
pub open spec fn substituted(s: Seq<char>, from: char, to: char) -> Seq<char> {
    Seq::new(s.len(), |i: int| if s[i] == from { to } else { s[i] })
}

/// The character that writes the digit `d`.
pub open spec fn digit_char(d: nat) -> char {
    if d == 0 {
        '0'
    } else if d == 1 {
        '1'
    } else if d == 2 {
        '2'
    } else if d == 3 {
        '3'
    } else if d == 4 {
        '4'
    } else if d == 5 {
        '5'
    } else if d == 6 {
        '6'
    } else if d == 7 {
        '7'
    } else if d == 8 {
        '8'
    } else {
        '9'
    }
}

/// `n` written in base ten, without leading zeros.
pub open spec fn decimal_text(n: nat) -> Seq<char>
    decreases n,
{
    if n < 10 {
        seq![digit_char(n)]
    } else {
        decimal_text(n / 10).push(digit_char(n % 10))
    }
}

pub open spec fn is_digit(c: char) -> bool {
    '0' <= c && c <= '9'
}

pub open spec fn digit_value(c: char) -> nat {
    (c as u32 - '0' as u32) as nat
}

pub open spec fn all_digits(s: Seq<char>) -> bool {
    forall|i: int| 0 <= i < s.len() ==> is_digit(#[trigger] s[i])
}

/// The number that a run of digits writes in base ten.
pub open spec fn digits_value(s: Seq<char>) -> nat
    decreases s.len(),
{
    if s.len() == 0 {
        0
    } else {
        digits_value(s.drop_last()) * 10 + digit_value(s.last())
    }
}

/// `s` without the one `+` that may lead it.
pub open spec fn unsigned_body(s: Seq<char>) -> Seq<char> {
    if s.len() > 0 && s[0] == '+' {
        s.drop_first()
    } else {
        s
    }
}

/// What `s` reads as an unsigned number: one `+` may lead, then at least one
/// digit and nothing else.
pub open spec fn unsigned_decimal(s: Seq<char>) -> Option<nat> {
    let body = unsigned_body(s);
    if body.len() > 0 && all_digits(body) {
        Some(digits_value(body))
    } else {
        None
    }
}

/// What `s` reads as a `u32`: nothing where it is no number or too large.
pub open spec fn parsed_u32(s: Seq<char>) -> Option<u32> {
    match unsigned_decimal(s) {
        Some(v) => if v <= u32::MAX {
            Some(v as u32)
        } else {
            None
        },
        None => None,
    }
}

/// Whether `c` is white space: one of the characters to which Unicode gives
/// the property `White_Space`.
pub open spec fn is_space(c: char) -> bool {
    let n = c as u32;
    ||| 0x09 <= n <= 0x0d
    ||| n == 0x20
    ||| n == 0x85
    ||| n == 0xa0
    ||| n == 0x1680
    ||| 0x2000 <= n <= 0x200a
    ||| n == 0x2028
    ||| n == 0x2029
    ||| n == 0x202f
    ||| n == 0x205f
    ||| n == 0x3000
}

/// `s` in lower case, as `str::to_lowercase` gives it.
pub uninterp spec fn lowercase(s: Seq<char>) -> Seq<char>;

/// The words of `s` from position `from` on, where `word` is the start of the
/// word that position `from` stands in, if it stands in one. A word is a
/// longest run of characters that are not white space.
pub open spec fn words_from(s: Seq<char>, from: int, word: Option<int>) -> Seq<Seq<char>>
    decreases s.len() - from,
{
    if from < 0 || from >= s.len() {
        match word {
            Some(a) => seq![s.subrange(a, s.len() as int)],
            None => seq![],
        }
    } else if is_space(s[from]) {
        match word {
            Some(a) => seq![s.subrange(a, from)] + words_from(s, from + 1, None),
            None => words_from(s, from + 1, None),
        }
    } else {
        match word {
            Some(a) => words_from(s, from + 1, Some(a)),
            None => words_from(s, from + 1, Some(from)),
        }
    }
}

/// The words of `s`: what white space separates, none of them empty.
pub open spec fn words(s: Seq<char>) -> Seq<Seq<char>> {
    words_from(s, 0, None)
}

/// A word: not empty, and without white space.
pub open spec fn is_word(w: Seq<char>) -> bool {
    w.len() > 0 && forall|i: int| 0 <= i < w.len() ==> !is_space(#[trigger] w[i])
}

/// The texts that `v` holds.
pub open spec fn texts(v: Seq<String>) -> Seq<Seq<char>> {
    Seq::new(v.len(), |i: int| v[i]@)
}

proof fn lemma_words_from(s: Seq<char>, from: int, word: Option<int>)
    requires
        0 <= from <= s.len(),
        word matches Some(a) ==> 0 <= a < from && forall|i: int|
            a <= i < from ==> !is_space(#[trigger] s[i]),
    ensures
        forall|k: int|
            0 <= k < words_from(s, from, word).len() ==> is_word(
                #[trigger] words_from(s, from, word)[k],
            ),
    decreases s.len() - from,
{
    if from < s.len() {
        if is_space(s[from]) {
            lemma_words_from(s, from + 1, None);
            match word {
                Some(a) => {
                    let first = s.subrange(a, from);
                    assert forall|i: int| 0 <= i < first.len() implies !is_space(
                        #[trigger] first[i],
                    ) by {
                        assert(first[i] == s[a + i]);
                    }
                    assert(is_word(first));
                    let all = words_from(s, from, word);
                    let rest = words_from(s, from + 1, None);
                    assert(all == seq![first] + rest);
                    assert forall|k: int| 0 <= k < all.len() implies is_word(#[trigger] all[k]) by {
                        if k > 0 {
                            assert(all[k] == rest[k - 1]);
                        }
                    }
                },
                None => {
                    assert(words_from(s, from, word) == words_from(s, from + 1, None));
                },
            }
        } else {
            match word {
                Some(a) => {
                    lemma_words_from(s, from + 1, Some(a));
                    assert(words_from(s, from, word) == words_from(s, from + 1, Some(a)));
                },
                None => {
                    lemma_words_from(s, from + 1, Some(from));
                    assert(words_from(s, from, word) == words_from(s, from + 1, Some(from)));
                },
            }
        }
    } else {
        match word {
            Some(a) => {
                let last = s.subrange(a, s.len() as int);
                assert forall|i: int| 0 <= i < last.len() implies !is_space(
                    #[trigger] last[i],
                ) by {
                    assert(last[i] == s[a + i]);
                }
                assert(is_word(last));
                assert(words_from(s, from, word) == seq![last]);
            },
            None => {
                assert(words_from(s, from, word) == Seq::<Seq<char>>::empty());
            },
        }
    }
}

/// Each of the words of a text is a word: none is empty, and none holds white
/// space.
pub proof fn lemma_words_are_words(s: Seq<char>)
    ensures
        forall|k: int| 0 <= k < words(s).len() ==> is_word(#[trigger] words(s)[k]),
{
    lemma_words_from(s, 0, None);
}

/// A character stands first in a text at one position only.
pub proof fn lemma_first_index(s: Seq<char>, c: char, i: int)
    requires
        is_first_index(s, c, i),
    ensures
        first_index(s, c) == i,
{
    let j = first_index(s, c);
    assert(is_first_index(s, c, j));
    if j < i {
        assert(s[j] != c);
    }
    if i < j {
        assert(s[i] != c);
    }
}

/// Whether `c` is white space.
pub fn is_whitespace(c: char) -> (r: bool)
    ensures
        r == is_space(c),
{
    let n: u32 = c as u32;
    (0x09 <= n && n <= 0x0d) || n == 0x20 || n == 0x85 || n == 0xa0 || n == 0x1680 || (0x2000 <= n
        && n <= 0x200a) || n == 0x2028 || n == 0x2029 || n == 0x202f || n == 0x205f || n
        == 0x3000
}

/// `str::to_lowercase`: the lower case of `s` by Unicode's rules, which may
/// differ from `s` in length. The result is only named.
#[verifier::external_body]
pub(crate) fn to_lowercase(s: &str) -> (r: String)
    ensures
        r@ == lowercase(s@),
{
    s.to_lowercase()
}

/// The words of `s`, in order.
pub fn split_words(s: &str) -> (r: Vec<String>)
    ensures
        texts(r@) == words(s@),
{
    let v = chars_of(s);
    let mut out: Vec<String> = Vec::new();
    let mut word: Option<usize> = None;
    let mut i: usize = 0;
    while i < v.len()
        invariant
            i <= v.len(),
            v@ == s@,
            word matches Some(a) ==> a < i,
            texts(out@) + words_from(
                s@,
                i as int,
                match word {
                    Some(a) => Some(a as int),
                    None => None,
                },
            ) == words(s@),
        decreases v.len() - i,
    {
        let ghost before = texts(out@);
        if is_whitespace(v[i]) {
            match word {
                Some(a) => {
                    out.push(s.substring_char(a, i).to_owned());
                    assert(texts(out@) =~= before + seq![s@.subrange(a as int, i as int)]);
                    assert(texts(out@) + words_from(s@, i + 1, None) =~= before + (seq![
                        s@.subrange(a as int, i as int),
                    ] + words_from(s@, i + 1, None)));
                },
                None => {},
            }
            word = None;
        } else {
            if word.is_none() {
                word = Some(i);
            }
        }
        i += 1;
    }
    let ghost before = texts(out@);
    match word {
        Some(a) => {
            out.push(s.substring_char(a, v.len()).to_owned());
            assert(texts(out@) =~= before + seq![s@.subrange(a as int, s@.len() as int)]);
        },
        None => {
            assert(before + Seq::<Seq<char>>::empty() =~= before);
        },
    }
    out
}

/// The characters of `s`, in order.
pub fn chars_of(s: &str) -> (v: Vec<char>)
    ensures
        v@ == s@,
{
    let mut v: Vec<char> = Vec::new();
    for c in it: s.chars()
        invariant
            v@ == it.seq().take(it.index@ as int),
    {
        v.push(c);
    }
    v
}

/// Whether two texts hold the same characters.
pub fn same_text(a: &str, b: &str) -> (r: bool)
    ensures
        r == (a@ == b@),
{
    let x = chars_of(a);
    let y = chars_of(b);
    if x.len() != y.len() {
        return false;
    }
    let mut k: usize = 0;
    while k < x.len()
        invariant
            k <= x.len(),
            x.len() == y.len(),
            x@ == a@,
            y@ == b@,
            forall|j: int| 0 <= j < k ==> x@[j] == y@[j],
        decreases x.len() - k,
    {
        if x[k] != y[k] {
            return false;
        }
        k += 1;
    }
    assert(x@ =~= y@);
    true
}

/// Whether `needle` stands in `hay` at position `i`.
pub(crate) fn matches_at(hay: &Vec<char>, needle: &Vec<char>, i: usize) -> (r: bool)
    requires
        i + needle.len() <= hay.len(),
    ensures
        r == occurs_at(hay@, needle@, i as int),
{
    let mut k: usize = 0;
    while k < needle.len()
        invariant
            k <= needle.len(),
            i + needle.len() <= hay.len(),
            forall|j: int| 0 <= j < k ==> hay@[i + j] == needle@[j],
        decreases needle.len() - k,
    {
        if hay[i + k] != needle[k] {
            assert(hay@.subrange(i as int, i + needle@.len())[k as int] == hay@[i + k]);
            return false;
        }
        k += 1;
    }
    assert(hay@.subrange(i as int, i + needle@.len()) =~= needle@);
    true
}

/// The first position at which `needle` stands in `hay`.
pub fn find_text(hay: &str, needle: &str) -> (r: Option<usize>)
    ensures
        r is Some <==> has_infix(hay@, needle@),
        r matches Some(i) ==> occurs_at(hay@, needle@, i as int) && forall|j: int|
            0 <= j < i ==> !occurs_at(hay@, needle@, j),
{
    let h = chars_of(hay);
    let n = chars_of(needle);
    if n.len() > h.len() {
        return None;
    }
    let last: usize = h.len() - n.len();
    let mut i: usize = 0;
    loop
        invariant
            i <= last,
            last == h.len() - n.len(),
            n.len() <= h.len(),
            h@ == hay@,
            n@ == needle@,
            forall|j: int| 0 <= j < i ==> !occurs_at(hay@, needle@, j),
        decreases last - i,
    {
        if matches_at(&h, &n, i) {
            return Some(i);
        }
        if i == last {
            return None;
        }
        i += 1;
    }
}

/// Whether `needle` stands somewhere in `hay`.
pub fn contains(hay: &str, needle: &str) -> (r: bool)
    ensures
        r == has_infix(hay@, needle@),
{
    find_text(hay, needle).is_some()
}

/// `s` up to its first `c`.
pub fn take_before(s: &str, c: char) -> (r: String)
    ensures
        r@ == head_before(s@, c),
{
    let v = chars_of(s);
    let mut i: usize = 0;
    while i < v.len() && v[i] != c
        invariant
            i <= v.len(),
            forall|j: int| 0 <= j < i ==> v@[j] != c,
        decreases v.len() - i,
    {
        i += 1;
    }
    proof {
        lemma_first_index(s@, c, i as int);
    }
    s.substring_char(0, i).to_owned()
}

/// `s` with every `from` turned into the one character that `to` holds.
pub(crate) fn substitute(s: &str, from: char, to: &str) -> (r: String)
    requires
        to@.len() == 1,
    ensures
        r@ == substituted(s@, from, to@[0]),
{
    let v = chars_of(s);
    let mut out = String::new();
    let mut i: usize = 0;
    while i < v.len()
        invariant
            i <= v.len(),
            v@ == s@,
            to@.len() == 1,
            out@ == substituted(s@, from, to@[0]).take(i as int),
        decreases v.len() - i,
    {
        if v[i] == from {
            out.append(to);
            assert(to@ =~= seq![to@[0]]);
        } else {
            out.append(s.substring_char(i, i + 1));
            assert(s@.subrange(i as int, i + 1) =~= seq![s@[i as int]]);
        }
        assert(out@ =~= substituted(s@, from, to@[0]).take(i + 1));
        i += 1;
    }
    assert(out@ =~= substituted(s@, from, to@[0]));
    out
}

fn digit_text(d: u32) -> (r: &'static str)
    requires
        d < 10,
    ensures
        r@ == seq![digit_char(d as nat)],
{
    proof {
        reveal_strlit("0");
        reveal_strlit("1");
        reveal_strlit("2");
        reveal_strlit("3");
        reveal_strlit("4");
        reveal_strlit("5");
        reveal_strlit("6");
        reveal_strlit("7");
        reveal_strlit("8");
        reveal_strlit("9");
    }
    let r = if d == 0 {
        "0"
    } else if d == 1 {
        "1"
    } else if d == 2 {
        "2"
    } else if d == 3 {
        "3"
    } else if d == 4 {
        "4"
    } else if d == 5 {
        "5"
    } else if d == 6 {
        "6"
    } else if d == 7 {
        "7"
    } else if d == 8 {
        "8"
    } else {
        "9"
    };
    assert(r@ =~= seq![digit_char(d as nat)]);
    r
}

/// `n` written in base ten.
pub fn decimal(n: u32) -> (s: String)
    ensures
        s@ == decimal_text(n as nat),
    decreases n,
{
    if n < 10 {
        digit_text(n).to_owned()
    } else {
        let mut s = decimal(n / 10);
        s.append(digit_text(n % 10));
        s
    }
}

/// Reads `s` as a `u32` written in base ten.
pub fn parse_u32(s: &str) -> (r: Option<u32>)
    ensures
        r == parsed_u32(s@),
{
    let v = chars_of(s);
    let start: usize = if v.len() > 0 && v[0] == '+' {
        1
    } else {
        0
    };
    let ghost body = v@.subrange(start as int, v@.len() as int);
    assert(body =~= unsigned_body(s@));
    if start == v.len() {
        return None;
    }
    let mut acc: u64 = 0;
    let mut too_large = false;
    let mut k: usize = start;
    while k < v.len()
        invariant
            start <= k <= v.len(),
            body == v@.subrange(start as int, v@.len() as int),
            body == unsigned_body(s@),
            all_digits(body.take(k - start)),
            !too_large ==> acc == digits_value(body.take(k - start)) && acc <= u32::MAX,
            too_large ==> digits_value(body.take(k - start)) > u32::MAX,
        decreases v.len() - k,
    {
        let c = v[k];
        let ghost before = body.take(k - start);
        let ghost after = body.take(k + 1 - start);
        assert(after.drop_last() =~= before);
        assert(after.last() == c);
        assert(body[k - start] == c);
        if !(c >= '0' && c <= '9') {
            assert(!is_digit(body[k - start]));
            return None;
        }
        assert forall|i: int| 0 <= i < after.len() implies is_digit(#[trigger] after[i]) by {
            if i < before.len() {
                assert(after[i] == before[i]);
            }
        }
        let d: u64 = (c as u32 - '0' as u32) as u64;
        if !too_large {
            let next: u64 = acc * 10 + d;
            if next > 0xffff_ffffu64 {
                too_large = true;
            } else {
                acc = next;
            }
        }
        k += 1;
    }
    assert(body.take(k - start) =~= body);
    if too_large {
        None
    } else {
        Some(acc as u32)
    }
}

} // verus!
