//! Character-level string helpers: trimming, splitting, substring search,
//! lower-casing and decimal numbers, each with its meaning stated over the
//! string's characters.
use vstd::prelude::*;

verus! {

/// Whether `c` has the Unicode `White_Space` property (PropList.txt), which
/// is what std's `char::is_whitespace` tests.
pub open spec fn is_white_space(c: char) -> bool {
    let u = c as u32;
    ||| 0x09 <= u <= 0x0D
    ||| u == 0x20
    ||| u == 0x85
    ||| u == 0xA0
    ||| u == 0x1680
    ||| 0x2000 <= u <= 0x200A
    ||| u == 0x2028
    ||| u == 0x2029
    ||| u == 0x202F
    ||| u == 0x205F
    ||| u == 0x3000
}

/// Whether every character of `s` is ASCII.
pub open spec fn all_ascii(s: Seq<char>) -> bool {
    forall|i: int| 0 <= i < s.len() ==> (#[trigger] s[i] as u32) < 128
}

/// An ASCII upper-case letter made lower-case; any other character as is.
pub open spec fn ascii_lower_char(c: char) -> char {
    if 'A' <= c && c <= 'Z' {
        ((c as u32) + 32) as char
    } else {
        c
    }
}

/// An ASCII lower-case letter made upper-case; any other character as is.
pub open spec fn ascii_upper_char(c: char) -> char {
    if 'a' <= c && c <= 'z' {
        ((c as u32) - 32) as char
    } else {
        c
    }
}

/// `s` with its ASCII letters made lower-case (std's `to_ascii_lowercase`).
pub open spec fn ascii_lower(s: Seq<char>) -> Seq<char> {
    s.map_values(|c: char| ascii_lower_char(c))
}

/// `s` with its ASCII letters made upper-case (std's `to_ascii_uppercase`).
pub open spec fn ascii_upper(s: Seq<char>) -> Seq<char> {
    s.map_values(|c: char| ascii_upper_char(c))
}

/// The lower-case form of a string that holds a non-ASCII character, as
/// std's `str::to_lowercase` computes it (Unicode `Lowercase` mapping,
/// applied character by character with the final-sigma rule).
pub uninterp spec fn unicode_lowercase(s: Seq<char>) -> Seq<char>;

/// The lower-case form of a string (std's `str::to_lowercase`): on ASCII text
/// the Unicode mapping only turns `A`..`Z` into `a`..`z`.
pub open spec fn lowercase(s: Seq<char>) -> Seq<char> {
    if all_ascii(s) {
        ascii_lower(s)
    } else {
        unicode_lowercase(s)
    }
}

/// Whether `c` is white space (as `char::is_whitespace` decides).
pub fn char_is_whitespace(c: char) -> (b: bool)
    ensures
        b == is_white_space(c),
{
    let u: u32 = c as u32;
    (0x09 <= u && u <= 0x0D) || u == 0x20 || u == 0x85 || u == 0xA0 || u == 0x1680 || (0x2000 <= u
        && u <= 0x200A) || u == 0x2028 || u == 0x2029 || u == 0x202F || u == 0x205F || u == 0x3000
}

/// Calls std's `str::to_lowercase`. Claims what Unicode's lower-case mapping
/// gives ASCII text (only `A`..`Z` change, to `a`..`z`); on other text the
/// result is the named `unicode_lowercase`.
#[verifier::external_body]
pub fn to_lowercase(s: &str) -> (r: String)
    ensures
        r@ == (if all_ascii(s@) {
            ascii_lower(s@)
        } else {
            unicode_lowercase(s@)
        }),
{
    s.to_lowercase()
}

/// Upper-casing ASCII text keeps it ASCII and leaves its lower-case form as
/// it was; so does lower-casing it.
pub proof fn lemma_ascii_case_round_trip(s: Seq<char>)
    requires
        all_ascii(s),
    ensures
        all_ascii(ascii_upper(s)),
        all_ascii(ascii_lower(s)),
        lowercase(ascii_upper(s)) == lowercase(s),
        lowercase(ascii_lower(s)) == lowercase(s),
{
    assert forall|i: int| 0 <= i < s.len() implies (#[trigger] ascii_upper(s)[i] as u32) < 128
        && ascii_lower_char(ascii_upper(s)[i]) == ascii_lower_char(s[i]) by {
        let c = s[i];
        assert((c as u32) < 128);
    }
    assert forall|i: int| 0 <= i < s.len() implies (#[trigger] ascii_lower(s)[i] as u32) < 128
        && ascii_lower_char(ascii_lower(s)[i]) == ascii_lower_char(s[i]) by {
        let c = s[i];
        assert((c as u32) < 128);
    }
    assert(ascii_lower(ascii_upper(s)) =~= ascii_lower(s));
    assert(ascii_lower(ascii_lower(s)) =~= ascii_lower(s));
}

/// The views of a sequence of strings.
pub open spec fn views(v: Seq<String>) -> Seq<Seq<char>> {
    v.map_values(|x: String| x@)
}

pub proof fn lemma_views_push(v: Seq<String>, x: String)
    ensures
        views(v.push(x)) == views(v).push(x@),
{
    assert(views(v.push(x)) =~= views(v).push(x@));
}

/// The characters of `s`, in order.
pub fn chars_of(s: &str) -> (v: Vec<char>)
    ensures
        v@ == s@,
{
    let n: usize = s.unicode_len();
    let mut v: Vec<char> = Vec::new();
    let mut i: usize = 0;
    while i < n
        invariant
            n == s@.len(),
            i <= n,
            v@ == s@.subrange(0, i as int),
        decreases n - i,
    {
        let c = s.get_char(i);
        v.push(c);
        i = i + 1;
        assert(v@ =~= s@.subrange(0, i as int));
    }
    assert(v@ =~= s@);
    v
}

/// `s` without its leading white space.
pub open spec fn trim_start(s: Seq<char>) -> Seq<char>
    decreases s.len(),
{
    if s.len() > 0 && is_white_space(s[0]) {
        trim_start(s.drop_first())
    } else {
        s
    }
}

/// `s` without its trailing white space.
pub open spec fn trim_end(s: Seq<char>) -> Seq<char>
    decreases s.len(),
{
    if s.len() > 0 && is_white_space(s.last()) {
        trim_end(s.drop_last())
    } else {
        s
    }
}

/// `s` without leading and trailing white space (std's `str::trim`).
pub open spec fn trimmed(s: Seq<char>) -> Seq<char> {
    trim_end(trim_start(s))
}

/// Removes leading and trailing white space, as `str::trim` does.
pub fn trim(s: &str) -> (r: String)
    ensures
        r@ == trimmed(s@),
{
    let chars = chars_of(s);
    let n: usize = chars.len();
    let mut i: usize = 0;
    assert(s@.subrange(0, n as int) =~= s@);
    while i < n && char_is_whitespace(chars[i])
        invariant
            n == s@.len(),
            chars@ == s@,
            i <= n,
            trim_start(s@) == trim_start(s@.subrange(i as int, n as int)),
        decreases n - i,
    {
        assert(s@.subrange(i as int, n as int).drop_first() =~= s@.subrange(i + 1, n as int));
        i = i + 1;
    }
    assert(trim_start(s@) == s@.subrange(i as int, n as int));
    let mut j: usize = n;
    while j > i && char_is_whitespace(chars[j - 1])
        invariant
            n == s@.len(),
            chars@ == s@,
            i <= j <= n,
            trim_end(s@.subrange(i as int, n as int)) == trim_end(s@.subrange(i as int, j as int)),
        decreases j,
    {
        assert(s@.subrange(i as int, j as int).drop_last() =~= s@.subrange(i as int, j - 1));
        j = j - 1;
    }
    assert(trim_end(s@.subrange(i as int, j as int)) == s@.subrange(i as int, j as int));
    String::from_str(s.substring_char(i, j))
}

/// Whether `needle` occurs in `hay` as a contiguous run of characters.
pub open spec fn contains_sub(hay: Seq<char>, needle: Seq<char>) -> bool {
    exists|k: int|
        0 <= k && k + needle.len() <= hay.len() && #[trigger] hay.subrange(k, k + needle.len())
            == needle
}

/// Whether `needle` occurs in `hay` at position `k`.
fn matches_at(hay: &Vec<char>, needle: &Vec<char>, k: usize) -> (b: bool)
    requires
        k + needle@.len() <= hay@.len(),
    ensures
        b == (hay@.subrange(k as int, k + needle@.len()) == needle@),
{
    let m: usize = needle.len();
    let hl: usize = hay.len();
    let mut i: usize = 0;
    while i < m
        invariant
            m == needle@.len(),
            hl == hay@.len(),
            k + m <= hay@.len(),
            i <= m,
            forall|t: int| 0 <= t < i ==> hay@[k + t] == needle@[t],
        decreases m - i,
    {
        if hay[k + i] != needle[i] {
            assert(hay@.subrange(k as int, k + m)[i as int] != needle@[i as int]);
            return false;
        }
        i = i + 1;
    }
    assert(hay@.subrange(k as int, k + m) =~= needle@);
    true
}

/// Substring search (std's `str::contains` with a `&str` pattern).
pub fn contains(hay: &str, needle: &str) -> (b: bool)
    ensures
        b == contains_sub(hay@, needle@),
{
    let h = chars_of(hay);
    let nd = chars_of(needle);
    let n: usize = h.len();
    let m: usize = nd.len();
    if m > n {
        assert(!contains_sub(hay@, needle@));
        return false;
    }
    let last: usize = n - m;
    let mut k: usize = 0;
    loop
        invariant
            h@ == hay@,
            nd@ == needle@,
            n == hay@.len(),
            m == needle@.len(),
            m <= n,
            last == n - m,
            k <= last,
            forall|t: int| 0 <= t < k ==> #[trigger] hay@.subrange(t, t + needle@.len()) != needle@,
        ensures
            forall|t: int| 0 <= t <= last ==> #[trigger] hay@.subrange(t, t + needle@.len()) != needle@,
        decreases last - k,
    {
        if matches_at(&h, &nd, k) {
            assert(hay@.subrange(k as int, k + m) == needle@);
            return true;
        }
        if k == last {
            break;
        }
        k = k + 1;
    }
    assert forall|t: int| 0 <= t && t + needle@.len() <= hay@.len() implies #[trigger] hay@.subrange(
        t,
        t + needle@.len(),
    ) != needle@ by {}
    false
}

/// The pieces of `s` between occurrences of `sep` (std's `str::split` with a
/// `char` pattern): one more piece than there are separators.
pub open spec fn split_spec(s: Seq<char>, sep: char) -> Seq<Seq<char>>
    decreases s.len(),
{
    if s.len() == 0 {
        seq![Seq::empty()]
    } else {
        let rest = split_spec(s.drop_last(), sep);
        if s.last() == sep {
            rest.push(Seq::empty())
        } else {
            rest.update(rest.len() - 1, rest.last().push(s.last()))
        }
    }
}

pub proof fn lemma_split_spec_nonempty(s: Seq<char>, sep: char)
    ensures
        split_spec(s, sep).len() >= 1,
    decreases s.len(),
{
    if s.len() > 0 {
        lemma_split_spec_nonempty(s.drop_last(), sep);
    }
}

/// Splits `s` at every `sep`.
pub fn split(s: &str, sep: char) -> (pieces: Vec<String>)
    ensures
        views(pieces@) == split_spec(s@, sep),
{
    let chars = chars_of(s);
    let n: usize = chars.len();
    let mut pieces: Vec<String> = Vec::new();
    let mut start: usize = 0;
    let mut i: usize = 0;
    assert(views(pieces@) =~= Seq::<Seq<char>>::empty());
    assert(s@.subrange(0, 0) =~= Seq::<char>::empty());
    assert(split_spec(Seq::<char>::empty(), sep) == seq![Seq::<char>::empty()]);
    assert(views(pieces@).push(s@.subrange(0, 0)) =~= split_spec(s@.subrange(0, 0), sep));
    while i < n
        invariant
            chars@ == s@,
            n == s@.len(),
            start <= i <= n,
            views(pieces@).push(s@.subrange(start as int, i as int)) == split_spec(
                s@.subrange(0, i as int),
                sep,
            ),
        decreases n - i,
    {
        proof {
            let pre = s@.subrange(0, i + 1);
            assert(pre.drop_last() =~= s@.subrange(0, i as int));
            assert(pre.last() == chars@[i as int]);
            lemma_split_spec_nonempty(s@.subrange(0, i as int), sep);
        }
        if chars[i] == sep {
            let piece = String::from_str(s.substring_char(start, i));
            proof {
                lemma_views_push(pieces@, piece);
                assert(s@.subrange(i + 1, i + 1) =~= Seq::<char>::empty());
            }
            pieces.push(piece);
            start = i + 1;
        } else {
            proof {
                let rest = split_spec(s@.subrange(0, i as int), sep);
                assert(rest.last() == s@.subrange(start as int, i as int));
                assert(s@.subrange(start as int, i + 1) =~= rest.last().push(chars@[i as int]));
                assert(views(pieces@).push(s@.subrange(start as int, i + 1)) =~= rest.update(
                    rest.len() - 1,
                    rest.last().push(chars@[i as int]),
                ));
            }
        }
        i = i + 1;
    }
    let last = String::from_str(s.substring_char(start, n));
    proof {
        lemma_views_push(pieces@, last);
        assert(s@.subrange(0, n as int) =~= s@);
    }
    pieces.push(last);
    pieces
}

/// The character of a decimal digit.
pub open spec fn digit_char(d: nat) -> char {
    if d == 0 {
        '0'
    } else if d == 1 {
        '1'
    } else if d == 2 {
        '2'
    } else if d == 3 {
        '3'
    } else if d == 4 {
        '4'
    } else if d == 5 {
        '5'
    } else if d == 6 {
        '6'
    } else if d == 7 {
        '7'
    } else if d == 8 {
        '8'
    } else {
        '9'
    }
}

/// The decimal digits of `n`, most significant first, without leading zeros.
pub open spec fn decimal(n: nat) -> Seq<char>
    decreases n,
{
    if n < 10 {
        seq![digit_char(n)]
    } else {
        decimal(n / 10).push(digit_char(n % 10))
    }
}

/// Whether `c` is an ASCII decimal digit.
pub open spec fn is_digit(c: char) -> bool {
    '0' <= c && c <= '9'
}

/// Whether every character of `d` is an ASCII decimal digit.
pub open spec fn all_digits(d: Seq<char>) -> bool {
    forall|i: int| 0 <= i < d.len() ==> is_digit(#[trigger] d[i])
}

/// The value of an ASCII decimal digit.
pub open spec fn digit_value(c: char) -> nat {
    (c as nat - '0' as nat) as nat
}

/// The value of a run of decimal digits.
pub open spec fn digits_value(d: Seq<char>) -> nat
    decreases d.len(),
{
    if d.len() == 0 {
        0
    } else {
        digits_value(d.drop_last()) * 10 + digit_value(d.last())
    }
}

/// The value std's `usize::from_str` gives `s`: an optional `+`, then one or
/// more ASCII digits, whose value fits in a `usize`.
pub open spec fn parse_usize_spec(s: Seq<char>) -> Option<usize> {
    let d = if s.len() > 0 && s[0] == '+' {
        s.drop_first()
    } else {
        s
    };
    if d.len() > 0 && all_digits(d) && digits_value(d) <= usize::MAX {
        Some(digits_value(d) as usize)
    } else {
        None
    }
}

/// The text of a single digit.
fn digit_str(d: u64) -> (s: &'static str)
    requires
        d < 10,
    ensures
        s@ == seq![digit_char(d as nat)],
{
    proof {
        reveal_strlit("0");
        reveal_strlit("1");
        reveal_strlit("2");
        reveal_strlit("3");
        reveal_strlit("4");
        reveal_strlit("5");
        reveal_strlit("6");
        reveal_strlit("7");
        reveal_strlit("8");
        reveal_strlit("9");
    }
    if d == 0 {
        "0"
    } else if d == 1 {
        "1"
    } else if d == 2 {
        "2"
    } else if d == 3 {
        "3"
    } else if d == 4 {
        "4"
    } else if d == 5 {
        "5"
    } else if d == 6 {
        "6"
    } else if d == 7 {
        "7"
    } else if d == 8 {
        "8"
    } else {
        "9"
    }
}

/// Appends the decimal digits of `n` to `s`.
pub fn push_decimal(s: &mut String, n: u64)
    ensures
        final(s)@ == old(s)@ + decimal(n as nat),
    decreases n,
{
    if n >= 10 {
        push_decimal(s, n / 10);
    }
    s.append(digit_str(n % 10));
    assert(decimal(n as nat) == if n < 10 {
        seq![digit_char(n as nat)]
    } else {
        decimal((n / 10) as nat).push(digit_char((n % 10) as nat))
    });
}

/// The decimal text of `n` (std's `Display for usize`).
pub fn to_decimal(n: usize) -> (s: String)
    ensures
        s@ == decimal(n as nat),
{
    let mut s = String::new();
    push_decimal(&mut s, n as u64);
    s
}

/// Parses a `usize` as std's `usize::from_str` does.
pub fn parse_usize(s: &str) -> (r: Option<usize>)
    ensures
        r == parse_usize_spec(s@),
{
    let chars = chars_of(s);
    let n: usize = chars.len();
    let start: usize = if n > 0 && chars[0] == '+' {
        1
    } else {
        0
    };
    let ghost d = if s@.len() > 0 && s@[0] == '+' {
        s@.drop_first()
    } else {
        s@
    };
    assert(d =~= s@.subrange(start as int, n as int));
    if start == n {
        return None;
    }
    let mut value: usize = 0;
    let mut overflow = false;
    let mut i: usize = start;
    while i < n
        invariant
            chars@ == s@,
            n == s@.len(),
            start <= i <= n,
            d == s@.subrange(start as int, n as int),
            d == (if s@.len() > 0 && s@[0] == '+' {
                s@.drop_first()
            } else {
                s@
            }),
            forall|k: int| start <= k < i ==> is_digit(#[trigger] s@[k]),
            !overflow ==> value == digits_value(s@.subrange(start as int, i as int)),
            overflow ==> digits_value(s@.subrange(start as int, i as int)) > usize::MAX,
        decreases n - i,
    {
        let c = chars[i];
        if !('0' <= c && c <= '9') {
            assert(!is_digit(d[i - start]));
            return None;
        }
        let dig: usize = (c as u32 - '0' as u32) as usize;
        let ghost prev = s@.subrange(start as int, i as int);
        assert(s@.subrange(start as int, i + 1).drop_last() =~= prev);
        assert(digits_value(s@.subrange(start as int, i + 1)) == digits_value(prev) * 10 + dig);
        if !overflow {
            if value > (usize::MAX - dig) / 10 {
                overflow = true;
                assert(value * 10 + dig > usize::MAX) by (nonlinear_arith)
                    requires
                        value > (usize::MAX - dig) / 10,
                        dig < 10,
                ;
            } else {
                assert(value * 10 + dig <= usize::MAX) by (nonlinear_arith)
                    requires
                        value <= (usize::MAX - dig) / 10,
                        dig < 10,
                ;
                value = value * 10 + dig;
            }
        } else {
            assert(digits_value(prev) * 10 + dig > usize::MAX) by (nonlinear_arith)
                requires
                    digits_value(prev) > usize::MAX,
            ;
        }
        i = i + 1;
    }
    assert(s@.subrange(start as int, n as int) == d);
    assert(all_digits(d)) by {
        assert forall|k: int| 0 <= k < d.len() implies is_digit(#[trigger] d[k]) by {
            assert(d[k] == s@[start + k]);
        }
    }
    if overflow {
        None
    } else {
        Some(value)
    }
}

/// The position of the last `c` in `s`, if any.
pub open spec fn last_index_of(s: Seq<char>, c: char) -> Option<int>
    decreases s.len(),
{
    if s.len() == 0 {
        None
    } else if s.last() == c {
        Some(s.len() - 1)
    } else {
        last_index_of(s.drop_last(), c)
    }
}

/// Splits `s` around its last `c` (std's `str::rsplit_once` with a `char`).
pub fn rsplit_once(s: &str, c: char) -> (r: Option<(String, String)>)
    ensures
        r is Some <==> last_index_of(s@, c) is Some,
        r matches Some(parts) ==> {
            let k = last_index_of(s@, c)->0;
            &&& parts.0@ == s@.subrange(0, k)
            &&& parts.1@ == s@.subrange(k + 1, s@.len() as int)
        },
{
    let chars = chars_of(s);
    let n: usize = chars.len();
    let mut j: usize = n;
    assert(s@.subrange(0, n as int) =~= s@);
    while j > 0 && chars[j - 1] != c
        invariant
            chars@ == s@,
            n == s@.len(),
            j <= n,
            last_index_of(s@, c) == last_index_of(s@.subrange(0, j as int), c),
        decreases j,
    {
        assert(s@.subrange(0, j as int).drop_last() =~= s@.subrange(0, j - 1));
        j = j - 1;
    }
    if j == 0 {
        assert(s@.subrange(0, 0) =~= Seq::<char>::empty());
        None
    } else {
        let head = String::from_str(s.substring_char(0, j - 1));
        let tail = String::from_str(s.substring_char(j, n));
        Some((head, tail))
    }
}

/// String equality, character by character.
pub fn str_eq(a: &str, b: &str) -> (r: bool)
    ensures
        r == (a@ == b@),
{
    let x = String::from_str(a);
    let y = String::from_str(b);
    x == y
}

proof fn lemma_digit_char(d: nat)
    requires
        d < 10,
    ensures
        is_digit(digit_char(d)),
        digit_value(digit_char(d)) == d,
{
}

/// The decimal text of `n` is a non-empty run of digits whose value is `n`.
pub proof fn lemma_decimal_digits(n: nat)
    ensures
        decimal(n).len() > 0,
        all_digits(decimal(n)),
        digits_value(decimal(n)) == n,
    decreases n,
{
    if n < 10 {
        lemma_digit_char(n);
        assert(decimal(n).drop_last() =~= Seq::<char>::empty());
        assert(digits_value(Seq::<char>::empty()) == 0);
    } else {
        lemma_decimal_digits(n / 10);
        lemma_digit_char(n % 10);
        let d = decimal(n);
        assert(d.drop_last() =~= decimal(n / 10));
        assert(digits_value(d) == digits_value(decimal(n / 10)) * 10 + digit_value(digit_char(n % 10)));
        assert((n / 10) * 10 + n % 10 == n);
        assert forall|i: int| 0 <= i < d.len() implies is_digit(#[trigger] d[i]) by {
            if i < d.len() - 1 {
                assert(d[i] == decimal(n / 10)[i]);
            }
        }
    }
}

/// Printing a `usize` in decimal and parsing it back gives it back.
pub proof fn lemma_parse_decimal_round_trip(n: usize)
    ensures
        parse_usize_spec(decimal(n as nat)) == Some(n),
{
    lemma_decimal_digits(n as nat);
    assert(is_digit(decimal(n as nat)[0]));
}

/// With no `c` after it, the `c` that ends `prefix.push(c)` is the last one.
pub proof fn lemma_last_index_of_append(prefix: Seq<char>, c: char, rest: Seq<char>)
    requires
        forall|i: int| 0 <= i < rest.len() ==> rest[i] != c,
    ensures
        last_index_of(prefix.push(c) + rest, c) == Some(prefix.len() as int),
    decreases rest.len(),
{
    if rest.len() == 0 {
        assert(prefix.push(c) + rest =~= prefix.push(c));
    } else {
        assert((prefix.push(c) + rest).drop_last() =~= prefix.push(c) + rest.drop_last());
        assert((prefix.push(c) + rest).last() == rest.last());
        lemma_last_index_of_append(prefix, c, rest.drop_last());
    }
}

/// No piece of a split holds the separator.
pub proof fn lemma_split_pieces_lack_separator(s: Seq<char>, sep: char)
    ensures
        forall|i: int|
            0 <= i < split_spec(s, sep).len() ==> !(#[trigger] split_spec(s, sep)[i]).contains(sep),
    decreases s.len(),
{
    if s.len() > 0 {
        lemma_split_pieces_lack_separator(s.drop_last(), sep);
        lemma_split_spec_nonempty(s.drop_last(), sep);
        let rest = split_spec(s.drop_last(), sep);
        if s.last() != sep {
            let last = rest.last().push(s.last());
            assert forall|j: int| 0 <= j < last.len() implies last[j] != sep by {
                if j < last.len() - 1 {
                    assert(last[j] == rest.last()[j]);
                    assert(!rest[rest.len() - 1].contains(sep));
                }
            }
        } else {
            assert(!Seq::<char>::empty().contains(sep));
        }
    }
}

/// Trimming only removes characters.
pub proof fn lemma_trimmed_within(s: Seq<char>)
    ensures
        forall|c: char| #[trigger] trimmed(s).contains(c) ==> s.contains(c),
{
    lemma_trim_start_within(s);
    lemma_trim_end_within(trim_start(s));
}

proof fn lemma_trim_start_within(s: Seq<char>)
    ensures
        forall|c: char| #[trigger] trim_start(s).contains(c) ==> s.contains(c),
    decreases s.len(),
{
    if s.len() > 0 && is_white_space(s[0]) {
        lemma_trim_start_within(s.drop_first());
        assert forall|c: char| #[trigger] trim_start(s).contains(c) implies s.contains(c) by {
            assert(trim_start(s) == trim_start(s.drop_first()));
            assert(trim_start(s.drop_first()).contains(c));
            assert(s.drop_first().contains(c));
            let k = choose|k: int| 0 <= k < s.drop_first().len() && s.drop_first()[k] == c;
            assert(s[k + 1] == c);
        }
    }
}

proof fn lemma_trim_end_within(s: Seq<char>)
    ensures
        forall|c: char| #[trigger] trim_end(s).contains(c) ==> s.contains(c),
    decreases s.len(),
{
    if s.len() > 0 && is_white_space(s.last()) {
        lemma_trim_end_within(s.drop_last());
        assert forall|c: char| #[trigger] trim_end(s).contains(c) implies s.contains(c) by {
            assert(trim_end(s) == trim_end(s.drop_last()));
            assert(trim_end(s.drop_last()).contains(c));
            assert(s.drop_last().contains(c));
            let k = choose|k: int| 0 <= k < s.drop_last().len() && s.drop_last()[k] == c;
            assert(s[k] == c);
        }
    }
}

/// Splitting `a`, a separator, then `b` gives the pieces of `a` followed by
/// the pieces of `b`.
pub proof fn lemma_split_join(a: Seq<char>, sep: char, b: Seq<char>)
    ensures
        split_spec(a.push(sep) + b, sep) == split_spec(a, sep) + split_spec(b, sep),
    decreases b.len(),
{
    let s = a.push(sep) + b;
    if b.len() == 0 {
        assert(s =~= a.push(sep));
        assert(a.push(sep).drop_last() =~= a);
        assert(split_spec(b, sep) == seq![Seq::<char>::empty()]);
        assert(split_spec(a, sep).push(Seq::empty()) =~= split_spec(a, sep) + split_spec(b, sep));
    } else {
        lemma_split_join(a, sep, b.drop_last());
        assert(s.drop_last() =~= a.push(sep) + b.drop_last());
        assert(s.last() == b.last());
        let x = split_spec(a, sep);
        let y = split_spec(b.drop_last(), sep);
        lemma_split_spec_nonempty(b.drop_last(), sep);
        if b.last() == sep {
            assert((x + y).push(Seq::empty()) =~= x + y.push(Seq::empty()));
        } else {
            assert((x + y).update((x + y).len() - 1, (x + y).last().push(b.last())) =~= x + y.update(
                y.len() - 1,
                y.last().push(b.last()),
            ));
        }
    }
}

/// Text without the separator is a single piece.
pub proof fn lemma_split_single(s: Seq<char>, sep: char)
    requires
        forall|i: int| 0 <= i < s.len() ==> s[i] != sep,
    ensures
        split_spec(s, sep) == seq![s],
    decreases s.len(),
{
    if s.len() > 0 {
        lemma_split_single(s.drop_last(), sep);
        assert(s.last() == s[s.len() - 1]);
        assert(s.drop_last().push(s.last()) =~= s);
        assert(seq![s.drop_last()].update(0, s.drop_last().push(s.last())) =~= seq![s]);
    } else {
        assert(s =~= Seq::<char>::empty());
    }
}

proof fn lemma_trim_start_all_white(s: Seq<char>)
    requires
        forall|i: int| 0 <= i < s.len() ==> is_white_space(s[i]),
    ensures
        trim_start(s).len() == 0,
    decreases s.len(),
{
    if s.len() > 0 {
        assert forall|i: int| 0 <= i < s.drop_first().len() implies is_white_space(s.drop_first()[i]) by {
            assert(s.drop_first()[i] == s[i + 1]);
        }
        lemma_trim_start_all_white(s.drop_first());
    }
}

proof fn lemma_trim_start_keeps_non_white(s: Seq<char>, j: int)
    requires
        0 <= j < s.len(),
        !is_white_space(s[j]),
    ensures
        trim_start(s).len() > 0,
        !is_white_space(trim_start(s)[0]),
    decreases s.len(),
{
    if is_white_space(s[0]) {
        assert(s.drop_first()[j - 1] == s[j]);
        lemma_trim_start_keeps_non_white(s.drop_first(), j - 1);
    }
}

proof fn lemma_trim_end_keeps_first(s: Seq<char>)
    requires
        s.len() > 0,
        !is_white_space(s[0]),
    ensures
        trim_end(s).len() > 0,
    decreases s.len(),
{
    if is_white_space(s.last()) {
        assert(s.len() > 1);
        assert(s.drop_last()[0] == s[0]);
        lemma_trim_end_keeps_first(s.drop_last());
    }
}

/// Trimming leaves nothing exactly when every character is white space.
pub proof fn lemma_trimmed_empty_iff_white(s: Seq<char>)
    ensures
        trimmed(s).len() == 0 <==> forall|i: int| 0 <= i < s.len() ==> is_white_space(#[trigger] s[i]),
{
    if forall|i: int| 0 <= i < s.len() ==> is_white_space(#[trigger] s[i]) {
        lemma_trim_start_all_white(s);
        assert(trim_start(s) =~= Seq::<char>::empty());
    } else {
        let j = choose|j: int| 0 <= j < s.len() && !is_white_space(#[trigger] s[j]);
        lemma_trim_start_keeps_non_white(s, j);
        lemma_trim_end_keeps_first(trim_start(s));
    }
}

} // verus!
