//! Character-level helpers shared by the editor and the runtime: Unicode
//! whitespace, trimming, substring search, lower-casing and truncation.
use vstd::prelude::*;
use vstd::string::*;

verus! {

/// The Unicode `White_Space` property, which is what `char::is_whitespace`
/// and `str::trim` use.
pub open spec fn is_white_space(c: char) -> bool {
    let u = c as u32;
    ||| 0x09 <= u <= 0x0D
    ||| u == 0x20
    ||| u == 0x85
    ||| u == 0xA0
    ||| u == 0x1680
    ||| 0x2000 <= u <= 0x200A
    ||| u == 0x2028
    ||| u == 0x2029
    ||| u == 0x202F
    ||| u == 0x205F
    ||| u == 0x3000
}

/// `s` with its leading whitespace removed.
pub open spec fn trim_start_seq(s: Seq<char>) -> Seq<char>
    decreases s.len(),
{
    if s.len() > 0 && is_white_space(s[0]) {
        trim_start_seq(s.drop_first())
    } else {
        s
    }
}

/// `s` with its trailing whitespace removed.
pub open spec fn trim_end_seq(s: Seq<char>) -> Seq<char>
    decreases s.len(),
{
    if s.len() > 0 && is_white_space(s.last()) {
        trim_end_seq(s.drop_last())
    } else {
        s
    }
}

/// `s` with leading and trailing whitespace removed (what `str::trim` gives).
pub open spec fn trim_seq(s: Seq<char>) -> Seq<char> {
    trim_end_seq(trim_start_seq(s))
}

/// `needle` occurs as a contiguous run somewhere in `hay` (what `str::contains` tests).
pub open spec fn seq_contains(hay: Seq<char>, needle: Seq<char>) -> bool {
    exists|i: int|
        0 <= i && i + needle.len() <= hay.len() && #[trigger] hay.subrange(i, i + needle.len())
            == needle
}

/// ASCII upper case letter mapped to lower case; every other char unchanged.
pub open spec fn ascii_lower(c: char) -> char {
    if 'A' <= c && c <= 'Z' {
        ((c as u32) + 32) as char
    } else {
        c
    }
}

/// ASCII lower case letter mapped to upper case; every other char unchanged.
pub open spec fn ascii_upper(c: char) -> char {
    if 'a' <= c && c <= 'z' {
        ((c as u32) - 32) as char
    } else {
        c
    }
}

pub open spec fn is_ascii_seq(s: Seq<char>) -> bool {
    forall|i: int| 0 <= i < s.len() ==> (#[trigger] s[i] as u32) < 128
}

/// What `str::to_lowercase` returns for a string (Unicode lower-casing).
pub uninterp spec fn lowercase_of(s: Seq<char>) -> Seq<char>;

/// What `char::to_uppercase` yields for a char (one or more chars).
pub uninterp spec fn uppercase_of(c: char) -> Seq<char>;

/// The text shortened to at most `max_chars` characters, with `...` marking a cut.
pub open spec fn truncated(s: Seq<char>, max_chars: nat) -> Seq<char> {
    if s.len() <= max_chars {
        s
    } else {
        let keep: int = if max_chars >= 3 { max_chars - 3 } else { 0 };
        s.take(keep) + seq!['.', '.', '.']
    }
}

/// A text that fits is kept whole; a longer one is cut to exactly
/// `max_chars` chars when `max_chars` leaves room for the `...`, and what
/// is kept of it is its beginning.
pub proof fn law_truncated_text_fits(s: Seq<char>, max_chars: nat)
    ensures
        s.len() <= max_chars ==> truncated(s, max_chars) == s,
        s.len() > max_chars && max_chars >= 3 ==> truncated(s, max_chars).len() == max_chars,
        s.len() > max_chars ==> truncated(s, max_chars).subrange(
            0,
            truncated(s, max_chars).len() - 3,
        ) == s.take(truncated(s, max_chars).len() - 3),
{
    if s.len() > max_chars {
        let keep: int = if max_chars >= 3 { max_chars - 3 } else { 0 };
        let t = truncated(s, max_chars);
        assert(t.len() == keep + 3);
        assert(t.subrange(0, t.len() - 3) =~= s.take(keep));
    }
}

/// A text that is `before + needle + after` contains `needle`.
pub proof fn lemma_contains_middle(before: Seq<char>, needle: Seq<char>, after: Seq<char>)
    ensures
        seq_contains(before + needle + after, needle),
{
    let h = before + needle + after;
    let i = before.len() as int;
    assert(h.subrange(i, i + needle.len()) =~= needle);
}

/// A text that contains `needle` is some `before + needle + after`.
pub proof fn lemma_contains_split(hay: Seq<char>, needle: Seq<char>)
    requires
        seq_contains(hay, needle),
    ensures
        exists|before: Seq<char>, after: Seq<char>| hay == before + needle + after,
{
    let i = choose|i: int|
        0 <= i && i + needle.len() <= hay.len() && #[trigger] hay.subrange(i, i + needle.len())
            == needle;
    let before = hay.take(i);
    let after = hay.skip(i + needle.len());
    assert(hay =~= before + needle + after);
}

/// Unicode whitespace test on one char.
pub fn is_whitespace_char(c: char) -> (r: bool)
    ensures
        r == is_white_space(c),
{
    let u: u32 = c as u32;
    (0x09 <= u && u <= 0x0D) || u == 0x20 || u == 0x85 || u == 0xA0 || u == 0x1680 || (0x2000
        <= u && u <= 0x200A) || u == 0x2028 || u == 0x2029 || u == 0x202F || u == 0x205F || u
        == 0x3000
}

/// Appends one char to a string.
/// Calls `String::push`, which appends the char at the end of the string.
#[verifier::external_body]
fn push_char(s: &mut String, c: char)
    ensures
        final(s)@ == old(s)@.push(c),
{
    s.push(c);
}

/// Lower-cases a string.
/// Calls `str::to_lowercase`. Its result is named `lowercase_of`; for ASCII
/// input the documentation's mapping is plain ASCII lower-casing of each char,
/// which is stated. What it gives for other chars is left to the name.
#[verifier::external_body]
pub(crate) fn to_lowercase(s: &str) -> (r: String)
    ensures
        r@ == lowercase_of(s@),
        is_ascii_seq(s@) ==> r@ == s@.map_values(|c: char| ascii_lower(c)),
{
    s.to_lowercase()
}

/// Upper-cases one char.
/// Calls `char::to_uppercase` and collects what it yields. The result is
/// named `uppercase_of`; for an ASCII char it is the single ASCII upper-case
/// char (or the char itself), which is stated.
#[verifier::external_body]
pub(crate) fn char_to_uppercase(c: char) -> (r: Vec<char>)
    ensures
        r@ == uppercase_of(c),
        (c as u32) < 128 ==> r@ == seq![ascii_upper(c)],
{
    c.to_uppercase().collect()
}

/// The chars of `s`, in order.
pub fn chars_of(s: &str) -> (v: Vec<char>)
    ensures
        v@ == s@,
{
    let n = s.unicode_len();
    let mut v: Vec<char> = Vec::new();
    let mut i: usize = 0;
    while i < n
        invariant
            n == s@.len(),
            i <= n,
            v@ == s@.take(i as int),
        decreases n - i,
    {
        let c = s.get_char(i);
        v.push(c);
        i = i + 1;
        assert(v@ =~= s@.take(i as int));
    }
    assert(v@ =~= s@);
    v
}

/// A string holding exactly the chars of `chars[from..to]`.
pub fn string_of_range(chars: &Vec<char>, from: usize, to: usize) -> (r: String)
    requires
        from <= to <= chars.len(),
    ensures
        r@ == chars@.subrange(from as int, to as int),
{
    let mut r = String::new();
    let mut i: usize = from;
    while i < to
        invariant
            from <= i <= to <= chars.len(),
            r@ == chars@.subrange(from as int, i as int),
        decreases to - i,
    {
        push_char(&mut r, chars[i]);
        i = i + 1;
        assert(r@ =~= chars@.subrange(from as int, i as int));
    }
    r
}

/// A string holding exactly the given chars.
pub fn string_of(chars: &Vec<char>) -> (r: String)
    ensures
        r@ == chars@,
{
    let r = string_of_range(chars, 0, chars.len());
    assert(chars@.subrange(0, chars@.len() as int) =~= chars@);
    r
}

proof fn lemma_trim_start_step(s: Seq<char>, i: int)
    requires
        0 <= i < s.len(),
        is_white_space(s[i]),
    ensures
        trim_start_seq(s.subrange(i, s.len() as int)) == trim_start_seq(
            s.subrange(i + 1, s.len() as int),
        ),
{
    assert(s.subrange(i, s.len() as int).drop_first() =~= s.subrange(i + 1, s.len() as int));
}

proof fn lemma_trim_end_step(s: Seq<char>, j: int)
    requires
        0 < j <= s.len(),
        is_white_space(s[j - 1]),
    ensures
        trim_end_seq(s.subrange(0, j)) == trim_end_seq(s.subrange(0, j - 1)),
{
    assert(s.subrange(0, j).drop_last() =~= s.subrange(0, j - 1));
}

/// Bounds `(start, end)` of the trimmed text inside `chars`.
pub fn trim_bounds(chars: &Vec<char>) -> (r: (usize, usize))
    ensures
        r.0 <= r.1 <= chars.len(),
        r.0 == chars.len() - trim_start_seq(chars@).len(),
        chars@.subrange(r.0 as int, r.1 as int) == trim_seq(chars@),
{
    let n = chars.len();
    let mut start: usize = 0;
    assert(chars@ =~= chars@.subrange(0, n as int));
    while start < n && is_whitespace_char(chars[start])
        invariant
            start <= n == chars.len(),
            trim_start_seq(chars@) == trim_start_seq(chars@.subrange(start as int, n as int)),
        decreases n - start,
    {
        proof {
            lemma_trim_start_step(chars@, start as int);
        }
        start = start + 1;
    }
    let ghost rest = chars@.subrange(start as int, n as int);
    assert(trim_start_seq(rest) == rest);
    let mut end: usize = n;
    assert(rest =~= rest.subrange(0, end - start));
    while end > start && is_whitespace_char(chars[end - 1])
        invariant
            start <= end <= n == chars.len(),
            rest == chars@.subrange(start as int, n as int),
            trim_end_seq(rest) == trim_end_seq(rest.subrange(0, end - start)),
        decreases end,
    {
        proof {
            assert(rest[end - start - 1] == chars@[end - 1]);
            lemma_trim_end_step(rest, end - start);
        }
        end = end - 1;
    }
    proof {
        let t = rest.subrange(0, end - start);
        assert(t =~= chars@.subrange(start as int, end as int));
        assert(rest =~= rest.subrange(0, rest.len() as int));
        if t.len() > 0 {
            assert(t.last() == chars@[end - 1]);
        }
        assert(trim_end_seq(t) == t);
    }
    (start, end)
}

/// The text with surrounding Unicode whitespace removed (`str::trim`).
pub fn trim_text(s: &str) -> (r: String)
    ensures
        r@ == trim_seq(s@),
{
    let chars = chars_of(s);
    let (a, b) = trim_bounds(&chars);
    string_of_range(&chars, a, b)
}

/// Whether `needle` occurs in `hay` (`str::contains`).
pub fn contains_chars(hay: &Vec<char>, needle: &Vec<char>) -> (r: bool)
    ensures
        r == seq_contains(hay@, needle@),
{
    let n = hay.len();
    let m = needle.len();
    if m > n {
        return false;
    }
    let mut i: usize = 0;
    while i <= n - m
        invariant
            m <= n == hay.len(),
            m == needle.len(),
            forall|k: int|
                0 <= k < i ==> #[trigger] hay@.subrange(k, k + m as int) != needle@,
        decreases n - m + 1 - i,
    {
        let mut j: usize = 0;
        let mut matched = true;
        while j < m
            invariant
                m <= n == hay.len(),
                m == needle.len(),
                i + m <= n,
                j <= m,
                matched == (forall|t: int| 0 <= t < j ==> hay@[i + t] == needle@[t]),
            decreases m - j,
        {
            if hay[i + j] != needle[j] {
                matched = false;
            }
            j = j + 1;
        }
        if matched {
            assert(hay@.subrange(i as int, i + m as int) =~= needle@);
            return true;
        }
        proof {
            let t = choose|t: int| 0 <= t < m && hay@[i + t] != needle@[t];
            assert(hay@.subrange(i as int, i + m as int)[t] != needle@[t]);
        }
        i = i + 1;
    }
    proof {
        assert forall|k: int|
            0 <= k && k + needle@.len() <= hay@.len() implies #[trigger] hay@.subrange(
            k,
            k + needle@.len(),
        ) != needle@ by {
            assert(k < i);
        }
    }
    false
}

/// Whether `needle` occurs in `hay` (`str::contains`).
pub fn contains_str(hay: &str, needle: &str) -> (r: bool)
    ensures
        r == seq_contains(hay@, needle@),
{
    let h = chars_of(hay);
    let n = chars_of(needle);
    contains_chars(&h, &n)
}

/// Shortens `text` to at most `max_chars` chars, ending a cut with `...`.
/// When `max_chars` is below 3 a cut text is just `...`.
pub fn truncate_text(text: &str, max_chars: usize) -> (r: String)
    ensures
        r@ == truncated(text@, max_chars as nat),
{
    let count = text.unicode_len();
    if count <= max_chars {
        return String::from_str(text);
    }
    let take: usize = if max_chars >= 3 { max_chars - 3 } else { 0 };
    let head = text.substring_char(0, take);
    let mut compact = String::from_str(head);
    compact.append("...");
    proof {
        reveal_strlit("...");
        assert(text@.subrange(0, take as int) =~= text@.take(take as int));
    }
    compact
}

} // verus!
