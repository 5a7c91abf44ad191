//! Text as sequences of characters: searching, splitting and rendering.
use vstd::prelude::*;
use vstd::string::StringExecFns;

verus! {

// ---------------------------------------------------------------------------
// Characters
// ---------------------------------------------------------------------------

/// The code point of a character.
pub fn code_point(c: char) -> (r: u32)
    ensures
        r == c as int,
{
    c as u32
}

/// Whether a character has the Unicode `White_Space` property.
pub open spec fn is_space(c: char) -> bool {
    let n = c as int;
    ||| 0x9 <= n <= 0xd
    ||| n == 0x20
    ||| n == 0x85
    ||| n == 0xa0
    ||| n == 0x1680
    ||| 0x2000 <= n <= 0x200a
    ||| n == 0x2028
    ||| n == 0x2029
    ||| n == 0x202f
    ||| n == 0x205f
    ||| n == 0x3000
}

/// Decides [`is_space`].
pub fn char_is_space(c: char) -> (r: bool)
    ensures
        r == is_space(c),
{
    let n: u32 = c as u32;
    (0x9 <= n && n <= 0xd) || n == 0x20 || n == 0x85 || n == 0xa0 || n == 0x1680 || (0x2000 <= n && n
        <= 0x200a) || n == 0x2028 || n == 0x2029 || n == 0x202f || n == 0x205f || n == 0x3000
}

/// Whether a character is a Unicode control character.
pub open spec fn is_control(c: char) -> bool {
    let n = c as int;
    n <= 0x1f || 0x7f <= n <= 0x9f
}

/// Decides [`is_control`].
pub fn char_is_control(c: char) -> (r: bool)
    ensures
        r == is_control(c),
{
    let n: u32 = c as u32;
    n <= 0x1f || (0x7f <= n && n <= 0x9f)
}

/// Whether a character is an ASCII decimal digit.
pub open spec fn is_digit(c: char) -> bool {
    0x30 <= c as int <= 0x39
}

/// Decides [`is_digit`].
pub fn char_is_digit(c: char) -> (r: bool)
    ensures
        r == is_digit(c),
{
    let n: u32 = c as u32;
    0x30 <= n && n <= 0x39
}

/// Whether a character is an ASCII hexadecimal digit of either case.
pub open spec fn is_hex_digit(c: char) -> bool {
    ||| is_digit(c)
    ||| 0x61 <= c as int <= 0x66
    ||| 0x41 <= c as int <= 0x46
}

/// Decides [`is_hex_digit`].
pub fn char_is_hex_digit(c: char) -> (r: bool)
    ensures
        r == is_hex_digit(c),
{
    let n: u32 = c as u32;
    char_is_digit(c) || (0x61 <= n && n <= 0x66) || (0x41 <= n && n <= 0x46)
}

/// Whether a character is an ASCII letter or digit.
pub open spec fn is_alphanumeric(c: char) -> bool {
    ||| is_digit(c)
    ||| 0x61 <= c as int <= 0x7a
    ||| 0x41 <= c as int <= 0x5a
}

/// Decides [`is_alphanumeric`].
pub fn char_is_alphanumeric(c: char) -> (r: bool)
    ensures
        r == is_alphanumeric(c),
{
    let n: u32 = c as u32;
    char_is_digit(c) || (0x61 <= n && n <= 0x7a) || (0x41 <= n && n <= 0x5a)
}

/// A character with ASCII upper-case letters mapped to lower case.
pub open spec fn lower_char(c: char) -> char {
    if 0x41 <= c as int <= 0x5a {
        (c as int + 32) as char
    } else {
        c
    }
}

/// Computes [`lower_char`].
pub fn char_to_lower(c: char) -> (r: char)
    ensures
        r == lower_char(c),
{
    let n: u32 = c as u32;
    if 0x41 <= n && n <= 0x5a {
        let m: u8 = (n + 32) as u8;
        m as char
    } else {
        c
    }
}

// ---------------------------------------------------------------------------
// Whole texts
// ---------------------------------------------------------------------------

/// The characters of a text.
pub fn chars_of(s: &str) -> (r: Vec<char>)
    ensures
        r@ == s@,
{
    let mut out: Vec<char> = Vec::new();
    for c in it: s.chars()
        invariant
            it.seq() == s@,
            out@ == s@.take(it.index() as int),
    {
        out.push(c);
    }
    out
}

/// Collects characters into a text.
///
/// Calls `String::from_iter` of the standard library: the text holds exactly the given
/// characters in their order.
#[verifier::external_body]
pub(crate) fn text_of(chars: Vec<char>) -> (r: String)
    ensures
        r@ == chars@,
{
    String::from_iter(chars)
}

/// Decides whether two texts hold the same characters.
pub fn same(a: &str, b: &str) -> (r: bool)
    ensures
        r == (a@ == b@),
{
    let x = a.to_owned();
    let y = b.to_owned();
    x == y
}

/// Two texts joined.
pub fn join(a: &str, b: &str) -> (r: String)
    ensures
        r@ == a@ + b@,
{
    let mut out = a.to_owned();
    out.append(b);
    out
}

/// Three texts joined.
pub fn join3(a: &str, b: &str, c: &str) -> (r: String)
    ensures
        r@ == a@ + b@ + c@,
{
    let mut out = a.to_owned();
    out.append(b);
    out.append(c);
    out
}

/// The text with its ASCII letters in lower case.
pub open spec fn lower(s: Seq<char>) -> Seq<char> {
    s.map_values(|c: char| lower_char(c))
}

/// Computes [`lower`].
pub fn to_lower(s: &str) -> (r: String)
    ensures
        r@ == lower(s@),
{
    let chars = chars_of(s);
    let mut out: Vec<char> = Vec::new();
    for i in 0..chars.len()
        invariant
            chars@ == s@,
            out@ == lower(s@).take(i as int),
    {
        out.push(char_to_lower(chars[i]));
        assert(out@ =~= lower(s@).take(i + 1));
    }
    assert(out@ =~= lower(s@));
    text_of(out)
}

/// A character with ASCII lower-case letters mapped to upper case.
pub open spec fn upper_char(c: char) -> char {
    if 0x61 <= c as int <= 0x7a {
        (c as int - 32) as char
    } else {
        c
    }
}

/// The text with its ASCII letters in upper case.
pub open spec fn upper(s: Seq<char>) -> Seq<char> {
    s.map_values(|c: char| upper_char(c))
}

fn char_to_upper(c: char) -> (r: char)
    ensures
        r == upper_char(c),
{
    let n: u32 = code_point(c);
    if 0x61 <= n && n <= 0x7a {
        let m: u8 = (n - 32) as u8;
        m as char
    } else {
        c
    }
}

/// Computes [`upper`].
pub fn to_upper(s: &str) -> (r: String)
    ensures
        r@ == upper(s@),
{
    let chars = chars_of(s);
    let mut out: Vec<char> = Vec::new();
    for i in 0..chars.len()
        invariant
            chars@ == s@,
            out@ == upper(s@).take(i as int),
    {
        out.push(char_to_upper(chars[i]));
        assert(out@ =~= upper(s@).take(i + 1));
    }
    assert(out@ =~= upper(s@));
    text_of(out)
}

/// The text in lower case, in all scripts.
pub uninterp spec fn lowercase(s: Seq<char>) -> Seq<char>;

/// Calls `str::to_lowercase`: the lower-case form depends on the text alone, and of a text of
/// ASCII characters only the letters change.
#[verifier::external_body]
pub(crate) fn lowercase_of(s: &str) -> (r: String)
    ensures
        r@ == lowercase(s@),
        (forall|i: int| 0 <= i < s@.len() ==> #[trigger] s@[i] as int <= 0x7f) ==> r@ == lower(s@),
{
    s.to_lowercase()
}

// ---------------------------------------------------------------------------
// Searching
// ---------------------------------------------------------------------------

/// Whether `needle` starts at position `at` of `hay`.
pub open spec fn occurs_at(hay: Seq<char>, needle: Seq<char>, at: int) -> bool {
    &&& 0 <= at
    &&& at + needle.len() <= hay.len()
    &&& hay.subrange(at, at + needle.len()) == needle
}

/// Whether `needle` occurs somewhere in `hay`.
pub open spec fn contains(hay: Seq<char>, needle: Seq<char>) -> bool {
    exists|at: int| occurs_at(hay, needle, at)
}

fn chars_occur_at(hay: &Vec<char>, needle: &Vec<char>, at: usize) -> (r: bool)
    requires
        at + needle.len() <= hay.len(),
    ensures
        r == occurs_at(hay@, needle@, at as int),
{
    for j in 0..needle.len()
        invariant
            at + needle.len() <= hay.len(),
            forall|k: int| 0 <= k < j ==> hay@[at + k] == needle@[k],
    {
        if hay[at + j] != needle[j] {
            proof {
                assert(hay@.subrange(at as int, at + needle@.len())[j as int] != needle@[j as int]);
            }
            return false;
        }
    }
    assert(hay@.subrange(at as int, at + needle@.len()) =~= needle@);
    true
}

/// Decides [`contains`].
pub fn text_contains(hay: &str, needle: &str) -> (r: bool)
    ensures
        r == contains(hay@, needle@),
{
    let h = chars_of(hay);
    let n = chars_of(needle);
    if n.len() > h.len() {
        return false;
    }
    let last: usize = h.len() - n.len();
    let mut at: usize = 0;
    while at <= last
        invariant
            h@ == hay@,
            n@ == needle@,
            last + n.len() == h.len(),
            at <= last + 1,
            forall|k: int| 0 <= k < at ==> !occurs_at(hay@, needle@, k),
        decreases last + 1 - at,
    {
        if chars_occur_at(&h, &n, at) {
            assert(occurs_at(hay@, needle@, at as int));
            return true;
        }
        if at == last {
            assert forall|k: int| !occurs_at(hay@, needle@, k) by {
                assert(k > at ==> k + needle@.len() > hay@.len());
            }
            return false;
        }
        at = at + 1;
    }
    false
}

/// Whether `s` begins with `prefix`.
pub open spec fn starts_with(s: Seq<char>, prefix: Seq<char>) -> bool {
    occurs_at(s, prefix, 0)
}

/// Decides [`starts_with`].
pub fn text_starts_with(s: &str, prefix: &str) -> (r: bool)
    ensures
        r == starts_with(s@, prefix@),
{
    let h = chars_of(s);
    let n = chars_of(prefix);
    if n.len() > h.len() {
        return false;
    }
    chars_occur_at(&h, &n, 0)
}

// ---------------------------------------------------------------------------
// Splitting
// ---------------------------------------------------------------------------

/// The characters of a list of rows.
pub open spec fn rows(v: Seq<Vec<char>>) -> Seq<Seq<char>> {
    v.map_values(|r: Vec<char>| r@)
}

/// The number of characters before the first white space.
pub open spec fn word_len(s: Seq<char>) -> nat
    decreases s.len(),
{
    if s.len() == 0 || is_space(s[0]) {
        0
    } else {
        1 + word_len(s.drop_first())
    }
}

pub proof fn lemma_word_len(s: Seq<char>)
    ensures
        word_len(s) <= s.len(),
        s.len() > 0 && !is_space(s[0]) ==> word_len(s) > 0,
    decreases s.len(),
{
    if s.len() > 0 {
        lemma_word_len(s.drop_first());
    }
}

/// The maximal runs of characters that are not white space, in order.
pub open spec fn words(s: Seq<char>) -> Seq<Seq<char>>
    decreases s.len(),
{
    if s.len() == 0 {
        Seq::empty()
    } else if is_space(s[0]) {
        words(s.drop_first())
    } else {
        proof {
            lemma_word_len(s);
        }
        seq![s.take(word_len(s) as int)] + words(s.skip(word_len(s) as int))
    }
}

proof fn lemma_word_len_at(s: Seq<char>, n: int)
    requires
        0 <= n <= s.len(),
        forall|k: int| 0 <= k < n ==> !is_space(s[k]),
        n == s.len() || is_space(s[n]),
    ensures
        word_len(s) == n,
    decreases n,
{
    if n > 0 {
        let rest = s.drop_first();
        assert forall|k: int| 0 <= k < n - 1 implies !is_space(rest[k]) by {
            assert(rest[k] == s[k + 1]);
        }
        lemma_word_len_at(rest, n - 1);
    }
}

/// Computes [`words`].
pub fn words_of(s: &Vec<char>) -> (r: Vec<Vec<char>>)
    ensures
        rows(r@) == words(s@),
{
    let mut out: Vec<Vec<char>> = Vec::new();
    let mut i: usize = 0;
    proof {
        assert(s@.skip(0) =~= s@);
        assert(rows(out@) + words(s@) =~= words(s@));
    }
    while i < s.len()
        invariant
            i <= s.len(),
            rows(out@) + words(s@.skip(i as int)) == words(s@),
        decreases s.len() - i,
    {
        let ghost here = s@.skip(i as int);
        if char_is_space(s[i]) {
            assert(here.drop_first() =~= s@.skip(i + 1));
            i = i + 1;
        } else {
            let start: usize = i;
            let mut word: Vec<char> = Vec::new();
            while i < s.len() && !char_is_space(s[i])
                invariant
                    start <= i <= s.len(),
                    here == s@.skip(start as int),
                    word@ == here.take(i - start),
                    forall|k: int| 0 <= k < i - start ==> !is_space(here[k]),
                decreases s.len() - i,
            {
                word.push(s[i]);
                i = i + 1;
                assert(word@ =~= here.take(i - start));
            }
            proof {
                lemma_word_len_at(here, i - start);
                assert(here.skip(i - start) =~= s@.skip(i as int));
                assert(!is_space(here[0]));
            }
            let ghost before = rows(out@);
            out.push(word);
            proof {
                assert(rows(out@) =~= before.push(here.take(i - start)));
                assert(rows(out@) + words(s@.skip(i as int)) =~= before + (seq![
                    here.take(i - start),
                ] + words(s@.skip(i as int))));
            }
        }
    }
    proof {
        assert(s@.skip(i as int) =~= Seq::<char>::empty());
        assert(rows(out@) + words(s@.skip(i as int)) =~= rows(out@));
    }
    out
}

/// The number of characters before the first `sep`.
pub open spec fn head_len(s: Seq<char>, sep: char) -> nat
    decreases s.len(),
{
    if s.len() == 0 || s[0] == sep {
        0
    } else {
        1 + head_len(s.drop_first(), sep)
    }
}

pub proof fn lemma_head_len(s: Seq<char>, sep: char)
    ensures
        head_len(s, sep) <= s.len(),
        head_len(s, sep) < s.len() ==> s[head_len(s, sep) as int] == sep,
        forall|k: int| 0 <= k < head_len(s, sep) ==> s[k] != sep,
    decreases s.len(),
{
    if s.len() > 0 && s[0] != sep {
        let rest = s.drop_first();
        lemma_head_len(rest, sep);
        assert forall|k: int| 0 <= k < head_len(s, sep) implies s[k] != sep by {
            if k > 0 {
                assert(s[k] == rest[k - 1]);
            }
        }
    }
}

pub proof fn lemma_head_len_at(s: Seq<char>, sep: char, n: int)
    requires
        0 <= n <= s.len(),
        forall|k: int| 0 <= k < n ==> s[k] != sep,
        n == s.len() || s[n] == sep,
    ensures
        head_len(s, sep) == n,
    decreases n,
{
    if n > 0 {
        let rest = s.drop_first();
        assert forall|k: int| 0 <= k < n - 1 implies rest[k] != sep by {
            assert(rest[k] == s[k + 1]);
        }
        lemma_head_len_at(rest, sep, n - 1);
    }
}

/// The pieces of a text between the occurrences of `sep`.
pub open spec fn split(s: Seq<char>, sep: char) -> Seq<Seq<char>>
    decreases s.len(),
{
    let n = head_len(s, sep) as int;
    proof {
        lemma_head_len(s, sep);
    }
    if n >= s.len() {
        seq![s]
    } else {
        seq![s.take(n)] + split(s.skip(n + 1), sep)
    }
}

/// Computes [`split`].
pub fn split_of(s: &Vec<char>, sep: char) -> (r: Vec<Vec<char>>)
    ensures
        rows(r@) == split(s@, sep),
{
    let mut out: Vec<Vec<char>> = Vec::new();
    let mut piece: Vec<char> = Vec::new();
    let mut i: usize = 0;
    let ghost mut start: int = 0;
    proof {
        assert(s@.skip(0) =~= s@);
        assert(rows(out@) + split(s@, sep) =~= split(s@, sep));
    }
    while i < s.len()
        invariant
            0 <= start <= i <= s.len(),
            piece@ == s@.subrange(start, i as int),
            forall|k: int| start <= k < i ==> s@[k] != sep,
            rows(out@) + split(s@.skip(start), sep) == split(s@, sep),
        decreases s.len() - i,
    {
        let ghost here = s@.skip(start);
        if s[i] == sep {
            proof {
                lemma_head_len_at(here, sep, i - start);
                assert(here.take(i - start) =~= piece@);
                assert(here.skip(i - start + 1) =~= s@.skip(i + 1));
            }
            let ghost before = rows(out@);
            out.push(piece);
            proof {
                assert(rows(out@) =~= before.push(here.take(i - start)));
                assert(rows(out@) + split(s@.skip(i + 1), sep) =~= before + (seq![
                    here.take(i - start),
                ] + split(s@.skip(i + 1), sep)));
                start = i + 1;
            }
            piece = Vec::new();
        } else {
            piece.push(s[i]);
        }
        i = i + 1;
        assert(piece@ =~= s@.subrange(start, i as int));
    }
    let ghost here = s@.skip(start);
    proof {
        lemma_head_len_at(here, sep, i - start);
        assert(here =~= piece@);
    }
    let ghost before = rows(out@);
    out.push(piece);
    proof {
        assert(rows(out@) =~= before + seq![here]);
    }
    out
}

// ---------------------------------------------------------------------------
// Lines and margins
// ---------------------------------------------------------------------------

/// A row without the carriage return that a line break left at its end.
pub open spec fn without_return(s: Seq<char>) -> Seq<char> {
    if s.len() > 0 && s.last() == '\r' {
        s.drop_last()
    } else {
        s
    }
}

/// The lines of a text. A line ends in a line feed or in a carriage return and a line feed; the
/// ending of the last line may be missing.
pub open spec fn lines(s: Seq<char>) -> Seq<Seq<char>> {
    let parts = split(s, '\n');
    let ended = Seq::new((parts.len() - 1) as nat, |i: int| without_return(parts[i]));
    if parts.last().len() == 0 {
        ended
    } else {
        ended.push(parts.last())
    }
}

pub proof fn lemma_split_nonempty(s: Seq<char>, sep: char)
    ensures
        split(s, sep).len() >= 1,
    decreases s.len(),
{
    lemma_head_len(s, sep);
    let n = head_len(s, sep) as int;
    if n < s.len() {
        lemma_split_nonempty(s.skip(n + 1), sep);
    }
}

/// Computes [`lines`].
pub fn lines_of(s: &Vec<char>) -> (r: Vec<Vec<char>>)
    ensures
        rows(r@) == lines(s@),
{
    let mut parts = split_of(s, '\n');
    let ghost all = split(s@, '\n');
    proof {
        lemma_split_nonempty(s@, '\n');
        assert(rows(parts@).len() == parts@.len());
    }
    let n: usize = parts.len();
    let mut out: Vec<Vec<char>> = Vec::new();
    let mut i: usize = 0;
    while i + 1 < n
        invariant
            i + 1 <= n,
            n == parts.len(),
            rows(parts@) == all,
            rows(out@) == Seq::new(i as nat, |k: int| without_return(all[k])),
        decreases n - i,
    {
        let len: usize = parts[i].len();
        let mut row: Vec<char> = Vec::new();
        let keep: usize = if len > 0 && parts[i][len - 1] == '\r' {
            len - 1
        } else {
            len
        };
        assert(all[i as int] == rows(parts@)[i as int]);
        let ghost before = rows(out@);
        for j in 0..keep
            invariant
                i < parts.len(),
                rows(parts@) == all,
                all[i as int] == parts@[i as int]@,
                keep <= parts@[i as int].len(),
                row@ == all[i as int].take(j as int),
        {
            row.push(parts[i][j]);
            assert(row@ =~= all[i as int].take(j + 1));
        }
        assert(row@ =~= without_return(all[i as int]));
        out.push(row);
        assert(rows(out@) =~= before.push(row@));
        i = i + 1;
        assert(rows(out@) =~= Seq::new(i as nat, |k: int| without_return(all[k])));
    }
    let last = parts.pop();
    assert(all[n - 1] == rows(all_rows(parts@, last))[n - 1]);
    let ghost before = rows(out@);
    match last {
        Some(row) => {
            if row.len() > 0 {
                out.push(row);
                assert(rows(out@) =~= before.push(row@));
            }
        },
        None => {},
    }
    assert(rows(out@) =~= lines(s@));
    out
}

spec fn all_rows(v: Seq<Vec<char>>, last: Option<Vec<char>>) -> Seq<Vec<char>> {
    match last {
        Some(row) => v.push(row),
        None => v,
    }
}

/// A text without its leading white space.
pub open spec fn trim_start(s: Seq<char>) -> Seq<char>
    decreases s.len(),
{
    if s.len() > 0 && is_space(s[0]) {
        trim_start(s.drop_first())
    } else {
        s
    }
}

/// A text without its trailing white space.
pub open spec fn trim_end(s: Seq<char>) -> Seq<char>
    decreases s.len(),
{
    if s.len() > 0 && is_space(s.last()) {
        trim_end(s.drop_last())
    } else {
        s
    }
}

/// A text without its leading and trailing white space.
pub open spec fn trim(s: Seq<char>) -> Seq<char> {
    trim_end(trim_start(s))
}

/// Computes [`trim_start`].
pub fn trim_start_of(s: &Vec<char>) -> (r: Vec<char>)
    ensures
        r@ == trim_start(s@),
{
    let mut i: usize = 0;
    assert(s@.skip(0) =~= s@);
    while i < s.len() && char_is_space(s[i])
        invariant
            i <= s.len(),
            trim_start(s@.skip(i as int)) == trim_start(s@),
        decreases s.len() - i,
    {
        assert(s@.skip(i as int).drop_first() =~= s@.skip(i + 1));
        i = i + 1;
    }
    let mut out: Vec<char> = Vec::new();
    let from: usize = i;
    while i < s.len()
        invariant
            from <= i <= s.len(),
            out@ == s@.subrange(from as int, i as int),
        decreases s.len() - i,
    {
        out.push(s[i]);
        i = i + 1;
        assert(out@ =~= s@.subrange(from as int, i as int));
    }
    assert(out@ =~= s@.skip(from as int));
    out
}

/// Computes [`trim`].
pub fn trim_of(s: &str) -> (r: String)
    ensures
        r@ == trim(s@),
{
    let chars = chars_of(s);
    let mut out = trim_start_of(&chars);
    while out.len() > 0 && char_is_space(out[out.len() - 1])
        invariant
            trim_end(out@) == trim(s@),
        decreases out.len(),
    {
        let ghost before = out@;
        let _ = out.pop();
        assert(out@ =~= before.drop_last());
    }
    text_of(out)
}

/// Decides whether nothing but white space is in a text.
pub fn is_blank(s: &str) -> (r: bool)
    ensures
        r == (trim(s@).len() == 0),
{
    let t = trim_of(s);
    t.as_str().is_empty()
}

/// The first place of `needle` in `hay` at or behind `from`.
pub open spec fn find_from(hay: Seq<char>, needle: Seq<char>, from: int) -> Option<int>
    decreases hay.len() + 1 - from,
{
    if from < 0 || from + needle.len() > hay.len() {
        None
    } else if occurs_at(hay, needle, from) {
        Some(from)
    } else {
        find_from(hay, needle, from + 1)
    }
}

/// What stands in a text behind the first occurrence of `needle`.
pub open spec fn after_first(hay: Seq<char>, needle: Seq<char>) -> Option<Seq<char>> {
    match find_from(hay, needle, 0) {
        Some(at) => Some(hay.skip(at + needle.len())),
        None => None,
    }
}

/// Computes [`after_first`].
pub fn after_first_of(hay: &Vec<char>, needle: &str) -> (r: Option<Vec<char>>)
    ensures
        match r {
            Some(rest) => after_first(hay@, needle@) == Some(rest@),
            None => after_first(hay@, needle@) is None,
        },
{
    let n = chars_of(needle);
    if n.len() > hay.len() {
        return None;
    }
    let last: usize = hay.len() - n.len();
    let mut at: usize = 0;
    loop
        invariant
            n@ == needle@,
            last + n.len() == hay.len(),
            at <= last,
            find_from(hay@, needle@, 0) == find_from(hay@, needle@, at as int),
        decreases last - at,
    {
        if chars_occur_at(hay, &n, at) {
            let mut rest: Vec<char> = Vec::new();
            let from: usize = at + n.len();
            for k in from..hay.len()
                invariant
                    from <= hay.len(),
                    rest@ == hay@.subrange(from as int, k as int),
            {
                rest.push(hay[k]);
                assert(rest@ =~= hay@.subrange(from as int, k + 1));
            }
            assert(rest@ =~= hay@.skip(from as int));
            return Some(rest);
        }
        if at == last {
            reveal_with_fuel(find_from, 2);
            return None;
        }
        at = at + 1;
    }
}

/// A text without the characters `c` at its end.
pub open spec fn trim_end_char(s: Seq<char>, c: char) -> Seq<char>
    decreases s.len(),
{
    if s.len() > 0 && s.last() == c {
        trim_end_char(s.drop_last(), c)
    } else {
        s
    }
}

/// Computes [`trim_end_char`] in place.
pub fn drop_end_chars(s: &mut Vec<char>, c: char)
    ensures
        final(s)@ == trim_end_char(old(s)@, c),
{
    let ghost start = s@;
    while s.len() > 0 && s[s.len() - 1] == c
        invariant
            trim_end_char(s@, c) == trim_end_char(start, c),
        decreases s.len(),
    {
        let ghost before = s@;
        let _ = s.pop();
        assert(s@ =~= before.drop_last());
    }
}

/// The part of a text before the first `sep`; all of it where there is none.
pub open spec fn head(s: Seq<char>, sep: char) -> Seq<char> {
    s.take(head_len(s, sep) as int)
}

/// Computes [`head`].
pub fn head_of(s: &Vec<char>, sep: char) -> (r: Vec<char>)
    ensures
        r@ == head(s@, sep),
{
    let mut out: Vec<char> = Vec::new();
    let mut i: usize = 0;
    while i < s.len() && s[i] != sep
        invariant
            i <= s.len(),
            out@ == s@.take(i as int),
            forall|k: int| 0 <= k < i ==> s@[k] != sep,
        decreases s.len() - i,
    {
        out.push(s[i]);
        i = i + 1;
        assert(out@ =~= s@.take(i as int));
    }
    proof {
        lemma_head_len_at(s@, sep, i as int);
    }
    out
}

/// Decides whether characters spell a text.
pub fn spells(s: &Vec<char>, t: &str) -> (r: bool)
    ensures
        r == (s@ == t@),
{
    let x = chars_of(t);
    if s.len() != x.len() {
        return false;
    }
    for i in 0..s.len()
        invariant
            x@ == t@,
            s.len() == x.len(),
            forall|k: int| 0 <= k < i ==> s@[k] == x@[k],
    {
        if s[i] != x[i] {
            assert(s@[i as int] != t@[i as int]);
            return false;
        }
    }
    assert(s@ =~= t@);
    true
}

} // verus!
