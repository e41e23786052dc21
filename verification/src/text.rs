use vstd::prelude::*;

verus! {

/// Whitespace as `char::is_whitespace` defines it (the Unicode `White_Space` property).
pub open spec fn is_ws(c: char) -> bool {
    ||| c == ' '
    ||| ('\t' <= c && c <= '\r')
    ||| c == '\u{85}'
    ||| c == '\u{a0}'
    ||| c == '\u{1680}'
    ||| ('\u{2000}' <= c && c <= '\u{200a}')
    ||| c == '\u{2028}'
    ||| c == '\u{2029}'
    ||| c == '\u{202f}'
    ||| c == '\u{205f}'
    ||| c == '\u{3000}'
}

/// Tests whether `c` is whitespace.
pub fn is_whitespace(c: char) -> (b: bool)
    ensures
        b == is_ws(c),
{
    c == ' ' || ('\t' <= c && c <= '\r') || c == '\u{85}' || c == '\u{a0}' || c == '\u{1680}'
        || ('\u{2000}' <= c && c <= '\u{200a}') || c == '\u{2028}' || c == '\u{2029}'
        || c == '\u{202f}' || c == '\u{205f}' || c == '\u{3000}'
}

/// The sets of characters that a trim can strip from both ends of a text.
#[derive(Clone, Copy, Debug, PartialEq, Eq, Structural)]
pub enum CharClass {
    Whitespace,
    Backtick,
    BacktickOrStar,
}

impl CharClass {
    pub open spec fn contains(self, c: char) -> bool {
        match self {
            CharClass::Whitespace => is_ws(c),
            CharClass::Backtick => c == '`',
            CharClass::BacktickOrStar => c == '`' || c == '*',
        }
    }

    pub fn has(&self, c: char) -> (b: bool)
        ensures
            b == self.contains(c),
    {
        match self {
            CharClass::Whitespace => is_whitespace(c),
            CharClass::Backtick => c == '`',
            CharClass::BacktickOrStar => c == '`' || c == '*',
        }
    }
}

/// `s` without the characters of `cls` at its start.
pub open spec fn trim_start_by(s: Seq<char>, cls: CharClass) -> Seq<char>
    decreases s.len(),
{
    if s.len() > 0 && cls.contains(s[0]) {
        trim_start_by(s.drop_first(), cls)
    } else {
        s
    }
}

/// `s` without the characters of `cls` at its end.
pub open spec fn trim_end_by(s: Seq<char>, cls: CharClass) -> Seq<char>
    decreases s.len(),
{
    if s.len() > 0 && cls.contains(s.last()) {
        trim_end_by(s.drop_last(), cls)
    } else {
        s
    }
}

/// `s` without the characters of `cls` at either end.
pub open spec fn trim_by(s: Seq<char>, cls: CharClass) -> Seq<char> {
    trim_end_by(trim_start_by(s, cls), cls)
}

/// `s` without whitespace at either end (`str::trim`).
pub open spec fn trim(s: Seq<char>) -> Seq<char> {
    trim_by(s, CharClass::Whitespace)
}

/// The characters of a string, in order.
pub fn chars_of(s: &str) -> (v: Vec<char>)
    ensures
        v@ == s@,
{
    let n = s.unicode_len();
    let mut v: Vec<char> = Vec::new();
    let mut i: usize = 0;
    while i < n
        invariant
            n == s@.len(),
            i <= n,
            v@ == s@.take(i as int),
        decreases n - i,
    {
        v.push(s.get_char(i));
        proof {
            assert(s@.take(i + 1) =~= s@.take(i as int).push(s@[i as int]));
        }
        i = i + 1;
    }
    proof {
        assert(s@.take(n as int) =~= s@);
    }
    v
}

/// The string made of the characters of `v`.
///
/// Calls `String::from_iter` on `v`'s characters; the contract claims that the
/// string holds exactly those characters, in order.
#[verifier::external_body]
pub(crate) fn string_of(v: &[char]) -> (s: String)
    ensures
        s@ == v@,
{
    v.iter().collect::<String>()
}

/// A copy of `s[from..to]`.
pub fn copy_range(s: &[char], from: usize, to: usize) -> (r: Vec<char>)
    requires
        from <= to <= s@.len(),
    ensures
        r@ == s@.subrange(from as int, to as int),
{
    let mut r: Vec<char> = Vec::new();
    let mut i: usize = from;
    while i < to
        invariant
            from <= i <= to <= s@.len(),
            r@ == s@.subrange(from as int, i as int),
        decreases to - i,
    {
        r.push(s[i]);
        proof {
            assert(s@.subrange(from as int, i + 1) =~= s@.subrange(from as int, i as int).push(
                s@[i as int],
            ));
        }
        i = i + 1;
    }
    r
}

/// The index of the first character of `s[from..]` that is not in `cls`
/// (or `s.len()`), such that skipping up to it is `trim_start_by`.
pub fn skip_leading(s: &[char], from: usize, cls: CharClass) -> (i: usize)
    requires
        from <= s@.len(),
    ensures
        from <= i <= s@.len(),
        trim_start_by(s@.skip(from as int), cls) == s@.skip(i as int),
{
    let n = s.len();
    let mut i: usize = from;
    while i < n && cls.has(s[i])
        invariant
            from <= i <= n,
            n == s@.len(),
            trim_start_by(s@.skip(from as int), cls) == trim_start_by(s@.skip(i as int), cls),
        decreases n - i,
    {
        proof {
            assert(s@.skip(i as int).drop_first() =~= s@.skip(i + 1));
        }
        i = i + 1;
    }
    proof {
        if i == n {
            assert(s@.skip(i as int).len() == 0);
        }
    }
    i
}

/// The end of `s[from..to]` once the characters of `cls` at its end are dropped.
pub fn trailing_end(s: &[char], from: usize, to: usize, cls: CharClass) -> (j: usize)
    requires
        from <= to <= s@.len(),
    ensures
        from <= j <= to,
        trim_end_by(s@.subrange(from as int, to as int), cls) == s@.subrange(
            from as int,
            j as int,
        ),
{
    let mut j: usize = to;
    while j > from && cls.has(s[j - 1])
        invariant
            from <= j <= to <= s@.len(),
            trim_end_by(s@.subrange(from as int, to as int), cls) == trim_end_by(
                s@.subrange(from as int, j as int),
                cls,
            ),
        decreases j,
    {
        proof {
            assert(s@.subrange(from as int, j as int).drop_last() =~= s@.subrange(
                from as int,
                j - 1,
            ));
        }
        j = j - 1;
    }
    j
}

/// `s` with the characters of `cls` removed from both ends.
pub fn trim_chars(s: &[char], cls: CharClass) -> (r: Vec<char>)
    ensures
        r@ == trim_by(s@, cls),
{
    let i = skip_leading(s, 0, cls);
    proof {
        assert(s@.skip(0) =~= s@);
        assert(s@.skip(i as int) =~= s@.subrange(i as int, s@.len() as int));
    }
    let j = trailing_end(s, i, s.len(), cls);
    copy_range(s, i, j)
}

/// `p` occurs in `s` starting at index `i`.
pub open spec fn occurs_at(s: Seq<char>, p: Seq<char>, i: int) -> bool {
    0 <= i && i + p.len() <= s.len() && s.subrange(i, i + p.len()) == p
}

/// The first index at or after `i` where `p` occurs in `s`.
pub open spec fn find_from(s: Seq<char>, p: Seq<char>, i: int) -> Option<int>
    decreases s.len() + 1 - i,
{
    if i < 0 || i + p.len() > s.len() {
        None
    } else if occurs_at(s, p, i) {
        Some(i)
    } else {
        find_from(s, p, i + 1)
    }
}

/// The first index where `p` occurs in `s` (`str::find`, counted in characters).
pub open spec fn find(s: Seq<char>, p: Seq<char>) -> Option<int> {
    find_from(s, p, 0)
}

/// The last index at or before `i` where `p` occurs in `s`.
pub open spec fn find_last_upto(s: Seq<char>, p: Seq<char>, i: int) -> Option<int>
    decreases i + 1,
{
    if i < 0 {
        None
    } else if occurs_at(s, p, i) {
        Some(i)
    } else {
        find_last_upto(s, p, i - 1)
    }
}

/// The last index where `p` occurs in `s` (`str::rfind`, counted in characters).
pub open spec fn find_last(s: Seq<char>, p: Seq<char>) -> Option<int> {
    find_last_upto(s, p, s.len() - p.len())
}

/// An index in exec form, read as an integer.
pub open spec fn index_view(o: Option<usize>) -> Option<int> {
    match o {
        Some(k) => Some(k as int),
        None => None,
    }
}

/// Whether `p` occurs in `s` at index `i`.
pub fn matches_at(s: &[char], p: &[char], i: usize) -> (b: bool)
    requires
        i + p@.len() <= s@.len(),
    ensures
        b == occurs_at(s@, p@, i as int),
{
    let m = p.len();
    let n = s.len();
    let mut j: usize = 0;
    while j < m
        invariant
            j <= m,
            m == p@.len(),
            n == s@.len(),
            i + m <= s@.len(),
            s@.subrange(i as int, i + j) =~= p@.subrange(0, j as int),
        decreases m - j,
    {
        if s[i + j] != p[j] {
            proof {
                assert(s@.subrange(i as int, i + m)[j as int] != p@[j as int]);
            }
            return false;
        }
        proof {
            assert(s@.subrange(i as int, i + j + 1) =~= p@.subrange(0, j + 1));
        }
        j = j + 1;
    }
    proof {
        assert(p@.subrange(0, m as int) =~= p@);
    }
    true
}

/// The first index where `p` occurs in `s`.
pub fn find_seq(s: &[char], p: &[char]) -> (r: Option<usize>)
    ensures
        index_view(r) == find(s@, p@),
{
    let n = s.len();
    let m = p.len();
    if m > n {
        return None;
    }
    let last = n - m;
    let mut i: usize = 0;
    loop
        invariant
            m <= n,
            n == s@.len(),
            m == p@.len(),
            last == n - m,
            i <= last,
            find(s@, p@) == find_from(s@, p@, i as int),
        decreases last - i,
    {
        if matches_at(s, p, i) {
            return Some(i);
        }
        if i == last {
            return None;
        }
        i = i + 1;
    }
}

/// The last index where `p` occurs in `s`.
pub fn find_last_seq(s: &[char], p: &[char]) -> (r: Option<usize>)
    ensures
        index_view(r) == find_last(s@, p@),
{
    let n = s.len();
    let m = p.len();
    if m > n {
        return None;
    }
    let mut i: usize = n - m;
    loop
        invariant
            m <= n,
            n == s@.len(),
            m == p@.len(),
            i <= n - m,
            find_last(s@, p@) == find_last_upto(s@, p@, i as int),
        decreases i,
    {
        if matches_at(s, p, i) {
            return Some(i);
        }
        if i == 0 {
            assert(find_last_upto(s@, p@, -1) is None);
            return None;
        }
        i = i - 1;
    }
}

/// The line split of `s` after reading every character: the finished lines and
/// the line still being read.
pub open spec fn split_state(s: Seq<char>) -> (Seq<Seq<char>>, Seq<char>)
    decreases s.len(),
{
    if s.len() == 0 {
        (Seq::empty(), Seq::empty())
    } else {
        let prev = split_state(s.drop_last());
        if s.last() == '\n' {
            (prev.0.push(prev.1), Seq::empty())
        } else {
            (prev.0, prev.1.push(s.last()))
        }
    }
}

/// The pieces of `s` between its newline characters, in order (there is one more
/// piece than there are newlines).
pub open spec fn lines_of(s: Seq<char>) -> Seq<Seq<char>> {
    split_state(s).0.push(split_state(s).1)
}

/// Splits `s` at its newline characters.
pub fn split_lines(s: &[char]) -> (r: Vec<Vec<char>>)
    ensures
        r.deep_view() == lines_of(s@),
{
    let n = s.len();
    let mut done: Vec<Vec<char>> = Vec::new();
    let mut cur: Vec<char> = Vec::new();
    let mut i: usize = 0;
    while i < n
        invariant
            i <= n,
            n == s@.len(),
            done.deep_view() == split_state(s@.take(i as int)).0,
            cur@ == split_state(s@.take(i as int)).1,
        decreases n - i,
    {
        proof {
            assert(s@.take(i + 1).drop_last() =~= s@.take(i as int));
        }
        let c = s[i];
        if c == '\n' {
            let ghost before = done@;
            proof {
                assert(cur.deep_view() =~= cur@);
            }
            done.push(cur);
            proof {
                assert(done@ == before.push(cur));
                assert(done.deep_view() =~= before.map_values(|v: Vec<char>| v.deep_view()).push(cur@));
            }
            cur = Vec::new();
        } else {
            cur.push(c);
        }
        i = i + 1;
    }
    proof {
        assert(s@.take(n as int) =~= s@);
    }
    let ghost before = done@;
    proof {
        assert(cur.deep_view() =~= cur@);
    }
    done.push(cur);
    proof {
        assert(done@ == before.push(cur));
        assert(done.deep_view() =~= before.map_values(|v: Vec<char>| v.deep_view()).push(cur@));
    }
    done
}

/// The leading run of non-whitespace characters of `s`.
pub open spec fn word_prefix(s: Seq<char>) -> Seq<char>
    decreases s.len(),
{
    if s.len() == 0 || is_ws(s[0]) {
        Seq::empty()
    } else {
        seq![s[0]] + word_prefix(s.drop_first())
    }
}

/// The first whitespace-separated word of `s` (`str::split_whitespace().next()`).
pub open spec fn first_word(s: Seq<char>) -> Option<Seq<char>> {
    let t = trim_start_by(s, CharClass::Whitespace);
    if t.len() == 0 {
        None
    } else {
        Some(word_prefix(t))
    }
}

/// The first whitespace-separated word of `s`.
pub fn first_word_of(s: &[char]) -> (r: Option<Vec<char>>)
    ensures
        match r {
            Some(w) => first_word(s@) == Some(w@),
            None => first_word(s@) is None,
        },
{
    let n = s.len();
    let i = skip_leading(s, 0, CharClass::Whitespace);
    proof {
        assert(s@.skip(0) =~= s@);
    }
    if i == n {
        return None;
    }
    let mut j: usize = i;
    while j < n && !is_whitespace(s[j])
        invariant
            i <= j <= n,
            n == s@.len(),
            word_prefix(s@.skip(i as int)) == s@.subrange(i as int, j as int) + word_prefix(
                s@.skip(j as int),
            ),
        decreases n - j,
    {
        proof {
            let t = s@.skip(j as int);
            assert(t.drop_first() =~= s@.skip(j + 1));
            assert(s@.subrange(i as int, j + 1) =~= s@.subrange(i as int, j as int) + seq![t[0]]);
            assert(s@.subrange(i as int, j + 1) + word_prefix(s@.skip(j + 1)) =~= s@.subrange(
                i as int,
                j as int,
            ) + (seq![t[0]] + word_prefix(t.drop_first())));
        }
        j = j + 1;
    }
    proof {
        assert(word_prefix(s@.skip(j as int)) =~= Seq::<char>::empty());
        assert(s@.subrange(i as int, j as int) + Seq::<char>::empty() =~= s@.subrange(
            i as int,
            j as int,
        ));
    }
    Some(copy_range(s, i, j))
}

/// The number of positions at which `a` and `b` hold the same character, over the
/// length of the shorter one.
pub open spec fn count_matches(a: Seq<char>, b: Seq<char>) -> nat
    decreases a.len(),
{
    if a.len() == 0 || b.len() == 0 {
        0
    } else {
        (if a[0] == b[0] { 1nat } else { 0nat }) + count_matches(a.drop_first(), b.drop_first())
    }
}

/// The number of positions at which `a` and `b` agree.
pub fn count_matching(a: &[char], b: &[char]) -> (m: usize)
    ensures
        m == count_matches(a@, b@),
{
    let mut m: usize = 0;
    let mut i: usize = 0;
    let na = a.len();
    let nb = b.len();
    proof {
        assert(a@.skip(0) =~= a@);
        assert(b@.skip(0) =~= b@);
    }
    while i < na && i < nb
        invariant
            i <= na,
            i <= nb,
            na == a@.len(),
            nb == b@.len(),
            m <= i,
            count_matches(a@, b@) == m + count_matches(a@.skip(i as int), b@.skip(i as int)),
        decreases na - i,
    {
        proof {
            assert(a@.skip(i as int).drop_first() =~= a@.skip(i + 1));
            assert(b@.skip(i as int).drop_first() =~= b@.skip(i + 1));
        }
        if a[i] == b[i] {
            m = m + 1;
        }
        i = i + 1;
    }
    m
}

/// Whether `a` and `b` are the same text.
pub fn same_chars(a: &[char], b: &[char]) -> (r: bool)
    ensures
        r == (a@ == b@),
{
    if a.len() != b.len() {
        return false;
    }
    let n = a.len();
    let mut i: usize = 0;
    while i < n
        invariant
            i <= n,
            n == a@.len(),
            n == b@.len(),
            a@.take(i as int) =~= b@.take(i as int),
        decreases n - i,
    {
        if a[i] != b[i] {
            return false;
        }
        proof {
            assert(a@.take(i + 1) =~= a@.take(i as int).push(a@[i as int]));
            assert(b@.take(i + 1) =~= b@.take(i as int).push(b@[i as int]));
        }
        i = i + 1;
    }
    proof {
        assert(a@.take(n as int) =~= a@);
        assert(b@.take(n as int) =~= b@);
    }
    true
}

/// `c` with the ASCII letters `A`..`Z` mapped to `a`..`z` (`char::to_ascii_lowercase`).
pub open spec fn ascii_lower(c: char) -> char {
    if 'A' <= c && c <= 'Z' {
        ((c as u32) + 32) as char
    } else {
        c
    }
}

/// Maps a character to ASCII lowercase.
pub fn to_ascii_lower(c: char) -> (r: char)
    ensures
        r == ascii_lower(c),
{
    if 'A' <= c && c <= 'Z' {
        let b: u8 = c as u8;
        assert(b == c as u32);
        ((b + 32) as char)
    } else {
        c
    }
}

/// `s` with every character mapped to ASCII lowercase.
pub fn ascii_lowercase(s: &[char]) -> (r: Vec<char>)
    ensures
        r@ == s@.map_values(|c: char| ascii_lower(c)),
{
    let mut r: Vec<char> = Vec::new();
    let n = s.len();
    let mut i: usize = 0;
    while i < n
        invariant
            i <= n,
            n == s@.len(),
            r@ =~= s@.take(i as int).map_values(|c: char| ascii_lower(c)),
        decreases n - i,
    {
        r.push(to_ascii_lower(s[i]));
        proof {
            assert(s@.take(i + 1) =~= s@.take(i as int).push(s@[i as int]));
        }
        i = i + 1;
    }
    proof {
        assert(s@.take(n as int) =~= s@);
    }
    r
}

/// The items of `list` with `sep` between each two (`[T]::join`).
pub open spec fn join(list: Seq<Seq<char>>, sep: Seq<char>) -> Seq<char>
    decreases list.len(),
{
    if list.len() == 0 {
        Seq::empty()
    } else if list.len() == 1 {
        list[0]
    } else {
        join(list.drop_last(), sep) + sep + list.last()
    }
}

/// The texts of `parts` joined by `sep`.
pub fn join_strings(parts: &[String], sep: &str) -> (r: String)
    ensures
        r@ == join(parts@.map_values(|s: String| s@), sep@),
{
    let ghost views = parts@.map_values(|s: String| s@);
    let mut r = String::new();
    let n = parts.len();
    let mut i: usize = 0;
    while i < n
        invariant
            i <= n,
            n == parts@.len(),
            views == parts@.map_values(|s: String| s@),
            r@ == join(views.take(i as int), sep@),
        decreases n - i,
    {
        proof {
            assert(views.take(i + 1).drop_last() =~= views.take(i as int));
        }
        if i > 0 {
            r.append(sep);
        } else {
            proof {
                assert(r@ =~= Seq::<char>::empty());
                assert(r@ + parts@[0]@ =~= parts@[0]@);
            }
        }
        r.append(parts[i].as_str());
        i = i + 1;
    }
    proof {
        assert(views.take(n as int) =~= views);
    }
    r
}

/// The number of bytes in the UTF-8 encoding of `c` (`char::len_utf8`).
pub open spec fn utf8_width(c: char) -> nat {
    if (c as u32) < 0x80 {
        1
    } else if (c as u32) < 0x800 {
        2
    } else if (c as u32) < 0x10000 {
        3
    } else {
        4
    }
}

/// The number of bytes in the UTF-8 encoding of `s` (`str::len`).
pub open spec fn utf8_len(s: Seq<char>) -> nat
    decreases s.len(),
{
    if s.len() == 0 {
        0
    } else {
        utf8_len(s.drop_last()) + utf8_width(s.last())
    }
}

/// The UTF-8 width of a character.
pub fn char_width(c: char) -> (w: u8)
    ensures
        w == utf8_width(c),
{
    let v: u32 = c as u32;
    if v < 0x80 {
        1
    } else if v < 0x800 {
        2
    } else if v < 0x10000 {
        3
    } else {
        4
    }
}

/// The UTF-8 length of `s[..k]`.
pub fn utf8_prefix_len(s: &[char], k: usize) -> (n: u128)
    requires
        k <= s@.len(),
    ensures
        n == utf8_len(s@.take(k as int)),
        n <= 4 * k,
{
    let mut n: u128 = 0;
    let mut i: usize = 0;
    while i < k
        invariant
            i <= k <= s@.len(),
            n == utf8_len(s@.take(i as int)),
            n <= 4 * i,
        decreases k - i,
    {
        proof {
            assert(s@.take(i + 1).drop_last() =~= s@.take(i as int));
        }
        n = n + char_width(s[i]) as u128;
        i = i + 1;
    }
    n
}

/// The UTF-8 length of `s`.
pub fn utf8_length(s: &[char]) -> (n: u128)
    ensures
        n == utf8_len(s@),
        n <= 4 * s@.len(),
{
    proof {
        assert(s@.take(s@.len() as int) =~= s@);
    }
    utf8_prefix_len(s, s.len())
}

/// A text that may be absent, read as characters.
pub open spec fn opt_view(o: Option<&str>) -> Option<Seq<char>> {
    match o {
        Some(s) => Some(s@),
        None => None,
    }
}

/// A result of texts, read as characters.
pub open spec fn result_view(r: Result<String, String>) -> Result<Seq<char>, Seq<char>> {
    match r {
        Ok(s) => Ok(s@),
        Err(e) => Err(e@),
    }
}

/// Longer prefixes of a text have longer UTF-8 encodings.
pub proof fn lemma_utf8_prefix_strictly_increasing(s: Seq<char>, i: int, j: int)
    requires
        0 <= i < j <= s.len(),
    ensures
        utf8_len(s.take(i)) < utf8_len(s.take(j)),
    decreases j - i,
{
    assert(s.take(j).drop_last() =~= s.take(j - 1));
    if i < j - 1 {
        lemma_utf8_prefix_strictly_increasing(s, i, j - 1);
    }
}

/// What `find_from` finds is an occurrence, the first one from `i` on.
pub proof fn lemma_find_from_found(s: Seq<char>, p: Seq<char>, i: int)
    requires
        0 <= i,
    ensures
        match find_from(s, p, i) {
            Some(k) => i <= k && occurs_at(s, p, k) && forall|j: int|
                i <= j < k ==> !#[trigger] occurs_at(s, p, j),
            None => forall|j: int| i <= j ==> !#[trigger] occurs_at(s, p, j),
        },
    decreases s.len() + 1 - i,
{
    if i + p.len() > s.len() {
    } else if occurs_at(s, p, i) {
    } else {
        lemma_find_from_found(s, p, i + 1);
    }
}

/// What `find_last_upto` finds is an occurrence, the last one up to `i`.
pub proof fn lemma_find_last_found(s: Seq<char>, p: Seq<char>, i: int)
    ensures
        match find_last_upto(s, p, i) {
            Some(k) => k <= i && occurs_at(s, p, k),
            None => forall|j: int| j <= i ==> !#[trigger] occurs_at(s, p, j),
        },
    decreases i + 1,
{
    if i < 0 {
    } else if occurs_at(s, p, i) {
    } else {
        lemma_find_last_found(s, p, i - 1);
    }
}

/// `s` after the first occurrence of `p` (`str::split_once`'s second part), or
/// all of `s` where `p` does not occur.
pub open spec fn after_first(s: Seq<char>, p: Seq<char>) -> Seq<char> {
    match find(s, p) {
        Some(i) => s.skip(i + p.len()),
        None => s,
    }
}

/// `s` after the last occurrence of `p` (`str::rsplit_once`'s second part), or
/// all of `s` where `p` does not occur.
pub open spec fn after_last(s: Seq<char>, p: Seq<char>) -> Seq<char> {
    match find_last(s, p) {
        Some(i) => s.skip(i + p.len()),
        None => s,
    }
}

/// The text of `s` after the first occurrence of `p`.
pub fn after_first_of(s: &[char], p: &[char]) -> (r: Vec<char>)
    ensures
        r@ == after_first(s@, p@),
{
    let n = s.len();
    proof {
        lemma_find_from_found(s@, p@, 0);
        assert(s@.subrange(0, n as int) =~= s@);
    }
    match find_seq(s, p) {
        Some(i) => {
            proof {
                assert(s@.skip(i + p@.len()) =~= s@.subrange(i + p@.len(), n as int));
            }
            copy_range(s, i + p.len(), n)
        },
        None => copy_range(s, 0, n),
    }
}

/// The text of `s` after the last occurrence of `p`.
pub fn after_last_of(s: &[char], p: &[char]) -> (r: Vec<char>)
    ensures
        r@ == after_last(s@, p@),
{
    let n = s.len();
    proof {
        lemma_find_last_found(s@, p@, s@.len() - p@.len());
        assert(s@.subrange(0, n as int) =~= s@);
    }
    match find_last_seq(s, p) {
        Some(i) => {
            proof {
                assert(s@.skip(i + p@.len()) =~= s@.subrange(i + p@.len(), n as int));
            }
            copy_range(s, i + p.len(), n)
        },
        None => copy_range(s, 0, n),
    }
}

/// Trimming keeps a suffix whose first character is not trimmed.
proof fn lemma_trim_start_shape(s: Seq<char>, cls: CharClass)
    ensures
        exists|k: int| 0 <= k <= s.len() && trim_start_by(s, cls) == s.skip(k),
        trim_start_by(s, cls).len() > 0 ==> !cls.contains(trim_start_by(s, cls)[0]),
    decreases s.len(),
{
    if s.len() > 0 && cls.contains(s[0]) {
        lemma_trim_start_shape(s.drop_first(), cls);
        let k = choose|k: int| 0 <= k <= s.drop_first().len() && trim_start_by(s.drop_first(), cls) == s.drop_first().skip(k);
        assert(s.drop_first().skip(k) =~= s.skip(k + 1));
    } else {
        assert(s.skip(0) =~= s);
    }
}

/// Trimming the end keeps a prefix whose last character is not trimmed.
proof fn lemma_trim_end_shape(s: Seq<char>, cls: CharClass)
    ensures
        exists|k: int| 0 <= k <= s.len() && trim_end_by(s, cls) == s.take(k),
        trim_end_by(s, cls).len() > 0 ==> !cls.contains(trim_end_by(s, cls).last()),
    decreases s.len(),
{
    if s.len() > 0 && cls.contains(s.last()) {
        lemma_trim_end_shape(s.drop_last(), cls);
        let k = choose|k: int| 0 <= k <= s.drop_last().len() && trim_end_by(s.drop_last(), cls) == s.drop_last().take(k);
        assert(s.drop_last().take(k) =~= s.take(k));
    } else {
        assert(s.take(s.len() as int) =~= s);
    }
}

/// Trimming twice trims no more than trimming once.
pub proof fn lemma_trim_idempotent(s: Seq<char>, cls: CharClass)
    ensures
        trim_by(trim_by(s, cls), cls) == trim_by(s, cls),
{
    let t = trim_start_by(s, cls);
    let u = trim_end_by(t, cls);
    lemma_trim_start_shape(s, cls);
    lemma_trim_end_shape(t, cls);
    let k = choose|k: int| 0 <= k <= t.len() && u == t.take(k);
    if u.len() > 0 {
        assert(u[0] == t[0]);
    }
    assert(trim_start_by(u, cls) == u);
    assert(trim_end_by(u, cls) == u);
}

/// The width of a character is the length of its UTF-8 encoding.
proof fn lemma_width_is_encoding_length(c: char)
    ensures
        vstd::utf8::encode_scalar(c as u32).len() == utf8_width(c),
{
    vstd::utf8::char_is_scalar(c);
}

/// Appending a character appends its encoding's length.
proof fn lemma_encoding_length_push(s: Seq<char>, c: char)
    ensures
        vstd::utf8::encode_utf8(s.push(c)).len() == vstd::utf8::encode_utf8(s).len()
            + vstd::utf8::encode_scalar(c as u32).len(),
    decreases s.len(),
{
    if s.len() == 0 {
        assert(s.push(c).drop_first() =~= Seq::<char>::empty());
        assert(s.push(c)[0] == c);
        assert(vstd::utf8::encode_utf8(Seq::<char>::empty()).len() == 0);
        assert(vstd::utf8::encode_utf8(s).len() == 0);
    } else {
        assert(s.push(c).drop_first() =~= s.drop_first().push(c));
        assert(s.push(c)[0] == s[0]);
        lemma_encoding_length_push(s.drop_first(), c);
    }
}

/// `utf8_len` is the length of the UTF-8 encoding that vstd gives a text, and
/// so what `str::len` returns for a `str` holding it.
pub proof fn lemma_utf8_len_is_encoding_length(s: Seq<char>)
    ensures
        utf8_len(s) == vstd::utf8::encode_utf8(s).len(),
    decreases s.len(),
{
    if s.len() > 0 {
        lemma_utf8_len_is_encoding_length(s.drop_last());
        lemma_encoding_length_push(s.drop_last(), s.last());
        lemma_width_is_encoding_length(s.last());
        assert(s.drop_last().push(s.last()) =~= s);
    }
}

/// Trimming keeps a contiguous part of the text.
pub proof fn lemma_trim_is_subrange(s: Seq<char>, cls: CharClass)
    ensures
        exists|lo: int, hi: int| 0 <= lo <= hi <= s.len() && trim_by(s, cls) == s.subrange(lo, hi),
{
    lemma_trim_start_shape(s, cls);
    let k = choose|k: int| 0 <= k <= s.len() && trim_start_by(s, cls) == s.skip(k);
    let t = s.skip(k);
    lemma_trim_end_shape(t, cls);
    let j = choose|j: int| 0 <= j <= t.len() && trim_end_by(t, cls) == t.take(j);
    assert(t.take(j) =~= s.subrange(k, k + j));
}

/// An occurrence at or after `i` is found from `i`.
pub proof fn lemma_occurrence_is_found(s: Seq<char>, p: Seq<char>, i: int, j: int)
    requires
        0 <= i <= j,
        occurs_at(s, p, j),
    ensures
        find_from(s, p, i) is Some,
    decreases j - i,
{
    if !occurs_at(s, p, i) {
        lemma_occurrence_is_found(s, p, i + 1, j);
    }
}

/// A text that does not hold `p` has no part that holds `p`.
pub proof fn lemma_absent_from_subrange(s: Seq<char>, p: Seq<char>, lo: int, hi: int)
    requires
        find(s, p) is None,
        0 <= lo <= hi <= s.len(),
    ensures
        find(s.subrange(lo, hi), p) is None,
{
    let sub = s.subrange(lo, hi);
    lemma_find_from_found(sub, p, 0);
    if find(sub, p) is Some {
        let k = find(sub, p).unwrap();
        assert(s.subrange(lo + k, lo + k + p.len()) =~= sub.subrange(k, k + p.len()));
        lemma_occurrence_is_found(s, p, 0, lo + k);
    }
}

/// ASCII lowercasing a part of a text is the same part of the lowercased text.
pub proof fn lemma_lower_subrange(s: Seq<char>, lo: int, hi: int)
    requires
        0 <= lo <= hi <= s.len(),
    ensures
        s.subrange(lo, hi).map_values(|c: char| ascii_lower(c)) == s.map_values(
            |c: char| ascii_lower(c),
        ).subrange(lo, hi),
{
    assert(s.subrange(lo, hi).map_values(|c: char| ascii_lower(c)) =~= s.map_values(
        |c: char| ascii_lower(c),
    ).subrange(lo, hi));
}

/// At most as many positions match as the first text has characters.
pub proof fn lemma_count_matches_bound(a: Seq<char>, b: Seq<char>)
    ensures
        count_matches(a, b) <= a.len(),
    decreases a.len(),
{
    if a.len() > 0 && b.len() > 0 {
        lemma_count_matches_bound(a.drop_first(), b.drop_first());
    }
}

/// Every character takes at least one byte.
pub proof fn lemma_len_le_utf8_len(s: Seq<char>)
    ensures
        s.len() <= utf8_len(s),
    decreases s.len(),
{
    if s.len() > 0 {
        lemma_len_le_utf8_len(s.drop_last());
    }
}

} // verus!
