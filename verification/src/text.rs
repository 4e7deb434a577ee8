//! Text primitives over sequences of characters.
//!
//! Every operation here is stated over `Seq<char>`, the view of a `String`,
//! and matches the behaviour of the `str` method it is named after
//! (`find`, `rfind`, `trim`, `strip_prefix`, `replace`, `split`, ...).
//! Positions are character positions; since every match starts and ends
//! on a character boundary, the pieces cut out are the same as those that
//! the byte-indexed `str` methods cut out.
use vstd::prelude::*;

verus! {

// ---------------------------------------------------------------------
// Conversions between `str` and vectors of characters
// ---------------------------------------------------------------------

/// The characters of a string slice, in order (`str::chars`, collected).
pub(crate) fn chars_of(s: &str) -> (r: Vec<char>)
    ensures
        r@ == s@,
{
    broadcast use vstd::string::axiom_spec_iter;
    let mut out: Vec<char> = Vec::new();
    for c in it: s.chars()
        invariant
            it.seq() == s@,
            out@ == it.seq().take(it.index() as int),
    {
        out.push(c);
    }
    out
}

/// The string made of the given characters (`String: FromIterator<char>`).
#[verifier::external_body]
pub(crate) fn string_of(v: &[char]) -> (r: String)
    ensures
        r@ == v@,
{
    v.iter().collect()
}

// ---------------------------------------------------------------------
// Matching
// ---------------------------------------------------------------------

/// `p` occurs in `s` at position `i`.
pub open spec fn occurs_at(s: Seq<char>, p: Seq<char>, i: int) -> bool {
    0 <= i && i + p.len() <= s.len() && s.subrange(i, i + p.len()) == p
}

/// First position at or after `i` where `p` occurs in `s`.
pub open spec fn find_from(s: Seq<char>, p: Seq<char>, i: int) -> Option<int>
    decreases s.len() + 1 - i,
{
    if i < 0 || i + p.len() > s.len() {
        None
    } else if occurs_at(s, p, i) {
        Some(i)
    } else {
        find_from(s, p, i + 1)
    }
}

/// First position where `p` occurs in `s` (`str::find`).
pub open spec fn find(s: Seq<char>, p: Seq<char>) -> Option<int> {
    find_from(s, p, 0)
}

/// `p` occurs somewhere in `s` (`str::contains`).
pub open spec fn contains(s: Seq<char>, p: Seq<char>) -> bool {
    find(s, p) is Some
}

/// Last position below `j` where `p` occurs in `s`.
pub open spec fn rfind_below(s: Seq<char>, p: Seq<char>, j: int) -> Option<int>
    decreases j,
{
    if j <= 0 {
        None
    } else if occurs_at(s, p, j - 1) {
        Some(j - 1)
    } else {
        rfind_below(s, p, j - 1)
    }
}

/// Last position where `p` occurs in `s` (`str::rfind`).
pub open spec fn rfind(s: Seq<char>, p: Seq<char>) -> Option<int> {
    rfind_below(s, p, s.len() - p.len() + 1)
}

/// `str::starts_with`.
pub open spec fn starts_with(s: Seq<char>, p: Seq<char>) -> bool {
    p.len() <= s.len() && s.subrange(0, p.len() as int) == p
}

/// `str::ends_with`.
pub open spec fn ends_with(s: Seq<char>, p: Seq<char>) -> bool {
    p.len() <= s.len() && s.subrange(s.len() - p.len(), s.len() as int) == p
}

/// A position found by `find_from` is a match at or after the start.
pub proof fn lemma_find_from_some(s: Seq<char>, p: Seq<char>, i: int)
    ensures
        find_from(s, p, i) matches Some(k) ==> i <= k && occurs_at(s, p, k),
    decreases s.len() + 1 - i,
{
    if i < 0 || i + p.len() > s.len() {
    } else if occurs_at(s, p, i) {
    } else {
        lemma_find_from_some(s, p, i + 1);
    }
}

/// Two texts that agree up to `m` agree on a first match that ends by `m`.
pub proof fn lemma_find_from_prefix(s1: Seq<char>, s2: Seq<char>, p: Seq<char>, i: int, m: int)
    requires
        0 <= i,
        m <= s1.len(),
        m <= s2.len(),
        s1.subrange(0, m) == s2.subrange(0, m),
        find_from(s1, p, i) matches Some(k) && k + p.len() <= m,
    ensures
        find_from(s2, p, i) == find_from(s1, p, i),
    decreases s1.len() + 1 - i,
{
    lemma_find_from_some(s1, p, i);
    let k = find_from(s1, p, i)->0;
    assert(i + p.len() <= m);
    assert(s1.subrange(i, i + p.len()) == s2.subrange(i, i + p.len())) by {
        assert(s1.subrange(i, i + p.len()) =~= s1.subrange(0, m).subrange(i, i + p.len()));
        assert(s2.subrange(i, i + p.len()) =~= s2.subrange(0, m).subrange(i, i + p.len()));
    }
    if !occurs_at(s1, p, i) {
        lemma_find_from_prefix(s1, s2, p, i + 1, m);
    }
}

/// Whether `p` occurs in `s` at position `i`.
pub fn occurs_at_exec(s: &[char], p: &[char], i: usize) -> (r: bool)
    ensures
        r == occurs_at(s@, p@, i as int),
{
    if i > s.len() || p.len() > s.len() - i {
        return false;
    }
    let mut k: usize = 0;
    while k < p.len()
        invariant
            i + p.len() <= s.len(),
            k <= p.len(),
            forall|m: int| 0 <= m < k ==> s@[i + m] == p@[m],
        decreases p.len() - k,
    {
        if s[i + k] != p[k] {
            assert(s@.subrange(i as int, i + p.len())[k as int] != p@[k as int]);
            return false;
        }
        k = k + 1;
    }
    assert(s@.subrange(i as int, i + p.len()) =~= p@);
    true
}

/// First position at or after `start` where `p` occurs in `s`.
pub fn find_from_exec(s: &[char], p: &[char], start: usize) -> (r: Option<usize>)
    ensures
        r matches Some(k) ==> occurs_at(s@, p@, k as int),
        r matches Some(k) ==> find_from(s@, p@, start as int) == Some(k as int),
        r is None ==> find_from(s@, p@, start as int) is None,
{
    let mut i = start;
    while i <= s.len() && p.len() <= s.len() - i
        invariant
            start <= i,
            find_from(s@, p@, start as int) == find_from(s@, p@, i as int),
        decreases s.len() + 1 - i,
    {
        if occurs_at_exec(s, p, i) {
            return Some(i);
        }
        if i == usize::MAX {
            assert(find_from(s@, p@, i as int + 1) is None);
            return None;
        }
        i = i + 1;
    }
    None
}

/// `str::find`.
pub fn find_exec(s: &[char], p: &[char]) -> (r: Option<usize>)
    ensures
        r matches Some(k) ==> occurs_at(s@, p@, k as int),
        r matches Some(k) ==> find(s@, p@) == Some(k as int),
        r is None ==> find(s@, p@) is None,
{
    find_from_exec(s, p, 0)
}

/// `str::contains`.
pub fn contains_exec(s: &[char], p: &[char]) -> (r: bool)
    ensures
        r == contains(s@, p@),
{
    find_exec(s, p).is_some()
}

/// `str::rfind`.
pub fn rfind_exec(s: &[char], p: &[char]) -> (r: Option<usize>)
    ensures
        r matches Some(k) ==> occurs_at(s@, p@, k as int),
        r matches Some(k) ==> rfind(s@, p@) == Some(k as int),
        r is None ==> rfind(s@, p@) is None,
{
    if p.len() > s.len() {
        return None;
    }
    if p.len() == 0 {
        assert(occurs_at(s@, p@, s@.len() as int)) by {
            assert(s@.subrange(s@.len() as int, s@.len() as int) =~= p@);
        }
        return Some(s.len());
    }
    let mut j: usize = s.len() - p.len() + 1;
    while j > 0
        invariant
            j <= s.len() - p.len() + 1,
            p.len() <= s.len(),
            rfind(s@, p@) == rfind_below(s@, p@, j as int),
        decreases j,
    {
        if occurs_at_exec(s, p, j - 1) {
            return Some(j - 1);
        }
        j = j - 1;
    }
    None
}

/// `str::starts_with`.
pub fn starts_with_exec(s: &[char], p: &[char]) -> (r: bool)
    ensures
        r == starts_with(s@, p@),
{
    let r = occurs_at_exec(s, p, 0);
    assert(r == starts_with(s@, p@));
    r
}

/// `str::ends_with`.
pub fn ends_with_exec(s: &[char], p: &[char]) -> (r: bool)
    ensures
        r == ends_with(s@, p@),
{
    if p.len() > s.len() {
        return false;
    }
    occurs_at_exec(s, p, s.len() - p.len())
}

// ---------------------------------------------------------------------
// Copying and joining
// ---------------------------------------------------------------------

/// The characters of `s` from position `a` up to (not including) `b`.
pub fn slice_chars(s: &[char], a: usize, b: usize) -> (r: Vec<char>)
    requires
        a <= b <= s.len(),
    ensures
        r@ == s@.subrange(a as int, b as int),
{
    let mut r: Vec<char> = Vec::new();
    let mut i = a;
    while i < b
        invariant
            a <= i <= b <= s.len(),
            r@ == s@.subrange(a as int, i as int),
        decreases b - i,
    {
        r.push(s[i]);
        i = i + 1;
        assert(r@ =~= s@.subrange(a as int, i as int));
    }
    r
}

/// Appends the characters of `s` to `v`.
pub fn push_all(v: &mut Vec<char>, s: &[char])
    ensures
        final(v)@ == old(v)@ + s@,
{
    let ghost start = v@;
    let mut i: usize = 0;
    while i < s.len()
        invariant
            i <= s.len(),
            v@ == start + s@.subrange(0, i as int),
        decreases s.len() - i,
    {
        v.push(s[i]);
        i = i + 1;
        assert(v@ =~= start + s@.subrange(0, i as int));
    }
    assert(s@.subrange(0, s@.len() as int) =~= s@);
}

/// Appends the characters of a string slice to `v`.
pub fn push_str(v: &mut Vec<char>, s: &str)
    ensures
        final(v)@ == old(v)@ + s@,
{
    let c = chars_of(s);
    push_all(v, c.as_slice());
}

/// The concatenation of `a` and `b`.
pub fn join2(a: &[char], b: &[char]) -> (r: Vec<char>)
    ensures
        r@ == a@ + b@,
{
    let mut r: Vec<char> = Vec::new();
    push_all(&mut r, a);
    push_all(&mut r, b);
    assert(r@ =~= a@ + b@);
    r
}

/// The concatenation of `a`, `b` and `c`.
pub fn join3(a: &[char], b: &[char], c: &[char]) -> (r: Vec<char>)
    ensures
        r@ == a@ + b@ + c@,
{
    let mut r = join2(a, b);
    push_all(&mut r, c);
    r
}

/// Whether two character sequences are equal (`str == str`).
pub fn eq_chars(a: &[char], b: &[char]) -> (r: bool)
    ensures
        r == (a@ == b@),
{
    if a.len() != b.len() {
        return false;
    }
    let r = occurs_at_exec(a, b, 0);
    assert(a@.subrange(0, b@.len() as int) =~= a@);
    r
}

/// Whether a string equals a string slice.
pub fn eq_str(a: &str, b: &str) -> (r: bool)
    ensures
        r == (a@ == b@),
{
    let x = chars_of(a);
    let y = chars_of(b);
    eq_chars(x.as_slice(), y.as_slice())
}

// ---------------------------------------------------------------------
// Trimming
// ---------------------------------------------------------------------

/// `char::is_whitespace`: the characters with the Unicode `White_Space` property.
pub open spec fn is_ws(c: char) -> bool {
    let u = c as u32;
    ||| 9 <= u <= 13
    ||| u == 32
    ||| u == 0x85
    ||| u == 0xA0
    ||| u == 0x1680
    ||| 0x2000 <= u <= 0x200A
    ||| u == 0x2028
    ||| u == 0x2029
    ||| u == 0x202F
    ||| u == 0x205F
    ||| u == 0x3000
}

/// `char::is_whitespace`.
pub fn is_ws_exec(c: char) -> (r: bool)
    ensures
        r == is_ws(c),
{
    let u = c as u32;
    (9 <= u && u <= 13) || u == 32 || u == 0x85 || u == 0xA0 || u == 0x1680 || (0x2000 <= u && u
        <= 0x200A) || u == 0x2028 || u == 0x2029 || u == 0x202F || u == 0x205F || u == 0x3000
}

/// `str::trim_start`.
pub open spec fn trim_start(s: Seq<char>) -> Seq<char>
    decreases s.len(),
{
    if s.len() > 0 && is_ws(s[0]) {
        trim_start(s.drop_first())
    } else {
        s
    }
}

/// `str::trim_end`.
pub open spec fn trim_end(s: Seq<char>) -> Seq<char>
    decreases s.len(),
{
    if s.len() > 0 && is_ws(s.last()) {
        trim_end(s.drop_last())
    } else {
        s
    }
}

/// `str::trim`.
pub open spec fn trim(s: Seq<char>) -> Seq<char> {
    trim_end(trim_start(s))
}

/// `str::trim_start_matches` with a set of characters as the pattern.
pub open spec fn trim_start_in(s: Seq<char>, set: Seq<char>) -> Seq<char>
    decreases s.len(),
{
    if s.len() > 0 && set.contains(s[0]) {
        trim_start_in(s.drop_first(), set)
    } else {
        s
    }
}

/// `str::trim_end_matches` with a set of characters as the pattern.
pub open spec fn trim_end_in(s: Seq<char>, set: Seq<char>) -> Seq<char>
    decreases s.len(),
{
    if s.len() > 0 && set.contains(s.last()) {
        trim_end_in(s.drop_last(), set)
    } else {
        s
    }
}

/// What `str::trim_start` leaves is a suffix of the text that does not
/// start with whitespace.
pub proof fn lemma_trim_start_shape(s: Seq<char>)
    ensures
        trim_start(s).len() <= s.len(),
        trim_start(s) == s.subrange(s.len() - trim_start(s).len(), s.len() as int),
        trim_start(s).len() > 0 ==> !is_ws(trim_start(s)[0]),
    decreases s.len(),
{
    if s.len() > 0 && is_ws(s[0]) {
        lemma_trim_start_shape(s.drop_first());
        assert(s.drop_first().subrange(
            s.drop_first().len() - trim_start(s).len(),
            s.drop_first().len() as int,
        ) =~= s.subrange(s.len() - trim_start(s).len(), s.len() as int));
    } else {
        assert(s.subrange(0, s.len() as int) =~= s);
    }
}

/// What `str::trim_end` leaves is a prefix of the text that does not end
/// with whitespace.
pub proof fn lemma_trim_end_shape(s: Seq<char>)
    ensures
        trim_end(s).len() <= s.len(),
        trim_end(s) == s.subrange(0, trim_end(s).len() as int),
        trim_end(s).len() > 0 ==> !is_ws(trim_end(s).last()),
    decreases s.len(),
{
    if s.len() > 0 && is_ws(s.last()) {
        lemma_trim_end_shape(s.drop_last());
        assert(s.drop_last().subrange(0, trim_end(s).len() as int) =~= s.subrange(
            0,
            trim_end(s).len() as int,
        ));
    } else {
        assert(s.subrange(0, s.len() as int) =~= s);
    }
}

/// A trimmed text that is not empty starts and ends with other characters
/// than whitespace; a text that does is its own trimmed text.
pub proof fn lemma_trim_ends(s: Seq<char>)
    ensures
        trim(s).len() > 0 ==> !is_ws(trim(s)[0]) && !is_ws(trim(s).last()),
        (s.len() > 0 && !is_ws(s[0]) && !is_ws(s.last())) ==> trim(s) == s,
{
    let t = trim_start(s);
    lemma_trim_start_shape(s);
    lemma_trim_end_shape(t);
    if trim(s).len() > 0 {
        assert(trim(s)[0] == t[0]);
    }
}

/// What `trim_start_in` leaves is a suffix of the text that does not start
/// with a character of the set, and trimming it again changes nothing.
pub proof fn lemma_trim_start_in_shape(s: Seq<char>, set: Seq<char>)
    ensures
        trim_start_in(s, set).len() <= s.len(),
        trim_start_in(s, set) == s.subrange(s.len() - trim_start_in(s, set).len(), s.len() as int),
        trim_start_in(s, set).len() > 0 ==> !set.contains(trim_start_in(s, set)[0]),
        trim_start_in(trim_start_in(s, set), set) == trim_start_in(s, set),
    decreases s.len(),
{
    if s.len() > 0 && set.contains(s[0]) {
        lemma_trim_start_in_shape(s.drop_first(), set);
        assert(s.drop_first().subrange(
            s.drop_first().len() - trim_start_in(s, set).len(),
            s.drop_first().len() as int,
        ) =~= s.subrange(s.len() - trim_start_in(s, set).len(), s.len() as int));
    } else {
        assert(s.subrange(0, s.len() as int) =~= s);
    }
}

/// `str::trim_start`.
pub fn trim_start_exec(s: &[char]) -> (r: Vec<char>)
    ensures
        r@ == trim_start(s@),
{
    let mut i: usize = 0;
    assert(s@.subrange(0, s@.len() as int) =~= s@);
    while i < s.len() && is_ws_exec(s[i])
        invariant
            i <= s.len(),
            trim_start(s@) == trim_start(s@.subrange(i as int, s@.len() as int)),
        decreases s.len() - i,
    {
        assert(s@.subrange(i as int, s@.len() as int).drop_first() =~= s@.subrange(
            i + 1,
            s@.len() as int,
        ));
        i = i + 1;
    }
    slice_chars(s, i, s.len())
}

/// `str::trim_end`.
pub fn trim_end_exec(s: &[char]) -> (r: Vec<char>)
    ensures
        r@ == trim_end(s@),
{
    let mut j: usize = s.len();
    assert(s@.subrange(0, s@.len() as int) =~= s@);
    while j > 0 && is_ws_exec(s[j - 1])
        invariant
            j <= s.len(),
            trim_end(s@) == trim_end(s@.subrange(0, j as int)),
        decreases j,
    {
        assert(s@.subrange(0, j as int).drop_last() =~= s@.subrange(0, j - 1));
        j = j - 1;
    }
    slice_chars(s, 0, j)
}

/// `str::trim`.
pub fn trim_exec(s: &[char]) -> (r: Vec<char>)
    ensures
        r@ == trim(s@),
{
    let a = trim_start_exec(s);
    trim_end_exec(a.as_slice())
}

/// Whether `c` is one of the characters of `set`.
pub fn in_set(set: &[char], c: char) -> (r: bool)
    ensures
        r == set@.contains(c),
{
    let mut i: usize = 0;
    while i < set.len()
        invariant
            i <= set.len(),
            forall|k: int| 0 <= k < i ==> set@[k] != c,
        decreases set.len() - i,
    {
        if set[i] == c {
            return true;
        }
        i = i + 1;
    }
    false
}

/// `str::trim_start_matches` with a set of characters as the pattern.
pub fn trim_start_in_exec(s: &[char], set: &[char]) -> (r: Vec<char>)
    ensures
        r@ == trim_start_in(s@, set@),
{
    let mut i: usize = 0;
    assert(s@.subrange(0, s@.len() as int) =~= s@);
    while i < s.len() && in_set(set, s[i])
        invariant
            i <= s.len(),
            trim_start_in(s@, set@) == trim_start_in(s@.subrange(i as int, s@.len() as int), set@),
        decreases s.len() - i,
    {
        assert(s@.subrange(i as int, s@.len() as int).drop_first() =~= s@.subrange(
            i + 1,
            s@.len() as int,
        ));
        i = i + 1;
    }
    slice_chars(s, i, s.len())
}

/// `str::trim_end_matches` with a set of characters as the pattern.
pub fn trim_end_in_exec(s: &[char], set: &[char]) -> (r: Vec<char>)
    ensures
        r@ == trim_end_in(s@, set@),
{
    let mut j: usize = s.len();
    assert(s@.subrange(0, s@.len() as int) =~= s@);
    while j > 0 && in_set(set, s[j - 1])
        invariant
            j <= s.len(),
            trim_end_in(s@, set@) == trim_end_in(s@.subrange(0, j as int), set@),
        decreases j,
    {
        assert(s@.subrange(0, j as int).drop_last() =~= s@.subrange(0, j - 1));
        j = j - 1;
    }
    slice_chars(s, 0, j)
}

/// `str::trim_end_matches` with a text as the pattern: every trailing
/// repetition of `p` removed.
pub open spec fn trim_end_str(s: Seq<char>, p: Seq<char>) -> Seq<char>
    decreases s.len(),
{
    if p.len() > 0 && ends_with(s, p) {
        trim_end_str(s.subrange(0, s.len() - p.len()), p)
    } else {
        s
    }
}

/// `str::trim_end_matches` with a text as the pattern.
pub fn trim_end_str_exec(s: &[char], p: &[char]) -> (r: Vec<char>)
    ensures
        r@ == trim_end_str(s@, p@),
{
    let mut cur = slice_chars(s, 0, s.len());
    assert(cur@ =~= s@);
    if p.len() == 0 {
        return cur;
    }
    while ends_with_exec(cur.as_slice(), p)
        invariant
            p@.len() > 0,
            trim_end_str(s@, p@) == trim_end_str(cur@, p@),
        decreases cur@.len(),
    {
        cur = slice_chars(cur.as_slice(), 0, cur.len() - p.len());
    }
    cur
}

// ---------------------------------------------------------------------
// Prefixes, suffixes and pieces
// ---------------------------------------------------------------------

/// `str::strip_prefix`.
pub open spec fn strip_prefix(s: Seq<char>, p: Seq<char>) -> Option<Seq<char>> {
    if starts_with(s, p) {
        Some(s.subrange(p.len() as int, s.len() as int))
    } else {
        None
    }
}

/// `str::strip_suffix`.
pub open spec fn strip_suffix(s: Seq<char>, p: Seq<char>) -> Option<Seq<char>> {
    if ends_with(s, p) {
        Some(s.subrange(0, s.len() - p.len()))
    } else {
        None
    }
}

/// `s.strip_prefix(p).unwrap_or(s)`.
pub open spec fn drop_prefix(s: Seq<char>, p: Seq<char>) -> Seq<char> {
    match strip_prefix(s, p) {
        Some(r) => r,
        None => s,
    }
}

/// `s.strip_suffix(p).unwrap_or(s)`.
pub open spec fn drop_suffix(s: Seq<char>, p: Seq<char>) -> Seq<char> {
    match strip_suffix(s, p) {
        Some(r) => r,
        None => s,
    }
}

/// `s.split(p).next().unwrap()`: the text before the first occurrence of `p`, or all of `s`.
pub open spec fn before(s: Seq<char>, p: Seq<char>) -> Seq<char> {
    match find(s, p) {
        Some(i) => s.subrange(0, i),
        None => s,
    }
}

/// The text after the first occurrence of `p`
/// (`s.split_once(p).map(|(_, rest)| rest)`).
pub open spec fn after(s: Seq<char>, p: Seq<char>) -> Option<Seq<char>> {
    match find(s, p) {
        Some(i) => Some(s.subrange(i + p.len(), s.len() as int)),
        None => None,
    }
}

/// `s.split(p).nth(1)`: the text between the first and the second occurrence of `p`.
pub open spec fn second_piece(s: Seq<char>, p: Seq<char>) -> Option<Seq<char>> {
    match after(s, p) {
        Some(rest) => Some(before(rest, p)),
        None => None,
    }
}

/// `s.rsplit(p).next().unwrap()`: the text after the last occurrence of `p`, or all of `s`.
pub open spec fn last_piece(s: Seq<char>, p: Seq<char>) -> Seq<char> {
    match rfind(s, p) {
        Some(i) => s.subrange(i + p.len(), s.len() as int),
        None => s,
    }
}

/// `str::strip_prefix`.
pub fn strip_prefix_exec(s: &[char], p: &[char]) -> (r: Option<Vec<char>>)
    ensures
        r matches Some(v) ==> strip_prefix(s@, p@) == Some(v@),
        r is None ==> strip_prefix(s@, p@) is None,
{
    if starts_with_exec(s, p) {
        Some(slice_chars(s, p.len(), s.len()))
    } else {
        None
    }
}

/// `str::strip_suffix`.
pub fn strip_suffix_exec(s: &[char], p: &[char]) -> (r: Option<Vec<char>>)
    ensures
        r matches Some(v) ==> strip_suffix(s@, p@) == Some(v@),
        r is None ==> strip_suffix(s@, p@) is None,
{
    if ends_with_exec(s, p) {
        Some(slice_chars(s, 0, s.len() - p.len()))
    } else {
        None
    }
}

/// `s.strip_prefix(p).unwrap_or(s)`.
pub fn drop_prefix_exec(s: &[char], p: &[char]) -> (r: Vec<char>)
    ensures
        r@ == drop_prefix(s@, p@),
{
    match strip_prefix_exec(s, p) {
        Some(v) => v,
        None => slice_chars(s, 0, s.len()),
    }
}

/// `s.strip_suffix(p).unwrap_or(s)`.
pub fn drop_suffix_exec(s: &[char], p: &[char]) -> (r: Vec<char>)
    ensures
        r@ == drop_suffix(s@, p@),
{
    match strip_suffix_exec(s, p) {
        Some(v) => v,
        None => slice_chars(s, 0, s.len()),
    }
}

/// `s.split(p).next().unwrap()`.
pub fn before_exec(s: &[char], p: &[char]) -> (r: Vec<char>)
    ensures
        r@ == before(s@, p@),
{
    match find_exec(s, p) {
        Some(i) => slice_chars(s, 0, i),
        None => slice_chars(s, 0, s.len()),
    }
}

/// `s.split_once(p).map(|(_, rest)| rest)`.
pub fn after_exec(s: &[char], p: &[char]) -> (r: Option<Vec<char>>)
    ensures
        r matches Some(v) ==> after(s@, p@) == Some(v@),
        r is None ==> after(s@, p@) is None,
{
    let found = find_exec(s, p);
    match found {
        Some(i) => {
            assert(occurs_at(s@, p@, i as int));
            assert(i + p@.len() <= s@.len());
            assert(s@.len() == s.len());
            Some(slice_chars(s, i + p.len(), s.len()))
        },
        None => None,
    }
}

/// `s.split(p).nth(1)`.
pub fn second_piece_exec(s: &[char], p: &[char]) -> (r: Option<Vec<char>>)
    ensures
        r matches Some(v) ==> second_piece(s@, p@) == Some(v@),
        r is None ==> second_piece(s@, p@) is None,
{
    match after_exec(s, p) {
        Some(rest) => Some(before_exec(rest.as_slice(), p)),
        None => None,
    }
}

/// `s.rsplit(p).next().unwrap()`.
pub fn last_piece_exec(s: &[char], p: &[char]) -> (r: Vec<char>)
    ensures
        r@ == last_piece(s@, p@),
{
    match rfind_exec(s, p) {
        Some(i) => {
            assert(i + p@.len() <= s@.len());
            assert(s@.len() == s.len());
            slice_chars(s, i + p.len(), s.len())
        },
        None => slice_chars(s, 0, s.len()),
    }
}

// ---------------------------------------------------------------------
// Replacing and splitting
// ---------------------------------------------------------------------

/// `str::replace`: every non-overlapping occurrence of `a`, from left to right,
/// replaced by `b`.
pub open spec fn replace(s: Seq<char>, a: Seq<char>, b: Seq<char>) -> Seq<char>
    decreases s.len(),
{
    if a.len() == 0 {
        s
    } else {
        match find(s, a) {
            Some(i) => {
                proof {
                    lemma_find_from_some(s, a, 0);
                }
                s.subrange(0, i) + b + replace(s.subrange(i + a.len(), s.len() as int), a, b)
            },
            None => s,
        }
    }
}

/// `str::split` with a non-empty pattern: the pieces between the occurrences of `p`.
pub open spec fn pieces(s: Seq<char>, p: Seq<char>) -> Seq<Seq<char>>
    decreases s.len(),
{
    if p.len() == 0 {
        seq![s]
    } else {
        match find(s, p) {
            Some(i) => {
                proof {
                    lemma_find_from_some(s, p, 0);
                }
                seq![s.subrange(0, i)] + pieces(s.subrange(i + p.len(), s.len() as int), p)
            },
            None => seq![s],
        }
    }
}

/// `str::replace` with a non-empty pattern.
pub fn replace_exec(s: &[char], a: &[char], b: &[char]) -> (r: Vec<char>)
    requires
        a@.len() > 0,
    ensures
        r@ == replace(s@, a@, b@),
{
    let mut out: Vec<char> = Vec::new();
    let mut rest = slice_chars(s, 0, s.len());
    assert(rest@ =~= s@);
    assert(out@ + replace(rest@, a@, b@) =~= replace(rest@, a@, b@));
    loop
        invariant
            a@.len() > 0,
            replace(s@, a@, b@) == out@ + replace(rest@, a@, b@),
        decreases rest@.len(),
    {
        match find_exec(rest.as_slice(), a) {
            Some(i) => {
                proof {
                    lemma_find_from_some(rest@, a@, 0);
                }
                assert(i + a@.len() <= rest@.len());
                assert(rest@.len() == rest.len());
                let head = slice_chars(rest.as_slice(), 0, i);
                let tail = slice_chars(rest.as_slice(), i + a.len(), rest.len());
                let ghost old_out = out@;
                push_all(&mut out, head.as_slice());
                push_all(&mut out, b);
                assert(out@ == old_out + head@ + b@);
                assert(replace(rest@, a@, b@) == head@ + b@ + replace(tail@, a@, b@));
                assert(old_out + (head@ + b@ + replace(tail@, a@, b@)) =~= out@ + replace(
                    tail@,
                    a@,
                    b@,
                ));
                rest = tail;
            },
            None => {
                let ghost old_out = out@;
                push_all(&mut out, rest.as_slice());
                return out;
            },
        }
    }
}

/// `str::split` with a non-empty pattern, collected.
pub fn pieces_exec(s: &[char], p: &[char]) -> (r: Vec<Vec<char>>)
    requires
        p@.len() > 0,
    ensures
        r@.len() == pieces(s@, p@).len(),
        forall|k: int| 0 <= k < r@.len() ==> #[trigger] r@[k]@ == pieces(s@, p@)[k],
{
    let mut out: Vec<Vec<char>> = Vec::new();
    let mut rest = slice_chars(s, 0, s.len());
    let ghost mut done: Seq<Seq<char>> = Seq::empty();
    assert(rest@ =~= s@);
    assert(done + pieces(rest@, p@) =~= pieces(rest@, p@));
    loop
        invariant
            p@.len() > 0,
            pieces(s@, p@) == done + pieces(rest@, p@),
            out@.len() == done.len(),
            forall|k: int| 0 <= k < out@.len() ==> #[trigger] out@[k]@ == done[k],
        decreases rest@.len(),
    {
        match find_exec(rest.as_slice(), p) {
            Some(i) => {
                proof {
                    lemma_find_from_some(rest@, p@, 0);
                }
                assert(i + p@.len() <= rest@.len());
                assert(rest@.len() == rest.len());
                let head = slice_chars(rest.as_slice(), 0, i);
                let tail = slice_chars(rest.as_slice(), i + p.len(), rest.len());
                assert(pieces(rest@, p@) == seq![head@] + pieces(tail@, p@));
                proof {
                    assert(done + (seq![head@] + pieces(tail@, p@)) =~= done.push(head@) + pieces(
                        tail@,
                        p@,
                    ));
                    done = done.push(head@);
                }
                out.push(head);
                rest = tail;
            },
            None => {
                proof {
                    done = done.push(rest@);
                }
                out.push(rest);
                assert(pieces(s@, p@) =~= done);
                return out;
            },
        }
    }
}

// ---------------------------------------------------------------------
// ASCII case
// ---------------------------------------------------------------------

/// `char::to_ascii_lowercase`.
pub open spec fn lower(c: char) -> char {
    if 'A' <= c && c <= 'Z' {
        ((c as u32) + 32) as char
    } else {
        c
    }
}

/// `char::to_ascii_lowercase`.
pub fn lower_exec(c: char) -> (r: char)
    ensures
        r == lower(c),
{
    if 'A' <= c && c <= 'Z' {
        ((c as u8) + 32) as char
    } else {
        c
    }
}

/// `str::to_ascii_lowercase`.
pub open spec fn lowercase(s: Seq<char>) -> Seq<char> {
    Seq::new(s.len(), |i: int| lower(s[i]))
}

/// `str::eq_ignore_ascii_case`.
pub open spec fn eq_ignore_case(a: Seq<char>, b: Seq<char>) -> bool {
    lowercase(a) == lowercase(b)
}

/// `str::to_ascii_lowercase`.
pub fn lowercase_exec(s: &[char]) -> (r: Vec<char>)
    ensures
        r@ == lowercase(s@),
{
    let mut r: Vec<char> = Vec::new();
    let mut i: usize = 0;
    while i < s.len()
        invariant
            i <= s.len(),
            r@ == lowercase(s@.subrange(0, i as int)),
        decreases s.len() - i,
    {
        r.push(lower_exec(s[i]));
        i = i + 1;
        assert(r@ =~= lowercase(s@.subrange(0, i as int)));
    }
    assert(s@.subrange(0, s@.len() as int) =~= s@);
    r
}

/// `str::eq_ignore_ascii_case`.
pub fn eq_ignore_case_exec(a: &[char], b: &[char]) -> (r: bool)
    ensures
        r == eq_ignore_case(a@, b@),
{
    let x = lowercase_exec(a);
    let y = lowercase_exec(b);
    eq_chars(x.as_slice(), y.as_slice())
}

// ---------------------------------------------------------------------
// Numbers as text
// ---------------------------------------------------------------------

/// The ASCII digit of value `d`.
pub open spec fn digit(d: int) -> char {
    (d + 48) as char
}

/// The decimal digits of `n`, as `format!("{n}")` writes them.
pub open spec fn decimal(n: nat) -> Seq<char>
    decreases n,
{
    if n < 10 {
        seq![digit(n as int)]
    } else {
        decimal(n / 10).push(digit((n % 10) as int))
    }
}

/// A signed number as `format!("{n}")` writes it.
pub open spec fn signed_decimal(n: int) -> Seq<char> {
    if n < 0 {
        seq!['-'] + decimal((-n) as nat)
    } else {
        decimal(n as nat)
    }
}

/// `format!("{n}")` for an unsigned number.
pub fn decimal_exec(n: u64) -> (r: Vec<char>)
    ensures
        r@ == decimal(n as nat),
    decreases n,
{
    if n < 10 {
        let mut v: Vec<char> = Vec::new();
        v.push(((n as u8) + 48) as char);
        assert(v@ =~= decimal(n as nat));
        v
    } else {
        let mut v = decimal_exec(n / 10);
        v.push((((n % 10) as u8) + 48) as char);
        v
    }
}

/// `format!("{n}")` for a signed number.
pub fn signed_decimal_exec(n: i64) -> (r: Vec<char>)
    ensures
        r@ == signed_decimal(n as int),
{
    if n < 0 {
        let magnitude: u64 = if n == i64::MIN {
            9223372036854775808u64
        } else {
            (-n) as u64
        };
        let digits = decimal_exec(magnitude);
        let mut v: Vec<char> = Vec::new();
        v.push('-');
        push_all(&mut v, digits.as_slice());
        assert(v@ =~= seq!['-'] + digits@);
        v
    } else {
        decimal_exec(n as u64)
    }
}

} // verus!
