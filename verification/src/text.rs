//! Text helpers with the meaning of their `str` counterparts: lines,
//! trimming, words, numbers, searching and splitting.

use vstd::prelude::*;

verus! {

/// The characters of `s`, one by one.
pub fn chars_of(s: &str) -> (v: Vec<char>)
    ensures
        v@ == s@,
{
    let mut v: Vec<char> = Vec::new();
    for c in it: s.chars()
        invariant
            v@ == it.seq().take(it.index() as int),
    {
        v.push(c);
    }
    v
}


/// Appends one character to a string: `String::push` of std.
#[verifier::external_body]
pub(crate) fn push_char(s: &mut String, c: char)
    ensures
        final(s)@ == old(s)@.push(c),
{
    s.push(c);
}

/// The string made of `v[lo..hi]`.
pub fn string_of(v: &[char], lo: usize, hi: usize) -> (r: String)
    requires
        lo <= hi <= v@.len(),
    ensures
        r@ == v@.subrange(lo as int, hi as int),
{
    let mut r = String::new();
    let mut i = lo;
    while i < hi
        invariant
            lo <= i <= hi <= v@.len(),
            r@ == v@.subrange(lo as int, i as int),
        decreases hi - i,
    {
        push_char(&mut r, v[i]);
        assert(v@.subrange(lo as int, i + 1) =~= v@.subrange(lo as int, i as int).push(v@[i as int]));
        i = i + 1;
    }
    r
}

/// The pieces of `s` between occurrences of `sep`: one more piece than there
/// are separators, empty pieces included (as `str::split` with a character).
pub open spec fn split_by(s: Seq<char>, sep: char) -> Seq<Seq<char>>
    decreases s.len(),
{
    if s.len() == 0 {
        seq![Seq::<char>::empty()]
    } else {
        let prev = split_by(s.drop_last(), sep);
        if s.last() == sep {
            prev.push(Seq::<char>::empty())
        } else {
            prev.update(prev.len() - 1, prev.last().push(s.last()))
        }
    }
}

/// `split_by` never gives an empty list of pieces.
pub proof fn lemma_split_by_nonempty(s: Seq<char>, sep: char)
    ensures
        split_by(s, sep).len() >= 1,
    decreases s.len(),
{
    if s.len() > 0 {
        lemma_split_by_nonempty(s.drop_last(), sep);
    }
}

/// A line without the carriage return that ended it.
pub open spec fn strip_cr(l: Seq<char>) -> Seq<char> {
    if l.len() > 0 && l.last() == '\r' {
        l.drop_last()
    } else {
        l
    }
}

/// The lines of `s` as `str::lines` gives them: split at `\n`, a `\r` just
/// before a `\n` dropped, and no empty line after a final `\n`.
pub open spec fn spec_lines(s: Seq<char>) -> Seq<Seq<char>> {
    let parts = split_by(s, '\n');
    let head = Seq::new((parts.len() - 1) as nat, |i: int| strip_cr(parts[i]));
    if parts.last().len() > 0 {
        head.push(parts.last())
    } else {
        head
    }
}

/// The views of a list of strings.
pub open spec fn views(v: Seq<String>) -> Seq<Seq<char>> {
    Seq::new(v.len(), |i: int| v[i]@)
}

/// The lines of `s` (see `spec_lines`).
pub fn lines(s: &str) -> (r: Vec<String>)
    ensures
        views(r@) == spec_lines(s@),
{
    let v = chars_of(s);
    let mut done: Vec<String> = Vec::new();
    let mut start: usize = 0;
    let mut i: usize = 0;
    proof {
        lemma_split_by_nonempty(v@.subrange(0, 0), '\n');
        assert(v@.subrange(0, 0) =~= Seq::<char>::empty());
    }
    while i < v.len()
        invariant
            start <= i <= v@.len(),
            v@ == s@,
            ({
                let parts = split_by(v@.subrange(0, i as int), '\n');
                &&& parts.len() >= 1
                &&& views(done@) =~= Seq::new((parts.len() - 1) as nat, |j: int| strip_cr(parts[j]))
                &&& parts.last() =~= v@.subrange(start as int, i as int)
            }),
        decreases v@.len() - i,
    {
        let ghost pre = v@.subrange(0, i as int);
        let ghost parts = split_by(pre, '\n');
        let ghost old_views = views(done@);
        assert(v@.subrange(0, i + 1).drop_last() =~= pre);
        if v[i] == '\n' {
            let end = if i > start && v[i - 1] == '\r' { i - 1 } else { i };
            let line = string_of(&v, start, end);
            proof {
                assert(line@ =~= strip_cr(parts.last()));
            }
            done.push(line);
            start = i + 1;
        }
        proof {
            let cur = v@.subrange(0, i + 1);
            let np = split_by(cur, '\n');
            assert(cur.last() == v@[i as int]);
            if v@[i as int] == '\n' {
                assert(np == parts.push(Seq::<char>::empty()));
                assert(views(done@) =~= old_views.push(strip_cr(parts.last())));
            } else {
                assert(np == parts.update(parts.len() - 1, parts.last().push(v@[i as int])));
                assert(np.last() =~= v@.subrange(start as int, i + 1));
                assert(views(done@) =~= old_views);
            }
            assert(views(done@) =~= Seq::new((np.len() - 1) as nat, |j: int| strip_cr(np[j])));
        }
        i = i + 1;
    }
    assert(v@.subrange(0, i as int) =~= s@);
    if start < v.len() {
        let last = string_of(&v, start, v.len());
        done.push(last);
    }
    done
}

/// The lines of `ls` joined with `\n` between them.
pub open spec fn spec_join(ls: Seq<Seq<char>>) -> Seq<char>
    decreases ls.len(),
{
    if ls.len() == 0 {
        Seq::<char>::empty()
    } else if ls.len() == 1 {
        ls[0]
    } else {
        spec_join(ls.drop_last()) + seq!['\n'] + ls.last()
    }
}

/// Joins lines with `\n` between them (as `join("\n")`).
pub fn join_lines(v: &Vec<String>) -> (r: String)
    ensures
        r@ == spec_join(views(v@)),
{
    let mut r = String::new();
    let mut i: usize = 0;
    while i < v.len()
        invariant
            i <= v@.len(),
            r@ == spec_join(views(v@.subrange(0, i as int))),
        decreases v@.len() - i,
    {
        let ghost prev = views(v@.subrange(0, i as int));
        if i > 0 {
            push_char(&mut r, '\n');
        }
        r.append(v[i].as_str());
        i = i + 1;
        proof {
            let cur = views(v@.subrange(0, i as int));
            assert(cur.drop_last() =~= prev);
            if i == 1 {
                assert(r@ =~= cur[0]);
            } else {
                assert(r@ =~= spec_join(prev) + seq!['\n'] + cur.last());
            }
        }
    }
    assert(v@.subrange(0, i as int) =~= v@);
    r
}


/// Whether `a` and `b` hold the same characters.
pub fn str_eq(a: &str, b: &str) -> (r: bool)
    ensures
        r == (a@ == b@),
{
    let x = chars_of(a);
    let y = chars_of(b);
    if x.len() != y.len() {
        return false;
    }
    let mut i: usize = 0;
    while i < x.len()
        invariant
            i <= x@.len(),
            x@.len() == y@.len(),
            x@ == a@,
            y@ == b@,
            x@.subrange(0, i as int) == y@.subrange(0, i as int),
        decreases x@.len() - i,
    {
        if x[i] != y[i] {
            assert(a@[i as int] != b@[i as int]);
            return false;
        }
        assert(x@.subrange(0, i + 1) =~= x@.subrange(0, i as int).push(x@[i as int]));
        assert(y@.subrange(0, i + 1) =~= y@.subrange(0, i as int).push(y@[i as int]));
        i = i + 1;
    }
    assert(x@ =~= x@.subrange(0, i as int));
    assert(y@ =~= y@.subrange(0, i as int));
    true
}

/// Whether `c` has the Unicode `White_Space` property.
pub open spec fn spec_is_whitespace(c: char) -> bool {
    let u = c as u32;
    ||| 0x9 <= u <= 0xD
    ||| u == 0x20
    ||| u == 0x85
    ||| u == 0xA0
    ||| u == 0x1680
    ||| 0x2000 <= u <= 0x200A
    ||| u == 0x2028
    ||| u == 0x2029
    ||| u == 0x202F
    ||| u == 0x205F
    ||| u == 0x3000
}

/// Whether `c` is white space (as `char::is_whitespace`).
pub fn is_whitespace(c: char) -> (r: bool)
    ensures
        r == spec_is_whitespace(c),
{
    let u = c as u32;
    (0x9 <= u && u <= 0xD) || u == 0x20 || u == 0x85 || u == 0xA0 || u == 0x1680
        || (0x2000 <= u && u <= 0x200A) || u == 0x2028 || u == 0x2029 || u == 0x202F
        || u == 0x205F || u == 0x3000
}

/// `s` without its leading white space.
pub open spec fn trim_start(s: Seq<char>) -> Seq<char>
    decreases s.len(),
{
    if s.len() > 0 && spec_is_whitespace(s[0]) {
        trim_start(s.drop_first())
    } else {
        s
    }
}

/// `s` without its trailing white space.
pub open spec fn trim_end(s: Seq<char>) -> Seq<char>
    decreases s.len(),
{
    if s.len() > 0 && spec_is_whitespace(s.last()) {
        trim_end(s.drop_last())
    } else {
        s
    }
}

/// `s` without leading and trailing white space (as `str::trim`).
pub open spec fn spec_trim(s: Seq<char>) -> Seq<char> {
    trim_end(trim_start(s))
}

/// The characters of `s` without leading and trailing white space, as the
/// positions `(lo, hi)` of the part that is kept.
pub fn trim_bounds(v: &Vec<char>) -> (r: (usize, usize))
    ensures
        r.0 <= r.1 <= v@.len(),
        v@.subrange(r.0 as int, r.1 as int) == spec_trim(v@),
{
    let mut i: usize = 0;
    assert(v@.skip(0) =~= v@);
    while i < v.len() && is_whitespace(v[i])
        invariant
            i <= v@.len(),
            trim_start(v@) == trim_start(v@.skip(i as int)),
        decreases v@.len() - i,
    {
        assert(v@.skip(i as int).drop_first() =~= v@.skip(i + 1));
        i = i + 1;
    }
    let ghost ts = v@.skip(i as int);
    assert(trim_start(v@) == ts);
    let mut j: usize = v.len();
    while j > i && is_whitespace(v[j - 1])
        invariant
            i <= j <= v@.len(),
            ts == v@.skip(i as int),
            trim_end(ts) == trim_end(v@.subrange(i as int, j as int)),
        decreases j,
    {
        assert(v@.subrange(i as int, j as int).drop_last() =~= v@.subrange(i as int, j - 1));
        j = j - 1;
    }
    assert(v@.subrange(i as int, v@.len() as int) =~= ts);
    (i, j)
}

/// `s` without leading and trailing white space.
pub fn trim(s: &str) -> (r: String)
    ensures
        r@ == spec_trim(s@),
{
    let v = chars_of(s);
    let (lo, hi) = trim_bounds(&v);
    string_of(&v, lo, hi)
}

/// The runs of non-white-space characters of `s`, in order (as
/// `str::split_whitespace`).
pub open spec fn spec_words(s: Seq<char>) -> Seq<Seq<char>>
    decreases s.len(),
{
    if s.len() == 0 {
        Seq::<Seq<char>>::empty()
    } else {
        let prev = spec_words(s.drop_last());
        if spec_is_whitespace(s.last()) {
            prev
        } else if s.len() >= 2 && !spec_is_whitespace(s[s.len() - 2]) {
            prev.update(prev.len() - 1, prev.last().push(s.last()))
        } else {
            prev.push(seq![s.last()])
        }
    }
}

/// The words of `s` (see `spec_words`).
pub fn split_whitespace(s: &str) -> (r: Vec<String>)
    ensures
        views(r@) == spec_words(s@),
{
    let v = chars_of(s);
    let mut done: Vec<String> = Vec::new();
    let mut start: usize = 0;
    let mut in_word = false;
    let mut i: usize = 0;
    while i < v.len()
        invariant
            start <= i <= v@.len(),
            v@ == s@,
            in_word <==> (i > 0 && !spec_is_whitespace(v@[i - 1])),
            in_word ==> ({
                let w = spec_words(v@.subrange(0, i as int));
                &&& w.len() >= 1
                &&& views(done@) =~= w.drop_last()
                &&& w.last() =~= v@.subrange(start as int, i as int)
            }),
            !in_word ==> views(done@) =~= spec_words(v@.subrange(0, i as int)),
        decreases v@.len() - i,
    {
        let ghost pre = v@.subrange(0, i as int);
        let ghost old_views = views(done@);
        assert(v@.subrange(0, i + 1).drop_last() =~= pre);
        let ws = is_whitespace(v[i]);
        if ws {
            if in_word {
                let w = string_of(&v, start, i);
                done.push(w);
                assert(views(done@) =~= old_views.push(w@));
            }
            in_word = false;
        } else {
            if !in_word {
                start = i;
            }
            in_word = true;
        }
        proof {
            let cur = v@.subrange(0, i + 1);
            assert(cur.last() == v@[i as int]);
            if !ws && i >= 1 {
                assert(cur[cur.len() - 2] == v@[i - 1]);
            }
        }
        i = i + 1;
        proof {
            let w = spec_words(v@.subrange(0, i as int));
            if in_word {
                assert(w.last() =~= v@.subrange(start as int, i as int));
                assert(views(done@) =~= w.drop_last());
            }
        }
    }
    assert(v@.subrange(0, i as int) =~= s@);
    if in_word {
        let w = string_of(&v, start, v.len());
        let ghost old_views = views(done@);
        done.push(w);
        assert(views(done@) =~= old_views.push(w@));
    }
    done
}


/// Whether `c` is one of the ASCII digits `0` to `9`.
pub open spec fn is_digit(c: char) -> bool {
    '0' <= c && c <= '9'
}

/// The value of the ASCII digit `c`.
pub open spec fn digit_value(c: char) -> nat {
    ((c as int) - ('0' as int)) as nat
}

/// The digit character for `d` (below ten).
pub open spec fn digit_char(d: nat) -> char {
    if d == 0 { '0' } else if d == 1 { '1' } else if d == 2 { '2' } else if d == 3 { '3' }
    else if d == 4 { '4' } else if d == 5 { '5' } else if d == 6 { '6' } else if d == 7 { '7' }
    else if d == 8 { '8' } else { '9' }
}

/// The value of the decimal numeral `d`.
pub open spec fn numeral_value(d: Seq<char>) -> nat
    decreases d.len(),
{
    if d.len() == 0 {
        0
    } else {
        numeral_value(d.drop_last()) * 10 + digit_value(d.last())
    }
}

/// Whether every character of `d` is an ASCII digit.
pub open spec fn all_digits(d: Seq<char>) -> bool {
    forall|i: int| 0 <= i < d.len() ==> is_digit(#[trigger] d[i])
}

/// What parsing `s` as an unsigned integer no larger than `max` gives, as
/// `str::parse` does for unsigned integers: an optional `+`, then one or
/// more ASCII digits, with a value that fits.
pub open spec fn spec_parse_uint(s: Seq<char>, max: nat) -> Option<nat> {
    let d = if s.len() > 0 && s[0] == '+' { s.drop_first() } else { s };
    if d.len() > 0 && all_digits(d) && numeral_value(d) <= max {
        Some(numeral_value(d))
    } else {
        None
    }
}

/// A longer numeral has at least the value of its prefix.
pub proof fn lemma_numeral_prefix(d: Seq<char>, i: int)
    requires
        0 <= i <= d.len(),
    ensures
        numeral_value(d.subrange(0, i)) <= numeral_value(d),
    decreases d.len() - i,
{
    if i < d.len() {
        lemma_numeral_prefix(d, i + 1);
        assert(d.subrange(0, i + 1).drop_last() =~= d.subrange(0, i));
    } else {
        assert(d.subrange(0, i) =~= d);
    }
}

/// Parses `s` as an unsigned integer no larger than `max` (see
/// `spec_parse_uint`).
pub fn parse_uint(s: &str, max: usize) -> (r: Option<usize>)
    ensures
        r matches Some(n) ==> spec_parse_uint(s@, max as nat) == Some(n as nat),
        r is None ==> spec_parse_uint(s@, max as nat) is None,
{
    let v = chars_of(s);
    let start: usize = if v.len() > 0 && v[0] == '+' { 1 } else { 0 };
    let ghost d = if s@.len() > 0 && s@[0] == '+' { s@.drop_first() } else { s@ };
    assert(d =~= v@.skip(start as int));
    if start >= v.len() {
        return None;
    }
    let mut i: usize = start;
    let mut acc: usize = 0;
    while i < v.len()
        invariant
            start <= i <= v@.len(),
            d == v@.skip(start as int),
            d == (if s@.len() > 0 && s@[0] == '+' { s@.drop_first() } else { s@ }),
            acc <= max,
            all_digits(v@.subrange(start as int, i as int)),
            acc as nat == numeral_value(v@.subrange(start as int, i as int)),
        decreases v@.len() - i,
    {
        let c = v[i];
        let ghost pre = v@.subrange(start as int, i as int);
        assert(v@.subrange(start as int, i + 1).drop_last() =~= pre);
        if !('0' <= c && c <= '9') {
            assert(d[i - start] == c);
            assert(!is_digit(d[i - start]));
            assert(!all_digits(d));
            return None;
        }
        let dv = (c as u32 - '0' as u32) as usize;
        assert(dv == digit_value(c));
        assert(numeral_value(v@.subrange(start as int, i + 1)) == acc * 10 + dv);
        if dv > max || acc > (max - dv) / 10 {
            proof {
                if dv <= max {
                    assert(acc * 10 + dv > max) by (nonlinear_arith)
                        requires
                            acc > (max - dv) / 10,
                            dv <= max;
                }
                lemma_numeral_prefix(d, i + 1 - start);
                assert(d.subrange(0, i + 1 - start) =~= v@.subrange(start as int, i + 1));
            }
            return None;
        }
        proof {
            assert(acc * 10 + dv <= max) by (nonlinear_arith)
                requires
                    acc <= (max - dv) / 10,
                    dv <= max;
        }
        acc = acc * 10 + dv;
        i = i + 1;
    }
    assert(v@.subrange(start as int, i as int) =~= d);
    Some(acc)
}

/// The decimal numeral of `n`, without leading zeros.
pub open spec fn decimal(n: nat) -> Seq<char>
    decreases n,
{
    if n < 10 {
        seq![digit_char(n)]
    } else {
        decimal(n / 10).push(digit_char(n % 10))
    }
}

/// The digit character for a value below ten.
pub fn digit_to_char(d: usize) -> (c: char)
    requires
        d < 10,
    ensures
        c == digit_char(d as nat),
{
    if d == 0 { '0' } else if d == 1 { '1' } else if d == 2 { '2' } else if d == 3 { '3' }
    else if d == 4 { '4' } else if d == 5 { '5' } else if d == 6 { '6' } else if d == 7 { '7' }
    else if d == 8 { '8' } else { '9' }
}

/// The decimal numeral of `n` (as the `Display` of an unsigned integer).
pub fn usize_to_string(n: usize) -> (r: String)
    ensures
        r@ == decimal(n as nat),
    decreases n,
{
    if n < 10 {
        let mut r = String::new();
        push_char(&mut r, digit_to_char(n));
        r
    } else {
        let mut r = usize_to_string(n / 10);
        push_char(&mut r, digit_to_char(n % 10));
        r
    }
}


/// What `str::to_lowercase` gives for `s`.
pub uninterp spec fn spec_lowercase(s: Seq<char>) -> Seq<char>;

/// `s` in lower case: `str::to_lowercase` of std.
#[verifier::external_body]
pub(crate) fn to_lowercase(s: &str) -> (r: String)
    ensures
        r@ == spec_lowercase(s@),
{
    s.to_lowercase()
}

/// Whether `p` occurs in `s` starting at position `i`.
pub open spec fn occurs_at(s: Seq<char>, p: Seq<char>, i: int) -> bool {
    0 <= i && i + p.len() <= s.len() && s.subrange(i, i + p.len()) == p
}

/// Whether `p` occurs somewhere in `s`.
pub open spec fn contains_seq(s: Seq<char>, p: Seq<char>) -> bool {
    exists|i: int| occurs_at(s, p, i)
}

/// Whether `pat` occurs in `hay` starting at `i`.
fn matches_at(hay: &Vec<char>, pat: &Vec<char>, i: usize) -> (r: bool)
    requires
        i + pat@.len() <= hay.len(),
    ensures
        r == occurs_at(hay@, pat@, i as int),
{
    let mut k: usize = 0;
    while k < pat.len()
        invariant
            k <= pat@.len(),
            i + pat@.len() <= hay.len(),
            hay@.subrange(i as int, i + k) == pat@.subrange(0, k as int),
        decreases pat@.len() - k,
    {
        if hay[i + k] != pat[k] {
            assert(hay@.subrange(i as int, i + pat@.len())[k as int] != pat@[k as int]);
            return false;
        }
        assert(hay@.subrange(i as int, i + k + 1) =~= hay@.subrange(i as int, i + k).push(hay@[i + k]));
        assert(pat@.subrange(0, k + 1) =~= pat@.subrange(0, k as int).push(pat@[k as int]));
        k = k + 1;
    }
    assert(pat@.subrange(0, k as int) =~= pat@);
    true
}

/// Whether `pat` occurs in `hay` (as `str::contains` with a string).
pub fn contains_chars(hay: &Vec<char>, pat: &Vec<char>) -> (r: bool)
    ensures
        r == contains_seq(hay@, pat@),
{
    if pat.len() > hay.len() {
        assert forall|i: int| !occurs_at(hay@, pat@, i) by {}
        return false;
    }
    if pat.len() == 0 {
        assert(hay@.subrange(0, 0) =~= pat@);
        assert(occurs_at(hay@, pat@, 0));
        return true;
    }
    let mut i: usize = 0;
    while i <= hay.len() - pat.len()
        invariant
            1 <= pat@.len() <= hay.len(),
            i <= hay.len() - pat@.len() + 1,
            forall|j: int| 0 <= j < i ==> !occurs_at(hay@, pat@, j),
        decreases hay@.len() - i,
    {
        if matches_at(hay, pat, i) {
            return true;
        }
        i = i + 1;
    }
    assert forall|j: int| !occurs_at(hay@, pat@, j) by {
        if 0 <= j < i {
        }
    }
    false
}

/// Whether `s` contains `p` (as `str::contains` with a string).
pub fn contains_str(s: &str, p: &str) -> (r: bool)
    ensures
        r == contains_seq(s@, p@),
{
    let hay = chars_of(s);
    let pat = chars_of(p);
    contains_chars(&hay, &pat)
}

/// Whether `p` is a prefix of `s` (as `str::starts_with`).
pub fn starts_with(s: &str, p: &str) -> (r: bool)
    ensures
        r == (p@.len() <= s@.len() && s@.subrange(0, p@.len() as int) == p@),
{
    let hay = chars_of(s);
    let pat = chars_of(p);
    if pat.len() > hay.len() {
        return false;
    }
    matches_at(&hay, &pat, 0)
}

/// How many times `c` occurs in `s`.
pub open spec fn count_char(s: Seq<char>, c: char) -> nat
    decreases s.len(),
{
    if s.len() == 0 {
        0
    } else {
        count_char(s.drop_last(), c) + if s.last() == c { 1nat } else { 0nat }
    }
}

/// How many times `c` occurs in `s` (as `str::matches(c).count()`).
pub fn count_of(s: &str, c: char) -> (r: usize)
    ensures
        r == count_char(s@, c),
{
    let v = chars_of(s);
    let mut n: usize = 0;
    let mut i: usize = 0;
    while i < v.len()
        invariant
            i <= v@.len(),
            n <= i,
            n == count_char(v@.subrange(0, i as int), c),
        decreases v@.len() - i,
    {
        assert(v@.subrange(0, i + 1).drop_last() =~= v@.subrange(0, i as int));
        if v[i] == c {
            n = n + 1;
        }
        i = i + 1;
    }
    assert(v@.subrange(0, i as int) =~= s@);
    n
}

/// Whether `c` occurs in `s` (as `str::contains` with a character).
pub fn contains_char(s: &str, c: char) -> (r: bool)
    ensures
        r == s@.contains(c),
{
    let v = chars_of(s);
    let mut i: usize = 0;
    while i < v.len()
        invariant
            i <= v@.len(),
            v@ == s@,
            forall|j: int| 0 <= j < i ==> v@[j] != c,
        decreases v@.len() - i,
    {
        if v[i] == c {
            assert(s@[i as int] == c);
            return true;
        }
        i = i + 1;
    }
    false
}

/// The pieces of `s` between occurrences of the character `sep` (as
/// `str::split` with a character).
pub fn split_char(s: &str, sep: char) -> (r: Vec<String>)
    ensures
        views(r@) == split_by(s@, sep),
{
    let v = chars_of(s);
    let mut done: Vec<String> = Vec::new();
    let mut start: usize = 0;
    let mut i: usize = 0;
    assert(v@.subrange(0, 0) =~= Seq::<char>::empty());
    while i < v.len()
        invariant
            start <= i <= v@.len(),
            v@ == s@,
            ({
                let parts = split_by(v@.subrange(0, i as int), sep);
                &&& parts.len() >= 1
                &&& views(done@) =~= parts.drop_last()
                &&& parts.last() =~= v@.subrange(start as int, i as int)
            }),
        decreases v@.len() - i,
    {
        let ghost pre = v@.subrange(0, i as int);
        let ghost parts = split_by(pre, sep);
        let ghost old_views = views(done@);
        assert(v@.subrange(0, i + 1).drop_last() =~= pre);
        proof {
            let cur = v@.subrange(0, i + 1);
            assert(cur.last() == v@[i as int]);
        }
        if v[i] == sep {
            let piece = string_of(&v, start, i);
            done.push(piece);
            assert(views(done@) =~= old_views.push(piece@));
            start = i + 1;
        }
        i = i + 1;
    }
    assert(v@.subrange(0, i as int) =~= s@);
    let last = string_of(&v, start, v.len());
    let ghost old_views = views(done@);
    done.push(last);
    assert(views(done@) =~= old_views.push(last@));
    done
}

/// What follows the last occurrence of `p` in `s`, or all of `s` if `p`
/// does not occur (for a `p` that cannot overlap itself, this is the last
/// piece of `str::split` with `p`).
pub open spec fn after_last(s: Seq<char>, p: Seq<char>) -> Seq<char>
    decreases s.len(),
{
    if s.len() == 0 {
        s
    } else if s.len() >= p.len() && s.subrange(s.len() - p.len(), s.len() as int) == p {
        Seq::<char>::empty()
    } else {
        after_last(s.drop_last(), p).push(s.last())
    }
}

/// What follows the last occurrence of `p` in `s` (see `after_last`).
pub fn text_after_last(s: &str, p: &str) -> (r: String)
    requires
        p@.len() > 0,
    ensures
        r@ == after_last(s@, p@),
{
    let v = chars_of(s);
    let pat = chars_of(p);
    let mut j: usize = v.len();
    assert(v@.subrange(0, j as int) =~= v@);
    assert(v@.subrange(j as int, j as int) =~= Seq::<char>::empty());
    while j > 0 && !(j >= pat.len() && matches_at(&v, &pat, j - pat.len()))
        invariant
            j <= v.len(),
            pat@ == p@,
            pat@.len() > 0,
            after_last(v@, pat@) == after_last(v@.subrange(0, j as int), pat@)
                + v@.subrange(j as int, v@.len() as int),
        decreases j,
    {
        let ghost cur = v@.subrange(0, j as int);
        assert(cur.drop_last() =~= v@.subrange(0, j - 1));
        assert(cur.len() >= pat@.len() ==> cur.subrange(cur.len() - pat@.len(), cur.len() as int)
            =~= v@.subrange(j - pat@.len(), j as int));
        assert(v@.subrange(j - 1, v@.len() as int) =~= seq![cur.last()] + v@.subrange(j as int, v@.len() as int));
        j = j - 1;
    }
    proof {
        let cur = v@.subrange(0, j as int);
        if j > 0 {
            assert(cur.subrange(cur.len() - pat@.len(), cur.len() as int)
                =~= v@.subrange(j - pat@.len(), j as int));
        }
        assert(v@.subrange(0, v@.len() as int) =~= v@);
    }
    string_of(&v, j, v.len())
}


/// Reads bytes as UTF-8 text: `String::from_utf8` of std. Claimed, as its
/// documentation says: text comes back exactly when the bytes are valid
/// UTF-8, and it is what they encode.
#[verifier::external_body]
pub(crate) fn string_from_utf8(b: Vec<u8>) -> (r: Option<String>)
    ensures
        r is Some <==> vstd::utf8::valid_utf8(b@),
        r matches Some(s) ==> s@ == vstd::utf8::decode_utf8(b@),
{
    String::from_utf8(b).ok()
}


/// A non-empty text has at least one line.
pub proof fn lemma_lines_nonempty(s: Seq<char>)
    requires
        s.len() > 0,
    ensures
        spec_lines(s).len() >= 1,
{
    lemma_split_by_nonempty(s, '\n');
    lemma_split_by_nonempty(s.drop_last(), '\n');
    let parts = split_by(s, '\n');
    let prev = split_by(s.drop_last(), '\n');
    if s.last() == '\n' {
        assert(parts.len() == prev.len() + 1);
    } else {
        assert(parts.last() == prev.last().push(s.last()));
    }
}


/// There is one more piece than separators, and at least two pieces where
/// the separator occurs.
pub proof fn lemma_split_by_count(s: Seq<char>, sep: char)
    ensures
        split_by(s, sep).len() == count_char(s, sep) + 1,
        s.contains(sep) ==> split_by(s, sep).len() >= 2,
    decreases s.len(),
{
    if s.len() > 0 {
        lemma_split_by_count(s.drop_last(), sep);
        lemma_split_by_nonempty(s.drop_last(), sep);
        if s.contains(sep) {
            let i = choose|i: int| 0 <= i < s.len() && s[i] == sep;
            if i < s.len() - 1 {
                assert(s.drop_last()[i] == sep);
                assert(s.drop_last().contains(sep));
            }
        }
    }
}


/// A piece without the separator splits into itself alone.
pub proof fn lemma_split_by_single(s: Seq<char>, sep: char)
    requires
        !s.contains(sep),
    ensures
        split_by(s, sep) == seq![s],
    decreases s.len(),
{
    if s.len() > 0 {
        let t = s.drop_last();
        assert(!t.contains(sep)) by {
            if t.contains(sep) {
                let i = choose|i: int| 0 <= i < t.len() && t[i] == sep;
                assert(s[i] == sep);
            }
        }
        lemma_split_by_single(t, sep);
        assert(s.last() != sep) by {
            assert(s[s.len() - 1] == s.last());
        }
        assert(t.push(s.last()) =~= s);
        assert(split_by(s, sep) =~= seq![s]);
    } else {
        assert(s =~= Seq::<char>::empty());
    }
}

/// Splitting two texts joined by the separator gives the pieces of the
/// first, then those of the second.
pub proof fn lemma_split_by_concat(s: Seq<char>, t: Seq<char>, sep: char)
    ensures
        split_by(s + seq![sep] + t, sep) == split_by(s, sep) + split_by(t, sep),
    decreases t.len(),
{
    let u = s + seq![sep] + t;
    if t.len() == 0 {
        assert(u.drop_last() =~= s);
        assert(split_by(u, sep) =~= split_by(s, sep) + split_by(t, sep));
    } else {
        let t1 = t.drop_last();
        lemma_split_by_concat(s, t1, sep);
        lemma_split_by_nonempty(t1, sep);
        lemma_split_by_nonempty(s, sep);
        assert(u.drop_last() =~= s + seq![sep] + t1);
        assert(u.last() == t.last());
        let a = split_by(s, sep);
        let b = split_by(t1, sep);
        if t.last() == sep {
            assert(split_by(u, sep) =~= a + b.push(Seq::<char>::empty()));
            assert(split_by(u, sep) =~= a + split_by(t, sep));
        } else {
            assert((a + b).update((a + b).len() - 1, (a + b).last().push(t.last())) =~= a + b.update(
                b.len() - 1,
                b.last().push(t.last()),
            ));
            assert(split_by(u, sep) =~= a + split_by(t, sep));
        }
    }
}

/// A line that can be stored as it is: no line break in it and no carriage
/// return at its end.
pub open spec fn plain_line(l: Seq<char>) -> bool {
    &&& !l.contains('\n')
    &&& !(l.len() > 0 && l.last() == '\r')
}

/// Lines that come back unchanged from the text they are joined into:
/// plain ones, at least one, the last one not empty.
pub open spec fn plain_lines(ls: Seq<Seq<char>>) -> bool {
    &&& ls.len() >= 1
    &&& forall|i: int| 0 <= i < ls.len() ==> plain_line(#[trigger] ls[i])
    &&& ls.last().len() > 0
}

/// The pieces of joined lines, split at line breaks, are the lines.
pub proof fn lemma_split_joined(ls: Seq<Seq<char>>)
    requires
        ls.len() >= 1,
        forall|i: int| 0 <= i < ls.len() ==> plain_line(#[trigger] ls[i]),
    ensures
        split_by(spec_join(ls), '\n') == ls,
    decreases ls.len(),
{
    if ls.len() == 1 {
        assert(plain_line(ls[0]));
        lemma_split_by_single(ls[0], '\n');
        assert(seq![ls[0]] =~= ls);
    } else {
        let init = ls.drop_last();
        assert forall|i: int| 0 <= i < init.len() implies plain_line(#[trigger] init[i]) by {
            assert(init[i] == ls[i]);
        }
        lemma_split_joined(init);
        assert(plain_line(ls[ls.len() - 1]));
        lemma_split_by_single(ls.last(), '\n');
        lemma_split_by_concat(spec_join(init), ls.last(), '\n');
        assert(init + seq![ls.last()] =~= ls);
    }
}

/// Plain lines are the lines of the text they are joined into: reading the
/// notes back after a save gives the lines that were saved.
pub proof fn lemma_lines_of_joined(ls: Seq<Seq<char>>)
    requires
        plain_lines(ls),
    ensures
        spec_lines(spec_join(ls)) == ls,
{
    lemma_split_joined(ls);
    let parts = split_by(spec_join(ls), '\n');
    let head = Seq::new((parts.len() - 1) as nat, |i: int| strip_cr(parts[i]));
    assert forall|i: int| 0 <= i < head.len() implies head[i] == ls[i] by {
        assert(plain_line(ls[i]));
    }
    assert(head.push(parts.last()) =~= ls);
}


/// The digit character of a value below ten is a digit of that value.
pub proof fn lemma_digit_char(d: nat)
    requires
        d < 10,
    ensures
        is_digit(digit_char(d)),
        digit_value(digit_char(d)) == d,
{
}

/// The decimal numeral of `n` is a non-empty run of digits worth `n`.
pub proof fn lemma_decimal_digits(n: nat)
    ensures
        decimal(n).len() >= 1,
        all_digits(decimal(n)),
        numeral_value(decimal(n)) == n,
    decreases n,
{
    if n < 10 {
        lemma_digit_char(n);
        assert(decimal(n).drop_last() =~= Seq::<char>::empty());
        assert(numeral_value(decimal(n)) == numeral_value(decimal(n).drop_last()) * 10 + digit_value(
            decimal(n).last(),
        ));
    } else {
        lemma_decimal_digits(n / 10);
        lemma_digit_char(n % 10);
        let d = decimal(n);
        assert(d.drop_last() =~= decimal(n / 10));
        assert(d.last() == digit_char(n % 10));
        assert(numeral_value(d) == numeral_value(d.drop_last()) * 10 + digit_value(d.last()));
        assert((n / 10) * 10 + n % 10 == n) by (nonlinear_arith);
        assert forall|i: int| 0 <= i < d.len() implies is_digit(#[trigger] d[i]) by {
            if i < d.len() - 1 {
                assert(d[i] == decimal(n / 10)[i]);
            }
        }
    }
}

/// Parsing the decimal numeral of a number that fits gives the number.
pub proof fn lemma_parse_decimal(n: nat, max: nat)
    requires
        n <= max,
    ensures
        spec_parse_uint(decimal(n), max) == Some(n),
{
    lemma_decimal_digits(n);
    assert(is_digit(decimal(n)[0]));
}

/// A decimal numeral has no white space around it.
pub proof fn lemma_trim_decimal(n: nat)
    ensures
        spec_trim(decimal(n)) == decimal(n),
{
    lemma_decimal_digits(n);
    let d = decimal(n);
    assert(is_digit(d[0]));
    assert(is_digit(d[d.len() - 1]));
    assert(trim_start(d) == d);
    assert(trim_end(d) == d);
}

/// A decimal numeral holds no character that is not a digit.
pub proof fn lemma_decimal_lacks(n: nat, c: char)
    requires
        !is_digit(c),
    ensures
        !decimal(n).contains(c),
{
    lemma_decimal_digits(n);
    if decimal(n).contains(c) {
        let i = choose|i: int| 0 <= i < decimal(n).len() && decimal(n)[i] == c;
        assert(is_digit(decimal(n)[i]));
    }
}

} // verus!
