//! Character-level helpers for the small strings the tuning rules work on.
use vstd::prelude::*;

verus! {

/// Rust's `char::is_whitespace`: the Unicode `White_Space` property.
pub open spec fn is_ws(c: char) -> bool {
    let u = c as u32;
    ||| u == 0x09 || u == 0x0A || u == 0x0B || u == 0x0C || u == 0x0D || u == 0x20
    ||| u == 0x85 || u == 0xA0 || u == 0x1680
    ||| (0x2000 <= u && u <= 0x200A)
    ||| u == 0x2028 || u == 0x2029 || u == 0x202F || u == 0x205F || u == 0x3000
}

/// Executable counterpart of [`is_ws`].
pub fn char_is_ws(c: char) -> (r: bool)
    ensures
        r == is_ws(c),
{
    let u = c as u32;
    u == 0x09 || u == 0x0A || u == 0x0B || u == 0x0C || u == 0x0D || u == 0x20 || u == 0x85
        || u == 0xA0 || u == 0x1680 || (0x2000 <= u && u <= 0x200A) || u == 0x2028 || u
        == 0x2029 || u == 0x202F || u == 0x205F || u == 0x3000
}

/// The characters of `s`, in order.
pub fn chars_of(s: &str) -> (v: Vec<char>)
    ensures
        v@ == s@,
{
    let mut v: Vec<char> = Vec::new();
    for c in it: s.chars()
        invariant
            v@ == it.seq().take(it.index() as int),
    {
        v.push(c);
    }
    v
}


/// `s` without its leading whitespace.
pub open spec fn trim_start(s: Seq<char>) -> Seq<char>
    decreases s.len(),
{
    if s.len() > 0 && is_ws(s[0]) {
        trim_start(s.drop_first())
    } else {
        s
    }
}

/// `s` without its trailing whitespace.
pub open spec fn trim_end(s: Seq<char>) -> Seq<char>
    decreases s.len(),
{
    if s.len() > 0 && is_ws(s.last()) {
        trim_end(s.drop_last())
    } else {
        s
    }
}

/// Rust's `str::trim`: `s` without leading and trailing whitespace.
pub open spec fn trim(s: Seq<char>) -> Seq<char> {
    trim_end(trim_start(s))
}

/// The length in bytes of the UTF-8 encoding of `s`, as `str::len` reports it.
pub open spec fn byte_len(s: Seq<char>) -> usize {
    vstd::utf8::encode_utf8(s).len() as usize
}

/// Whether `s` begins with `p`.
pub open spec fn starts_with(s: Seq<char>, p: Seq<char>) -> bool {
    p.len() <= s.len() && s.subrange(0, p.len() as int) == p
}

/// Whether `t` occurs in `s` as a contiguous piece.
pub open spec fn contains_seq(s: Seq<char>, t: Seq<char>) -> bool {
    exists|i: int| 0 <= i && i + t.len() <= s.len() && #[trigger] s.subrange(i, i + t.len()) == t
}

proof fn lemma_trim_start_skip(s: Seq<char>, lo: int)
    requires
        0 <= lo <= s.len(),
        forall|j: int| 0 <= j < lo ==> is_ws(#[trigger] s[j]),
    ensures
        trim_start(s) == trim_start(s.subrange(lo, s.len() as int)),
    decreases lo,
{
    if lo > 0 {
        assert(s.drop_first() == s.subrange(1, s.len() as int));
        lemma_trim_start_skip(s.drop_first(), lo - 1);
        assert(s.drop_first().subrange(lo - 1, s.drop_first().len() as int) == s.subrange(
            lo,
            s.len() as int,
        ));
    } else {
        assert(s.subrange(0, s.len() as int) == s);
    }
}

proof fn lemma_trim_end_cut(s: Seq<char>, hi: int)
    requires
        0 <= hi <= s.len(),
        forall|j: int| hi <= j < s.len() ==> is_ws(#[trigger] s[j]),
    ensures
        trim_end(s) == trim_end(s.subrange(0, hi)),
    decreases s.len() - hi,
{
    if hi < s.len() {
        lemma_trim_end_cut(s.drop_last(), hi);
        assert(s.drop_last().subrange(0, hi) == s.subrange(0, hi));
    } else {
        assert(s.subrange(0, hi) == s);
    }
}

proof fn lemma_trim_end_prefix(s: Seq<char>)
    ensures
        trim_end(s).len() <= s.len(),
        trim_end(s) == s.subrange(0, trim_end(s).len() as int),
        trim_end(s).len() > 0 ==> !is_ws(trim_end(s).last()),
    decreases s.len(),
{
    if s.len() > 0 && is_ws(s.last()) {
        lemma_trim_end_prefix(s.drop_last());
        let t = trim_end(s.drop_last());
        assert(s.drop_last().subrange(0, t.len() as int) =~= s.subrange(0, t.len() as int));
    } else {
        assert(s.subrange(0, s.len() as int) =~= s);
    }
}

proof fn lemma_trim_start_front(s: Seq<char>)
    ensures
        trim_start(s).len() > 0 ==> !is_ws(trim_start(s)[0]),
    decreases s.len(),
{
    if s.len() > 0 && is_ws(s[0]) {
        lemma_trim_start_front(s.drop_first());
    }
}

/// Trimming twice is trimming once.
pub proof fn lemma_trim_idempotent(s: Seq<char>)
    ensures
        trim(trim(s)) == trim(s),
{
    let a = trim_start(s);
    let b = trim_end(a);
    lemma_trim_start_front(s);
    lemma_trim_end_prefix(a);
    if b.len() > 0 {
        assert(b[0] == a[0]);
        assert(trim_start(b) == b);
        assert(trim_end(b) == b);
    } else {
        assert(trim_start(b) == b);
    }
}

/// A line written as `s` and a newline reads back, trimmed, as `s`, where `s` neither
/// begins nor ends with whitespace.
pub proof fn lemma_trim_line(s: Seq<char>)
    requires
        s.len() > 0,
        !is_ws(s[0]),
        !is_ws(s.last()),
    ensures
        trim(s.push('\n')) == s,
{
    let c = s.push('\n');
    assert(c[0] == s[0]);
    assert(trim_start(c) == c);
    assert(is_ws(c.last()));
    assert(c.drop_last() =~= s);
    assert(trim_end(c) == trim_end(s));
}

/// Rust's `str::trim`.
pub fn trim_str(s: &str) -> (r: String)
    ensures
        r@ == trim(s@),
{
    let cs = chars_of(s);
    let n = cs.len();
    let mut lo: usize = 0;
    while lo < n && char_is_ws(cs[lo])
        invariant
            n == cs@.len(),
            cs@ == s@,
            lo <= n,
            forall|j: int| 0 <= j < lo ==> is_ws(#[trigger] cs@[j]),
        decreases n - lo,
    {
        lo = lo + 1;
    }
    proof {
        lemma_trim_start_skip(s@, lo as int);
        let t = s@.subrange(lo as int, n as int);
        if t.len() > 0 {
            assert(t[0] == s@[lo as int]);
        }
    }
    let mut hi: usize = n;
    while hi > lo && char_is_ws(cs[hi - 1])
        invariant
            n == cs@.len(),
            cs@ == s@,
            lo <= hi <= n,
            forall|j: int| hi <= j < n ==> is_ws(#[trigger] cs@[j]),
        decreases hi,
    {
        hi = hi - 1;
    }
    proof {
        let t = s@.subrange(lo as int, n as int);
        assert(trim_start(s@) == t);
        lemma_trim_end_cut(t, hi - lo);
        assert(t.subrange(0, hi - lo) == s@.subrange(lo as int, hi as int));
        let u = s@.subrange(lo as int, hi as int);
        if u.len() > 0 {
            assert(u.last() == s@[hi - 1]);
        }
    }
    s.substring_char(lo, hi).to_owned()
}

/// Whether `a` and `b` hold the same characters.
pub fn str_eq(a: &str, b: &str) -> (r: bool)
    ensures
        r == (a@ == b@),
{
    let ca = chars_of(a);
    let cb = chars_of(b);
    if ca.len() != cb.len() {
        return false;
    }
    let mut i: usize = 0;
    while i < ca.len()
        invariant
            ca@ == a@,
            cb@ == b@,
            ca@.len() == cb@.len(),
            i <= ca@.len(),
            forall|j: int| 0 <= j < i ==> ca@[j] == cb@[j],
        decreases ca@.len() - i,
    {
        if ca[i] != cb[i] {
            return false;
        }
        i = i + 1;
    }
    assert(ca@ =~= cb@);
    true
}

/// Rust's `str::starts_with` for a string pattern.
pub fn str_starts_with(s: &str, p: &str) -> (r: bool)
    ensures
        r == starts_with(s@, p@),
{
    let cs = chars_of(s);
    let cp = chars_of(p);
    if cp.len() > cs.len() {
        return false;
    }
    let mut i: usize = 0;
    while i < cp.len()
        invariant
            cs@ == s@,
            cp@ == p@,
            cp@.len() <= cs@.len(),
            i <= cp@.len(),
            forall|j: int| 0 <= j < i ==> cs@[j] == cp@[j],
        decreases cp@.len() - i,
    {
        if cs[i] != cp[i] {
            assert(s@.subrange(0, p@.len() as int)[i as int] != p@[i as int]);
            return false;
        }
        i = i + 1;
    }
    assert(s@.subrange(0, p@.len() as int) =~= p@);
    true
}

/// Whether the character `c` occurs in `s`.
pub fn str_has_char(s: &str, c: char) -> (r: bool)
    ensures
        r == s@.contains(c),
{
    let cs = chars_of(s);
    let mut i: usize = 0;
    while i < cs.len()
        invariant
            cs@ == s@,
            i <= cs@.len(),
            forall|j: int| 0 <= j < i ==> cs@[j] != c,
        decreases cs@.len() - i,
    {
        if cs[i] == c {
            return true;
        }
        i = i + 1;
    }
    false
}

/// Rust's `str::contains` for a string pattern.
pub fn str_contains(s: &str, t: &str) -> (r: bool)
    ensures
        r == contains_seq(s@, t@),
{
    let cs = chars_of(s);
    let ct = chars_of(t);
    if ct.len() > cs.len() {
        return false;
    }
    let mut i: usize = 0;
    while i <= cs.len() - ct.len()
        invariant
            cs@ == s@,
            ct@ == t@,
            cs@.len() <= usize::MAX,
            ct@.len() <= cs@.len(),
            i <= cs@.len() - ct@.len() + 1,
            forall|k: int| 0 <= k < i ==> #[trigger] s@.subrange(k, k + t@.len()) != t@,
        decreases cs@.len() - i,
    {
        let mut j: usize = 0;
        let mut same = true;
        while j < ct.len()
            invariant
                cs@ == s@,
                ct@ == t@,
                cs@.len() <= usize::MAX,
                i + ct@.len() <= cs@.len(),
                j <= ct@.len(),
                same == (forall|m: int| 0 <= m < j ==> cs@[i + m] == ct@[m]),
            decreases ct@.len() - j,
        {
            if cs[i + j] != ct[j] {
                same = false;
            }
            j = j + 1;
        }
        if same {
            assert(s@.subrange(i as int, i + t@.len()) =~= t@);
            return true;
        } else {
            let ghost m = choose|m: int| 0 <= m < ct@.len() && cs@[i + m] != ct@[m];
            assert(s@.subrange(i as int, i + t@.len())[m] != t@[m]);
        }
        i = i + 1;
    }
    proof {
        assert forall|k: int| 0 <= k && k + t@.len() <= s@.len() implies #[trigger] s@.subrange(
            k,
            k + t@.len(),
        ) != t@ by {
            assert(k < i);
        }
    }
    false
}


/// Rust's `str::split` with a set of separator characters: the pieces between separators,
/// empty pieces included.
pub open spec fn split(s: Seq<char>, seps: Seq<char>) -> Seq<Seq<char>>
    decreases s.len(),
{
    if s.len() == 0 {
        seq![Seq::<char>::empty()]
    } else {
        let r = split(s.drop_last(), seps);
        if seps.contains(s.last()) {
            r.push(Seq::<char>::empty())
        } else {
            r.update(r.len() - 1, r.last().push(s.last()))
        }
    }
}

/// The pieces of `s` between separators, each trimmed, without the empty ones.
pub open spec fn split_fields(s: Seq<char>, seps: Seq<char>) -> Seq<Seq<char>> {
    split(s, seps).map_values(|f: Seq<char>| trim(f)).filter(|f: Seq<char>| f.len() > 0)
}

pub proof fn lemma_split_nonempty(s: Seq<char>, seps: Seq<char>)
    ensures
        split(s, seps).len() >= 1,
    decreases s.len(),
{
    if s.len() > 0 {
        lemma_split_nonempty(s.drop_last(), seps);
    }
}

/// Every character of every piece of `split(s, seps)` occurs in `s`.
pub proof fn lemma_split_piece_chars(s: Seq<char>, seps: Seq<char>)
    ensures
        forall|i: int, j: int|
            0 <= i < split(s, seps).len() && 0 <= j < split(s, seps)[i].len() ==> s.contains(
                #[trigger] split(s, seps)[i][j],
            ),
    decreases s.len(),
{
    if s.len() > 0 {
        let t = s.drop_last();
        lemma_split_piece_chars(t, seps);
        lemma_split_nonempty(t, seps);
        let r = split(t, seps);
        assert forall|i: int, j: int|
            0 <= i < split(s, seps).len() && 0 <= j < split(s, seps)[i].len() implies s.contains(
            #[trigger] split(s, seps)[i][j],
        ) by {
            let c = split(s, seps)[i][j];
            if seps.contains(s.last()) {
                if i < r.len() {
                    assert(r[i][j] == c);
                    assert(t.contains(c));
                    let k = choose|k: int| 0 <= k < t.len() && t[k] == c;
                    assert(s[k] == c);
                }
            } else {
                if i < r.len() - 1 {
                    assert(r[i][j] == c);
                    assert(t.contains(c));
                    let k = choose|k: int| 0 <= k < t.len() && t[k] == c;
                    assert(s[k] == c);
                } else if j < r.last().len() {
                    assert(r.last()[j] == c);
                    assert(t.contains(c));
                    let k = choose|k: int| 0 <= k < t.len() && t[k] == c;
                    assert(s[k] == c);
                } else {
                    assert(c == s.last());
                    assert(s[s.len() - 1] == c);
                }
            }
        }
    }
}

fn is_sep(seps: &[char], c: char) -> (r: bool)
    ensures
        r == seps@.contains(c),
{
    let mut i: usize = 0;
    while i < seps.len()
        invariant
            i <= seps@.len(),
            forall|j: int| 0 <= j < i ==> seps@[j] != c,
        decreases seps@.len() - i,
    {
        if seps[i] == c {
            return true;
        }
        i = i + 1;
    }
    false
}

/// Rust's `str::split` with a set of separator characters.
pub fn split_str(s: &str, seps: &[char]) -> (r: Vec<String>)
    ensures
        r.deep_view() == split(s@, seps@),
{
    let cs = chars_of(s);
    let n = cs.len();
    let mut done: Vec<String> = Vec::new();
    let mut start: usize = 0;
    let mut i: usize = 0;
    proof {
        assert(s@.subrange(0, 0) =~= Seq::<char>::empty());
        assert(done.deep_view() + seq![s@.subrange(0, 0)] =~= split(s@.subrange(0, 0), seps@));
    }
    while i < n
        invariant
            n == cs@.len(),
            cs@ == s@,
            start <= i <= n,
            done.deep_view() + seq![s@.subrange(start as int, i as int)] == split(
                s@.subrange(0, i as int),
                seps@,
            ),
        decreases n - i,
    {
        let ghost prev = s@.subrange(0, i as int);
        proof {
            assert(s@.subrange(0, i + 1).drop_last() =~= prev);
            assert(s@.subrange(0, i + 1).last() == cs@[i as int]);
            lemma_split_nonempty(prev, seps@);
        }
        if is_sep(seps, cs[i]) {
            let piece = s.substring_char(start, i).to_owned();
            done.push(piece);
            start = i + 1;
            proof {
                assert(s@.subrange(start as int, start as int) =~= Seq::<char>::empty());
                assert(done.deep_view() + seq![s@.subrange(start as int, i + 1)] =~= split(
                    s@.subrange(0, i + 1),
                    seps@,
                ));
            }
        } else {
            proof {
                assert(s@.subrange(start as int, i + 1) =~= s@.subrange(start as int, i as int).push(
                    cs@[i as int],
                ));
                assert(done.deep_view() + seq![s@.subrange(start as int, i + 1)] =~= split(
                    s@.subrange(0, i + 1),
                    seps@,
                ));
            }
        }
        i = i + 1;
    }
    let last = s.substring_char(start, n).to_owned();
    done.push(last);
    proof {
        assert(s@.subrange(0, n as int) =~= s@);
        assert(done.deep_view() =~= split(s@, seps@));
    }
    done
}

/// The pieces of `s` between separators, trimmed, empty ones dropped: Rust's
/// `s.split(seps).map(str::trim).filter(|p| !p.is_empty())`.
pub fn split_fields_str(s: &str, seps: &[char]) -> (r: Vec<String>)
    ensures
        r.deep_view() == split_fields(s@, seps@),
{
    let pieces = split_str(s, seps);
    let ghost trimmed = split(s@, seps@).map_values(|f: Seq<char>| trim(f));
    let ghost keep = |f: Seq<char>| f.len() > 0;
    let mut out: Vec<String> = Vec::new();
    let mut i: usize = 0;
    proof {
        assert(trimmed.take(0) =~= Seq::<Seq<char>>::empty());
        reveal_with_fuel(Seq::filter, 1);
        assert(out.deep_view() =~= trimmed.take(0).filter(keep));
    }
    while i < pieces.len()
        invariant
            pieces.deep_view() == split(s@, seps@),
            trimmed == split(s@, seps@).map_values(|f: Seq<char>| trim(f)),
            keep == (|f: Seq<char>| f.len() > 0),
            i <= pieces@.len(),
            out.deep_view() == trimmed.take(i as int).filter(keep),
        decreases pieces@.len() - i,
    {
        let t = trim_str(pieces[i].as_str());
        proof {
            assert(pieces.deep_view()[i as int] == pieces@[i as int]@);
            assert(trimmed.take(i + 1).drop_last() =~= trimmed.take(i as int));
            assert(trimmed.take(i + 1).last() == t@);
            reveal_with_fuel(Seq::filter, 1);
        }
        if !t.as_str().is_empty() {
            out.push(t);
            proof {
                assert(out.deep_view() =~= trimmed.take(i as int).filter(keep).push(t@));
            }
        }
        i = i + 1;
    }
    proof {
        assert(trimmed.take(pieces@.len() as int) =~= trimmed);
    }
    out
}


/// An ASCII letter or digit.
pub open spec fn is_ascii_alnum(c: char) -> bool {
    let u = c as u32;
    (48 <= u && u <= 57) || (65 <= u && u <= 90) || (97 <= u && u <= 122)
}

/// Rust's `char::is_ascii_alphanumeric`.
pub fn char_is_ascii_alnum(c: char) -> (r: bool)
    ensures
        r == is_ascii_alnum(c),
{
    let u = c as u32;
    (48 <= u && u <= 57) || (65 <= u && u <= 90) || (97 <= u && u <= 122)
}

/// `a` followed by `b`, as a new string.
pub fn concat(a: &str, b: &str) -> (r: String)
    ensures
        r@ == a@ + b@,
{
    let mut r = a.to_owned();
    r.append(b);
    r
}

/// `a`, `b` and `c` in a row, as a new string.
pub fn concat3(a: &str, b: &str, c: &str) -> (r: String)
    ensures
        r@ == a@ + b@ + c@,
{
    let mut r = a.to_owned();
    r.append(b);
    r.append(c);
    r
}


/// Rust's `str::split(char::is_whitespace)`: the pieces between whitespace characters.
pub open spec fn split_ws(s: Seq<char>) -> Seq<Seq<char>>
    decreases s.len(),
{
    if s.len() == 0 {
        seq![Seq::<char>::empty()]
    } else {
        let r = split_ws(s.drop_last());
        if is_ws(s.last()) {
            r.push(Seq::<char>::empty())
        } else {
            r.update(r.len() - 1, r.last().push(s.last()))
        }
    }
}

/// Rust's `str::split_whitespace`: the non-empty pieces between whitespace.
pub open spec fn words(s: Seq<char>) -> Seq<Seq<char>> {
    split_ws(s).filter(|f: Seq<char>| f.len() > 0)
}

proof fn lemma_split_ws_nonempty(s: Seq<char>)
    ensures
        split_ws(s).len() >= 1,
    decreases s.len(),
{
    if s.len() > 0 {
        lemma_split_ws_nonempty(s.drop_last());
    }
}

/// Rust's `str::split_whitespace`.
pub fn split_whitespace_str(s: &str) -> (r: Vec<String>)
    ensures
        r.deep_view() == words(s@),
{
    let cs = chars_of(s);
    let n = cs.len();
    let mut done: Vec<String> = Vec::new();
    let mut start: usize = 0;
    let mut i: usize = 0;
    proof {
        assert(s@.subrange(0, 0) =~= Seq::<char>::empty());
        assert(done.deep_view() + seq![s@.subrange(0, 0)] =~= split_ws(s@.subrange(0, 0)));
    }
    while i < n
        invariant
            n == cs@.len(),
            cs@ == s@,
            start <= i <= n,
            done.deep_view() + seq![s@.subrange(start as int, i as int)] == split_ws(
                s@.subrange(0, i as int),
            ),
        decreases n - i,
    {
        let ghost prev = s@.subrange(0, i as int);
        proof {
            assert(s@.subrange(0, i + 1).drop_last() =~= prev);
            assert(s@.subrange(0, i + 1).last() == cs@[i as int]);
            lemma_split_ws_nonempty(prev);
        }
        if char_is_ws(cs[i]) {
            let piece = s.substring_char(start, i).to_owned();
            done.push(piece);
            start = i + 1;
            proof {
                assert(s@.subrange(start as int, start as int) =~= Seq::<char>::empty());
                assert(done.deep_view() + seq![s@.subrange(start as int, i + 1)] =~= split_ws(
                    s@.subrange(0, i + 1),
                ));
            }
        } else {
            proof {
                assert(s@.subrange(start as int, i + 1) =~= s@.subrange(start as int, i as int).push(
                    cs@[i as int],
                ));
                assert(done.deep_view() + seq![s@.subrange(start as int, i + 1)] =~= split_ws(
                    s@.subrange(0, i + 1),
                ));
            }
        }
        i = i + 1;
    }
    let last = s.substring_char(start, n).to_owned();
    done.push(last);
    proof {
        assert(s@.subrange(0, n as int) =~= s@);
        assert(done.deep_view() =~= split_ws(s@));
    }
    let ghost pieces = split_ws(s@);
    let ghost keep = |f: Seq<char>| f.len() > 0;
    let mut out: Vec<String> = Vec::new();
    let mut k: usize = 0;
    proof {
        assert(pieces.take(0) =~= Seq::<Seq<char>>::empty());
        reveal_with_fuel(Seq::filter, 1);
    }
    while k < done.len()
        invariant
            done.deep_view() == pieces,
            pieces == split_ws(s@),
            keep == (|f: Seq<char>| f.len() > 0),
            k <= done@.len(),
            out.deep_view() == pieces.take(k as int).filter(keep),
        decreases done@.len() - k,
    {
        proof {
            assert(done.deep_view()[k as int] == done@[k as int]@);
            assert(pieces.take(k + 1).drop_last() =~= pieces.take(k as int));
            assert(pieces.take(k + 1).last() == done@[k as int]@);
            reveal_with_fuel(Seq::filter, 1);
        }
        if !done[k].as_str().is_empty() {
            let w = done[k].clone();
            out.push(w);
            proof {
                assert(out.deep_view() =~= pieces.take(k as int).filter(keep).push(done@[k as int]@));
            }
        }
        k = k + 1;
    }
    proof {
        assert(pieces.take(done@.len() as int) =~= pieces);
    }
    out
}

/// Lexicographic order by character, which for UTF-8 strings is the order of their bytes
/// (Rust's `Ord` for `str` and `String`).
pub open spec fn lex_lt(a: Seq<char>, b: Seq<char>) -> bool
    decreases a.len(),
{
    if b.len() == 0 {
        false
    } else if a.len() == 0 {
        true
    } else if (a[0] as int) < (b[0] as int) {
        true
    } else if (a[0] as int) > (b[0] as int) {
        false
    } else {
        lex_lt(a.drop_first(), b.drop_first())
    }
}

/// `lex_lt` is irreflexive and asymmetric.
pub proof fn lemma_lex_asym(a: Seq<char>, b: Seq<char>)
    ensures
        !(lex_lt(a, b) && lex_lt(b, a)),
        !lex_lt(a, a),
    decreases a.len(),
{
    if a.len() > 0 && b.len() > 0 && a[0] == b[0] {
        lemma_lex_asym(a.drop_first(), b.drop_first());
    }
    if a.len() > 0 {
        lemma_lex_asym(a.drop_first(), a.drop_first());
    }
}

/// `lex_lt` is transitive.
pub proof fn lemma_lex_trans(a: Seq<char>, b: Seq<char>, c: Seq<char>)
    requires
        lex_lt(a, b),
        lex_lt(b, c),
    ensures
        lex_lt(a, c),
    decreases a.len(),
{
    if a.len() > 0 && b.len() > 0 && c.len() > 0 && a[0] == b[0] && b[0] == c[0] {
        lemma_lex_trans(a.drop_first(), b.drop_first(), c.drop_first());
    }
}

/// Distinct strings are ordered one way or the other.
pub proof fn lemma_lex_total(a: Seq<char>, b: Seq<char>)
    ensures
        a == b || lex_lt(a, b) || lex_lt(b, a),
    decreases a.len(),
{
    if a.len() > 0 && b.len() > 0 && a[0] == b[0] {
        lemma_lex_total(a.drop_first(), b.drop_first());
        if a.drop_first() == b.drop_first() {
            assert(a =~= seq![a[0]] + a.drop_first());
            assert(b =~= seq![b[0]] + b.drop_first());
        }
    } else if a.len() == 0 && b.len() == 0 {
        assert(a =~= b);
    } else if a.len() > 0 && b.len() > 0 {
        assert((a[0] as int) != (b[0] as int));
    }
}

/// Whether `a` comes strictly before `b` in [`lex_lt`] order.
pub fn str_lt(a: &str, b: &str) -> (r: bool)
    ensures
        r == lex_lt(a@, b@),
{
    let ca = chars_of(a);
    let cb = chars_of(b);
    let mut i: usize = 0;
    proof {
        assert(a@.skip(0) =~= a@);
        assert(b@.skip(0) =~= b@);
    }
    while i < ca.len() && i < cb.len() && ca[i] == cb[i]
        invariant
            ca@ == a@,
            cb@ == b@,
            i <= ca@.len(),
            i <= cb@.len(),
            lex_lt(a@, b@) == lex_lt(a@.skip(i as int), b@.skip(i as int)),
        decreases ca@.len() - i,
    {
        proof {
            assert(a@.skip(i as int).drop_first() =~= a@.skip(i + 1));
            assert(b@.skip(i as int).drop_first() =~= b@.skip(i + 1));
        }
        i = i + 1;
    }
    proof {
        assert(a@.skip(i as int).len() == 0 || b@.skip(i as int).len() == 0 || a@.skip(
            i as int,
        )[0] != b@.skip(i as int)[0]);
    }
    if i == cb.len() {
        false
    } else if i == ca.len() {
        true
    } else {
        ca[i] < cb[i]
    }
}

/// Every element is at most every later one.
pub open spec fn sorted_seq(s: Seq<Seq<char>>) -> bool {
    forall|i: int, j: int| 0 <= i < j < s.len() ==> !lex_lt(#[trigger] s[j], #[trigger] s[i])
}

/// There is one sorted order of a set of strings: two sorted sequences without duplicates
/// that hold the same strings are equal.
pub proof fn lemma_sorted_unique(a: Seq<Seq<char>>, b: Seq<Seq<char>>)
    requires
        sorted_seq(a),
        sorted_seq(b),
        a.no_duplicates(),
        b.no_duplicates(),
        a.to_set() == b.to_set(),
    ensures
        a == b,
    decreases a.len(),
{
    if a.len() == 0 {
        if b.len() > 0 {
            assert(b.to_set().contains(b[0]));
        }
        assert(a =~= b);
    } else if b.len() == 0 {
        assert(a.to_set().contains(a[0]));
    } else {
        assert(b.to_set().contains(b[0]));
        assert(a.to_set().contains(a[0]));
        let k = choose|k: int| 0 <= k < a.len() && a[k] == b[0];
        let m = choose|m: int| 0 <= m < b.len() && b[m] == a[0];
        if a[0] != b[0] {
            assert(k > 0 && m > 0);
            assert(!lex_lt(a[k], a[0]));
            assert(!lex_lt(b[m], b[0]));
            lemma_lex_total(a[0], b[0]);
        }
        let a2 = a.drop_first();
        let b2 = b.drop_first();
        assert(sorted_seq(a2)) by {
            assert forall|i: int, j: int| 0 <= i < j < a2.len() implies !lex_lt(
                #[trigger] a2[j],
                #[trigger] a2[i],
            ) by {
                assert(a2[j] == a[j + 1] && a2[i] == a[i + 1]);
            }
        }
        assert(sorted_seq(b2)) by {
            assert forall|i: int, j: int| 0 <= i < j < b2.len() implies !lex_lt(
                #[trigger] b2[j],
                #[trigger] b2[i],
            ) by {
                assert(b2[j] == b[j + 1] && b2[i] == b[i + 1]);
            }
        }
        assert(a2.no_duplicates()) by {
            assert forall|i: int, j: int| 0 <= i < a2.len() && 0 <= j < a2.len() && i != j implies a2[i]
                != a2[j] by {
                assert(a2[i] == a[i + 1] && a2[j] == a[j + 1]);
            }
        }
        assert(b2.no_duplicates()) by {
            assert forall|i: int, j: int| 0 <= i < b2.len() && 0 <= j < b2.len() && i != j implies b2[i]
                != b2[j] by {
                assert(b2[i] == b[i + 1] && b2[j] == b[j + 1]);
            }
        }
        assert(a2.to_set() =~= b2.to_set()) by {
            assert forall|x: Seq<char>| a2.to_set().contains(x) implies b2.to_set().contains(x) by {
                let i = choose|i: int| 0 <= i < a2.len() && a2[i] == x;
                assert(a[i + 1] == x);
                assert(a.to_set().contains(x));
                let j = choose|j: int| 0 <= j < b.len() && b[j] == x;
                if j == 0 {
                    assert(a[i + 1] == a[0]);
                }
                assert(b2[j - 1] == x);
            }
            assert forall|x: Seq<char>| b2.to_set().contains(x) implies a2.to_set().contains(x) by {
                let i = choose|i: int| 0 <= i < b2.len() && b2[i] == x;
                assert(b[i + 1] == x);
                assert(b.to_set().contains(x));
                let j = choose|j: int| 0 <= j < a.len() && a[j] == x;
                if j == 0 {
                    assert(b[i + 1] == b[0]);
                }
                assert(a2[j - 1] == x);
            }
        }
        lemma_sorted_unique(a2, b2);
        assert(a =~= seq![a[0]] + a2);
        assert(b =~= seq![b[0]] + b2);
    }
}

/// `v` in increasing [`lex_lt`] order (Rust's `sort` on strings).
pub fn sort_strings(v: Vec<String>) -> (r: Vec<String>)
    ensures
        sorted_seq(r.deep_view()),
        r.deep_view().to_multiset() == v.deep_view().to_multiset(),
        r@.len() == v@.len(),
{
    let mut out: Vec<String> = Vec::new();
    let ghost src = v.deep_view();
    let n = v.len();
    let mut k: usize = 0;
    let mut rest = v;
    proof {
        assert(src.take(0) =~= Seq::<Seq<char>>::empty());
        assert(out.deep_view() =~= Seq::<Seq<char>>::empty());
    }
    while k < n
        invariant
            n == src.len(),
            k <= n,
            rest.deep_view() == src,
            sorted_seq(out.deep_view()),
            out.deep_view().to_multiset() == src.take(k as int).to_multiset(),
            out@.len() == k,
        decreases n - k,
    {
        let x = rest[k].clone();
        let ghost xs = x@;
        proof {
            assert(rest.deep_view()[k as int] == rest@[k as int]@);
        }
        let mut p: usize = 0;
        while p < out.len() && !str_lt(x.as_str(), out[p].as_str())
            invariant
                p <= out@.len(),
                forall|q: int| 0 <= q < p ==> !lex_lt(xs, #[trigger] out.deep_view()[q]),
                x@ == xs,
            decreases out@.len() - p,
        {
            proof {
                assert(out.deep_view()[p as int] == out@[p as int]@);
            }
            p = p + 1;
        }
        let ghost before = out.deep_view();
        proof {
            if p < out@.len() {
                assert(before[p as int] == out@[p as int]@);
                assert(lex_lt(xs, before[p as int]));
            }
        }
        out.insert(p, x);
        proof {
            let after = out.deep_view();
            assert(after =~= before.insert(p as int, xs));
            assert forall|i: int, j: int| 0 <= i < j < after.len() implies !lex_lt(
                #[trigger] after[j],
                #[trigger] after[i],
            ) by {
                if i < p && j < p {
                    assert(after[i] == before[i] && after[j] == before[j]);
                } else if i > p && j > p {
                    assert(after[i] == before[i - 1] && after[j] == before[j - 1]);
                } else if i == p {
                    // x against a later element: x < before[p] <= before[j - 1]
                    assert(after[j] == before[j - 1]);
                    if j - 1 > p {
                        lemma_lex_asym(before[j - 1], before[p as int]);
                        lemma_lex_total(before[j - 1], before[p as int]);
                        if lex_lt(before[j - 1], xs) {
                            if before[j - 1] == before[p as int] {
                                lemma_lex_asym(xs, before[p as int]);
                            } else {
                                lemma_lex_trans(before[p as int], before[j - 1], xs);
                                lemma_lex_asym(xs, before[p as int]);
                            }
                        }
                    } else {
                        lemma_lex_asym(xs, before[p as int]);
                    }
                } else if j == p {
                    assert(after[i] == before[i]);
                    assert(!lex_lt(xs, before[i]));
                } else {
                    // i < p < j
                    assert(after[i] == before[i] && after[j] == before[j - 1]);
                    assert(!lex_lt(before[j - 1], before[i]));
                }
            }
            assert(src.take(k + 1) =~= src.take(k as int).push(xs));
            vstd::seq_lib::to_multiset_insert(before, p as int, xs);
            vstd::seq_lib::to_multiset_build(src.take(k as int), xs);
            assert(src.take(k as int).push(xs).to_multiset() == src.take(k as int).to_multiset().insert(
                xs,
            ));
        }
        k = k + 1;
    }
    proof {
        assert(src.take(n as int) =~= src);
    }
    out
}


/// A reordering of a sequence without duplicates has none either, and the same elements.
pub proof fn lemma_permutation_distinct(r: Seq<Seq<char>>, s: Seq<Seq<char>>)
    requires
        r.to_multiset() == s.to_multiset(),
        s.no_duplicates(),
    ensures
        r.no_duplicates(),
        r.to_set() == s.to_set(),
{
    broadcast use vstd::seq_lib::to_multiset_contains;

    s.lemma_multiset_has_no_duplicates();
    r.lemma_multiset_has_no_duplicates_conv();
    assert forall|x: Seq<char>| r.to_set().contains(x) <==> s.to_set().contains(x) by {
        assert(r.contains(x) <==> r.to_multiset().count(x) > 0);
        assert(s.contains(x) <==> s.to_multiset().count(x) > 0);
    }
    assert(r.to_set() =~= s.to_set());
}

} // verus!
