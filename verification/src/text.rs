//! Text as sequences of characters: white space, tokens and their order.
use crate::path::{chars_of, string_of};
use crate::rpm::{digits_value, is_ascii_digit};
use vstd::prelude::*;

verus! {

/// Unicode's White_Space property, which `char::is_whitespace` tests.
pub open spec fn is_white_space(c: char) -> bool {
    let u = c as u32;
    ||| 0x09 <= u <= 0x0D
    ||| u == 0x20
    ||| u == 0x85
    ||| u == 0xA0
    ||| u == 0x1680
    ||| 0x2000 <= u <= 0x200A
    ||| u == 0x2028
    ||| u == 0x2029
    ||| u == 0x202F
    ||| u == 0x205F
    ||| u == 0x3000
}

/// Whether `c` is white space.
pub fn white_space(c: char) -> (r: bool)
    ensures
        r == is_white_space(c),
{
    let u = c as u32;
    (0x09 <= u && u <= 0x0D) || u == 0x20 || u == 0x85 || u == 0xA0 || u == 0x1680 || (0x2000 <= u
        && u <= 0x200A) || u == 0x2028 || u == 0x2029 || u == 0x202F || u == 0x205F || u == 0x3000
}

/// Reading `s` from the left: the tokens completed so far, and the token under way.
pub open spec fn token_scan(s: Seq<char>) -> (Seq<Seq<char>>, Seq<char>)
    decreases s.len(),
{
    if s.len() == 0 {
        (Seq::empty(), Seq::empty())
    } else {
        let (done, cur) = token_scan(s.drop_last());
        let c = s.last();
        if is_white_space(c) {
            if cur.len() > 0 {
                (done.push(cur), Seq::empty())
            } else {
                (done, cur)
            }
        } else {
            (done, cur.push(c))
        }
    }
}

/// The maximal runs of characters that are not white space, in order: what
/// `str::split_whitespace` yields.
pub open spec fn split_whitespace(s: Seq<char>) -> Seq<Seq<char>> {
    let (done, cur) = token_scan(s);
    if cur.len() > 0 {
        done.push(cur)
    } else {
        done
    }
}

/// `t` is a token: not empty, and free of white space.
pub open spec fn is_token(t: Seq<char>) -> bool {
    t.len() > 0 && forall|i: int| 0 <= i < t.len() ==> !is_white_space(#[trigger] t[i])
}

proof fn lemma_token_scan_clean(s: Seq<char>)
    ensures
        forall|i: int| 0 <= i < token_scan(s).0.len() ==> is_token(#[trigger] token_scan(s).0[i]),
        forall|i: int| 0 <= i < token_scan(s).1.len() ==> !is_white_space(#[trigger] token_scan(s).1[i]),
    decreases s.len(),
{
    if s.len() > 0 {
        let p = s.drop_last();
        lemma_token_scan_clean(p);
        let done = token_scan(p).0;
        let cur = token_scan(p).1;
        let c = s.last();
        if is_white_space(c) {
            if cur.len() > 0 {
                assert(is_token(cur));
                assert forall|i: int| 0 <= i < done.push(cur).len() implies is_token(
                    #[trigger] done.push(cur)[i],
                ) by {
                    if i < done.len() {
                        assert(done.push(cur)[i] == done[i]);
                    }
                }
            }
        } else {
            assert forall|i: int| 0 <= i < cur.push(c).len() implies !is_white_space(
                #[trigger] cur.push(c)[i],
            ) by {
                if i < cur.len() {
                    assert(cur.push(c)[i] == cur[i]);
                }
            }
        }
    }
}

/// Every token that splitting at white space gives is non-empty and holds no
/// white space.
pub proof fn lemma_split_whitespace_tokens(s: Seq<char>)
    ensures
        forall|i: int| 0 <= i < split_whitespace(s).len() ==> is_token(#[trigger] split_whitespace(s)[i]),
{
    lemma_token_scan_clean(s);
    let done = token_scan(s).0;
    let cur = token_scan(s).1;
    if cur.len() > 0 {
        assert(is_token(cur));
        assert forall|i: int| 0 <= i < done.push(cur).len() implies is_token(
            #[trigger] done.push(cur)[i],
        ) by {
            if i < done.len() {
                assert(done.push(cur)[i] == done[i]);
            }
        }
    }
}

/// `s` holds no white space.
pub open spec fn no_white_space(s: Seq<char>) -> bool {
    forall|i: int| 0 <= i < s.len() ==> !is_white_space(#[trigger] s[i])
}

/// `s` is all white space.
pub open spec fn all_white_space(s: Seq<char>) -> bool {
    forall|i: int| 0 <= i < s.len() ==> is_white_space(#[trigger] s[i])
}

proof fn lemma_token_scan_word(s: Seq<char>)
    requires
        no_white_space(s),
    ensures
        token_scan(s) == (Seq::<Seq<char>>::empty(), s),
    decreases s.len(),
{
    if s.len() > 0 {
        let p = s.drop_last();
        assert(no_white_space(p)) by {
            assert forall|i: int| 0 <= i < p.len() implies !is_white_space(#[trigger] p[i]) by {
                assert(p[i] == s[i]);
            }
        }
        lemma_token_scan_word(p);
        assert(!is_white_space(s[s.len() - 1]));
        assert(p.push(s.last()) =~= s);
    }
}

proof fn lemma_token_scan_blank(s: Seq<char>)
    requires
        all_white_space(s),
    ensures
        token_scan(s) == (Seq::<Seq<char>>::empty(), Seq::<char>::empty()),
    decreases s.len(),
{
    if s.len() > 0 {
        let p = s.drop_last();
        assert(all_white_space(p)) by {
            assert forall|i: int| 0 <= i < p.len() implies is_white_space(#[trigger] p[i]) by {
                assert(p[i] == s[i]);
            }
        }
        lemma_token_scan_blank(p);
        assert(is_white_space(s[s.len() - 1]));
    }
}

proof fn lemma_token_scan_after(p: Seq<char>, b: Seq<char>)
    requires
        token_scan(p).1.len() == 0,
    ensures
        token_scan(p + b) == (token_scan(p).0 + token_scan(b).0, token_scan(b).1),
    decreases b.len(),
{
    let d = token_scan(p).0;
    if b.len() == 0 {
        assert(p + b =~= p);
        assert(d + Seq::<Seq<char>>::empty() =~= d);
    } else {
        let b1 = b.drop_last();
        lemma_token_scan_after(p, b1);
        assert((p + b).drop_last() =~= p + b1);
        assert((p + b).last() == b.last());
        let d1 = token_scan(b1).0;
        let c1 = token_scan(b1).1;
        assert((d + d1).push(c1) =~= d + d1.push(c1));
    }
}

/// Splitting a text that holds no white space gives that text as the one token.
pub proof fn lemma_split_word(s: Seq<char>)
    requires
        s.len() > 0,
        no_white_space(s),
    ensures
        split_whitespace(s) == seq![s],
{
    lemma_token_scan_word(s);
    assert(Seq::<Seq<char>>::empty().push(s) =~= seq![s]);
}

/// A text of white space alone holds no token.
pub proof fn lemma_split_blank(s: Seq<char>)
    requires
        all_white_space(s),
    ensures
        split_whitespace(s) == Seq::<Seq<char>>::empty(),
{
    lemma_token_scan_blank(s);
}

/// A white space character separates: the tokens of `a`, white space, then
/// `b` are the tokens of `a` followed by those of `b`. With the two laws above
/// this fixes the tokens of every text.
pub proof fn lemma_split_at_white_space(a: Seq<char>, c: char, b: Seq<char>)
    requires
        is_white_space(c),
    ensures
        split_whitespace(a + seq![c] + b) == split_whitespace(a) + split_whitespace(b),
{
    let p = a + seq![c];
    assert(p.drop_last() =~= a);
    assert(p.last() == c);
    assert(token_scan(p).0 == split_whitespace(a));
    assert(token_scan(p).1.len() == 0);
    lemma_token_scan_after(p, b);
    let db = token_scan(b).0;
    let cb = token_scan(b).1;
    let da = split_whitespace(a);
    if cb.len() > 0 {
        assert((da + db).push(cb) =~= da + db.push(cb));
    }
}

/// The views of a vector of character vectors.
pub open spec fn views(v: Seq<Vec<char>>) -> Seq<Seq<char>> {
    v.map_values(|t: Vec<char>| t@)
}

/// Splits `text` into its white-space separated tokens.
pub fn whitespace_tokens(text: &Vec<char>) -> (r: Vec<Vec<char>>)
    ensures
        views(r@) == split_whitespace(text@),
{
    let mut done: Vec<Vec<char>> = Vec::new();
    let mut cur: Vec<char> = Vec::new();
    let mut i: usize = 0;
    while i < text.len()
        invariant
            i <= text.len(),
            (views(done@), cur@) == token_scan(text@.take(i as int)),
        decreases text.len() - i,
    {
        let c = text[i];
        proof {
            assert(text@.take(i + 1).drop_last() =~= text@.take(i as int));
        }
        if white_space(c) {
            if cur.len() > 0 {
                let ghost before = done@;
                done.push(cur);
                cur = Vec::new();
                assert(views(done@) =~= views(before).push(token_scan(text@.take(i as int)).1));
            }
        } else {
            cur.push(c);
        }
        i = i + 1;
    }
    assert(text@.take(text.len() as int) =~= text@);
    if cur.len() > 0 {
        let ghost before = done@;
        done.push(cur);
        assert(views(done@) =~= views(before).push(token_scan(text@).1));
    }
    done
}

/// `a` comes strictly before `b` in lexicographic order of code points, which
/// is the order of `str` in Rust (UTF-8 keeps the order of code points).
pub open spec fn chars_lt(a: Seq<char>, b: Seq<char>) -> bool
    decreases a.len(),
{
    if a.len() == 0 {
        b.len() > 0
    } else if b.len() == 0 {
        false
    } else if a[0] != b[0] {
        a[0] < b[0]
    } else {
        chars_lt(a.drop_first(), b.drop_first())
    }
}

/// No sequence comes before itself.
pub proof fn lemma_chars_lt_irreflexive(a: Seq<char>)
    ensures
        !chars_lt(a, a),
    decreases a.len(),
{
    if a.len() > 0 {
        lemma_chars_lt_irreflexive(a.drop_first());
    }
}

/// The order is transitive.
pub proof fn lemma_chars_lt_transitive(a: Seq<char>, b: Seq<char>, c: Seq<char>)
    requires
        chars_lt(a, b),
        chars_lt(b, c),
    ensures
        chars_lt(a, c),
    decreases a.len(),
{
    if a.len() > 0 && b.len() > 0 && c.len() > 0 {
        if a[0] == b[0] && b[0] == c[0] {
            lemma_chars_lt_transitive(a.drop_first(), b.drop_first(), c.drop_first());
        }
    }
}

/// Of two different sequences, one comes before the other.
pub proof fn lemma_chars_lt_total(a: Seq<char>, b: Seq<char>)
    ensures
        a == b || chars_lt(a, b) || chars_lt(b, a),
    decreases a.len(),
{
    if a.len() > 0 && b.len() > 0 && a[0] == b[0] {
        lemma_chars_lt_total(a.drop_first(), b.drop_first());
        if a.drop_first() == b.drop_first() {
            assert(a =~= seq![a[0]] + a.drop_first());
            assert(b =~= seq![b[0]] + b.drop_first());
        }
    } else if a.len() == 0 && b.len() == 0 {
        assert(a =~= b);
    }
}

/// Whether `a` comes strictly before `b`.
pub fn less_than(a: &Vec<char>, b: &Vec<char>) -> (r: bool)
    ensures
        r == chars_lt(a@, b@),
{
    let mut i: usize = 0;
    assert(a@.skip(0) =~= a@ && b@.skip(0) =~= b@);
    while i < a.len() && i < b.len() && a[i] == b[i]
        invariant
            i <= a.len(),
            i <= b.len(),
            chars_lt(a@, b@) == chars_lt(a@.skip(i as int), b@.skip(i as int)),
        decreases a.len() - i,
    {
        proof {
            assert(a@.skip(i as int).drop_first() =~= a@.skip(i + 1));
            assert(b@.skip(i as int).drop_first() =~= b@.skip(i + 1));
        }
        i = i + 1;
    }
    if i == a.len() {
        i < b.len()
    } else if i == b.len() {
        false
    } else {
        a[i] < b[i]
    }
}

/// Whether two character sequences are equal.
pub fn same_chars(a: &Vec<char>, b: &Vec<char>) -> (r: bool)
    ensures
        r == (a@ == b@),
{
    if a.len() != b.len() {
        return false;
    }
    let mut i: usize = 0;
    while i < a.len()
        invariant
            i <= a.len(),
            a.len() == b.len(),
            forall|j: int| 0 <= j < i ==> a@[j] == b@[j],
        decreases a.len() - i,
    {
        if a[i] != b[i] {
            return false;
        }
        i = i + 1;
    }
    assert(a@ =~= b@);
    true
}

/// `s` without its leading white space.
pub open spec fn trim_start(s: Seq<char>) -> Seq<char>
    decreases s.len(),
{
    if s.len() > 0 && is_white_space(s[0]) {
        trim_start(s.drop_first())
    } else {
        s
    }
}

/// `s` without its trailing white space.
pub open spec fn trim_end(s: Seq<char>) -> Seq<char>
    decreases s.len(),
{
    if s.len() > 0 && is_white_space(s.last()) {
        trim_end(s.drop_last())
    } else {
        s
    }
}

/// `s` without leading and trailing white space: what `str::trim` gives.
pub open spec fn trim(s: Seq<char>) -> Seq<char> {
    trim_end(trim_start(s))
}

proof fn lemma_trim_start_skip(s: Seq<char>, i: int)
    requires
        0 <= i <= s.len(),
        forall|j: int| 0 <= j < i ==> is_white_space(#[trigger] s[j]),
    ensures
        trim_start(s) == trim_start(s.skip(i)),
    decreases i,
{
    if i > 0 {
        assert(s.drop_first().skip(i - 1) =~= s.skip(i));
        lemma_trim_start_skip(s.drop_first(), i - 1);
    } else {
        assert(s.skip(0) =~= s);
    }
}

proof fn lemma_trim_end_take(s: Seq<char>, k: int)
    requires
        0 <= k <= s.len(),
        forall|j: int| k <= j < s.len() ==> is_white_space(#[trigger] s[j]),
    ensures
        trim_end(s) == trim_end(s.take(k)),
    decreases s.len() - k,
{
    if k < s.len() {
        assert(s.drop_last().take(k) =~= s.take(k));
        lemma_trim_end_take(s.drop_last(), k);
    } else {
        assert(s.take(k) =~= s);
    }
}

proof fn lemma_trim_start_shape(s: Seq<char>)
    ensures
        exists|k: int|
            0 <= k <= s.len() && trim_start(s) == s.skip(k) && (forall|i: int|
                0 <= i < k ==> is_white_space(#[trigger] s[i])) && (k < s.len() ==> !is_white_space(s[k])),
    decreases s.len(),
{
    if s.len() > 0 && is_white_space(s[0]) {
        lemma_trim_start_shape(s.drop_first());
        let k = choose|k: int|
            0 <= k <= s.drop_first().len() && trim_start(s.drop_first()) == s.drop_first().skip(k)
                && (forall|i: int| 0 <= i < k ==> is_white_space(#[trigger] s.drop_first()[i])) && (k
                < s.drop_first().len() ==> !is_white_space(s.drop_first()[k]));
        assert(s.drop_first().skip(k) =~= s.skip(k + 1));
        assert forall|i: int| 0 <= i < k + 1 implies is_white_space(#[trigger] s[i]) by {
            if i > 0 {
                assert(s[i] == s.drop_first()[i - 1]);
            }
        }
        if k + 1 < s.len() {
            assert(s[k + 1] == s.drop_first()[k]);
        }
    } else {
        assert(s.skip(0) =~= s);
    }
}

proof fn lemma_trim_end_shape(s: Seq<char>)
    ensures
        exists|k: int|
            0 <= k <= s.len() && trim_end(s) == s.take(k) && (forall|i: int|
                k <= i < s.len() ==> is_white_space(#[trigger] s[i])) && (k > 0 ==> !is_white_space(s[k - 1])),
    decreases s.len(),
{
    if s.len() > 0 && is_white_space(s.last()) {
        lemma_trim_end_shape(s.drop_last());
        let k = choose|k: int|
            0 <= k <= s.drop_last().len() && trim_end(s.drop_last()) == s.drop_last().take(k)
                && (forall|i: int| k <= i < s.drop_last().len() ==> is_white_space(#[trigger] s.drop_last()[i]))
                && (k > 0 ==> !is_white_space(s.drop_last()[k - 1]));
        assert(s.drop_last().take(k) =~= s.take(k));
        assert forall|i: int| k <= i < s.len() implies is_white_space(#[trigger] s[i]) by {
            if i < s.len() - 1 {
                assert(s[i] == s.drop_last()[i]);
            }
        }
        if k > 0 {
            assert(s[k - 1] == s.drop_last()[k - 1]);
        }
    } else {
        assert(s.take(s.len() as int) =~= s);
    }
}

/// Trimming removes white space only: the trimmed text is the part of `s`
/// from `lo` up to `hi`, everything before and after it is white space, and
/// where it is not empty it neither starts nor ends with white space.
pub proof fn lemma_trim_removes_only_white_space(s: Seq<char>)
    ensures
        exists|lo: int, hi: int|
            {
                &&& 0 <= lo <= hi <= s.len()
                &&& trim(s) == s.subrange(lo, hi)
                &&& forall|i: int| 0 <= i < lo ==> is_white_space(#[trigger] s[i])
                &&& forall|i: int| hi <= i < s.len() ==> is_white_space(#[trigger] s[i])
                &&& lo < hi ==> !is_white_space(s[lo]) && !is_white_space(s[hi - 1])
            },
{
    lemma_trim_start_shape(s);
    let lo = choose|k: int|
        0 <= k <= s.len() && trim_start(s) == s.skip(k) && (forall|i: int|
            0 <= i < k ==> is_white_space(#[trigger] s[i])) && (k < s.len() ==> !is_white_space(s[k]));
    let t = s.skip(lo);
    lemma_trim_end_shape(t);
    let m = choose|k: int|
        0 <= k <= t.len() && trim_end(t) == t.take(k) && (forall|i: int|
            k <= i < t.len() ==> is_white_space(#[trigger] t[i])) && (k > 0 ==> !is_white_space(t[k - 1]));
    let hi = lo + m;
    assert(t.take(m) =~= s.subrange(lo, hi));
    assert forall|i: int| hi <= i < s.len() implies is_white_space(#[trigger] s[i]) by {
        assert(s[i] == t[i - lo]);
    }
    if lo < hi {
        assert(s[hi - 1] == t[m - 1]);
    }
    assert({
        &&& 0 <= lo <= hi <= s.len()
        &&& trim(s) == s.subrange(lo, hi)
        &&& forall|i: int| 0 <= i < lo ==> is_white_space(#[trigger] s[i])
        &&& forall|i: int| hi <= i < s.len() ==> is_white_space(#[trigger] s[i])
        &&& lo < hi ==> !is_white_space(s[lo]) && !is_white_space(s[hi - 1])
    });
}

/// `s` without leading and trailing white space.
pub fn trim_text(s: &str) -> (r: String)
    ensures
        r@ == trim(s@),
{
    let v = chars_of(s);
    let mut lo: usize = 0;
    while lo < v.len() && white_space(v[lo])
        invariant
            lo <= v.len(),
            forall|j: int| 0 <= j < lo ==> is_white_space(#[trigger] v@[j]),
        decreases v.len() - lo,
    {
        lo = lo + 1;
    }
    let mut hi: usize = v.len();
    while hi > lo && white_space(v[hi - 1])
        invariant
            lo <= hi <= v.len(),
            forall|j: int| hi <= j < v.len() ==> is_white_space(#[trigger] v@[j]),
        decreases hi,
    {
        hi = hi - 1;
    }
    let mut out: Vec<char> = Vec::new();
    let mut i = lo;
    while i < hi
        invariant
            lo <= i <= hi,
            hi <= v.len(),
            out@ == v@.subrange(lo as int, i as int),
        decreases hi - i,
    {
        out.push(v[i]);
        i = i + 1;
        assert(out@ =~= v@.subrange(lo as int, i as int));
    }
    proof {
        lemma_trim_start_skip(v@, lo as int);
        let t = v@.skip(lo as int);
        if lo < v.len() {
            assert(!is_white_space(t[0]));
        }
        assert(trim_start(t) == t);
        assert forall|j: int| hi - lo <= j < t.len() implies is_white_space(#[trigger] t[j]) by {
            assert(t[j] == v@[j + lo]);
        }
        lemma_trim_end_take(t, hi - lo);
        let u = t.take(hi - lo);
        assert(u =~= v@.subrange(lo as int, hi as int));
        if hi > lo {
            assert(!is_white_space(u.last()));
        }
        assert(trim_end(u) == u);
    }
    string_of(&out)
}

/// The decimal digits of `n`.
pub open spec fn decimal(n: nat) -> Seq<char>
    decreases n,
{
    if n < 10 {
        seq![digit_char(n)]
    } else {
        decimal(n / 10) + seq![digit_char(n % 10)]
    }
}

/// The digit that stands for `d`, below ten.
pub open spec fn digit_char(d: nat) -> char {
    if d == 0 { '0' } else if d == 1 { '1' } else if d == 2 { '2' } else if d == 3 { '3' }
    else if d == 4 { '4' } else if d == 5 { '5' } else if d == 6 { '6' } else if d == 7 { '7' }
    else if d == 8 { '8' } else { '9' }
}

/// How `{}` formats an integer: a `-` before a negative number, then its digits.
pub open spec fn int_text(n: int) -> Seq<char> {
    if n < 0 {
        seq!['-'] + decimal((-n) as nat)
    } else {
        decimal(n as nat)
    }
}

proof fn lemma_digit_value(d: nat)
    requires
        d < 10,
    ensures
        (digit_char(d) as u32) - ('0' as u32) == d,
        is_ascii_digit(digit_char(d)),
        (digit_char(d) == '0') == (d == 0),
{
    assert(('0' as u32) == 48u32);
    assert(('1' as u32) == 49u32);
    assert(('2' as u32) == 50u32);
    assert(('3' as u32) == 51u32);
    assert(('4' as u32) == 52u32);
    assert(('5' as u32) == 53u32);
    assert(('6' as u32) == 54u32);
    assert(('7' as u32) == 55u32);
    assert(('8' as u32) == 56u32);
    assert(('9' as u32) == 57u32);
}

/// The digits of `n` read back give `n`, and they start with `0` only where
/// `n` is zero: the shortest decimal numeral of `n`.
pub proof fn lemma_decimal_numeral(n: nat)
    ensures
        decimal(n).len() > 0,
        forall|i: int| 0 <= i < decimal(n).len() ==> is_ascii_digit(#[trigger] decimal(n)[i]),
        digits_value(decimal(n)) == n,
        decimal(n)[0] == '0' ==> n == 0,
    decreases n,
{
    if n < 10 {
        lemma_digit_value(n);
        let x = seq![digit_char(n)];
        assert(x.drop_last() =~= Seq::<char>::empty());
        assert(digits_value(x.drop_last()) == 0);
        assert(x.last() == digit_char(n));
        assert(digits_value(x) == (digit_char(n) as u32) - ('0' as u32));
    } else {
        lemma_digit_value(n % 10);
        lemma_decimal_numeral(n / 10);
        let d = decimal(n / 10);
        let c = digit_char(n % 10);
        assert((d + seq![c]).drop_last() =~= d);
        assert((d + seq![c]).last() == c);
        assert(digits_value(d + seq![c]) == digits_value(d) * 10 + ((c as u32) - ('0' as u32)));
        assert((d + seq![c])[0] == d[0]);
        assert(n == (n / 10) * 10 + n % 10);
        assert forall|i: int| 0 <= i < (d + seq![c]).len() implies is_ascii_digit(#[trigger] (d + seq![c])[i]) by {
            if i < d.len() {
                assert((d + seq![c])[i] == d[i]);
            }
        }
    }
}

fn digit(d: u64) -> (c: char)
    requires
        d < 10,
    ensures
        c == digit_char(d as nat),
{
    if d == 0 { '0' } else if d == 1 { '1' } else if d == 2 { '2' } else if d == 3 { '3' }
    else if d == 4 { '4' } else if d == 5 { '5' } else if d == 6 { '6' } else if d == 7 { '7' }
    else if d == 8 { '8' } else { '9' }
}

/// The decimal digits of `n`.
pub fn decimal_digits(n: u64) -> (r: Vec<char>)
    ensures
        r@ == decimal(n as nat),
    decreases n,
{
    if n < 10 {
        vec![digit(n)]
    } else {
        let mut r = decimal_digits(n / 10);
        r.push(digit(n % 10));
        r
    }
}

/// An integer as `{}` formats it.
pub fn int_to_text(n: i64) -> (r: String)
    ensures
        r@ == int_text(n as int),
{
    if n < 0 {
        let m: u64 = if n == i64::MIN { 9223372036854775808u64 } else { (-n) as u64 };
        let mut v = vec!['-'];
        let mut d = decimal_digits(m);
        v.append(&mut d);
        assert(v@ =~= seq!['-'] + decimal((-n) as nat));
        string_of(&v)
    } else {
        string_of(&decimal_digits(n as u64))
    }
}

} // verus!
