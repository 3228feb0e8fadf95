//! The per-column catalog of a result set, and the text rules applied to it.
//!
//! A catalog row carries the column name, the declared SQL type and the
//! numeric and temporal parameters. Column names are normalized — trimmed,
//! lowercased, whitespace runs collapsed to a single underscore — and type
//! tags are stripped of any parenthesized size suffix and lowercased. Both
//! rules fold ASCII letters only.

use vstd::prelude::*;

verus! {

/// One column of the catalog, as the probe of `INFORMATION_SCHEMA.COLUMNS`
/// delivers it. Every field may be absent.
#[derive(Debug)]
pub struct MSchema {
    pub column_name: Option<String>,
    pub data_type: Option<String>,
    pub is_nullable: Option<String>,
    pub numeric_precision: Option<u8>,
    pub numeric_scale: Option<i32>,
    pub datetime_precision: Option<i16>,
}

/// ASCII whitespace.
pub open spec fn is_space(c: char) -> bool {
    c == ' ' || c == '\t' || c == '\n' || c == '\r' || c == '\u{0B}' || c == '\u{0C}'
}

/// ASCII case folding of one character.
pub open spec fn lower_char(c: char) -> char {
    if 65 <= c as u32 <= 90 {
        ((c as u32 + 32) as u8) as char
    } else {
        c
    }
}

/// The tail of the normalized name from position `i` on, given whether a
/// word has been emitted already (`started`) and whether whitespace has been
/// seen since the last word character (`gap`).
pub open spec fn norm_rec(s: Seq<char>, i: int, started: bool, gap: bool) -> Seq<char>
    decreases s.len() - i,
{
    if i < 0 || i >= s.len() {
        Seq::empty()
    } else if is_space(s[i]) {
        norm_rec(s, i + 1, started, true)
    } else {
        (if started && gap {
            seq!['_']
        } else {
            Seq::empty()
        }) + seq![lower_char(s[i])] + norm_rec(s, i + 1, true, false)
    }
}

/// The normalized column name: trimmed, ASCII-lowercased, inner whitespace
/// runs collapsed to one underscore.
pub open spec fn normalize_name(s: Seq<char>) -> Seq<char> {
    norm_rec(s, 0, false, false)
}

/// The prefix of `s` before its first opening parenthesis.
pub open spec fn before_paren(s: Seq<char>) -> Seq<char>
    decreases s.len(),
{
    if s.len() == 0 {
        Seq::empty()
    } else if s[0] == '(' {
        Seq::empty()
    } else {
        seq![s[0]] + before_paren(s.drop_first())
    }
}

/// `s` without leading whitespace.
pub open spec fn trim_front(s: Seq<char>) -> Seq<char>
    decreases s.len(),
{
    if s.len() > 0 && is_space(s[0]) {
        trim_front(s.drop_first())
    } else {
        s
    }
}

/// `s` without trailing whitespace.
pub open spec fn trim_back(s: Seq<char>) -> Seq<char>
    decreases s.len(),
{
    if s.len() > 0 && is_space(s.last()) {
        trim_back(s.drop_last())
    } else {
        s
    }
}

/// The canonical type tag of a declared SQL type: the text before any
/// parenthesized suffix, ASCII-lowercased, trimmed.
pub open spec fn type_tag(s: Seq<char>) -> Seq<char> {
    trim_back(trim_front(before_paren(s).map(|i: int, c: char| lower_char(c))))
}

/// The decimal digits of `n`, most significant first.
pub open spec fn dec_digits(n: nat) -> Seq<char>
    decreases n,
{
    if n < 10 {
        seq![((48 + n) as u8) as char]
    } else {
        dec_digits(n / 10) + seq![((48 + n % 10) as u8) as char]
    }
}

/// The name a catalog entry contributes to the schema: its normalized
/// column name, or `col_{index}` when the entry is unnamed.
pub open spec fn spec_plan_name(e: &MSchema, index: int) -> Seq<char> {
    match e.column_name {
        Some(s) => normalize_name(s@),
        None => seq!['c', 'o', 'l', '_'] + dec_digits(index as nat),
    }
}

/// Whether the entry admits nulls: every value of `is_nullable` but a
/// (case-insensitive, trimmed) `no`, absence included.
pub open spec fn spec_nullable(e: &MSchema) -> bool {
    match e.is_nullable {
        Some(s) => type_tag(s@) != "no"@,
        None => true,
    }
}

/// Folds one ASCII letter.
fn lower_char_exec(c: char) -> (r: char)
    ensures
        r == lower_char(c),
{
    let u = c as u32;
    if 65 <= u && u <= 90 {
        ((u + 32) as u8) as char
    } else {
        c
    }
}

/// Decides ASCII whitespace.
fn is_space_exec(c: char) -> (r: bool)
    ensures
        r == is_space(c),
{
    c == ' ' || c == '\t' || c == '\n' || c == '\r' || c == '\u{0B}' || c == '\u{0C}'
}

/// Normalizes a column name into its character sequence.
pub fn normalize_chars(s: &str) -> (out: Vec<char>)
    ensures
        out@ == normalize_name(s@),
{
    let n = s.unicode_len();
    let mut out: Vec<char> = Vec::new();
    let mut started: bool = false;
    let mut gap: bool = false;
    let mut i: usize = 0;
    while i < n
        invariant
            n == s@.len(),
            i <= n,
            out@ + norm_rec(s@, i as int, started, gap) == normalize_name(s@),
        decreases n - i,
    {
        let c = s.get_char(i);
        if is_space_exec(c) {
            gap = true;
        } else {
            if started && gap {
                out.push('_');
            }
            out.push(lower_char_exec(c));
            started = true;
            gap = false;
        }
        i = i + 1;
        proof {
            assert(out@ + norm_rec(s@, i as int, started, gap) =~= normalize_name(s@));
        }
    }
    out
}

/// Extracts the canonical type tag of a declared SQL type.
pub fn type_tag_chars(s: &str) -> (out: Vec<char>)
    ensures
        out@ == type_tag(s@),
{
    let n = s.unicode_len();
    let ghost low = before_paren(s@).map(|k: int, c: char| lower_char(c));
    // find the first parenthesis, if any
    let mut p: usize = n;
    let mut i: usize = 0;
    while i < n
        invariant
            n == s@.len(),
            i <= n,
            p <= n,
            forall|k: int| 0 <= k < i && k < p ==> s@[k] != '(',
            p < n ==> p < i && s@[p as int] == '(',
        decreases n - i,
    {
        if p == n && s.get_char(i) == '(' {
            p = i;
        }
        i = i + 1;
    }
    proof {
        assert(forall|k: int| 0 <= k < p ==> s@[k] != '(');
        lemma_before_paren_prefix(s@, p as int);
        assert(before_paren(s@).len() == p);
        assert forall|k: int| 0 <= k < p implies low[k] == lower_char(s@[k]) by {
            assert(before_paren(s@)[k] == s@[k]);
        }
    }
    // the lowered prefix before the parenthesis
    let mut pre: Vec<char> = Vec::new();
    let mut j0: usize = 0;
    while j0 < p
        invariant
            n == s@.len(),
            p <= n,
            j0 <= p,
            low.len() == p,
            forall|k: int| 0 <= k < p ==> s@[k] != '(' && low[k] == lower_char(s@[k]),
            pre@ == low.take(j0 as int),
        decreases p - j0,
    {
        let c = s.get_char(j0);
        pre.push(lower_char_exec(c));
        j0 = j0 + 1;
        proof {
            assert(pre@ =~= low.take(j0 as int));
        }
    }
    proof {
        assert(pre@ =~= low);
    }
    // trim both ends
    let mut lo: usize = 0;
    let mut hi: usize = pre.len();
    while lo < hi && is_space_exec(pre[lo])
        invariant
            lo <= hi <= pre@.len(),
            hi == pre@.len(),
            pre@ == low,
            trim_front(low) == trim_front(low.skip(lo as int)),
        decreases hi - lo,
    {
        proof {
            assert(low.skip(lo as int)[0] == low[lo as int]);
            assert(low.skip(lo as int).drop_first() =~= low.skip(lo as int + 1));
        }
        lo = lo + 1;
    }
    let ghost mid = trim_front(low);
    proof {
        if lo == hi {
            assert(low.skip(lo as int).len() == 0);
        } else {
            assert(low.skip(lo as int)[0] == low[lo as int]);
            assert(!is_space(low.skip(lo as int)[0]));
        }
        assert(mid =~= low.skip(lo as int));
        assert(mid.len() == hi - lo);
        assert(mid.take(hi - lo as int) =~= mid);
    }
    while lo < hi && is_space_exec(pre[hi - 1])
        invariant
            lo <= hi <= pre@.len(),
            pre@ == low,
            mid == trim_front(low),
            mid =~= low.skip(lo as int),
            trim_back(mid) == trim_back(mid.take(hi - lo as int)),
        decreases hi - lo,
    {
        proof {
            assert(mid.take(hi - lo as int).drop_last() =~= mid.take(hi - 1 - lo as int));
            assert(mid.take(hi - lo as int).last() == mid[hi - 1 - lo as int] == low[hi - 1]);
        }
        hi = hi - 1;
    }
    proof {
        if lo < hi {
            assert(mid.take(hi - lo as int).last() == mid[hi - 1 - lo as int] == low[hi - 1]);
            assert(!is_space(mid.take(hi - lo as int).last()));
        } else {
            assert(mid.take(hi - lo as int).len() == 0);
        }
        assert(trim_back(mid) == mid.take(hi - lo as int));
    }
    let mut out: Vec<char> = Vec::new();
    let mut j: usize = lo;
    while j < hi
        invariant
            lo <= j <= hi <= pre@.len(),
            pre@ == low,
            out@.len() == j - lo,
            forall|k: int| 0 <= k < out@.len() ==> out@[k] == low[k + lo],
        decreases hi - j,
    {
        let c = pre[j];
        out.push(c);
        j = j + 1;
    }
    proof {
        assert forall|k: int| 0 <= k < hi - lo implies #[trigger] mid.take(hi - lo as int)[k]
            == low[k + lo] by {
            assert(mid.take(hi - lo as int)[k] == mid[k]);
            assert(mid[k] == low.skip(lo as int)[k]);
        }
        assert(out@ =~= mid.take(hi - lo as int));
        assert(out@ == trim_back(trim_front(low)));
    }
    out
}

/// The prefix before a parenthesis agrees with the text on every position
/// before the first `(`.
proof fn lemma_before_paren_prefix(s: Seq<char>, i: int)
    requires
        0 <= i <= s.len(),
        forall|k: int| 0 <= k < i ==> s[k] != '(',
    ensures
        before_paren(s).len() >= i,
        forall|k: int| 0 <= k < i ==> before_paren(s)[k] == s[k],
        i < s.len() && s[i] == '(' ==> before_paren(s).len() == i,
        i == s.len() ==> before_paren(s).len() == i,
    decreases s.len(),
{
    if s.len() == 0 {
    } else if s[0] == '(' {
    } else {
        let t = s.drop_first();
        if i > 0 {
            assert forall|k: int| 0 <= k < i - 1 implies t[k] != '(' by {
                assert(s[k + 1] != '(');
            }
            lemma_before_paren_prefix(t, i - 1);
        } else {
            lemma_before_paren_prefix(t, 0);
        }
        assert(before_paren(s) == seq![s[0]] + before_paren(t));
        assert forall|k: int| 0 <= k < i implies before_paren(s)[k] == s[k] by {
            if k > 0 {
                assert(before_paren(s)[k] == before_paren(t)[k - 1]);
                assert(t[k - 1] == s[k]);
            }
        }
        if i > 0 && i < s.len() && s[i] == '(' {
            assert(t[i - 1] == '(');
        }
    }
}

/// Compares a character vector against a literal.
pub fn chars_eq_lit(v: &Vec<char>, lit: &str) -> (r: bool)
    ensures
        r == (v@ == lit@),
{
    let n = lit.unicode_len();
    if v.len() != n {
        proof {
            assert(v@.len() != lit@.len());
        }
        return false;
    }
    let mut i: usize = 0;
    while i < n
        invariant
            i <= n,
            v@.len() == n == lit@.len(),
            forall|k: int| 0 <= k < i ==> v@[k] == lit@[k],
        decreases n - i,
    {
        if v[i] != lit.get_char(i) {
            return false;
        }
        i = i + 1;
    }
    proof {
        assert(v@ =~= lit@);
    }
    true
}

/// Relies on `String::from_iter` through `collect`: the characters, in
/// order, become the string.
#[verifier::external_body]
pub(crate) fn chars_to_string(v: Vec<char>) -> (r: String)
    ensures
        r@ == v@,
{
    v.into_iter().collect()
}

/// Normalizes a column name into a string. Folding is ASCII-only: an
/// uppercase letter beyond ASCII passes through unchanged.
pub fn normalized_column_name(s: &str) -> (r: String)
    ensures
        r@ == normalize_name(s@),
{
    chars_to_string(normalize_chars(s))
}

/// Extracts the canonical type tag of a declared SQL type into a string.
/// Folding is ASCII-only, which covers every tag of the mapping table.
pub fn type_tag_of(s: &str) -> (r: String)
    ensures
        r@ == type_tag(s@),
{
    chars_to_string(type_tag_chars(s))
}

/// The decimal digits of an index, for synthesized column names.
pub fn index_digits(n: usize) -> (out: Vec<char>)
    ensures
        out@ == dec_digits(n as nat),
    decreases n,
{
    if n < 10 {
        let d: u8 = 48 + (n as u8);
        let mut out: Vec<char> = Vec::new();
        out.push(d as char);
        proof {
            assert(out@ =~= dec_digits(n as nat));
        }
        out
    } else {
        let mut out = index_digits(n / 10);
        let d: u8 = 48 + ((n % 10) as u8);
        out.push(d as char);
        proof {
            assert(out@ =~= dec_digits(n as nat));
        }
        out
    }
}

} // verus!
