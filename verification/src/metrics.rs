//! Parsing of the kernel's network and disk counter tables.
//!
//! The input is the raw text of the counters file; the functions here sum
//! the relevant per-device columns. All byte handling is explicit: lines
//! split at newlines, fields split at blanks, decimal fields parsed with
//! saturation to zero on malformed digits and overflow, and totals summed
//! with saturating arithmetic.

use vstd::prelude::*;

verus! {

/// Horizontal whitespace (space, tab, carriage return); newlines separate
/// lines and are never inside one.
pub open spec fn spec_is_ws(b: u8) -> bool {
    b == 32 || b == 9 || b == 13
}

/// Index of the first occurrence of `b`, or -1 if absent.
pub open spec fn spec_find(s: Seq<u8>, b: u8) -> int
    decreases s.len(),
{
    if s.len() == 0 {
        -1
    } else if s[0] == b {
        0
    } else {
        let r = spec_find(s.drop_first(), b);
        if r < 0 {
            -1
        } else {
            r + 1
        }
    }
}

/// The first occurrence is an occurrence, preceded only by other bytes;
/// -1 means no occurrence.
pub proof fn lemma_find_props(s: Seq<u8>, b: u8)
    ensures
        -1 <= spec_find(s, b) < s.len(),
        spec_find(s, b) >= 0 ==> s[spec_find(s, b)] == b,
        forall|j: int| 0 <= j < spec_find(s, b) ==> s[j] != b,
        spec_find(s, b) == -1 ==> forall|j: int| 0 <= j < s.len() ==> s[j] != b,
    decreases s.len(),
{
    if s.len() > 0 && s[0] != b {
        lemma_find_props(s.drop_first(), b);
        assert forall|j: int| 1 <= j < s.len() implies s.drop_first()[j - 1] == #[trigger] s[j] by {}
    }
}

/// A scan that saw no `b` before `d`, and `b` at `d` (or ran off the end),
/// determines the first occurrence.
pub proof fn lemma_find_from_scan(s: Seq<u8>, b: u8, d: int)
    requires
        0 <= d <= s.len(),
        forall|j: int| 0 <= j < d ==> s[j] != b,
        d < s.len() ==> s[d] == b,
    ensures
        spec_find(s, b) == (if d == s.len() {
            -1int
        } else {
            d
        }),
    decreases s.len(),
{
    if s.len() > 0 {
        if d == 0 {
        } else {
            lemma_find_from_scan(s.drop_first(), b, d - 1);
        }
    }
}

/// The sequence with leading whitespace removed.
pub open spec fn spec_trim_front(s: Seq<u8>) -> Seq<u8>
    decreases s.len(),
{
    if s.len() > 0 && spec_is_ws(s[0]) {
        spec_trim_front(s.drop_first())
    } else {
        s
    }
}

/// The sequence with trailing whitespace removed.
pub open spec fn spec_trim_back(s: Seq<u8>) -> Seq<u8>
    decreases s.len(),
{
    if s.len() > 0 && spec_is_ws(s.last()) {
        spec_trim_back(s.drop_last())
    } else {
        s
    }
}

/// The sequence with whitespace removed from both ends.
pub open spec fn spec_trim(s: Seq<u8>) -> Seq<u8> {
    spec_trim_back(spec_trim_front(s))
}

/// A scan that saw only whitespace before `d` and none at `d` (or ran off
/// the end) determines the trimmed front.
pub proof fn lemma_trim_front_from_scan(s: Seq<u8>, d: int)
    requires
        0 <= d <= s.len(),
        forall|j: int| 0 <= j < d ==> spec_is_ws(#[trigger] s[j]),
        d < s.len() ==> !spec_is_ws(s[d]),
    ensures
        spec_trim_front(s) == s.skip(d),
    decreases s.len(),
{
    if d == 0 {
        assert(s.skip(0) =~= s);
    } else {
        lemma_trim_front_from_scan(s.drop_first(), d - 1);
        assert(s.drop_first().skip(d - 1) =~= s.skip(d));
    }
}

/// A scan that saw only whitespace at `d` and beyond, and none at `d - 1`
/// (or reached the front), determines the trimmed back.
pub proof fn lemma_trim_back_from_scan(s: Seq<u8>, d: int)
    requires
        0 <= d <= s.len(),
        forall|j: int| d <= j < s.len() ==> spec_is_ws(#[trigger] s[j]),
        d > 0 ==> !spec_is_ws(s[d - 1]),
    ensures
        spec_trim_back(s) == s.take(d),
    decreases s.len(),
{
    if d == s.len() {
        if s.len() > 0 && spec_is_ws(s.last()) {
        } else {
            assert(s.take(d) =~= s);
        }
    }
    if d < s.len() {
        lemma_trim_back_from_scan(s.drop_last(), d);
        assert(s.drop_last().take(d) =~= s.take(d));
    }
}

/// Copy of the byte range `[lo, hi)`.
pub fn subvec(v: &Vec<u8>, lo: usize, hi: usize) -> (r: Vec<u8>)
    requires
        lo <= hi <= v@.len(),
    ensures
        r@ == v@.subrange(lo as int, hi as int),
{
    let mut r: Vec<u8> = Vec::new();
    let mut k = lo;
    while k < hi
        invariant
            lo <= k <= hi <= v@.len(),
            r@ == v@.subrange(lo as int, k as int),
        decreases hi - k,
    {
        r.push(v[k]);
        proof {
            assert(v@.subrange(lo as int, k as int + 1) =~= v@.subrange(lo as int, k as int).push(
                v@[k as int],
            ));
        }
        k = k + 1;
    }
    r
}

/// The input with whitespace removed from both ends.
pub fn trim(v: &Vec<u8>) -> (r: Vec<u8>)
    ensures
        r@ == spec_trim(v@),
{
    let n = v.len();
    let mut lo: usize = 0;
    while lo < n && (v[lo] == 32 || v[lo] == 9 || v[lo] == 13)
        invariant
            lo <= n,
            n == v@.len(),
            forall|j: int| 0 <= j < lo ==> spec_is_ws(#[trigger] v@[j]),
        decreases n - lo,
    {
        lo = lo + 1;
    }
    proof {
        lemma_trim_front_from_scan(v@, lo as int);
    }
    let mut hi: usize = n;
    while hi > lo && (v[hi - 1] == 32 || v[hi - 1] == 9 || v[hi - 1] == 13)
        invariant
            lo <= hi <= n,
            n == v@.len(),
            forall|j: int| hi <= j < n ==> spec_is_ws(#[trigger] v@[j]),
        decreases hi,
    {
        hi = hi - 1;
    }
    proof {
        let f = v@.skip(lo as int);
        assert(f.len() == n - lo);
        assert forall|j: int| hi - lo <= j < f.len() implies spec_is_ws(#[trigger] f[j]) by {
            assert(f[j] == v@[j + lo]);
        }
        if hi > lo {
            assert(f[hi - lo - 1] == v@[hi - 1]);
        }
        lemma_trim_back_from_scan(f, hi - lo as int);
        assert(f.take(hi - lo as int) =~= v@.subrange(lo as int, hi as int));
    }
    subvec(v, lo, hi)
}

/// All bytes are decimal digits.
pub open spec fn spec_all_digits(s: Seq<u8>) -> bool {
    forall|j: int| 0 <= j < s.len() ==> 48 <= #[trigger] s[j] <= 57
}

/// The number a sequence of decimal digits denotes.
pub open spec fn spec_dec_val(s: Seq<u8>) -> int
    decreases s.len(),
{
    if s.len() == 0 {
        0
    } else {
        spec_dec_val(s.drop_last()) * 10 + (s.last() - 48)
    }
}

/// Longer digit strings denote no smaller numbers: any prefix's value is a
/// lower bound.
pub proof fn lemma_dec_val_prefix(s: Seq<u8>, i: int)
    requires
        spec_all_digits(s),
        0 <= i <= s.len(),
    ensures
        spec_dec_val(s.take(i)) <= spec_dec_val(s),
    decreases s.len() - i,
{
    if i == s.len() {
        assert(s.take(i) =~= s);
    } else {
        lemma_dec_val_prefix(s, i + 1);
        assert(s.take(i + 1).drop_last() =~= s.take(i));
        assert(s.take(i + 1).last() == s[i]);
        assert(spec_dec_val(s.take(i)) >= 0) by {
            lemma_dec_val_nonneg(s.take(i));
        }
    }
}

/// A digit string's value is never negative.
pub proof fn lemma_dec_val_nonneg(s: Seq<u8>)
    requires
        spec_all_digits(s),
    ensures
        spec_dec_val(s) >= 0,
    decreases s.len(),
{
    if s.len() > 0 {
        assert(spec_all_digits(s.drop_last())) by {
            assert forall|j: int| 0 <= j < s.len() - 1 implies 48 <= #[trigger] s.drop_last()[j]
                <= 57 by {
                assert(s.drop_last()[j] == s[j]);
            }
        }
        lemma_dec_val_nonneg(s.drop_last());
    }
}

/// The value a counter field denotes: its digits, after an optional
/// leading plus sign, read as a decimal number; zero when the field is
/// empty, holds a non-digit, or overflows 64 bits.
pub open spec fn spec_parse_or_zero(s: Seq<u8>) -> int {
    let d = if s.len() > 0 && s[0] == 43 {
        s.drop_first()
    } else {
        s
    };
    if d.len() > 0 && spec_all_digits(d) && spec_dec_val(d) <= u64::MAX {
        spec_dec_val(d)
    } else {
        0
    }
}

/// Parses a decimal counter field; see `spec_parse_or_zero`.
pub fn parse_or_zero(v: &Vec<u8>) -> (r: u64)
    ensures
        r == spec_parse_or_zero(v@),
{
    let n = v.len();
    let start: usize = if n > 0 && v[0] == 43 {
        1
    } else {
        0
    };
    let ghost d = if v@.len() > 0 && v@[0] == 43 {
        v@.drop_first()
    } else {
        v@
    };
    proof {
        assert(d =~= v@.skip(start as int));
    }
    if n == start {
        return 0;
    }
    let mut acc: u64 = 0;
    let mut i: usize = start;
    while i < n
        invariant
            start <= i <= n,
            n == v@.len(),
            n > start,
            d == v@.skip(start as int),
            d == (if v@.len() > 0 && v@[0] == 43 {
                v@.drop_first()
            } else {
                v@
            }),
            d.len() == n - start,
            spec_all_digits(d.take(i - start as int)),
            acc == spec_dec_val(d.take(i - start as int)),
        decreases n - i,
    {
        let b = v[i];
        proof {
            assert(d[i - start as int] == v@[i as int]);
        }
        if b < 48 || b > 57 {
            proof {
                assert(!spec_all_digits(d));
            }
            return 0;
        }
        let dig: u64 = (b - 48) as u64;
        proof {
            assert(d.take(i - start as int + 1).drop_last() =~= d.take(i - start as int));
            assert(d.take(i - start as int + 1).last() == d[i - start as int]);
        }
        if acc > (u64::MAX - dig) / 10 {
            proof {
                let full = d.take(i - start as int + 1);
                assert(spec_all_digits(full));
                assert(spec_dec_val(full) == acc * 10 + dig);
                // acc > (MAX - dig) / 10 forces acc * 10 + dig > MAX
                vstd::arithmetic::div_mod::lemma_fundamental_div_mod(
                    u64::MAX - dig,
                    10,
                );
                assert(acc * 10 + dig > u64::MAX) by (nonlinear_arith)
                    requires
                        acc > ((u64::MAX - dig) as int) / 10,
                        (u64::MAX - dig) as int == 10 * (((u64::MAX - dig) as int) / 10) + (((
                        u64::MAX - dig) as int) % 10),
                        0 <= ((u64::MAX - dig) as int) % 10 < 10,
                        0 <= dig <= 9,
                ;
                if spec_all_digits(d) {
                    lemma_dec_val_prefix(d, i - start as int + 1);
                    assert(spec_dec_val(d) > u64::MAX);
                }
            }
            return 0;
        }
        proof {
            vstd::arithmetic::div_mod::lemma_fundamental_div_mod(u64::MAX - dig, 10);
            assert(acc * 10 + dig <= u64::MAX) by (nonlinear_arith)
                requires
                    acc <= ((u64::MAX - dig) as int) / 10,
                    (u64::MAX - dig) as int == 10 * (((u64::MAX - dig) as int) / 10) + (((u64::MAX
                        - dig) as int) % 10),
                    0 <= ((u64::MAX - dig) as int) % 10 < 10,
                    0 <= dig <= 9,
            ;
        }
        acc = acc * 10 + dig;
        i = i + 1;
    }
    proof {
        assert(d.take(n - start as int) =~= d);
    }
    acc
}

/// The views of a vector of byte vectors.
pub open spec fn lines_view(lv: Seq<Vec<u8>>) -> Seq<Seq<u8>> {
    lv.map_values(|v: Vec<u8>| v@)
}

/// The lines of a byte text, split at newline bytes. An empty text is one
/// empty line, and a trailing newline yields a final empty line; such
/// lines hold no counters and contribute nothing.
pub open spec fn spec_lines(s: Seq<u8>) -> Seq<Seq<u8>>
    decreases s.len(),
{
    let i = spec_find(s, 10);
    if 0 <= i && i < s.len() {
        seq![s.take(i)] + spec_lines(s.skip(i + 1))
    } else {
        seq![s]
    }
}

/// Splits the text into its lines.
pub fn split_lines(content: &Vec<u8>) -> (r: Vec<Vec<u8>>)
    ensures
        lines_view(r@) == spec_lines(content@),
{
    let n = content.len();
    let mut lines: Vec<Vec<u8>> = Vec::new();
    let mut start: usize = 0;
    proof {
        assert(content@.skip(0) =~= content@);
        assert(lines_view(lines@) =~= Seq::<Seq<u8>>::empty());
        assert(Seq::<Seq<u8>>::empty() + spec_lines(content@) =~= spec_lines(content@));
    }
    loop
        invariant
            start <= n,
            n == content@.len(),
            spec_lines(content@) == lines_view(lines@) + spec_lines(content@.skip(start as int)),
        decreases n - start,
    {
        let mut j: usize = start;
        while j < n && content[j] != 10
            invariant
                start <= j <= n,
                n == content@.len(),
                forall|k: int| start <= k < j ==> content@[k] != 10,
            decreases n - j,
        {
            j = j + 1;
        }
        let line = subvec(content, start, j);
        let ghost pre = lines@;
        lines.push(line);
        proof {
            let rest = content@.skip(start as int);
            lemma_find_props(rest, 10);
            assert forall|k: int| 0 <= k < j - start implies rest[k] != 10 by {
                assert(rest[k] == content@[k + start]);
            }
            if j < n {
                assert(rest[j - start] == content@[j as int]);
            }
            lemma_find_from_scan(rest, 10, j - start as int);
            assert(lines_view(lines@) =~= lines_view(pre).push(line@));
            if j < n {
                assert(rest.take(j - start as int) =~= content@.subrange(start as int, j as int));
                assert(rest.skip(j - start + 1) =~= content@.skip(j as int + 1));
                assert(spec_lines(rest) == seq![content@.subrange(start as int, j as int)]
                    + spec_lines(content@.skip(j as int + 1)));
                assert(lines_view(lines@) + spec_lines(content@.skip(j as int + 1))
                    =~= lines_view(pre) + spec_lines(rest));
            } else {
                assert(spec_lines(rest) == seq![rest]);
                assert(line@ == rest);
                assert(lines_view(lines@) =~= lines_view(pre) + spec_lines(rest));
            }
        }
        if j < n {
            start = j + 1;
        } else {
            return lines;
        }
    }
}

/// Index of the first whitespace byte, or -1 if there is none.
pub open spec fn spec_find_ws(s: Seq<u8>) -> int
    decreases s.len(),
{
    if s.len() == 0 {
        -1
    } else if spec_is_ws(s[0]) {
        0
    } else {
        let r = spec_find_ws(s.drop_first());
        if r < 0 {
            -1
        } else {
            r + 1
        }
    }
}

/// A scan that saw no whitespace before `d`, and whitespace at `d` (or ran
/// off the end), determines the first whitespace.
pub proof fn lemma_find_ws_from_scan(s: Seq<u8>, d: int)
    requires
        0 <= d <= s.len(),
        forall|j: int| 0 <= j < d ==> !spec_is_ws(#[trigger] s[j]),
        d < s.len() ==> spec_is_ws(s[d]),
    ensures
        spec_find_ws(s) == (if d == s.len() {
            -1int
        } else {
            d
        }),
    decreases s.len(),
{
    if s.len() > 0 {
        if d == 0 {
        } else {
            lemma_find_ws_from_scan(s.drop_first(), d - 1);
        }
    }
}

/// The whitespace-separated fields of a line, in order, each maximal and
/// non-empty.
pub open spec fn spec_fields(s: Seq<u8>) -> Seq<Seq<u8>>
    decreases s.len(),
{
    if s.len() == 0 {
        Seq::empty()
    } else if spec_is_ws(s[0]) {
        spec_fields(s.drop_first())
    } else {
        let e = spec_find_ws(s);
        if 0 <= e && e < s.len() {
            seq![s.take(e)] + spec_fields(s.skip(e))
        } else {
            seq![s]
        }
    }
}

/// Splits a line into its whitespace-separated fields.
pub fn fields(v: &Vec<u8>) -> (r: Vec<Vec<u8>>)
    ensures
        lines_view(r@) == spec_fields(v@),
{
    let n = v.len();
    let mut fs: Vec<Vec<u8>> = Vec::new();
    let mut pos: usize = 0;
    proof {
        assert(v@.skip(0) =~= v@);
        assert(lines_view(fs@) =~= Seq::<Seq<u8>>::empty());
        assert(Seq::<Seq<u8>>::empty() + spec_fields(v@) =~= spec_fields(v@));
    }
    while pos < n
        invariant
            pos <= n,
            n == v@.len(),
            spec_fields(v@) == lines_view(fs@) + spec_fields(v@.skip(pos as int)),
        decreases n - pos,
    {
        let b = v[pos];
        if b == 32 || b == 9 || b == 13 {
            proof {
                let rest = v@.skip(pos as int);
                assert(rest[0] == v@[pos as int]);
                assert(rest.drop_first() =~= v@.skip(pos as int + 1));
            }
            pos = pos + 1;
        } else {
            let mut j: usize = pos + 1;
            while j < n && !(v[j] == 32 || v[j] == 9 || v[j] == 13)
                invariant
                    pos < j <= n,
                    n == v@.len(),
                    forall|k: int| pos <= k < j ==> !spec_is_ws(#[trigger] v@[k]),
                decreases n - j,
            {
                j = j + 1;
            }
            let field = subvec(v, pos, j);
            let ghost pre = fs@;
            fs.push(field);
            proof {
                let rest = v@.skip(pos as int);
                assert forall|k: int| 0 <= k < j - pos implies !spec_is_ws(#[trigger] rest[k]) by {
                    assert(rest[k] == v@[k + pos]);
                }
                if j < n {
                    assert(rest[j - pos] == v@[j as int]);
                }
                lemma_find_ws_from_scan(rest, j - pos as int);
                assert(!spec_is_ws(rest[0]));
                assert(lines_view(fs@) =~= lines_view(pre).push(field@));
                if j < n {
                    assert(rest.take(j - pos as int) =~= v@.subrange(pos as int, j as int));
                    assert(rest.skip(j - pos as int) =~= v@.skip(j as int));
                    assert(spec_fields(rest) == seq![v@.subrange(pos as int, j as int)]
                        + spec_fields(v@.skip(j as int)));
                    assert(lines_view(fs@) + spec_fields(v@.skip(j as int)) =~= lines_view(pre)
                        + spec_fields(rest));
                } else {
                    assert(spec_fields(rest) == seq![rest]);
                    assert(field@ == rest);
                    assert(v@.skip(j as int).len() == 0);
                    assert(spec_fields(v@.skip(j as int)) =~= Seq::<Seq<u8>>::empty());
                    assert(lines_view(fs@) + spec_fields(v@.skip(j as int)) =~= lines_view(pre)
                        + spec_fields(rest));
                }
            }
            pos = j;
        }
    }
    proof {
        assert(v@.skip(n as int).len() == 0);
        assert(spec_fields(v@.skip(n as int)) =~= Seq::<Seq<u8>>::empty());
        assert(lines_view(fs@) + spec_fields(v@.skip(n as int)) =~= lines_view(fs@));
    }
    fs
}

/// Saturating 64-bit sum.
pub open spec fn spec_sat_add(a: int, b: int) -> int {
    if a + b > u64::MAX {
        u64::MAX as int
    } else {
        a + b
    }
}

/// What one line of the network counters table contributes to the totals:
/// the received and transmitted byte counters (the first and ninth fields
/// after the interface name), except that the loopback interface and lines
/// without the expected shape contribute nothing.
pub open spec fn spec_net_line(line: Seq<u8>) -> (int, int) {
    let t = spec_trim(line);
    let c = spec_find(t, 58);
    if 0 <= c && c < t.len() {
        let iface = spec_trim(t.take(c));
        if iface == seq![108u8, 111u8] {
            (0, 0)
        } else {
            let fs = spec_fields(t.skip(c + 1));
            if fs.len() >= 9 {
                (spec_parse_or_zero(fs[0]), spec_parse_or_zero(fs[8]))
            } else {
                (0, 0)
            }
        }
    } else {
        (0, 0)
    }
}

/// Totals of the first `i` lines of the network counters table; the first
/// two lines are headers and contribute nothing.
pub open spec fn spec_net_upto(lines: Seq<Seq<u8>>, i: int) -> (int, int)
    decreases i,
{
    if i <= 2 {
        (0, 0)
    } else {
        let prev = spec_net_upto(lines, i - 1);
        let c = spec_net_line(lines[i - 1]);
        (spec_sat_add(prev.0, c.0), spec_sat_add(prev.1, c.1))
    }
}

/// Total received and transmitted bytes over all non-loopback interfaces
/// of the network counters table.
pub open spec fn spec_net_totals(s: Seq<u8>) -> (int, int) {
    spec_net_upto(spec_lines(s), spec_lines(s).len() as int)
}

/// What one line contributes to the network totals.
fn net_line(line: &Vec<u8>) -> (r: (u64, u64))
    ensures
        r.0 == spec_net_line(line@).0,
        r.1 == spec_net_line(line@).1,
{
    let t = trim(line);
    let n = t.len();
    let mut c: usize = 0;
    while c < n && t[c] != 58
        invariant
            c <= n,
            n == t@.len(),
            forall|k: int| 0 <= k < c ==> t@[k] != 58,
        decreases n - c,
    {
        c = c + 1;
    }
    proof {
        if c < n {
            assert(t@[c as int] == 58);
        }
        lemma_find_from_scan(t@, 58, c as int);
    }
    if c >= n {
        return (0, 0);
    }
    let iface_raw = subvec(&t, 0, c);
    proof {
        assert(iface_raw@ =~= t@.take(c as int));
    }
    let iface = trim(&iface_raw);
    if iface.len() == 2 && iface[0] == 108 && iface[1] == 111 {
        proof {
            assert(iface@ =~= seq![108u8, 111u8]);
        }
        return (0, 0);
    }
    proof {
        assert(iface@ != seq![108u8, 111u8]) by {
            if iface@ == seq![108u8, 111u8] {
                assert(iface@.len() == 2);
                assert(iface@[0] == 108 && iface@[1] == 111);
            }
        }
    }
    let stats = subvec(&t, c + 1, n);
    proof {
        assert(stats@ =~= t@.skip(c as int + 1));
    }
    let fs = fields(&stats);
    if fs.len() >= 9 {
        proof {
            assert(lines_view(fs@)[0] == fs@[0]@);
            assert(lines_view(fs@)[8] == fs@[8]@);
        }
        (parse_or_zero(&fs[0]), parse_or_zero(&fs[8]))
    } else {
        (0, 0)
    }
}

/// Sums the received and transmitted byte counters over all non-loopback
/// interfaces of the network counters table, given that table's raw text;
/// the two header lines are skipped, malformed fields read as zero, and
/// the sums saturate.
pub fn read_net_bytes(content: &Vec<u8>) -> (r: (u64, u64))
    ensures
        r.0 == spec_net_totals(content@).0,
        r.1 == spec_net_totals(content@).1,
{
    let lines = split_lines(content);
    let ghost lv = lines_view(lines@);
    let mut rx: u64 = 0;
    let mut tx: u64 = 0;
    let mut i: usize = 2;
    if lines.len() < 2 {
        proof {
            assert(spec_net_upto(lv, lv.len() as int) == (0int, 0int));
        }
        return (0, 0);
    }
    while i < lines.len()
        invariant
            2 <= i <= lines@.len(),
            lv == lines_view(lines@),
            rx == spec_net_upto(lv, i as int).0,
            tx == spec_net_upto(lv, i as int).1,
        decreases lines@.len() - i,
    {
        let c = net_line(&lines[i]);
        proof {
            assert(lv[i as int] == lines@[i as int]@);
        }
        rx = rx.saturating_add(c.0);
        tx = tx.saturating_add(c.1);
        i = i + 1;
    }
    (rx, tx)
}


/// Index of the last occurrence of `b`, or -1 if absent.
pub open spec fn spec_rfind(s: Seq<u8>, b: u8) -> int
    decreases s.len(),
{
    if s.len() == 0 {
        -1
    } else if s.last() == b {
        s.len() - 1
    } else {
        spec_rfind(s.drop_last(), b)
    }
}

/// A scan from the end that saw no `b` after `d`, and `b` at `d` (or
/// reached the front with none), determines the last occurrence.
pub proof fn lemma_rfind_from_scan(s: Seq<u8>, b: u8, d: int)
    requires
        -1 <= d < s.len(),
        forall|j: int| d < j < s.len() ==> s[j] != b,
        d >= 0 ==> s[d] == b,
    ensures
        spec_rfind(s, b) == d,
    decreases s.len(),
{
    if s.len() > 0 && d < s.len() - 1 {
        assert(s.last() != b);
        lemma_rfind_from_scan(s.drop_last(), b, d);
    }
}

/// The sequence begins with the given prefix.
pub open spec fn spec_starts_with(s: Seq<u8>, p: Seq<u8>) -> bool {
    s.len() >= p.len() && s.take(p.len() as int) == p
}

/// Whether the name begins with the three given bytes.
fn prefix3(name: &Vec<u8>, a: u8, b: u8, c: u8) -> (r: bool)
    ensures
        r == spec_starts_with(name@, seq![a, b, c]),
{
    if name.len() >= 3 && name[0] == a && name[1] == b && name[2] == c {
        proof {
            assert(name@.take(3) =~= seq![a, b, c]);
        }
        true
    } else {
        proof {
            if spec_starts_with(name@, seq![a, b, c]) {
                assert(name@.take(3)[0] == name@[0]);
                assert(name@.take(3)[1] == name@[1]);
                assert(name@.take(3)[2] == name@[2]);
            }
        }
        false
    }
}

/// Whether the name begins with the four given bytes.
fn prefix4(name: &Vec<u8>, a: u8, b: u8, c: u8, d: u8) -> (r: bool)
    ensures
        r == spec_starts_with(name@, seq![a, b, c, d]),
{
    if name.len() >= 4 && name[0] == a && name[1] == b && name[2] == c && name[3] == d {
        proof {
            assert(name@.take(4) =~= seq![a, b, c, d]);
        }
        true
    } else {
        proof {
            if spec_starts_with(name@, seq![a, b, c, d]) {
                assert(name@.take(4)[0] == name@[0]);
                assert(name@.take(4)[1] == name@[1]);
                assert(name@.take(4)[2] == name@[2]);
                assert(name@.take(4)[3] == name@[3]);
            }
        }
        false
    }
}

/// Whether every byte from `from` on is a decimal digit.
fn all_digits_from(name: &Vec<u8>, from: usize) -> (r: bool)
    requires
        from <= name@.len(),
    ensures
        r == spec_all_digits(name@.skip(from as int)),
{
    let n = name.len();
    let mut k = from;
    while k < n
        invariant
            from <= k <= n,
            n == name@.len(),
            forall|j: int| from <= j < k ==> 48 <= #[trigger] name@[j] <= 57,
        decreases n - k,
    {
        let b = name[k];
        if b < 48 || b > 57 {
            proof {
                assert(name@.skip(from as int)[k - from] == name@[k as int]);
            }
            return false;
        }
        k = k + 1;
    }
    proof {
        assert forall|j: int| 0 <= j < name@.skip(from as int).len() implies 48 <= #[trigger] name@.skip(
            from as int,
        )[j] <= 57 by {
            assert(name@.skip(from as int)[j] == name@[j + from]);
        }
    }
    true
}

/// Whether a block-device name denotes a partition rather than a whole
/// device: a name after the nvme prefix whose last `p` is followed only by
/// digits, or any other name longer than three bytes ending in digits.
pub open spec fn spec_is_partition(name: Seq<u8>) -> bool {
    if spec_starts_with(name, seq![110u8, 118u8, 109u8, 101u8]) {
        let pos = spec_rfind(name, 112);
        pos > 0 && pos + 1 < name.len() && spec_all_digits(name.skip(pos + 1))
    } else {
        name.len() > 3 && spec_all_digits(name.skip(3))
    }
}

/// Whether the name denotes a partition; see `spec_is_partition`.
fn is_partition(name: &Vec<u8>) -> (r: bool)
    ensures
        r == spec_is_partition(name@),
{
    if prefix4(name, 110, 118, 109, 101) {
        let n = name.len();
        let mut j = n;
        while j > 0 && name[j - 1] != 112
            invariant
                j <= n,
                n == name@.len(),
                forall|k: int| j <= k < n ==> name@[k] != 112,
            decreases j,
        {
            j = j - 1;
        }
        proof {
            if j > 0 {
                lemma_rfind_from_scan(name@, 112, j - 1);
            } else {
                lemma_rfind_from_scan(name@, 112, -1);
            }
        }
        if j > 1 && j < n {
            all_digits_from(name, j)
        } else {
            false
        }
    } else {
        let n = name.len();
        if n > 3 {
            all_digits_from(name, 3)
        } else {
            false
        }
    }
}

/// `v` sectors of 512 bytes, saturating at the 64-bit limit.
pub open spec fn spec_sat_mul512(v: int) -> int {
    if v * 512 > u64::MAX {
        u64::MAX as int
    } else {
        v * 512
    }
}

/// Multiplies a sector count by 512, saturating.
fn sat_mul512(v: u64) -> (r: u64)
    ensures
        r == spec_sat_mul512(v as int),
{
    proof {
        vstd::arithmetic::div_mod::lemma_fundamental_div_mod(u64::MAX as int, 512);
    }
    if v > u64::MAX / 512 {
        proof {
            assert(v * 512 > u64::MAX) by (nonlinear_arith)
                requires
                    v > (u64::MAX as int) / 512,
                    u64::MAX as int == 512 * ((u64::MAX as int) / 512) + ((u64::MAX as int)
                        % 512),
                    0 <= (u64::MAX as int) % 512 < 512,
            ;
        }
        u64::MAX
    } else {
        proof {
            assert(v * 512 <= u64::MAX) by (nonlinear_arith)
                requires
                    v <= (u64::MAX as int) / 512,
                    u64::MAX as int == 512 * ((u64::MAX as int) / 512) + ((u64::MAX as int)
                        % 512),
                    0 <= (u64::MAX as int) % 512 < 512,
            ;
        }
        v * 512
    }
}

/// What one line of the disk counters table contributes to the totals:
/// sectors read and written (the sixth and tenth fields) times 512 bytes,
/// except that loop devices, device-mapper devices, partitions and lines
/// without the expected shape contribute nothing.
pub open spec fn spec_disk_line(line: Seq<u8>) -> (int, int) {
    let fs = spec_fields(line);
    if fs.len() >= 14 {
        let name = fs[2];
        if spec_starts_with(name, seq![108u8, 111u8, 111u8, 112u8]) || spec_starts_with(
            name,
            seq![100u8, 109u8, 45u8],
        ) || spec_is_partition(name) {
            (0, 0)
        } else {
            (
                spec_sat_mul512(spec_parse_or_zero(fs[5])),
                spec_sat_mul512(spec_parse_or_zero(fs[9])),
            )
        }
    } else {
        (0, 0)
    }
}

/// Totals of the first `i` lines of the disk counters table.
pub open spec fn spec_disk_upto(lines: Seq<Seq<u8>>, i: int) -> (int, int)
    decreases i,
{
    if i <= 0 {
        (0, 0)
    } else {
        let prev = spec_disk_upto(lines, i - 1);
        let c = spec_disk_line(lines[i - 1]);
        (spec_sat_add(prev.0, c.0), spec_sat_add(prev.1, c.1))
    }
}

/// Total bytes read and written over all whole physical devices of the
/// disk counters table.
pub open spec fn spec_disk_totals(s: Seq<u8>) -> (int, int) {
    spec_disk_upto(spec_lines(s), spec_lines(s).len() as int)
}

/// What one line contributes to the disk totals.
fn disk_line(line: &Vec<u8>) -> (r: (u64, u64))
    ensures
        r.0 == spec_disk_line(line@).0,
        r.1 == spec_disk_line(line@).1,
{
    let fs = fields(line);
    if fs.len() >= 14 {
        proof {
            assert(lines_view(fs@)[2] == fs@[2]@);
            assert(lines_view(fs@)[5] == fs@[5]@);
            assert(lines_view(fs@)[9] == fs@[9]@);
        }
        let skip_dev = {
            let name = &fs[2];
            prefix4(name, 108, 111, 111, 112) || prefix3(name, 100, 109, 45) || is_partition(
                name,
            )
        };
        if skip_dev {
            (0, 0)
        } else {
            let rd = parse_or_zero(&fs[5]);
            let wr = parse_or_zero(&fs[9]);
            (sat_mul512(rd), sat_mul512(wr))
        }
    } else {
        (0, 0)
    }
}

/// Sums bytes read and written over all whole physical devices of the
/// disk counters table, given that table's raw text; loop devices,
/// device-mapper devices and partitions are skipped, malformed fields
/// read as zero, and the sums saturate.
pub fn read_disk_bytes(content: &Vec<u8>) -> (r: (u64, u64))
    ensures
        r.0 == spec_disk_totals(content@).0,
        r.1 == spec_disk_totals(content@).1,
{
    let lines = split_lines(content);
    let ghost lv = lines_view(lines@);
    let mut rd: u64 = 0;
    let mut wr: u64 = 0;
    let mut i: usize = 0;
    while i < lines.len()
        invariant
            i <= lines@.len(),
            lv == lines_view(lines@),
            rd == spec_disk_upto(lv, i as int).0,
            wr == spec_disk_upto(lv, i as int).1,
        decreases lines@.len() - i,
    {
        let c = disk_line(&lines[i]);
        proof {
            assert(lv[i as int] == lines@[i as int]@);
        }
        rd = rd.saturating_add(c.0);
        wr = wr.saturating_add(c.1);
        i = i + 1;
    }
    (rd, wr)
}

} // verus!
