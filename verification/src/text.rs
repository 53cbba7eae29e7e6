//! Small verified text utilities shared by the SQL builder and the driver
//! factory: string comparison, joining, and decimal rendering of integers.

use vstd::prelude::*;

verus! {

/// Compare two string slices by their character sequences.
pub fn str_eq(a: &str, b: &str) -> (r: bool)
    ensures
        r == (a@ == b@),
{
    let la: usize = a.unicode_len();
    let lb: usize = b.unicode_len();
    if la != lb {
        proof {
            assert(a@ != b@) by {
                if a@ == b@ {
                    assert(a@.len() == b@.len());
                }
            }
        }
        return false;
    }
    let mut i: usize = 0;
    while i < la
        invariant
            la == a@.len(),
            la == b@.len(),
            i <= la,
            forall|k: int| 0 <= k < i ==> a@[k] == b@[k],
        decreases la - i,
    {
        let ca = a.get_char(i);
        let cb = b.get_char(i);
        if ca != cb {
            proof {
                assert(a@ != b@) by {
                    if a@ == b@ {
                        assert(a@[i as int] == b@[i as int]);
                    }
                }
            }
            return false;
        }
        i = i + 1;
    }
    proof {
        assert(a@ =~= b@);
    }
    true
}

/// The character for one decimal digit.
pub open spec fn digit_char(d: int) -> char {
    if d == 0 { '0' }
    else if d == 1 { '1' }
    else if d == 2 { '2' }
    else if d == 3 { '3' }
    else if d == 4 { '4' }
    else if d == 5 { '5' }
    else if d == 6 { '6' }
    else if d == 7 { '7' }
    else if d == 8 { '8' }
    else { '9' }
}

/// Decimal rendering of a natural number, most significant digit first.
pub open spec fn spec_dec_nat(n: nat) -> Seq<char>
    decreases n,
{
    if n < 10 {
        seq![digit_char(n as int)]
    } else {
        spec_dec_nat(n / 10) + seq![digit_char((n % 10) as int)]
    }
}

/// Decimal rendering of a signed integer: a minus sign before the rendering
/// of the magnitude when negative.
pub open spec fn spec_dec_int(i: int) -> Seq<char> {
    if i < 0 {
        seq!['-'] + spec_dec_nat((-i) as nat)
    } else {
        spec_dec_nat(i as nat)
    }
}

/// The decimal digits of the remaining quotient `m`, followed by the already
/// collected digits `ds` (least significant first) rendered in output order.
spec fn digits_out(ds: Seq<u8>) -> Seq<char>
    decreases ds.len(),
{
    if ds.len() == 0 {
        Seq::<char>::empty()
    } else {
        seq![digit_char(ds.last() as int)] + digits_out(ds.drop_last())
    }
}

/// A one-character string for a decimal digit.
fn digit_str(d: u64) -> (r: &'static str)
    requires
        d < 10,
    ensures
        r@ == seq![digit_char(d as int)],
{
    proof {
        reveal_strlit("0");
        reveal_strlit("1");
        reveal_strlit("2");
        reveal_strlit("3");
        reveal_strlit("4");
        reveal_strlit("5");
        reveal_strlit("6");
        reveal_strlit("7");
        reveal_strlit("8");
        reveal_strlit("9");
    }
    let r = if d == 0 { "0" }
    else if d == 1 { "1" }
    else if d == 2 { "2" }
    else if d == 3 { "3" }
    else if d == 4 { "4" }
    else if d == 5 { "5" }
    else if d == 6 { "6" }
    else if d == 7 { "7" }
    else if d == 8 { "8" }
    else { "9" };
    proof {
        assert(r@ =~= seq![digit_char(d as int)]);
    }
    r
}

/// Render an unsigned integer in decimal.
pub fn format_u64(n: u64) -> (r: String)
    ensures
        r@ == spec_dec_nat(n as nat),
{
    if n < 10 {
        let r = String::from_str(digit_str(n));
        return r;
    }
    let mut ds: Vec<u8> = Vec::new();
    let mut m: u64 = n;
    proof {
        assert(digits_out(ds@) =~= Seq::<char>::empty());
        assert(spec_dec_nat(m as nat) + digits_out(ds@) =~= spec_dec_nat(n as nat));
    }
    while m > 0
        invariant
            if m > 0 {
                spec_dec_nat(n as nat) == spec_dec_nat(m as nat) + digits_out(ds@)
            } else {
                spec_dec_nat(n as nat) == digits_out(ds@)
            },
            forall|k: int| 0 <= k < ds@.len() ==> ds@[k] < 10,
        decreases m,
    {
        let d: u8 = (m % 10) as u8;
        let ghost old_ds = ds@;
        let ghost old_m = m as nat;
        ds.push(d);
        m = m / 10;
        proof {
            assert(ds@.last() == d);
            assert(ds@.drop_last() =~= old_ds);
            assert(digits_out(ds@) == seq![digit_char(d as int)] + digits_out(old_ds));
            if old_m < 10 {
                assert(m == 0);
                assert(d as int == old_m);
                assert(spec_dec_nat(old_m) =~= seq![digit_char(d as int)]);
                assert(digits_out(ds@) =~= spec_dec_nat(old_m) + digits_out(old_ds));
            } else {
                assert(spec_dec_nat(old_m)
                    == spec_dec_nat(old_m / 10) + seq![digit_char((old_m % 10) as int)]);
                assert(spec_dec_nat(old_m / 10) + digits_out(ds@)
                    =~= spec_dec_nat(old_m) + digits_out(old_ds));
            }
        }
    }
    let mut r = String::new();
    let mut left: usize = ds.len();
    proof {
        assert(ds@.take(left as int) =~= ds@);
        assert(r@ + digits_out(ds@.take(left as int)) =~= digits_out(ds@));
    }
    while left > 0
        invariant
            left <= ds@.len(),
            forall|k: int| 0 <= k < ds@.len() ==> ds@[k] < 10,
            spec_dec_nat(n as nat) == r@ + digits_out(ds@.take(left as int)),
        decreases left,
    {
        let d = ds[left - 1];
        let ghost old_r = r@;
        r.append(digit_str(d as u64));
        left = left - 1;
        proof {
            assert(ds@.take(left + 1).last() == ds@[left as int]);
            assert(ds@.take(left + 1).drop_last() =~= ds@.take(left as int));
            assert(digits_out(ds@.take(left + 1))
                == seq![digit_char(d as int)] + digits_out(ds@.take(left as int)));
            assert(r@ + digits_out(ds@.take(left as int))
                =~= old_r + digits_out(ds@.take(left + 1)));
        }
    }
    proof {
        assert(ds@.take(0) =~= Seq::<u8>::empty());
        assert(r@ + digits_out(ds@.take(0)) =~= r@);
    }
    r
}

/// Render a signed integer in decimal.
pub fn format_i64(i: i64) -> (r: String)
    ensures
        r@ == spec_dec_int(i as int),
{
    if i >= 0 {
        format_u64(i as u64)
    } else {
        let mag: u64 = if i == i64::MIN {
            9223372036854775808u64
        } else {
            (0 - i) as u64
        };
        proof {
            assert(mag as nat == (-(i as int)) as nat);
        }
        let mut r = String::from_str("-");
        let tail = format_u64(mag);
        let ghost r_pre = r@;
        r.append(tail.as_str());
        proof {
            reveal_strlit("-");
            assert(r_pre =~= seq!['-']);
            assert(r@ =~= seq!['-'] + spec_dec_nat(mag as nat));
        }
        r
    }
}

/// A character lowered: an ASCII capital letter becomes its small form,
/// every other character is kept.
pub open spec fn lower_char(c: char) -> char {
    if 'A' <= c && c <= 'Z' {
        (((c as u8) + 32) as char)
    } else {
        c
    }
}

/// `s` with every ASCII capital letter lowered.
pub open spec fn spec_lower(s: Seq<char>) -> Seq<char> {
    s.map_values(|c: char| lower_char(c))
}

/// Compare two string slices ignoring ASCII case.
pub fn eq_ignore_ascii_case(a: &str, b: &str) -> (r: bool)
    ensures
        r == (spec_lower(a@) == spec_lower(b@)),
{
    let la: usize = a.unicode_len();
    let lb: usize = b.unicode_len();
    if la != lb {
        proof {
            assert(spec_lower(a@) != spec_lower(b@)) by {
                if spec_lower(a@) == spec_lower(b@) {
                    assert(spec_lower(a@).len() == spec_lower(b@).len());
                }
            }
        }
        return false;
    }
    let mut i: usize = 0;
    while i < la
        invariant
            la == a@.len(),
            la == b@.len(),
            i <= la,
            forall|k: int| 0 <= k < i ==> lower_char(#[trigger] a@[k]) == lower_char(b@[k]),
        decreases la - i,
    {
        let ca0 = a.get_char(i);
        let cb0 = b.get_char(i);
        let ca = if 'A' <= ca0 && ca0 <= 'Z' {
            (((ca0 as u32) + 32) as u8) as char
        } else {
            ca0
        };
        let cb = if 'A' <= cb0 && cb0 <= 'Z' {
            (((cb0 as u32) + 32) as u8) as char
        } else {
            cb0
        };
        if ca != cb {
            proof {
                assert(spec_lower(a@) != spec_lower(b@)) by {
                    if spec_lower(a@) == spec_lower(b@) {
                        assert(spec_lower(a@)[i as int] == spec_lower(b@)[i as int]);
                        assert(lower_char(a@[i as int]) == lower_char(b@[i as int]));
                    }
                }
            }
            return false;
        }
        i = i + 1;
    }
    proof {
        assert(spec_lower(a@) =~= spec_lower(b@));
    }
    true
}

/// The elements of `parts` concatenated with `sep` between neighbours.
pub open spec fn seq_join(parts: Seq<Seq<char>>, sep: Seq<char>) -> Seq<char>
    decreases parts.len(),
{
    if parts.len() == 0 {
        Seq::<char>::empty()
    } else if parts.len() == 1 {
        parts[0]
    } else {
        seq_join(parts.drop_last(), sep) + sep + parts.last()
    }
}

/// Join a list of strings with a separator between neighbours.
pub fn join_with(parts: &Vec<String>, sep: &str) -> (r: String)
    ensures
        r@ == seq_join(parts@.map_values(|p: String| p@), sep@),
{
    let ghost views = parts@.map_values(|p: String| p@);
    let mut r = String::new();
    let mut i: usize = 0;
    proof {
        assert(views.take(0) =~= Seq::<Seq<char>>::empty());
        assert(r@ =~= seq_join(views.take(0), sep@));
    }
    while i < parts.len()
        invariant
            views == parts@.map_values(|p: String| p@),
            views.len() == parts@.len(),
            i <= parts@.len(),
            r@ == seq_join(views.take(i as int), sep@),
        decreases parts@.len() - i,
    {
        let ghost old_r = r@;
        if i > 0 {
            r.append(sep);
        }
        r.append(parts[i].as_str());
        proof {
            assert(views.take(i + 1).last() == views[i as int]);
            assert(views.take(i + 1).drop_last() =~= views.take(i as int));
            if i > 0 {
                assert(r@ =~= seq_join(views.take(i as int), sep@) + sep@ + views[i as int]);
            } else {
                assert(views.take(1) =~= seq![views[0]]);
                assert(r@ =~= views[0]);
            }
        }
        i = i + 1;
    }
    proof {
        assert(views.take(parts@.len() as int) =~= views);
    }
    r
}

/// The digits of a decimal integer literal: the characters after an optional
/// leading sign.
pub open spec fn dec_body(s: Seq<char>) -> Seq<char> {
    if s.len() > 0 && (s[0] == '-' || s[0] == '+') {
        s.skip(1)
    } else {
        s
    }
}

/// Whether every character of `s` is a decimal digit.
pub open spec fn all_digits(s: Seq<char>) -> bool {
    forall|k: int| 0 <= k < s.len() ==> is_digit_char(#[trigger] s[k])
}

/// Whether a character counts as white space.
pub uninterp spec fn white_space(c: char) -> bool;

/// Relies on char::is_whitespace: whether the character has the Unicode
/// white-space property, a function of the character alone.
pub assume_specification[ char::is_whitespace ](c: char) -> (r: bool)
    ensures
        r == white_space(c),
;

/// `s` without its leading white space.
pub open spec fn spec_trim_start(s: Seq<char>) -> Seq<char>
    decreases s.len(),
{
    if s.len() > 0 && white_space(s[0]) {
        spec_trim_start(s.skip(1))
    } else {
        s
    }
}

/// `s` without its trailing white space.
pub open spec fn spec_trim_end(s: Seq<char>) -> Seq<char>
    decreases s.len(),
{
    if s.len() > 0 && white_space(s.last()) {
        spec_trim_end(s.drop_last())
    } else {
        s
    }
}

/// `s` without its leading and trailing white space.
pub open spec fn spec_trim(s: Seq<char>) -> Seq<char> {
    spec_trim_end(spec_trim_start(s))
}

/// Copy `s` without its leading and trailing white space.
pub fn trim_of(s: &str) -> (r: String)
    ensures
        r@ == spec_trim(s@),
{
    let len: usize = s.unicode_len();
    let mut start: usize = 0;
    proof {
        assert(s@.skip(0) =~= s@);
    }
    while start < len && s.get_char(start).is_whitespace()
        invariant
            len == s@.len(),
            start <= len,
            spec_trim_start(s@) == spec_trim_start(s@.skip(start as int)),
        decreases len - start,
    {
        proof {
            assert(s@.skip(start as int)[0] == s@[start as int]);
            assert(s@.skip(start as int).skip(1) =~= s@.skip(start + 1));
        }
        start = start + 1;
    }
    let ghost t = s@.skip(start as int);
    proof {
        if start < len {
            assert(t[0] == s@[start as int]);
            assert(spec_trim_start(t) == t);
        } else {
            assert(t.len() == 0);
        }
        assert(spec_trim_start(s@) == t);
        assert(t.take((len - start) as int) =~= t);
    }
    let mut end: usize = len;
    while end > start && s.get_char(end - 1).is_whitespace()
        invariant
            len == s@.len(),
            start <= end <= len,
            t == s@.skip(start as int),
            spec_trim_end(t) == spec_trim_end(t.take((end - start) as int)),
        decreases end,
    {
        proof {
            assert(t.take((end - start) as int).last() == s@[end - 1]);
            assert(t.take((end - start) as int).drop_last() =~= t.take((end - 1 - start) as int));
        }
        end = end - 1;
    }
    proof {
        if end > start {
            assert(t.take((end - start) as int).last() == s@[end - 1]);
            assert(spec_trim_end(t.take((end - start) as int)) == t.take((end - start) as int));
        } else {
            assert(t.take(0).len() == 0);
        }
    }
    let r = String::from_str(s.substring_char(start, end));
    proof {
        assert(s@.subrange(start as int, end as int) =~= t.take((end - start) as int));
    }
    r
}

/// Whether `p` occurs in `s` at position `pos`.
fn matches_at(s: &str, p: &str, pos: usize, s_len: usize, p_len: usize) -> (r: bool)
    requires
        s_len == s@.len(),
        p_len == p@.len(),
        pos + p_len <= s_len,
    ensures
        r == (s@.subrange(pos as int, pos + p@.len()) == p@),
{
    let mut j: usize = 0;
    while j < p_len
        invariant
            s_len == s@.len(),
            p_len == p@.len(),
            pos + p_len <= s_len,
            j <= p_len,
            forall|k: int| 0 <= k < j ==> s@[pos + k] == p@[k],
        decreases p_len - j,
    {
        if s.get_char(pos + j) != p.get_char(j) {
            proof {
                assert(s@.subrange(pos as int, pos + p@.len()) != p@) by {
                    if s@.subrange(pos as int, pos + p@.len()) == p@ {
                        assert(s@.subrange(pos as int, pos + p@.len())[j as int] == p@[j as int]);
                    }
                }
            }
            return false;
        }
        j = j + 1;
    }
    proof {
        assert(s@.subrange(pos as int, pos + p@.len()) =~= p@);
    }
    true
}

/// `s` with every copy of the prefix `p` removed from its front.
pub open spec fn spec_strip_prefix_rep(s: Seq<char>, p: Seq<char>) -> Seq<char>
    decreases s.len(),
{
    if p.len() > 0 && s.len() >= p.len() && s.take(p.len() as int) == p {
        spec_strip_prefix_rep(s.skip(p.len() as int), p)
    } else {
        s
    }
}

/// `s` with every copy of the suffix `p` removed from its end.
pub open spec fn spec_strip_suffix_rep(s: Seq<char>, p: Seq<char>) -> Seq<char>
    decreases s.len(),
{
    if p.len() > 0 && s.len() >= p.len() && s.skip(s.len() - p.len()) == p {
        spec_strip_suffix_rep(s.take(s.len() - p.len()), p)
    } else {
        s
    }
}

/// Copy `s` with every copy of the prefix `p` removed from its front.
pub fn strip_prefix_rep(s: &str, p: &str) -> (r: String)
    ensures
        r@ == spec_strip_prefix_rep(s@, p@),
{
    let len: usize = s.unicode_len();
    let p_len: usize = p.unicode_len();
    if p_len == 0 {
        return String::from_str(s);
    }
    let mut pos: usize = 0;
    proof {
        assert(s@.skip(0) =~= s@);
    }
    while len - pos >= p_len && matches_at(s, p, pos, len, p_len)
        invariant
            len == s@.len(),
            p_len == p@.len(),
            p_len > 0,
            pos <= len,
            spec_strip_prefix_rep(s@, p@) == spec_strip_prefix_rep(s@.skip(pos as int), p@),
        decreases len - pos,
    {
        proof {
            assert(s@.skip(pos as int).take(p@.len() as int)
                =~= s@.subrange(pos as int, pos + p@.len()));
            assert(s@.skip(pos as int).skip(p@.len() as int) =~= s@.skip(pos + p@.len()));
        }
        pos = pos + p_len;
    }
    proof {
        let rest = s@.skip(pos as int);
        if len - pos >= p_len {
            assert(rest.take(p@.len() as int) =~= s@.subrange(pos as int, pos + p@.len()));
            assert(spec_strip_prefix_rep(rest, p@) == rest);
        } else {
            assert(rest.len() < p@.len());
        }
    }
    let r = String::from_str(s.substring_char(pos, len));
    proof {
        assert(s@.subrange(pos as int, len as int) =~= s@.skip(pos as int));
    }
    r
}

/// Copy `s` with every copy of the suffix `p` removed from its end.
pub fn strip_suffix_rep(s: &str, p: &str) -> (r: String)
    ensures
        r@ == spec_strip_suffix_rep(s@, p@),
{
    let len: usize = s.unicode_len();
    let p_len: usize = p.unicode_len();
    if p_len == 0 {
        return String::from_str(s);
    }
    let mut end: usize = len;
    proof {
        assert(s@.take(len as int) =~= s@);
    }
    while end >= p_len && matches_at(s, p, end - p_len, len, p_len)
        invariant
            len == s@.len(),
            p_len == p@.len(),
            p_len > 0,
            end <= len,
            spec_strip_suffix_rep(s@, p@) == spec_strip_suffix_rep(s@.take(end as int), p@),
        decreases end,
    {
        proof {
            let cur = s@.take(end as int);
            assert(cur.skip(cur.len() - p@.len())
                =~= s@.subrange(end - p@.len(), end as int));
            assert(cur.take(cur.len() - p@.len()) =~= s@.take(end - p@.len()));
        }
        end = end - p_len;
    }
    proof {
        let cur = s@.take(end as int);
        if end >= p_len {
            assert(cur.skip(cur.len() - p@.len())
                =~= s@.subrange(end - p@.len(), end as int));
            assert(spec_strip_suffix_rep(cur, p@) == cur);
        } else {
            assert(cur.len() < p@.len());
        }
    }
    let r = String::from_str(s.substring_char(0, end));
    proof {
        assert(s@.subrange(0, end as int) =~= s@.take(end as int));
    }
    r
}

/// Whether `s` is a decimal integer literal: an optional sign followed by at
/// least one digit.
pub open spec fn is_dec_int_literal(s: Seq<char>) -> bool {
    dec_body(s).len() > 0 && all_digits(dec_body(s))
}

/// Whether a character is a decimal digit.
pub open spec fn is_digit_char(c: char) -> bool {
    '0' <= c <= '9'
}

/// The numeric value of one decimal digit character.
pub open spec fn digit_val(c: char) -> nat {
    (c as int - '0' as int) as nat
}

/// The numeric value of a sequence of decimal digits.
pub open spec fn dec_digits_value(s: Seq<char>) -> nat
    decreases s.len(),
{
    if s.len() == 0 {
        0
    } else {
        dec_digits_value(s.drop_last()) * 10 + digit_val(s.last())
    }
}

/// The integer value of a decimal integer literal.
pub open spec fn dec_int_value(s: Seq<char>) -> int {
    if s.len() > 0 && s[0] == '-' {
        -(dec_digits_value(dec_body(s)) as int)
    } else {
        dec_digits_value(dec_body(s)) as int
    }
}

/// Parse a decimal integer literal, as the database index of a key-value
/// backend is parsed out of its configured database name.  Returns `None`
/// when `s` is not a decimal integer literal or its value does not fit.
pub fn parse_i64(s: &str) -> (r: Option<i64>)
    ensures
        r is Some <==> is_dec_int_literal(s@) && i64::MIN <= dec_int_value(s@) <= i64::MAX,
        r matches Some(v) ==> v as int == dec_int_value(s@),
{
    let len: usize = s.unicode_len();
    if len == 0 {
        return None;
    }
    let first = s.get_char(0);
    let negative = first == '-';
    let start: usize = if first == '-' || first == '+' { 1 } else { 0 };
    let ghost body = if first == '-' || first == '+' { s@.skip(1) } else { s@ };
    if start >= len {
        proof {
            assert(body.len() == 0);
        }
        return None;
    }
    let mut acc: u64 = 0;
    let mut i: usize = start;
    proof {
        assert(body.take(0) =~= Seq::<char>::empty());
    }
    while i < len
        invariant
            len == s@.len(),
            start <= i <= len,
            start == if s@[0] == '-' || s@[0] == '+' { 1int } else { 0int },
            body == if s@[0] == '-' || s@[0] == '+' { s@.skip(1) } else { s@ },
            body.len() == len - start,
            forall|k: int| 0 <= k < i - start ==> is_digit_char(#[trigger] body[k]),
            acc as nat == dec_digits_value(body.take(i - start)),
            acc <= 0x8000000000000000u64,
        decreases len - i,
    {
        let c = s.get_char(i);
        proof {
            assert(body[i - start] == s@[i as int]);
        }
        if !('0' <= c && c <= '9') {
            proof {
                assert(!is_digit_char(body[i - start]));
                assert(dec_body(s@) == body);
                assert(!is_dec_int_literal(s@)) by {
                    if all_digits(dec_body(s@)) {
                        assert(is_digit_char(dec_body(s@)[i - start]));
                    }
                }
            }
            return None;
        }
        if acc > 922337203685477580u64 {
            // The next digit would push the magnitude past the largest
            // representable value.
            proof {
                lemma_dec_digits_value_grows(body, i - start);
                assert(body.take(i + 1 - start).drop_last() =~= body.take(i - start));
                assert(body.take(i + 1 - start).last() == body[i - start]);
                assert(dec_digits_value(body.take(i + 1 - start))
                    == dec_digits_value(body.take(i - start)) * 10
                        + digit_val(body[i - start]));
                assert(dec_digits_value(body.take(i - start)) * 10
                    >= 9223372036854775810) by (nonlinear_arith)
                    requires
                        dec_digits_value(body.take(i - start)) >= 922337203685477581,
                ;
                assert(dec_digits_value(body) > 9223372036854775808);
            }
            return None;
        }
        let d: u64 = (c as u32 as u64) - 48;
        proof {
            assert(d < 10) by {
                assert('0' as u32 == 48 && '9' as u32 == 57);
            }
        }
        if acc == 922337203685477580u64 && d > 8 {
            proof {
                lemma_dec_digits_value_grows(body, i - start);
                assert(body.take(i + 1 - start).drop_last() =~= body.take(i - start));
                assert(body.take(i + 1 - start).last() == body[i - start]);
                assert(dec_digits_value(body.take(i + 1 - start))
                    == dec_digits_value(body.take(i - start)) * 10
                        + digit_val(body[i - start]));
                assert(digit_val(body[i - start]) == 9);
                assert(dec_digits_value(body) > 9223372036854775808);
            }
            return None;
        }
        acc = acc * 10 + d;
        i = i + 1;
        proof {
            assert(body.take(i - start).drop_last() =~= body.take(i - 1 - start));
            assert(body.take(i - start).last() == body[i - 1 - start]);
            assert(d as nat == digit_val(body[i - 1 - start]));
        }
    }
    proof {
        assert(body.take(len - start) =~= body);
        assert(dec_body(s@) == body);
        assert(is_dec_int_literal(s@));
    }
    if negative {
        if acc == 0x8000000000000000u64 {
            proof {
                assert(dec_int_value(s@) == i64::MIN as int);
            }
            return Some(i64::MIN);
        }
        if acc > 0x8000000000000000u64 {
            return None;
        }
        Some(0 - (acc as i64))
    } else {
        if acc > 0x7fffffffffffffffu64 {
            return None;
        }
        Some(acc as i64)
    }
}

/// A longer digit string never has a smaller value: the value of a prefix of
/// `s` of length `k + 1` is at least ten times the value of its prefix of
/// length `k`, and every extension keeps at least that value.
proof fn lemma_dec_digits_value_grows(s: Seq<char>, k: int)
    requires
        0 <= k < s.len(),
    ensures
        dec_digits_value(s) >= dec_digits_value(s.take(k + 1)),
    decreases s.len() - k,
{
    if k + 1 == s.len() {
        assert(s.take(k + 1) =~= s);
    } else {
        lemma_dec_digits_value_grows(s, k + 1);
        assert(s.take(k + 2).drop_last() =~= s.take(k + 1));
        assert(dec_digits_value(s.take(k + 2))
            == dec_digits_value(s.take(k + 1)) * 10
                + digit_val(s.take(k + 2).last()));
        assert(dec_digits_value(s.take(k + 1)) * 10 >= dec_digits_value(s.take(k + 1)))
            by (nonlinear_arith);
    }
}

} // verus!

