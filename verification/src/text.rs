//! Small text helpers: entity escaping and decoding, number and size
//! formatting, URL assembly.

use vstd::prelude::*;

verus! {

/// Leftmost-first, non-overlapping replacement of `pat` by `rep`,
/// scanning once from the start; a replacement is not rescanned.
pub open spec fn spec_replace(s: Seq<u8>, pat: Seq<u8>, rep: Seq<u8>) -> Seq<u8>
    decreases s.len(),
    when pat.len() > 0
{
    if s.len() == 0 {
        s
    } else if pat.len() <= s.len() && s.take(pat.len() as int) == pat {
        rep + spec_replace(s.skip(pat.len() as int), pat, rep)
    } else {
        seq![s[0]] + spec_replace(s.drop_first(), pat, rep)
    }
}

/// Whether `pat` occurs at position `i` of `s`.
fn matches_at(s: &Vec<u8>, i: usize, pat: &Vec<u8>) -> (r: bool)
    requires
        i <= s@.len(),
    ensures
        r == (pat@.len() <= s@.len() - i && s@.skip(i as int).take(pat@.len() as int) == pat@),
{
    if pat.len() > s.len() - i {
        return false;
    }
    let mut k: usize = 0;
    while k < pat.len()
        invariant
            i + pat@.len() <= s@.len(),
            s@.len() <= usize::MAX,
            k <= pat@.len(),
            forall|m: int| 0 <= m < k ==> s@[i + m] == pat@[m],
        decreases pat@.len() - k,
    {
        if s[i + k] != pat[k] {
            proof {
                assert(s@.skip(i as int).take(pat@.len() as int)[k as int] == s@[i + k]);
            }
            return false;
        }
        k = k + 1;
    }
    proof {
        assert(s@.skip(i as int).take(pat@.len() as int) =~= pat@);
    }
    true
}

/// Replace every occurrence of `pat` by `rep`, leftmost first.
pub fn replace_bytes(s: &Vec<u8>, pat: &Vec<u8>, rep: &Vec<u8>) -> (r: Vec<u8>)
    requires
        pat@.len() > 0,
    ensures
        r@ == spec_replace(s@, pat@, rep@),
{
    let mut out: Vec<u8> = Vec::new();
    let mut i: usize = 0;
    proof {
        assert(s@.skip(0) =~= s@);
        assert(Seq::<u8>::empty() + spec_replace(s@, pat@, rep@) =~= spec_replace(s@, pat@, rep@));
    }
    while i < s.len()
        invariant
            pat@.len() > 0,
            i <= s@.len(),
            spec_replace(s@, pat@, rep@) == out@ + spec_replace(s@.skip(i as int), pat@, rep@),
        decreases s@.len() - i,
    {
        let ghost rest: Seq<u8> = s@.skip(i as int);
        let ghost out0: Seq<u8> = out@;
        if matches_at(s, i, pat) {
            out.extend_from_slice(rep.as_slice());
            proof {
                assert(rest.skip(pat@.len() as int) =~= s@.skip(i + pat@.len()));
                assert(spec_replace(rest, pat@, rep@) == rep@ + spec_replace(
                    s@.skip(i + pat@.len()),
                    pat@,
                    rep@,
                ));
                assert(out@ =~= out0 + rep@);
                assert((out0 + rep@) + spec_replace(s@.skip(i + pat@.len()), pat@, rep@) =~= out0
                    + (rep@ + spec_replace(s@.skip(i + pat@.len()), pat@, rep@)));
            }
            i = i + pat.len();
        } else {
            out.push(s[i]);
            proof {
                assert(rest[0] == s@[i as int]);
                assert(rest.drop_first() =~= s@.skip(i + 1));
                assert(spec_replace(rest, pat@, rep@) == seq![s@[i as int]] + spec_replace(
                    s@.skip(i + 1),
                    pat@,
                    rep@,
                ));
                assert(out@ =~= out0 + seq![s@[i as int]]);
                assert((out0 + seq![s@[i as int]]) + spec_replace(s@.skip(i + 1), pat@, rep@)
                    =~= out0 + (seq![s@[i as int]] + spec_replace(s@.skip(i + 1), pat@, rep@)));
            }
            i = i + 1;
        }
    }
    proof {
        assert(s@.skip(i as int).len() == 0);
        assert(spec_replace(s@.skip(i as int), pat@, rep@) =~= Seq::<u8>::empty());
        assert(out@ + Seq::<u8>::empty() =~= out@);
    }
    out
}

/// One entity table entry.
pub open spec fn amp_ent() -> Seq<u8> {
    seq![0x26u8, 0x61, 0x6d, 0x70, 0x3b]
}

fn amp_ent_v() -> (r: Vec<u8>)
    ensures
        r@ == amp_ent(),
{
    let mut v: Vec<u8> = Vec::new();
    v.push(0x26);
    v.push(0x61);
    v.push(0x6d);
    v.push(0x70);
    v.push(0x3b);
    proof { assert(v@ =~= amp_ent()); }
    v
}

/// One entity table entry.
pub open spec fn amp_ch() -> Seq<u8> {
    seq![0x26u8]
}

fn amp_ch_v() -> (r: Vec<u8>)
    ensures
        r@ == amp_ch(),
{
    let mut v: Vec<u8> = Vec::new();
    v.push(0x26);
    proof { assert(v@ =~= amp_ch()); }
    v
}

/// One entity table entry.
pub open spec fn lt_ent() -> Seq<u8> {
    seq![0x26u8, 0x6c, 0x74, 0x3b]
}

fn lt_ent_v() -> (r: Vec<u8>)
    ensures
        r@ == lt_ent(),
{
    let mut v: Vec<u8> = Vec::new();
    v.push(0x26);
    v.push(0x6c);
    v.push(0x74);
    v.push(0x3b);
    proof { assert(v@ =~= lt_ent()); }
    v
}

/// One entity table entry.
pub open spec fn lt_ch() -> Seq<u8> {
    seq![0x3cu8]
}

fn lt_ch_v() -> (r: Vec<u8>)
    ensures
        r@ == lt_ch(),
{
    let mut v: Vec<u8> = Vec::new();
    v.push(0x3c);
    proof { assert(v@ =~= lt_ch()); }
    v
}

/// One entity table entry.
pub open spec fn gt_ent() -> Seq<u8> {
    seq![0x26u8, 0x67, 0x74, 0x3b]
}

fn gt_ent_v() -> (r: Vec<u8>)
    ensures
        r@ == gt_ent(),
{
    let mut v: Vec<u8> = Vec::new();
    v.push(0x26);
    v.push(0x67);
    v.push(0x74);
    v.push(0x3b);
    proof { assert(v@ =~= gt_ent()); }
    v
}

/// One entity table entry.
pub open spec fn gt_ch() -> Seq<u8> {
    seq![0x3eu8]
}

fn gt_ch_v() -> (r: Vec<u8>)
    ensures
        r@ == gt_ch(),
{
    let mut v: Vec<u8> = Vec::new();
    v.push(0x3e);
    proof { assert(v@ =~= gt_ch()); }
    v
}

/// One entity table entry.
pub open spec fn quot_ent() -> Seq<u8> {
    seq![0x26u8, 0x71, 0x75, 0x6f, 0x74, 0x3b]
}

fn quot_ent_v() -> (r: Vec<u8>)
    ensures
        r@ == quot_ent(),
{
    let mut v: Vec<u8> = Vec::new();
    v.push(0x26);
    v.push(0x71);
    v.push(0x75);
    v.push(0x6f);
    v.push(0x74);
    v.push(0x3b);
    proof { assert(v@ =~= quot_ent()); }
    v
}

/// One entity table entry.
pub open spec fn quot_ch() -> Seq<u8> {
    seq![0x22u8]
}

fn quot_ch_v() -> (r: Vec<u8>)
    ensures
        r@ == quot_ch(),
{
    let mut v: Vec<u8> = Vec::new();
    v.push(0x22);
    proof { assert(v@ =~= quot_ch()); }
    v
}

/// One entity table entry.
pub open spec fn num39_ent() -> Seq<u8> {
    seq![0x26u8, 0x23, 0x33, 0x39, 0x3b]
}

fn num39_ent_v() -> (r: Vec<u8>)
    ensures
        r@ == num39_ent(),
{
    let mut v: Vec<u8> = Vec::new();
    v.push(0x26);
    v.push(0x23);
    v.push(0x33);
    v.push(0x39);
    v.push(0x3b);
    proof { assert(v@ =~= num39_ent()); }
    v
}

/// One entity table entry.
pub open spec fn apos_ch() -> Seq<u8> {
    seq![0x27u8]
}

fn apos_ch_v() -> (r: Vec<u8>)
    ensures
        r@ == apos_ch(),
{
    let mut v: Vec<u8> = Vec::new();
    v.push(0x27);
    proof { assert(v@ =~= apos_ch()); }
    v
}

/// One entity table entry.
pub open spec fn apos_ent() -> Seq<u8> {
    seq![0x26u8, 0x61, 0x70, 0x6f, 0x73, 0x3b]
}

fn apos_ent_v() -> (r: Vec<u8>)
    ensures
        r@ == apos_ent(),
{
    let mut v: Vec<u8> = Vec::new();
    v.push(0x26);
    v.push(0x61);
    v.push(0x70);
    v.push(0x6f);
    v.push(0x73);
    v.push(0x3b);
    proof { assert(v@ =~= apos_ent()); }
    v
}

/// One entity table entry.
pub open spec fn hex27_ent() -> Seq<u8> {
    seq![0x26u8, 0x23, 0x78, 0x32, 0x37, 0x3b]
}

fn hex27_ent_v() -> (r: Vec<u8>)
    ensures
        r@ == hex27_ent(),
{
    let mut v: Vec<u8> = Vec::new();
    v.push(0x26);
    v.push(0x23);
    v.push(0x78);
    v.push(0x32);
    v.push(0x37);
    v.push(0x3b);
    proof { assert(v@ =~= hex27_ent()); }
    v
}

/// One entity table entry.
pub open spec fn nbsp_ent() -> Seq<u8> {
    seq![0x26u8, 0x6e, 0x62, 0x73, 0x70, 0x3b]
}

fn nbsp_ent_v() -> (r: Vec<u8>)
    ensures
        r@ == nbsp_ent(),
{
    let mut v: Vec<u8> = Vec::new();
    v.push(0x26);
    v.push(0x6e);
    v.push(0x62);
    v.push(0x73);
    v.push(0x70);
    v.push(0x3b);
    proof { assert(v@ =~= nbsp_ent()); }
    v
}

/// One entity table entry.
pub open spec fn space_ch() -> Seq<u8> {
    seq![0x20u8]
}

fn space_ch_v() -> (r: Vec<u8>)
    ensures
        r@ == space_ch(),
{
    let mut v: Vec<u8> = Vec::new();
    v.push(0x20);
    proof { assert(v@ =~= space_ch()); }
    v
}


/// What HTML entity decoding yields: the eight entities replaced in
/// sequence, the ampersand first — a doubly escaped entity therefore
/// decodes twice, a consequence of replacing in sequence.
pub open spec fn spec_html_decode(s: Seq<u8>) -> Seq<u8> {
    let s1 = spec_replace(s, amp_ent(), amp_ch());
    let s2 = spec_replace(s1, lt_ent(), lt_ch());
    let s3 = spec_replace(s2, gt_ent(), gt_ch());
    let s4 = spec_replace(s3, quot_ent(), quot_ch());
    let s5 = spec_replace(s4, num39_ent(), apos_ch());
    let s6 = spec_replace(s5, apos_ent(), apos_ch());
    let s7 = spec_replace(s6, hex27_ent(), apos_ch());
    spec_replace(s7, nbsp_ent(), space_ch())
}

/// Decode the common HTML entities in a byte string.
pub fn html_decode(s: &Vec<u8>) -> (r: Vec<u8>)
    ensures
        r@ == spec_html_decode(s@),
{
    let s1 = replace_bytes(s, &amp_ent_v(), &amp_ch_v());
    let s2 = replace_bytes(&s1, &lt_ent_v(), &lt_ch_v());
    let s3 = replace_bytes(&s2, &gt_ent_v(), &gt_ch_v());
    let s4 = replace_bytes(&s3, &quot_ent_v(), &quot_ch_v());
    let s5 = replace_bytes(&s4, &num39_ent_v(), &apos_ch_v());
    let s6 = replace_bytes(&s5, &apos_ent_v(), &apos_ch_v());
    let s7 = replace_bytes(&s6, &hex27_ent_v(), &apos_ch_v());
    replace_bytes(&s7, &nbsp_ent_v(), &space_ch_v())
}

/// What HTML escaping yields: ampersands first, so later escapes are
/// not double-escaped.
pub open spec fn spec_html_escape(s: Seq<u8>) -> Seq<u8> {
    let s1 = spec_replace(s, amp_ch(), amp_ent());
    let s2 = spec_replace(s1, lt_ch(), lt_ent());
    let s3 = spec_replace(s2, gt_ch(), gt_ent());
    let s4 = spec_replace(s3, quot_ch(), quot_ent());
    spec_replace(s4, apos_ch(), hex27_ent())
}

/// Escape a byte string for safe embedding in HTML.
pub fn html_escape(s: &Vec<u8>) -> (r: Vec<u8>)
    ensures
        r@ == spec_html_escape(s@),
{
    let s1 = replace_bytes(s, &amp_ch_v(), &amp_ent_v());
    let s2 = replace_bytes(&s1, &lt_ch_v(), &lt_ent_v());
    let s3 = replace_bytes(&s2, &gt_ch_v(), &gt_ent_v());
    let s4 = replace_bytes(&s3, &quot_ch_v(), &quot_ent_v());
    replace_bytes(&s4, &apos_ch_v(), &hex27_ent_v())
}

// ---------------------------------------------------------------------------
// Decimal formatting.
// ---------------------------------------------------------------------------

/// The character of one decimal digit.
pub open spec fn digit_char(d: int) -> char {
    if d == 0 {
        '0'
    } else if d == 1 {
        '1'
    } else if d == 2 {
        '2'
    } else if d == 3 {
        '3'
    } else if d == 4 {
        '4'
    } else if d == 5 {
        '5'
    } else if d == 6 {
        '6'
    } else if d == 7 {
        '7'
    } else if d == 8 {
        '8'
    } else {
        '9'
    }
}

/// The decimal digits of a non-negative number.
pub open spec fn dec_chars(n: int) -> Seq<char>
    decreases n,
{
    if n < 10 {
        seq![digit_char(if n >= 0 { n } else { 0 })]
    } else {
        dec_chars(n / 10) + seq![digit_char(n % 10)]
    }
}

/// The decimal digits, zero-padded to at least two places.
pub open spec fn dec2_chars(n: int) -> Seq<char> {
    if 0 <= n < 10 {
        seq!['0'] + dec_chars(n)
    } else {
        dec_chars(n)
    }
}

/// Append one decimal digit.
fn append_digit(s: &mut String, d: u64)
    requires
        d < 10,
    ensures
        final(s)@ == old(s)@ + seq![digit_char(d as int)],
{
    proof {
        reveal_strlit("0");
        reveal_strlit("1");
        reveal_strlit("2");
        reveal_strlit("3");
        reveal_strlit("4");
        reveal_strlit("5");
        reveal_strlit("6");
        reveal_strlit("7");
        reveal_strlit("8");
        reveal_strlit("9");
    }
    match d {
        0 => s.append("0"),
        1 => s.append("1"),
        2 => s.append("2"),
        3 => s.append("3"),
        4 => s.append("4"),
        5 => s.append("5"),
        6 => s.append("6"),
        7 => s.append("7"),
        8 => s.append("8"),
        _ => s.append("9"),
    }
    proof {
        assert(final(s)@ =~= old(s)@ + seq![digit_char(d as int)]);
    }
}

/// Append the decimal digits of a number.
fn append_dec(s: &mut String, n: u64)
    ensures
        final(s)@ == old(s)@ + dec_chars(n as int),
    decreases n,
{
    if n < 10 {
        append_digit(s, n);
    } else {
        append_dec(s, n / 10);
        append_digit(s, n % 10);
        proof {
            assert(old(s)@ + (dec_chars(n as int / 10) + seq![digit_char(n as int % 10)]) =~= (old(
                s,
            )@ + dec_chars(n as int / 10)) + seq![digit_char(n as int % 10)]);
        }
    }
}

/// Append the decimal digits, zero-padded to at least two places.
fn append_dec2(s: &mut String, n: u64)
    ensures
        final(s)@ == old(s)@ + dec2_chars(n as int),
{
    if n < 10 {
        proof {
            reveal_strlit("0");
        }
        s.append("0");
        append_dec(s, n);
        proof {
            assert(final(s)@ =~= old(s)@ + dec2_chars(n as int));
        }
    } else {
        append_dec(s, n);
    }
}

/// What a duration looks like: minutes and seconds, with an hour part
/// only when there is one, each zero-padded to two places.
pub open spec fn spec_format_duration(seconds: int) -> Seq<char> {
    let h = seconds / 3600;
    let m = (seconds % 3600) / 60;
    let sec = seconds % 60;
    if h > 0 {
        dec2_chars(h) + ":"@ + dec2_chars(m) + ":"@ + dec2_chars(sec)
    } else {
        dec2_chars(m) + ":"@ + dec2_chars(sec)
    }
}

/// Format a duration as mm:ss, or hh:mm:ss from an hour up.
pub fn format_duration(seconds: u32) -> (r: String)
    ensures
        r@ == spec_format_duration(seconds as int),
{
    proof {
        reveal_strlit(":");
    }
    let hours: u64 = (seconds / 3600) as u64;
    let minutes: u64 = ((seconds % 3600) / 60) as u64;
    let secs: u64 = (seconds % 60) as u64;
    let mut out = String::new();
    if hours > 0 {
        append_dec2(&mut out, hours);
        out.append(":");
        append_dec2(&mut out, minutes);
        out.append(":");
        append_dec2(&mut out, secs);
        proof {
            assert(out@ =~= spec_format_duration(seconds as int));
        }
    } else {
        append_dec2(&mut out, minutes);
        out.append(":");
        append_dec2(&mut out, secs);
        proof {
            assert(out@ =~= spec_format_duration(seconds as int));
        }
    }
    out
}

/// A size scaled by a unit, with two fraction digits, rounding half
/// away from zero.
pub open spec fn spec_scaled_chars(bytes: int, unit: int) -> Seq<char> {
    let cent = (bytes * 100 + unit / 2) / unit;
    dec_chars(cent / 100) + "."@ + dec2_chars(cent % 100)
}

/// What a formatted size looks like: scaled to the largest binary
/// unit it reaches, with two fraction digits, whole bytes below a
/// kibibyte.
pub open spec fn spec_format_file_size(bytes: int) -> Seq<char> {
    if bytes >= 0x40000000 {
        spec_scaled_chars(bytes, 0x40000000) + " GB"@
    } else if bytes >= 0x100000 {
        spec_scaled_chars(bytes, 0x100000) + " MB"@
    } else if bytes >= 0x400 {
        spec_scaled_chars(bytes, 0x400) + " KB"@
    } else {
        dec_chars(bytes) + " B"@
    }
}

/// Append a scaled size with two fraction digits.
fn append_scaled(out: &mut String, bytes: u64, unit: u64)
    requires
        unit == 0x400 || unit == 0x100000 || unit == 0x40000000,
    ensures
        final(out)@ == old(out)@ + spec_scaled_chars(bytes as int, unit as int),
{
    proof {
        reveal_strlit(".");
    }
    let whole: u64 = bytes / unit;
    let part: u64 = bytes % unit;
    let frac: u64 = (part * 100 + unit / 2) / unit;
    let cent: u64 = whole * 100 + frac;
    proof {
        let b: int = bytes as int;
        let u: int = unit as int;
        let x: int = (part as int) * 100 + u / 2;
        vstd::arithmetic::div_mod::lemma_fundamental_div_mod(b, u);
        assert(b == u * (b / u) + b % u);
        assert(b * 100 == (b / u) * 100 * u + ((b % u) * 100)) by (nonlinear_arith)
            requires
                b == u * (b / u) + b % u,
        ;
        vstd::arithmetic::div_mod::lemma_hoist_over_denominator(x, (b / u) * 100, unit as nat);
        assert(x / u + (b / u) * 100 == (x + (b / u) * 100 * u) / u);
        assert(x + (b / u) * 100 * u == b * 100 + u / 2);
        assert(cent as int == (b * 100 + u / 2) / u);
    }
    append_dec(out, cent / 100);
    out.append(".");
    append_dec2(out, cent % 100);
    proof {
        assert(final(out)@ =~= old(out)@ + spec_scaled_chars(bytes as int, unit as int));
    }
}

/// Format a byte count with the largest binary unit it reaches.
pub fn format_file_size(bytes: u64) -> (r: String)
    ensures
        r@ == spec_format_file_size(bytes as int),
{
    proof {
        reveal_strlit(" GB");
        reveal_strlit(" MB");
        reveal_strlit(" KB");
        reveal_strlit(" B");
    }
    let mut out = String::new();
    if bytes >= 0x40000000 {
        append_scaled(&mut out, bytes, 0x40000000);
        out.append(" GB");
    } else if bytes >= 0x100000 {
        append_scaled(&mut out, bytes, 0x100000);
        out.append(" MB");
    } else if bytes >= 0x400 {
        append_scaled(&mut out, bytes, 0x400);
        out.append(" KB");
    } else {
        append_dec(&mut out, bytes);
        out.append(" B");
    }
    proof {
        assert(out@ =~= spec_format_file_size(bytes as int));
    }
    out
}

/// What a base URL looks like: the scheme for the transport, then the
/// host.
pub open spec fn spec_base_url(host: Seq<char>, is_https: bool) -> Seq<char> {
    if is_https {
        "https://"@ + host
    } else {
        "http://"@ + host
    }
}

/// Assemble the base URL for a host.
pub fn get_base_url(host: &str, is_https: bool) -> (r: String)
    ensures
        r@ == spec_base_url(host@, is_https),
{
    if is_https {
        String::from_str("https://").concat(host)
    } else {
        String::from_str("http://").concat(host)
    }
}

} // verus!

