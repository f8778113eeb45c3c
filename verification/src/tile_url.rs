//! Tile URLs from URL templates with `{z}`, `{x}` and `{y}` placeholders.

use vstd::prelude::*;
use vstd::string::*;

verus! {

/// The decimal digit of `d`.
pub open spec fn digit_char(d: nat) -> char {
    if d == 0 {
        '0'
    } else if d == 1 {
        '1'
    } else if d == 2 {
        '2'
    } else if d == 3 {
        '3'
    } else if d == 4 {
        '4'
    } else if d == 5 {
        '5'
    } else if d == 6 {
        '6'
    } else if d == 7 {
        '7'
    } else if d == 8 {
        '8'
    } else {
        '9'
    }
}

/// The decimal representation of a natural number, without leading zeros.
pub open spec fn decimal(n: nat) -> Seq<char>
    decreases n,
{
    if n < 10 {
        seq![digit_char(n)]
    } else {
        decimal(n / 10).push(digit_char(n % 10))
    }
}

/// The decimal representation of an integer, with a leading `-` where it is negative.
pub open spec fn signed_decimal(i: int) -> Seq<char> {
    if i < 0 {
        seq!['-'] + decimal((-i) as nat)
    } else {
        decimal(i as nat)
    }
}

/// `s` with every occurrence of `pat` replaced by `with`, matched from the left and
/// without overlaps.
pub open spec fn replaced(s: Seq<char>, pat: Seq<char>, with: Seq<char>) -> Seq<char>
    decreases s.len(),
{
    if pat.len() == 0 || s.len() < pat.len() {
        s
    } else if s.subrange(0, pat.len() as int) == pat {
        with + replaced(s.subrange(pat.len() as int, s.len() as int), pat, with)
    } else {
        seq![s[0]] + replaced(s.drop_first(), pat, with)
    }
}

/// The one-character string of a decimal digit.
fn digit_str(d: u64) -> (s: &'static str)
    requires
        d < 10,
    ensures
        s@ == seq![digit_char(d as nat)],
{
    proof {
        reveal_strlit("0");
        reveal_strlit("1");
        reveal_strlit("2");
        reveal_strlit("3");
        reveal_strlit("4");
        reveal_strlit("5");
        reveal_strlit("6");
        reveal_strlit("7");
        reveal_strlit("8");
        reveal_strlit("9");
    }
    if d == 0 {
        "0"
    } else if d == 1 {
        "1"
    } else if d == 2 {
        "2"
    } else if d == 3 {
        "3"
    } else if d == 4 {
        "4"
    } else if d == 5 {
        "5"
    } else if d == 6 {
        "6"
    } else if d == 7 {
        "7"
    } else if d == 8 {
        "8"
    } else {
        "9"
    }
}

/// Appends the decimal representation of `n`.
pub fn push_decimal(out: &mut String, n: u64)
    ensures
        final(out)@ == old(out)@ + decimal(n as nat),
    decreases n,
{
    if n >= 10 {
        push_decimal(out, n / 10);
    }
    let d = digit_str(n % 10);
    out.append(d);
    proof {
        if n >= 10 {
            assert(old(out)@ + decimal(n as nat) =~= old(out)@ + decimal((n / 10) as nat) + seq![
                digit_char((n % 10) as nat),
            ]);
        } else {
            assert(decimal(n as nat) =~= seq![digit_char((n % 10) as nat)]);
        }
    }
}

/// The decimal representation of an unsigned integer.
pub fn u32_to_decimal(n: u32) -> (s: String)
    ensures
        s@ == decimal(n as nat),
{
    let mut s = String::from_str("");
    proof {
        reveal_strlit("");
    }
    push_decimal(&mut s, n as u64);
    assert(s@ =~= decimal(n as nat));
    s
}

/// The decimal representation of a signed integer.
pub fn i32_to_decimal(i: i32) -> (s: String)
    ensures
        s@ == signed_decimal(i as int),
{
    let mut s = String::from_str("");
    proof {
        reveal_strlit("");
        reveal_strlit("-");
    }
    if i < 0 {
        s.append("-");
        let magnitude: u64 = (0i64 - (i as i64)) as u64;
        push_decimal(&mut s, magnitude);
    } else {
        push_decimal(&mut s, i as u64);
    }
    assert(s@ =~= signed_decimal(i as int));
    s
}

/// Whether `pat` occurs in `s` at `start`.
fn matches_at(s: &str, n: usize, start: usize, pat: &str, m: usize) -> (r: bool)
    requires
        n == s@.len(),
        m == pat@.len(),
        start + m <= n,
    ensures
        r == (s@.subrange(start as int, start + m) == pat@),
{
    let mut k: usize = 0;
    while k < m
        invariant
            n == s@.len(),
            m == pat@.len(),
            start + m <= n,
            k <= m,
            forall|j: int| 0 <= j < k ==> s@[start + j] == pat@[j],
        decreases m - k,
    {
        if s.get_char(start + k) != pat.get_char(k) {
            assert(s@.subrange(start as int, start + m)[k as int] != pat@[k as int]);
            return false;
        }
        k = k + 1;
    }
    assert(s@.subrange(start as int, start + m) =~= pat@);
    true
}

/// A step of [`replaced`]: where `pat` does not occur at the start, the first character stays.
proof fn lemma_replaced_step(s: Seq<char>, pat: Seq<char>, with: Seq<char>, i: int)
    requires
        pat.len() > 0,
        0 <= i,
        i + pat.len() <= s.len(),
        s.subrange(i, i + pat.len()) != pat,
    ensures
        replaced(s.subrange(i, s.len() as int), pat, with) == seq![s[i]] + replaced(
            s.subrange(i + 1, s.len() as int),
            pat,
            with,
        ),
{
    let t = s.subrange(i, s.len() as int);
    assert(t.subrange(0, pat.len() as int) =~= s.subrange(i, i + pat.len()));
    assert(t.drop_first() =~= s.subrange(i + 1, s.len() as int));
}

/// A step of [`replaced`]: where `pat` occurs at the start, it is replaced.
proof fn lemma_replaced_match(s: Seq<char>, pat: Seq<char>, with: Seq<char>, i: int)
    requires
        pat.len() > 0,
        0 <= i,
        i + pat.len() <= s.len(),
        s.subrange(i, i + pat.len()) == pat,
    ensures
        replaced(s.subrange(i, s.len() as int), pat, with) == with + replaced(
            s.subrange(i + pat.len(), s.len() as int),
            pat,
            with,
        ),
{
    let t = s.subrange(i, s.len() as int);
    assert(t.subrange(0, pat.len() as int) =~= s.subrange(i, i + pat.len()));
    assert(t.subrange(pat.len() as int, t.len() as int) =~= s.subrange(
        i + pat.len(),
        s.len() as int,
    ));
}

/// Replaces every occurrence of `pat` in `s` by `with`, from the left and without overlaps.
pub fn replace_all(s: &str, pat: &str, with: &str) -> (r: String)
    requires
        pat@.len() > 0,
    ensures
        r@ == replaced(s@, pat@, with@),
{
    let n = s.unicode_len();
    let m = pat.unicode_len();
    let mut out = String::from_str("");
    proof {
        reveal_strlit("");
    }
    let mut i: usize = 0;
    let mut seg: usize = 0;
    assert(s@.subrange(0, n as int) =~= s@);
    while m <= n && i <= n - m
        invariant
            n == s@.len(),
            m == pat@.len(),
            m > 0,
            seg <= i <= n,
            out@ + s@.subrange(seg as int, i as int) + replaced(
                s@.subrange(i as int, n as int),
                pat@,
                with@,
            ) == replaced(s@, pat@, with@),
        decreases n - i,
    {
        if matches_at(s, n, i, pat, m) {
            proof {
                lemma_replaced_match(s@, pat@, with@, i as int);
            }
            let ghost before = out@;
            let piece = s.substring_char(seg, i);
            out.append(piece);
            out.append(with);
            proof {
                assert(out@ + s@.subrange((i + m) as int, (i + m) as int) + replaced(
                    s@.subrange((i + m) as int, n as int),
                    pat@,
                    with@,
                ) =~= before + s@.subrange(seg as int, i as int) + (with@ + replaced(
                    s@.subrange((i + m) as int, n as int),
                    pat@,
                    with@,
                )));
            }
            i = i + m;
            seg = i;
        } else {
            proof {
                lemma_replaced_step(s@, pat@, with@, i as int);
                assert(s@.subrange(seg as int, i as int) + seq![s@[i as int]] =~= s@.subrange(
                    seg as int,
                    i + 1,
                ));
                assert(out@ + s@.subrange(seg as int, i + 1) + replaced(
                    s@.subrange(i + 1, n as int),
                    pat@,
                    with@,
                ) =~= out@ + s@.subrange(seg as int, i as int) + (seq![s@[i as int]] + replaced(
                    s@.subrange(i + 1, n as int),
                    pat@,
                    with@,
                )));
            }
            i = i + 1;
        }
    }
    let rest = s.substring_char(seg, n);
    let ghost before = out@;
    out.append(rest);
    proof {
        assert(replaced(s@.subrange(i as int, n as int), pat@, with@) == s@.subrange(
            i as int,
            n as int,
        ));
        assert(s@.subrange(seg as int, i as int) + s@.subrange(i as int, n as int) =~= s@.subrange(
            seg as int,
            n as int,
        ));
        assert(out@ =~= before + s@.subrange(seg as int, n as int));
    }
    out
}

/// The template that a tile takes among `n` equivalent mirrors: `(x + y)` modulo `n`.
pub open spec fn mirror_index(n: int, x: int, y: int) -> int {
    (x + y) % n
}

/// A template with `{z}`, then `{x}`, then `{y}` replaced by the tile's coordinates.
pub open spec fn filled_template(template: Seq<char>, x: int, y: int, z: nat) -> Seq<char> {
    replaced(
        replaced(replaced(template, "{z}"@, decimal(z)), "{x}"@, signed_decimal(x)),
        "{y}"@,
        signed_decimal(y),
    )
}

/// Whether no character of `s` is an opening brace.
pub open spec fn no_open_brace(s: Seq<char>) -> bool {
    forall|i: int| 0 <= i < s.len() ==> s[i] != '{'
}

/// Decimal numbers hold no opening brace.
proof fn lemma_decimal_no_open_brace(n: nat)
    ensures
        no_open_brace(decimal(n)),
        no_open_brace(signed_decimal(n as int)),
        no_open_brace(signed_decimal(-(n as int))),
    decreases n,
{
    if n >= 10 {
        lemma_decimal_no_open_brace(n / 10);
    }
    assert(no_open_brace(decimal(n)));
    if n > 0 {
        assert(signed_decimal(-(n as int)) == seq!['-'] + decimal(n));
    }
}

/// A text without an opening brace goes through a replacement of a placeholder unchanged,
/// before whatever follows it.
proof fn lemma_replaced_skips_plain(a: Seq<char>, t: Seq<char>, pat: Seq<char>, with: Seq<char>)
    requires
        no_open_brace(a),
        pat.len() > 0,
        pat[0] == '{',
    ensures
        replaced(a + t, pat, with) == a + replaced(t, pat, with),
    decreases a.len(),
{
    let s = a + t;
    if a.len() == 0 {
        assert(s =~= t);
        assert(a + replaced(t, pat, with) =~= replaced(t, pat, with));
    } else if s.len() < pat.len() {
        assert(replaced(t, pat, with) == t);
    } else {
        assert(s.subrange(0, pat.len() as int)[0] == a[0]);
        assert(s.drop_first() =~= a.drop_first() + t);
        lemma_replaced_skips_plain(a.drop_first(), t, pat, with);
        assert(seq![a[0]] + (a.drop_first() + replaced(t, pat, with)) =~= a + replaced(
            t,
            pat,
            with,
        ));
    }
}

/// A placeholder is replaced where it stands.
proof fn lemma_replaced_placeholder(t: Seq<char>, pat: Seq<char>, with: Seq<char>)
    requires
        pat.len() > 0,
    ensures
        replaced(pat + t, pat, with) == with + replaced(t, pat, with),
{
    let s = pat + t;
    assert(s.subrange(0, pat.len() as int) =~= pat);
    assert(s.subrange(pat.len() as int, s.len() as int) =~= t);
}

/// Another placeholder goes through a replacement unchanged.
proof fn lemma_replaced_keeps_other(q: Seq<char>, t: Seq<char>, pat: Seq<char>, with: Seq<char>)
    requires
        q.len() == 3,
        pat.len() == 3,
        q[0] == '{',
        pat[0] == '{',
        q[1] != pat[1],
        q[1] != '{',
        q[2] != '{',
    ensures
        replaced(q + t, pat, with) == q + replaced(t, pat, with),
{
    let s = q + t;
    assert(s.subrange(0, 3)[1] == q[1]);
    assert(s.subrange(0, 3) != pat);
    assert(s.drop_first() =~= q.drop_first() + t);
    lemma_replaced_skips_plain(q.drop_first(), t, pat, with);
    assert(seq![q[0]] + (q.drop_first() + replaced(t, pat, with)) =~= q + replaced(t, pat, with));
}

/// Each placeholder of a template takes its own coordinate: in a template whose text
/// around `{z}`, `{x}` and `{y}` holds no brace, `{z}` becomes the zoom level, `{x}` the
/// column and `{y}` the row, written in decimal, and the text around them stays. A template
/// without placeholders is the URL as it stands.
pub proof fn law_placeholders_take_their_coordinates(
    a: Seq<char>,
    b: Seq<char>,
    c: Seq<char>,
    d: Seq<char>,
    x: int,
    y: int,
    z: nat,
)
    requires
        no_open_brace(a),
        no_open_brace(b),
        no_open_brace(c),
        no_open_brace(d),
    ensures
        filled_template(a + "{z}"@ + b + "{x}"@ + c + "{y}"@ + d, x, y, z) == a + decimal(z) + b
            + signed_decimal(x) + c + signed_decimal(y) + d,
        filled_template(a, x, y, z) == a,
{
    reveal_strlit("{z}");
    reveal_strlit("{x}");
    reveal_strlit("{y}");
    let pz = "{z}"@;
    let px = "{x}"@;
    let py = "{y}"@;
    let e: Seq<char> = Seq::empty();
    let dz = decimal(z);
    let dx = signed_decimal(x);
    let dy = signed_decimal(y);
    lemma_decimal_no_open_brace(z);
    if x >= 0 {
        lemma_decimal_no_open_brace(x as nat);
    } else {
        lemma_decimal_no_open_brace((-x) as nat);
        assert(-((-x) as nat as int) == x);
    }
    if y >= 0 {
        lemma_decimal_no_open_brace(y as nat);
    } else {
        lemma_decimal_no_open_brace((-y) as nat);
        assert(-((-y) as nat as int) == y);
    }
    // `{z}`
    let r2 = c + (py + d);
    let r1 = b + (px + r2);
    assert(a + pz + b + px + c + py + d =~= a + (pz + r1));
    lemma_replaced_skips_plain(a, pz + r1, pz, dz);
    lemma_replaced_placeholder(r1, pz, dz);
    lemma_replaced_skips_plain(b, px + r2, pz, dz);
    lemma_replaced_keeps_other(px, r2, pz, dz);
    lemma_replaced_skips_plain(c, py + d, pz, dz);
    lemma_replaced_keeps_other(py, d, pz, dz);
    lemma_replaced_skips_plain(d, e, pz, dz);
    assert(replaced(e, pz, dz) == e);
    let s1 = a + dz + b + px + c + py + d;
    assert(replaced(a + pz + b + px + c + py + d, pz, dz) =~= s1);
    // `{x}`
    let ab = a + dz + b;
    assert(no_open_brace(ab));
    assert(s1 =~= ab + (px + (c + (py + d))));
    lemma_replaced_skips_plain(ab, px + r2, px, dx);
    lemma_replaced_placeholder(r2, px, dx);
    lemma_replaced_skips_plain(c, py + d, px, dx);
    lemma_replaced_keeps_other(py, d, px, dx);
    lemma_replaced_skips_plain(d, e, px, dx);
    assert(replaced(e, px, dx) == e);
    let s2 = a + dz + b + dx + c + py + d;
    assert(replaced(s1, px, dx) =~= s2);
    // `{y}`
    let abc = a + dz + b + dx + c;
    assert(no_open_brace(abc));
    assert(s2 =~= abc + (py + d));
    lemma_replaced_skips_plain(abc, py + d, py, dy);
    lemma_replaced_placeholder(d, py, dy);
    lemma_replaced_skips_plain(d, e, py, dy);
    assert(replaced(e, py, dy) == e);
    assert(replaced(s2, py, dy) =~= a + dz + b + dx + c + dy + d);
    // no placeholder
    lemma_replaced_skips_plain(a, e, pz, dz);
    lemma_replaced_skips_plain(a, e, px, dx);
    lemma_replaced_skips_plain(a, e, py, dy);
    assert(a + e =~= a);
}

/// Tiles on one diagonal share a mirror, and the next column takes the next mirror in
/// turn: the mirror is always one of the `n` templates.
pub proof fn law_mirrors_taken_in_turn(n: int, x: int, y: int)
    requires
        n > 0,
    ensures
        0 <= mirror_index(n, x, y) < n,
        mirror_index(n, x + 1, y) == (mirror_index(n, x, y) + 1) % n,
        mirror_index(n, x + 1, y - 1) == mirror_index(n, x, y),
{
    assert(x + 1 + (y - 1) == x + y);
    assert(x + 1 + y == (x + y) + 1);
    vstd::arithmetic::div_mod::lemma_add_mod_noop(x + y, 1, n);
    vstd::arithmetic::div_mod::lemma_add_mod_noop_right((x + y) % n, 1, n);
    vstd::arithmetic::div_mod::lemma_mod_bound(x + y, n);
}

/// The URL of a tile: the template chosen by `(x + y)` modulo the number of templates,
/// which spreads tiles evenly over equivalent mirrors, with `{z}`, `{x}` and `{y}` replaced
/// by the tile's coordinates.
pub fn tile_url(tile_urls: &Vec<String>, x: i32, y: i32, z: u32) -> (url: String)
    requires
        tile_urls@.len() > 0,
        tile_urls@.len() <= i32::MAX,
        i32::MIN <= x + y <= i32::MAX,
    ensures
        url@ == filled_template(
            tile_urls@[mirror_index(tile_urls@.len() as int, x as int, y as int)]@,
            x as int,
            y as int,
            z as nat,
        ),
{
    let n = tile_urls.len() as i64;
    let sum = x as i64 + y as i64;
    let idx: i64 = if sum >= 0 {
        sum % n
    } else {
        let r = (0 - sum) % n;
        if r == 0 {
            0
        } else {
            n - r
        }
    };
    proof {
        let si = sum as int;
        let ni = n as int;
        if sum < 0 {
            let q = (-si) / ni;
            let r = (-si) % ni;
            vstd::arithmetic::div_mod::lemma_fundamental_div_mod(-si, ni);
            if r == 0 {
                assert(si == (-q) * ni + 0) by (nonlinear_arith)
                    requires
                        -si == ni * q + r,
                        r == 0,
                ;
                vstd::arithmetic::div_mod::lemma_fundamental_div_mod_converse(si, ni, -q, 0);
            } else {
                assert(si == (-q - 1) * ni + (ni - r)) by (nonlinear_arith)
                    requires
                        -si == ni * q + r,
                ;
                vstd::arithmetic::div_mod::lemma_fundamental_div_mod_converse(
                    si,
                    ni,
                    -q - 1,
                    ni - r,
                );
            }
        }
    }
    let template = tile_urls[idx as usize].as_str();
    proof {
        reveal_strlit("{z}");
        reveal_strlit("{x}");
        reveal_strlit("{y}");
    }
    let zs = u32_to_decimal(z);
    let xs = i32_to_decimal(x);
    let ys = i32_to_decimal(y);
    let with_z = replace_all(template, "{z}", zs.as_str());
    let with_x = replace_all(with_z.as_str(), "{x}", xs.as_str());
    replace_all(with_x.as_str(), "{y}", ys.as_str())
}

} // verus!
