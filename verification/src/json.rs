//! Compact JSON encoding of the package descriptor, a matching decoder, and
//! the proof that decoding an encoded descriptor gives the descriptor back.

use vstd::prelude::*;
use crate::manifest::CargoManifestView;
use crate::npm::spec_build_package;
use crate::npm::NpmPackage;
use crate::npm::NpmPackageView;
use crate::npm::RepositoryView;

verus! {

/// The lower-case hexadecimal digit for `n`.
pub open spec fn spec_hex_digit(n: int) -> char {
    if n == 0 {
        '0'
    } else if n == 1 {
        '1'
    } else if n == 2 {
        '2'
    } else if n == 3 {
        '3'
    } else if n == 4 {
        '4'
    } else if n == 5 {
        '5'
    } else if n == 6 {
        '6'
    } else if n == 7 {
        '7'
    } else if n == 8 {
        '8'
    } else if n == 9 {
        '9'
    } else if n == 10 {
        'a'
    } else if n == 11 {
        'b'
    } else if n == 12 {
        'c'
    } else if n == 13 {
        'd'
    } else if n == 14 {
        'e'
    } else {
        'f'
    }
}

/// How one character appears inside a JSON string literal: itself, a
/// two-character escape for the quote, the backslash and the common control
/// characters, or a `\u00..` escape for the remaining control characters.
pub open spec fn spec_escape_char(c: char) -> Seq<char> {
    if c == '"' {
        seq!['\\', '"']
    } else if c == '\\' {
        seq!['\\', '\\']
    } else if c == '\u{8}' {
        seq!['\\', 'b']
    } else if c == '\u{9}' {
        seq!['\\', 't']
    } else if c == '\u{a}' {
        seq!['\\', 'n']
    } else if c == '\u{c}' {
        seq!['\\', 'f']
    } else if c == '\u{d}' {
        seq!['\\', 'r']
    } else if (c as u32) < 0x20 {
        seq!['\\', 'u', '0', '0', spec_hex_digit((c as u32) as int / 16), spec_hex_digit(
            (c as u32) as int % 16,
        )]
    } else {
        seq![c]
    }
}

/// The characters of `s`, each escaped as it appears inside a JSON string
/// literal.
pub open spec fn spec_escape(s: Seq<char>) -> Seq<char>
    decreases s.len(),
{
    if s.len() == 0 {
        Seq::<char>::empty()
    } else {
        spec_escape_char(s[0]) + spec_escape(s.skip(1))
    }
}

/// One string field of the encoded document and everything after it: the
/// literal that precedes the contents (it ends with the opening quote), the
/// escaped contents, the closing quote, and the rest of the document.
pub open spec fn spec_json_field(lit: Seq<char>, s: Seq<char>, rest: Seq<char>) -> Seq<char> {
    lit + (spec_escape(s) + (seq!['"'] + rest))
}

/// The compact JSON encoding of a package descriptor: the fields in declared
/// order, every string escaped, no whitespace.
pub open spec fn spec_package_json(p: NpmPackageView) -> Seq<char> {
    spec_json_field(
        "{\"name\":\""@,
        p.name,
        spec_json_field(
            ",\"description\":\""@,
            p.description,
            spec_json_field(
                ",\"author\":\""@,
                p.author,
                spec_json_field(
                    ",\"version\":\""@,
                    p.version,
                    spec_json_field(
                        ",\"license\":\""@,
                        p.license,
                        spec_json_field(
                            ",\"repository\":{\"type\":\""@,
                            p.repository.ty,
                            spec_json_field(",\"url\":\""@, p.repository.url, "}}"@),
                        ),
                    ),
                ),
            ),
        ),
    )
}

/// Escaping a sequence extended by one character appends that character's
/// escape.
proof fn lemma_escape_push(s: Seq<char>, c: char)
    ensures
        spec_escape(s.push(c)) == spec_escape(s) + spec_escape_char(c),
    decreases s.len(),
{
    if s.len() == 0 {
        assert(s.push(c)[0] == c);
        assert(s.push(c).skip(1) =~= Seq::<char>::empty());
        assert(spec_escape(s.push(c).skip(1)) == Seq::<char>::empty());
        assert(spec_escape(s.push(c)) == spec_escape_char(c) + Seq::<char>::empty());
        assert(spec_escape_char(c) + Seq::<char>::empty() =~= spec_escape_char(c));
        assert(spec_escape(s) + spec_escape_char(c) =~= spec_escape_char(c));
    } else {
        assert(s.push(c)[0] == s[0]);
        assert(s.push(c).skip(1) =~= s.skip(1).push(c));
        lemma_escape_push(s.skip(1), c);
        assert(spec_escape(s.push(c)) =~= (spec_escape_char(s[0]) + spec_escape(s.skip(1)))
            + spec_escape_char(c));
    }
}

/// Escaping one more character of `s` appends that character's escape.
proof fn lemma_escape_take_step(s: Seq<char>, i: int)
    requires
        0 <= i < s.len(),
    ensures
        spec_escape(s.take(i + 1)) == spec_escape(s.take(i)) + spec_escape_char(s[i]),
{
    assert(s.take(i + 1) =~= s.take(i).push(s[i]));
    lemma_escape_push(s.take(i), s[i]);
}

/// The lower-case hexadecimal digit for `n`.
fn hex_digit(n: u32) -> (c: char)
    requires
        n < 16,
    ensures
        c == spec_hex_digit(n as int),
{
    if n == 0 {
        '0'
    } else if n == 1 {
        '1'
    } else if n == 2 {
        '2'
    } else if n == 3 {
        '3'
    } else if n == 4 {
        '4'
    } else if n == 5 {
        '5'
    } else if n == 6 {
        '6'
    } else if n == 7 {
        '7'
    } else if n == 8 {
        '8'
    } else if n == 9 {
        '9'
    } else if n == 10 {
        'a'
    } else if n == 11 {
        'b'
    } else if n == 12 {
        'c'
    } else if n == 13 {
        'd'
    } else if n == 14 {
        'e'
    } else {
        'f'
    }
}

/// Appends the characters of `lit` to `out`.
fn push_lit(out: &mut Vec<char>, lit: &str)
    ensures
        final(out)@ == old(out)@ + lit@,
{
    let n = lit.unicode_len();
    let mut i: usize = 0;
    while i < n
        invariant
            0 <= i <= n,
            n == lit@.len(),
            out@ == old(out)@ + lit@.take(i as int),
        decreases n - i,
    {
        out.push(lit.get_char(i));
        proof {
            assert(lit@.take(i + 1) =~= lit@.take(i as int).push(lit@[i as int]));
            assert(out@ =~= old(out)@ + lit@.take(i + 1));
        }
        i += 1;
    }
    proof {
        assert(lit@.take(n as int) =~= lit@);
    }
}

/// Appends the escaped contents of `s` to `out`, followed by the closing
/// quote.
fn push_escaped(out: &mut Vec<char>, s: &str)
    ensures
        final(out)@ == old(out)@ + (spec_escape(s@) + seq!['"']),
{
    let n = s.unicode_len();
    let mut i: usize = 0;
    while i < n
        invariant
            0 <= i <= n,
            n == s@.len(),
            out@ == old(out)@ + spec_escape(s@.take(i as int)),
        decreases n - i,
    {
        let ghost pre = out@;
        let c = s.get_char(i);
        if c == '"' {
            out.push('\\');
            out.push('"');
        } else if c == '\\' {
            out.push('\\');
            out.push('\\');
        } else if c == '\u{8}' {
            out.push('\\');
            out.push('b');
        } else if c == '\u{9}' {
            out.push('\\');
            out.push('t');
        } else if c == '\u{a}' {
            out.push('\\');
            out.push('n');
        } else if c == '\u{c}' {
            out.push('\\');
            out.push('f');
        } else if c == '\u{d}' {
            out.push('\\');
            out.push('r');
        } else {
            let code = c as u32;
            if code < 0x20 {
                out.push('\\');
                out.push('u');
                out.push('0');
                out.push('0');
                out.push(hex_digit(code / 16));
                out.push(hex_digit(code % 16));
            } else {
                out.push(c);
            }
        }
        proof {
            assert(out@ =~= pre + spec_escape_char(s@[i as int]));
            lemma_escape_take_step(s@, i as int);
            assert(out@ =~= old(out)@ + spec_escape(s@.take(i + 1)));
        }
        i += 1;
    }
    out.push('"');
    proof {
        assert(s@.take(n as int) =~= s@);
        assert(out@ =~= old(out)@ + (spec_escape(s@) + seq!['"']));
    }
}

/// Relies on `core::iter::Iterator::collect` building a `String` from an
/// iterator over characters: the result holds exactly those characters, in
/// order.
#[verifier::external_body]
fn chars_to_string(v: &Vec<char>) -> (r: String)
    ensures
        r@ == v@,
{
    v.iter().collect()
}

/// Encodes a package descriptor as compact JSON.
///
/// The result is exactly `spec_package_json` of the descriptor's view: the
/// fields in declared order, `repository.ty` under the key `"type"`, every
/// string escaped as JSON requires, and no whitespace.
pub fn to_package_json(p: &NpmPackage) -> (r: String)
    ensures
        r@ == spec_package_json(p@),
{
    let mut out: Vec<char> = Vec::new();
    push_lit(&mut out, "{\"name\":\"");
    push_escaped(&mut out, p.name.as_str());
    push_lit(&mut out, ",\"description\":\"");
    push_escaped(&mut out, p.description.as_str());
    push_lit(&mut out, ",\"author\":\"");
    push_escaped(&mut out, p.author.as_str());
    push_lit(&mut out, ",\"version\":\"");
    push_escaped(&mut out, p.version.as_str());
    push_lit(&mut out, ",\"license\":\"");
    push_escaped(&mut out, p.license.as_str());
    push_lit(&mut out, ",\"repository\":{\"type\":\"");
    push_escaped(&mut out, p.repository.ty.as_str());
    push_lit(&mut out, ",\"url\":\"");
    push_escaped(&mut out, p.repository.url.as_str());
    push_lit(&mut out, "}}");
    let r = chars_to_string(&out);
    proof {
        lemma_reassociate_document(p@, r@);
    }
    r
}

/// Regrouping the flat, left-to-right concatenation the encoder builds into
/// the nested form `spec_package_json` is written in.
proof fn lemma_reassociate_document(p: NpmPackageView, d: Seq<char>)
    requires
        d == Seq::<char>::empty() + "{\"name\":\""@ + (spec_escape(p.name) + seq!['"'])
            + ",\"description\":\""@ + (spec_escape(p.description) + seq!['"']) + ",\"author\":\""@
            + (spec_escape(p.author) + seq!['"']) + ",\"version\":\""@ + (spec_escape(p.version)
            + seq!['"']) + ",\"license\":\""@ + (spec_escape(p.license) + seq!['"'])
            + ",\"repository\":{\"type\":\""@ + (spec_escape(p.repository.ty) + seq!['"'])
            + ",\"url\":\""@ + (spec_escape(p.repository.url) + seq!['"']) + "}}"@,
    ensures
        d == spec_package_json(p),
{
    let q = seq!['"'];
    let l1 = "{\"name\":\""@;
    let e1 = spec_escape(p.name) + q;
    let l2 = ",\"description\":\""@;
    let e2 = spec_escape(p.description) + q;
    let l3 = ",\"author\":\""@;
    let e3 = spec_escape(p.author) + q;
    let l4 = ",\"version\":\""@;
    let e4 = spec_escape(p.version) + q;
    let l5 = ",\"license\":\""@;
    let e5 = spec_escape(p.license) + q;
    let l6 = ",\"repository\":{\"type\":\""@;
    let e6 = spec_escape(p.repository.ty) + q;
    let l7 = ",\"url\":\""@;
    let e7 = spec_escape(p.repository.url) + q;
    let l8 = "}}"@;
    // The nested suffixes of the document, innermost first.
    let u7 = l7 + (e7 + l8);
    let u6 = l6 + (e6 + u7);
    let u5 = l5 + (e5 + u6);
    let u4 = l4 + (e4 + u5);
    let u3 = l3 + (e3 + u4);
    let u2 = l2 + (e2 + u3);
    let u1 = l1 + (e1 + u2);
    // Each nested suffix is the corresponding `spec_json_field`.
    vstd::seq_lib::lemma_concat_associative(spec_escape(p.repository.url), q, l8);
    assert(u7 == spec_json_field(l7, p.repository.url, l8));
    vstd::seq_lib::lemma_concat_associative(spec_escape(p.repository.ty), q, u7);
    assert(u6 == spec_json_field(l6, p.repository.ty, u7));
    vstd::seq_lib::lemma_concat_associative(spec_escape(p.license), q, u6);
    assert(u5 == spec_json_field(l5, p.license, u6));
    vstd::seq_lib::lemma_concat_associative(spec_escape(p.version), q, u5);
    assert(u4 == spec_json_field(l4, p.version, u5));
    vstd::seq_lib::lemma_concat_associative(spec_escape(p.author), q, u4);
    assert(u3 == spec_json_field(l3, p.author, u4));
    vstd::seq_lib::lemma_concat_associative(spec_escape(p.description), q, u3);
    assert(u2 == spec_json_field(l2, p.description, u3));
    vstd::seq_lib::lemma_concat_associative(spec_escape(p.name), q, u2);
    assert(u1 == spec_json_field(l1, p.name, u2));
    assert(u1 == spec_package_json(p));
    // Fold the flat concatenation into the nested one, from the right.
    let a1 = Seq::<char>::empty() + l1;
    let a2 = a1 + e1;
    let a3 = a2 + l2;
    let a4 = a3 + e2;
    let a5 = a4 + l3;
    let a6 = a5 + e3;
    let a7 = a6 + l4;
    let a8 = a7 + e4;
    let a9 = a8 + l5;
    let a10 = a9 + e5;
    let a11 = a10 + l6;
    let a12 = a11 + e6;
    let a13 = a12 + l7;
    let a14 = a13 + e7;
    assert(d == a14 + l8);
    vstd::seq_lib::lemma_concat_associative(a13, e7, l8);
    vstd::seq_lib::lemma_concat_associative(a12, l7, e7 + l8);
    assert(d == a12 + u7);
    vstd::seq_lib::lemma_concat_associative(a11, e6, u7);
    vstd::seq_lib::lemma_concat_associative(a10, l6, e6 + u7);
    assert(d == a10 + u6);
    vstd::seq_lib::lemma_concat_associative(a9, e5, u6);
    vstd::seq_lib::lemma_concat_associative(a8, l5, e5 + u6);
    assert(d == a8 + u5);
    vstd::seq_lib::lemma_concat_associative(a7, e4, u5);
    vstd::seq_lib::lemma_concat_associative(a6, l4, e4 + u5);
    assert(d == a6 + u4);
    vstd::seq_lib::lemma_concat_associative(a5, e3, u4);
    vstd::seq_lib::lemma_concat_associative(a4, l3, e3 + u4);
    assert(d == a4 + u3);
    vstd::seq_lib::lemma_concat_associative(a3, e2, u3);
    vstd::seq_lib::lemma_concat_associative(a2, l2, e2 + u3);
    assert(d == a2 + u2);
    vstd::seq_lib::lemma_concat_associative(a1, e1, u2);
    assert(d == a1 + (e1 + u2));
    assert(Seq::<char>::empty() + l1 =~= l1);
    assert(a1 + (e1 + u2) == u1);
}

/// The value of a lower-case hexadecimal digit, `None` for any other
/// character.
pub open spec fn spec_hex_val(c: char) -> Option<int> {
    if c == '0' {
        Some(0)
    } else if c == '1' {
        Some(1)
    } else if c == '2' {
        Some(2)
    } else if c == '3' {
        Some(3)
    } else if c == '4' {
        Some(4)
    } else if c == '5' {
        Some(5)
    } else if c == '6' {
        Some(6)
    } else if c == '7' {
        Some(7)
    } else if c == '8' {
        Some(8)
    } else if c == '9' {
        Some(9)
    } else if c == 'a' {
        Some(10)
    } else if c == 'b' {
        Some(11)
    } else if c == 'c' {
        Some(12)
    } else if c == 'd' {
        Some(13)
    } else if c == 'e' {
        Some(14)
    } else if c == 'f' {
        Some(15)
    } else {
        None
    }
}

/// The character a two-character escape stands for, `None` for an escape
/// code JSON does not know.
pub open spec fn spec_escape_code(c: char) -> Option<char> {
    if c == '"' {
        Some('"')
    } else if c == '\\' {
        Some('\\')
    } else if c == '/' {
        Some('/')
    } else if c == 'b' {
        Some('\u{8}')
    } else if c == 't' {
        Some('\u{9}')
    } else if c == 'n' {
        Some('\u{a}')
    } else if c == 'f' {
        Some('\u{c}')
    } else if c == 'r' {
        Some('\u{d}')
    } else {
        None
    }
}

/// Scans a JSON string literal from after its opening quote: the decoded
/// contents and everything after the closing quote, or `None` when the
/// input ends before the closing quote or holds an escape this decoder does
/// not accept. `\u` escapes are accepted in the form `\u00..` the encoder
/// emits.
pub open spec fn spec_scan_string(s: Seq<char>) -> Option<(Seq<char>, Seq<char>)>
    decreases s.len(),
{
    if s.len() == 0 {
        None
    } else if s[0] == '"' {
        Some((Seq::<char>::empty(), s.skip(1)))
    } else if s[0] == '\\' {
        if s.len() < 2 {
            None
        } else if s[1] == 'u' {
            if s.len() < 6 || s[2] != '0' || s[3] != '0' {
                None
            } else {
                match (spec_hex_val(s[4]), spec_hex_val(s[5])) {
                    (Some(hi), Some(lo)) => match spec_scan_string(s.skip(6)) {
                        Some(p) => Some((seq![((hi * 16 + lo) as u32) as char] + p.0, p.1)),
                        None => None,
                    },
                    _ => None,
                }
            }
        } else {
            match spec_escape_code(s[1]) {
                Some(c) => match spec_scan_string(s.skip(2)) {
                    Some(p) => Some((seq![c] + p.0, p.1)),
                    None => None,
                },
                None => None,
            }
        }
    } else {
        match spec_scan_string(s.skip(1)) {
            Some(p) => Some((seq![s[0]] + p.0, p.1)),
            None => None,
        }
    }
}

/// Consumes `lit` from the front of `s`: the rest of `s`, or `None` when
/// `s` does not start with `lit`.
pub open spec fn spec_expect(s: Seq<char>, lit: Seq<char>) -> Option<Seq<char>> {
    if lit.is_prefix_of(s) {
        Some(s.skip(lit.len() as int))
    } else {
        None
    }
}

/// Consumes the literal `lit` and then a JSON string literal: the decoded
/// string and the rest of the input.
pub open spec fn spec_field(s: Seq<char>, lit: Seq<char>) -> Option<(Seq<char>, Seq<char>)> {
    match spec_expect(s, lit) {
        Some(s1) => spec_scan_string(s1),
        None => None,
    }
}

/// Parses the compact JSON encoding of a package descriptor: the descriptor
/// view, or `None` when the input is not such an encoding. The fields must
/// come in declared order with no whitespace, as the encoder writes them.
pub open spec fn spec_parse_package_json(s: Seq<char>) -> Option<NpmPackageView> {
    match spec_field(s, "{\"name\":\""@) {
        None => None,
        Some((name, s1)) => match spec_field(s1, ",\"description\":\""@) {
            None => None,
            Some((description, s2)) => match spec_field(s2, ",\"author\":\""@) {
                None => None,
                Some((author, s3)) => match spec_field(s3, ",\"version\":\""@) {
                    None => None,
                    Some((version, s4)) => match spec_field(s4, ",\"license\":\""@) {
                        None => None,
                        Some((license, s5)) => match spec_field(
                            s5,
                            ",\"repository\":{\"type\":\""@,
                        ) {
                            None => None,
                            Some((ty, s6)) => match spec_field(s6, ",\"url\":\""@) {
                                None => None,
                                Some((url, s7)) => if s7 == "}}"@ {
                                    Some(
                                        NpmPackageView {
                                            name,
                                            description,
                                            author,
                                            version,
                                            license,
                                            repository: RepositoryView { ty, url },
                                        },
                                    )
                                } else {
                                    None
                                },
                            },
                        },
                    },
                },
            },
        },
    }
}

/// The value of a lower-case hexadecimal digit.
fn hex_val(c: char) -> (r: Option<u32>)
    ensures
        match r {
            Some(v) => spec_hex_val(c) == Some(v as int) && v < 16,
            None => spec_hex_val(c) is None,
        },
{
    if c == '0' {
        Some(0)
    } else if c == '1' {
        Some(1)
    } else if c == '2' {
        Some(2)
    } else if c == '3' {
        Some(3)
    } else if c == '4' {
        Some(4)
    } else if c == '5' {
        Some(5)
    } else if c == '6' {
        Some(6)
    } else if c == '7' {
        Some(7)
    } else if c == '8' {
        Some(8)
    } else if c == '9' {
        Some(9)
    } else if c == 'a' {
        Some(10)
    } else if c == 'b' {
        Some(11)
    } else if c == 'c' {
        Some(12)
    } else if c == 'd' {
        Some(13)
    } else if c == 'e' {
        Some(14)
    } else if c == 'f' {
        Some(15)
    } else {
        None
    }
}

/// The characters of `s`, as a vector.
fn str_chars(s: &str) -> (r: Vec<char>)
    ensures
        r@ == s@,
{
    let n = s.unicode_len();
    let mut r: Vec<char> = Vec::new();
    let mut i: usize = 0;
    while i < n
        invariant
            0 <= i <= n,
            n == s@.len(),
            r@ == s@.take(i as int),
        decreases n - i,
    {
        r.push(s.get_char(i));
        proof {
            assert(s@.take(i + 1) =~= s@.take(i as int).push(s@[i as int]));
        }
        i += 1;
    }
    proof {
        assert(s@.take(n as int) =~= s@);
    }
    r
}

/// Consumes the literal `lit` at position `i` of `cs`: the position after
/// it, or `None` when `cs` does not hold `lit` there.
fn expect_at(cs: &Vec<char>, i: usize, lit: &str) -> (r: Option<usize>)
    requires
        i <= cs@.len(),
    ensures
        match r {
            Some(j) => i <= j <= cs@.len() && spec_expect(cs@.skip(i as int), lit@) == Some(
                cs@.skip(j as int),
            ),
            None => spec_expect(cs@.skip(i as int), lit@) is None,
        },
{
    let n = lit.unicode_len();
    if n > cs.len() - i {
        proof {
            assert(!lit@.is_prefix_of(cs@.skip(i as int)));
        }
        return None;
    }
    let mut k: usize = 0;
    while k < n
        invariant
            0 <= k <= n,
            n == lit@.len(),
            i + n <= cs@.len(),
            cs@.len() <= usize::MAX,
            forall|t: int| 0 <= t < k ==> lit@[t] == cs@[i + t],
        decreases n - k,
    {
        if lit.get_char(k) != cs[i + k] {
            proof {
                assert(cs@.skip(i as int)[k as int] == cs@[i + k]);
                assert(!lit@.is_prefix_of(cs@.skip(i as int)));
            }
            return None;
        }
        k += 1;
    }
    proof {
        assert(lit@ =~= cs@.skip(i as int).take(n as int));
        assert(lit@.is_prefix_of(cs@.skip(i as int)));
        assert(cs@.skip(i as int).skip(n as int) =~= cs@.skip(i + n));
    }
    Some(i + n)
}

/// Scans a JSON string literal at position `i` of `cs` (just after the
/// opening quote), appending the decoded contents to `out`: the position
/// after the closing quote, or `None` when no literal this decoder accepts
/// starts there. On `None`, `out` holds an unspecified prefix of the
/// contents.
fn scan_string_into(cs: &Vec<char>, i: usize, out: &mut Vec<char>) -> (r: Option<usize>)
    requires
        i <= cs@.len(),
    ensures
        match r {
            Some(j) => i < j <= cs@.len() && final(out)@.len() >= old(out)@.len() && final(out)@.take(
                old(out)@.len() as int,
            ) == old(out)@ && spec_scan_string(cs@.skip(i as int)) == Some(
                (final(out)@.skip(old(out)@.len() as int), cs@.skip(j as int)),
            ),
            None => spec_scan_string(cs@.skip(i as int)) is None,
        },
    decreases cs@.len() - i,
{
    let ghost s = cs@.skip(i as int);
    if i == cs.len() {
        return None;
    }
    proof {
        assert(s[0] == cs@[i as int]);
        assert(s.len() == cs@.len() - i);
    }
    let c = cs[i];
    if c == '"' {
        proof {
            assert(s.skip(1) =~= cs@.skip(i + 1));
            assert(out@.skip(old(out)@.len() as int) =~= Seq::<char>::empty());
            assert(out@.take(old(out)@.len() as int) =~= old(out)@);
        }
        return Some(i + 1);
    }
    if c == '\\' {
        if i + 1 == cs.len() {
            return None;
        }
        proof {
            assert(s[1] == cs@[i + 1]);
        }
        let e = cs[i + 1];
        if e == 'u' {
            if cs.len() - i < 6 {
                return None;
            }
            proof {
                assert(s[2] == cs@[i + 2]);
                assert(s[3] == cs@[i + 3]);
                assert(s[4] == cs@[i + 4]);
                assert(s[5] == cs@[i + 5]);
            }
            if cs[i + 2] != '0' || cs[i + 3] != '0' {
                return None;
            }
            let hi = match hex_val(cs[i + 4]) {
                Some(v) => v,
                None => {
                    return None;
                },
            };
            let lo = match hex_val(cs[i + 5]) {
                Some(v) => v,
                None => {
                    return None;
                },
            };
            let code: u32 = hi * 16 + lo;
            let dc: char = (code as u8) as char;
            proof {
                assert(dc == (((hi as int) * 16 + (lo as int)) as u32) as char);
            }
            out.push(dc);
            let ghost mid = out@;
            proof {
                assert(cs@.skip(i + 6) =~= s.skip(6));
            }
            let rec = scan_string_into(cs, i + 6, out);
            match rec {
                Some(j) => {
                    proof {
                        lemma_scan_prepend_link(s, 6, dc, cs@.skip(i + 6), mid, old(out)@, out@, cs@.skip(j as int));
                        assert(spec_scan_string(s) == Some(
                            (out@.skip(old(out)@.len() as int), cs@.skip(j as int)),
                        ));
                    }
                    Some(j)
                },
                None => None,
            }
        } else {
            let dc: char;
            if e == '"' {
                dc = '"';
            } else if e == '\\' {
                dc = '\\';
            } else if e == '/' {
                dc = '/';
            } else if e == 'b' {
                dc = '\u{8}';
            } else if e == 't' {
                dc = '\u{9}';
            } else if e == 'n' {
                dc = '\u{a}';
            } else if e == 'f' {
                dc = '\u{c}';
            } else if e == 'r' {
                dc = '\u{d}';
            } else {
                return None;
            }
            proof {
                assert(spec_escape_code(s[1]) == Some(dc));
            }
            out.push(dc);
            let ghost mid = out@;
            proof {
                assert(cs@.skip(i + 2) =~= s.skip(2));
            }
            let rec = scan_string_into(cs, i + 2, out);
            match rec {
                Some(j) => {
                    proof {
                        lemma_scan_prepend_link(s, 2, dc, cs@.skip(i + 2), mid, old(out)@, out@, cs@.skip(j as int));
                        assert(spec_scan_string(s) == Some(
                            (out@.skip(old(out)@.len() as int), cs@.skip(j as int)),
                        ));
                    }
                    Some(j)
                },
                None => None,
            }
        }
    } else {
        out.push(c);
        let ghost mid = out@;
        proof {
            assert(cs@.skip(i + 1) =~= s.skip(1));
        }
        let rec = scan_string_into(cs, i + 1, out);
        match rec {
            Some(j) => {
                proof {
                    lemma_scan_prepend_link(s, 1, c, cs@.skip(i + 1), mid, old(out)@, out@, cs@.skip(j as int));
                    assert(spec_scan_string(s) == Some(
                        (out@.skip(old(out)@.len() as int), cs@.skip(j as int)),
                    ));
                }
                Some(j)
            },
            None => None,
        }
    }
}

/// Links one step of the scanner to the recursive call behind it: when the
/// accumulator went from `before` to `mid` by pushing `dc`, and the
/// recursive scan of `tail` extended `mid` to `after` and left `rest`, then
/// the whole scan of `s` extends `before` by `dc` followed by the recursive
/// contents.
proof fn lemma_scan_prepend_link(
    s: Seq<char>,
    step: int,
    dc: char,
    tail: Seq<char>,
    mid: Seq<char>,
    before: Seq<char>,
    after: Seq<char>,
    rest: Seq<char>,
)
    requires
        0 < step <= s.len(),
        tail == s.skip(step),
        mid == before.push(dc),
        after.len() >= mid.len(),
        after.take(mid.len() as int) == mid,
        spec_scan_string(tail) == Some((after.skip(mid.len() as int), rest)),
    ensures
        after.len() >= before.len(),
        after.take(before.len() as int) == before,
        seq![dc] + after.skip(mid.len() as int) == after.skip(before.len() as int),
{
    assert(after.take(before.len() as int) =~= before);
    assert(mid[before.len() as int] == dc);
    assert(after.take(mid.len() as int)[before.len() as int] == after[before.len() as int]);
    assert forall|t: int| 0 <= t < after.len() - before.len() implies (seq![dc] + after.skip(
        mid.len() as int,
    ))[t] == after.skip(before.len() as int)[t] by {
        if t == 0 {
            assert(after[before.len() as int] == dc);
        } else {
            assert(after.skip(mid.len() as int)[t - 1] == after[mid.len() + t - 1]);
            assert(after.skip(before.len() as int)[t] == after[before.len() + t]);
        }
    }
    assert(seq![dc] + after.skip(mid.len() as int) =~= after.skip(before.len() as int));
}

/// Decodes the compact JSON encoding of a package descriptor.
///
/// Returns the descriptor exactly when `spec_parse_package_json` accepts the
/// input: the fields in declared order, each value a JSON string literal,
/// no whitespace — the form the encoder produces.
#[verifier::rlimit(100)]
pub fn parse_package_json(s: &str) -> (r: Option<NpmPackage>)
    ensures
        match r {
            Some(p) => spec_parse_package_json(s@) == Some(p@),
            None => spec_parse_package_json(s@) is None,
        },
{
    let cs = str_chars(s);
    proof {
        assert(cs@.skip(0) =~= s@);
    }
    let k0 = match expect_at(&cs, 0, "{\"name\":\"") {
        Some(j) => j,
        None => {
            return None;
        },
    };
    let mut name: Vec<char> = Vec::new();
    let k1 = match scan_string_into(&cs, k0, &mut name) {
        Some(j) => j,
        None => {
            return None;
        },
    };
    let k2 = match expect_at(&cs, k1, ",\"description\":\"") {
        Some(j) => j,
        None => {
            return None;
        },
    };
    let mut description: Vec<char> = Vec::new();
    let k3 = match scan_string_into(&cs, k2, &mut description) {
        Some(j) => j,
        None => {
            return None;
        },
    };
    let k4 = match expect_at(&cs, k3, ",\"author\":\"") {
        Some(j) => j,
        None => {
            return None;
        },
    };
    let mut author: Vec<char> = Vec::new();
    let k5 = match scan_string_into(&cs, k4, &mut author) {
        Some(j) => j,
        None => {
            return None;
        },
    };
    let k6 = match expect_at(&cs, k5, ",\"version\":\"") {
        Some(j) => j,
        None => {
            return None;
        },
    };
    let mut version: Vec<char> = Vec::new();
    let k7 = match scan_string_into(&cs, k6, &mut version) {
        Some(j) => j,
        None => {
            return None;
        },
    };
    let k8 = match expect_at(&cs, k7, ",\"license\":\"") {
        Some(j) => j,
        None => {
            return None;
        },
    };
    let mut license: Vec<char> = Vec::new();
    let k9 = match scan_string_into(&cs, k8, &mut license) {
        Some(j) => j,
        None => {
            return None;
        },
    };
    let k10 = match expect_at(&cs, k9, ",\"repository\":{\"type\":\"") {
        Some(j) => j,
        None => {
            return None;
        },
    };
    let mut ty: Vec<char> = Vec::new();
    let k11 = match scan_string_into(&cs, k10, &mut ty) {
        Some(j) => j,
        None => {
            return None;
        },
    };
    let k12 = match expect_at(&cs, k11, ",\"url\":\"") {
        Some(j) => j,
        None => {
            return None;
        },
    };
    let mut url: Vec<char> = Vec::new();
    let k13 = match scan_string_into(&cs, k12, &mut url) {
        Some(j) => j,
        None => {
            return None;
        },
    };
    let k14 = match expect_at(&cs, k13, "}}") {
        Some(j) => j,
        None => {
            proof {
                assert(cs@.skip(k13 as int) != "}}"@);
            }
            return None;
        },
    };
    if k14 != cs.len() {
        proof {
            assert(cs@.skip(k13 as int).skip("}}"@.len() as int).len() == cs@.skip(
                k14 as int,
            ).len());
            assert(cs@.skip(k13 as int).len() > "}}"@.len());
            assert(cs@.skip(k13 as int) != "}}"@);
        }
        return None;
    }
    proof {
        assert(cs@.skip(k14 as int) =~= Seq::<char>::empty());
        assert(cs@.skip(k13 as int) =~= "}}"@ + cs@.skip(k14 as int));
        assert(cs@.skip(k13 as int) =~= "}}"@);
    }
    let p = NpmPackage {
        name: chars_to_string(&name),
        description: chars_to_string(&description),
        author: chars_to_string(&author),
        version: chars_to_string(&version),
        license: chars_to_string(&license),
        repository: crate::npm::Repository {
            ty: chars_to_string(&ty),
            url: chars_to_string(&url),
        },
    };
    proof {
        assert(name@.skip(0) =~= name@);
        assert(description@.skip(0) =~= description@);
        assert(author@.skip(0) =~= author@);
        assert(version@.skip(0) =~= version@);
        assert(license@.skip(0) =~= license@);
        assert(ty@.skip(0) =~= ty@);
        assert(url@.skip(0) =~= url@);
        assert(spec_parse_package_json(s@) == Some(p@));
    }
    Some(p)
}

/// Consuming a literal from the front of a document that starts with it
/// leaves the rest.
proof fn lemma_expect_concat(lit: Seq<char>, rest: Seq<char>)
    ensures
        spec_expect(lit + rest, lit) == Some(rest),
{
    assert(lit =~= (lit + rest).take(lit.len() as int));
    assert(lit.is_prefix_of(lit + rest));
    assert((lit + rest).skip(lit.len() as int) =~= rest);
}

/// The hexadecimal digit of a value decodes back to that value.
proof fn lemma_hex_digit_val(v: int)
    requires
        0 <= v < 16,
    ensures
        spec_hex_val(spec_hex_digit(v)) == Some(v),
{
}

/// Scanning the escaped form of `s`, followed by the closing quote and any
/// rest, recovers `s` and leaves the rest: the scanner inverts the escaper.
proof fn lemma_scan_escaped(s: Seq<char>, rest: Seq<char>)
    ensures
        spec_scan_string(spec_escape(s) + (seq!['"'] + rest)) == Some((s, rest)),
    decreases s.len(),
{
    let q = seq!['"'];
    let t = spec_escape(s) + (q + rest);
    if s.len() == 0 {
        assert(t =~= q + rest);
        assert(t[0] == '"');
        assert(t.skip(1) =~= rest);
        assert(s =~= Seq::<char>::empty());
    } else {
        let c = s[0];
        let tail = s.skip(1);
        lemma_scan_escaped(tail, rest);
        let t_tail = spec_escape(tail) + (q + rest);
        assert(spec_escape(s) == spec_escape_char(c) + spec_escape(tail));
        if c == '"' || c == '\\' || c == '\u{8}' || c == '\u{9}' || c == '\u{a}' || c == '\u{c}'
            || c == '\u{d}' {
            let x = spec_escape_char(c)[1];
            assert(spec_escape_char(c).len() == 2);
            assert(spec_escape_char(c)[0] == '\\');
            assert(spec_escape_code(x) == Some(c));
            assert(x != 'u');
            assert(t =~= spec_escape_char(c) + t_tail);
            assert(t[0] == '\\');
            assert(t[1] == x);
            assert(t.skip(2) =~= t_tail);
            assert(seq![c] + tail =~= s);
            assert(spec_scan_string(t) == Some((s, rest)));
        } else if (c as u32) < 0x20 {
            let v = (c as u32) as int;
            let hi = v / 16;
            let lo = v % 16;
            vstd::arithmetic::div_mod::lemma_fundamental_div_mod(v, 16);
            assert(hi * 16 + lo == v);
            assert(0 <= hi < 2 && 0 <= lo < 16);
            lemma_hex_digit_val(hi);
            lemma_hex_digit_val(lo);
            let ec = seq!['\\', 'u', '0', '0', spec_hex_digit(hi), spec_hex_digit(lo)];
            assert(spec_escape_char(c) == ec);
            assert(t =~= ec + t_tail);
            assert(t[0] == '\\');
            assert(t[1] == 'u');
            assert(t[2] == '0');
            assert(t[3] == '0');
            assert(t[4] == spec_hex_digit(hi));
            assert(t[5] == spec_hex_digit(lo));
            assert(t.len() >= 6);
            assert(spec_hex_digit(hi) != '"' && spec_hex_digit(hi) != '\\');
            assert(t.skip(6) =~= t_tail);
            vstd::utf8::char_u32_cast(c, c as u32);
            assert(((hi * 16 + lo) as u32) as char == c);
            assert(seq![c] + tail =~= s);
            assert(spec_scan_string(t) == Some((s, rest)));
        } else {
            assert(spec_escape_char(c) == seq![c]);
            assert(t =~= seq![c] + t_tail);
            assert(t[0] == c);
            assert(c != '"' && c != '\\');
            assert(t.skip(1) =~= t_tail);
            assert(seq![c] + tail =~= s);
            assert(spec_scan_string(t) == Some((s, rest)));
        }
    }
}

/// Consuming a field's opening literal and scanning its string literal
/// recovers the field's contents and leaves the rest of the document.
proof fn lemma_field_round(lit: Seq<char>, s: Seq<char>, rest: Seq<char>)
    ensures
        spec_field(spec_json_field(lit, s, rest), lit) == Some((s, rest)),
{
    lemma_expect_concat(lit, spec_escape(s) + (seq!['"'] + rest));
    lemma_scan_escaped(s, rest);
}

/// Decoding the encoding of any package descriptor gives the descriptor
/// back: every field — name, description, author, version, license,
/// `repository.ty` and `repository.url` — survives the round trip.
pub proof fn lemma_package_json_round_trip(p: NpmPackageView)
    ensures
        spec_parse_package_json(spec_package_json(p)) == Some(p),
{
    let t7 = spec_json_field(",\"url\":\""@, p.repository.url, "}}"@);
    let t6 = spec_json_field(",\"repository\":{\"type\":\""@, p.repository.ty, t7);
    let t5 = spec_json_field(",\"license\":\""@, p.license, t6);
    let t4 = spec_json_field(",\"version\":\""@, p.version, t5);
    let t3 = spec_json_field(",\"author\":\""@, p.author, t4);
    let t2 = spec_json_field(",\"description\":\""@, p.description, t3);
    let t1 = spec_json_field("{\"name\":\""@, p.name, t2);
    assert(t1 == spec_package_json(p));
    lemma_field_round("{\"name\":\""@, p.name, t2);
    lemma_field_round(",\"description\":\""@, p.description, t3);
    lemma_field_round(",\"author\":\""@, p.author, t4);
    lemma_field_round(",\"version\":\""@, p.version, t5);
    lemma_field_round(",\"license\":\""@, p.license, t6);
    lemma_field_round(",\"repository\":{\"type\":\""@, p.repository.ty, t7);
    lemma_field_round(",\"url\":\""@, p.repository.url, "}}"@);
}

/// Building a descriptor is a pure, total function of the manifest and the
/// author alone: identical inputs give the same descriptor, and its encoding
/// is the same character sequence — there is no hidden dependence on a
/// clock, randomness, or anything else.
pub proof fn lemma_build_deterministic(
    m1: CargoManifestView,
    a1: Seq<char>,
    m2: CargoManifestView,
    a2: Seq<char>,
)
    requires
        m1 == m2,
        a1 == a2,
    ensures
        spec_build_package(m1, a1) == spec_build_package(m2, a2),
        spec_package_json(spec_build_package(m1, a1)) == spec_package_json(
            spec_build_package(m2, a2),
        ),
{
}

} // verus!
