//! JSON encoding of records, and its inverse.
//!
//! A record is written as one flat object with the three string fields.
//! Escaping covers the quote, the backslash and every control character,
//! so the encoding is lossless: parsing a written record yields the
//! original fields again, which is proved below.

use vstd::prelude::*;
use crate::ScrapeResult;
use crate::strutil::{push_char, str_starts_with, str_eq, spec_starts_with};

verus! {

/// The lower-case hex digit of a value below sixteen.
pub open spec fn hex_digit(d: int) -> char {
    if d == 0 {
        '0'
    } else if d == 1 {
        '1'
    } else if d == 2 {
        '2'
    } else if d == 3 {
        '3'
    } else if d == 4 {
        '4'
    } else if d == 5 {
        '5'
    } else if d == 6 {
        '6'
    } else if d == 7 {
        '7'
    } else if d == 8 {
        '8'
    } else if d == 9 {
        '9'
    } else if d == 10 {
        'a'
    } else if d == 11 {
        'b'
    } else if d == 12 {
        'c'
    } else if d == 13 {
        'd'
    } else if d == 14 {
        'e'
    } else {
        'f'
    }
}

/// `c` is a lower-case hex digit.
pub open spec fn is_hex(c: char) -> bool {
    (48 <= c as u32 <= 57) || (97 <= c as u32 <= 102)
}

/// The value of a lower-case hex digit.
pub open spec fn hex_val(c: char) -> int {
    if 48 <= c as u32 <= 57 {
        c as u32 - 48
    } else {
        c as u32 - 87
    }
}

/// Writing a digit and reading it back is the identity.
pub proof fn lemma_hex_digit_val(d: int)
    requires
        0 <= d < 16,
    ensures
        is_hex(hex_digit(d)),
        hex_val(hex_digit(d)) == d,
{
}

/// How one character is escaped: quote and backslash by a backslash
/// pair, the common control characters by their short forms, any other
/// control character as a four-digit hex escape, the rest as themselves.
pub open spec fn escape_char(c: char) -> Seq<char> {
    if c == '"' {
        seq!['\\', '"']
    } else if c == '\\' {
        seq!['\\', '\\']
    } else if c == '\n' {
        seq!['\\', 'n']
    } else if c == '\r' {
        seq!['\\', 'r']
    } else if c == '\t' {
        seq!['\\', 't']
    } else if (c as u32) < 32 {
        seq!['\\', 'u', '0', '0', hex_digit(c as u32 as int / 16), hex_digit(c as u32 as int % 16)]
    } else {
        seq![c]
    }
}

/// A whole text, escaped character by character.
pub open spec fn escape_seq(s: Seq<char>) -> Seq<char>
    decreases s.len(),
{
    if s.len() == 0 {
        Seq::<char>::empty()
    } else {
        escape_char(s[0]) + escape_seq(s.drop_first())
    }
}

/// The short escapes, decoded.
pub open spec fn unescape_short(e: char) -> char {
    if e == 'n' {
        '\n'
    } else if e == 'r' {
        '\r'
    } else if e == 't' {
        '\t'
    } else {
        e
    }
}

/// Decode a JSON string body: the text up to the closing quote, and
/// whatever follows that quote. Nothing is yielded when the body is
/// unterminated or an escape is malformed.
pub open spec fn spec_scan(s: Seq<char>) -> Option<(Seq<char>, Seq<char>)>
    decreases s.len(),
{
    if s.len() == 0 {
        Option::None
    } else if s[0] == '"' {
        Option::Some((Seq::<char>::empty(), s.drop_first()))
    } else if s[0] == '\\' {
        if s.len() < 2 {
            Option::None
        } else if s[1] == '"' || s[1] == '\\' || s[1] == 'n' || s[1] == 'r' || s[1] == 't' {
            match spec_scan(s.skip(2)) {
                Option::Some(p) => Option::Some((seq![unescape_short(s[1])] + p.0, p.1)),
                Option::None => Option::None,
            }
        } else if s[1] == 'u' {
            if s.len() < 6 {
                Option::None
            } else if s[2] == '0' && s[3] == '0' && is_hex(s[4]) && is_hex(s[5]) {
                match spec_scan(s.skip(6)) {
                    Option::Some(p) => Option::Some(
                        (seq![((hex_val(s[4]) * 16 + hex_val(s[5])) as u32) as char] + p.0, p.1),
                    ),
                    Option::None => Option::None,
                }
            } else {
                Option::None
            }
        } else {
            Option::None
        }
    } else {
        match spec_scan(s.drop_first()) {
            Option::Some(p) => Option::Some((seq![s[0]] + p.0, p.1)),
            Option::None => Option::None,
        }
    }
}

/// What remains of `s` after the prefix `p`, when `s` starts with it.
pub open spec fn strip_prefix(s: Seq<char>, p: Seq<char>) -> Option<Seq<char>> {
    if spec_starts_with(s, p) {
        Option::Some(s.skip(p.len() as int))
    } else {
        Option::None
    }
}

/// The JSON text of a record with these three fields.
pub open spec fn json_record(t: Seq<char>, img: Seq<char>, href: Seq<char>) -> Seq<char> {
    "{\"title\":\""@ + escape_seq(t) + "\",\"img\":\""@ + escape_seq(img) + "\",\"href\":\""@
        + escape_seq(href) + "\"}"@
}

/// The three fields read back from a record's JSON text; nothing when
/// the text is not exactly one record object.
pub open spec fn spec_parse_record(s: Seq<char>) -> Option<(Seq<char>, Seq<char>, Seq<char>)> {
    match strip_prefix(s, "{\"title\":\""@) {
        Option::None => Option::None,
        Option::Some(s1) => match spec_scan(s1) {
            Option::None => Option::None,
            Option::Some(tp) => match strip_prefix(tp.1, ",\"img\":\""@) {
                Option::None => Option::None,
                Option::Some(s2) => match spec_scan(s2) {
                    Option::None => Option::None,
                    Option::Some(ip) => match strip_prefix(ip.1, ",\"href\":\""@) {
                        Option::None => Option::None,
                        Option::Some(s3) => match spec_scan(s3) {
                            Option::None => Option::None,
                            Option::Some(hp) => if hp.1 == "}"@ {
                                Option::Some((tp.0, ip.0, hp.0))
                            } else {
                                Option::None
                            },
                        },
                    },
                },
            },
        },
    }
}

/// The hex digit character for a value below sixteen.
fn hex_digit_char(d: u32) -> (c: char)
    requires
        d < 16,
    ensures
        c == hex_digit(d as int),
{
    match d {
        0 => '0',
        1 => '1',
        2 => '2',
        3 => '3',
        4 => '4',
        5 => '5',
        6 => '6',
        7 => '7',
        8 => '8',
        9 => '9',
        10 => 'a',
        11 => 'b',
        12 => 'c',
        13 => 'd',
        14 => 'e',
        _ => 'f',
    }
}

/// Append the escaped text to the buffer.
#[verifier::loop_isolation(false)]
pub fn escape_into(out: &mut String, s: &str)
    ensures
        final(out)@ == old(out)@ + escape_seq(s@),
{
    let len = s.unicode_len();
    let mut i: usize = 0;
    proof {
        assert(s@.skip(0) =~= s@);
    }
    while i < len
        invariant
            i <= len,
            len == s@.len(),
            out@ + escape_seq(s@.skip(i as int)) == old(out)@ + escape_seq(s@),
        decreases len - i,
    {
        let c = s.get_char(i);
        let ghost tail = s@.skip(i as int);
        proof {
            assert(tail.len() > 0);
            assert(tail[0] == s@[i as int]);
            assert(tail.drop_first() =~= s@.skip(i + 1));
            assert(escape_seq(tail) == escape_char(c) + escape_seq(s@.skip(i + 1)));
        }
        let ghost before = out@;
        if c == '"' {
            push_char(out, '\\');
            push_char(out, '"');
        } else if c == '\\' {
            push_char(out, '\\');
            push_char(out, '\\');
        } else if c == '\n' {
            push_char(out, '\\');
            push_char(out, 'n');
        } else if c == '\r' {
            push_char(out, '\\');
            push_char(out, 'r');
        } else if c == '\t' {
            push_char(out, '\\');
            push_char(out, 't');
        } else if (c as u32) < 32 {
            let cv: u32 = c as u32;
            push_char(out, '\\');
            push_char(out, 'u');
            push_char(out, '0');
            push_char(out, '0');
            push_char(out, hex_digit_char(cv / 16));
            push_char(out, hex_digit_char(cv % 16));
        } else {
            push_char(out, c);
        }
        proof {
            assert(out@ =~= before + escape_char(c));
            assert(out@ + escape_seq(s@.skip(i + 1)) =~= before + escape_seq(tail));
        }
        i += 1;
    }
    proof {
        assert(s@.skip(len as int) =~= Seq::<char>::empty());
        assert(escape_seq(Seq::<char>::empty()) =~= Seq::<char>::empty());
        assert(out@ =~= out@ + escape_seq(s@.skip(len as int)));
        assert(out@ =~= old(out)@ + escape_seq(s@));
    }
}

/// Write one record as its JSON object.
pub fn to_json(rec: &ScrapeResult) -> (r: String)
    ensures
        r@ == json_record(rec.title@, rec.img@, rec.href@),
{
    let mut out = String::from_str("{\"title\":\"");
    escape_into(&mut out, rec.title.as_str());
    out.append("\",\"img\":\"");
    escape_into(&mut out, rec.img.as_str());
    out.append("\",\"href\":\"");
    escape_into(&mut out, rec.href.as_str());
    out.append("\"}");
    out
}

/// Write one record as a newline-terminated JSON line, as a stream
/// delivers it.
pub fn json_line(rec: &ScrapeResult) -> (r: String)
    ensures
        r@ == json_record(rec.title@, rec.img@, rec.href@) + "\n"@,
{
    let mut out = to_json(rec);
    out.append("\n");
    out
}

/// Decode a JSON string body from the front of `s`: the decoded text
/// and the number of characters consumed, the closing quote included.
pub fn scan_json_string(s: &str) -> (r: Option<(String, usize)>)
    ensures
        (match r {
            Option::Some(p) => p.1 <= s@.len() && spec_scan(s@) == Option::Some(
                (p.0@, s@.skip(p.1 as int)),
            ),
            Option::None => spec_scan(s@) is None,
        }),
    decreases s@.len(),
{
    let len = s.unicode_len();
    if len == 0 {
        return None;
    }
    let c = s.get_char(0);
    if c == '"' {
        proof {
            assert(s@.drop_first() =~= s@.skip(1));
        }
        return Some((String::new(), 1));
    }
    if c == '\\' {
        if len < 2 {
            return None;
        }
        let e = s.get_char(1);
        if e == '"' || e == '\\' || e == 'n' || e == 'r' || e == 't' {
            let d: char = if e == 'n' {
                '\n'
            } else if e == 'r' {
                '\r'
            } else if e == 't' {
                '\t'
            } else {
                e
            };
            let tail = s.substring_char(2, len);
            proof {
                assert(tail@ =~= s@.skip(2));
            }
            match scan_json_string(tail) {
                Option::Some(p) => {
                    let (t, m) = p;
                    let mut head = String::new();
                    push_char(&mut head, d);
                    head.append(t.as_str());
                    proof {
                        assert(head@ =~= seq![d] + t@);
                        assert(s@.skip(2).skip(m as int) =~= s@.skip(2 + m));
                    }
                    return Some((head, 2 + m));
                },
                Option::None => {
                    return None;
                },
            }
        } else if e == 'u' {
            if len < 6 {
                return None;
            }
            let h2 = s.get_char(2);
            let h3 = s.get_char(3);
            let h4 = s.get_char(4);
            let h5 = s.get_char(5);
            let hex4 = {
                let v: u32 = h4 as u32;
                (48 <= v && v <= 57) || (97 <= v && v <= 102)
            };
            let hex5 = {
                let v: u32 = h5 as u32;
                (48 <= v && v <= 57) || (97 <= v && v <= 102)
            };
            if h2 == '0' && h3 == '0' && hex4 && hex5 {
                let v4: u32 = if h4 as u32 <= 57 {
                    h4 as u32 - 48
                } else {
                    h4 as u32 - 87
                };
                let v5: u32 = if h5 as u32 <= 57 {
                    h5 as u32 - 48
                } else {
                    h5 as u32 - 87
                };
                let v: u32 = v4 * 16 + v5;
                let d: char = char_of_code(v);
                let tail = s.substring_char(6, len);
                proof {
                    assert(tail@ =~= s@.skip(6));
                }
                match scan_json_string(tail) {
                    Option::Some(p) => {
                        let (t, m) = p;
                        let mut head = String::new();
                        push_char(&mut head, d);
                        head.append(t.as_str());
                        proof {
                            assert(head@ =~= seq![d] + t@);
                            assert(s@.skip(6).skip(m as int) =~= s@.skip(6 + m));
                        }
                        return Some((head, 6 + m));
                    },
                    Option::None => {
                        return None;
                    },
                }
            } else {
                return None;
            }
        } else {
            return None;
        }
    }
    let tail = s.substring_char(1, len);
    proof {
        assert(tail@ =~= s@.skip(1));
        assert(s@.drop_first() =~= s@.skip(1));
    }
    match scan_json_string(tail) {
        Option::Some(p) => {
            let (t, m) = p;
            let mut head = String::new();
            push_char(&mut head, c);
            head.append(t.as_str());
            proof {
                assert(head@ =~= seq![c] + t@);
                assert(s@.skip(1).skip(m as int) =~= s@.skip(1 + m));
            }
            Some((head, 1 + m))
        },
        Option::None => None,
    }
}

/// Relies on `char::from_u32`: the scalar with this code point; codes
/// below 256 always have one.
#[verifier::external_body]
fn char_of_code(v: u32) -> (c: char)
    requires
        v < 256,
    ensures
        c == (v as char),
{
    char::from_u32(v).unwrap()
}

/// The JSON texts of a sequence of records.
pub open spec fn record_jsons(recs: Seq<ScrapeResult>) -> Seq<Seq<char>> {
    recs.map_values(|r: ScrapeResult| json_record(r.title@, r.img@, r.href@))
}

/// The JSON array holding each record's object, in order.
pub open spec fn json_array_of(recs: Seq<ScrapeResult>) -> Seq<char> {
    "["@ + crate::strutil::seq_join(record_jsons(recs), ","@) + "]"@
}

/// Write the records as one JSON array, as collect mode delivers them.
#[verifier::loop_isolation(false)]
pub fn json_array(recs: &Vec<ScrapeResult>) -> (r: String)
    ensures
        r@ == json_array_of(recs@),
{
    let mut body = String::new();
    let mut i: usize = 0;
    while i < recs.len()
        invariant
            i <= recs@.len(),
            body@ == crate::strutil::seq_join(record_jsons(recs@.subrange(0, i as int)), ","@),
        decreases recs@.len() - i,
    {
        if i > 0 {
            body.append(",");
        }
        let piece = to_json(&recs[i]);
        body.append(piece.as_str());
        proof {
            let pre = record_jsons(recs@.subrange(0, i as int));
            crate::strutil::lemma_seq_join_push(pre, ","@, piece@);
            assert(record_jsons(recs@.subrange(0, i + 1)) =~= pre.push(piece@));
        }
        i += 1;
    }
    proof {
        assert(recs@.subrange(0, recs@.len() as int) =~= recs@);
    }
    let mut out = String::from_str("[");
    out.append(body.as_str());
    out.append("]");
    out
}

/// Stripping a prefix that is literally there leaves the rest.
proof fn lemma_strip(p: Seq<char>, rest: Seq<char>)
    ensures
        strip_prefix(p + rest, p) == Option::Some(rest),
{
    assert(spec_starts_with(p + rest, p));
    assert((p + rest).skip(p.len() as int) =~= rest);
}

/// Scanning the escaped text, a closing quote and a tail yields the
/// text and the tail: escaping loses nothing.
proof fn lemma_scan_escape(t: Seq<char>, rest: Seq<char>)
    ensures
        spec_scan(escape_seq(t) + seq!['"'] + rest) == Option::Some((t, rest)),
    decreases t.len(),
{
    let s = escape_seq(t) + seq!['"'] + rest;
    if t.len() == 0 {
        assert(s =~= seq!['"'] + rest);
        assert(s[0] == '"');
        assert(s.drop_first() =~= rest);
    } else {
        let c = t[0];
        let t2 = t.drop_first();
        let inner = escape_seq(t2) + seq!['"'] + rest;
        lemma_scan_escape(t2, rest);
        assert(escape_seq(t) == escape_char(c) + escape_seq(t2));
        assert(s =~= escape_char(c) + inner);
        assert(seq![c] + t2 =~= t);
        if c == '"' {
            assert(s[0] == '\\' && s[1] == '"');
            assert(s.skip(2) =~= inner);
            assert(unescape_short('"') == '"');
        } else if c == '\\' {
            assert(s[0] == '\\' && s[1] == '\\');
            assert(s.skip(2) =~= inner);
        } else if c == '\n' {
            assert(s[0] == '\\' && s[1] == 'n');
            assert(s.skip(2) =~= inner);
            assert(unescape_short('n') == '\n');
        } else if c == '\r' {
            assert(s[0] == '\\' && s[1] == 'r');
            assert(s.skip(2) =~= inner);
        } else if c == '\t' {
            assert(s[0] == '\\' && s[1] == 't');
            assert(s.skip(2) =~= inner);
        } else if (c as u32) < 32 {
            let v = c as u32 as int;
            assert(s[0] == '\\' && s[1] == 'u' && s[2] == '0' && s[3] == '0');
            assert(s[4] == hex_digit(v / 16) && s[5] == hex_digit(v % 16));
            lemma_hex_digit_val(v / 16);
            lemma_hex_digit_val(v % 16);
            vstd::arithmetic::div_mod::lemma_fundamental_div_mod(v, 16);
            assert(hex_val(s[4]) * 16 + hex_val(s[5]) == v);
            vstd::utf8::char_u32_cast(c, c as u32);
            assert(((hex_val(s[4]) * 16 + hex_val(s[5])) as u32) as char == c);
            assert(s.skip(6) =~= inner);
        } else {
            assert(s[0] == c);
            assert(c != '"' && c != '\\');
            assert(s.drop_first() =~= inner);
        }
    }
}

/// Writing a record and reading it back yields the three original
/// fields unchanged: the encoding is lossless for this flat shape.
pub proof fn lemma_json_round_trip(t: Seq<char>, img: Seq<char>, href: Seq<char>)
    ensures
        spec_parse_record(json_record(t, img, href)) == Option::Some((t, img, href)),
{
    reveal_strlit("{\"title\":\"");
    reveal_strlit("\",\"img\":\"");
    reveal_strlit("\",\"href\":\"");
    reveal_strlit("\"}");
    reveal_strlit(",\"img\":\"");
    reveal_strlit(",\"href\":\"");
    reveal_strlit("}");
    let l1 = "{\"title\":\""@;
    let l2 = "\",\"img\":\""@;
    let l3 = "\",\"href\":\""@;
    let l4 = "\"}"@;
    let p2 = ",\"img\":\""@;
    let p3 = ",\"href\":\""@;
    assert(l2 =~= seq!['"'] + p2);
    assert(l3 =~= seq!['"'] + p3);
    assert(l4 =~= seq!['"'] + "}"@);
    let r3 = "}"@;
    let s3 = escape_seq(href) + seq!['"'] + r3;
    let r2 = p3 + s3;
    let s2 = escape_seq(img) + seq!['"'] + r2;
    let r1 = p2 + s2;
    let s1 = escape_seq(t) + seq!['"'] + r1;
    let s = l1 + s1;
    assert(s =~= json_record(t, img, href));
    lemma_strip(l1, s1);
    lemma_scan_escape(t, r1);
    lemma_strip(p2, s2);
    lemma_scan_escape(img, r2);
    lemma_strip(p3, s3);
    lemma_scan_escape(href, r3);
    assert(spec_parse_record(json_record(t, img, href)) == Option::Some((t, img, href)));
}

/// Read one record back from its JSON text.
pub fn parse_record(s: &str) -> (r: Option<ScrapeResult>)
    ensures
        (match spec_parse_record(s@) {
            Option::Some(f) => r matches Some(rec) && rec.title@ == f.0 && rec.img@ == f.1
                && rec.href@ == f.2,
            Option::None => r is None,
        }),
{
    let len = s.unicode_len();
    let p1 = "{\"title\":\"";
    if !str_starts_with(s, p1) {
        return None;
    }
    let rest1 = s.substring_char(p1.unicode_len(), len);
    proof {
        assert(rest1@ =~= s@.skip(p1@.len() as int));
    }
    let (title, n1) = match scan_json_string(rest1) {
        Option::Some(p) => p,
        Option::None => {
            return None;
        },
    };
    let rest1_len = rest1.unicode_len();
    let rest2 = rest1.substring_char(n1, rest1_len);
    proof {
        assert(rest2@ =~= rest1@.skip(n1 as int));
    }
    let p2 = ",\"img\":\"";
    if !str_starts_with(rest2, p2) {
        return None;
    }
    let rest3 = rest2.substring_char(p2.unicode_len(), rest2.unicode_len());
    proof {
        assert(rest3@ =~= rest2@.skip(p2@.len() as int));
    }
    let (img, n2) = match scan_json_string(rest3) {
        Option::Some(p) => p,
        Option::None => {
            return None;
        },
    };
    let rest4 = rest3.substring_char(n2, rest3.unicode_len());
    proof {
        assert(rest4@ =~= rest3@.skip(n2 as int));
    }
    let p3 = ",\"href\":\"";
    if !str_starts_with(rest4, p3) {
        return None;
    }
    let rest5 = rest4.substring_char(p3.unicode_len(), rest4.unicode_len());
    proof {
        assert(rest5@ =~= rest4@.skip(p3@.len() as int));
    }
    let (href, n3) = match scan_json_string(rest5) {
        Option::Some(p) => p,
        Option::None => {
            return None;
        },
    };
    let rest6 = rest5.substring_char(n3, rest5.unicode_len());
    proof {
        assert(rest6@ =~= rest5@.skip(n3 as int));
    }
    if !str_eq(rest6, "}") {
        return None;
    }
    Some(ScrapeResult { title, img, href })
}

} // verus!
