//! Text pieces of the standalone HTML viewer export: HTML escaping and the
//! classic-script payload that carries the SPZ bytes.
//!
//! The page template itself embeds the viewer's floating-point camera and
//! rendering profile and is assembled outside this crate.

use vstd::prelude::*;

use base64::Engine;

use crate::text::{push_str, string_from};

verus! {

broadcast use vstd::string::group_string_axioms;

pub const SCENE_JS: &'static str = "scene.js";

/// What one character becomes in escaped HTML text.
pub open spec fn escaped_char(c: char) -> Seq<char> {
    if c == '&' {
        "&amp;"@
    } else if c == '<' {
        "&lt;"@
    } else if c == '>' {
        "&gt;"@
    } else if c == '"' {
        "&quot;"@
    } else {
        seq![c]
    }
}

/// `&`, `<`, `>` and `"` replaced by their entities, everything else kept.
pub open spec fn escaped(s: Seq<char>) -> Seq<char>
    decreases s.len(),
{
    if s.len() == 0 {
        seq![]
    } else {
        escaped(s.drop_last()) + escaped_char(s.last())
    }
}

/// Escaped text holds no `<`, `>` or `"`: whatever it was, it cannot open a
/// tag or close an attribute.
pub proof fn law_escaped_text_has_no_markup(s: Seq<char>)
    ensures
        !escaped(s).contains('<'),
        !escaped(s).contains('>'),
        !escaped(s).contains('"'),
    decreases s.len(),
{
    reveal_strlit("&amp;");
    reveal_strlit("&lt;");
    reveal_strlit("&gt;");
    reveal_strlit("&quot;");
    if s.len() > 0 {
        law_escaped_text_has_no_markup(s.drop_last());
        let a = escaped(s.drop_last());
        let b = escaped_char(s.last());
        assert forall|c: char| c == '<' || c == '>' || c == '"' implies !(a + b).contains(c) by {
            if (a + b).contains(c) {
                let i = choose|i: int| 0 <= i < (a + b).len() && #[trigger] (a + b)[i] == c;
                if i < a.len() {
                    assert(a[i] == c);
                } else {
                    assert(b[i - a.len()] == c);
                }
            }
        }
    }
}

pub open spec fn amp_entity() -> Seq<char> {
    seq!['&', 'a', 'm', 'p', ';']
}

pub open spec fn lt_entity() -> Seq<char> {
    seq!['&', 'l', 't', ';']
}

pub open spec fn gt_entity() -> Seq<char> {
    seq!['&', 'g', 't', ';']
}

pub open spec fn quot_entity() -> Seq<char> {
    seq!['&', 'q', 'u', 'o', 't', ';']
}

/// `e` begins `t`.
pub open spec fn begins_with(t: Seq<char>, e: Seq<char>) -> bool {
    e.len() <= t.len() && t.take(e.len() as int) == e
}

/// What a browser reads back from HTML text: the entities `&amp;`, `&lt;`,
/// `&gt;` and `&quot;` become `&`, `<`, `>` and `"`; every other character
/// stands for itself.
pub open spec fn unescaped(t: Seq<char>) -> Seq<char>
    decreases t.len(),
{
    if t.len() == 0 {
        seq![]
    } else if begins_with(t, amp_entity()) {
        seq!['&'] + unescaped(t.skip(5))
    } else if begins_with(t, lt_entity()) {
        seq!['<'] + unescaped(t.skip(4))
    } else if begins_with(t, gt_entity()) {
        seq!['>'] + unescaped(t.skip(4))
    } else if begins_with(t, quot_entity()) {
        seq!['"'] + unescaped(t.skip(6))
    } else {
        seq![t[0]] + unescaped(t.skip(1))
    }
}

proof fn lemma_escaped_concat(a: Seq<char>, b: Seq<char>)
    ensures
        escaped(a + b) == escaped(a) + escaped(b),
    decreases b.len(),
{
    if b.len() == 0 {
        assert(a + b =~= a);
        assert(escaped(a) + escaped(b) =~= escaped(a));
    } else {
        lemma_escaped_concat(a, b.drop_last());
        assert((a + b).drop_last() =~= a + b.drop_last());
        assert((a + b).last() == b.last());
        assert(escaped(a + b) =~= escaped(a) + escaped(b));
    }
}

proof fn lemma_unescape_one(c: char, r: Seq<char>)
    ensures
        unescaped(escaped_char(c) + r) == seq![c] + unescaped(r),
{
    reveal_strlit("&amp;");
    reveal_strlit("&lt;");
    reveal_strlit("&gt;");
    reveal_strlit("&quot;");
    let t = escaped_char(c) + r;
    if c == '&' {
        assert(escaped_char(c) =~= amp_entity());
        assert(t.take(5) =~= amp_entity());
        assert(t.skip(5) =~= r);
    } else if c == '<' {
        assert(escaped_char(c) =~= lt_entity());
        assert(t[1] == 'l');
        assert(!begins_with(t, amp_entity())) by {
            if begins_with(t, amp_entity()) {
                assert(t.take(5)[1] == 'a');
            }
        }
        assert(t.take(4) =~= lt_entity());
        assert(t.skip(4) =~= r);
    } else if c == '>' {
        assert(escaped_char(c) =~= gt_entity());
        assert(t[1] == 'g');
        assert(!begins_with(t, amp_entity())) by {
            if begins_with(t, amp_entity()) {
                assert(t.take(5)[1] == 'a');
            }
        }
        assert(!begins_with(t, lt_entity())) by {
            if begins_with(t, lt_entity()) {
                assert(t.take(4)[1] == 'l');
            }
        }
        assert(t.take(4) =~= gt_entity());
        assert(t.skip(4) =~= r);
    } else if c == '"' {
        assert(escaped_char(c) =~= quot_entity());
        assert(t[1] == 'q');
        assert(!begins_with(t, amp_entity())) by {
            if begins_with(t, amp_entity()) {
                assert(t.take(5)[1] == 'a');
            }
        }
        assert(!begins_with(t, lt_entity())) by {
            if begins_with(t, lt_entity()) {
                assert(t.take(4)[1] == 'l');
            }
        }
        assert(!begins_with(t, gt_entity())) by {
            if begins_with(t, gt_entity()) {
                assert(t.take(4)[1] == 'g');
            }
        }
        assert(t.take(6) =~= quot_entity());
        assert(t.skip(6) =~= r);
    } else {
        assert(escaped_char(c) =~= seq![c]);
        assert(t[0] == c);
        assert(!begins_with(t, amp_entity())) by {
            if begins_with(t, amp_entity()) {
                assert(t.take(5)[0] == '&');
            }
        }
        assert(!begins_with(t, lt_entity())) by {
            if begins_with(t, lt_entity()) {
                assert(t.take(4)[0] == '&');
            }
        }
        assert(!begins_with(t, gt_entity())) by {
            if begins_with(t, gt_entity()) {
                assert(t.take(4)[0] == '&');
            }
        }
        assert(!begins_with(t, quot_entity())) by {
            if begins_with(t, quot_entity()) {
                assert(t.take(6)[0] == '&');
            }
        }
        assert(t.skip(1) =~= r);
    }
}

/// Escaping loses nothing: reading the escaped text back as HTML gives the
/// original text, character for character (accents, emoji and all).
pub proof fn law_escaping_round_trips(s: Seq<char>)
    ensures
        unescaped(escaped(s)) == s,
    decreases s.len(),
{
    if s.len() > 0 {
        let r = s.skip(1);
        assert(s =~= seq![s[0]] + r);
        lemma_escaped_concat(seq![s[0]], r);
        let x = seq![s[0]];
        assert(x.drop_last() =~= Seq::<char>::empty());
        assert(x.last() == s[0]);
        assert(escaped(x.drop_last()).len() == 0);
        assert(escaped(x) == escaped(x.drop_last()) + escaped_char(x.last()));
        assert(escaped(x) =~= escaped_char(s[0]));
        lemma_unescape_one(s[0], escaped(r));
        law_escaping_round_trips(r);
        assert(seq![s[0]] + r =~= s);
    }
}

pub fn escape_html(text: &str) -> (r: String)
    ensures
        r@ == escaped(text@),
{
    let mut out: Vec<char> = Vec::new();
    for c in it: text.chars()
        invariant
            out@ == escaped(it.seq().take(it.index() as int)),
            it.seq() == text@,
    {
        let ghost before = it.seq().take(it.index() as int);
        if c == '&' {
            push_str(&mut out, "&amp;");
        } else if c == '<' {
            push_str(&mut out, "&lt;");
        } else if c == '>' {
            push_str(&mut out, "&gt;");
        } else if c == '"' {
            push_str(&mut out, "&quot;");
        } else {
            out.push(c);
        }
        assert(it.seq().take(it.index() + 1).drop_last() =~= before);
        assert(out@ =~= escaped(it.seq().take(it.index() + 1)));
    }
    assert(text@.take(text@.len() as int) =~= text@);
    string_from(&out)
}

/// The character for a 6-bit value in the standard base64 alphabet
/// (`A`–`Z`, `a`–`z`, `0`–`9`, `+`, `/`).
pub open spec fn base64_digit(v: int) -> char {
    if v < 26 {
        (65 + v) as char
    } else if v < 52 {
        (97 + v - 26) as char
    } else if v < 62 {
        (48 + v - 52) as char
    } else if v == 62 {
        '+'
    } else {
        '/'
    }
}

/// Standard padded base64 (RFC 4648): each group of three bytes becomes four
/// characters of six bits each; a final group of one or two bytes is padded
/// with `=` to four characters.
pub open spec fn base64_standard(bytes: Seq<u8>) -> Seq<char>
    decreases bytes.len(),
{
    if bytes.len() == 0 {
        seq![]
    } else if bytes.len() == 1 {
        let a = bytes[0] as int;
        seq![base64_digit(a / 4), base64_digit((a % 4) * 16), '=', '=']
    } else if bytes.len() == 2 {
        let a = bytes[0] as int;
        let b = bytes[1] as int;
        seq![
            base64_digit(a / 4),
            base64_digit((a % 4) * 16 + b / 16),
            base64_digit((b % 16) * 4),
            '=',
        ]
    } else {
        let a = bytes[0] as int;
        let b = bytes[1] as int;
        let c = bytes[2] as int;
        seq![
            base64_digit(a / 4),
            base64_digit((a % 4) * 16 + b / 16),
            base64_digit((b % 16) * 4 + c / 64),
            base64_digit(c % 64),
        ] + base64_standard(bytes.skip(3))
    }
}

/// base64 `engine::general_purpose::STANDARD.encode`: the standard alphabet
/// with `=` padding, so the text is the standard base64 of the bytes.
#[verifier::external_body]
/// The crate panics when the encoded length does not fit in `usize`; such
/// inputs are left out.
fn base64_encode(bytes: &[u8]) -> (r: String)
    requires
        bytes@.len() / 3 * 4 + 4 <= usize::MAX,
    ensures
        r@ == base64_standard(bytes@),
{
    base64::engine::general_purpose::STANDARD.encode(bytes)
}

pub open spec fn scene_js_text(b64: Seq<char>) -> Seq<char> {
    "globalThis.SCENE_SPZ_B64 = \""@ + b64 + "\";\n"@
}

/// The classic script that defines the scene's base64 text.
pub fn scene_js_from_base64(b64: &str) -> (r: String)
    ensures
        r@ == scene_js_text(b64@),
{
    let mut out: Vec<char> = Vec::new();
    push_str(&mut out, "globalThis.SCENE_SPZ_B64 = \"");
    push_str(&mut out, b64);
    push_str(&mut out, "\";\n");
    string_from(&out)
}

/// Classic script so `file://` pages can load the splat without a CORS-blocked fetch.
pub fn scene_js_payload(spz: &[u8]) -> (r: String)
    requires
        spz@.len() / 3 * 4 + 4 <= usize::MAX,
    ensures
        r@ == scene_js_text(base64_standard(spz@)),
{
    let b64 = base64_encode(spz);
    scene_js_from_base64(b64.as_str())
}

} // verus!
