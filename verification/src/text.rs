//! Character-level string helpers shared by the parsing and formatting code.
//!
//! Texts are modelled as `Seq<char>`; the executable helpers work on
//! `Vec<char>` and `String` and are proved against the spec functions here.

use vstd::prelude::*;
use vstd::string::*;

verus! {

// ---------------------------------------------------------------------------
// Trusted std calls that vstd does not specify
// ---------------------------------------------------------------------------

/// Appends one character to a string (`String::push`).
/// Claimed: the new contents are the old ones followed by `c`.
#[verifier::external_body]
pub(crate) fn push_char(s: &mut String, c: char)
    ensures
        final(s)@ == old(s)@.push(c),
{
    s.push(c);
}

/// What `str::to_lowercase` returns for a text: its lowercase equivalent
/// under the Unicode `Lowercase` property.
pub uninterp spec fn lowercase_of(s: Seq<char>) -> Seq<char>;

/// Lowercases a text with `str::to_lowercase`.
/// Claimed: the result is `lowercase_of` the argument; nothing more is
/// stated of the Unicode case mapping.
#[verifier::external_body]
pub(crate) fn to_lowercase(s: &str) -> (r: String)
    ensures
        r@ == lowercase_of(s@),
{
    s.to_lowercase()
}

// ---------------------------------------------------------------------------
// White space
// ---------------------------------------------------------------------------

/// Whether a character has the Unicode `White_Space` property, the test of
/// `char::is_whitespace`: U+0009 to U+000D, U+0020, U+0085, U+00A0,
/// U+1680, U+2000 to U+200A, U+2028, U+2029, U+202F, U+205F and U+3000.
pub open spec fn is_white_space(c: char) -> bool {
    ||| '\u{9}' <= c && c <= '\u{d}'
    ||| c == ' '
    ||| c == '\u{85}'
    ||| c == '\u{a0}'
    ||| c == '\u{1680}'
    ||| '\u{2000}' <= c && c <= '\u{200a}'
    ||| c == '\u{2028}'
    ||| c == '\u{2029}'
    ||| c == '\u{202f}'
    ||| c == '\u{205f}'
    ||| c == '\u{3000}'
}

/// Whether a character is white space (as `char::is_whitespace`).
pub(crate) fn char_is_whitespace(c: char) -> (b: bool)
    ensures
        b == is_white_space(c),
{
    ('\u{9}' <= c && c <= '\u{d}') || c == ' ' || c == '\u{85}' || c == '\u{a0}'
        || c == '\u{1680}' || ('\u{2000}' <= c && c <= '\u{200a}') || c == '\u{2028}'
        || c == '\u{2029}' || c == '\u{202f}' || c == '\u{205f}' || c == '\u{3000}'
}

// ---------------------------------------------------------------------------
// Conversions between &str, String and Vec<char>
// ---------------------------------------------------------------------------

/// The characters of `s`, in order.
pub fn chars_of(s: &str) -> (r: Vec<char>)
    ensures
        r@ == s@,
{
    let n = s.unicode_len();
    let mut r: Vec<char> = Vec::new();
    let mut i: usize = 0;
    while i < n
        invariant
            n == s@.len(),
            i <= n,
            r@ == s@.take(i as int),
        decreases n - i,
    {
        let c = s.get_char(i);
        r.push(c);
        i = i + 1;
        assert(r@ =~= s@.take(i as int));
    }
    assert(r@ =~= s@);
    r
}

/// Appends the characters `cs` to `out`.
pub fn push_chars(out: &mut String, cs: &Vec<char>)
    ensures
        final(out)@ == old(out)@ + cs@,
{
    let mut i: usize = 0;
    while i < cs.len()
        invariant
            i <= cs.len(),
            out@ == old(out)@ + cs@.take(i as int),
        decreases cs.len() - i,
    {
        push_char(out, cs[i]);
        i = i + 1;
        assert(out@ =~= old(out)@ + cs@.take(i as int));
    }
    assert(cs@.take(cs.len() as int) =~= cs@);
}

/// A string made of the characters `cs`.
pub fn string_of(cs: &Vec<char>) -> (r: String)
    ensures
        r@ == cs@,
{
    let mut r = String::new();
    push_chars(&mut r, cs);
    assert(r@ =~= cs@);
    r
}

/// Whether two texts are equal, character for character.
pub fn same_text(a: &str, b: &str) -> (r: bool)
    ensures
        r == (a@ == b@),
{
    let n = a.unicode_len();
    let m = b.unicode_len();
    if n != m {
        return false;
    }
    let mut i: usize = 0;
    while i < n
        invariant
            n == a@.len(),
            m == b@.len(),
            n == m,
            i <= n,
            forall|j: int| 0 <= j < i ==> a@[j] == b@[j],
        decreases n - i,
    {
        if a.get_char(i) != b.get_char(i) {
            return false;
        }
        i = i + 1;
    }
    assert(a@ =~= b@);
    true
}

// ---------------------------------------------------------------------------
// Character-wise escaping
// ---------------------------------------------------------------------------

/// The replacement of one character: its XML entity where `quotes` is set,
/// else its HTML entity.
pub open spec fn entity(c: char, quotes: bool) -> Seq<char> {
    if quotes {
        xml_entity(c)
    } else {
        html_entity(c)
    }
}

/// `s` with every character replaced by its entity, left to right.
pub open spec fn escaped(s: Seq<char>, quotes: bool) -> Seq<char>
    decreases s.len(),
{
    if s.len() == 0 {
        Seq::empty()
    } else {
        entity(s[0], quotes) + escaped(s.drop_first(), quotes)
    }
}

/// `s` escaped for Telegram's HTML parse mode.
pub open spec fn html_escaped(s: Seq<char>) -> Seq<char> {
    escaped(s, false)
}

/// `s` escaped for XML text and attribute values.
pub open spec fn xml_escaped(s: Seq<char>) -> Seq<char> {
    escaped(s, true)
}

/// Escaping distributes over concatenation.
pub proof fn lemma_escaped_add(a: Seq<char>, b: Seq<char>, f: bool)
    ensures
        escaped(a + b, f) == escaped(a, f) + escaped(b, f),
    decreases a.len(),
{
    if a.len() == 0 {
        assert(a + b =~= b);
        assert(escaped(a, f) =~= Seq::<char>::empty());
        assert(escaped(a, f) + escaped(b, f) =~= escaped(b, f));
    } else {
        assert((a + b).drop_first() =~= a.drop_first() + b);
        assert((a + b)[0] == a[0]);
        lemma_escaped_add(a.drop_first(), b, f);
        assert(escaped(a + b, f) =~= entity(a[0], f) + (escaped(a.drop_first(), f) + escaped(b, f)));
    }
}

/// Escaping one more character appends its replacement.
pub proof fn lemma_escaped_push(s: Seq<char>, c: char, f: bool)
    ensures
        escaped(s.push(c), f) == escaped(s, f) + entity(c, f),
{
    lemma_escaped_add(s, seq![c], f);
    assert(s.push(c) =~= s + seq![c]);
    assert(seq![c].drop_first() =~= Seq::<char>::empty());
    assert(escaped(Seq::<char>::empty(), f) =~= Seq::<char>::empty());
    assert(seq![c].len() == 1 && seq![c][0] == c);
    assert(escaped(seq![c], f) == entity(c, f) + escaped(seq![c].drop_first(), f));
    assert(escaped(seq![c], f) =~= entity(c, f) + Seq::<char>::empty());
    assert(entity(c, f) + Seq::<char>::empty() =~= entity(c, f));
}

/// The replacement of one character in HTML text: `&`, `<` and `>`
/// become entities, everything else stays.
pub open spec fn html_entity(c: char) -> Seq<char> {
    if c == '&' {
        "&amp;"@
    } else if c == '<' {
        "&lt;"@
    } else if c == '>' {
        "&gt;"@
    } else {
        seq![c]
    }
}

/// The replacement of one character in XML text and attribute values:
/// as in HTML, and `"` becomes `&quot;`.
pub open spec fn xml_entity(c: char) -> Seq<char> {
    if c == '"' {
        "&quot;"@
    } else {
        html_entity(c)
    }
}

/// Appends `cs` to `out` with each character replaced by its HTML entity,
/// or by its XML entity where `quotes` is set.
pub fn push_escaped(out: &mut String, cs: &Vec<char>, quotes: bool)
    ensures
        final(out)@ == old(out)@ + escaped(cs@, quotes),
{
    let mut i: usize = 0;
    assert(cs@.take(0) =~= Seq::<char>::empty());
    assert(out@ =~= old(out)@ + escaped(cs@.take(0), quotes));
    while i < cs.len()
        invariant
            i <= cs.len(),
            out@ == old(out)@ + escaped(cs@.take(i as int), quotes),
        decreases cs.len() - i,
    {
        let c = cs[i];
        let ghost before = out@;
        if quotes && c == '"' {
            out.append("&quot;");
        } else if c == '&' {
            out.append("&amp;");
        } else if c == '<' {
            out.append("&lt;");
        } else if c == '>' {
            out.append("&gt;");
        } else {
            push_char(out, c);
            assert(before.push(c) =~= before + seq![c]);
        }
        assert(out@ == before + entity(c, quotes));
        proof {
            lemma_escaped_push(cs@.take(i as int), c, quotes);
            assert(cs@.take(i as int).push(c) =~= cs@.take(i + 1));
        }
        i = i + 1;
    }
    assert(cs@.take(cs.len() as int) =~= cs@);
}

/// Appends `s` to `out`, escaped for XML.
pub fn push_xml_escaped(out: &mut String, s: &str)
    ensures
        final(out)@ == old(out)@ + xml_escaped(s@),
{
    let cs = chars_of(s);
    push_escaped(out, &cs, true);
}

/// Appends `s` to `out`, escaped for HTML.
pub fn push_html_escaped(out: &mut String, s: &str)
    ensures
        final(out)@ == old(out)@ + html_escaped(s@),
{
    let cs = chars_of(s);
    push_escaped(out, &cs, false);
}

/// Whether `t` holds no `<` or `>`, and, where `quotes` is set, no `"`.
pub open spec fn markup_free(t: Seq<char>, quotes: bool) -> bool {
    forall|i: int|
        0 <= i < t.len() ==> #[trigger] t[i] != '<' && t[i] != '>' && (quotes ==> t[i] != '"')
}

/// Whether `t` holds none of the characters that escaping replaces.
pub open spec fn plain(t: Seq<char>, quotes: bool) -> bool {
    forall|i: int|
        0 <= i < t.len() ==> #[trigger] t[i] != '&' && t[i] != '<' && t[i] != '>' && (quotes
            ==> t[i] != '"')
}

proof fn reveal_entities() 
    ensures
        "&amp;"@ == seq!['&', 'a', 'm', 'p', ';'],
        "&lt;"@ == seq!['&', 'l', 't', ';'],
        "&gt;"@ == seq!['&', 'g', 't', ';'],
        "&quot;"@ == seq!['&', 'q', 'u', 'o', 't', ';'],
{
    reveal_strlit("&amp;");
    reveal_strlit("&lt;");
    reveal_strlit("&gt;");
    reveal_strlit("&quot;");
}

proof fn lemma_entity_shape(c: char, f: bool)
    ensures
        markup_free(entity(c, f), f),
        entity(c, f).len() >= 1,
        (entity(c, f)[0] == '&') == (c == '&' || c == '<' || c == '>' || (f && c == '"')),
        entity(c, f)[0] != '&' ==> entity(c, f) == seq![c],
        entity(c, f)[0] == '&' ==> entity(c, f).len() >= 4 && (
            entity(c, f)[1] == if c == '&' { 'a' } else if c == '<' { 'l' } else if c == '>' { 'g' } else { 'q' }),
{
    reveal_entities();
}

/// Escaped text holds no `<` or `>`, and escaped XML no `"`: no markup
/// can be injected through an escaped value.
pub proof fn lemma_escaped_markup_free(s: Seq<char>, quotes: bool)
    ensures
        markup_free(escaped(s, quotes), quotes),
    decreases s.len(),
{
    if s.len() > 0 {
        lemma_entity_shape(s[0], quotes);
        lemma_escaped_markup_free(s.drop_first(), quotes);
        let e = entity(s[0], quotes);
        let r = escaped(s.drop_first(), quotes);
        assert forall|i: int| 0 <= i < (e + r).len() implies #[trigger] (e + r)[i] != '<' && (e
            + r)[i] != '>' && (quotes ==> (e + r)[i] != '"') by {
            if i < e.len() {
                assert((e + r)[i] == e[i]);
            } else {
                assert((e + r)[i] == r[i - e.len()]);
            }
        }
    }
}

proof fn lemma_entity_determines(c: char, d: char, f: bool, x: Seq<char>, y: Seq<char>)
    requires
        entity(c, f) + x == entity(d, f) + y,
    ensures
        c == d,
        x == y,
{
    lemma_entity_shape(c, f);
    lemma_entity_shape(d, f);
    let e = entity(c, f);
    let g = entity(d, f);
    assert((e + x)[0] == e[0]);
    assert((g + y)[0] == g[0]);
    if e[0] == '&' {
        assert((e + x)[1] == e[1]);
        assert((g + y)[1] == g[1]);
    }
    assert(e == g);
    assert(x =~= (e + x).skip(e.len() as int));
    assert(y =~= (g + y).skip(g.len() as int));
}

/// Escaping loses nothing: two texts with the same escaped form are the
/// same text.
pub proof fn lemma_escaped_injective(a: Seq<char>, b: Seq<char>, quotes: bool)
    requires
        escaped(a, quotes) == escaped(b, quotes),
    ensures
        a == b,
    decreases a.len(),
{
    if a.len() == 0 {
        if b.len() > 0 {
            lemma_entity_shape(b[0], quotes);
        }
        assert(b.len() == 0);
        assert(a =~= b);
    } else {
        lemma_entity_shape(a[0], quotes);
        assert(escaped(a, quotes).len() >= 1);
        if b.len() == 0 {
            assert(escaped(b, quotes).len() == 0);
        }
        assert(b.len() > 0);
        lemma_entity_determines(
            a[0],
            b[0],
            quotes,
            escaped(a.drop_first(), quotes),
            escaped(b.drop_first(), quotes),
        );
        lemma_escaped_injective(a.drop_first(), b.drop_first(), quotes);
        assert(a =~= seq![a[0]] + a.drop_first());
        assert(b =~= seq![b[0]] + b.drop_first());
    }
}

/// Text without characters to replace comes through escaping unchanged.
pub proof fn lemma_escaped_plain(s: Seq<char>, quotes: bool)
    requires
        plain(s, quotes),
    ensures
        escaped(s, quotes) == s,
    decreases s.len(),
{
    if s.len() > 0 {
        assert(s[0] != '&' && s[0] != '<' && s[0] != '>' && (quotes ==> s[0] != '"'));
        assert(plain(s.drop_first(), quotes)) by {
            assert forall|i: int| 0 <= i < s.drop_first().len() implies #[trigger] s.drop_first()[i]
                != '&' && s.drop_first()[i] != '<' && s.drop_first()[i] != '>' && (quotes
                ==> s.drop_first()[i] != '"') by {
                assert(s.drop_first()[i] == s[i + 1]);
            }
        }
        lemma_escaped_plain(s.drop_first(), quotes);
        assert(escaped(s, quotes) =~= s);
    } else {
        assert(escaped(s, quotes) =~= s);
    }
}

/// Whether `t` begins with `e`.
pub open spec fn begins(t: Seq<char>, e: Seq<char>) -> bool {
    t.len() >= e.len() && t.take(e.len() as int) == e
}

/// Reads escaped text back, left to right: `&amp;`, `&lt;` and `&gt;`
/// (and `&quot;` where `quotes` is set) become the character they stand
/// for; every other character is copied.
pub open spec fn unescaped(t: Seq<char>, quotes: bool) -> Seq<char>
    decreases t.len(),
{
    if t.len() == 0 {
        Seq::empty()
    } else if begins(t, "&amp;"@) {
        proof {
            reveal_strlit("&amp;");
        }
        seq!['&'] + unescaped(t.skip(5), quotes)
    } else if begins(t, "&lt;"@) {
        proof {
            reveal_strlit("&lt;");
        }
        seq!['<'] + unescaped(t.skip(4), quotes)
    } else if begins(t, "&gt;"@) {
        proof {
            reveal_strlit("&gt;");
        }
        seq!['>'] + unescaped(t.skip(4), quotes)
    } else if quotes && begins(t, "&quot;"@) {
        proof {
            reveal_strlit("&quot;");
        }
        seq!['"'] + unescaped(t.skip(6), quotes)
    } else {
        seq![t[0]] + unescaped(t.drop_first(), quotes)
    }
}

proof fn lemma_begins_at(t: Seq<char>, e: Seq<char>, k: int)
    requires
        begins(t, e),
        0 <= k < e.len(),
    ensures
        t[k] == e[k],
{
    assert(t.take(e.len() as int)[k] == t[k]);
}

/// Text whose character at `k` differs from `e`'s does not begin with `e`.
proof fn lemma_not_begins(t: Seq<char>, e: Seq<char>, k: int)
    requires
        0 <= k < e.len(),
        k < t.len(),
        t[k] != e[k],
    ensures
        !begins(t, e),
{
    if begins(t, e) {
        lemma_begins_at(t, e, k);
    }
}

proof fn lemma_unescaped_entity(c: char, x: Seq<char>, f: bool)
    ensures
        unescaped(entity(c, f) + x, f) == seq![c] + unescaped(x, f),
{
    reveal_entities();
    let e = entity(c, f);
    let t = e + x;
    lemma_entity_shape(c, f);
    assert(t[0] == e[0]);
    if e[0] == '&' {
        assert(t[1] == e[1]);
        assert(t.take(e.len() as int) =~= e);
        assert(t.skip(e.len() as int) =~= x);
        if c == '&' {
            assert(begins(t, "&amp;"@));
        } else if c == '<' {
            lemma_not_begins(t, "&amp;"@, 1);
            assert(begins(t, "&lt;"@));
        } else if c == '>' {
            lemma_not_begins(t, "&amp;"@, 1);
            lemma_not_begins(t, "&lt;"@, 1);
            assert(begins(t, "&gt;"@));
        } else {
            lemma_not_begins(t, "&amp;"@, 1);
            lemma_not_begins(t, "&lt;"@, 1);
            lemma_not_begins(t, "&gt;"@, 1);
            assert(begins(t, "&quot;"@));
        }
    } else {
        assert(e == seq![c]);
        assert(t[0] == c && c != '&');
        lemma_not_begins(t, "&amp;"@, 0);
        lemma_not_begins(t, "&lt;"@, 0);
        lemma_not_begins(t, "&gt;"@, 0);
        lemma_not_begins(t, "&quot;"@, 0);
        assert(t.drop_first() =~= x);
    }
}

/// Reading escaped text back gives the text that was escaped, for HTML
/// (`quotes` unset) and for XML (`quotes` set).
pub proof fn lemma_unescape_escaped(s: Seq<char>, quotes: bool)
    ensures
        unescaped(escaped(s, quotes), quotes) == s,
    decreases s.len(),
{
    if s.len() == 0 {
        assert(escaped(s, quotes) =~= Seq::<char>::empty());
        assert(s =~= Seq::<char>::empty());
    } else {
        lemma_unescaped_entity(s[0], escaped(s.drop_first(), quotes), quotes);
        lemma_unescape_escaped(s.drop_first(), quotes);
        assert(s =~= seq![s[0]] + s.drop_first());
    }
}

/// `t` with every `"` replaced by `&quot;`, all else copied.
pub open spec fn quotes_replaced(t: Seq<char>) -> Seq<char>
    decreases t.len(),
{
    if t.len() == 0 {
        Seq::empty()
    } else {
        (if t[0] == '"' {
            "&quot;"@
        } else {
            seq![t[0]]
        }) + quotes_replaced(t.drop_first())
    }
}

proof fn lemma_quotes_replaced_add(a: Seq<char>, b: Seq<char>)
    ensures
        quotes_replaced(a + b) == quotes_replaced(a) + quotes_replaced(b),
    decreases a.len(),
{
    if a.len() == 0 {
        assert(a + b =~= b);
        assert(quotes_replaced(a) + quotes_replaced(b) =~= quotes_replaced(b));
    } else {
        assert((a + b).drop_first() =~= a.drop_first() + b);
        assert((a + b)[0] == a[0]);
        lemma_quotes_replaced_add(a.drop_first(), b);
        let h = if a[0] == '"' { "&quot;"@ } else { seq![a[0]] };
        assert(quotes_replaced(a + b) =~= h + (quotes_replaced(a.drop_first())
            + quotes_replaced(b)));
    }
}

/// XML escaping is HTML escaping followed by replacing each `"` with
/// `&quot;`: `&`, `<`, `>` and `"` each become their entity once, and every
/// other character is copied.
pub proof fn lemma_xml_is_html_plus_quote(s: Seq<char>)
    ensures
        xml_escaped(s) == quotes_replaced(html_escaped(s)),
    decreases s.len(),
{
    reveal_entities();
    if s.len() == 0 {
        assert(escaped(s, false) =~= Seq::<char>::empty());
        assert(escaped(s, true) =~= Seq::<char>::empty());
        assert(quotes_replaced(Seq::<char>::empty()) =~= Seq::<char>::empty());
    } else {
        let c = s[0];
        lemma_xml_is_html_plus_quote(s.drop_first());
        lemma_quotes_replaced_add(html_entity(c), escaped(s.drop_first(), false));
        let h = html_entity(c);
        if c == '&' || c == '<' || c == '>' {
            assert(h.drop_first().drop_first().drop_first().drop_first().len() <= 1);
            assert(quotes_replaced(h) =~= h) by {
                reveal_with_fuel(quotes_replaced, 6);
            }
        } else if c == '"' {
            assert(h =~= seq!['"']);
            assert(quotes_replaced(h) =~= "&quot;"@) by {
                reveal_with_fuel(quotes_replaced, 2);
            }
        } else {
            assert(h =~= seq![c]);
            assert(quotes_replaced(h) =~= seq![c]) by {
                reveal_with_fuel(quotes_replaced, 2);
            }
        }
        assert(quotes_replaced(h) == xml_entity(c));
    }
}

} // verus!
