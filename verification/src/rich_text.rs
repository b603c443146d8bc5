use vstd::prelude::*;

use crate::text::{
    ascii_lower, ascii_lower_seq, chars_eq, chars_of, concat, has_prefix, is_blank, is_whitespace, is_ws, join,
    prefix_at, push_chars, replace_all, replace_chars, skip_ws_forward_until, string_of, to_ascii_lower, trim, trim_bounds,
    trim_end, trim_start,
};

verus! {

broadcast use vstd::std_specs::vec::group_vec_axioms;

/// The HTML text for one character: `& < > " '` become entities.
pub open spec fn escape_char(c: char) -> Seq<char> {
    if c == '&' {
        "&amp;"@
    } else if c == '<' {
        "&lt;"@
    } else if c == '>' {
        "&gt;"@
    } else if c == '"' {
        "&quot;"@
    } else if c == '\'' {
        "&#39;"@
    } else {
        seq![c]
    }
}

/// `s` escaped for HTML text, character by character.
pub open spec fn escape_html(s: Seq<char>) -> Seq<char>
    decreases s.len(),
{
    if s.len() == 0 {
        Seq::empty()
    } else {
        escape_html(s.subrange(0, s.len() - 1)) + escape_char(s[s.len() - 1])
    }
}

fn push_escaped(out: &mut Vec<char>, c: char)
    ensures
        final(out)@ == old(out)@ + escape_char(c),
{
    let rep = if c == '&' {
        "&amp;"
    } else if c == '<' {
        "&lt;"
    } else if c == '>' {
        "&gt;"
    } else if c == '"' {
        "&quot;"
    } else if c == '\'' {
        "&#39;"
    } else {
        out.push(c);
        assert(out@ =~= old(out)@ + seq![c]);
        return;
    };
    let rc = chars_of(rep);
    push_chars(out, &rc);
}

/// Appends `s` escaped for HTML text to `out`.
fn push_escaped_html(out: &mut Vec<char>, s: &Vec<char>)
    ensures
        final(out)@ == old(out)@ + escape_html(s@),
{
    let mut i: usize = 0;
    while i < s.len()
        invariant
            i <= s.len(),
            out@ == old(out)@ + escape_html(s@.take(i as int)),
        decreases s.len() - i,
    {
        let ghost before = out@;
        push_escaped(out, s[i]);
        assert(s@.take(i + 1).subrange(0, i as int) =~= s@.take(i as int));
        assert(out@ =~= old(out)@ + escape_html(s@.take(i + 1)));
        i = i + 1;
    }
    assert(s@.take(s.len() as int) =~= s@);
}

/// `value` escaped for use as HTML text.
pub fn escape_html_text(value: &str) -> (r: String)
    ensures
        r@ == escape_html(value@),
{
    let cs = chars_of(value);
    let mut out: Vec<char> = Vec::new();
    push_escaped_html(&mut out, &cs);
    assert(out@ =~= escape_html(value@));
    string_of(&out)
}

/// The tag openings that mark a text as editor HTML rather than plain text.
pub open spec fn rich_prefixes() -> Seq<Seq<char>> {
    seq![
        "<blockquote"@, "<br"@, "<div"@, "<h1"@, "<h2"@, "<h3"@, "<h4"@, "<h5"@, "<h6"@, "<ol"@,
        "<p"@, "<pre"@, "<ul"@,
    ]
}

/// A text counts as editor HTML when, after leading white space and in ASCII
/// lower case, it starts with one of the block tag openings.
pub open spec fn looks_like_rich_text(value: Seq<char>) -> bool {
    exists|k: int| 0 <= k < rich_prefixes().len() && has_prefix(ascii_lower_seq(trim_start(value)), #[trigger] rich_prefixes()[k])
}

/// Whether a stored text is editor HTML rather than plain text.
pub fn looks_like_rich_text_html(value: &str) -> (b: bool)
    ensures
        b == looks_like_rich_text(value@),
{
    let cs = chars_of(value);
    let ghost lead = trim_start(value@);
    proof {
        assert(cs@.subrange(0, cs.len() as int) =~= value@);
    }
    let start = skip_leading_ws(&cs);
    let mut lowered: Vec<char> = Vec::new();
    let mut i: usize = start;
    while i < cs.len()
        invariant
            start <= i <= cs.len(),
            lowered@ == ascii_lower_seq(cs@.subrange(start as int, i as int)),
        decreases cs.len() - i,
    {
        let c = to_ascii_lower(cs[i]);
        lowered.push(c);
        assert(lowered@ =~= ascii_lower_seq(cs@.subrange(start as int, i + 1)));
        i = i + 1;
    }
    let ghost low = lowered@;
    assert(low == ascii_lower_seq(lead));
    let prefixes: [&str; 13] = [
        "<blockquote", "<br", "<div", "<h1", "<h2", "<h3", "<h4", "<h5", "<h6", "<ol", "<p", "<pre", "<ul",
    ];
    let mut k: usize = 0;
    while k < 13
        invariant
            k <= 13,
            low == lowered@,
            low == ascii_lower_seq(lead),
            lead == trim_start(value@),
            forall|j: int| 0 <= j < 13 ==> #[trigger] prefixes@[j]@ == rich_prefixes()[j],
            forall|j: int| 0 <= j < k ==> !has_prefix(low, #[trigger] rich_prefixes()[j]),
        decreases 13 - k,
    {
        if prefix_at(&lowered, 0, prefixes[k]) {
            assert(lowered@.subrange(0, lowered.len() as int) =~= lowered@);
            assert(prefixes@[k as int]@ == rich_prefixes()[k as int]);
            assert(has_prefix(low, rich_prefixes()[k as int]));
            assert(has_prefix(ascii_lower_seq(trim_start(value@)), rich_prefixes()[k as int]));
            return true;
        }
        assert(lowered@.subrange(0, lowered.len() as int) =~= lowered@);
        k = k + 1;
    }
    false
}

/// Index of the first character of `s` that is not white space.
fn skip_leading_ws(s: &Vec<char>) -> (k: usize)
    ensures
        k <= s.len(),
        trim_start(s@) == s@.subrange(k as int, s.len() as int),
{
    let mut k: usize = 0;
    assert(s@.subrange(0, s.len() as int) =~= s@);
    while k < s.len() && is_whitespace(s[k])
        invariant
            k <= s.len(),
            trim_start(s@) == trim_start(s@.subrange(k as int, s.len() as int)),
        decreases s.len() - k,
    {
        assert(s@.subrange(k as int, s.len() as int).drop_first() =~= s@.subrange(k + 1, s.len() as int));
        k = k + 1;
    }
    if k < s.len() {
        assert(s@.subrange(k as int, s.len() as int)[0] == s@[k as int]);
    }
    k
}

} // verus!

verus! {

/// The pieces of `s` between occurrences of the non-empty `pat`, matched from
/// left to right without overlap, as `str::split` gives them.
pub open spec fn split_on(s: Seq<char>, pat: Seq<char>) -> Seq<Seq<char>>
    decreases s.len(),
{
    if s.len() == 0 || pat.len() == 0 {
        seq![s]
    } else if has_prefix(s, pat) {
        seq![Seq::<char>::empty()] + split_on(s.subrange(pat.len() as int, s.len() as int), pat)
    } else {
        let r = split_on(s.subrange(1, s.len() as int), pat);
        r.update(0, seq![s[0]] + r[0])
    }
}

/// `ps` with `cur` put in front of its first piece.
pub open spec fn prepend_first(cur: Seq<char>, ps: Seq<Seq<char>>) -> Seq<Seq<char>> {
    ps.update(0, cur + ps[0])
}

/// Splitting always gives at least one piece.
pub proof fn lemma_split_on_nonempty(s: Seq<char>, pat: Seq<char>)
    ensures
        split_on(s, pat).len() >= 1,
    decreases s.len(),
{
    if s.len() > 0 && pat.len() > 0 {
        if has_prefix(s, pat) {
            lemma_split_on_nonempty(s.subrange(pat.len() as int, s.len() as int), pat);
        } else {
            lemma_split_on_nonempty(s.subrange(1, s.len() as int), pat);
        }
    }
}

/// The mathematical values of a sequence of character vectors.
pub open spec fn char_views(v: Seq<Vec<char>>) -> Seq<Seq<char>> {
    v.map_values(|x: Vec<char>| x@)
}

/// The pieces of `s` between occurrences of `pat`.
pub fn split_chars(s: &Vec<char>, pat: &str) -> (parts: Vec<Vec<char>>)
    requires
        pat@.len() > 0,
    ensures
        char_views(parts@) == split_on(s@, pat@),
{
    let pc = chars_of(pat);
    let mut done: Vec<Vec<char>> = Vec::new();
    let mut cur: Vec<char> = Vec::new();
    let mut i: usize = 0;
    proof {
        lemma_split_on_nonempty(s@, pat@);
        assert(s@.subrange(0, s.len() as int) =~= s@);
        let ps = split_on(s@, pat@);
        assert(prepend_first(Seq::<char>::empty(), ps) =~= ps);
        assert(char_views(done@) + ps =~= ps);
    }
    while i < s.len()
        invariant
            i <= s.len(),
            pc@ == pat@,
            pat@.len() > 0,
            split_on(s@, pat@) == char_views(done@) + prepend_first(cur@, split_on(s@.subrange(i as int, s.len() as int), pat@)),
        decreases s.len() - i,
    {
        let ghost rest = s@.subrange(i as int, s.len() as int);
        if prefix_at(s, i, pat) && pc.len() <= s.len() - i {
            let ghost next = s@.subrange(i + pc.len(), s.len() as int);
            proof {
                assert(rest.subrange(pat@.len() as int, rest.len() as int) =~= next);
                lemma_split_on_nonempty(next, pat@);
            }
            let ghost before = char_views(done@);
            let ghost cv = cur@;
            done.push(cur);
            cur = Vec::new();
            proof {
                assert(char_views(done@) =~= before.push(cv));
                let sn = split_on(next, pat@);
                assert(prepend_first(cv, split_on(rest, pat@)) =~= seq![cv] + sn);
                assert(prepend_first(cur@, sn) =~= sn);
                assert(before + (seq![cv] + sn) =~= before.push(cv) + sn);
            }
            i = i + pc.len();
        } else {
            let ghost next = s@.subrange(i + 1, s.len() as int);
            proof {
                assert(rest.subrange(1, rest.len() as int) =~= next);
                lemma_split_on_nonempty(next, pat@);
            }
            let ghost cv = cur@;
            let c = s[i];
            cur.push(c);
            proof {
                let sn = split_on(next, pat@);
                assert(!has_prefix(rest, pat@));
                assert(rest[0] == c);
                assert(split_on(rest, pat@) == sn.update(0, seq![c] + sn[0]));
                assert(cur@ =~= cv.push(c));
                assert(cv + (seq![c] + sn[0]) =~= cur@ + sn[0]);
                assert(prepend_first(cv, split_on(rest, pat@)) =~= prepend_first(cur@, sn));
            }
            i = i + 1;
        }
    }
    proof {
        assert(s@.subrange(s.len() as int, s.len() as int) =~= Seq::<char>::empty());
    }
    let ghost before = char_views(done@);
    let ghost cv = cur@;
    done.push(cur);
    proof {
        assert(char_views(done@) =~= before.push(cv));
        assert(prepend_first(cv, seq![Seq::<char>::empty()]) =~= seq![cv]);
    }
    done
}

/// The lines of a text without carriage returns, as `str::lines` gives them:
/// the pieces between line breaks, less a last piece that is empty.
pub open spec fn lines_of(s: Seq<char>) -> Seq<Seq<char>> {
    let parts = split_on(s, seq!['\n']);
    if parts[parts.len() - 1].len() == 0 {
        parts.subrange(0, parts.len() - 1)
    } else {
        parts
    }
}

/// The escaped lines of a paragraph.
pub open spec fn escaped_lines(ls: Seq<Seq<char>>) -> Seq<Seq<char>> {
    ls.map_values(|l: Seq<char>| escape_html(l))
}

/// The HTML for one paragraph of plain text: its escaped lines joined by line
/// breaks in a `<p>`, or an empty paragraph holding one line break.
pub open spec fn paragraph_html(p: Seq<char>) -> Seq<char> {
    let joined = join(escaped_lines(lines_of(p)), "<br>"@);
    if joined.len() == 0 {
        "<p><br></p>"@
    } else {
        "<p>"@ + joined + "</p>"@
    }
}

/// A text with `\r\n` and lone `\r` line ends turned into `\n`.
pub open spec fn normalize_newlines(s: Seq<char>) -> Seq<char> {
    replace_all(replace_all(s, "\r\n"@, "\n"@), "\r"@, "\n"@)
}

/// The editor HTML for a plain text: one paragraph per blank-line-separated block.
pub open spec fn plain_text_html(value: Seq<char>) -> Seq<char> {
    let v = normalize_newlines(value);
    if v.len() == 0 {
        Seq::empty()
    } else {
        concat(split_on(v, "\n\n"@).map_values(|p: Seq<char>| paragraph_html(p)))
    }
}

/// The HTML for one paragraph of plain text.
fn paragraph_to_html(p: &Vec<char>) -> (r: Vec<char>)
    ensures
        r@ == paragraph_html(p@),
{
    proof {
        reveal_strlit("\n");
    }
    let parts = split_chars(p, "\n");
    proof {
        assert("\n"@ =~= seq!['\n']);
        lemma_split_on_nonempty(p@, "\n"@);
    }
    let n = if parts[parts.len() - 1].len() == 0 {
        parts.len() - 1
    } else {
        parts.len()
    };
    let ghost ls = lines_of(p@);
    assert(ls == char_views(parts@).subrange(0, n as int));
    let br = chars_of("<br>");
    let mut joined: Vec<char> = Vec::new();
    let mut i: usize = 0;
    while i < n
        invariant
            i <= n <= parts.len(),
            ls == char_views(parts@).subrange(0, n as int),
            br@ == "<br>"@,
            joined@ == join(escaped_lines(ls.take(i as int)), "<br>"@),
        decreases n - i,
    {
        let ghost before = joined@;
        if i > 0 {
            push_chars(&mut joined, &br);
        }
        push_escaped_html(&mut joined, &parts[i]);
        proof {
            let e = escaped_lines(ls.take(i + 1));
            assert(e.subrange(0, i as int) =~= escaped_lines(ls.take(i as int)));
            assert(e[i as int] == escape_html(parts@[i as int]@));
            if i == 0 {
                assert(before =~= Seq::<char>::empty());
            }
        }
        i = i + 1;
    }
    assert(ls.take(n as int) =~= ls);
    if joined.len() == 0 {
        chars_of("<p><br></p>")
    } else {
        let mut r = chars_of("<p>");
        push_chars(&mut r, &joined);
        let close = chars_of("</p>");
        push_chars(&mut r, &close);
        r
    }
}

/// The editor HTML for a plain text: blank-line-separated blocks become
/// paragraphs, line breaks inside a block become `<br>`, text is escaped.
pub fn plain_text_to_editor_html(value: &str) -> (r: String)
    ensures
        r@ == plain_text_html(value@),
{
    let cs = chars_of(value);
    proof {
        reveal_strlit("\r\n");
        reveal_strlit("\r");
    }
    let step = replace_chars(&cs, "\r\n", "\n");
    let v = replace_chars(&step, "\r", "\n");
    if v.len() == 0 {
        return String::new();
    }
    proof {
        reveal_strlit("\n\n");
    }
    let paragraphs = split_chars(&v, "\n\n");
    let ghost ps = char_views(paragraphs@);
    let mut out: Vec<char> = Vec::new();
    let mut i: usize = 0;
    while i < paragraphs.len()
        invariant
            i <= paragraphs.len(),
            ps == char_views(paragraphs@),
            out@ == concat(ps.take(i as int).map_values(|p: Seq<char>| paragraph_html(p))),
        decreases paragraphs.len() - i,
    {
        let h = paragraph_to_html(&paragraphs[i]);
        push_chars(&mut out, &h);
        proof {
            let m = ps.take(i + 1).map_values(|p: Seq<char>| paragraph_html(p));
            assert(m.subrange(0, i as int) =~= ps.take(i as int).map_values(|p: Seq<char>| paragraph_html(p)));
        }
        i = i + 1;
    }
    assert(ps.take(paragraphs.len() as int) =~= ps);
    string_of(&out)
}

} // verus!

verus! {

/// The editor HTML for a stored text: editor HTML is kept as it is, plain
/// text is turned into paragraphs.
pub open spec fn editor_html(value: Seq<char>) -> Seq<char> {
    if looks_like_rich_text(value) {
        value
    } else {
        plain_text_html(value)
    }
}

/// The HTML to load into the rich text editor for a stored value.
pub fn rich_text_editor_html(value: &str) -> (r: String)
    ensures
        r@ == editor_html(value@),
{
    if looks_like_rich_text_html(value) {
        value.to_string()
    } else {
        plain_text_to_editor_html(value)
    }
}

/// `s` without its leading `/` characters.
pub open spec fn skip_slashes(s: Seq<char>) -> Seq<char>
    decreases s.len(),
{
    if s.len() > 0 && s[0] == '/' {
        skip_slashes(s.drop_first())
    } else {
        s
    }
}

/// The leading run of `t` that holds no white space.
pub open spec fn take_word(t: Seq<char>) -> Seq<char>
    decreases t.len(),
{
    if t.len() == 0 || is_ws(t[0]) {
        Seq::empty()
    } else {
        seq![t[0]] + take_word(t.drop_first())
    }
}

/// The tag names after which the plain text of a rich text starts a new line.
pub open spec fn block_tag_names() -> Seq<Seq<char>> {
    seq![
        "blockquote"@, "br"@, "div"@, "h1"@, "h2"@, "h3"@, "h4"@, "h5"@, "h6"@, "li"@, "p"@,
        "pre"@,
    ]
}

/// Whether the inside of a tag (between `<` and `>`) opens or closes a block:
/// trimmed and without leading slashes, its first word is, in ASCII lower
/// case, one of the block tag names.
pub open spec fn is_block_tag(tag: Seq<char>) -> bool {
    let rest = trim_start(skip_slashes(trim(tag)));
    rest.len() > 0 && block_tag_names().contains(ascii_lower_seq(take_word(rest)))
}

/// `text` after the tag `tag` was read: a block tag ends a non-empty line.
pub open spec fn text_boundary(tag: Seq<char>, text: Seq<char>) -> Seq<char> {
    if is_block_tag(tag) && text.len() > 0 && text.last() != '\n' {
        text.push('\n')
    } else {
        text
    }
}

/// A word without white space is its own trimmed text and its own first word.
proof fn lemma_plain_word(w: Seq<char>)
    requires
        w.len() > 0,
        forall|i: int| 0 <= i < w.len() ==> !is_ws(#[trigger] w[i]),
    ensures
        trim_start(w) == w,
        trim(w) == w,
        take_word(w) == w,
    decreases w.len(),
{
    assert(!is_ws(w[0]));
    assert(!is_ws(w.last()));
    if w.len() > 1 {
        let t = w.drop_first();
        assert forall|i: int| 0 <= i < t.len() implies !is_ws(#[trigger] t[i]) by {
            assert(t[i] == w[i + 1]);
        }
        lemma_plain_word(t);
        assert(take_word(t) == t);
    } else {
        assert(w.drop_first() =~= Seq::<char>::empty());
        assert(take_word(w.drop_first()) =~= Seq::<char>::empty());
    }
    assert(take_word(w) == seq![w[0]] + take_word(w.drop_first()));
    assert(seq![w[0]] + w.drop_first() =~= w);
    assert(trim_start(w) == w);
    assert(trim_end(w) == w);
}

/// The block tag names are exactly blockquote, br, div, h1 to h6, li, p and pre.
proof fn lemma_block_names_listed(x: Seq<char>)
    ensures
        block_tag_names().contains(x) <==> (x == "blockquote"@ || x == "br"@ || x == "div"@ || x == "h1"@ || x == "h2"@ || x == "h3"@ || x == "h4"@ || x == "h5"@ || x == "h6"@ || x == "li"@ || x == "p"@ || x == "pre"@),
{
    reveal_strlit("blockquote");
    reveal_strlit("br");
    reveal_strlit("div");
    reveal_strlit("h1");
    reveal_strlit("h2");
    reveal_strlit("h3");
    reveal_strlit("h4");
    reveal_strlit("h5");
    reveal_strlit("h6");
    reveal_strlit("li");
    reveal_strlit("p");
    reveal_strlit("pre");
    if block_tag_names().contains(x) {
        let k = choose|k: int| 0 <= k < block_tag_names().len() && block_tag_names()[k] == x;
        if k == 0 {
            assert(block_tag_names()[0] == "blockquote"@);
        } else if k == 1 {
            assert(block_tag_names()[1] == "br"@);
        } else if k == 2 {
            assert(block_tag_names()[2] == "div"@);
        } else if k == 3 {
            assert(block_tag_names()[3] == "h1"@);
        } else if k == 4 {
            assert(block_tag_names()[4] == "h2"@);
        } else if k == 5 {
            assert(block_tag_names()[5] == "h3"@);
        } else if k == 6 {
            assert(block_tag_names()[6] == "h4"@);
        } else if k == 7 {
            assert(block_tag_names()[7] == "h5"@);
        } else if k == 8 {
            assert(block_tag_names()[8] == "h6"@);
        } else if k == 9 {
            assert(block_tag_names()[9] == "li"@);
        } else if k == 10 {
            assert(block_tag_names()[10] == "p"@);
        } else if k == 11 {
            assert(block_tag_names()[11] == "pre"@);
        } else {
            assert(k == 11);
            assert(block_tag_names()[11] == "pre"@);
        }
    }
    if x == "blockquote"@ {
        assert(block_tag_names()[0] == x);
    }
    if x == "br"@ {
        assert(block_tag_names()[1] == x);
    }
    if x == "div"@ {
        assert(block_tag_names()[2] == x);
    }
    if x == "h1"@ {
        assert(block_tag_names()[3] == x);
    }
    if x == "h2"@ {
        assert(block_tag_names()[4] == x);
    }
    if x == "h3"@ {
        assert(block_tag_names()[5] == x);
    }
    if x == "h4"@ {
        assert(block_tag_names()[6] == x);
    }
    if x == "h5"@ {
        assert(block_tag_names()[7] == x);
    }
    if x == "h6"@ {
        assert(block_tag_names()[8] == x);
    }
    if x == "li"@ {
        assert(block_tag_names()[9] == x);
    }
    if x == "p"@ {
        assert(block_tag_names()[10] == x);
    }
    if x == "pre"@ {
        assert(block_tag_names()[11] == x);
    }
}

/// Law: a tag named blockquote, br, div, h1 to h6, li, p or pre, in any
/// ASCII case, opening or closing, ends a line of the plain text read so
/// far, where that text is not empty and does not end a line already; a tag
/// of any other name leaves the text as it is.
pub proof fn lemma_block_tags_end_lines(name: Seq<char>, text: Seq<char>)
    requires
        name.len() > 0,
        forall|i: int| 0 <= i < name.len() ==> !is_ws(#[trigger] name[i]) && name[i] != '/',
    ensures
        ({
            let lower = ascii_lower_seq(name);
            let listed = lower == "blockquote"@ || lower == "br"@ || lower == "div"@ || lower == "h1"@ || lower == "h2"@ || lower == "h3"@ || lower == "h4"@ || lower == "h5"@ || lower == "h6"@ || lower == "li"@ || lower == "p"@ || lower == "pre"@;
            let ends = if text.len() > 0 && text.last() != '\n' { text.push('\n') } else { text };
            &&& text_boundary(name, text) == if listed { ends } else { text }
            &&& text_boundary(seq!['/'] + name, text) == if listed { ends } else { text }
        }),
{
    lemma_plain_word(name);
    assert(skip_slashes(name) == name);
    let closing = seq!['/'] + name;
    assert(closing.drop_first() =~= name);
    assert forall|i: int| 0 <= i < closing.len() implies !is_ws(#[trigger] closing[i]) by {
        if i > 0 {
            assert(closing[i] == name[i - 1]);
        }
    }
    lemma_plain_word(closing);
    assert(skip_slashes(closing) == skip_slashes(name));
    lemma_block_names_listed(ascii_lower_seq(name));
}

/// Whether the tag inside `tag[..]` is a block tag.
fn block_tag(tag: &Vec<char>) -> (b: bool)
    ensures
        b == is_block_tag(tag@),
{
    let (a, b) = trim_bounds(tag, 0, tag.len());
    proof {
        assert(tag@.subrange(0, tag.len() as int) =~= tag@);
    }
    let mut k: usize = a;
    while k < b && tag[k] == '/'
        invariant
            a <= k <= b <= tag.len(),
            skip_slashes(tag@.subrange(a as int, b as int)) == skip_slashes(tag@.subrange(k as int, b as int)),
        decreases b - k,
    {
        assert(tag@.subrange(k as int, b as int).drop_first() =~= tag@.subrange(k + 1, b as int));
        k = k + 1;
    }
    if k < b {
        assert(tag@.subrange(k as int, b as int)[0] == tag@[k as int]);
    }
    let c = skip_ws_forward_until(tag, k, b);
    if c == b {
        return false;
    }
    let mut e: usize = c;
    while e < b && !is_whitespace(tag[e])
        invariant
            c <= e <= b <= tag.len(),
            take_word(tag@.subrange(c as int, b as int)) == tag@.subrange(c as int, e as int) + take_word(tag@.subrange(e as int, b as int)),
        decreases b - e,
    {
        let ghost t = tag@.subrange(e as int, b as int);
        assert(t.drop_first() =~= tag@.subrange(e + 1, b as int));
        assert(t[0] == tag@[e as int]);
        assert(tag@.subrange(c as int, e as int) + (seq![t[0]] + take_word(t.drop_first())) =~= tag@.subrange(c as int, e + 1) + take_word(tag@.subrange(e + 1, b as int)));
        e = e + 1;
    }
    proof {
        if e < b {
            assert(tag@.subrange(e as int, b as int)[0] == tag@[e as int]);
        }
        assert(take_word(tag@.subrange(e as int, b as int)) =~= Seq::<char>::empty());
        assert(tag@.subrange(c as int, e as int) + Seq::<char>::empty() =~= tag@.subrange(c as int, e as int));
    }
    let ghost word = tag@.subrange(c as int, e as int);
    let mut lowered: Vec<char> = Vec::new();
    let mut i: usize = c;
    while i < e
        invariant
            c <= i <= e <= tag.len(),
            lowered@ == ascii_lower_seq(tag@.subrange(c as int, i as int)),
        decreases e - i,
    {
        let ch = to_ascii_lower(tag[i]);
        lowered.push(ch);
        assert(lowered@ =~= ascii_lower_seq(tag@.subrange(c as int, i + 1)));
        i = i + 1;
    }
    proof {
        let rest = trim_start(skip_slashes(trim(tag@)));
        assert(rest == tag@.subrange(c as int, b as int));
        assert(rest.len() > 0);
        assert(take_word(rest) == word);
        assert(is_block_tag(tag@) == block_tag_names().contains(lowered@));
    }
    let names: [&str; 12] = ["blockquote", "br", "div", "h1", "h2", "h3", "h4", "h5", "h6", "li", "p", "pre"];
    let mut j: usize = 0;
    while j < 12
        invariant
            j <= 12,
            is_block_tag(tag@) == block_tag_names().contains(lowered@),
            forall|m: int| 0 <= m < 12 ==> #[trigger] names@[m]@ == block_tag_names()[m],
            forall|m: int| 0 <= m < j ==> block_tag_names()[m] != lowered@,
        decreases 12 - j,
    {
        let name = chars_of(names[j]);
        if chars_eq(&lowered, &name) {
            assert(block_tag_names()[j as int] == lowered@);
            assert(block_tag_names().contains(lowered@));
            return true;
        }
        j = j + 1;
    }
    assert(!block_tag_names().contains(lowered@));
    false
}

/// Appends a line break to `text` where the tag `tag` ends a block.
fn append_text_boundary_for_html_tag(tag: &Vec<char>, text: &mut Vec<char>)
    ensures
        final(text)@ == text_boundary(tag@, old(text)@),
{
    if block_tag(tag) && text.len() > 0 && text[text.len() - 1] != '\n' {
        text.push('\n');
    }
}

/// One step of the tag stripper: the text so far, the tag being read, and
/// whether a tag is open.
pub open spec fn strip_step(st: (Seq<char>, Seq<char>, bool), c: char) -> (Seq<char>, Seq<char>, bool) {
    let (text, tag, inside) = st;
    if inside {
        if c == '>' {
            (text_boundary(tag, text), Seq::empty(), false)
        } else {
            (text, tag.push(c), true)
        }
    } else if c == '<' {
        (text, tag, true)
    } else {
        (text.push(c), tag, false)
    }
}

/// The tag stripper's state after reading `s`.
pub open spec fn strip_tags(s: Seq<char>) -> (Seq<char>, Seq<char>, bool)
    decreases s.len(),
{
    if s.len() == 0 {
        (Seq::empty(), Seq::empty(), false)
    } else {
        strip_step(strip_tags(s.drop_last()), s.last())
    }
}

/// Outside a tag, the stripper holds no tag text.
proof fn lemma_strip_closed(s: Seq<char>)
    ensures
        !strip_tags(s).2 ==> strip_tags(s).1.len() == 0,
    decreases s.len(),
{
    if s.len() > 0 {
        lemma_strip_closed(s.drop_last());
    }
}

/// Reading `<`, then `t` (without `>`), from outside a tag leaves a tag
/// `t` open over the same text.
proof fn lemma_strip_open_tag(s: Seq<char>, t: Seq<char>)
    requires
        !strip_tags(s).2,
        forall|i: int| 0 <= i < t.len() ==> t[i] != '>',
    ensures
        strip_tags(s + seq!['<'] + t) == (strip_tags(s).0, t, true),
    decreases t.len(),
{
    lemma_strip_closed(s);
    let u = s + seq!['<'] + t;
    if t.len() == 0 {
        assert(u.drop_last() =~= s);
        assert(u.last() == '<');
        assert(strip_tags(s).1 =~= t);
    } else {
        let t0 = t.drop_last();
        assert forall|i: int| 0 <= i < t0.len() implies t0[i] != '>' by {
            assert(t0[i] == t[i]);
        }
        lemma_strip_open_tag(s, t0);
        assert(u.drop_last() =~= s + seq!['<'] + t0);
        assert(u.last() == t.last());
        assert(t0.push(t.last()) =~= t);
    }
}

/// Law: reading a whole tag `<t>` from outside a tag adds no text of its
/// own: it leaves the plain text read so far as the tag's boundary makes it
/// (a line end after a block tag) and closes the tag.
pub proof fn lemma_strip_whole_tag(s: Seq<char>, t: Seq<char>)
    requires
        !strip_tags(s).2,
        forall|i: int| 0 <= i < t.len() ==> t[i] != '>',
    ensures
        strip_tags(s + seq!['<'] + t + seq!['>']) == (text_boundary(t, strip_tags(s).0), Seq::<char>::empty(), false),
{
    lemma_strip_open_tag(s, t);
    let u = s + seq!['<'] + t + seq!['>'];
    assert(u.drop_last() =~= s + seq!['<'] + t);
}

/// Law: in the plain text of rich text, an opening or closing tag named
/// blockquote, br, div, h1 to h6, li, p or pre (any ASCII case) ends the line
/// read so far, unless that text is empty or already ends a line; so
/// `<h2>a</h2><p>b</p>` reads as `a`, a line end, then `b`.
pub proof fn lemma_block_tag_breaks_line(s: Seq<char>, name: Seq<char>)
    requires
        !strip_tags(s).2,
        name.len() > 0,
        forall|i: int| 0 <= i < name.len() ==> !is_ws(#[trigger] name[i]) && name[i] != '/' && name[i] != '>',
        ascii_lower_seq(name) == "blockquote"@ || ascii_lower_seq(name) == "br"@ || ascii_lower_seq(name) == "div"@ || ascii_lower_seq(name) == "h1"@ || ascii_lower_seq(name) == "h2"@ || ascii_lower_seq(name) == "h3"@ || ascii_lower_seq(name) == "h4"@ || ascii_lower_seq(name) == "h5"@ || ascii_lower_seq(name) == "h6"@ || ascii_lower_seq(name) == "li"@ || ascii_lower_seq(name) == "p"@ || ascii_lower_seq(name) == "pre"@,
    ensures
        ({
            let text = strip_tags(s).0;
            let ends = if text.len() > 0 && text.last() != '\n' { text.push('\n') } else { text };
            &&& strip_tags(s + seq!['<'] + name + seq!['>']).0 == ends
            &&& strip_tags(s + seq!['<'] + (seq!['/'] + name) + seq!['>']).0 == ends
        }),
{
    lemma_block_tags_end_lines(name, strip_tags(s).0);
    lemma_strip_whole_tag(s, name);
    let closing = seq!['/'] + name;
    assert forall|i: int| 0 <= i < closing.len() implies closing[i] != '>' by {
        if i > 0 {
            assert(closing[i] == name[i - 1]);
        }
    }
    lemma_strip_whole_tag(s, closing);
}

/// `s` with the basic HTML entities decoded, one after the other.
pub open spec fn decode_entities(s: Seq<char>) -> Seq<char> {
    replace_all(
        replace_all(
            replace_all(
                replace_all(replace_all(replace_all(s, "&nbsp;"@, " "@), "&amp;"@, "&"@), "&lt;"@, "<"@),
                "&gt;"@,
                ">"@,
            ),
            "&quot;"@,
            "\""@,
        ),
        "&#39;"@,
        "'"@,
    )
}

/// The plain text of a stored value: plain text is kept; of editor HTML, the
/// text outside the tags, trimmed, with block ends as line breaks and the
/// basic entities decoded.
pub open spec fn rich_plain_text(value: Seq<char>) -> Seq<char> {
    if !looks_like_rich_text(value) {
        value
    } else {
        decode_entities(trim(strip_tags(value).0))
    }
}

fn decode_basic_html_entities(s: &Vec<char>) -> (r: Vec<char>)
    ensures
        r@ == decode_entities(s@),
{
    proof {
        reveal_strlit("&nbsp;");
        reveal_strlit("&amp;");
        reveal_strlit("&lt;");
        reveal_strlit("&gt;");
        reveal_strlit("&quot;");
        reveal_strlit("&#39;");
    }
    let a = replace_chars(s, "&nbsp;", " ");
    let b = replace_chars(&a, "&amp;", "&");
    let c = replace_chars(&b, "&lt;", "<");
    let d = replace_chars(&c, "&gt;", ">");
    let e = replace_chars(&d, "&quot;", "\"");
    replace_chars(&e, "&#39;", "'")
}

/// The plain text of a stored rich text value.
pub fn rich_text_plain_text(value: &str) -> (r: String)
    ensures
        r@ == rich_plain_text(value@),
{
    if !looks_like_rich_text_html(value) {
        return value.to_string();
    }
    let cs = chars_of(value);
    let mut text: Vec<char> = Vec::new();
    let mut tag: Vec<char> = Vec::new();
    let mut inside = false;
    let mut i: usize = 0;
    while i < cs.len()
        invariant
            i <= cs.len(),
            cs@ == value@,
            (text@, tag@, inside) == strip_tags(cs@.take(i as int)),
        decreases cs.len() - i,
    {
        let c = cs[i];
        assert(cs@.take(i + 1).drop_last() =~= cs@.take(i as int));
        if inside {
            if c == '>' {
                append_text_boundary_for_html_tag(&tag, &mut text);
                tag = Vec::new();
                inside = false;
            } else {
                tag.push(c);
            }
        } else if c == '<' {
            inside = true;
        } else {
            text.push(c);
        }
        i = i + 1;
    }
    assert(cs@.take(cs.len() as int) =~= value@);
    let (a, b) = trim_bounds(&text, 0, text.len());
    assert(text@.subrange(0, text.len() as int) =~= text@);
    let mut trimmed: Vec<char> = Vec::new();
    let mut k: usize = a;
    while k < b
        invariant
            a <= k <= b <= text.len(),
            trimmed@ == text@.subrange(a as int, k as int),
        decreases b - k,
    {
        trimmed.push(text[k]);
        assert(trimmed@ =~= text@.subrange(a as int, k + 1));
        k = k + 1;
    }
    let decoded = decode_basic_html_entities(&trimmed);
    string_of(&decoded)
}

/// A stored rich text value, or the empty string where its plain text is
/// blank.
pub open spec fn tiptap_storage(value: Seq<char>) -> Seq<char> {
    if trim(rich_plain_text(value)).len() == 0 {
        Seq::empty()
    } else {
        value
    }
}

/// The value to store for what the editor holds: nothing where it holds no text.
pub fn normalize_tiptap_storage_value(value: String) -> (r: String)
    ensures
        r@ == tiptap_storage(value@),
{
    let plain = rich_text_plain_text(value.as_str());
    if is_blank(plain.as_str()) {
        String::new()
    } else {
        value
    }
}

/// The concatenation of parts starts with the first two characters of the
/// first part, where that part has two.
proof fn lemma_concat_starts_like_first(parts: Seq<Seq<char>>)
    requires
        parts.len() >= 1,
        parts[0].len() >= 2,
    ensures
        concat(parts).len() >= 2,
        concat(parts)[0] == parts[0][0],
        concat(parts)[1] == parts[0][1],
    decreases parts.len(),
{
    let init = parts.subrange(0, parts.len() - 1);
    if parts.len() == 1 {
        assert(init.len() == 0);
        assert(concat(init) =~= Seq::<char>::empty());
        assert(concat(parts) =~= concat(init) + parts[0]);
    } else {
        assert(init[0] == parts[0]);
        lemma_concat_starts_like_first(init);
    }
}

/// Editor HTML made from plain text starts with a paragraph, so it is read
/// as editor HTML.
proof fn lemma_plain_text_html_is_rich(value: Seq<char>)
    requires
        plain_text_html(value).len() > 0,
    ensures
        looks_like_rich_text(plain_text_html(value)),
{
    let v = normalize_newlines(value);
    let ps = split_on(v, "\n\n"@);
    lemma_split_on_nonempty(v, "\n\n"@);
    let hs = ps.map_values(|p: Seq<char>| paragraph_html(p));
    reveal_strlit("<p><br></p>");
    reveal_strlit("<p>");
    reveal_strlit("<p");
    let h0 = paragraph_html(ps[0]);
    assert(h0[0] == '<' && h0[1] == 'p' && h0.len() >= 2) by {
        let joined = join(escaped_lines(lines_of(ps[0])), "<br>"@);
        if joined.len() != 0 {
            assert(h0 =~= "<p>"@ + joined + "</p>"@);
        }
    }
    assert(hs[0] == h0);
    lemma_concat_starts_like_first(hs);
    let w = plain_text_html(value);
    assert(w == concat(hs));
    assert(!is_ws(w[0]));
    assert(trim_start(w) == w);
    let lw = ascii_lower_seq(w);
    assert(lw.subrange(0, 2) =~= "<p"@);
    assert(rich_prefixes()[10] == "<p"@);
    assert(has_prefix(lw, rich_prefixes()[10]));
}

/// The empty text is not read as editor HTML.
proof fn lemma_empty_is_plain_text()
    ensures
        !looks_like_rich_text(Seq::<char>::empty()),
{
    reveal_strlit("<blockquote");
    reveal_strlit("<br");
    reveal_strlit("<div");
    reveal_strlit("<h1");
    reveal_strlit("<h2");
    reveal_strlit("<h3");
    reveal_strlit("<h4");
    reveal_strlit("<h5");
    reveal_strlit("<h6");
    reveal_strlit("<ol");
    reveal_strlit("<p");
    reveal_strlit("<pre");
    reveal_strlit("<ul");
    let e = Seq::<char>::empty();
    assert(trim_start(e) =~= e);
    assert forall|k: int| 0 <= k < rich_prefixes().len() implies !has_prefix(
        ascii_lower_seq(trim_start(e)),
        #[trigger] rich_prefixes()[k],
    ) by {
        assert(rich_prefixes()[k].len() > 0);
    }
}

/// Loading a stored text into the editor twice gives what loading it once
/// gives: editor HTML is kept, and the HTML made from plain text is itself
/// read as editor HTML (or is empty).
pub proof fn lemma_editor_html_idempotent(value: Seq<char>)
    ensures
        editor_html(editor_html(value)) == editor_html(value),
{
    if !looks_like_rich_text(value) {
        let w = plain_text_html(value);
        if w.len() > 0 {
            lemma_plain_text_html_is_rich(value);
        } else {
            lemma_empty_is_plain_text();
            assert(w =~= Seq::<char>::empty());
            assert(normalize_newlines(w) =~= w);
        }
    }
}

/// Normalising what the editor holds a second time changes nothing.
pub proof fn lemma_tiptap_storage_idempotent(value: Seq<char>)
    ensures
        tiptap_storage(tiptap_storage(value)) == tiptap_storage(value),
{
    if trim(rich_plain_text(value)).len() == 0 {
        let e = Seq::<char>::empty();
        lemma_empty_is_plain_text();
        assert(trim_start(e) =~= e);
        assert(trim_end(e) =~= e);
        assert(trim(rich_plain_text(e)).len() == 0);
    }
}

} // verus!

verus! {

/// Whether `s` holds no `&`.
pub open spec fn no_ampersand(s: Seq<char>) -> bool {
    forall|i: int| 0 <= i < s.len() ==> s[i] != '&'
}

/// The order in which decoding turns the entities back: `<` first, then
/// `>`, `"` and `'`; other characters have none.
pub open spec fn entity_rank(c: char) -> int {
    if c == '<' {
        0
    } else if c == '>' {
        1
    } else if c == '"' {
        2
    } else if c == '\'' {
        3
    } else {
        -1
    }
}

/// A character escaped only where its entity is not yet turned back at
/// decoding step `k`.
pub open spec fn escape_char_from(c: char, k: int) -> Seq<char> {
    if entity_rank(c) >= k {
        escape_char(c)
    } else {
        seq![c]
    }
}

/// A text escaped only in the characters whose entities are not yet turned
/// back at decoding step `k`.
pub open spec fn escape_from(s: Seq<char>, k: int) -> Seq<char>
    decreases s.len(),
{
    if s.len() == 0 {
        Seq::empty()
    } else {
        escape_char_from(s[0], k) + escape_from(s.subrange(1, s.len() as int), k)
    }
}

/// The text a decoding stage looks for.
pub open spec fn stage_pattern(j: int) -> Seq<char> {
    if j == 0 {
        "&nbsp;"@
    } else if j == 1 {
        "&amp;"@
    } else if j == 2 {
        "&lt;"@
    } else if j == 3 {
        "&gt;"@
    } else if j == 4 {
        "&quot;"@
    } else {
        "&#39;"@
    }
}

/// The text a decoding stage puts in its place.
pub open spec fn stage_replacement(j: int) -> Seq<char> {
    if j == 0 {
        " "@
    } else if j == 1 {
        "&"@
    } else if j == 2 {
        "<"@
    } else if j == 3 {
        ">"@
    } else if j == 4 {
        "\""@
    } else {
        "'"@
    }
}

/// The decoding step reached before stage `j`.
pub open spec fn level_before(j: int) -> int {
    if j <= 2 { 0 } else { j - 2 }
}

/// The decoding step reached after stage `j`.
pub open spec fn level_after(j: int) -> int {
    if j <= 1 { 0 } else { j - 1 }
}

proof fn reveal_entity_texts()
    ensures
        "&nbsp;"@ == seq!['&', 'n', 'b', 's', 'p', ';'],
        "&amp;"@ == seq!['&', 'a', 'm', 'p', ';'],
        "&lt;"@ == seq!['&', 'l', 't', ';'],
        "&gt;"@ == seq!['&', 'g', 't', ';'],
        "&quot;"@ == seq!['&', 'q', 'u', 'o', 't', ';'],
        "&#39;"@ == seq!['&', '#', '3', '9', ';'],
        " "@ == seq![' '],
        "&"@ == seq!['&'],
        "<"@ == seq!['<'],
        ">"@ == seq!['>'],
        "\""@ == seq!['"'],
        "'"@ == seq!['\''],
{
    reveal_strlit("&nbsp;");
    reveal_strlit("&amp;");
    reveal_strlit("&lt;");
    reveal_strlit("&gt;");
    reveal_strlit("&quot;");
    reveal_strlit("&#39;");
    reveal_strlit(" ");
    reveal_strlit("&");
    reveal_strlit("<");
    reveal_strlit(">");
    reveal_strlit("\"");
    reveal_strlit("'");
    assert("&nbsp;"@ =~= seq!['&', 'n', 'b', 's', 'p', ';']);
    assert("&amp;"@ =~= seq!['&', 'a', 'm', 'p', ';']);
    assert("&lt;"@ =~= seq!['&', 'l', 't', ';']);
    assert("&gt;"@ =~= seq!['&', 'g', 't', ';']);
    assert("&quot;"@ =~= seq!['&', 'q', 'u', 'o', 't', ';']);
    assert("&#39;"@ =~= seq!['&', '#', '3', '9', ';']);
    assert(" "@ =~= seq![' ']);
    assert("&"@ =~= seq!['&']);
    assert("<"@ =~= seq!['<']);
    assert(">"@ =~= seq!['>']);
    assert("\""@ =~= seq!['"']);
    assert("'"@ =~= seq!['\'']);
}

/// Replacing a pattern that starts with `&` passes over text without `&`.
proof fn lemma_replace_passes_plain(y: Seq<char>, z: Seq<char>, pat: Seq<char>, rep: Seq<char>)
    requires
        pat.len() > 0,
        pat[0] == '&',
        no_ampersand(y),
    ensures
        replace_all(y + z, pat, rep) == y + replace_all(z, pat, rep),
    decreases y.len(),
{
    if y.len() == 0 {
        assert(y + z =~= z);
        assert(y + replace_all(z, pat, rep) =~= replace_all(z, pat, rep));
    } else {
        let x = y + z;
        assert(x[0] == y[0]);
        assert(!has_prefix(x, pat));
        let y1 = y.subrange(1, y.len() as int);
        assert(x.subrange(1, x.len() as int) =~= y1 + z);
        lemma_replace_passes_plain(y1, z, pat, rep);
        assert(seq![x[0]] + (y1 + replace_all(z, pat, rep)) =~= y + replace_all(z, pat, rep));
    }
}

/// One decoding stage turns back exactly its own entity in partly escaped text.
proof fn lemma_decode_stage(s: Seq<char>, j: int)
    requires
        0 <= j < 6,
        no_ampersand(s),
    ensures
        replace_all(escape_from(s, level_before(j)), stage_pattern(j), stage_replacement(j)) == escape_from(
            s,
            level_after(j),
        ),
    decreases s.len(),
{
    reveal_entity_texts();
    let pat = stage_pattern(j);
    let rep = stage_replacement(j);
    let kb = level_before(j);
    let ka = level_after(j);
    assert(pat.len() >= 4 && pat[0] == '&') by {
        if j == 0 {
        } else if j == 1 {
        } else if j == 2 {
        } else if j == 3 {
        } else if j == 4 {
        } else {
        }
    }
    if s.len() == 0 {
        assert(escape_from(s, kb) =~= Seq::<char>::empty());
    } else {
        let c = s[0];
        let rest = s.subrange(1, s.len() as int);
        assert(no_ampersand(rest)) by {
            assert forall|i: int| 0 <= i < rest.len() implies rest[i] != '&' by {
                assert(rest[i] == s[i + 1]);
            }
        }
        lemma_decode_stage(rest, j);
        let head = escape_char_from(c, kb);
        let z = escape_from(rest, kb);
        assert(escape_from(s, kb) == head + z);
        assert(escape_from(s, ka) == escape_char_from(c, ka) + escape_from(rest, ka));
        assert(c != '&');
        if entity_rank(c) < kb {
            assert(head == seq![c]);
            assert(no_ampersand(head));
            lemma_replace_passes_plain(head, z, pat, rep);
            assert(escape_char_from(c, ka) == seq![c]);
        } else {
            let e = escape_char(c);
            assert(e.len() >= 4 && e[0] == '&' && no_ampersand(e.subrange(1, e.len() as int))) by {
                let e1 = e.subrange(1, e.len() as int);
                if c == '<' {
                    assert(e1 =~= seq!['l', 't', ';']);
                } else if c == '>' {
                    assert(e1 =~= seq!['g', 't', ';']);
                } else if c == '"' {
                    assert(e1 =~= seq!['q', 'u', 'o', 't', ';']);
                } else {
                    assert(e1 =~= seq!['#', '3', '9', ';']);
                }
            }
            assert((e == pat) == (entity_rank(c) == j - 2)) by {
                if j == 0 {
                } else if j == 1 {
                } else if j == 2 {
                } else if j == 3 {
                } else if j == 4 {
                } else {
                }
            }
            if e == pat {
                let x = e + z;
                assert(x.subrange(0, pat.len() as int) =~= pat);
                assert(has_prefix(x, pat));
                assert(x.subrange(pat.len() as int, x.len() as int) =~= z);
                assert(escape_char_from(c, ka) == rep);
            } else {
                let x = e + z;
                assert(e.len() >= 2 && x[1] == e[1]);
                assert(x[1] != pat[1]);
                assert(!has_prefix(x, pat));
                let e1 = e.subrange(1, e.len() as int);
                assert(no_ampersand(e1));
                assert(x.subrange(1, x.len() as int) =~= e1 + z);
                lemma_replace_passes_plain(e1, z, pat, rep);
                assert(seq![x[0]] + (e1 + replace_all(z, pat, rep)) =~= e + replace_all(z, pat, rep));
                assert(escape_char_from(c, ka) == e);
            }
        }
    }
}

/// `escape_from` at the first step is `escape_html`, on text without `&`.
proof fn lemma_escape_from_start(s: Seq<char>)
    requires
        no_ampersand(s),
    ensures
        escape_from(s, 0) == escape_html(s),
    decreases s.len(),
{
    if s.len() > 0 {
        let init = s.subrange(0, s.len() - 1);
        assert(no_ampersand(init)) by {
            assert forall|i: int| 0 <= i < init.len() implies init[i] != '&' by {
                assert(init[i] == s[i]);
            }
        }
        lemma_escape_from_start(init);
        lemma_escape_from_push(init, s[s.len() - 1], 0);
        assert(init.push(s[s.len() - 1]) =~= s);
        assert(escape_char_from(s[s.len() - 1], 0) == escape_char(s[s.len() - 1]));
    }
}

/// `escape_from` of a text with one more character at the end.
proof fn lemma_escape_from_push(s: Seq<char>, c: char, k: int)
    ensures
        escape_from(s.push(c), k) == escape_from(s, k) + escape_char_from(c, k),
    decreases s.len(),
{
    let t = s.push(c);
    if s.len() == 0 {
        assert(t.subrange(1, t.len() as int) =~= Seq::<char>::empty());
        assert(escape_from(t.subrange(1, t.len() as int), k) =~= Seq::<char>::empty());
        assert(escape_from(t, k) =~= escape_from(s, k) + escape_char_from(c, k));
    } else {
        let rest = s.subrange(1, s.len() as int);
        lemma_escape_from_push(rest, c, k);
        assert(t.subrange(1, t.len() as int) =~= rest.push(c));
        assert(t[0] == s[0]);
        assert(escape_from(t, k) =~= escape_from(s, k) + escape_char_from(c, k));
    }
}

/// `escape_from` after the last step changes nothing.
proof fn lemma_escape_from_end(s: Seq<char>)
    ensures
        escape_from(s, 4) == s,
    decreases s.len(),
{
    if s.len() > 0 {
        lemma_escape_from_end(s.subrange(1, s.len() as int));
        assert(seq![s[0]] + s.subrange(1, s.len() as int) =~= s);
    }
}

/// Law: decoding the basic entities of escaped text gives the text back,
/// where the text holds no `&` (an `&` that is followed by an entity's name
/// would be decoded twice).
pub proof fn lemma_decode_escaped(s: Seq<char>)
    requires
        no_ampersand(s),
    ensures
        decode_entities(escape_html(s)) == s,
{
    lemma_escape_from_start(s);
    lemma_decode_stage(s, 0);
    lemma_decode_stage(s, 1);
    lemma_decode_stage(s, 2);
    lemma_decode_stage(s, 3);
    lemma_decode_stage(s, 4);
    lemma_decode_stage(s, 5);
    lemma_escape_from_end(s);
}

/// Whether `s` holds none of the characters `<`, `>`, `"` and `'`.
pub open spec fn no_markup(s: Seq<char>) -> bool {
    forall|i: int| 0 <= i < s.len() ==> s[i] != '<' && s[i] != '>' && s[i] != '"' && s[i] != '\''
}

/// Law: escaped text holds none of `<`, `>`, `"` and `'`.
pub proof fn lemma_escaped_has_no_markup(s: Seq<char>)
    ensures
        no_markup(escape_html(s)),
    decreases s.len(),
{
    if s.len() > 0 {
        let init = s.subrange(0, s.len() - 1);
        lemma_escaped_has_no_markup(init);
        reveal_entity_texts();
        let a = escape_html(init);
        let b = escape_char(s[s.len() - 1]);
        assert(no_markup(b));
        assert forall|i: int| 0 <= i < (a + b).len() implies (a + b)[i] != '<' && (a + b)[i] != '>'
            && (a + b)[i] != '"' && (a + b)[i] != '\'' by {
            if i < a.len() {
                assert((a + b)[i] == a[i]);
            } else {
                assert((a + b)[i] == b[i - a.len()]);
            }
        }
    }
}

} // verus!
