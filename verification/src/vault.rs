//! Notes of an Obsidian vault: reading a note's title, text, tags and
//! wikilinks from its Markdown, and walking the vault's directories.
use vstd::prelude::*;
use pulldown_cmark::{Event, Parser, Tag, TagEnd};

use crate::paths::{extension, file_name, file_stem, path_extension, path_file_name, path_file_stem};
use crate::text::{
    chars_of, concat, is_ascii_char, is_ws, lemma_trim_idempotent, lemma_trim_shape,
    lemma_words_clean, owned,
    split_words, str_eq, string_of, trim, trim_bounds, words,
};

verus! {

// ---------------------------------------------------------------------------
// Markdown events
// ---------------------------------------------------------------------------

/// The Markdown events a note's text is read from: a heading starts (with
/// its level) or ends, a text run, an inline code span, or anything else.
pub enum MdEvent {
    HeadingStart(u8),
    HeadingEnd,
    Text(String),
    Code(String),
    Other,
}

/// The mathematical form of an [`MdEvent`].
pub enum MdEventView {
    HeadingStart(u8),
    HeadingEnd,
    Text(Seq<char>),
    Code(Seq<char>),
    Other,
}

impl DeepView for MdEvent {
    type V = MdEventView;

    open spec fn deep_view(&self) -> MdEventView {
        match self {
            MdEvent::HeadingStart(l) => MdEventView::HeadingStart(*l),
            MdEvent::HeadingEnd => MdEventView::HeadingEnd,
            MdEvent::Text(t) => MdEventView::Text(t@),
            MdEvent::Code(t) => MdEventView::Code(t@),
            MdEvent::Other => MdEventView::Other,
        }
    }
}

/// The events `pulldown_cmark::Parser` yields for a text, reduced to
/// [`MdEventView`]s.
pub uninterp spec fn markdown_events(text: Seq<char>) -> Seq<MdEventView>;

/// The Markdown events of `text` (`pulldown_cmark::Parser::new`, default
/// options). Trusted: the result is the named event sequence of the text;
/// each pulldown-cmark event is mapped to one [`MdEvent`] (heading start
/// with its level, heading end, text, inline code, anything else).
#[verifier::external_body]
fn parse_markdown(text: &str) -> (events: Vec<MdEvent>)
    ensures
        events.deep_view() == markdown_events(text@),
{
    Parser::new(text).map(|event| match event {
        Event::Start(Tag::Heading { level, .. }) => MdEvent::HeadingStart(level as u8),
        Event::End(TagEnd::Heading(_)) => MdEvent::HeadingEnd,
        Event::Text(t) => MdEvent::Text(t.into_string()),
        Event::Code(t) => MdEvent::Code(t.into_string()),
        _ => MdEvent::Other,
    }).collect()
}

// ---------------------------------------------------------------------------
// Tags
// ---------------------------------------------------------------------------

/// ASCII punctuation (`char::is_ascii_punctuation`).
pub open spec fn is_ascii_punct(c: char) -> bool {
    ('!' <= c && c <= '/') || (':' <= c && c <= '@') || ('[' <= c && c <= '`') || ('{' <= c
        && c <= '~')
}

/// `s` without its leading `#` characters.
pub open spec fn trim_hashes(s: Seq<char>) -> Seq<char>
    decreases s.len(),
{
    if s.len() > 0 && s[0] == '#' {
        trim_hashes(s.drop_first())
    } else {
        s
    }
}

/// `s` without its trailing ASCII punctuation.
pub open spec fn trim_punct_end(s: Seq<char>) -> Seq<char>
    decreases s.len(),
{
    if s.len() > 0 && is_ascii_punct(s.last()) {
        trim_punct_end(s.drop_last())
    } else {
        s
    }
}

/// The tag a word stands for: a word of two or more characters that starts
/// with `#`, without its leading `#`s and trailing punctuation, if anything
/// is left.
pub open spec fn tag_of(word: Seq<char>) -> Option<Seq<char>> {
    if word.len() > 1 && word[0] == '#' {
        let t = trim_punct_end(trim_hashes(word));
        if t.len() > 0 {
            Some(t)
        } else {
            None
        }
    } else {
        None
    }
}

/// The tags of a sequence of words, in order.
pub open spec fn tags_of_words(ws: Seq<Seq<char>>) -> Seq<Seq<char>>
    decreases ws.len(),
{
    if ws.len() == 0 {
        Seq::empty()
    } else {
        let init = tags_of_words(ws.drop_last());
        match tag_of(ws.last()) {
            Some(t) => init.push(t),
            None => init,
        }
    }
}

/// The tags a text run holds.
pub open spec fn tags_in(text: Seq<char>) -> Seq<Seq<char>> {
    tags_of_words(words(text))
}

fn is_punct(c: char) -> (r: bool)
    ensures
        r == is_ascii_punct(c),
{
    ('!' <= c && c <= '/') || (':' <= c && c <= '@') || ('[' <= c && c <= '`') || ('{' <= c
        && c <= '~')
}

proof fn lemma_trim_hashes_skip(s: Seq<char>, k: int)
    requires
        0 <= k <= s.len(),
        forall|j: int| 0 <= j < k ==> #[trigger] s[j] == '#',
    ensures
        trim_hashes(s) == trim_hashes(s.skip(k)),
    decreases k,
{
    if k > 0 {
        assert(s.drop_first().skip(k - 1) =~= s.skip(k));
        lemma_trim_hashes_skip(s.drop_first(), k - 1);
    } else {
        assert(s.skip(0) =~= s);
    }
}

proof fn lemma_trim_punct_take(s: Seq<char>, k: int)
    requires
        0 <= k <= s.len(),
        forall|j: int| k <= j < s.len() ==> is_ascii_punct(#[trigger] s[j]),
    ensures
        trim_punct_end(s) == trim_punct_end(s.take(k)),
    decreases s.len() - k,
{
    if k < s.len() {
        assert(s.drop_last().take(k) =~= s.take(k));
        lemma_trim_punct_take(s.drop_last(), k);
    } else {
        assert(s.take(k) =~= s);
    }
}

proof fn lemma_trim_hashes_shape(s: Seq<char>) -> (k: int)
    ensures
        0 <= k <= s.len(),
        trim_hashes(s) == s.skip(k),
        k < s.len() ==> s[k] != '#',
    decreases s.len(),
{
    if s.len() > 0 && s[0] == '#' {
        let j = lemma_trim_hashes_shape(s.drop_first());
        assert(s.drop_first().skip(j) =~= s.skip(j + 1));
        j + 1
    } else {
        assert(s.skip(0) =~= s);
        0
    }
}

proof fn lemma_trim_punct_shape(s: Seq<char>) -> (k: int)
    ensures
        0 <= k <= s.len(),
        trim_punct_end(s) == s.take(k),
        k > 0 ==> !is_ascii_punct(s[k - 1]),
    decreases s.len(),
{
    if s.len() > 0 && is_ascii_punct(s.last()) {
        let j = lemma_trim_punct_shape(s.drop_last());
        assert(s.drop_last().take(j) =~= s.take(j));
        j
    } else {
        assert(s.take(s.len() as int) =~= s);
        s.len() as int
    }
}

/// A tag as a note yields it: not empty, not starting with `#`, not ending
/// in ASCII punctuation, and without white space.
pub open spec fn clean_tag(t: Seq<char>) -> bool {
    &&& t.len() > 0
    &&& t[0] != '#'
    &&& !is_ascii_punct(t.last())
    &&& forall|j: int| 0 <= j < t.len() ==> !is_ws(#[trigger] t[j])
}

proof fn lemma_tag_of_clean(word: Seq<char>)
    requires
        forall|j: int| 0 <= j < word.len() ==> !is_ws(#[trigger] word[j]),
        tag_of(word) is Some,
    ensures
        clean_tag(tag_of(word)->0),
{
    let a = lemma_trim_hashes_shape(word);
    let h = word.skip(a);
    let b = lemma_trim_punct_shape(h);
    let t = tag_of(word)->0;
    assert(t == h.take(b));
    assert(t[0] == h[0]);
    assert(t.last() == h[b - 1]);
    assert forall|j: int| 0 <= j < t.len() implies !is_ws(#[trigger] t[j]) by {
        assert(t[j] == word[a + j]);
    }
}

proof fn lemma_tags_of_words_clean(ws: Seq<Seq<char>>)
    requires
        forall|i: int, j: int|
            0 <= i < ws.len() && 0 <= j < ws[i].len() ==> !is_ws(#[trigger] ws[i][j]),
    ensures
        forall|i: int| 0 <= i < tags_of_words(ws).len() ==> clean_tag(#[trigger] tags_of_words(ws)[i]),
    decreases ws.len(),
{
    if ws.len() > 0 {
        let init = tags_of_words(ws.drop_last());
        assert forall|i: int, j: int|
            0 <= i < ws.drop_last().len() && 0 <= j < ws.drop_last()[i].len() implies !is_ws(
            #[trigger] ws.drop_last()[i][j],
        ) by {
            assert(ws.drop_last()[i] == ws[i]);
        }
        lemma_tags_of_words_clean(ws.drop_last());
        let w = ws.last();
        assert forall|j: int| 0 <= j < w.len() implies !is_ws(#[trigger] w[j]) by {
            assert(w[j] == ws[ws.len() - 1][j]);
        }
        match tag_of(w) {
            Some(t) => {
                lemma_tag_of_clean(w);
                let all = init.push(t);
                assert forall|i: int| 0 <= i < all.len() implies clean_tag(#[trigger] all[i]) by {
                    if i < init.len() {
                        assert(all[i] == init[i]);
                    }
                }
            },
            None => {},
        }
    }
}

/// Every tag a text run yields is clean: not empty, without its leading
/// `#`, without trailing punctuation, and without white space.
pub proof fn law_tags_clean(text: Seq<char>)
    ensures
        forall|i: int| 0 <= i < tags_in(text).len() ==> clean_tag(#[trigger] tags_in(text)[i]),
{
    lemma_words_clean(text);
    lemma_tags_of_words_clean(words(text));
}

/// The tag a word stands for, if any.
pub fn tag_of_word(word: &String) -> (r: Option<String>)
    ensures
        r is Some <==> tag_of(word@) is Some,
        r is Some ==> r->0@ == tag_of(word@)->0,
{
    let v = chars_of(word.as_str());
    if !(v.len() > 1 && v[0] == '#') {
        return None;
    }
    let mut a: usize = 0;
    while a < v.len() && v[a] == '#'
        invariant
            a <= v.len(),
            forall|j: int| 0 <= j < a ==> #[trigger] v@[j] == '#',
        decreases v.len() - a,
    {
        a = a + 1;
    }
    proof {
        lemma_trim_hashes_skip(v@, a as int);
        let t = v@.skip(a as int);
        assert(trim_hashes(t) == t);
    }
    let mut b = v.len();
    while b > a && is_punct(v[b - 1])
        invariant
            a <= b <= v.len(),
            forall|j: int| b <= j < v.len() ==> is_ascii_punct(#[trigger] v@[j]),
        decreases b - a,
    {
        b = b - 1;
    }
    proof {
        let t = v@.skip(a as int);
        assert forall|j: int| b - a <= j < t.len() implies is_ascii_punct(#[trigger] t[j]) by {
            assert(t[j] == v@[a + j]);
        }
        lemma_trim_punct_take(t, b - a);
        assert(t.take(b - a) =~= v@.subrange(a as int, b as int));
        let u = v@.subrange(a as int, b as int);
        assert(trim_punct_end(u) == u);
    }
    if b > a {
        Some(string_of(&v, a, b))
    } else {
        None
    }
}

/// The tags a text run holds: its words that start with `#`, cleaned.
pub fn tags_in_text(text: &str) -> (r: Vec<String>)
    ensures
        r.deep_view() == tags_in(text@),
{
    let ws = split_words(text);
    let ghost wv = ws.deep_view();
    let mut tags: Vec<String> = Vec::new();
    let mut i: usize = 0;
    while i < ws.len()
        invariant
            wv == ws.deep_view(),
            wv == words(text@),
            i <= ws.len(),
            tags.deep_view() == tags_of_words(wv.take(i as int)),
        decreases ws.len() - i,
    {
        proof {
            assert(wv.take(i + 1).drop_last() =~= wv.take(i as int));
            assert(wv.take(i + 1).last() == ws@[i as int]@);
        }
        match tag_of_word(&ws[i]) {
            Some(t) => {
                let ghost before = tags.deep_view();
                tags.push(t);
                proof {
                    assert(tags.deep_view() =~= before.push(tags@.last()@));
                }
            },
            None => {},
        }
        i = i + 1;
    }
    proof {
        assert(wv.take(wv.len() as int) =~= wv);
    }
    tags
}

// ---------------------------------------------------------------------------
// Wikilinks
// ---------------------------------------------------------------------------

/// The index of the first `[[` in `s`, or -1.
pub open spec fn find_open(s: Seq<char>) -> int
    decreases s.len(),
{
    if s.len() < 2 {
        -1
    } else if s[0] == '[' && s[1] == '[' {
        0
    } else {
        let r = find_open(s.drop_first());
        if r < 0 {
            -1
        } else {
            r + 1
        }
    }
}

/// The index of the first `c` in `s`, or -1.
pub open spec fn find_char(s: Seq<char>, c: char) -> int
    decreases s.len(),
{
    if s.len() == 0 {
        -1
    } else if s[0] == c {
        0
    } else {
        let r = find_char(s.drop_first(), c);
        if r < 0 {
            -1
        } else {
            r + 1
        }
    }
}

/// The target of a link text `Target|Display`: the part before the first
/// `|`, trimmed.
pub open spec fn link_target(link: Seq<char>) -> Seq<char> {
    let k = find_char(link, '|');
    trim(
        if k < 0 {
            link
        } else {
            link.take(k)
        },
    )
}

/// The wikilink targets of a note's raw text, in order: from each `[[` to
/// the next `]`, the target is kept when it is not empty, and reading goes
/// on two characters after that `]`. `None` when the character after such a
/// `]` is missing or is not ASCII: the text is read by byte offsets, which
/// would then fall outside the text or inside a character.
pub open spec fn wikilinks_scan(s: Seq<char>) -> Option<Seq<Seq<char>>>
    decreases s.len(),
{
    let st = find_open(s);
    if st < 0 || st >= s.len() {
        Some(Seq::empty())
    } else {
        let e = find_char(s.skip(st), ']');
        if e < 0 {
            Some(Seq::empty())
        } else {
            let after = st + e + 1;
            if after >= s.len() || !is_ascii_char(s[after]) {
                None
            } else {
                let target = link_target(s.subrange(st + 2, st + e));
                match wikilinks_scan(s.skip(after + 1)) {
                    None => None,
                    Some(rest) => Some(
                        if target.len() > 0 {
                            seq![target] + rest
                        } else {
                            rest
                        },
                    ),
                }
            }
        }
    }
}

/// `xs` put before what a scan gives.
pub open spec fn prepend_links(xs: Seq<Seq<char>>, r: Option<Seq<Seq<char>>>) -> Option<Seq<Seq<char>>> {
    match r {
        None => None,
        Some(rest) => Some(xs + rest),
    }
}

proof fn lemma_find_open(s: Seq<char>)
    ensures
        -1 <= find_open(s) <= s.len() - 2 || find_open(s) == -1,
        find_open(s) >= 0 ==> s[find_open(s)] == '[' && s[find_open(s) + 1] == '[',
        find_open(s) >= 0 ==> find_open(s) + 2 <= s.len(),
    decreases s.len(),
{
    if s.len() >= 2 && !(s[0] == '[' && s[1] == '[') {
        lemma_find_open(s.drop_first());
    }
}

proof fn lemma_find_char(s: Seq<char>, c: char)
    ensures
        -1 <= find_char(s, c) < s.len(),
        find_char(s, c) >= 0 ==> s[find_char(s, c)] == c,
        forall|j: int| 0 <= j < s.len() && (find_char(s, c) < 0 || j < find_char(s, c)) ==> s[j] != c,
    decreases s.len(),
{
    if s.len() > 0 && s[0] != c {
        lemma_find_char(s.drop_first(), c);
        assert forall|j: int| 0 <= j < s.len() && (find_char(s, c) < 0 || j < find_char(s, c)) implies s[j] != c by {
            if j > 0 {
                assert(s[j] == s.drop_first()[j - 1]);
            }
        }
    }
}

/// The index of the first `[[` at or after `pos`.
fn find_open_from(v: &Vec<char>, pos: usize) -> (r: Option<usize>)
    requires
        pos <= v.len(),
    ensures
        r is None <==> find_open(v@.skip(pos as int)) < 0,
        r is Some ==> r->0 == pos + find_open(v@.skip(pos as int)),
{
    let mut j = pos;
    proof {
        lemma_find_open(v@.skip(pos as int));
    }
    while v.len() >= 2 && j < v.len() - 1
        invariant
            pos <= j <= v.len(),
            find_open(v@.skip(pos as int)) < 0 ==> find_open(v@.skip(j as int)) < 0,
            find_open(v@.skip(pos as int)) >= 0 ==> find_open(v@.skip(j as int)) >= 0
                && find_open(v@.skip(pos as int)) == find_open(v@.skip(j as int)) + (j - pos),
        decreases v.len() - j,
    {
        if v[j] == '[' && v[j + 1] == '[' {
            proof {
                assert(v@.skip(j as int)[0] == '[' && v@.skip(j as int)[1] == '[');
            }
            return Some(j);
        }
        proof {
            assert(v@.skip(j as int).drop_first() =~= v@.skip(j + 1));
        }
        j = j + 1;
    }
    None
}

/// The index of the first `c` at or after `pos`.
fn find_char_from(v: &Vec<char>, pos: usize, c: char) -> (r: Option<usize>)
    requires
        pos <= v.len(),
    ensures
        r is None <==> find_char(v@.skip(pos as int), c) < 0,
        r is Some ==> r->0 == pos + find_char(v@.skip(pos as int), c),
{
    let mut j = pos;
    while j < v.len()
        invariant
            pos <= j <= v.len(),
            find_char(v@.skip(pos as int), c) < 0 ==> find_char(v@.skip(j as int), c) < 0,
            find_char(v@.skip(pos as int), c) >= 0 ==> find_char(v@.skip(j as int), c) >= 0
                && find_char(v@.skip(pos as int), c) == find_char(v@.skip(j as int), c) + (j - pos),
        decreases v.len() - j,
    {
        if v[j] == c {
            return Some(j);
        }
        proof {
            assert(v@.skip(j as int).drop_first() =~= v@.skip(j + 1));
        }
        j = j + 1;
    }
    None
}

/// The wikilink target of the link text `v[lo..hi]`.
fn target_of(v: &Vec<char>, lo: usize, hi: usize) -> (r: String)
    requires
        lo <= hi <= v.len(),
    ensures
        r@ == link_target(v@.subrange(lo as int, hi as int)),
{
    let ghost link = v@.subrange(lo as int, hi as int);
    let mut k = lo;
    while k < hi && v[k] != '|'
        invariant
            lo <= k <= hi <= v.len(),
            forall|j: int| lo <= j < k ==> v@[j] != '|',
        decreases hi - k,
    {
        k = k + 1;
    }
    proof {
        lemma_find_char(link, '|');
        if k < hi {
            assert(link[k - lo] == '|');
            assert forall|j: int| 0 <= j < k - lo implies link[j] != '|' by {
                assert(link[j] == v@[lo + j]);
            }
            lemma_first_char_index(link, '|', k - lo);
            assert(link.take(k - lo) =~= v@.subrange(lo as int, k as int));
        } else {
            assert forall|j: int| 0 <= j < link.len() implies link[j] != '|' by {
                assert(link[j] == v@[lo + j]);
            }
            lemma_no_char(link, '|');
            assert(link =~= v@.subrange(lo as int, k as int));
        }
    }
    let (a, b) = trim_bounds(v, lo, k);
    string_of(v, a, b)
}

proof fn lemma_first_char_index(s: Seq<char>, c: char, k: int)
    requires
        0 <= k < s.len(),
        s[k] == c,
        forall|j: int| 0 <= j < k ==> s[j] != c,
    ensures
        find_char(s, c) == k,
    decreases k,
{
    if k > 0 {
        assert forall|j: int| 0 <= j < k - 1 implies s.drop_first()[j] != c by {
            assert(s.drop_first()[j] == s[j + 1]);
        }
        lemma_first_char_index(s.drop_first(), c, k - 1);
    }
}

proof fn lemma_no_char(s: Seq<char>, c: char)
    requires
        forall|j: int| 0 <= j < s.len() ==> s[j] != c,
    ensures
        find_char(s, c) == -1,
    decreases s.len(),
{
    if s.len() > 0 {
        assert forall|j: int| 0 <= j < s.len() - 1 implies s.drop_first()[j] != c by {
            assert(s.drop_first()[j] == s[j + 1]);
        }
        lemma_no_char(s.drop_first(), c);
    }
}

/// The wikilink targets of a note's raw text (see [`wikilinks_scan`]);
/// `None` exactly where the scan would cut the text outside it or inside
/// a character.
pub fn scan_wikilinks(content: &str) -> (r: Option<Vec<String>>)
    ensures
        r is Some <==> wikilinks_scan(content@) is Some,
        r is Some ==> r->0.deep_view() == wikilinks_scan(content@)->0,
{
    let v = chars_of(content);
    let mut links: Vec<String> = Vec::new();
    let mut pos: usize = 0;
    assert(v@.skip(0) =~= v@);
    loop
        invariant
            v@ == content@,
            pos <= v.len(),
            wikilinks_scan(v@) == prepend_links(links.deep_view(), wikilinks_scan(v@.skip(pos as int))),
        decreases v.len() - pos,
    {
        let ghost s = v@.skip(pos as int);
        proof {
            lemma_find_open(s);
        }
        let st = match find_open_from(&v, pos) {
            Some(st) => st,
            None => {
                assert(links.deep_view() + Seq::<Seq<char>>::empty() =~= links.deep_view());
                return Some(links);
            },
        };
        let ghost rs = st - pos;
        proof {
            assert(s.skip(rs) =~= v@.skip(st as int));
            lemma_find_char(s.skip(rs), ']');
        }
        let e = match find_char_from(&v, st, ']') {
            Some(e) => e,
            None => {
                assert(links.deep_view() + Seq::<Seq<char>>::empty() =~= links.deep_view());
                return Some(links);
            },
        };
        proof {
            assert(v@[st as int] == '[' && v@[st + 1] == '[');
            assert(e >= st + 2);
        }
        proof {
            assert(find_open(s) == rs);
            assert(find_char(s.skip(rs), ']') == (e - st) as int);
            assert(s.len() == v.len() - pos);
            assert(rs < s.len());
            let after = rs + (e - st) + 1;
            assert(after == e + 1 - pos);
            if e + 1 < v.len() {
                assert(s[after] == v@[e + 1]);
            }
        }
        if e + 1 >= v.len() || v[e + 1] >= '\u{80}' {
            proof {
                if e + 1 < v.len() {
                    assert(s[rs + (e - st) + 1] == v@[e + 1]);
                }
            }
            return None;
        }
        let target = target_of(&v, st + 2, e);
        proof {
            assert(s.subrange(rs + 2, rs + (e - st)) =~= v@.subrange(st + 2, e as int));
            assert(s.skip(rs + (e - st) + 1 + 1) =~= v@.skip(e + 2));
            assert(s[rs + (e - st) + 1] == v@[e + 1]);
            assert(wikilinks_scan(s) == match wikilinks_scan(v@.skip(e + 2)) {
                None => None,
                Some(rest) => Some(
                    if target@.len() > 0 {
                        seq![target@] + rest
                    } else {
                        rest
                    },
                ),
            });
        }
        if !target.as_str().is_empty() {
            let ghost before = links.deep_view();
            links.push(target);
            proof {
                assert(links.deep_view() =~= before.push(target@));
                assert(target@.len() > 0);
                match wikilinks_scan(v@.skip(e + 2)) {
                    Some(rest) => {
                        assert(before + (seq![target@] + rest) =~= links.deep_view() + rest);
                    },
                    None => {},
                }
            }
        } else {
            proof {
                assert(target@.len() == 0);
            }
        }
        pos = e + 2;
    }
}

/// A wikilink target as a scan yields it: not empty, without white space at
/// its ends, and holding neither `|` nor `]`.
pub open spec fn clean_target(t: Seq<char>) -> bool {
    &&& t.len() > 0
    &&& trim(t) == t
    &&& forall|j: int| 0 <= j < t.len() ==> #[trigger] t[j] != '|' && t[j] != ']'
}

proof fn lemma_link_target_clean(link: Seq<char>)
    requires
        forall|j: int| 0 <= j < link.len() ==> #[trigger] link[j] != ']',
        link_target(link).len() > 0,
    ensures
        clean_target(link_target(link)),
{
    let k = find_char(link, '|');
    lemma_find_char(link, '|');
    let pre = if k < 0 {
        link
    } else {
        link.take(k)
    };
    assert forall|j: int| 0 <= j < pre.len() implies #[trigger] pre[j] != '|' && pre[j] != ']' by {
        assert(pre[j] == link[j]);
    }
    let r = lemma_trim_shape(pre);
    lemma_trim_idempotent(pre);
    let t = link_target(link);
    assert forall|j: int| 0 <= j < t.len() implies #[trigger] t[j] != '|' && t[j] != ']' by {
        assert(t[j] == pre[r.0 + j]);
    }
}

/// Every wikilink target a note's text yields is clean: not empty, trimmed,
/// and free of `|` and `]`.
pub proof fn law_wikilink_targets_clean(s: Seq<char>)
    requires
        wikilinks_scan(s) is Some,
    ensures
        forall|i: int|
            0 <= i < wikilinks_scan(s)->0.len() ==> clean_target(#[trigger] wikilinks_scan(s)->0[i]),
    decreases s.len(),
{
    let st = find_open(s);
    lemma_find_open(s);
    if st < 0 || st >= s.len() {
    } else {
        let e = find_char(s.skip(st), ']');
        lemma_find_char(s.skip(st), ']');
        if e >= 0 {
            let after = st + e + 1;
            if after < s.len() && is_ascii_char(s[after]) {
                assert(s.skip(st)[0] == '[' && s.skip(st)[1] == '[');
                let link = s.subrange(st + 2, st + e);
                assert forall|j: int| 0 <= j < link.len() implies #[trigger] link[j] != ']' by {
                    assert(link[j] == s.skip(st)[j + 2]);
                }
                let target = link_target(link);
                law_wikilink_targets_clean(s.skip(after + 1));
                let rest = wikilinks_scan(s.skip(after + 1))->0;
                if target.len() > 0 {
                    lemma_link_target_clean(link);
                    let all = seq![target] + rest;
                    assert forall|i: int| 0 <= i < all.len() implies clean_target(#[trigger] all[i]) by {
                        if i > 0 {
                            assert(all[i] == rest[i - 1]);
                        }
                    }
                }
            }
        }
    }
}

// ---------------------------------------------------------------------------
// Notes
// ---------------------------------------------------------------------------

/// A note of the vault.
pub struct Note {
    /// Where the note's file is.
    pub path: String,
    /// Its first level-1 heading, else its file name without extension.
    pub title: String,
    /// Its text and inline code, each run followed by a space.
    pub content: String,
    /// The `#tags` in its text, in order.
    pub tags: Vec<String>,
    /// The targets of its `[[wikilinks]]`, in order.
    pub wikilinks: Vec<String>,
}

/// The mathematical form of a [`Note`].
pub struct NoteView {
    pub path: Seq<char>,
    pub title: Seq<char>,
    pub content: Seq<char>,
    pub tags: Seq<Seq<char>>,
    pub wikilinks: Seq<Seq<char>>,
}

impl View for Note {
    type V = NoteView;

    open spec fn view(&self) -> NoteView {
        NoteView {
            path: self.path@,
            title: self.title@,
            content: self.content@,
            tags: self.tags.deep_view(),
            wikilinks: self.wikilinks.deep_view(),
        }
    }
}

/// What reading a note's events so far has gathered.
pub struct NoteAcc {
    pub title: Seq<char>,
    pub in_h1: bool,
    pub content: Seq<char>,
    pub tags: Seq<Seq<char>>,
}

/// Reading one event: a level-1 heading opens the title; the first text
/// inside it becomes the title; text and code are added to the content,
/// each followed by a space; text adds its tags.
pub open spec fn read_event(a: NoteAcc, e: MdEventView) -> NoteAcc {
    match e {
        MdEventView::HeadingStart(level) => if level == 1 {
            NoteAcc { title: a.title, in_h1: true, content: a.content, tags: a.tags }
        } else {
            a
        },
        MdEventView::HeadingEnd => NoteAcc { title: a.title, in_h1: false, content: a.content, tags: a.tags },
        MdEventView::Text(t) => NoteAcc {
            title: if a.in_h1 && a.title.len() == 0 {
                t
            } else {
                a.title
            },
            in_h1: a.in_h1,
            content: a.content + t + seq![' '],
            tags: a.tags + tags_in(t),
        },
        MdEventView::Code(t) => NoteAcc {
            title: a.title,
            in_h1: a.in_h1,
            content: a.content + t + seq![' '],
            tags: a.tags,
        },
        MdEventView::Other => a,
    }
}

/// The tags of the text runs among `es`, in order: inline code and every
/// other kind of event give none.
pub open spec fn text_run_tags(es: Seq<MdEventView>) -> Seq<Seq<char>>
    decreases es.len(),
{
    if es.len() == 0 {
        Seq::empty()
    } else {
        text_run_tags(es.drop_last()) + match es.last() {
            MdEventView::Text(t) => tags_in(t),
            _ => Seq::empty(),
        }
    }
}

/// An inline code span adds no tag: `#ff0000` or `#include` in code is
/// text of the note, not a tag.
pub proof fn law_code_adds_no_tag(a: NoteAcc, t: Seq<char>)
    ensures
        read_event(a, MdEventView::Code(t)).tags == a.tags,
        read_event(a, MdEventView::Code(t)).content == a.content + t + seq![' '],
{
}

/// A note's tags are those of its text runs, in order, and of nothing else.
pub proof fn law_note_tags_from_text_runs(path: Seq<char>, es: Seq<MdEventView>, links: Seq<Seq<char>>)
    ensures
        note_from(path, es, links).tags == text_run_tags(es),
    decreases es.len(),
{
    lemma_read_tags(es);
}

proof fn lemma_read_tags(es: Seq<MdEventView>)
    ensures
        read_events(es).tags == text_run_tags(es),
    decreases es.len(),
{
    if es.len() > 0 {
        lemma_read_tags(es.drop_last());
        match es.last() {
            MdEventView::Text(t) => {},
            _ => {
                assert(text_run_tags(es.drop_last()) + Seq::<Seq<char>>::empty() =~= text_run_tags(
                    es.drop_last(),
                ));
            },
        }
    }
}

/// What reading the events in order gathers.
pub open spec fn read_events(es: Seq<MdEventView>) -> NoteAcc
    decreases es.len(),
{
    if es.len() == 0 {
        NoteAcc { title: Seq::empty(), in_h1: false, content: Seq::empty(), tags: Seq::empty() }
    } else {
        read_event(read_events(es.drop_last()), es.last())
    }
}

/// The note at `path` with Markdown events `es` and wikilinks `links`: its
/// title falls back on the file's stem when no level-1 heading gave one.
pub open spec fn note_from(path: Seq<char>, es: Seq<MdEventView>, links: Seq<Seq<char>>) -> NoteView {
    let a = read_events(es);
    NoteView {
        path: path,
        title: if a.title.len() > 0 {
            a.title
        } else {
            match file_stem(path) {
                Some(s) => s,
                None => Seq::empty(),
            }
        },
        content: a.content,
        tags: a.tags,
        wikilinks: links,
    }
}

/// The note at `path` whose raw text is `raw`.
pub open spec fn parsed_note(path: Seq<char>, raw: Seq<char>) -> NoteView {
    note_from(path, markdown_events(raw), wikilinks_scan(raw)->0)
}

/// The note at `path` made of its Markdown events and its wikilinks.
pub fn note_from_events(path: &str, events: &Vec<MdEvent>, wikilinks: Vec<String>) -> (note: Note)
    ensures
        note@ == note_from(path@, events.deep_view(), wikilinks.deep_view()),
{
    let ghost es = events.deep_view();
    let mut title = String::new();
    let mut in_h1 = false;
    let mut content = String::new();
    let mut tags: Vec<String> = Vec::new();
    let mut i: usize = 0;
    while i < events.len()
        invariant
            es == events.deep_view(),
            i <= events.len(),
            ({
                let a = read_events(es.take(i as int));
                &&& title@ == a.title
                &&& in_h1 == a.in_h1
                &&& content@ == a.content
                &&& tags.deep_view() == a.tags
            }),
        decreases events.len() - i,
    {
        proof {
            assert(es.take(i + 1).drop_last() =~= es.take(i as int));
            assert(es.take(i + 1).last() == events@[i as int].deep_view());
        }
        match &events[i] {
            MdEvent::HeadingStart(level) => {
                if *level == 1 {
                    in_h1 = true;
                }
            },
            MdEvent::HeadingEnd => {
                in_h1 = false;
            },
            MdEvent::Text(t) => {
                if in_h1 && title.as_str().is_empty() {
                    title = t.clone();
                }
                content.append(t.as_str());
                content.append(" ");
                let found = tags_in_text(t.as_str());
                let ghost before = tags.deep_view();
                let mut j: usize = 0;
                while j < found.len()
                    invariant
                        j <= found.len(),
                        tags.deep_view() == before + found.deep_view().take(j as int),
                    decreases found.len() - j,
                {
                    let ghost prev = tags.deep_view();
                    tags.push(found[j].clone());
                    proof {
                        assert(tags.deep_view() =~= prev.push(found@[j as int]@));
                    }
                    j = j + 1;
                    proof {
                        assert(found.deep_view().take(j as int) =~= found.deep_view().take(j - 1).push(found@[j - 1]@));
                        assert(tags.deep_view() =~= before + found.deep_view().take(j as int));
                    }
                }
                proof {
                    assert(found.deep_view().take(found.len() as int) =~= found.deep_view());
                    reveal_strlit(" ");
                }
            },
            MdEvent::Code(t) => {
                content.append(t.as_str());
                content.append(" ");
                proof {
                    reveal_strlit(" ");
                }
            },
            MdEvent::Other => {},
        }
        i = i + 1;
    }
    proof {
        assert(es.take(es.len() as int) =~= es);
    }
    if title.as_str().is_empty() {
        title = match path_file_stem(path) {
            Some(s) => s,
            None => String::new(),
        };
    }
    Note { path: owned(path), title, content, tags, wikilinks }
}

/// The root of a vault.
pub struct Vault {
    pub root: String,
}

impl Vault {
    /// The vault rooted at `root`.
    pub fn new(root: String) -> (v: Vault)
        ensures
            v.root == root,
    {
        Vault { root }
    }

    /// The note at `path` whose file holds `content`: its title, text, tags
    /// and wikilinks, read from the Markdown events of `content`.
    pub fn parse_note(&self, path: &str, content: &str) -> (note: Note)
        requires
            wikilinks_scan(content@) is Some,
        ensures
            note@ == parsed_note(path@, content@),
    {
        let events = parse_markdown(content);
        let links = match scan_wikilinks(content) {
            Some(l) => l,
            None => Vec::new(),
        };
        note_from_events(path, &events, links)
    }
}

// ---------------------------------------------------------------------------
// Walking the vault
// ---------------------------------------------------------------------------

/// An entry of a directory listing: its path and whether it is a directory.
pub struct DirEntry {
    pub path: String,
    pub is_dir: bool,
}

/// The mathematical form of a [`DirEntry`].
pub struct DirEntryView {
    pub path: Seq<char>,
    pub is_dir: bool,
}

impl DeepView for DirEntry {
    type V = DirEntryView;

    open spec fn deep_view(&self) -> DirEntryView {
        DirEntryView { path: self.path@, is_dir: self.is_dir }
    }
}

impl Clone for DirEntry {
    fn clone(&self) -> (r: Self)
        ensures
            r == *self,
    {
        DirEntry { path: self.path.clone(), is_dir: self.is_dir }
    }
}

/// What the walk asks for next: a directory's listing, a note file's text,
/// or nothing more because it is done or has failed.
pub enum ScanRequest {
    ReadDir(String),
    ReadFile(String),
    Done,
    Failed(String),
}

/// The mathematical form of a [`ScanRequest`].
pub enum ScanRequestView {
    ReadDir(Seq<char>),
    ReadFile(Seq<char>),
    Done,
    Failed(Seq<char>),
}

impl DeepView for ScanRequest {
    type V = ScanRequestView;

    open spec fn deep_view(&self) -> ScanRequestView {
        match self {
            ScanRequest::ReadDir(p) => ScanRequestView::ReadDir(p@),
            ScanRequest::ReadFile(p) => ScanRequestView::ReadFile(p@),
            ScanRequest::Done => ScanRequestView::Done,
            ScanRequest::Failed(e) => ScanRequestView::Failed(e@),
        }
    }
}

/// The answer to a request: a directory listing or why it could not be
/// read; a file's text, or `None` when it could not be read as text.
pub enum ScanReply {
    Listing(Result<Vec<DirEntry>, String>),
    Contents(Option<String>),
}

/// A walk through a vault that is under way: the entries still to look
/// at, in the order they are visited, the notes read so far, and what is
/// asked for next.
pub struct VaultScan {
    pending: Vec<DirEntry>,
    pos: usize,
    notes: Vec<Note>,
    next: ScanRequest,
}

/// The directories a walk never enters.
pub open spec fn skipped_dir_name(n: Seq<char>) -> bool {
    n == ".git"@ || n == ".obsidian"@ || n == ".opencode"@ || n == "node_modules"@
}

/// An entry the walk acts on: a directory it enters, or a Markdown file
/// (extension `md`) it reads.
pub open spec fn wanted(e: DirEntryView) -> bool {
    if e.is_dir {
        !(file_name(e.path) is Some && skipped_dir_name(file_name(e.path)->0))
    } else {
        extension(e.path) == Some("md"@)
    }
}

/// The index of the first wanted entry, or -1.
pub open spec fn first_wanted(s: Seq<DirEntryView>) -> int
    decreases s.len(),
{
    if s.len() == 0 {
        -1
    } else if wanted(s[0]) {
        0
    } else {
        let r = first_wanted(s.drop_first());
        if r < 0 {
            -1
        } else {
            r + 1
        }
    }
}

/// What to ask for about a wanted entry.
pub open spec fn request_for(e: DirEntryView) -> ScanRequestView {
    if e.is_dir {
        ScanRequestView::ReadDir(e.path)
    } else {
        ScanRequestView::ReadFile(e.path)
    }
}

/// Moving on through the entries `q`: the first wanted one is asked for
/// and the entries after it remain; with none, the walk is done.
pub open spec fn advance(q: Seq<DirEntryView>) -> (Seq<DirEntryView>, ScanRequestView) {
    let k = first_wanted(q);
    if k < 0 {
        (Seq::empty(), ScanRequestView::Done)
    } else {
        (q.skip(k + 1), request_for(q[k]))
    }
}

proof fn lemma_first_wanted(s: Seq<DirEntryView>, k: int)
    requires
        0 <= k <= s.len(),
        forall|j: int| 0 <= j < k ==> !wanted(#[trigger] s[j]),
        k < s.len() ==> wanted(s[k]),
    ensures
        first_wanted(s) == if k < s.len() { k } else { -1 },
    decreases k,
{
    if k > 0 {
        assert forall|j: int| 0 <= j < k - 1 implies !wanted(#[trigger] s.drop_first()[j]) by {
            assert(s.drop_first()[j] == s[j + 1]);
        }
        lemma_first_wanted(s.drop_first(), k - 1);
    }
}

proof fn lemma_first_wanted_props(s: Seq<DirEntryView>)
    ensures
        -1 <= first_wanted(s) < s.len(),
        first_wanted(s) >= 0 ==> wanted(s[first_wanted(s)]),
        forall|j: int|
            0 <= j < s.len() && (first_wanted(s) < 0 || j < first_wanted(s)) ==> !wanted(
                #[trigger] s[j],
            ),
    decreases s.len(),
{
    if s.len() > 0 && !wanted(s[0]) {
        lemma_first_wanted_props(s.drop_first());
        assert forall|j: int|
            0 <= j < s.len() && (first_wanted(s) < 0 || j < first_wanted(s)) implies !wanted(
            #[trigger] s[j],
        ) by {
            if j > 0 {
                assert(s[j] == s.drop_first()[j - 1]);
            }
        }
    }
}

/// One step of the walk through the entries `q`: it asks for the first
/// entry it acts on, which is a directory not named `.git`, `.obsidian`,
/// `.opencode` or `node_modules`, or a file with the extension `md`; every
/// entry before that one is passed over, and the entries after it remain.
/// When there is no such entry, the walk is done and nothing remains.
pub proof fn law_walk_step(q: Seq<DirEntryView>)
    ensures
        advance(q).1 is Done <==> forall|j: int| 0 <= j < q.len() ==> !wanted(#[trigger] q[j]),
        advance(q).1 is Done ==> advance(q).0.len() == 0,
        advance(q).1 matches ScanRequestView::ReadDir(p) ==> !(file_name(p) is Some
            && skipped_dir_name(file_name(p)->0)),
        advance(q).1 matches ScanRequestView::ReadFile(p) ==> extension(p) == Some("md"@),
        !(advance(q).1 is Done) ==> {
            let k = q.len() - advance(q).0.len() - 1;
            &&& 0 <= k < q.len()
            &&& advance(q).0 == q.skip(k + 1)
            &&& advance(q).1 == request_for(q[k])
            &&& forall|j: int| 0 <= j < k ==> !wanted(#[trigger] q[j])
        },
{
    lemma_first_wanted_props(q);
    let k = first_wanted(q);
    if k >= 0 {
        let e = q[k];
        assert(wanted(e));
        if e.is_dir {
            assert(advance(q).1 == ScanRequestView::ReadDir(e.path));
        } else {
            assert(advance(q).1 == ScanRequestView::ReadFile(e.path));
        }
    }
}

/// Whether the walk acts on an entry.
fn entry_wanted(e: &DirEntry) -> (r: bool)
    ensures
        r == wanted(e.deep_view()),
{
    if e.is_dir {
        match path_file_name(e.path.as_str()) {
            Some(n) => !(str_eq(n.as_str(), ".git") || str_eq(n.as_str(), ".obsidian") || str_eq(
                n.as_str(),
                ".opencode",
            ) || str_eq(n.as_str(), "node_modules")),
            None => true,
        }
    } else {
        match path_extension(e.path.as_str()) {
            Some(x) => {
                let r = str_eq(x.as_str(), "md");
                proof {
                    if r {
                        assert(extension(e.path@) == Some("md"@));
                    }
                }
                r
            },
            None => false,
        }
    }
}

impl VaultScan {
    /// The entries still to look at, in visiting order.
    pub closed spec fn remaining(&self) -> Seq<DirEntryView> {
        self.pending.deep_view().skip(self.pos as int)
    }

    /// The notes read so far.
    pub closed spec fn notes_read(&self) -> Seq<NoteView> {
        self.notes@.map_values(|n: Note| n@)
    }

    /// What the walk asks for next.
    pub closed spec fn next_request(&self) -> ScanRequestView {
        self.next.deep_view()
    }

    /// The walk's state is consistent.
    pub closed spec fn wf(&self) -> bool {
        self.pos <= self.pending.len()
    }

    /// What the walk asks for next.
    pub fn request(&self) -> (r: &ScanRequest)
        ensures
            r.deep_view() == self.next_request(),
    {
        &self.next
    }

    /// Asks for the first wanted entry at or after `pos`, or ends the walk.
    fn advance_from(&mut self)
        requires
            old(self).wf(),
        ensures
            final(self).wf(),
            (final(self).remaining(), final(self).next_request()) == advance(old(self).remaining()),
            final(self).notes == old(self).notes,
    {
        let ghost q = self.remaining();
        let start = self.pos;
        let mut i = self.pos;
        while i < self.pending.len() && !entry_wanted(&self.pending[i])
            invariant
                start <= i <= self.pending.len(),
                q == self.pending.deep_view().skip(start as int),
                forall|j: int| start <= j < i ==> !wanted(#[trigger] self.pending.deep_view()[j]),
            decreases self.pending.len() - i,
        {
            i = i + 1;
        }
        proof {
            assert forall|j: int| 0 <= j < i - start implies !wanted(#[trigger] q[j]) by {
                assert(q[j] == self.pending.deep_view()[start + j]);
            }
            if i < self.pending.len() {
                assert(q[i - start] == self.pending.deep_view()[i as int]);
            }
            lemma_first_wanted(q, i - start);
        }
        if i < self.pending.len() {
            let e = self.pending[i].clone();
            self.next = if e.is_dir {
                ScanRequest::ReadDir(e.path)
            } else {
                ScanRequest::ReadFile(e.path)
            };
            self.pos = i + 1;
            proof {
                assert(self.remaining() =~= q.skip(i - start + 1));
            }
        } else {
            self.next = ScanRequest::Done;
            self.pending = Vec::new();
            self.pos = 0;
            proof {
                assert(self.remaining() =~= Seq::<DirEntryView>::empty());
            }
        }
    }

    /// Takes the answer to the current request and moves on: a listing puts
    /// the directory's entries before the ones still to look at; a failed
    /// listing fails the walk; a file's text adds its note (a file that
    /// could not be read as text is passed over).
    pub fn reply(&mut self, answer: ScanReply)
        requires
            old(self).wf(),
            old(self).next_request() is ReadDir ==> answer is Listing,
            old(self).next_request() is ReadFile ==> answer is Contents,
            old(self).next_request() is ReadDir || old(self).next_request() is ReadFile,
            answer matches ScanReply::Contents(Some(c)) ==> wikilinks_scan(c@) is Some,
        ensures
            final(self).wf(),
            old(self).next_request() is ReadDir ==> match answer {
                ScanReply::Listing(Ok(entries)) => {
                    &&& (final(self).remaining(), final(self).next_request()) == advance(
                        entries.deep_view() + old(self).remaining(),
                    )
                    &&& final(self).notes_read() == old(self).notes_read()
                },
                ScanReply::Listing(Err(e)) => {
                    &&& final(self).next_request() == ScanRequestView::Failed(e@)
                    &&& final(self).notes_read() == old(self).notes_read()
                },
                _ => false,
            },
            old(self).next_request() is ReadFile ==> match answer {
                ScanReply::Contents(c) => {
                    &&& (final(self).remaining(), final(self).next_request()) == advance(
                        old(self).remaining(),
                    )
                    &&& final(self).notes_read() == match c {
                        Some(text) => old(self).notes_read().push(
                            parsed_note(old(self).next_request()->ReadFile_0, text@),
                        ),
                        None => old(self).notes_read(),
                    }
                },
                _ => false,
            },
    {
        let ghost old_notes = self.notes_read();
        match answer {
            ScanReply::Listing(Ok(entries)) => {
                let ghost q = entries.deep_view() + self.remaining();
                let mut merged: Vec<DirEntry> = entries;
                let mut j = self.pos;
                while j < self.pending.len()
                    invariant
                        self.pos <= j <= self.pending.len(),
                        merged.deep_view() == q.take(
                            (q.len() - (self.pending.len() - j)) as int,
                        ),
                        q.len() == merged.deep_view().len() + (self.pending.len() - j),
                        q == merged.deep_view() + self.pending.deep_view().skip(j as int),
                    decreases self.pending.len() - j,
                {
                    let ghost before = merged.deep_view();
                    merged.push(self.pending[j].clone());
                    proof {
                        assert(merged.deep_view() =~= before.push(self.pending.deep_view()[j as int]));
                        assert(self.pending.deep_view().skip(j as int) =~= seq![self.pending.deep_view()[j as int]] + self.pending.deep_view().skip(j + 1));
                        assert(q =~= merged.deep_view() + self.pending.deep_view().skip(j + 1));
                    }
                    j = j + 1;
                    proof {
                        assert(merged.deep_view() =~= q.take((q.len() - (self.pending.len() - j)) as int));
                    }
                }
                proof {
                    assert(self.pending.deep_view().skip(j as int) =~= Seq::<DirEntryView>::empty());
                    assert(q =~= merged.deep_view());
                }
                self.pending = merged;
                self.pos = 0;
                proof {
                    assert(self.remaining() =~= q);
                }
                self.advance_from();
            },
            ScanReply::Listing(Err(e)) => {
                self.next = ScanRequest::Failed(e);
            },
            ScanReply::Contents(c) => {
                let path = match &self.next {
                    ScanRequest::ReadFile(p) => p.clone(),
                    _ => String::new(),
                };
                match c {
                    Some(text) => {
                        let vault = Vault { root: String::new() };
                        let note = vault.parse_note(path.as_str(), text.as_str());
                        self.notes.push(note);
                        proof {
                            assert(self.notes_read() =~= old_notes.push(note@));
                        }
                    },
                    None => {},
                }
                self.advance_from();
            },
        }
    }

    /// The notes read, once the walk is done; why it failed, if it did.
    pub fn into_result(self) -> (r: Result<Vec<Note>, String>)
        requires
            self.next_request() is Done || self.next_request() is Failed,
        ensures
            self.next_request() is Done ==> r is Ok && r->Ok_0@.map_values(|n: Note| n@)
                == self.notes_read(),
            self.next_request() is Failed ==> r is Err && r->Err_0@ == self.next_request()->Failed_0,
    {
        match self.next {
            ScanRequest::Failed(e) => Err(e),
            _ => Ok(self.notes),
        }
    }
}

impl Vault {
    /// Starts walking the vault: the root directory's listing is asked
    /// for first, and no note has been read.
    pub fn scan(&self) -> (s: VaultScan)
        ensures
            s.wf(),
            s.next_request() == ScanRequestView::ReadDir(self.root@),
            s.remaining() == Seq::<DirEntryView>::empty(),
            s.notes_read() == Seq::<NoteView>::empty(),
    {
        let s = VaultScan {
            pending: Vec::new(),
            pos: 0,
            notes: Vec::new(),
            next: ScanRequest::ReadDir(self.root.clone()),
        };
        proof {
            assert(s.remaining() =~= Seq::<DirEntryView>::empty());
            assert(s.notes_read() =~= Seq::<NoteView>::empty());
        }
        s
    }
}

} // verus!
