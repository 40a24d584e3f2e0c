//! What goes into the full-text index for a note, the query handed to the
//! index, and how a stored hit is read back.
use vstd::prelude::*;

use crate::text::{
    concat3, is_ws, join, join_with, lemma_words_join, owned, replace_all, replace_str, split_words,
    words,
};
use crate::vault::Note;

verus! {

/// The fields stored and indexed for one note: title, text, file path, and
/// the tags and wikilink targets each joined with single spaces.
pub struct NoteDocument {
    pub title: String,
    pub content: String,
    pub path: String,
    pub tags: String,
    pub wikilinks: String,
}

/// A search text escaped for the query parser: each `\` doubled, then
/// each `"` preceded by `\`.
pub open spec fn escaped_query(q: Seq<char>) -> Seq<char> {
    replace_all(replace_all(q, "\\"@, "\\\\"@), "\""@, "\\\""@)
}

/// The query handed to the index: the escaped search text as one quoted
/// phrase.
pub open spec fn phrase_query_spec(q: Seq<char>) -> Seq<char> {
    "\""@ + escaped_query(q) + "\""@
}

/// How the escaped query writes one character of the search text.
pub open spec fn escape_char(c: char) -> Seq<char> {
    if c == '\\' {
        seq!['\\', '\\']
    } else if c == '"' {
        seq!['\\', '"']
    } else {
        seq![c]
    }
}

/// Each character of `q` written as [`escape_char`] writes it.
pub open spec fn escape_each(q: Seq<char>) -> Seq<char>
    decreases q.len(),
{
    if q.len() == 0 {
        q
    } else {
        escape_char(q[0]) + escape_each(q.drop_first())
    }
}

/// An escaped text read back: a `\` stands for the character after it.
pub open spec fn read_escaped(s: Seq<char>) -> Seq<char>
    decreases s.len(),
{
    if s.len() == 0 {
        s
    } else if s[0] == '\\' && s.len() >= 2 {
        seq![s[1]] + read_escaped(s.skip(2))
    } else {
        seq![s[0]] + read_escaped(s.drop_first())
    }
}

proof fn lemma_replace_one(s: Seq<char>, p: char, w: Seq<char>)
    ensures
        s.len() == 0 ==> replace_all(s, seq![p], w) == s,
        s.len() > 0 ==> replace_all(s, seq![p], w) == (if s[0] == p {
            w
        } else {
            seq![s[0]]
        }) + replace_all(s.drop_first(), seq![p], w),
{
    if s.len() > 0 {
        assert(s.skip(1) =~= s.drop_first());
        if s[0] == p {
            assert(s.take(1) =~= seq![p]);
        } else {
            assert(s.take(1)[0] != seq![p][0]);
        }
    }
}

proof fn lemma_replace_one_concat(a: Seq<char>, b: Seq<char>, p: char, w: Seq<char>)
    ensures
        replace_all(a + b, seq![p], w) == replace_all(a, seq![p], w) + replace_all(b, seq![p], w),
    decreases a.len(),
{
    lemma_replace_one(a, p, w);
    if a.len() == 0 {
        assert(a + b =~= b);
    } else {
        lemma_replace_one(a + b, p, w);
        assert((a + b).drop_first() =~= a.drop_first() + b);
        assert((a + b)[0] == a[0]);
        lemma_replace_one_concat(a.drop_first(), b, p, w);
    }
}

proof fn lemma_escaped_query_each(q: Seq<char>)
    ensures
        escaped_query(q) == escape_each(q),
    decreases q.len(),
{
    reveal_strlit("\\");
    reveal_strlit("\\\\");
    reveal_strlit("\"");
    reveal_strlit("\\\"");
    assert("\\"@ =~= seq!['\\']);
    assert("\""@ =~= seq!['"']);
    assert("\\\\"@ =~= seq!['\\', '\\']);
    assert("\\\""@ =~= seq!['\\', '"']);
    let bs = seq!['\\', '\\'];
    let bq = seq!['\\', '"'];
    lemma_replace_one(q, '\\', bs);
    if q.len() > 0 {
        let c = q[0];
        let rest = q.drop_first();
        let first = if c == '\\' {
            bs
        } else {
            seq![c]
        };
        lemma_replace_one_concat(first, replace_all(rest, seq!['\\'], bs), '"', bq);
        lemma_escaped_query_each(rest);
        if c == '\\' {
            lemma_replace_one(bs, '"', bq);
            lemma_replace_one(bs.drop_first(), '"', bq);
            lemma_replace_one(bs.drop_first().drop_first(), '"', bq);
            assert(bs.drop_first().drop_first().len() == 0);
            assert(seq![bs[0]] + (seq![bs.drop_first()[0]] + bs.drop_first().drop_first()) =~= bs);
        } else {
            lemma_replace_one(seq![c], '"', bq);
            lemma_replace_one(seq![c].drop_first(), '"', bq);
            assert(seq![c].drop_first().len() == 0);
            if c == '"' {
                assert(bq + seq![c].drop_first() =~= bq);
            } else {
                assert(seq![c] + seq![c].drop_first() =~= seq![c]);
            }
        }
    }
}

proof fn lemma_read_escape_each(q: Seq<char>)
    ensures
        read_escaped(escape_each(q)) == q,
    decreases q.len(),
{
    if q.len() > 0 {
        let c = q[0];
        let e = escape_each(q);
        let rest = escape_each(q.drop_first());
        lemma_read_escape_each(q.drop_first());
        if c == '\\' || c == '"' {
            assert(e.skip(2) =~= rest);
            assert(e[1] == c);
        } else {
            assert(e.drop_first() =~= rest);
            assert(e[0] == c);
        }
        assert(seq![c] + q.drop_first() =~= q);
    }
}

/// The escaped search text, read back with `\` standing for the character
/// after it, is the search text: the phrase searched for is what was typed.
pub proof fn law_escaped_query_reads_back(q: Seq<char>)
    ensures
        read_escaped(escaped_query(q)) == q,
{
    lemma_escaped_query_each(q);
    lemma_read_escape_each(q);
}

/// The wikilink targets stored for a note come back from a hit as they
/// were, when each is non-empty and holds no white space: the stored field
/// is the targets joined with single spaces ([`document_of`]), and a hit
/// splits it at white space ([`search_hit`]).
pub proof fn law_stored_links_read_back(links: Seq<Seq<char>>)
    requires
        forall|i: int| 0 <= i < links.len() ==> (#[trigger] links[i]).len() > 0,
        forall|i: int, j: int|
            0 <= i < links.len() && 0 <= j < links[i].len() ==> !is_ws(#[trigger] links[i][j]),
    ensures
        words(join(links, " "@)) == links,
{
    reveal_strlit(" ");
    assert(" "@ =~= seq![' ']);
    lemma_words_join(links);
}

/// The document indexed for a note.
pub fn document_of(note: &Note) -> (d: NoteDocument)
    ensures
        d.title@ == note.title@,
        d.content@ == note.content@,
        d.path@ == note.path@,
        d.tags@ == join(note.tags.deep_view(), " "@),
        d.wikilinks@ == join(note.wikilinks.deep_view(), " "@),
{
    NoteDocument {
        title: note.title.clone(),
        content: note.content.clone(),
        path: note.path.clone(),
        tags: join_with(&note.tags, " "),
        wikilinks: join_with(&note.wikilinks, " "),
    }
}

/// The query for a search text: the text, with `\` and `"` escaped, as one
/// quoted phrase.
pub fn phrase_query(query: &str) -> (r: String)
    ensures
        r@ == phrase_query_spec(query@),
{
    proof {
        reveal_strlit("\\");
        reveal_strlit("\"");
    }
    let once = replace_str(query, "\\", "\\\\");
    let twice = replace_str(once.as_str(), "\"", "\\\"");
    concat3("\"", twice.as_str(), "\"")
}

/// A hit read back from the index: its stored title and path (empty when
/// missing) and its wikilink targets, the stored field split at white space.
pub fn search_hit(
    title: Option<String>,
    path: Option<String>,
    wikilinks: Option<String>,
) -> (r: (String, String, Vec<String>))
    ensures
        r.0@ == match title {
            Some(t) => t@,
            None => Seq::empty(),
        },
        r.1@ == match path {
            Some(p) => p@,
            None => Seq::empty(),
        },
        r.2.deep_view() == words(
            match wikilinks {
                Some(w) => w@,
                None => Seq::empty(),
            },
        ),
{
    let t = match title {
        Some(t) => t,
        None => String::new(),
    };
    let p = match path {
        Some(p) => p,
        None => String::new(),
    };
    let w = match wikilinks {
        Some(w) => w,
        None => String::new(),
    };
    let links = split_words(w.as_str());
    (t, p, links)
}

} // verus!
