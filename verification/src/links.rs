//! Opening a note in Obsidian: the `obsidian://` address of a note file.
use vstd::prelude::*;
use vstd::utf8::encode_utf8;

use crate::text::{
    chars_of, concat, has_prefix, join, join_with, lemma_split_join, lemma_split_nonempty,
    split_char, split_on, string_of,
};

verus! {

/// A byte `urlencoding` leaves as it is: ASCII letters and digits, and
/// `-`, `.`, `_`, `~`.
pub open spec fn is_unreserved(b: u8) -> bool {
    (48 <= b && b <= 57) || (65 <= b && b <= 90) || (97 <= b && b <= 122) || b == 45 || b == 46
        || b == 95 || b == 126
}

/// The upper-case hexadecimal digit for `d < 16`.
pub open spec fn hex_digit(d: u8) -> char {
    if d < 10 {
        ((d + 48) as u32) as char
    } else {
        ((d + 55) as u32) as char
    }
}

/// The percent-encoding of bytes: each unreserved byte stands for itself,
/// every other one becomes `%` and two upper-case hexadecimal digits.
pub open spec fn percent_encoded(bytes: Seq<u8>) -> Seq<char>
    decreases bytes.len(),
{
    if bytes.len() == 0 {
        Seq::empty()
    } else {
        let init = percent_encoded(bytes.drop_last());
        let b = bytes.last();
        if is_unreserved(b) {
            init.push((b as u32) as char)
        } else {
            init + seq!['%', hex_digit(b / 16), hex_digit(b % 16)]
        }
    }
}

/// The percent-encoding of the UTF-8 bytes of `s`.
pub open spec fn url_encoded(s: Seq<char>) -> Seq<char> {
    percent_encoded(encode_utf8(s))
}

/// Percent-encodes a string (`urlencoding::encode`). Trusted: the result is
/// the string's UTF-8 bytes with every byte but ASCII letters, digits and
/// `-._~` written as `%` and two upper-case hexadecimal digits, which is
/// what the crate documents and its source does.
#[verifier::external_body]
fn url_encode(part: &str) -> (r: String)
    ensures
        r@ == url_encoded(part@),
{
    urlencoding::encode(part).into_owned()
}

/// The pieces of a path encoded one by one.
pub open spec fn encode_pieces(pieces: Seq<Seq<char>>) -> Seq<Seq<char>> {
    pieces.map_values(|p: Seq<char>| url_encoded(p))
}

/// A path with each piece between `/` percent-encoded, the `/`s kept.
pub open spec fn encoded_path(s: Seq<char>) -> Seq<char> {
    join(encode_pieces(split_on(s, '/')), seq!['/'])
}

/// The note path relative to the vault: without the vault's path in front
/// (and the `/` after it), or unchanged when it does not start with it.
pub open spec fn relative_path(path: Seq<char>, vault: Seq<char>) -> Seq<char> {
    if has_prefix(path, vault) {
        let rest = path.skip(vault.len() as int);
        if rest.len() > 0 && rest[0] == '/' {
            rest.drop_first()
        } else {
            rest
        }
    } else {
        path
    }
}

/// The address that opens the note at `path` of the vault at `vault`.
pub open spec fn note_url_spec(path: Seq<char>, vault: Seq<char>) -> Seq<char> {
    "obsidian://open?file="@ + encoded_path(relative_path(path, vault))
}

/// A character an encoded path is written with: an ASCII letter or digit,
/// `-`, `.`, `_`, `~`, `%` or `/`.
pub open spec fn url_path_char(c: char) -> bool {
    ||| ('0' <= c && c <= '9')
    ||| ('A' <= c && c <= 'Z')
    ||| ('a' <= c && c <= 'z')
    ||| c == '-'
    ||| c == '.'
    ||| c == '_'
    ||| c == '~'
    ||| c == '%'
    ||| c == '/'
}

proof fn lemma_percent_encoded_chars(bytes: Seq<u8>)
    ensures
        forall|i: int|
            0 <= i < percent_encoded(bytes).len() ==> url_path_char(
                #[trigger] percent_encoded(bytes)[i],
            ) && percent_encoded(bytes)[i] != '/',
    decreases bytes.len(),
{
    if bytes.len() > 0 {
        let init = percent_encoded(bytes.drop_last());
        lemma_percent_encoded_chars(bytes.drop_last());
        let b = bytes.last();
        let all = percent_encoded(bytes);
        if is_unreserved(b) {
            let c = (b as u32) as char;
            assert(url_path_char(c) && c != '/');
            assert forall|i: int| 0 <= i < all.len() implies url_path_char(#[trigger] all[i])
                && all[i] != '/' by {
                if i < init.len() {
                    assert(all[i] == init[i]);
                }
            }
        } else {
            let hi = hex_digit(b / 16);
            let lo = hex_digit(b % 16);
            assert(url_path_char(hi) && hi != '/');
            assert(url_path_char(lo) && lo != '/');
            let tail = seq!['%', hi, lo];
            assert forall|i: int| 0 <= i < all.len() implies url_path_char(#[trigger] all[i])
                && all[i] != '/' by {
                if i < init.len() {
                    assert(all[i] == init[i]);
                } else {
                    assert(all[i] == tail[i - init.len()]);
                }
            }
        }
    }
}

proof fn lemma_join_path_chars(parts: Seq<Seq<char>>)
    requires
        forall|i: int, j: int|
            0 <= i < parts.len() && 0 <= j < parts[i].len() ==> url_path_char(#[trigger] parts[i][j]),
    ensures
        forall|k: int|
            0 <= k < join(parts, seq!['/']).len() ==> url_path_char(#[trigger] join(parts, seq!['/'])[k]),
    decreases parts.len(),
{
    if parts.len() == 1 {
        assert forall|k: int| 0 <= k < parts[0].len() implies url_path_char(#[trigger] parts[0][k]) by {
            assert(url_path_char(parts[0][k]));
        }
    } else if parts.len() > 1 {
        let init = parts.drop_last();
        assert forall|i: int, j: int| 0 <= i < init.len() && 0 <= j < init[i].len() implies url_path_char(
            #[trigger] init[i][j],
        ) by {
            assert(init[i] == parts[i]);
        }
        lemma_join_path_chars(init);
        let a = join(init, seq!['/']);
        let last = parts.last();
        let all = join(parts, seq!['/']);
        assert(all == a + seq!['/'] + last);
        assert forall|k: int| 0 <= k < all.len() implies url_path_char(#[trigger] all[k]) by {
            if k < a.len() {
                assert(all[k] == a[k]);
            } else if k == a.len() {
                assert(all[k] == '/');
            } else {
                assert(all[k] == last[k - a.len() - 1]);
                assert(url_path_char(parts[parts.len() - 1][k - a.len() - 1]));
            }
        }
    }
}

/// An encoded path is fit for an address: it is written only with ASCII
/// letters and digits, `-._~`, `%` and `/`; and it splits at `/` into the
/// path's own pieces, each encoded, so the folders of the path are kept.
pub proof fn law_encoded_path_shape(s: Seq<char>)
    ensures
        forall|i: int| 0 <= i < encoded_path(s).len() ==> url_path_char(#[trigger] encoded_path(s)[i]),
        split_on(encoded_path(s), '/') == encode_pieces(split_on(s, '/')),
{
    let pieces = encode_pieces(split_on(s, '/'));
    lemma_split_nonempty(s, '/');
    assert forall|i: int, j: int| 0 <= i < pieces.len() && 0 <= j < pieces[i].len() implies url_path_char(
        #[trigger] pieces[i][j],
    ) && pieces[i][j] != '/' by {
        lemma_percent_encoded_chars(encode_utf8(split_on(s, '/')[i]));
    }
    lemma_join_path_chars(pieces);
    lemma_split_join(pieces, '/');
}

/// `s` with each piece between `/` percent-encoded.
pub fn encode_path(s: &str) -> (r: String)
    ensures
        r@ == encoded_path(s@),
{
    let pieces = split_char(s, '/');
    let ghost ps = pieces.deep_view();
    let mut encoded: Vec<String> = Vec::new();
    let mut i: usize = 0;
    while i < pieces.len()
        invariant
            ps == pieces.deep_view(),
            i <= pieces.len(),
            encoded.deep_view() == encode_pieces(ps.take(i as int)),
        decreases pieces.len() - i,
    {
        let ghost before = encoded.deep_view();
        let e = url_encode(pieces[i].as_str());
        encoded.push(e);
        i = i + 1;
        proof {
            assert(encoded.deep_view() =~= before.push(e@));
            assert(encode_pieces(ps.take(i as int)) =~= encode_pieces(ps.take(i - 1)).push(url_encoded(ps[i - 1])));
        }
    }
    proof {
        assert(ps.take(ps.len() as int) =~= ps);
        reveal_strlit("/");
        assert("/"@ =~= seq!['/']);
    }
    join_with(&encoded, "/")
}

/// The note path relative to the vault path.
pub fn relative_to_vault(path: &str, vault: &str) -> (r: String)
    ensures
        r@ == relative_path(path@, vault@),
{
    let p = chars_of(path);
    let v = chars_of(vault);
    if v.len() > p.len() {
        return string_of(&p, 0, p.len());
    }
    let mut i: usize = 0;
    while i < v.len()
        invariant
            p@ == path@,
            v@ == vault@,
            v.len() <= p.len(),
            i <= v.len(),
            forall|j: int| 0 <= j < i ==> p@[j] == v@[j],
        decreases v.len() - i,
    {
        if p[i] != v[i] {
            proof {
                assert(p@.take(v.len() as int)[i as int] != v@[i as int]);
            }
            assert(p@.subrange(0, p.len() as int) =~= p@);
            return string_of(&p, 0, p.len());
        }
        i = i + 1;
    }
    assert(p@.take(v.len() as int) =~= v@);
    let start = if v.len() < p.len() && p[v.len()] == '/' { v.len() + 1 } else { v.len() };
    let r = string_of(&p, start, p.len());
    proof {
        let rest = p@.skip(v.len() as int);
        if start > v.len() {
            assert(r@ =~= rest.drop_first());
        } else {
            assert(r@ =~= rest);
        }
    }
    r
}

/// The `obsidian://open?file=...` address that opens the note at `path`
/// of the vault at `vault`.
pub fn note_url(path: &str, vault: &str) -> (r: String)
    ensures
        r@ == note_url_spec(path@, vault@),
{
    let rel = relative_to_vault(path, vault);
    let enc = encode_path(rel.as_str());
    concat("obsidian://open?file=", enc.as_str())
}

} // verus!
