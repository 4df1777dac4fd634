//! Capture of the address, with its login token, that `dsh web` prints when it starts.

use vstd::prelude::*;

use crate::text::chars_of;
use crate::text::found_at;
use crate::text::holds;
use crate::text::is_space;
use crate::text::stands_at;

verus! {

/// An `http` or `https` address with a `token` parameter, on any host and port.
pub const TOKEN_URL_PATTERN: &'static str =
    r#"(?i)https?://[^\s"'<>`]+[?&]token=[A-Za-z0-9._~+/=%-]+"#;

/// Address that is used while no token has been captured.
pub const DSH_BASE_URL: &'static str = "http://127.0.0.1:3080";

// ---------------------------------------------------------------------------
// What the pattern describes
// ---------------------------------------------------------------------------

/// `c` is the lower-case letter or the sign `wanted`, case left aside. Under Unicode's simple case
/// folding the long s belongs to `s` and the Kelvin sign to `k`.
pub open spec fn same_letter(c: char, wanted: char) -> bool {
    ||| c == wanted
    ||| 'a' <= wanted <= 'z' && c as int + 32 == wanted as int
    ||| wanted == 's' && c == '\u{17f}'
    ||| wanted == 'k' && c == '\u{212a}'
}

/// `word` stands in `t` at `i`, case left aside.
pub open spec fn reads(t: Seq<char>, i: int, word: Seq<char>) -> bool {
    &&& 0 <= i
    &&& i + word.len() <= t.len()
    &&& forall|k: int| 0 <= k < word.len() ==> same_letter(#[trigger] t[i + k], word[k])
}

/// A character that an address may hold: neither white space nor one that quotes it.
pub open spec fn url_char(c: char) -> bool {
    &&& !is_space(c)
    &&& c != '"'
    &&& c != '\''
    &&& c != '<'
    &&& c != '>'
    &&& c != '`'
}

/// A character that a token may hold.
pub open spec fn token_char(c: char) -> bool {
    ||| 'A' <= c <= 'Z'
    ||| 'a' <= c <= 'z'
    ||| '0' <= c <= '9'
    ||| c == '.'
    ||| c == '_'
    ||| c == '~'
    ||| c == '+'
    ||| c == '/'
    ||| c == '='
    ||| c == '%'
    ||| c == '-'
    ||| c == '\u{17f}'
    ||| c == '\u{212a}'
}

/// An address begins at `s`.
pub open spec fn scheme_at(t: Seq<char>, s: int) -> bool {
    reads(t, s, "http://"@) || reads(t, s, "https://"@)
}

/// Where the part behind the scheme begins, for an address that begins at `s`.
pub open spec fn scheme_end(t: Seq<char>, s: int) -> int {
    if reads(t, s, "https://"@) {
        s + 8
    } else {
        s + 7
    }
}

/// `t[s..e]` is an address with a token: scheme, at least one character, the sign `?` or `&` at
/// `b`, `token=`, and at least one token character.
pub open spec fn address_at(t: Seq<char>, s: int, b: int, e: int) -> bool {
    &&& scheme_at(t, s)
    &&& scheme_end(t, s) < b
    &&& b + 7 < e <= t.len()
    &&& forall|i: int| scheme_end(t, s) <= i < b ==> url_char(#[trigger] t[i])
    &&& t[b] == '?' || t[b] == '&'
    &&& reads(t, b + 1, "token="@)
    &&& forall|i: int| b + 7 <= i < e ==> token_char(#[trigger] t[i])
}

/// Of all addresses in `t`, the one that begins first; of those, the one that reaches furthest
/// before `token=`; of those, the one with the longest token.
pub open spec fn chosen_address(t: Seq<char>, s: int, b: int, e: int) -> bool {
    &&& address_at(t, s, b, e)
    &&& forall|s2: int, b2: int, e2: int| #[trigger] address_at(t, s2, b2, e2) ==> s <= s2
    &&& forall|b2: int, e2: int| #[trigger] address_at(t, s, b2, e2) ==> b2 <= b
    &&& forall|e2: int| #[trigger] address_at(t, s, b, e2) ==> e2 <= e
}

/// `t` holds an address with a token.
pub open spec fn has_address(t: Seq<char>) -> bool {
    exists|s: int, b: int, e: int| address_at(t, s, b, e)
}

/// Punctuation that ends a sentence or a bracket behind an address.
pub open spec fn is_closing(c: char) -> bool {
    c == '.' || c == ',' || c == ';' || c == ')' || c == ']' || c == '}'
}

/// `u` without the closing punctuation at its end.
pub open spec fn without_closing(u: Seq<char>) -> Seq<char>
    decreases u.len(),
{
    if u.len() > 0 && is_closing(u.last()) {
        without_closing(u.drop_last())
    } else {
        u
    }
}

/// An address whose token is more than closing punctuation.
pub open spec fn full_address_at(t: Seq<char>, s: int, b: int, e: int) -> bool {
    &&& address_at(t, s, b, e)
    &&& exists|k: int| b + 7 <= k < e && !is_closing(#[trigger] t[k])
}

/// `t` holds an address whose token is more than closing punctuation.
pub open spec fn has_full_address(t: Seq<char>) -> bool {
    exists|s: int, b: int, e: int| full_address_at(t, s, b, e)
}

/// Of all addresses in `t` whose token is more than closing punctuation, the one that begins first;
/// of those, the one that reaches furthest before `token=`; of those, the one with the longest
/// token.
pub open spec fn captured_at(t: Seq<char>, s: int, b: int, e: int) -> bool {
    &&& full_address_at(t, s, b, e)
    &&& forall|s2: int, b2: int, e2: int| #[trigger] full_address_at(t, s2, b2, e2) ==> s <= s2
    &&& forall|b2: int, e2: int| #[trigger] full_address_at(t, s, b2, e2) ==> b2 <= b
    &&& forall|e2: int| #[trigger] full_address_at(t, s, b, e2) ==> e2 <= e
}

/// The address that a line of output hands over, if it holds one: without the closing punctuation
/// at its end, which is no part of its token.
pub open spec fn captured_url(t: Seq<char>) -> Option<Seq<char>> {
    if has_full_address(t) {
        let (s, b, e) = choose|s: int, b: int, e: int| captured_at(t, s, b, e);
        Some(without_closing(t.subrange(s, e)))
    } else {
        None
    }
}

// ---------------------------------------------------------------------------
// Facts about the choice
// ---------------------------------------------------------------------------

/// At most one address is captured.
pub proof fn law_choice_is_unique(t: Seq<char>, s: int, b: int, e: int, s2: int, b2: int, e2: int)
    requires
        captured_at(t, s, b, e),
        captured_at(t, s2, b2, e2),
    ensures
        s == s2,
        b == b2,
        e == e2,
{
}

proof fn lemma_first_start(t: Seq<char>, s: int, b: int, e: int) -> (r: (int, int, int))
    requires
        full_address_at(t, s, b, e),
    ensures
        full_address_at(t, r.0, r.1, r.2),
        forall|s2: int, b2: int, e2: int| #[trigger] full_address_at(t, s2, b2, e2) ==> r.0 <= s2,
    decreases s,
{
    if exists|s2: int, b2: int, e2: int| #[trigger] full_address_at(t, s2, b2, e2) && s2 < s {
        let (s2, b2, e2) = choose|s2: int, b2: int, e2: int| #[trigger]
            full_address_at(t, s2, b2, e2) && s2 < s;
        lemma_first_start(t, s2, b2, e2)
    } else {
        (s, b, e)
    }
}

proof fn lemma_last_sign(t: Seq<char>, s: int, b: int, e: int) -> (r: (int, int))
    requires
        full_address_at(t, s, b, e),
    ensures
        full_address_at(t, s, r.0, r.1),
        forall|b2: int, e2: int| #[trigger] full_address_at(t, s, b2, e2) ==> b2 <= r.0,
    decreases t.len() - b,
{
    if exists|b2: int, e2: int| #[trigger] full_address_at(t, s, b2, e2) && b2 > b {
        let (b2, e2) = choose|b2: int, e2: int| #[trigger] full_address_at(t, s, b2, e2) && b2 > b;
        lemma_last_sign(t, s, b2, e2)
    } else {
        (b, e)
    }
}

proof fn lemma_last_end(t: Seq<char>, s: int, b: int, e: int) -> (r: int)
    requires
        full_address_at(t, s, b, e),
    ensures
        full_address_at(t, s, b, r),
        forall|e2: int| #[trigger] full_address_at(t, s, b, e2) ==> e2 <= r,
    decreases t.len() - e,
{
    if exists|e2: int| #[trigger] full_address_at(t, s, b, e2) && e2 > e {
        let e2 = choose|e2: int| #[trigger] full_address_at(t, s, b, e2) && e2 > e;
        lemma_last_end(t, s, b, e2)
    } else {
        e
    }
}

/// A text that holds an address with more than closing punctuation for a token has one that is
/// captured.
pub proof fn law_choice_exists(t: Seq<char>)
    requires
        has_full_address(t),
    ensures
        exists|s: int, b: int, e: int|
            captured_at(t, s, b, e) && captured_url(t) == Some(without_closing(t.subrange(s, e))),
{
    let (s0, b0, e0) = choose|s: int, b: int, e: int| full_address_at(t, s, b, e);
    let (s, b1, e1) = lemma_first_start(t, s0, b0, e0);
    let (b, e2) = lemma_last_sign(t, s, b1, e1);
    let e = lemma_last_end(t, s, b, e2);
    assert(captured_at(t, s, b, e));
}

/// Where the captured address stands decides what is captured.
proof fn lemma_captured(t: Seq<char>, s: int, b: int, e: int)
    requires
        captured_at(t, s, b, e),
    ensures
        captured_url(t) == Some(without_closing(t.subrange(s, e))),
{
    assert(has_full_address(t));
    law_choice_exists(t);
    let (s2, b2, e2) = choose|s: int, b: int, e: int|
        captured_at(t, s, b, e) && captured_url(t) == Some(without_closing(t.subrange(s, e)));
    law_choice_is_unique(t, s, b, e, s2, b2, e2);
}

/// The captured address is the longest of those that begin where it begins.
pub proof fn law_choice_is_longest(t: Seq<char>, s: int, b: int, e: int, b2: int, e2: int)
    requires
        captured_at(t, s, b, e),
        full_address_at(t, s, b2, e2),
    ensures
        e2 <= e,
{
    if b2 < b && e2 > b {
        lemma_address_chars(t, s, b2, e2);
        assert(token_char(t[b]));
    }
}

/// Every character of an address is one that an address may hold, and the characters of `token=`
/// are token characters.
proof fn lemma_address_chars(t: Seq<char>, s: int, b: int, e: int)
    requires
        address_at(t, s, b, e),
    ensures
        0 <= s,
        forall|i: int| s <= i < e ==> url_char(#[trigger] t[i]),
        forall|i: int| b < i < e ==> token_char(#[trigger] t[i]),
        !is_closing(t[b + 6]),
{
    reveal_strlit("http://");
    reveal_strlit("https://");
    reveal_strlit("token=");
    assert forall|i: int| b < i < e implies token_char(#[trigger] t[i]) by {
        if i < b + 7 {
            let k = i - (b + 1);
            assert(same_letter(t[b + 1 + k], "token="@[k]));
        }
    }
    assert(same_letter(t[b + 1 + 5], "token="@[5]));
    assert forall|i: int| s <= i < e implies url_char(#[trigger] t[i]) by {
        if i < scheme_end(t, s) {
            let k = i - s;
            if reads(t, s, "https://"@) {
                assert(same_letter(t[s + k], "https://"@[k]));
            } else {
                assert(same_letter(t[s + k], "http://"@[k]));
            }
        } else if i > b {
            assert(token_char(t[i]));
        }
    }
}

/// An address stays one when text is put before and behind it.
proof fn lemma_address_shifts(pre: Seq<char>, u: Seq<char>, post: Seq<char>, s: int, b: int, e: int)
    requires
        address_at(u, s, b, e),
    ensures
        address_at(pre + u + post, pre.len() + s, pre.len() + b, pre.len() + e),
{
    let t = pre + u + post;
    let n = pre.len() as int;
    reveal_strlit("http://");
    reveal_strlit("https://");
    reveal_strlit("token=");
    assert forall|i: int| 0 <= i < u.len() implies #[trigger] t[n + i] == u[i] by {}
    assert forall|i: int, w: Seq<char>| #[trigger] reads(u, i, w) implies reads(t, n + i, w) by {
        assert forall|k: int| 0 <= k < w.len() implies same_letter(
            #[trigger] t[n + i + k],
            w[k],
        ) by {
            assert(t[n + (i + k)] == u[i + k]);
        }
    }
    if reads(t, n + s, "https://"@) {
        assert forall|k: int| 0 <= k < 8 implies same_letter(#[trigger] u[s + k], "https://"@[k]) by {
            assert(t[n + s + k] == u[s + k]);
        }
        assert(reads(u, s, "https://"@));
    }
    assert(reads(u, b + 1, "token="@));
    assert(reads(t, n + (b + 1), "token="@));
    assert(t[n + b] == u[b]);
    assert forall|i: int| n + scheme_end(u, s) <= i < n + b implies url_char(#[trigger] t[i]) by {
        assert(t[n + (i - n)] == u[i - n]);
    }
    assert forall|i: int| n + b + 7 <= i < n + e implies token_char(#[trigger] t[i]) by {
        assert(t[n + (i - n)] == u[i - n]);
    }
}

/// An address that ends inside the first part of a text is an address of that part.
proof fn lemma_address_in_prefix(t: Seq<char>, n: int, s: int, b: int, e: int)
    requires
        address_at(t, s, b, e),
        e <= n <= t.len(),
    ensures
        address_at(t.take(n), s, b, e),
{
    let u = t.take(n);
    reveal_strlit("http://");
    reveal_strlit("https://");
    reveal_strlit("token=");
    assert forall|i: int, w: Seq<char>| #[trigger] reads(t, i, w) && i + w.len() <= n implies reads(
        u,
        i,
        w,
    ) by {
        assert forall|k: int| 0 <= k < w.len() implies same_letter(#[trigger] u[i + k], w[k]) by {
            assert(t[i + k] == u[i + k]);
        }
    }
    if reads(u, s, "https://"@) {
        assert forall|k: int| 0 <= k < 8 implies same_letter(#[trigger] t[s + k], "https://"@[k]) by {
            assert(t[s + k] == u[s + k]);
        }
        assert(reads(t, s, "https://"@));
    }
}

/// An address that begins behind the first `n` characters is an address of the rest.
proof fn lemma_address_skips(t: Seq<char>, n: int, s: int, b: int, e: int)
    requires
        address_at(t, s, b, e),
        0 <= n <= s,
    ensures
        address_at(t.skip(n), s - n, b - n, e - n),
{
    let u = t.skip(n);
    reveal_strlit("http://");
    reveal_strlit("https://");
    reveal_strlit("token=");
    assert forall|i: int| n <= i < t.len() implies #[trigger] u[i - n] == t[i] by {}
    assert forall|i: int, w: Seq<char>| #[trigger] reads(t, i, w) && n <= i implies reads(
        u,
        i - n,
        w,
    ) by {
        assert forall|k: int| 0 <= k < w.len() implies same_letter(#[trigger] u[i - n + k], w[k]) by {
            assert(t[i + k] == u[i + k - n]);
        }
    }
    if reads(u, s - n, "https://"@) {
        assert forall|k: int| 0 <= k < 8 implies same_letter(#[trigger] t[s + k], "https://"@[k]) by {
            assert(u[s - n + k] == t[s + k]);
        }
        assert(reads(t, s, "https://"@));
    }
    assert(reads(u, b + 1 - n, "token="@));
    assert(u[b - n] == t[b]);
    assert forall|i: int| scheme_end(t, s) - n <= i < b - n implies url_char(#[trigger] u[i]) by {
        assert(u[i + n - n] == t[i + n]);
    }
    assert forall|i: int| b - n + 7 <= i < e - n implies token_char(#[trigger] u[i]) by {
        assert(u[i + n - n] == t[i + n]);
    }
}

/// An address of a part is an address of the whole.
proof fn lemma_full_moves_out(t: Seq<char>, lo: int, hi: int, s: int, b: int, e: int)
    requires
        0 <= lo <= hi <= t.len(),
        full_address_at(t.subrange(lo, hi), s, b, e),
    ensures
        full_address_at(t, lo + s, lo + b, lo + e),
{
    let u = t.subrange(lo, hi);
    lemma_address_shifts(t.take(lo), u, t.skip(hi), s, b, e);
    assert(t.take(lo) + u + t.skip(hi) =~= t);
    let k = choose|k: int| b + 7 <= k < e && !is_closing(#[trigger] u[k]);
    assert(t[lo + k] == u[k]);
}

/// An address that stands within a part is an address of the part.
proof fn lemma_full_moves_in(t: Seq<char>, lo: int, hi: int, s: int, b: int, e: int)
    requires
        0 <= lo <= s,
        e <= hi <= t.len(),
        full_address_at(t, s, b, e),
    ensures
        full_address_at(t.subrange(lo, hi), s - lo, b - lo, e - lo),
{
    let u = t.subrange(lo, hi);
    lemma_address_in_prefix(t, hi, s, b, e);
    lemma_address_skips(t.take(hi), lo, s, b, e);
    assert(t.take(hi).skip(lo) =~= u);
    let k = choose|k: int| b + 7 <= k < e && !is_closing(#[trigger] t[k]);
    assert(u[k - lo] == t[k]);
}

/// Where all addresses stand within a part or behind it, the one that is captured from the part is
/// captured from the whole.
proof fn lemma_choice_of_part(t: Seq<char>, lo: int, hi: int, s: int, b: int, e: int)
    requires
        0 <= lo <= hi <= t.len(),
        s < hi - lo,
        captured_at(t.subrange(lo, hi), s, b, e),
        forall|s2: int, b2: int, e2: int| #[trigger]
            full_address_at(t, s2, b2, e2) ==> lo <= s2 && e2 <= hi || hi <= s2,
    ensures
        captured_at(t, lo + s, lo + b, lo + e),
{
    let u = t.subrange(lo, hi);
    assert forall|s2: int, b2: int, e2: int| #[trigger]
        full_address_at(t, s2, b2, e2) && s2 < hi implies full_address_at(
        u,
        s2 - lo,
        b2 - lo,
        e2 - lo,
    ) by {
        lemma_full_moves_in(t, lo, hi, s2, b2, e2);
    }
    lemma_full_moves_out(t, lo, hi, s, b, e);
}

/// Where all addresses stand within a part or behind it, those within it decide what is captured.
proof fn lemma_part_decides(t: Seq<char>, lo: int, hi: int)
    requires
        0 <= lo <= hi <= t.len(),
        has_full_address(t.subrange(lo, hi)),
        forall|s: int, b: int, e: int| #[trigger]
            full_address_at(t, s, b, e) ==> lo <= s && e <= hi || hi <= s,
    ensures
        captured_url(t) == captured_url(t.subrange(lo, hi)),
{
    let u = t.subrange(lo, hi);
    law_choice_exists(u);
    let (s, b, e) = choose|s: int, b: int, e: int|
        captured_at(u, s, b, e) && captured_url(u) == Some(without_closing(u.subrange(s, e)));
    assert(0 <= s < e <= u.len()) by {
        lemma_address_chars(u, s, b, e);
    }
    lemma_choice_of_part(t, lo, hi, s, b, e);
    lemma_captured(t, lo + s, lo + b, lo + e);
    assert(t.subrange(lo + s, lo + e) =~= u.subrange(s, e));
}

/// Where all addresses stand within a part, the rest makes no difference.
proof fn lemma_rest_is_idle(t: Seq<char>, lo: int, hi: int)
    requires
        0 <= lo <= hi <= t.len(),
        forall|s: int, b: int, e: int| #[trigger]
            full_address_at(t, s, b, e) ==> lo <= s && e <= hi,
    ensures
        captured_url(t) == captured_url(t.subrange(lo, hi)),
{
    if has_full_address(t.subrange(lo, hi)) {
        lemma_part_decides(t, lo, hi);
    } else if has_full_address(t) {
        let (s, b, e) = choose|s: int, b: int, e: int| full_address_at(t, s, b, e);
        lemma_full_moves_in(t, lo, hi, s, b, e);
    }
}

// ---------------------------------------------------------------------------
// Laws of the capture
// ---------------------------------------------------------------------------

/// `post` cannot belong to an address that stands before it: up to its first character that no
/// address holds, it opens no other token, and it does not begin with a character that a token holds.
pub open spec fn ends_address(post: Seq<char>) -> bool {
    exists|n: int| #[trigger] ends_address_at(post, n)
}

/// The first `n` characters of `post` lengthen no address before them, and no address reaches
/// further.
pub open spec fn ends_address_at(post: Seq<char>, n: int) -> bool {
    &&& 0 <= n <= post.len()
    &&& n < post.len() ==> !url_char(post[n])
    &&& n > 0 ==> !token_char(post[0])
    &&& forall|i: int|
        0 <= i < n && (#[trigger] post[i] == '?' || post[i] == '&') ==> !reads(
            post,
            i + 1,
            "token="@,
        )
}

/// An address that begins before such a text ends before it.
proof fn lemma_address_stops(front: Seq<char>, post: Seq<char>, s: int, b: int, e: int)
    requires
        address_at(front + post, s, b, e),
        s < front.len(),
        ends_address(post),
    ensures
        e <= front.len(),
{
    let t = front + post;
    let m = front.len() as int;
    lemma_address_chars(t, s, b, e);
    if e > m {
        let k = choose|k: int| #[trigger] ends_address_at(post, k);
        if k < post.len() {
            assert(t[m + k] == post[k]);
        }
        assert(t[m] == post[0]);
        if b >= m {
            assert(t[b] == post[b - m]);
            assert(reads(post, b - m + 1, "token="@)) by {
                reveal_strlit("token=");
                assert forall|j: int| 0 <= j < 6 implies same_letter(
                    #[trigger] post[b - m + 1 + j],
                    "token="@[j],
                ) by {
                    assert(t[b + 1 + j] == post[b - m + 1 + j]);
                }
            }
        }
        assert(token_char(t[m]));
    }
}

/// No address begins in `pre` that could reach into `rest` behind it: `pre` holds none of its own and
/// is set off by white space or a quote, or no scheme begins in it at all.
pub open spec fn is_set_off(pre: Seq<char>, rest: Seq<char>) -> bool {
    ||| !has_full_address(pre) && (pre.len() == 0 || !url_char(pre.last()))
    ||| forall|i: int| 0 <= i < pre.len() ==> !#[trigger] scheme_at(pre + rest, i)
}

proof fn lemma_set_off(pre: Seq<char>, rest: Seq<char>, s: int, b: int, e: int)
    requires
        is_set_off(pre, rest),
        full_address_at(pre + rest, s, b, e),
    ensures
        s >= pre.len(),
{
    let t = pre + rest;
    let n = pre.len() as int;
    lemma_address_chars(t, s, b, e);
    if s < n {
        assert(scheme_at(t, s));
        assert(t[n - 1] == pre.last());
        lemma_full_moves_in(t, 0, n, s, b, e);
        assert(t.subrange(0, n) =~= pre);
        assert(has_full_address(pre));
    }
}

/// Where the captured address stands, if a line prints one that nothing before or behind it belongs
/// to.
proof fn lemma_printed_place(
    pre: Seq<char>,
    url: Seq<char>,
    post: Seq<char>,
    b: int,
    s: int,
    b2: int,
    e: int,
)
    requires
        full_address_at(pre + url + post, pre.len() as int, b, (pre + url).len() as int),
        is_set_off(pre, url + post),
        ends_address(post),
        captured_at(pre + url + post, s, b2, e),
    ensures
        s == pre.len(),
        e == (pre + url).len(),
{
    let t = pre + url + post;
    let n = pre.len() as int;
    let m = (pre + url).len() as int;
    assert(s == n) by {
        assert(t =~= pre + (url + post));
        lemma_set_off(pre, url + post, s, b2, e);
    }
    assert(n < m) by {
        lemma_address_chars(t, n, b, m);
    }
    lemma_address_stops(pre + url, post, s, b2, e);
    law_choice_is_longest(t, s, b2, e, b, m);
}

/// An address that a line prints is captured, whole and without the text around it, if no address
/// begins before it, and what stands behind it cannot be taken for a part of it.
pub proof fn law_printed_address_is_captured(
    pre: Seq<char>,
    url: Seq<char>,
    post: Seq<char>,
    b: int,
)
    requires
        full_address_at(url, 0, b, url.len() as int),
        is_set_off(pre, url + post),
        ends_address(post),
    ensures
        captured_url(pre + url + post) == Some(without_closing(url)),
{
    let t = pre + url + post;
    let n = pre.len() as int;
    let m = (pre + url).len() as int;
    assert(t.subrange(n, m) =~= url);
    lemma_full_moves_out(t, n, m, 0, b, url.len() as int);
    assert(has_full_address(t));
    law_choice_exists(t);
    let (s, b2, e) = choose|s: int, b2: int, e: int|
        captured_at(t, s, b2, e) && captured_url(t) == Some(without_closing(t.subrange(s, e)));
    lemma_printed_place(pre, url, post, n + b, s, b2, e);
}

/// Closing punctuation at the end of a line makes no difference: it is no part of an address, and
/// no token by itself.
pub proof fn law_punctuation_is_no_part(t: Seq<char>, tail: Seq<char>)
    requires
        forall|i: int| 0 <= i < tail.len() ==> is_closing(#[trigger] tail[i]),
    ensures
        captured_url(t + tail) == captured_url(t),
    decreases tail.len(),
{
    if tail.len() == 0 {
        assert(t + tail =~= t);
    } else {
        let front = tail.drop_last();
        law_punctuation_is_no_part(t, front);
        assert(is_closing(tail[tail.len() - 1]));
        lemma_closing_mark(t + front, tail.last());
        assert((t + front).push(tail.last()) =~= t + tail);
    }
}

/// An address of a text that ends in closing punctuation is one without that punctuation too.
proof fn lemma_without_mark(t: Seq<char>, c: char, s: int, b: int, e: int)
    requires
        is_closing(c),
        full_address_at(t.push(c), s, b, e),
    ensures
        full_address_at(t, s, b, if e <= t.len() {
            e
        } else {
            t.len() as int
        }),
{
    let p = t.push(c);
    let n = t.len() as int;
    let e2 = if e <= n {
        e
    } else {
        n
    };
    let k = choose|k: int| b + 7 <= k < e && !is_closing(#[trigger] p[k]);
    assert(p[n] == c);
    assert(address_at(p, s, b, e2));
    assert(k < e2);
    assert(full_address_at(p, s, b, e2));
    lemma_address_chars(p, s, b, e2);
    lemma_full_moves_in(p, 0, n, s, b, e2);
    assert(p.subrange(0, n) =~= t);
}

/// With a closing mark behind the text, the same address is captured, or the same with the mark.
proof fn lemma_choice_with_mark(t: Seq<char>, c: char, s: int, b: int, e: int) -> (last: int)
    requires
        is_closing(c),
        captured_at(t, s, b, e),
    ensures
        captured_at(t.push(c), s, b, last),
        last == e || e == t.len() && last == e + 1,
{
    let p = t.push(c);
    let n = t.len() as int;
    let last = if e == n && token_char(c) {
        e + 1
    } else {
        e
    };
    assert(full_address_at(p, s, b, last)) by {
        assert(p.subrange(0, n) =~= t);
        lemma_full_moves_out(p, 0, n, s, b, e);
        lemma_longer_token(p, s, b, e, last);
    }
    assert forall|s2: int, b2: int, e2: int| #[trigger] full_address_at(p, s2, b2, e2) implies s
        <= s2 && (s2 == s ==> b2 <= b) && (s2 == s && b2 == b ==> e2 <= last) by {
        lemma_without_mark(t, c, s2, b2, e2);
        if e2 > n {
            assert(token_char(p[n]));
        }
    }
    last
}

proof fn lemma_closing_mark(t: Seq<char>, c: char)
    requires
        is_closing(c),
    ensures
        captured_url(t.push(c)) == captured_url(t),
{
    let p = t.push(c);
    if has_full_address(t) {
        law_choice_exists(t);
        let (s, b, e) = choose|s: int, b: int, e: int|
            captured_at(t, s, b, e) && captured_url(t) == Some(without_closing(t.subrange(s, e)));
        assert(0 <= s < e <= t.len()) by {
            lemma_address_chars(t, s, b, e);
        }
        let last = lemma_choice_with_mark(t, c, s, b, e);
        lemma_captured(p, s, b, last);
        if last == e {
            assert(p.subrange(s, e) =~= t.subrange(s, e));
        } else {
            assert(p.subrange(s, last).drop_last() =~= t.subrange(s, e));
        }
    } else if has_full_address(p) {
        let (s, b, e) = choose|s: int, b: int, e: int| full_address_at(p, s, b, e);
        lemma_without_mark(t, c, s, b, e);
    }
}

/// An address stays one with more token characters behind it.
proof fn lemma_longer_token(t: Seq<char>, s: int, b: int, e: int, last: int)
    requires
        full_address_at(t, s, b, e),
        e <= last <= t.len(),
        forall|i: int| e <= i < last ==> token_char(#[trigger] t[i]),
    ensures
        full_address_at(t, s, b, last),
{
    let k = choose|k: int| b + 7 <= k < e && !is_closing(#[trigger] t[k]);
    assert(b + 7 <= k < last && !is_closing(t[k]));
}

/// What follows behind white space or a quote makes no difference once an address is there.
pub proof fn law_text_behind_is_no_part(t: Seq<char>, post: Seq<char>)
    requires
        captured_url(t) is Some,
        post.len() == 0 || !url_char(post[0]),
    ensures
        captured_url(t + post) == captured_url(t),
{
    let whole = t + post;
    let n = t.len() as int;
    assert(whole.subrange(0, n) =~= t);
    assert forall|s: int, b: int, e: int| #[trigger] full_address_at(whole, s, b, e) implies 0 <= s
        && e <= n || n <= s by {
        lemma_address_chars(whole, s, b, e);
        if s < n && e > n {
            assert(whole[n] == post[0]);
        }
    }
    lemma_part_decides(whole, 0, n);
}

proof fn lemma_without_closing(u: Seq<char>, k: int)
    requires
        0 <= k < u.len(),
        !is_closing(u[k]),
    ensures
        k < without_closing(u).len() <= u.len(),
        without_closing(u) == u.take(without_closing(u).len() as int),
        forall|i: int| without_closing(u).len() <= i < u.len() ==> is_closing(#[trigger] u[i]),
    decreases u.len(),
{
    if is_closing(u.last()) {
        lemma_without_closing(u.drop_last(), k);
        let r = without_closing(u.drop_last());
        assert(u.drop_last().take(r.len() as int) =~= u.take(r.len() as int));
        assert forall|i: int| r.len() <= i < u.len() implies is_closing(#[trigger] u[i]) by {
            if i < u.len() - 1 {
                assert(u.drop_last()[i] == u[i]);
            }
        }
    } else {
        assert(u.take(u.len() as int) =~= u);
    }
}

proof fn lemma_no_closing_at_end(u: Seq<char>)
    ensures
        without_closing(u).len() == 0 || !is_closing(without_closing(u).last()),
    decreases u.len(),
{
    if u.len() > 0 && is_closing(u.last()) {
        lemma_no_closing_at_end(u.drop_last());
    }
}

/// What is captured stands in the line as an address, and does not end in closing punctuation.
proof fn lemma_captured_part(t: Seq<char>) -> (r: (int, int))
    requires
        captured_url(t) is Some,
    ensures
        ({
            let u = captured_url(t)->0;
            let (s, b) = r;
            &&& 0 <= s <= s + u.len() <= t.len()
            &&& u == t.subrange(s, s + u.len())
            &&& full_address_at(t, s, b, s + u.len())
            &&& full_address_at(u, 0, b - s, u.len() as int)
            &&& u.len() > 0
            &&& !is_closing(u.last())
        }),
{
    law_choice_exists(t);
    let (s, b, e) = choose|s: int, b: int, e: int|
        captured_at(t, s, b, e) && captured_url(t) == Some(without_closing(t.subrange(s, e)));
    lemma_address_chars(t, s, b, e);
    let whole = t.subrange(s, e);
    let u = without_closing(whole);
    let k = choose|k: int| b + 7 <= k < e && !is_closing(#[trigger] t[k]);
    assert(whole[k - s] == t[k]);
    lemma_without_closing(whole, k - s);
    lemma_no_closing_at_end(whole);
    let n = s + u.len();
    assert(u =~= t.subrange(s, n));
    assert(address_at(t, s, b, n));
    assert(b + 7 <= k < n && !is_closing(t[k]));
    lemma_full_moves_in(t, s, n, s, b, n);
    (s, b)
}

/// A captured address begins with its scheme, holds neither white space nor quotes, and does not
/// end in closing punctuation.
pub proof fn law_captured_url_is_clean(t: Seq<char>)
    requires
        captured_url(t) is Some,
    ensures
        scheme_at(captured_url(t)->0, 0),
        forall|i: int| 0 <= i < captured_url(t)->0.len() ==> url_char(#[trigger] captured_url(t)->0[i]),
        captured_url(t)->0.len() > 0,
        !is_closing(captured_url(t)->0.last()),
{
    let (s, b) = lemma_captured_part(t);
    let u = captured_url(t)->0;
    lemma_address_chars(u, 0, b - s, u.len() as int);
}

/// A captured address still holds its token, and read as a line of its own it is captured
/// unchanged.
pub proof fn law_captured_url_keeps_its_token(t: Seq<char>)
    requires
        captured_url(t) is Some,
    ensures
        exists|b: int|
            #[trigger] full_address_at(captured_url(t)->0, 0, b, captured_url(t)->0.len() as int),
        captured_url(captured_url(t)->0) == captured_url(t),
{
    let (s, b) = lemma_captured_part(t);
    let u = captured_url(t)->0;
    let none = Seq::<char>::empty();
    assert(none + u + none =~= u);
    assert(ends_address_at(none, 0));
    assert(is_set_off(none, u + none));
    law_printed_address_is_captured(none, u, none, b - s);
}

// ---------------------------------------------------------------------------
// The capture
// ---------------------------------------------------------------------------

#[verifier::external_type_specification]
#[verifier::external_body]
pub struct ExRegexError(regex::Error);

/// Calls `regex::Regex::new` and `regex::Regex::find` and hands out the text of the match
/// (`regex::Match::as_str`).
///
/// Claimed for the one pattern that the contract admits: it compiles; there is no match exactly
/// where the text holds no address; and the match is the one that `find` prefers: it begins first,
/// and then the two greedy repetitions, the one before `token=` ahead of the one behind it, take as
/// many characters as a match from there can. Under `(?i)` letters go by Unicode's simple case
/// folding, and `\s` is the `White_Space` property.
#[verifier::external_body]
fn find_match(pattern: &str, text: &str) -> (found: Result<Option<String>, regex::Error>)
    requires
        pattern@ == TOKEN_URL_PATTERN@,
    ensures
        found is Ok,
        found->Ok_0 is None <==> !has_address(text@),
        found->Ok_0 matches Some(url) ==> exists|s: int, b: int, e: int|
            chosen_address(text@, s, b, e) && url@ == text@.subrange(s, e),
{
    Ok(regex::Regex::new(pattern)?.find(text).map(|m| m.as_str().to_string()))
}

/// Removes the closing punctuation at the end of a matched address.
pub fn trim_closing(url: &str) -> (trimmed: String)
    ensures
        trimmed@ == without_closing(url@),
{
    let chars = chars_of(url);
    let mut n: usize = chars.len();
    proof {
        assert(url@.take(n as int) =~= url@);
    }
    while n > 0 && closing(chars[n - 1])
        invariant
            n <= chars.len(),
            chars@ == url@,
            without_closing(url@.take(n as int)) == without_closing(url@),
        decreases n,
    {
        proof {
            assert(url@.take(n as int).drop_last() =~= url@.take(n - 1));
        }
        n = n - 1;
    }
    url.substring_char(0, n).to_string()
}

fn closing(c: char) -> (yes: bool)
    ensures
        yes == is_closing(c),
{
    c == '.' || c == ',' || c == ';' || c == ')' || c == ']' || c == '}'
}

/// Whether nothing follows `token=` in a trimmed address: no token holds the sign before `token=`,
/// so the sign stands there only if the token is empty.
fn lacks_token(url: &str) -> (yes: bool)
    ensures
        yes == (url@.len() >= 7 && (url@[url@.len() - 7] == '?' || url@[url@.len() - 7] == '&')),
{
    let chars = chars_of(url);
    let n: usize = chars.len();
    n >= 7 && (chars[n - 7] == '?' || chars[n - 7] == '&')
}

/// The chosen address is captured if its token is more than closing punctuation.
proof fn lemma_chosen_is_captured(t: Seq<char>, s: int, b: int, e: int)
    requires
        chosen_address(t, s, b, e),
        full_address_at(t, s, b, e),
    ensures
        captured_url(t) == Some(without_closing(t.subrange(s, e))),
{
    assert(captured_at(t, s, b, e));
    lemma_captured(t, s, b, e);
}

/// What is left of a chosen address tells whether its token is more than closing punctuation.
proof fn lemma_lacks_token(t: Seq<char>, s: int, b: int, e: int)
    requires
        chosen_address(t, s, b, e),
    ensures
        ({
            let u = without_closing(t.subrange(s, e));
            let p = u.len() - 7;
            &&& p >= b - s > 0
            &&& u == t.subrange(s, s + u.len())
            &&& full_address_at(t, s, b, e) <==> !(u[p] == '?' || u[p] == '&')
            &&& !full_address_at(t, s, b, e) ==> p == b - s && forall|k: int|
                b + 7 <= k < e ==> is_closing(#[trigger] t[k])
        }),
{
    lemma_address_chars(t, s, b, e);
    let whole = t.subrange(s, e);
    let u = without_closing(whole);
    let p = u.len() - 7;
    assert(whole[b + 6 - s] == t[b + 6]);
    lemma_without_closing(whole, b + 6 - s);
    lemma_no_closing_at_end(whole);
    assert(u =~= t.subrange(s, s + u.len()));
    assert(u[p] == t[s + p]);
    if p > b - s {
        assert(token_char(t[s + p]));
        let k = s + u.len() - 1;
        assert(u.last() == t[k]);
        assert(b + 7 <= k < e && !is_closing(t[k]));
    } else {
        assert forall|k: int| b + 7 <= k < e implies is_closing(#[trigger] t[k]) by {
            assert(whole[k - s] == t[k]);
        }
    }
}

/// If the token of the chosen address is nothing but closing punctuation, every address with more of
/// a token ends before its sign or begins behind it.
proof fn lemma_around_empty_token(t: Seq<char>, s: int, b: int, e: int, s2: int, b2: int, e2: int)
    requires
        chosen_address(t, s, b, e),
        forall|k: int| b + 7 <= k < e ==> is_closing(#[trigger] t[k]),
        full_address_at(t, s2, b2, e2),
    ensures
        s <= s2 && e2 <= b || e <= s2,
{
    lemma_address_chars(t, s, b, e);
    lemma_address_chars(t, s2, b2, e2);
    if s2 < e {
        lemma_starts_before(t, s, b, e, s2);
        if b2 >= b {
            assert forall|i: int| scheme_end(t, s) <= i < b2 implies url_char(#[trigger] t[i]) by {
                if i >= b {
                    assert(s2 <= i < e2);
                }
            }
            assert(address_at(t, s, b2, e2));
            let k = choose|k: int| b2 + 7 <= k < e2 && !is_closing(#[trigger] t[k]);
            assert(b2 == b && e2 <= e);
            assert(is_closing(t[k]));
        }
        if e2 > b {
            assert(token_char(t[b]));
        }
    }
}

/// No scheme begins between the sign of an address and its end, if its token is nothing but closing
/// punctuation.
proof fn lemma_starts_before(t: Seq<char>, s: int, b: int, e: int, s2: int)
    requires
        address_at(t, s, b, e),
        forall|k: int| b + 7 <= k < e ==> is_closing(#[trigger] t[k]),
        scheme_at(t, s2),
        s2 < e,
    ensures
        s2 < b,
{
    reveal_strlit("http://");
    reveal_strlit("https://");
    reveal_strlit("token=");
    if reads(t, s2, "http://"@) {
        assert(same_letter(t[s2 + 0], "http://"@[0]));
    } else {
        assert(same_letter(t[s2 + 0], "https://"@[0]));
    }
    if b < s2 < b + 7 {
        let k = s2 - (b + 1);
        assert(same_letter(t[b + 1 + k], "token="@[k]));
    }
}

/// What is captured if the token of the chosen address is nothing but closing punctuation: an
/// address before its sign, or else one behind its end.
proof fn lemma_empty_token(t: Seq<char>, s: int, b: int, e: int)
    requires
        chosen_address(t, s, b, e),
        forall|k: int| b + 7 <= k < e ==> is_closing(#[trigger] t[k]),
    ensures
        captured_url(t) == (match captured_url(t.subrange(s, b)) {
            Some(url) => Some(url),
            None => captured_url(t.skip(e)),
        }),
        (forall|i: int| s <= i < t.len() ==> url_char(#[trigger] t[i])) ==> captured_url(t)
            == captured_url(t.subrange(s, b)),
{
    lemma_address_chars(t, s, b, e);
    assert forall|s2: int, b2: int, e2: int| #[trigger] full_address_at(t, s2, b2, e2) implies s
        <= s2 && e2 <= b || e <= s2 by {
        lemma_around_empty_token(t, s, b, e, s2, b2, e2);
    }
    if has_full_address(t.subrange(s, b)) {
        lemma_part_decides(t, s, b);
        law_choice_exists(t.subrange(s, b));
    } else {
        assert forall|s2: int, b2: int, e2: int| #[trigger] full_address_at(
            t,
            s2,
            b2,
            e2,
        ) implies e <= s2 && e2 <= t.len() by {
            if s2 < e {
                lemma_full_moves_in(t, s, b, s2, b2, e2);
            }
        }
        lemma_rest_is_idle(t, e, t.len() as int);
        assert(t.subrange(e, t.len() as int) =~= t.skip(e));
        if forall|i: int| s <= i < t.len() ==> url_char(#[trigger] t[i]) {
            assert forall|s2: int, b2: int, e2: int| !#[trigger] full_address_at(t, s2, b2, e2) by {
                if full_address_at(t, s2, b2, e2) {
                    assert(address_at(t, s, b2, e2));
                }
            }
        }
    }
}

/// The chosen address stands where its text first stands.
proof fn lemma_first_place(t: Seq<char>, s: int, b: int, e: int, at: int)
    requires
        chosen_address(t, s, b, e),
        stands_at(t, t.subrange(s, e), at),
    ensures
        s <= at,
{
    let u = t.subrange(s, e);
    lemma_address_chars(t, s, b, e);
    lemma_address_in_prefix(t, e, s, b, e);
    lemma_address_skips(t.take(e), s, s, b, e);
    assert(t.take(e).skip(s) =~= u);
    lemma_address_shifts(t.take(at), u, t.skip(at + u.len()), 0, b - s, e - s);
    assert(t.take(at) + u + t.skip(at + u.len()) =~= t);
}

/// The text behind the first place where `part` stands.
fn text_behind(text: &str, part: &str) -> (rest: String)
    requires
        holds(text@, part@),
    ensures
        exists|at: int|
            #[trigger] stands_at(text@, part@, at) && rest@ == text@.skip(at + part@.len()) && (
            forall|i: int| i < at ==> !#[trigger] stands_at(text@, part@, i)),
{
    let t = chars_of(text);
    let p = chars_of(part);
    let n: usize = t.len();
    let m: usize = p.len();
    let ghost place = choose|i: int| stands_at(t@, p@, i);
    let mut at: usize = 0;
    while !found_at(&t, &p, at)
        invariant
            n == t@.len(),
            m == p@.len(),
            stands_at(t@, p@, place),
            at <= place,
            forall|i: int| i < at ==> !#[trigger] stands_at(t@, p@, i),
        decreases place - at,
    {
        at = at + 1;
    }
    let rest = text.substring_char(at + m, n);
    proof {
        assert(rest@ =~= text@.skip(at + p@.len()));
        assert(stands_at(text@, part@, at as int));
    }
    rest.to_string()
}

/// The token of the chosen address in `t`, whose text is `found`, is nothing but closing punctuation,
/// and `front` is what stands in it before the sign.
spec fn is_empty_token(
    t: Seq<char>,
    found: Seq<char>,
    front: Seq<char>,
    s: int,
    b: int,
    e: int,
) -> bool {
    &&& chosen_address(t, s, b, e)
    &&& forall|k: int| b + 7 <= k < e ==> is_closing(#[trigger] t[k])
    &&& found == t.subrange(s, e)
    &&& front == t.subrange(s, b)
}

/// What a search for the chosen address has brought.
enum Found {
    /// There is none.
    Nothing,
    /// It is captured.
    Address { url: String },
    /// Its token is nothing but closing punctuation.
    Empty { found: String, front: String },
}

/// Searches a text for the chosen address.
fn search(text: &str) -> (result: Found)
    ensures
        result is Nothing ==> captured_url(text@) is None,
        result is Address ==> captured_url(text@) == Some(result->url@),
        result is Empty ==> exists|s: int, b: int, e: int|
            is_empty_token(text@, result->found@, result->front@, s, b, e),
{
    let found = match find_match(TOKEN_URL_PATTERN, text) {
        Ok(Some(found)) => found,
        _ => {
            proof {
                assert(!has_full_address(text@));
            }
            return Found::Nothing;
        },
    };
    let url = trim_closing(found.as_str());
    let ghost (s, b, e) = choose|s: int, b: int, e: int|
        chosen_address(text@, s, b, e) && found@ == text@.subrange(s, e);
    proof {
        lemma_lacks_token(text@, s, b, e);
    }
    if lacks_token(url.as_str()) {
        let n: usize = chars_of(url.as_str()).len();
        let front = url.as_str().substring_char(0, n - 7).to_string();
        let result = Found::Empty { found, front };
        proof {
            assert(front@ =~= text@.subrange(s, b));
            assert(is_empty_token(text@, result->found@, result->front@, s, b, e));
        }
        result
    } else {
        proof {
            lemma_chosen_is_captured(text@, s, b, e);
        }
        Found::Address { url }
    }
}

/// The address with a token in a text that an address may hold as a whole.
fn address_within(text: &str) -> (url: Option<String>)
    requires
        forall|i: int| 0 <= i < text@.len() ==> url_char(#[trigger] text@[i]),
    ensures
        url.deep_view() == captured_url(text@),
{
    let mut left: String = text.to_string();
    loop
        invariant
            forall|i: int| 0 <= i < left@.len() ==> url_char(#[trigger] left@[i]),
            captured_url(left@) == captured_url(text@),
        decreases left@.len(),
    {
        match search(left.as_str()) {
            Found::Nothing => {
                return None;
            },
            Found::Address { url } => {
                return Some(url);
            },
            Found::Empty { found, front } => {
                proof {
                    let (s, b, e) = choose|s: int, b: int, e: int|
                        is_empty_token(left@, found@, front@, s, b, e);
                    lemma_address_chars(left@, s, b, e);
                    lemma_empty_token(left@, s, b, e);
                }
                left = front;
            },
        }
    }
}

/// The address with a token that a line of output holds, without closing punctuation at its end;
/// `None` exactly if the line holds none whose token is more than such punctuation.
pub fn parse_token_url(line: &str) -> (url: Option<String>)
    ensures
        url.deep_view() == captured_url(line@),
        url is None <==> !has_full_address(line@),
{
    let mut rest: String = line.to_string();
    loop
        invariant
            captured_url(rest@) == captured_url(line@),
        decreases rest@.len(),
    {
        match search(rest.as_str()) {
            Found::Nothing => {
                return None;
            },
            Found::Address { url } => {
                return Some(url);
            },
            Found::Empty { found, front } => {
                let ghost (s, b, e) = choose|s: int, b: int, e: int|
                    is_empty_token(rest@, found@, front@, s, b, e);
                proof {
                    lemma_address_chars(rest@, s, b, e);
                    lemma_empty_token(rest@, s, b, e);
                }
                match address_within(front.as_str()) {
                    Some(url) => {
                        return Some(url);
                    },
                    None => {},
                }
                proof {
                    assert(stands_at(rest@, found@, s));
                }
                let behind = text_behind(rest.as_str(), found.as_str());
                proof {
                    let at = choose|at: int|
                        #[trigger] stands_at(rest@, found@, at) && behind@ == rest@.skip(
                            at + found@.len(),
                        ) && (forall|i: int| i < at ==> !#[trigger] stands_at(rest@, found@, i));
                    lemma_first_place(rest@, s, b, e, at);
                }
                rest = behind;
            },
        }
    }
}

// ---------------------------------------------------------------------------
// The captured address
// ---------------------------------------------------------------------------

/// The latest captured address. It lives in memory only.
#[derive(Debug)]
pub struct TokenSlot {
    url: Option<String>,
}

impl View for TokenSlot {
    type V = Option<Seq<char>>;

    closed spec fn view(&self) -> Option<Seq<char>> {
        self.url.deep_view()
    }
}

/// The captured address after one more line: a line with an address replaces it.
pub open spec fn after_line(held: Option<Seq<char>>, line: Seq<char>) -> Option<Seq<char>> {
    match captured_url(line) {
        Some(url) => Some(url),
        None => held,
    }
}

/// The address that the window is to show.
pub open spec fn address_to_show(held: Option<Seq<char>>) -> Seq<char> {
    match held {
        Some(url) => url,
        None => DSH_BASE_URL@,
    }
}

impl TokenSlot {
    /// Without an address.
    pub fn new() -> (slot: TokenSlot)
        ensures
            slot@ is None,
    {
        TokenSlot { url: None }
    }

    /// Takes in a line of output and tells whether it held an address.
    pub fn observe(&mut self, line: &str) -> (captured: bool)
        ensures
            final(self)@ == after_line(old(self)@, line@),
            captured == (captured_url(line@) is Some),
    {
        match parse_token_url(line) {
            Some(url) => {
                self.url = Some(url);
                true
            },
            None => false,
        }
    }

    /// Whether an address has been captured.
    pub fn has_token(&self) -> (yes: bool)
        ensures
            yes == (self@ is Some),
    {
        self.url.is_some()
    }

    /// Forgets the address: it is worthless once its process has ended.
    pub fn forget(&mut self)
        ensures
            final(self)@ is None,
    {
        self.url = None;
    }

    /// The address that the window is to show: the captured one, or else the base address.
    pub fn current_nav_url(&self) -> (url: String)
        ensures
            url@ == address_to_show(self@),
    {
        match &self.url {
            Some(url) => url.clone(),
            None => DSH_BASE_URL.to_string(),
        }
    }
}

/// What is held after all of `lines`, one after the other.
pub open spec fn after_lines(held: Option<Seq<char>>, lines: Seq<Seq<char>>) -> Option<Seq<char>>
    decreases lines.len(),
{
    if lines.len() == 0 {
        held
    } else {
        after_line(after_lines(held, lines.drop_last()), lines.last())
    }
}

/// Of all lines taken in, the last one with an address decides; without one nothing changes.
pub proof fn law_last_address_is_held(held: Option<Seq<char>>, lines: Seq<Seq<char>>, k: int)
    requires
        -1 <= k < lines.len(),
        forall|i: int| k < i < lines.len() ==> captured_url(#[trigger] lines[i]) is None,
        k >= 0 ==> captured_url(lines[k]) is Some,
    ensures
        after_lines(held, lines) == (if k >= 0 {
            captured_url(lines[k])
        } else {
            held
        }),
    decreases lines.len(),
{
    if lines.len() > 0 {
        let front = lines.drop_last();
        if k == lines.len() - 1 {
            assert(lines.last() == lines[k]);
        } else {
            assert(captured_url(lines[lines.len() - 1]) is None);
            assert forall|i: int| k < i < front.len() implies captured_url(
                #[trigger] front[i],
            ) is None by {
                assert(front[i] == lines[i]);
            }
            law_last_address_is_held(held, front, k);
        }
    }
}

/// Whatever lines were taken in, the address that the window is to show holds neither white space
/// nor quotes.
pub proof fn law_shown_address_holds_no_quotes(lines: Seq<Seq<char>>)
    ensures
        forall|i: int|
            0 <= i < address_to_show(after_lines(None, lines)).len() ==> url_char(
                #[trigger] address_to_show(after_lines(None, lines))[i],
            ),
    decreases lines.len(),
{
    if lines.len() == 0 {
        reveal_strlit("http://127.0.0.1:3080");
    } else {
        law_shown_address_holds_no_quotes(lines.drop_last());
        if captured_url(lines.last()) is Some {
            law_captured_url_is_clean(lines.last());
        }
    }
}

// ---------------------------------------------------------------------------
// Laws by the characters of a line
// ---------------------------------------------------------------------------

/// One of the six marks that close a sentence or a bracket.
pub open spec fn is_mark(c: char) -> bool {
    c == '.' || c == ',' || c == ';' || c == ')' || c == ']' || c == '}'
}

/// One of the signs that quote an address.
pub open spec fn is_quote(c: char) -> bool {
    c == '"' || c == '\'' || c == '<' || c == '>' || c == '`'
}

/// A letter, a digit or a sign of which tokens are made.
pub open spec fn is_token_sign(c: char) -> bool {
    ||| 'A' <= c <= 'Z'
    ||| 'a' <= c <= 'z'
    ||| '0' <= c <= '9'
    ||| c == '.' || c == '_' || c == '~' || c == '+' || c == '/' || c == '=' || c == '%' || c == '-'
}

/// `t` is `word`, with small letters or capitals.
pub open spec fn spells(t: Seq<char>, word: Seq<char>) -> bool {
    &&& t.len() == word.len()
    &&& forall|i: int|
        0 <= i < t.len() ==> #[trigger] t[i] == word[i] || 'a' <= word[i] <= 'z' && t[i] as int
            == word[i] as int - 32
}

/// A login address: scheme, host, sign, the word for the token, and a token that does not end in a
/// mark.
pub open spec fn is_login_address(
    url: Seq<char>,
    scheme: Seq<char>,
    host: Seq<char>,
    sign: char,
    word: Seq<char>,
    token: Seq<char>,
) -> bool {
    &&& spells(scheme, "http://"@) || spells(scheme, "https://"@)
    &&& spells(word, "token="@)
    &&& host.len() > 0
    &&& forall|i: int|
        0 <= i < host.len() ==> !is_space(#[trigger] host[i]) && !is_quote(host[i])
    &&& sign == '?' || sign == '&'
    &&& token.len() > 0
    &&& forall|i: int| 0 <= i < token.len() ==> is_token_sign(#[trigger] token[i])
    &&& !is_mark(token.last())
    &&& url == scheme + host + seq![sign] + word + token
}

/// Letters are read in either case; the long s and the Kelvin sign go with `s` and `k`. Other signs
/// are read as they are.
pub proof fn law_letters_are_read_in_either_case(c: char, wanted: char)
    ensures
        'a' <= wanted <= 'z' ==> (same_letter(c, wanted) <==> c == wanted || c as int == wanted as int
            - 32 || wanted == 's' && c as int == 0x17f || wanted == 'k' && c as int == 0x212a),
        !('a' <= wanted <= 'z') ==> (same_letter(c, wanted) <==> c == wanted),
{
}

/// Which characters an address and a token may hold, and which are marks.
pub proof fn law_characters_by_kind(c: char)
    ensures
        url_char(c) <==> !is_space(c) && !is_quote(c),
        token_char(c) <==> is_token_sign(c) || c as int == 0x17f || c as int == 0x212a,
        is_closing(c) <==> is_mark(c),
{
}

/// The pattern that the outside search is given.
pub proof fn law_pattern_is_fixed()
    ensures
        TOKEN_URL_PATTERN@ == r#"(?i)https?://[^\s"'<>`]+[?&]token=[A-Za-z0-9._~+/=%-]+"#@,
{
}

proof fn lemma_reads_what_is_spelled(t: Seq<char>, i: int, spelled: Seq<char>, word: Seq<char>)
    requires
        0 <= i,
        i + word.len() <= t.len(),
        spells(spelled, word),
        forall|k: int| 0 <= k < word.len() ==> #[trigger] t[i + k] == spelled[k],
    ensures
        reads(t, i, word),
{
    assert forall|k: int| 0 <= k < word.len() implies same_letter(#[trigger] t[i + k], word[k]) by {
        assert(t[i + k] == spelled[k]);
    }
}

/// A login address is an address of the pattern.
proof fn lemma_login_address(
    url: Seq<char>,
    scheme: Seq<char>,
    host: Seq<char>,
    sign: char,
    word: Seq<char>,
    token: Seq<char>,
)
    requires
        is_login_address(url, scheme, host, sign, word, token),
    ensures
        full_address_at(url, 0, (scheme.len() + host.len()) as int, url.len() as int),
        without_closing(url) == url,
{
    reveal_strlit("http://");
    reveal_strlit("https://");
    reveal_strlit("token=");
    let p = scheme.len() as int;
    let b = p + host.len();
    let n = url.len() as int;
    assert(url.len() == b + 7 + token.len());
    assert forall|k: int| 0 <= k < p implies #[trigger] url[0 + k] == scheme[k] by {}
    if spells(scheme, "http://"@) {
        lemma_reads_what_is_spelled(url, 0, scheme, "http://"@);
    } else {
        lemma_reads_what_is_spelled(url, 0, scheme, "https://"@);
    }
    assert(scheme_end(url, 0) == p) by {
        if spells(scheme, "http://"@) && reads(url, 0, "https://"@) {
            assert(same_letter(url[0int + 4], "https://"@[4]));
            assert(url[4] == scheme[4]);
        }
    }
    assert forall|i: int| p <= i < b implies url_char(#[trigger] url[i]) by {
        assert(url[i] == host[i - p]);
    }
    assert(url[b] == sign);
    assert forall|k: int| 0 <= k < 6 implies #[trigger] url[b + 1 + k] == word[k] by {}
    lemma_reads_what_is_spelled(url, b + 1, word, "token="@);
    assert forall|i: int| b + 7 <= i < n implies token_char(#[trigger] url[i]) by {
        assert(url[i] == token[i - (b + 7)]);
    }
    assert(address_at(url, 0, b, n));
    assert(url[n - 1] == token.last());
    assert(!is_closing(url[n - 1]));
}

/// Text without the sign that follows a scheme holds no beginning of an address, not even together
/// with a scheme behind it.
proof fn lemma_no_scheme_before(pre: Seq<char>, scheme: Seq<char>, more: Seq<char>, i: int)
    requires
        !holds(pre, "://"@),
        spells(scheme, "http://"@) || spells(scheme, "https://"@),
        0 <= i < pre.len(),
    ensures
        !scheme_at(pre + scheme + more, i),
{
    reveal_strlit("http://");
    reveal_strlit("https://");
    reveal_strlit("://");
    let t = pre + scheme + more;
    let n = pre.len() as int;
    assert(t[n] == scheme[0] && t[n + 1] == scheme[1] && t[n + 2] == scheme[2] && t[n + 3]
        == scheme[3]);
    if scheme_at(t, i) {
        let j = if reads(t, i, "http://"@) {
            i + 4
        } else {
            i + 5
        };
        if reads(t, i, "http://"@) {
            assert(same_letter(t[i + 4], "http://"@[4]));
            assert(same_letter(t[i + 5], "http://"@[5]));
            assert(same_letter(t[i + 6], "http://"@[6]));
        } else {
            assert(same_letter(t[i + 4], "https://"@[4]));
            assert(same_letter(t[i + 5], "https://"@[5]));
            assert(same_letter(t[i + 6], "https://"@[6]));
            assert(same_letter(t[i + 7], "https://"@[7]));
        }
        assert(t[j] == ':' && t[j + 1] == '/' && t[j + 2] == '/');
        if j + 2 < n {
            assert(pre.subrange(j, j + 3) =~= "://"@);
            assert(stands_at(pre, "://"@, j));
        }
    }
}

/// What stands before a login address begins no address, if it holds no sign of a scheme.
proof fn lemma_login_is_set_off(
    pre: Seq<char>,
    url: Seq<char>,
    scheme: Seq<char>,
    host: Seq<char>,
    sign: char,
    word: Seq<char>,
    token: Seq<char>,
    post: Seq<char>,
)
    requires
        !holds(pre, "://"@),
        is_login_address(url, scheme, host, sign, word, token),
    ensures
        is_set_off(pre, url + post),
{
    let rest = host + seq![sign] + word + token + post;
    assert(pre + (url + post) =~= pre + scheme + rest);
    assert forall|i: int| 0 <= i < pre.len() implies !#[trigger] scheme_at(pre + (url + post), i) by {
        lemma_no_scheme_before(pre, scheme, rest, i);
    }
}

/// A login address that a line prints is captured, whole, its last character included: before it
/// stands no other address, and behind it any marks, and then the end of the line, white space or a
/// quote.
pub proof fn law_login_address_is_captured(
    line: &str,
    captured: Option<String>,
    pre: Seq<char>,
    url: Seq<char>,
    scheme: Seq<char>,
    host: Seq<char>,
    sign: char,
    word: Seq<char>,
    token: Seq<char>,
    marks: Seq<char>,
    post: Seq<char>,
)
    requires
        call_ensures(parse_token_url, (line,), captured),
        line@ == pre + url + marks + post,
        !holds(pre, "://"@),
        is_login_address(url, scheme, host, sign, word, token),
        forall|i: int| 0 <= i < marks.len() ==> is_mark(#[trigger] marks[i]),
        post.len() == 0 || is_space(post[0]) || is_quote(post[0]),
    ensures
        captured matches Some(text) && text@ == url,
{
    let none = Seq::<char>::empty();
    let b = (scheme.len() + host.len()) as int;
    lemma_login_address(url, scheme, host, sign, word, token);
    lemma_login_is_set_off(pre, url, scheme, host, sign, word, token, none);
    assert(ends_address_at(none, 0));
    law_printed_address_is_captured(pre, url, none, b);
    assert(pre + url + none =~= pre + url);
    assert forall|i: int| 0 <= i < marks.len() implies is_closing(#[trigger] marks[i]) by {
        law_characters_by_kind(marks[i]);
    }
    law_punctuation_is_no_part(pre + url, marks);
    law_text_behind_is_no_part(pre + url + marks, post);
}

/// A login address is captured whole, too, where something else follows that cannot lengthen it, such
/// as another parameter: it begins with no character of a token, and opens no other token.
pub proof fn law_login_address_ends_with_its_token(
    line: &str,
    captured: Option<String>,
    pre: Seq<char>,
    url: Seq<char>,
    scheme: Seq<char>,
    host: Seq<char>,
    sign: char,
    word: Seq<char>,
    token: Seq<char>,
    post: Seq<char>,
)
    requires
        call_ensures(parse_token_url, (line,), captured),
        line@ == pre + url + post,
        !holds(pre, "://"@),
        is_login_address(url, scheme, host, sign, word, token),
        ends_address(post),
    ensures
        captured matches Some(text) && text@ == url,
{
    lemma_login_address(url, scheme, host, sign, word, token);
    lemma_login_is_set_off(pre, url, scheme, host, sign, word, token, post);
    law_printed_address_is_captured(pre, url, post, (scheme.len() + host.len()) as int);
}

/// Marks at the end of a line make no difference to what is captured from it.
pub proof fn law_marks_make_no_difference(
    line: &str,
    captured: Option<String>,
    marked: &str,
    captured_marked: Option<String>,
    marks: Seq<char>,
)
    requires
        call_ensures(parse_token_url, (line,), captured),
        call_ensures(parse_token_url, (marked,), captured_marked),
        marked@ == line@ + marks,
        forall|i: int| 0 <= i < marks.len() ==> is_mark(#[trigger] marks[i]),
    ensures
        captured.deep_view() == captured_marked.deep_view(),
{
    assert forall|i: int| 0 <= i < marks.len() implies is_closing(#[trigger] marks[i]) by {
        law_characters_by_kind(marks[i]);
    }
    law_punctuation_is_no_part(line@, marks);
}

/// What is captured stands in the line, and is an address in form: it begins with the letters of its
/// scheme, holds neither white space nor quotes, and ends with the word for the token and a token
/// that does not end in a mark.
pub proof fn law_captured_text_is_an_address(line: &str, captured: Option<String>)
    requires
        call_ensures(parse_token_url, (line,), captured),
    ensures
        captured matches Some(text) ==> {
            let u = text@;
            &&& holds(line@, u)
            &&& u.len() > 15
            &&& u[0] == 'h' || u[0] == 'H'
            &&& forall|i: int| 0 <= i < u.len() ==> !is_space(#[trigger] u[i]) && !is_quote(u[i])
            &&& !is_mark(u.last())
            &&& exists|b: int|
                0 < b && b + 7 < u.len() && (#[trigger] u[b] == '?' || u[b] == '&') && u[b + 6] == '='
                    && forall|i: int|
                    b + 7 <= i < u.len() ==> is_token_sign(#[trigger] u[i]) || u[i] as int == 0x17f
                        || u[i] as int == 0x212a
        },
{
    if captured is Some {
        let t = line@;
        let u = captured->0@;
        let (s, b0) = lemma_captured_part(t);
        let b = b0 - s;
        let n = u.len() as int;
        lemma_address_chars(u, 0, b, n);
        assert(stands_at(t, u, s));
        reveal_strlit("http://");
        reveal_strlit("https://");
        reveal_strlit("token=");
        if reads(u, 0, "http://"@) {
            assert(same_letter(u[0int + 0], "http://"@[0]));
        } else {
            assert(same_letter(u[0int + 0], "https://"@[0]));
        }
        assert(same_letter(u[b + 1 + 5], "token="@[5]));
        assert forall|i: int| 0 <= i < n implies !is_space(#[trigger] u[i]) && !is_quote(u[i]) by {
            assert(url_char(u[i]));
        }
        assert(u[b] == '?' || u[b] == '&');
        assert forall|i: int| b + 7 <= i < n implies is_token_sign(#[trigger] u[i]) || u[i] as int
            == 0x17f || u[i] as int == 0x212a by {
            assert(token_char(u[i]));
        }
    }
}

/// Only the marks at the end are removed from a matched address, and all of them.
pub proof fn law_only_marks_are_removed(
    url: &str,
    trimmed: String,
    core: Seq<char>,
    marks: Seq<char>,
)
    requires
        call_ensures(trim_closing, (url,), trimmed),
        url@ == core + marks,
        core.len() > 0 ==> !is_mark(core.last()),
        forall|i: int| 0 <= i < marks.len() ==> is_mark(#[trigger] marks[i]),
    ensures
        trimmed@ == core,
{
    lemma_marks_removed(core, marks);
}

proof fn lemma_marks_removed(core: Seq<char>, marks: Seq<char>)
    requires
        core.len() > 0 ==> !is_mark(core.last()),
        forall|i: int| 0 <= i < marks.len() ==> is_mark(#[trigger] marks[i]),
    ensures
        without_closing(core + marks) == core,
    decreases marks.len(),
{
    if marks.len() == 0 {
        assert(core + marks =~= core);
    } else {
        assert((core + marks).last() == marks[marks.len() - 1]);
        assert((core + marks).drop_last() =~= core + marks.drop_last());
        lemma_marks_removed(core, marks.drop_last());
    }
}

/// A line from which an address is captured replaces what was held; any other line leaves it.
pub proof fn law_slot_holds_what_was_captured(
    empty: TokenSlot,
    before: TokenSlot,
    after: TokenSlot,
    line: &str,
    captured: bool,
    url: Option<String>,
    forgotten: TokenSlot,
)
    requires
        call_ensures(TokenSlot::new, (), empty),
        exists|s: &mut TokenSlot|
            *s == before && *final(s) == after && #[trigger] call_ensures(
                TokenSlot::observe,
                (s, line),
                captured,
            ),
        call_ensures(parse_token_url, (line,), url),
        exists|s: &mut TokenSlot|
            *final(s) == forgotten && #[trigger] call_ensures(TokenSlot::forget, (s,), ()),
    ensures
        empty@ is None,
        captured <==> url is Some,
        url matches Some(text) ==> after@ == Some(text@),
        url is None ==> after@ == before@,
        forgotten@ is None,
{
}

/// While an address is held, it is the one to show, unchanged; without one it is the base address.
pub proof fn law_held_address_is_shown(slot: &TokenSlot, yes: bool, url: String)
    requires
        call_ensures(TokenSlot::has_token, (slot,), yes),
        call_ensures(TokenSlot::current_nav_url, (slot,), url),
    ensures
        yes <==> slot@ is Some,
        slot@ matches Some(held) ==> url@ == held,
        slot@ is None ==> url@ == "http://127.0.0.1:3080"@,
{
}

/// Once a line has been captured from, the address to show is that of the last such line, unchanged
/// and with its token; the base address is shown only if nothing was captured.
pub proof fn law_last_captured_address_is_shown(
    first: TokenSlot,
    last: TokenSlot,
    lines: Seq<Seq<char>>,
    k: int,
    url: String,
)
    requires
        call_ensures(TokenSlot::new, (), first),
        last@ == after_lines(first@, lines),
        call_ensures(TokenSlot::current_nav_url, (&last,), url),
        -1 <= k < lines.len(),
        forall|i: int| k < i < lines.len() ==> captured_url(#[trigger] lines[i]) is None,
        k >= 0 ==> captured_url(lines[k]) is Some,
    ensures
        k >= 0 ==> Some(url@) == captured_url(lines[k]),
        k >= 0 ==> captured_url(url@) == Some(url@),
        k < 0 ==> url@ == "http://127.0.0.1:3080"@,
{
    law_last_address_is_held(first@, lines, k);
    if k >= 0 {
        law_captured_url_keeps_its_token(lines[k]);
    }
}

/// A line that is parted by white space or a quote hands over what its first part does, and if that is
/// nothing, what its second part does.
pub proof fn law_line_is_searched_from_the_left(
    line: &str,
    captured: Option<String>,
    left: &str,
    from_left: Option<String>,
    right: &str,
    from_right: Option<String>,
)
    requires
        call_ensures(parse_token_url, (line,), captured),
        call_ensures(parse_token_url, (left,), from_left),
        call_ensures(parse_token_url, (right,), from_right),
        line@ == left@ + right@,
        left@.len() > 0 && (is_space(left@.last()) || is_quote(left@.last())) || right@.len() > 0 && (
        is_space(right@[0]) || is_quote(right@[0])),
    ensures
        from_left is Some ==> captured.deep_view() == from_left.deep_view(),
        from_left is None ==> captured.deep_view() == from_right.deep_view(),
{
    let t = line@;
    let n = left@.len() as int;
    let m = t.len() as int;
    assert(t.subrange(0, n) =~= left@);
    assert(t.subrange(n, m) =~= right@);
    assert forall|s: int, b: int, e: int| #[trigger] full_address_at(t, s, b, e) implies 0 <= s && e
        <= n || n <= s && e <= m by {
        lemma_address_chars(t, s, b, e);
        if s < n && e > n {
            if is_space(left@.last()) || is_quote(left@.last()) {
                assert(t[n - 1] == left@.last());
            }
            assert(t[n] == right@[0]);
        }
    }
    if has_full_address(left@) {
        lemma_part_decides(t, 0, n);
    } else {
        assert forall|s: int, b: int, e: int| #[trigger] full_address_at(t, s, b, e) implies n <= s && e
            <= m by {
            if s < n {
                lemma_full_moves_in(t, 0, n, s, b, e);
            }
        }
        lemma_rest_is_idle(t, n, m);
    }
}

} // verus!
