//! Text primitives: white space, parts of a text, words, rows and decimal numbers.

use vstd::prelude::*;

verus! {

// ---------------------------------------------------------------------------
// Characters and parts of a text
// ---------------------------------------------------------------------------

/// The Unicode `White_Space` property.
pub open spec fn is_space(c: char) -> bool {
    ||| '\u{9}' <= c <= '\u{d}'
    ||| c == ' '
    ||| c == '\u{85}'
    ||| c == '\u{a0}'
    ||| c == '\u{1680}'
    ||| '\u{2000}' <= c <= '\u{200a}'
    ||| c == '\u{2028}'
    ||| c == '\u{2029}'
    ||| c == '\u{202f}'
    ||| c == '\u{205f}'
    ||| c == '\u{3000}'
}

/// Whether `c` is white space.
pub fn white(c: char) -> (yes: bool)
    ensures
        yes == is_space(c),
{
    ('\u{9}' <= c && c <= '\u{d}') || c == ' ' || c == '\u{85}' || c == '\u{a0}' || c == '\u{1680}'
        || ('\u{2000}' <= c && c <= '\u{200a}') || c == '\u{2028}' || c == '\u{2029}' || c
        == '\u{202f}' || c == '\u{205f}' || c == '\u{3000}'
}

/// The characters of `s`.
pub fn chars_of(s: &str) -> (v: Vec<char>)
    ensures
        v@ == s@,
{
    let mut v: Vec<char> = Vec::new();
    for c in it: s.chars()
        invariant
            v@ == it.seq().take(it.index()),
            it.seq() == s@,
    {
        v.push(c);
    }
    v
}

/// Whether two texts are equal.
pub fn same(a: &str, b: &str) -> (yes: bool)
    ensures
        yes == (a@ == b@),
{
    a.to_owned() == b.to_owned()
}

/// `part` stands in `t` at `i`.
pub open spec fn stands_at(t: Seq<char>, part: Seq<char>, i: int) -> bool {
    &&& 0 <= i
    &&& i + part.len() <= t.len()
    &&& t.subrange(i, i + part.len()) == part
}

/// `part` stands somewhere in `t`.
pub open spec fn holds(t: Seq<char>, part: Seq<char>) -> bool {
    exists|i: int| stands_at(t, part, i)
}

/// Whether `part` stands in `t` at `at`.
pub fn found_at(t: &Vec<char>, part: &Vec<char>, at: usize) -> (yes: bool)
    ensures
        yes == stands_at(t@, part@, at as int),
{
    if part.len() > t.len() || at > t.len() - part.len() {
        return false;
    }
    let mut k: usize = 0;
    while k < part.len()
        invariant
            k <= part.len(),
            at + part.len() <= t.len(),
            forall|j: int| 0 <= j < k ==> #[trigger] t@[at + j] == part@[j],
        decreases part.len() - k,
    {
        if t[at + k] != part[k] {
            proof {
                assert(t@.subrange(at as int, at + part@.len())[k as int] == t@[at + k]);
            }
            return false;
        }
        k = k + 1;
    }
    proof {
        let there = t@.subrange(at as int, at + part@.len());
        assert forall|j: int| 0 <= j < part@.len() implies #[trigger] there[j] == part@[j] by {
            assert(t@[at + j] == part@[j]);
        }
        assert(there =~= part@);
    }
    true
}

/// Whether `text` begins with `part`.
pub fn begins_with(text: &str, part: &str) -> (yes: bool)
    ensures
        yes == stands_at(text@, part@, 0),
{
    found_at(&chars_of(text), &chars_of(part), 0)
}

/// `part` stands at the end of `t`.
pub open spec fn closes(t: Seq<char>, part: Seq<char>) -> bool {
    stands_at(t, part, t.len() - part.len())
}

/// Whether `t` ends with `part`.
pub fn ends_with(t: &Vec<char>, part: &str) -> (yes: bool)
    ensures
        yes == closes(t@, part@),
{
    let part = chars_of(part);
    part.len() <= t.len() && found_at(t, &part, t.len() - part.len())
}

/// Whether `part` stands somewhere in `text`.
pub fn contains_text(text: &str, part: &str) -> (yes: bool)
    ensures
        yes == holds(text@, part@),
{
    let t = chars_of(text);
    let p = chars_of(part);
    let mut i: usize = 0;
    while i < t.len()
        invariant
            i <= t.len(),
            t@ == text@,
            p@ == part@,
            forall|j: int| 0 <= j < i ==> !#[trigger] stands_at(text@, part@, j),
        decreases t.len() - i,
    {
        if found_at(&t, &p, i) {
            return true;
        }
        i = i + 1;
    }
    found_at(&t, &p, i)
}

/// Whether the character `c` stands somewhere in `text`.
pub fn contains_char(text: &str, c: char) -> (yes: bool)
    ensures
        yes == text@.contains(c),
{
    let t = chars_of(text);
    let mut i: usize = 0;
    while i < t.len()
        invariant
            i <= t.len(),
            t@ == text@,
            forall|j: int| 0 <= j < i ==> #[trigger] text@[j] != c,
        decreases t.len() - i,
    {
        if t[i] == c {
            proof {
                assert(text@[i as int] == c);
            }
            return true;
        }
        i = i + 1;
    }
    false
}

/// `t` without the white space at its end.
pub open spec fn without_trailing_space(t: Seq<char>) -> Seq<char>
    decreases t.len(),
{
    if t.len() > 0 && is_space(t.last()) {
        without_trailing_space(t.drop_last())
    } else {
        t
    }
}

/// `t` without the white space at its beginning.
pub open spec fn without_leading_space(t: Seq<char>) -> Seq<char>
    decreases t.len(),
{
    if t.len() > 0 && is_space(t[0]) {
        without_leading_space(t.drop_first())
    } else {
        t
    }
}

/// `t` without the white space around it.
pub open spec fn trimmed(t: Seq<char>) -> Seq<char> {
    without_leading_space(without_trailing_space(t))
}

/// Removes the white space around a text.
pub fn trim(text: &str) -> (inner: String)
    ensures
        inner@ == trimmed(text@),
{
    let t = chars_of(text);
    let mut n: usize = t.len();
    proof {
        assert(text@.take(n as int) =~= text@);
    }
    while n > 0 && white(t[n - 1])
        invariant
            n <= t.len(),
            t@ == text@,
            without_trailing_space(text@.take(n as int)) == without_trailing_space(text@),
        decreases n,
    {
        proof {
            assert(text@.take(n as int).drop_last() =~= text@.take(n - 1));
        }
        n = n - 1;
    }
    let ghost kept = text@.take(n as int);
    let mut m: usize = 0;
    proof {
        assert(kept.skip(0) =~= kept);
    }
    while m < n && white(t[m])
        invariant
            m <= n <= t.len(),
            t@ == text@,
            kept == text@.take(n as int),
            without_leading_space(kept.skip(m as int)) == without_leading_space(kept),
        decreases n - m,
    {
        proof {
            assert(kept.skip(m as int).drop_first() =~= kept.skip(m + 1));
        }
        m = m + 1;
    }
    proof {
        assert(text@.subrange(m as int, n as int) =~= kept.skip(m as int));
    }
    text.substring_char(m, n).to_string()
}

// ---------------------------------------------------------------------------
// Rows and words
// ---------------------------------------------------------------------------

/// The contents of each part.
pub open spec fn contents(parts: Seq<Vec<char>>) -> Seq<Seq<char>> {
    Seq::new(parts.len(), |i: int| parts[i]@)
}

/// The parts of `t` between line feeds.
pub open spec fn rows(t: Seq<char>) -> Seq<Seq<char>>
    decreases t.len(),
{
    if t.len() == 0 {
        seq![t]
    } else {
        let before = rows(t.drop_last());
        if t.last() == '\n' {
            before.push(Seq::empty())
        } else {
            before.drop_last().push(before.last().push(t.last()))
        }
    }
}

/// Splits a text at its line feeds.
pub fn rows_of(text: &str) -> (parts: Vec<Vec<char>>)
    ensures
        contents(parts@) == rows(text@),
{
    let t = chars_of(text);
    let mut done: Vec<Vec<char>> = Vec::new();
    let mut current: Vec<char> = Vec::new();
    let mut i: usize = 0;
    proof {
        assert(t@.take(0) =~= Seq::<char>::empty());
        assert(contents(done@).push(current@) =~= seq![Seq::<char>::empty()]);
    }
    while i < t.len()
        invariant
            i <= t.len(),
            contents(done@).push(current@) == rows(t@.take(i as int)),
        decreases t.len() - i,
    {
        let c = t[i];
        let ghost old_done = done@;
        let ghost old_current = current@;
        proof {
            assert(t@.take(i + 1).drop_last() =~= t@.take(i as int));
            assert(contents(old_done).push(old_current).drop_last() =~= contents(old_done));
        }
        if c == '\n' {
            done.push(current);
            current = Vec::new();
            proof {
                assert(contents(done@) =~= contents(old_done).push(old_current));
                assert(current@ =~= Seq::<char>::empty());
            }
        } else {
            current.push(c);
        }
        i = i + 1;
    }
    let ghost old_done = done@;
    let ghost old_current = current@;
    done.push(current);
    proof {
        assert(t@.take(i as int) =~= t@);
        assert(contents(done@) =~= contents(old_done).push(old_current));
    }
    done
}

/// The longest parts of `t` without white space.
pub open spec fn words(t: Seq<char>) -> Seq<Seq<char>>
    decreases t.len(),
{
    if t.len() == 0 {
        Seq::empty()
    } else {
        let before = words(t.drop_last());
        if is_space(t.last()) {
            before
        } else if t.len() == 1 || is_space(t[t.len() - 2]) {
            before.push(seq![t.last()])
        } else {
            before.drop_last().push(before.last().push(t.last()))
        }
    }
}

/// A text that does not end in white space has a last word.
proof fn lemma_last_word(t: Seq<char>)
    requires
        t.len() > 0,
        !is_space(t.last()),
    ensures
        words(t).len() > 0,
{
}

/// Words are not empty and hold no white space.
pub proof fn law_words_are_tight(t: Seq<char>)
    ensures
        forall|i: int| 0 <= i < words(t).len() ==> (#[trigger] words(t)[i]).len() > 0,
        forall|i: int, j: int|
            0 <= i < words(t).len() && 0 <= j < words(t)[i].len() ==> !is_space(
                #[trigger] words(t)[i][j],
            ),
    decreases t.len(),
{
    if t.len() > 0 {
        let front = t.drop_last();
        law_words_are_tight(front);
        if !is_space(t.last()) && t.len() > 1 && !is_space(t[t.len() - 2]) {
            assert(front.last() == t[t.len() - 2]);
            lemma_last_word(front);
            let k = words(front).len() - 1;
            assert(words(front)[k].len() > 0);
            assert forall|i: int, j: int|
                0 <= i < words(t).len() && 0 <= j < words(t)[i].len() implies !is_space(
                #[trigger] words(t)[i][j],
            ) by {
                if i < k || j < words(front)[k].len() {
                    assert(words(t)[i][j] == words(front)[i][j]);
                }
            }
        }
    }
}

/// Splits a row into its words.
pub fn words_of(row: &Vec<char>) -> (parts: Vec<Vec<char>>)
    ensures
        contents(parts@) == words(row@),
{
    let mut done: Vec<Vec<char>> = Vec::new();
    let mut current: Vec<char> = Vec::new();
    let mut i: usize = 0;
    proof {
        assert(row@.take(0) =~= Seq::<char>::empty());
        assert(contents(done@) =~= Seq::<Seq<char>>::empty());
    }
    while i < row.len()
        invariant
            i <= row.len(),
            current@.len() == 0 <==> (i == 0 || is_space(row@[i - 1])),
            words(row@.take(i as int)) == (if current@.len() == 0 {
                contents(done@)
            } else {
                contents(done@).push(current@)
            }),
        decreases row.len() - i,
    {
        let c = row[i];
        let ghost old_done = done@;
        let ghost old_current = current@;
        let ghost next = row@.take(i + 1);
        proof {
            assert(next.drop_last() =~= row@.take(i as int));
            assert(contents(old_done).push(old_current).drop_last() =~= contents(old_done));
            if i > 0 {
                assert(next[next.len() - 2] == row@[i - 1]);
            }
        }
        if white(c) {
            if current.len() > 0 {
                done.push(current);
                current = Vec::new();
                proof {
                    assert(contents(done@) =~= contents(old_done).push(old_current));
                }
            }
        } else {
            current.push(c);
            proof {
                assert(current@ =~= old_current.push(c));
                if old_current.len() == 0 {
                    assert(current@ =~= seq![c]);
                }
            }
        }
        i = i + 1;
    }
    proof {
        assert(row@.take(i as int) =~= row@);
    }
    if current.len() > 0 {
        let ghost old_done = done@;
        let ghost old_current = current@;
        done.push(current);
        proof {
            assert(contents(done@) =~= contents(old_done).push(old_current));
        }
    }
    done
}

// ---------------------------------------------------------------------------
// Decimal numbers
// ---------------------------------------------------------------------------

/// The digit for a number below ten.
pub open spec fn digit(n: nat) -> char {
    ('0' as int + n) as char
}

/// The decimal digits of `n`, without leading zeros.
pub open spec fn digits(n: nat) -> Seq<char>
    decreases n,
{
    if n < 10 {
        seq![digit(n)]
    } else {
        digits(n / 10).push(digit(n % 10))
    }
}

fn digit_text(n: u64) -> (d: &'static str)
    requires
        n < 10,
    ensures
        d@ == seq![digit(n as nat)],
{
    proof {
        reveal_strlit("0");
        reveal_strlit("1");
        reveal_strlit("2");
        reveal_strlit("3");
        reveal_strlit("4");
        reveal_strlit("5");
        reveal_strlit("6");
        reveal_strlit("7");
        reveal_strlit("8");
        reveal_strlit("9");
    }
    if n == 0 {
        "0"
    } else if n == 1 {
        "1"
    } else if n == 2 {
        "2"
    } else if n == 3 {
        "3"
    } else if n == 4 {
        "4"
    } else if n == 5 {
        "5"
    } else if n == 6 {
        "6"
    } else if n == 7 {
        "7"
    } else if n == 8 {
        "8"
    } else {
        "9"
    }
}

/// Writes `n` in decimal.
pub fn decimal(n: u64) -> (text: String)
    ensures
        text@ == digits(n as nat),
    decreases n,
{
    if n < 10 {
        digit_text(n).to_string()
    } else {
        decimal(n / 10).concat(digit_text(n % 10))
    }
}

/// `c` is a decimal digit.
pub open spec fn is_digit(c: char) -> bool {
    '0' <= c <= '9'
}

/// The number that a row of digits stands for.
pub open spec fn value(t: Seq<char>) -> nat
    decreases t.len(),
{
    if t.len() == 0 {
        0
    } else {
        (value(t.drop_last()) * 10 + (t.last() as int - '0' as int)) as nat
    }
}

/// `t` holds nothing but digits, and at least one.
pub open spec fn is_number(t: Seq<char>) -> bool {
    &&& t.len() > 0
    &&& forall|i: int| 0 <= i < t.len() ==> is_digit(#[trigger] t[i])
}

/// `t` without a plus sign at its beginning.
pub open spec fn unsigned_part(t: Seq<char>) -> Seq<char> {
    if t.len() > 0 && t[0] == '+' {
        t.skip(1)
    } else {
        t
    }
}

/// The 32-bit number that `t` writes in decimal, with or without a plus sign.
pub open spec fn parsed_u32(t: Seq<char>) -> Option<u32> {
    let d = unsigned_part(t);
    if is_number(d) && value(d) <= u32::MAX {
        Some(value(d) as u32)
    } else {
        None
    }
}

proof fn lemma_value_grows(t: Seq<char>, i: int)
    requires
        forall|i: int| 0 <= i < t.len() ==> is_digit(#[trigger] t[i]),
        0 <= i <= t.len(),
    ensures
        value(t.take(i)) <= value(t),
    decreases t.len() - i,
{
    if i == t.len() {
        assert(t.take(i) =~= t);
    } else {
        lemma_value_grows(t, i + 1);
        assert(t.take(i + 1).drop_last() =~= t.take(i));
        assert(is_digit(t[i]));
        assert(t.take(i + 1).last() == t[i]);
    }
}

/// Reads a 32-bit number in decimal.
pub fn parse_u32(t: &Vec<char>) -> (n: Option<u32>)
    ensures
        n == parsed_u32(t@),
{
    let start: usize = if t.len() > 0 && t[0] == '+' {
        1
    } else {
        0
    };
    let ghost d = unsigned_part(t@);
    proof {
        assert(d =~= t@.skip(start as int));
    }
    if start == t.len() {
        return None;
    }
    let mut i: usize = start;
    let mut sum: u64 = 0;
    proof {
        assert(d.take(0) =~= Seq::<char>::empty());
    }
    while i < t.len()
        invariant
            start <= i <= t.len(),
            d == t@.skip(start as int),
            d == unsigned_part(t@),
            sum <= u32::MAX,
            sum == value(d.take(i - start)),
            forall|j: int| 0 <= j < i - start ==> is_digit(#[trigger] d[j]),
        decreases t.len() - i,
    {
        let c = t[i];
        proof {
            assert(d[i - start] == c);
            assert(d.take(i - start + 1).drop_last() =~= d.take(i - start));
            assert(d.take(i - start + 1).last() == c);
        }
        if c < '0' || c > '9' {
            proof {
                assert(!is_digit(d[i - start]));
            }
            return None;
        }
        let next: u64 = sum * 10 + (c as u64 - '0' as u64);
        if next > u32::MAX as u64 {
            proof {
                if is_number(d) {
                    lemma_value_grows(d, i - start + 1);
                }
            }
            return None;
        }
        sum = next;
        i = i + 1;
    }
    proof {
        assert(d.take(i - start) =~= d);
    }
    Some(sum as u32)
}

proof fn lemma_digits(n: nat)
    ensures
        is_number(digits(n)),
        value(digits(n)) == n,
    decreases n,
{
    if n < 10 {
        assert(digits(n).drop_last() =~= Seq::<char>::empty());
        assert(value(digits(n).drop_last()) == 0);
    } else {
        lemma_digits(n / 10);
        assert(digits(n).drop_last() =~= digits(n / 10));
        assert(is_digit(digit(n % 10)));
        assert forall|i: int| 0 <= i < digits(n).len() implies is_digit(#[trigger] digits(n)[i]) by {
            if i < digits(n).len() - 1 {
                assert(digits(n)[i] == digits(n / 10)[i]);
            }
        }
    }
}

/// A number that was written in decimal is read back unchanged.
pub proof fn law_numbers_round_trip(n: u32)
    ensures
        parsed_u32(digits(n as nat)) == Some(n),
{
    lemma_digits(n as nat);
    assert(is_digit(digits(n as nat)[0]));
}

// ---------------------------------------------------------------------------
// Laws
// ---------------------------------------------------------------------------

/// White space is what Unicode calls so; here the characters are given by their numbers.
pub proof fn law_white_space_by_number(c: char)
    ensures
        is_space(c) <==> {
            ||| 9 <= c as int <= 13
            ||| c as int == 0x20
            ||| c as int == 0x85
            ||| c as int == 0xa0
            ||| c as int == 0x1680
            ||| 0x2000 <= c as int <= 0x200a
            ||| c as int == 0x2028
            ||| c as int == 0x2029
            ||| c as int == 0x202f
            ||| c as int == 0x205f
            ||| c as int == 0x3000
        },
{
}

/// A text stands where it is put.
pub proof fn law_part_stands_where_it_is_put(pre: Seq<char>, part: Seq<char>, post: Seq<char>)
    ensures
        stands_at(pre + part + post, part, pre.len() as int),
        holds(pre + part + post, part),
        closes(pre + part, part),
{
    let t = pre + part + post;
    assert(t.subrange(pre.len() as int, (pre.len() + part.len()) as int) =~= part);
    assert(stands_at(t, part, pre.len() as int));
    assert((pre + part).subrange(pre.len() as int, (pre + part).len() as int) =~= part);
}

/// Where a text stands, it can be cut out.
pub proof fn law_part_can_be_cut_out(t: Seq<char>, part: Seq<char>, i: int)
    requires
        stands_at(t, part, i),
    ensures
        0 <= i <= i + part.len() <= t.len(),
        t == t.take(i) + part + t.skip(i + part.len()),
{
    assert(t =~= t.take(i) + t.subrange(i, i + part.len()) + t.skip(i + part.len()));
}

/// Removing the white space around a text leaves what stands between.
pub proof fn law_trimming_leaves_the_core(pre: Seq<char>, core: Seq<char>, post: Seq<char>)
    requires
        forall|i: int| 0 <= i < pre.len() ==> is_space(#[trigger] pre[i]),
        forall|i: int| 0 <= i < post.len() ==> is_space(#[trigger] post[i]),
        core.len() > 0 ==> !is_space(core[0]) && !is_space(core.last()),
    ensures
        trimmed(pre + core + post) == core,
{
    lemma_trailing(pre + core, post);
    assert(without_trailing_space(pre + core) == (if core.len() > 0 {
        pre + core
    } else {
        core
    })) by {
        if core.len() > 0 {
            assert((pre + core).last() == core.last());
        } else {
            assert(pre + core =~= core + pre);
            lemma_trailing(core, pre);
        }
    }
    if core.len() > 0 {
        lemma_leading(pre, core);
    }
}

proof fn lemma_trailing(t: Seq<char>, post: Seq<char>)
    requires
        forall|i: int| 0 <= i < post.len() ==> is_space(#[trigger] post[i]),
    ensures
        without_trailing_space(t + post) == without_trailing_space(t),
    decreases post.len(),
{
    if post.len() == 0 {
        assert(t + post =~= t);
    } else {
        assert((t + post).last() == post[post.len() - 1]);
        assert((t + post).drop_last() =~= t + post.drop_last());
        lemma_trailing(t, post.drop_last());
    }
}

proof fn lemma_leading(pre: Seq<char>, t: Seq<char>)
    requires
        forall|i: int| 0 <= i < pre.len() ==> is_space(#[trigger] pre[i]),
        t.len() > 0,
        !is_space(t[0]),
    ensures
        without_leading_space(pre + t) == t,
    decreases pre.len(),
{
    if pre.len() == 0 {
        assert(pre + t =~= t);
    } else {
        assert((pre + t)[0] == pre[0]);
        assert((pre + t).drop_first() =~= pre.drop_first() + t);
        lemma_leading(pre.drop_first(), t);
    }
}

proof fn lemma_rows_exist(t: Seq<char>)
    ensures
        rows(t).len() > 0,
    decreases t.len(),
{
    if t.len() > 0 {
        lemma_rows_exist(t.drop_last());
    }
}

/// A line feed parts the rows before it from those behind it.
pub proof fn law_line_feed_parts_rows(a: Seq<char>, b: Seq<char>)
    ensures
        rows(a.push('\n') + b) == rows(a) + rows(b),
    decreases b.len(),
{
    let t = a.push('\n') + b;
    if b.len() == 0 {
        assert(t.drop_last() =~= a);
        assert(b =~= Seq::<char>::empty());
        assert(rows(t) =~= rows(a) + rows(b));
    } else {
        let front = b.drop_last();
        assert(t.drop_last() =~= a.push('\n') + front);
        law_line_feed_parts_rows(a, front);
        lemma_rows_exist(front);
        assert(rows(t) =~= rows(a) + rows(b));
    }
}

/// A text without a line feed is one row.
pub proof fn law_text_without_line_feed_is_a_row(t: Seq<char>)
    requires
        !t.contains('\n'),
    ensures
        rows(t) == seq![t],
    decreases t.len(),
{
    if t.len() > 0 {
        let front = t.drop_last();
        assert forall|i: int| 0 <= i < front.len() implies #[trigger] front[i] != '\n' by {
            assert(t[i] == front[i]);
            assert(t.contains(t[i]));
        }
        law_text_without_line_feed_is_a_row(front);
        assert(t.contains(t[t.len() - 1]));
        assert(front.push(t.last()) =~= t);
        assert(rows(t) =~= seq![t]);
    }
}

/// White space parts the words before it from those behind it.
pub proof fn law_white_space_parts_words(a: Seq<char>, gap: Seq<char>, b: Seq<char>)
    requires
        gap.len() > 0,
        forall|i: int| 0 <= i < gap.len() ==> is_space(#[trigger] gap[i]),
    ensures
        words(a + gap + b) == words(a) + words(b),
    decreases gap.len(),
{
    let front = gap.drop_last();
    let c = gap.last();
    assert(is_space(gap[gap.len() - 1]));
    assert(a + gap + b =~= (a + front).push(c) + b);
    lemma_words_parted(a + front, c, b);
    if front.len() == 0 {
        assert(a + front =~= a);
    } else {
        let none = Seq::<char>::empty();
        law_white_space_parts_words(a, front, none);
        assert(a + front + none =~= a + front);
        assert(words(a) + words(none) =~= words(a));
    }
}

proof fn lemma_words_parted(a: Seq<char>, c: char, b: Seq<char>)
    requires
        is_space(c),
    ensures
        words(a.push(c) + b) == words(a) + words(b),
    decreases b.len(),
{
    let t = a.push(c) + b;
    if b.len() == 0 {
        assert(t.drop_last() =~= a);
        assert(words(t) =~= words(a) + words(b));
    } else {
        let front = b.drop_last();
        assert(t.drop_last() =~= a.push(c) + front);
        lemma_words_parted(a, c, front);
        assert(t.last() == b.last());
        if b.len() == 1 {
            assert(t[t.len() - 2] == c);
        } else {
            assert(t[t.len() - 2] == b[b.len() - 2]);
            assert(front.last() == b[b.len() - 2]);
            if !is_space(front.last()) {
                lemma_last_word(front);
            }
        }
        assert(words(t) =~= words(a) + words(b));
    }
}

/// A text without white space is one word, unless it is empty.
pub proof fn law_tight_text_is_a_word(t: Seq<char>)
    requires
        t.len() > 0,
        forall|i: int| 0 <= i < t.len() ==> !is_space(#[trigger] t[i]),
    ensures
        words(t) == seq![t],
        words(Seq::<char>::empty()).len() == 0,
    decreases t.len(),
{
    let front = t.drop_last();
    assert(front.push(t.last()) =~= t);
    if t.len() > 1 {
        law_tight_text_is_a_word(front);
        assert(!is_space(t[t.len() - 2]));
        assert(seq![front].drop_last() =~= Seq::<Seq<char>>::empty());
    } else {
        assert(t =~= seq![t.last()]);
        assert(words(front) =~= Seq::<Seq<char>>::empty());
    }
    assert(!is_space(t[t.len() - 1]));
    assert(words(t) =~= seq![t]);
}

/// Numbers below ten are written with one digit, and a further digit goes behind the others.
pub proof fn law_decimal_form(n: nat, d: nat)
    requires
        d < 10,
    ensures
        d == 0 ==> digits(d) == seq!['0'],
        d == 1 ==> digits(d) == seq!['1'],
        d == 2 ==> digits(d) == seq!['2'],
        d == 3 ==> digits(d) == seq!['3'],
        d == 4 ==> digits(d) == seq!['4'],
        d == 5 ==> digits(d) == seq!['5'],
        d == 6 ==> digits(d) == seq!['6'],
        d == 7 ==> digits(d) == seq!['7'],
        d == 8 ==> digits(d) == seq!['8'],
        d == 9 ==> digits(d) == seq!['9'],
        n > 0 ==> digits(n * 10 + d) == digits(n) + digits(d),
{
    if n > 0 {
        assert((n * 10 + d) / 10 == n);
        assert((n * 10 + d) % 10 == d);
        assert(digits(n * 10 + d) =~= digits(n) + digits(d));
    }
}

/// A number in decimal is read as that number, with or without a plus sign, if it fits; zeros before
/// it make no difference.
pub proof fn law_decimal_form_is_read(n: nat, t: Seq<char>)
    ensures
        parsed_u32(digits(n)) == (if n <= u32::MAX {
            Some(n as u32)
        } else {
            None
        }),
        parsed_u32(seq!['+'] + digits(n)) == parsed_u32(digits(n)),
        is_number(t) ==> parsed_u32(seq!['0'] + t) == parsed_u32(t),
{
    lemma_digits(n);
    assert(is_digit(digits(n)[0]));
    assert((seq!['+'] + digits(n)).skip(1) =~= digits(n));
    if is_number(t) {
        let z = seq!['0'] + t;
        lemma_leading_zero(t);
        assert(is_digit(t[0]));
        assert forall|i: int| 0 <= i < z.len() implies is_digit(#[trigger] z[i]) by {
            if i > 0 {
                assert(z[i] == t[i - 1]);
            }
        }
    }
}

proof fn lemma_leading_zero(t: Seq<char>)
    ensures
        value(seq!['0'] + t) == value(t),
    decreases t.len(),
{
    let z = seq!['0'] + t;
    if t.len() == 0 {
        assert(z.drop_last() =~= t);
        assert(value(z.drop_last()) == 0);
    } else {
        assert(z.drop_last() =~= seq!['0'] + t.drop_last());
        lemma_leading_zero(t.drop_last());
    }
}

/// What holds anything but digits, behind a plus sign if there is one, is no number.
pub proof fn law_other_text_is_no_number(t: Seq<char>, i: int)
    requires
        t.len() == 0 || t == seq!['+'] || 0 <= i < t.len() && !('0' <= t[i] <= '9') && (i > 0 || t[0]
            != '+'),
    ensures
        parsed_u32(t) is None,
{
    if t.len() > 0 && t != seq!['+'] {
        let d = unsigned_part(t);
        if t[0] == '+' {
            assert(d[i - 1] == t[i]);
        } else {
            assert(d[i] == t[i]);
        }
    }
}

/// What the searches in a text tell: whether the part can be cut off its beginning, off its end, or
/// out of it.
pub proof fn law_parts_are_told(
    text: &str,
    part: &str,
    begins: bool,
    contains: bool,
    equal: bool,
    chars: &Vec<char>,
    ends: bool,
)
    requires
        call_ensures(begins_with, (text, part), begins),
        call_ensures(contains_text, (text, part), contains),
        call_ensures(same, (text, part), equal),
        call_ensures(ends_with, (chars, part), ends),
    ensures
        begins <==> exists|rest: Seq<char>| text@ == #[trigger] (part@ + rest),
        contains <==> exists|pre: Seq<char>, post: Seq<char>|
            text@ == #[trigger] (pre + part@ + post),
        equal <==> text@ == part@,
        ends <==> exists|pre: Seq<char>| chars@ == #[trigger] (pre + part@),
{
    let none = Seq::<char>::empty();
    let t = text@;
    let p = part@;
    if begins {
        law_part_can_be_cut_out(t, p, 0);
        assert(t =~= p + t.skip(p.len() as int));
    }
    if exists|rest: Seq<char>| t == #[trigger] (p + rest) {
        let rest = choose|rest: Seq<char>| t == #[trigger] (p + rest);
        law_part_stands_where_it_is_put(none, p, rest);
        assert(none + p + rest =~= t);
    }
    if contains {
        let i = choose|i: int| stands_at(t, p, i);
        law_part_can_be_cut_out(t, p, i);
    }
    if exists|pre: Seq<char>, post: Seq<char>| t == #[trigger] (pre + p + post) {
        let (pre, post) = choose|pre: Seq<char>, post: Seq<char>| t == #[trigger] (pre + p + post);
        law_part_stands_where_it_is_put(pre, p, post);
    }
    if ends {
        let i = chars@.len() - p.len();
        law_part_can_be_cut_out(chars@, p, i);
        assert(chars@ =~= chars@.take(i) + p);
    }
    if exists|pre: Seq<char>| chars@ == #[trigger] (pre + p) {
        let pre = choose|pre: Seq<char>| chars@ == #[trigger] (pre + p);
        law_part_stands_where_it_is_put(pre, p, none);
    }
}

/// What the functions on characters, words, rows and numbers give, by the texts themselves.
pub proof fn law_texts_are_taken_apart(
    text: &str,
    inner: String,
    pre: Seq<char>,
    core: Seq<char>,
    post: Seq<char>,
    row: &Vec<char>,
    cols: Vec<Vec<char>>,
    lines: Vec<Vec<char>>,
    number: Option<u32>,
    n: u64,
    written: String,
    c: char,
    yes: bool,
)
    requires
        call_ensures(trim, (text,), inner),
        text@ == pre + core + post,
        forall|i: int| 0 <= i < pre.len() ==> is_space(#[trigger] pre[i]),
        forall|i: int| 0 <= i < post.len() ==> is_space(#[trigger] post[i]),
        core.len() > 0 ==> !is_space(core[0]) && !is_space(core.last()),
        call_ensures(words_of, (row,), cols),
        call_ensures(rows_of, (text,), lines),
        call_ensures(parse_u32, (row,), number),
        call_ensures(decimal, (n,), written),
        call_ensures(contains_char, (text, c), yes),
    ensures
        inner@ == core,
        cols@.len() == words(row@).len(),
        forall|i: int| 0 <= i < cols@.len() ==> (#[trigger] cols@[i])@ == words(row@)[i],
        lines@.len() == rows(text@).len(),
        forall|i: int| 0 <= i < lines@.len() ==> (#[trigger] lines@[i])@ == rows(text@)[i],
        number == parsed_u32(row@),
        written@ == digits(n as nat),
        yes <==> text@.contains(c),
{
    law_trimming_leaves_the_core(pre, core, post);
    assert(contents(cols@).len() == cols@.len());
    assert(contents(lines@).len() == lines@.len());
    assert forall|i: int| 0 <= i < cols@.len() implies (#[trigger] cols@[i])@ == words(row@)[i] by {
        assert(contents(cols@)[i] == cols@[i]@);
    }
    assert forall|i: int| 0 <= i < lines@.len() implies (#[trigger] lines@[i])@ == rows(text@)[i] by {
        assert(contents(lines@)[i] == lines@[i]@);
    }
}

} // verus!
