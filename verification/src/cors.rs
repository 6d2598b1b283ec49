//! The list of origins allowed to make cross-origin requests, read from a
//! comma-separated configuration value such as
//! `"https://talos.example.com,http://10.1.11.50:3000"`.

use crate::text::push_char;
use vstd::prelude::*;

verus! {

/// Whether `c` has the Unicode White_Space property (what
/// `char::is_whitespace` tests, and so what `str::trim` removes).
pub open spec fn is_unicode_whitespace(c: char) -> bool {
    ||| ('\t' <= c && c <= '\r')
    ||| c == ' '
    ||| c == '\u{85}'
    ||| c == '\u{a0}'
    ||| c == '\u{1680}'
    ||| ('\u{2000}' <= c && c <= '\u{200a}')
    ||| c == '\u{2028}'
    ||| c == '\u{2029}'
    ||| c == '\u{202f}'
    ||| c == '\u{205f}'
    ||| c == '\u{3000}'
}

fn is_whitespace(c: char) -> (ws: bool)
    ensures
        ws == is_unicode_whitespace(c),
{
    ('\t' <= c && c <= '\r') || c == ' ' || c == '\u{85}' || c == '\u{a0}' || c == '\u{1680}' || (
    '\u{2000}' <= c && c <= '\u{200a}') || c == '\u{2028}' || c == '\u{2029}' || c == '\u{202f}'
        || c == '\u{205f}' || c == '\u{3000}'
}

/// `s` without its leading whitespace.
pub open spec fn trim_start(s: Seq<char>) -> Seq<char>
    decreases s.len(),
{
    if s.len() > 0 && is_unicode_whitespace(s[0]) {
        trim_start(s.drop_first())
    } else {
        s
    }
}

/// `s` without its trailing whitespace.
pub open spec fn trim_end(s: Seq<char>) -> Seq<char>
    decreases s.len(),
{
    if s.len() > 0 && is_unicode_whitespace(s.last()) {
        trim_end(s.drop_last())
    } else {
        s
    }
}

/// `s` without leading and trailing whitespace (as `str::trim` gives it).
pub open spec fn trim(s: Seq<char>) -> Seq<char> {
    trim_end(trim_start(s))
}

/// The pieces of `s` between commas (as `str::split(',')` gives them): one
/// more piece than there are commas.
pub open spec fn split_commas(s: Seq<char>) -> Seq<Seq<char>>
    decreases s.len(),
{
    if s.len() == 0 {
        seq![Seq::empty()]
    } else {
        let parts = split_commas(s.drop_last());
        if s.last() == ',' {
            parts.push(Seq::empty())
        } else {
            parts.update(parts.len() - 1, parts.last().push(s.last()))
        }
    }
}

/// The trimmed pieces that are not empty, in order.
pub open spec fn nonempty_trimmed(parts: Seq<Seq<char>>) -> Seq<Seq<char>>
    decreases parts.len(),
{
    if parts.len() == 0 {
        Seq::empty()
    } else {
        let rest = nonempty_trimmed(parts.drop_last());
        if trim(parts.last()).len() > 0 {
            rest.push(trim(parts.last()))
        } else {
            rest
        }
    }
}

/// The origins a configuration value lists.
pub open spec fn origins_of(value: Seq<char>) -> Seq<Seq<char>> {
    nonempty_trimmed(split_commas(value))
}

proof fn lemma_split_has_no_commas(s: Seq<char>)
    ensures
        forall|i: int, j: int|
            0 <= i < split_commas(s).len() && 0 <= j < split_commas(s)[i].len()
                ==> #[trigger] split_commas(s)[i][j] != ',',
    decreases s.len(),
{
    if s.len() > 0 {
        lemma_split_has_no_commas(s.drop_last());
        lemma_split_nonempty(s.drop_last());
        let parts = split_commas(s.drop_last());
        if s.last() != ',' {
            let last = parts.last().push(s.last());
            assert forall|i: int, j: int|
                0 <= i < split_commas(s).len() && 0 <= j < split_commas(s)[i].len()
                    implies #[trigger] split_commas(s)[i][j] != ',' by {
                if i == parts.len() - 1 {
                    assert(split_commas(s)[i] == last);
                    if j < parts.last().len() {
                        assert(last[j] == parts[i][j]);
                    }
                } else {
                    assert(split_commas(s)[i] == parts[i]);
                }
            }
        } else {
            assert forall|i: int, j: int|
                0 <= i < split_commas(s).len() && 0 <= j < split_commas(s)[i].len()
                    implies #[trigger] split_commas(s)[i][j] != ',' by {
                if i < parts.len() {
                    assert(split_commas(s)[i] == parts[i]);
                }
            }
        }
    }
}

proof fn lemma_trim_start(s: Seq<char>)
    ensures
        trim_start(s) =~= s.skip(s.len() - trim_start(s).len()),
        trim_start(s).len() <= s.len(),
        trim_start(s).len() > 0 ==> !is_unicode_whitespace(trim_start(s)[0]),
    decreases s.len(),
{
    if s.len() > 0 && is_unicode_whitespace(s[0]) {
        lemma_trim_start(s.drop_first());
        assert(s.drop_first().skip(s.drop_first().len() - trim_start(s).len()) =~= s.skip(
            s.len() - trim_start(s).len(),
        ));
    }
}

proof fn lemma_trim_end(s: Seq<char>)
    ensures
        trim_end(s) =~= s.take(trim_end(s).len() as int),
        trim_end(s).len() <= s.len(),
        trim_end(s).len() > 0 ==> !is_unicode_whitespace(trim_end(s).last()),
    decreases s.len(),
{
    if s.len() > 0 && is_unicode_whitespace(s.last()) {
        lemma_trim_end(s.drop_last());
        assert(s.drop_last().take(trim_end(s).len() as int) =~= s.take(trim_end(s).len() as int));
    }
}

/// Whether `o` is a clean origin: not empty, no comma, and no whitespace at
/// either end.
pub open spec fn clean_origin(o: Seq<char>) -> bool {
    &&& o.len() > 0
    &&& forall|j: int| 0 <= j < o.len() ==> #[trigger] o[j] != ','
    &&& !is_unicode_whitespace(o[0])
    &&& !is_unicode_whitespace(o.last())
}

proof fn lemma_trimmed_clean(p: Seq<char>)
    requires
        forall|j: int| 0 <= j < p.len() ==> #[trigger] p[j] != ',',
        trim(p).len() > 0,
    ensures
        clean_origin(trim(p)),
{
    let t = trim_start(p);
    lemma_trim_start(p);
    lemma_trim_end(t);
    let o = trim_end(t);
    assert(o[0] == t[0]);
    assert forall|j: int| 0 <= j < o.len() implies #[trigger] o[j] != ',' by {
        assert(o[j] == t[j]);
        assert(t[j] == p[p.len() - t.len() + j]);
    }
}

proof fn lemma_nonempty_trimmed_clean(parts: Seq<Seq<char>>)
    requires
        forall|i: int, j: int|
            0 <= i < parts.len() && 0 <= j < parts[i].len() ==> #[trigger] parts[i][j] != ',',
    ensures
        forall|i: int|
            0 <= i < nonempty_trimmed(parts).len() ==> #[trigger] clean_origin(
                nonempty_trimmed(parts)[i],
            ),
    decreases parts.len(),
{
    if parts.len() > 0 {
        let shorter = parts.drop_last();
        assert forall|i: int, j: int|
            0 <= i < shorter.len() && 0 <= j < shorter[i].len() implies #[trigger] shorter[i][j]
            != ',' by {
            assert(shorter[i] == parts[i]);
        }
        lemma_nonempty_trimmed_clean(shorter);
        let last = parts[parts.len() - 1];
        if trim(last).len() > 0 {
            assert forall|j: int| 0 <= j < last.len() implies #[trigger] last[j] != ',' by {
                assert(parts[parts.len() - 1][j] != ',');
            }
            lemma_trimmed_clean(last);
        }
        let rest = nonempty_trimmed(shorter);
        assert forall|i: int| 0 <= i < nonempty_trimmed(parts).len() implies #[trigger] clean_origin(
            nonempty_trimmed(parts)[i],
        ) by {
            if i < rest.len() {
                assert(nonempty_trimmed(parts)[i] == rest[i]);
            } else {
                assert(nonempty_trimmed(parts)[i] == trim(last));
            }
        }
    }
}

/// Every origin read from the configuration is clean: not empty, with no
/// comma in it, and trimmed of whitespace at both ends.
pub proof fn law_listed_origins_are_clean(value: Seq<char>)
    ensures
        forall|i: int| 0 <= i < origins_of(value).len() ==> #[trigger] clean_origin(origins_of(value)[i]),
{
    lemma_split_has_no_commas(value);
    lemma_nonempty_trimmed_clean(split_commas(value));
}

/// Whether a character may appear in an HTTP header value: visible ASCII,
/// space, tab, or any non-ASCII character (whose UTF-8 bytes are all at
/// least 0x80).
pub open spec fn is_header_value_char(c: char) -> bool {
    c == '\t' || (c >= ' ' && c != '\u{7f}')
}

/// Whether `s` is a valid HTTP header value.
pub open spec fn header_value_valid(s: Seq<char>) -> bool {
    forall|i: int| 0 <= i < s.len() ==> #[trigger] is_header_value_char(s[i])
}

/// Header values take tab, every visible ASCII character and space, and
/// non-ASCII text; they refuse the other control characters (a newline
/// among them) and DEL.
pub proof fn law_header_value_characters(c: char)
    ensures
        (' ' <= c && c <= '~') ==> is_header_value_char(c),
        c == '\t' ==> is_header_value_char(c),
        c >= '\u{80}' ==> is_header_value_char(c),
        (c < ' ' && c != '\t') ==> !is_header_value_char(c),
        c == '\u{7f}' ==> !is_header_value_char(c),
{
}

/// The first origin, in order, that is not a valid header value.
pub open spec fn first_invalid(origins: Seq<Seq<char>>) -> Option<Seq<char>>
    decreases origins.len(),
{
    if origins.len() == 0 {
        None
    } else {
        match first_invalid(origins.drop_last()) {
            Some(bad) => Some(bad),
            None => if header_value_valid(origins.last()) {
                None
            } else {
                Some(origins.last())
            },
        }
    }
}

/// `axum::http::HeaderValue::from_str`, reduced to whether it accepts the
/// text: the http crate accepts exactly the strings whose bytes are all tab
/// or at least 32 and not 127.
#[verifier::external_body]
fn header_value_accepts(s: &str) -> (ok: bool)
    ensures
        ok == header_value_valid(s@),
{
    axum::http::HeaderValue::from_str(s).is_ok()
}

proof fn lemma_split_nonempty(s: Seq<char>)
    ensures
        split_commas(s).len() >= 1,
    decreases s.len(),
{
    if s.len() > 0 {
        lemma_split_nonempty(s.drop_last());
    }
}

proof fn lemma_trim_start_at(s: Seq<char>, a: int)
    requires
        0 <= a <= s.len(),
        forall|j: int| 0 <= j < a ==> #[trigger] is_unicode_whitespace(s[j]),
        a == s.len() || !is_unicode_whitespace(s[a]),
    ensures
        trim_start(s) == s.skip(a),
    decreases a,
{
    if a == 0 {
        assert(s.skip(0) =~= s);
    } else {
        assert forall|j: int| 0 <= j < a - 1 implies #[trigger] is_unicode_whitespace(
            s.drop_first()[j],
        ) by {
            assert(s.drop_first()[j] == s[j + 1]);
        }
        lemma_trim_start_at(s.drop_first(), a - 1);
        assert(s.drop_first().skip(a - 1) =~= s.skip(a));
    }
}

proof fn lemma_trim_end_at(s: Seq<char>, b: int)
    requires
        0 <= b <= s.len(),
        forall|j: int| b <= j < s.len() ==> #[trigger] is_unicode_whitespace(s[j]),
        b == 0 || !is_unicode_whitespace(s[b - 1]),
    ensures
        trim_end(s) == s.take(b),
    decreases s.len() - b,
{
    if b == s.len() {
        assert(s.take(b) =~= s);
    } else {
        lemma_trim_end_at(s.drop_last(), b);
        assert(s.drop_last().take(b) =~= s.take(b));
    }
}

/// Trims a piece, as `str::trim` does.
fn trim_piece(s: &String) -> (t: String)
    ensures
        t@ == trim(s@),
{
    let text = s.as_str();
    let n = text.unicode_len();
    let mut a: usize = 0;
    while a < n && is_whitespace(text.get_char(a))
        invariant
            n == s@.len(),
            text@ == s@,
            a <= n,
            forall|j: int| 0 <= j < a ==> #[trigger] is_unicode_whitespace(s@[j]),
        decreases n - a,
    {
        a += 1;
    }
    let mut b: usize = n;
    while b > a && is_whitespace(text.get_char(b - 1))
        invariant
            n == s@.len(),
            text@ == s@,
            a <= b <= n,
            forall|j: int| b <= j < n ==> #[trigger] is_unicode_whitespace(s@[j]),
        decreases b,
    {
        b -= 1;
    }
    let mut out = String::new();
    let mut k: usize = a;
    while k < b
        invariant
            text@ == s@,
            a <= k <= b,
            b <= n,
            n == s@.len(),
            out@ == s@.subrange(a as int, k as int),
        decreases b - k,
    {
        push_char(&mut out, text.get_char(k));
        assert(s@.subrange(a as int, k + 1) =~= s@.subrange(a as int, k as int).push(s@[k as int]));
        k += 1;
    }
    proof {
        lemma_trim_start_at(s@, a as int);
        let rest = s@.skip(a as int);
        assert forall|j: int| b - a <= j < rest.len() implies #[trigger] is_unicode_whitespace(
            rest[j],
        ) by {
            assert(rest[j] == s@[j + a]);
        }
        if b > a {
            assert(rest[b - a - 1] == s@[b - 1]);
        }
        lemma_trim_end_at(rest, b - a);
        assert(rest.take(b - a) =~= s@.subrange(a as int, b as int));
    }
    out
}

/// The trimmed, non-empty pieces of a comma-separated value, in order.
fn split_origins(value: &str) -> (origins: Vec<String>)
    ensures
        origins@.map_values(|o: String| o@) == origins_of(value@),
{
    let n = value.unicode_len();
    let mut out: Vec<String> = Vec::new();
    let mut piece = String::new();
    let ghost mut done: Seq<Seq<char>> = Seq::empty();
    let mut i: usize = 0;
    while i < n
        invariant
            n == value@.len(),
            i <= n,
            split_commas(value@.take(i as int)) == done.push(piece@),
            out@.map_values(|o: String| o@) == nonempty_trimmed(done),
        decreases n - i,
    {
        let c = value.get_char(i);
        assert(value@.take(i + 1).drop_last() =~= value@.take(i as int));
        if c == ',' {
            let t = trim_piece(&piece);
            let ghost old_done = done;
            proof {
                done = done.push(piece@);
                assert(done.drop_last() =~= old_done);
            }
            if t.as_str().unicode_len() > 0 {
                let ghost prev = out@;
                out.push(t);
                assert(out@.map_values(|o: String| o@) =~= prev.map_values(|o: String| o@).push(
                    trim(done.last()),
                ));
            }
            piece = String::new();
            assert(done.push(piece@) =~= old_done.push(done.last()).push(Seq::empty()));
        } else {
            let ghost old_piece = piece@;
            push_char(&mut piece, c);
            assert(done.push(piece@) =~= done.push(old_piece).update(
                done.len() as int,
                old_piece.push(c),
            ));
        }
        i += 1;
    }
    assert(value@.take(n as int) =~= value@);
    let t = trim_piece(&piece);
    let ghost last_done = done;
    proof {
        done = done.push(piece@);
        assert(done.drop_last() =~= last_done);
    }
    if t.as_str().unicode_len() > 0 {
        let ghost prev = out@;
        out.push(t);
        assert(out@.map_values(|o: String| o@) =~= prev.map_values(|o: String| o@).push(
            trim(done.last()),
        ));
    }
    out
}

proof fn lemma_first_invalid_prefix(xs: Seq<Seq<char>>, k: int)
    requires
        0 <= k <= xs.len(),
        first_invalid(xs.take(k)) is Some,
    ensures
        first_invalid(xs) == first_invalid(xs.take(k)),
    decreases xs.len() - k,
{
    if k < xs.len() {
        assert(xs.take(k + 1).drop_last() =~= xs.take(k));
        lemma_first_invalid_prefix(xs, k + 1);
    } else {
        assert(xs.take(k) =~= xs);
    }
}

/// Reads the allowed origins from a comma-separated value: each piece is
/// trimmed and empty pieces are skipped. Every origin must be a valid
/// header value; otherwise the first one that is not is the error.
pub fn parse_allowed_origins(value: &str) -> (origins: Result<Vec<String>, String>)
    ensures
        match origins {
            Ok(list) => first_invalid(origins_of(value@)) is None && list@.map_values(
                |o: String| o@,
            ) == origins_of(value@),
            Err(bad) => first_invalid(origins_of(value@)) == Some(bad@),
        },
{
    let list = split_origins(value);
    let ghost views = list@.map_values(|o: String| o@);
    let n = list.len();
    let mut i: usize = 0;
    assert(views.take(0) =~= Seq::<Seq<char>>::empty());
    while i < n
        invariant
            n == list@.len(),
            views == list@.map_values(|o: String| o@),
            views == origins_of(value@),
            i <= n,
            first_invalid(views.take(i as int)) is None,
        decreases n - i,
    {
        assert(views.take(i + 1).drop_last() =~= views.take(i as int));
        assert(views[i as int] == list@[i as int]@);
        if !header_value_accepts(list[i].as_str()) {
            proof {
                assert(views.take(i + 1).last() == views[i as int]);
                assert(!header_value_valid(views[i as int]));
                assert(first_invalid(views.take(i + 1)) == Some(views[i as int]));
                lemma_first_invalid_prefix(views, i + 1);
            }
            return Err(String::from_str(list[i].as_str()));
        }
        i += 1;
    }
    assert(views.take(n as int) =~= views);
    Ok(list)
}

} // verus!
