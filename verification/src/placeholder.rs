//! Placeholders in the arguments of a task's command.
//!
//! A placeholder is written `{{identifier}}`, where the identifier is a non-empty
//! run of Unicode word characters, commas and hyphens. The placeholders of an
//! argument are its leftmost non-overlapping occurrences of that form, read from
//! left to right.
use vstd::prelude::*;

verus! {

/// Whether `regex_syntax` counts the character as a Unicode word character
/// (the class `\w` of the `regex` crate).
pub uninterp spec fn word_character(c: char) -> bool;

/// Calls `regex_syntax::is_word_character`, which tells whether a character is a
/// Unicode word character: one in the `Alphabetic` or `Join_Control` property, or
/// in the `Decimal_Number`, `Mark` or `Connector_Punctuation` general category.
/// The contract claims that the answer is `word_character(c)`, and that an ASCII
/// character is a word character exactly when it is an ASCII letter, an ASCII digit
/// or `_` (below 128 the crate's table holds just these). It panics only when the
/// crate is built without its `unicode-perl` feature, which Cargo.toml enables.
#[verifier::external_body]
fn is_word_character(c: char) -> (b: bool)
    ensures
        b == word_character(c),
        c <= '\u{7f}' ==> (b <==> ('a' <= c <= 'z' || 'A' <= c <= 'Z' || '0' <= c <= '9' || c
            == '_')),
{
    regex_syntax::is_word_character(c)
}

/// A character that may stand in the identifier of a placeholder.
pub open spec fn is_identifier_char(c: char) -> bool {
    word_character(c) || c == ',' || c == '-'
}

/// Tells whether a character may stand in the identifier of a placeholder: a
/// Unicode word character, a comma or a hyphen. Among ASCII characters these are
/// exactly the letters, the digits, `_`, `,` and `-`.
pub fn identifier_character(c: char) -> (b: bool)
    ensures
        b == is_identifier_char(c),
        c <= '\u{7f}' ==> (word_character(c) <==> ('a' <= c <= 'z' || 'A' <= c <= 'Z' || '0' <= c
            <= '9' || c == '_')),
        c <= '\u{7f}' ==> (b <==> ('a' <= c <= 'z' || 'A' <= c <= 'Z' || '0' <= c <= '9' || c
            == '_' || c == ',' || c == '-')),
{
    is_word_character(c) || c == ',' || c == '-'
}

/// The end of the run of identifier characters that starts at `i`.
pub open spec fn run_end(s: Seq<char>, i: int) -> int
    decreases s.len() - i,
{
    if 0 <= i < s.len() && is_identifier_char(s[i]) {
        run_end(s, i + 1)
    } else {
        i
    }
}

proof fn lemma_run_end(s: Seq<char>, i: int)
    requires
        0 <= i,
    ensures
        i <= run_end(s, i),
        run_end(s, i) <= s.len() || run_end(s, i) == i,
        forall|j: int| i <= j < run_end(s, i) ==> is_identifier_char(#[trigger] s[j]),
        run_end(s, i) < s.len() ==> !is_identifier_char(s[run_end(s, i)]),
    decreases s.len() - i,
{
    if 0 <= i < s.len() && is_identifier_char(s[i]) {
        lemma_run_end(s, i + 1);
    }
}

/// A placeholder starts at `p`: two opening braces, a non-empty identifier and two
/// closing braces.
pub open spec fn placeholder_at(s: Seq<char>, p: int) -> bool {
    let e = run_end(s, p + 2);
    &&& 0 <= p
    &&& p + 1 < s.len()
    &&& s[p] == '{'
    &&& s[p + 1] == '{'
    &&& e > p + 2
    &&& e + 1 < s.len()
    &&& s[e] == '}'
    &&& s[e + 1] == '}'
}

/// The identifiers of the placeholders that start at `p` or later.
pub open spec fn placeholders_from(s: Seq<char>, p: int) -> Seq<Seq<char>>
    decreases s.len() - p,
{
    if p < 0 || p >= s.len() {
        Seq::empty()
    } else if placeholder_at(s, p) {
        let e = run_end(s, p + 2);
        seq![s.subrange(p + 2, e)] + placeholders_from(s, e + 2)
    } else {
        placeholders_from(s, p + 1)
    }
}

/// The identifiers of the placeholders of an argument, from left to right.
pub open spec fn placeholders(s: Seq<char>) -> Seq<Seq<char>> {
    placeholders_from(s, 0)
}

/// The run of identifier characters that starts at `i` ends at `e` when every
/// character from `i` up to `e` is one and the character at `e`, if any, is not.
proof fn lemma_run_end_at(s: Seq<char>, i: int, e: int)
    requires
        0 <= i <= e <= s.len(),
        forall|j: int| i <= j < e ==> is_identifier_char(#[trigger] s[j]),
        e < s.len() ==> !is_identifier_char(s[e]),
    ensures
        run_end(s, i) == e,
    decreases e - i,
{
    if i < e {
        lemma_run_end_at(s, i + 1, e);
    }
}

/// Dropping the first `k` characters moves the end of a run by `k`.
proof fn lemma_run_end_skip(s: Seq<char>, k: int, i: int)
    requires
        0 <= k <= i,
        k <= s.len(),
    ensures
        run_end(s, i) == run_end(s.skip(k), i - k) + k,
    decreases s.len() - i,
{
    if i < s.len() {
        assert(s.skip(k)[i - k] == s[i]);
    }
    if 0 <= i < s.len() && is_identifier_char(s[i]) {
        lemma_run_end_skip(s, k, i + 1);
    }
}

/// The placeholders from a position on do not depend on the characters before it.
proof fn lemma_placeholders_from_skip(s: Seq<char>, k: int, p: int)
    requires
        0 <= k <= p,
        k <= s.len(),
    ensures
        placeholders_from(s, p) == placeholders_from(s.skip(k), p - k),
    decreases s.len() - p,
{
    let t = s.skip(k);
    if p < s.len() {
        lemma_run_end(s, p + 2);
        lemma_run_end_skip(s, k, p + 2);
        let e = run_end(s, p + 2);
        assert(t[p - k] == s[p]);
        if p + 1 < s.len() {
            assert(t[p + 1 - k] == s[p + 1]);
        }
        if e + 1 < s.len() {
            assert(t[e - k] == s[e]);
            assert(t[e + 1 - k] == s[e + 1]);
        }
        assert(placeholder_at(s, p) == placeholder_at(t, p - k));
        if placeholder_at(s, p) {
            assert(s.subrange(p + 2, e) =~= t.subrange(p + 2 - k, e - k));
            lemma_placeholders_from_skip(s, k, e + 2);
        } else {
            lemma_placeholders_from_skip(s, k, p + 1);
        }
    }
}

/// Text without an opening brace holds no placeholder start.
proof fn lemma_placeholders_from_no_brace(s: Seq<char>, p: int, k: int)
    requires
        0 <= p <= k <= s.len(),
        forall|j: int| p <= j < k ==> s[j] != '{',
    ensures
        placeholders_from(s, p) == placeholders_from(s, k),
    decreases k - p,
{
    if p < k {
        assert(s[p] != '{');
        lemma_placeholders_from_no_brace(s, p + 1, k);
    }
}

/// A placeholder is found wherever it stands and whatever the length of its
/// identifier: an argument made of text without an opening brace, then `{{`, a
/// non-empty run `x` of identifier characters and `}}`, then any text `b`, has `x`
/// as its first placeholder, followed by the placeholders of `b`. (`}` is no
/// identifier character, as `identifier_character` reports.)
pub proof fn lemma_placeholder_found(a: Seq<char>, x: Seq<char>, b: Seq<char>)
    requires
        forall|i: int| 0 <= i < a.len() ==> a[i] != '{',
        x.len() > 0,
        forall|i: int| 0 <= i < x.len() ==> is_identifier_char(#[trigger] x[i]),
        !is_identifier_char('}'),
    ensures
        placeholders(a + seq!['{', '{'] + x + seq!['}', '}'] + b) == seq![x] + placeholders(b),
{
    let s = a + seq!['{', '{'] + x + seq!['}', '}'] + b;
    let n = a.len() as int;
    let m = x.len() as int;
    let e = n + 2 + m;
    assert forall|j: int| 0 <= j < n implies s[j] == a[j] by {}
    assert(s[n] == '{');
    assert(s[n + 1] == '{');
    assert forall|j: int| n + 2 <= j < e implies s[j] == x[j - n - 2] by {}
    assert(s[e] == '}');
    assert(s[e + 1] == '}');
    assert(s.skip(e + 2) =~= b);
    lemma_placeholders_from_no_brace(s, 0, n);
    assert forall|j: int| n + 2 <= j < e implies is_identifier_char(#[trigger] s[j]) by {
        assert(is_identifier_char(x[j - n - 2]));
    }
    lemma_run_end_at(s, n + 2, e);
    assert(placeholder_at(s, n));
    assert(s.subrange(n + 2, e) =~= x);
    lemma_placeholders_from_skip(s, e + 2, e + 2);
    assert(placeholders_from(s, n) == seq![x] + placeholders_from(s, e + 2));
}

/// The text of `s` at `q` is the placeholder `{{id}}`.
pub open spec fn braced_at(s: Seq<char>, q: int, id: Seq<char>) -> bool {
    &&& 0 <= q
    &&& q + id.len() + 4 <= s.len()
    &&& s.subrange(q, q + id.len() + 4) == seq!['{', '{'] + id + seq!['}', '}']
}

proof fn lemma_placeholders_from_sound(s: Seq<char>, p: int)
    requires
        0 <= p,
    ensures
        forall|k: int|
            0 <= k < placeholders_from(s, p).len() ==> {
                let id = #[trigger] placeholders_from(s, p)[k];
                &&& id.len() > 0
                &&& forall|j: int| 0 <= j < id.len() ==> is_identifier_char(#[trigger] id[j])
                &&& exists|q: int| p <= q && #[trigger] braced_at(s, q, id)
            },
    decreases s.len() - p,
{
    if p < s.len() {
        if placeholder_at(s, p) {
            lemma_run_end(s, p + 2);
            let e = run_end(s, p + 2);
            let id = s.subrange(p + 2, e);
            lemma_placeholders_from_sound(s, e + 2);
            let rest = placeholders_from(s, e + 2);
            assert(s.subrange(p, e + 2) =~= seq!['{', '{'] + id + seq!['}', '}']);
            assert(braced_at(s, p, id));
            assert forall|k: int| 0 <= k < placeholders_from(s, p).len() implies {
                let id = #[trigger] placeholders_from(s, p)[k];
                &&& id.len() > 0
                &&& forall|j: int| 0 <= j < id.len() ==> is_identifier_char(#[trigger] id[j])
                &&& exists|q: int| p <= q && #[trigger] braced_at(s, q, id)
            } by {
                if k == 0 {
                    assert(placeholders_from(s, p)[k] == id);
                    assert forall|j: int| 0 <= j < id.len() implies is_identifier_char(
                        #[trigger] id[j],
                    ) by {
                        assert(id[j] == s[p + 2 + j]);
                    }
                } else {
                    assert(placeholders_from(s, p)[k] == rest[k - 1]);
                    let q = choose|q: int| e + 2 <= q && #[trigger] braced_at(s, q, rest[k - 1]);
                    assert(braced_at(s, q, rest[k - 1]));
                }
            }
        } else {
            lemma_placeholders_from_sound(s, p + 1);
            assert forall|k: int| 0 <= k < placeholders_from(s, p).len() implies {
                let id = #[trigger] placeholders_from(s, p)[k];
                &&& id.len() > 0
                &&& forall|j: int| 0 <= j < id.len() ==> is_identifier_char(#[trigger] id[j])
                &&& exists|q: int| p <= q && #[trigger] braced_at(s, q, id)
            } by {
                let id = placeholders_from(s, p + 1)[k];
                let q = choose|q: int| p + 1 <= q && #[trigger] braced_at(s, q, id);
                assert(braced_at(s, q, id));
            }
        }
    }
}

/// Every placeholder of an argument is a non-empty run of identifier characters
/// that stands in the argument between `{{` and `}}`.
pub proof fn lemma_placeholders_sound(s: Seq<char>)
    ensures
        forall|k: int|
            0 <= k < placeholders(s).len() ==> {
                let id = #[trigger] placeholders(s)[k];
                &&& id.len() > 0
                &&& forall|j: int| 0 <= j < id.len() ==> is_identifier_char(#[trigger] id[j])
                &&& exists|q: int| #[trigger] braced_at(s, q, id)
            },
{
    lemma_placeholders_from_sound(s, 0);
}

/// Returns the characters of a string.
fn chars_of(s: &str) -> (cs: Vec<char>)
    ensures
        cs@ == s@,
{
    let mut cs: Vec<char> = Vec::new();
    for c in it: s.chars()
        invariant
            it.seq() == s@,
            cs@ == s@.take(it.index() as int),
    {
        cs.push(c);
    }
    cs
}

/// Returns the identifiers of the placeholders in `arg`, from left to right.
pub fn placeholder_identifiers(arg: &str) -> (ids: Vec<String>)
    ensures
        ids.deep_view() == placeholders(arg@),
{
    let cs = chars_of(arg);
    let n = cs.len();
    let ghost s = arg@;
    let mut ids: Vec<String> = Vec::new();
    let mut p: usize = 0;
    assert(ids.deep_view() =~= Seq::<Seq<char>>::empty());
    while p < n
        invariant
            cs@ == s,
            s == arg@,
            n == s.len(),
            p <= n,
            placeholders(s) == ids.deep_view() + placeholders_from(s, p as int),
        decreases n - p,
    {
        let mut found = false;
        if p + 1 < n && cs[p] == '{' && cs[p + 1] == '{' {
            let mut e: usize = p + 2;
            proof {
                lemma_run_end(s, p + 2);
            }
            while e < n && identifier_character(cs[e])
                invariant
                    cs@ == s,
                    n == s.len(),
                    p + 2 <= e <= n,
                    run_end(s, e as int) == run_end(s, p + 2),
                decreases n - e,
            {
                e = e + 1;
            }
            assert(run_end(s, e as int) == e);
            if e > p + 2 && n - e > 1 && cs[e] == '}' && cs[e + 1] == '}' {
                assert(placeholder_at(s, p as int));
                let id = String::from_str(arg.substring_char(p + 2, e));
                let ghost before = ids.deep_view();
                let ghost old_ids = ids@;
                assert(id@ == s.subrange(p + 2, e as int));
                ids.push(id);
                assert(ids@ == old_ids.push(id));
                assert(ids.deep_view() =~= before.push(s.subrange(p + 2, e as int)));
                assert(placeholders_from(s, p as int) == seq![s.subrange(p + 2, e as int)]
                    + placeholders_from(s, e + 2));
                assert(before + placeholders_from(s, p as int) =~= before.push(
                    s.subrange(p + 2, e as int),
                ) + placeholders_from(s, e + 2));
                p = e + 2;
                found = true;
            } else {
                assert(!placeholder_at(s, p as int));
            }
        }
        if !found {
            assert(!placeholder_at(s, p as int));
            assert(placeholders_from(s, p as int) == placeholders_from(s, p + 1));
            p = p + 1;
        }
    }
    assert(placeholders_from(s, p as int) =~= Seq::<Seq<char>>::empty());
    assert(ids.deep_view() + Seq::<Seq<char>>::empty() =~= ids.deep_view());
    ids
}

} // verus!
