//! Rendering of execution-string templates.
//!
//! A template is ordinary text with placeholders of the form `{{key}}`: two
//! opening braces, a run of characters other than `}`, and two closing braces.
//! Rendering replaces each placeholder with the value bound to its key in a
//! replacement list; a key with no binding renders as the empty string.
//! Bindings later in the list shadow earlier ones with the same key
//! (last write wins).

use vstd::prelude::*;
use vstd::string::StrSliceExecFns;

verus! {

/// Relies on `String::push`: appends the given character to the end of the string.
pub assume_specification[ String::push ](s: &mut String, ch: char)
    ensures
        final(s)@ == old(s)@.push(ch),
;

/// The characters of a string slice, as a vector.
pub fn str_chars(s: &str) -> (r: Vec<char>)
    ensures
        r@ == s@,
{
    let n: usize = s.unicode_len();
    let mut r: Vec<char> = Vec::new();
    let mut i: usize = 0;
    while i < n
        invariant
            i <= n,
            n == s@.len(),
            r@ == s@.subrange(0, i as int),
        decreases n - i,
    {
        let c = s.get_char(i);
        r.push(c);
        i = i + 1;
        proof {
            assert(r@ =~= s@.subrange(0, i as int));
        }
    }
    proof {
        assert(r@ =~= s@);
    }
    r
}

/// The string holding exactly the given characters.
pub fn chars_string(cs: &Vec<char>) -> (r: String)
    ensures
        r@ == cs@,
{
    let mut r = String::new();
    let mut i: usize = 0;
    while i < cs.len()
        invariant
            i <= cs.len(),
            r@ == cs@.subrange(0, i as int),
        decreases cs.len() - i,
    {
        r.push(cs[i]);
        i = i + 1;
        proof {
            assert(r@ =~= cs@.subrange(0, i as int));
        }
    }
    proof {
        assert(r@ =~= cs@);
    }
    r
}

/// The value bound to `key`, taking the latest binding when a key occurs
/// more than once (last write wins).
pub open spec fn rep_lookup(reps: Seq<(Seq<char>, Seq<char>)>, key: Seq<char>) -> Option<
    Seq<char>,
>
    decreases reps.len(),
{
    if reps.len() == 0 {
        None
    } else if reps.last().0 == key {
        Some(reps.last().1)
    } else {
        rep_lookup(reps.drop_last(), key)
    }
}

/// The least index at or after `from` holding `'}'`, if any.
pub open spec fn first_rbrace_from(t: Seq<char>, from: int) -> Option<int>
    decreases t.len() - from
    when 0 <= from
{
    if from >= t.len() {
        None
    } else if t[from] == '}' {
        Some(from)
    } else {
        first_rbrace_from(t, from + 1)
    }
}

pub proof fn lemma_first_rbrace_from(t: Seq<char>, from: int)
    requires
        0 <= from,
    ensures
        match first_rbrace_from(t, from) {
            Some(j) => from <= j < t.len() && t[j] == '}' && (forall|k: int|
                from <= k < j ==> t[k] != '}'),
            None => forall|k: int| from <= k < t.len() ==> t[k] != '}',
        },
    decreases t.len() - from,
{
    if from >= t.len() {
    } else if t[from] == '}' {
    } else {
        lemma_first_rbrace_from(t, from + 1);
    }
}

/// Whether a placeholder opens at position `i`: `{{`, a run of characters
/// other than `}`, then `}}`.
pub open spec fn placeholder_at(t: Seq<char>, i: int) -> bool {
    &&& i + 1 < t.len()
    &&& t[i] == '{'
    &&& t[i + 1] == '{'
    &&& match first_rbrace_from(t, i + 2) {
        Some(j) => j + 1 < t.len() && t[j + 1] == '}',
        None => false,
    }
}

/// The rendering of the template text from position `i` on: each placeholder
/// becomes the value bound to its key (empty if the key is unbound), every
/// other character is copied unchanged.
pub open spec fn render_from(t: Seq<char>, i: int, reps: Seq<(Seq<char>, Seq<char>)>) -> Seq<
    char,
>
    decreases t.len() - i
    when 0 <= i
    via render_from_decreases
{
    if i >= t.len() {
        Seq::empty()
    } else if placeholder_at(t, i) {
        match first_rbrace_from(t, i + 2) {
            Some(j) => {
                let key = t.subrange(i + 2, j);
                let val = match rep_lookup(reps, key) {
                    Some(v) => v,
                    None => Seq::empty(),
                };
                val + render_from(t, j + 2, reps)
            },
            None => Seq::empty(),
        }
    } else {
        seq![t[i]] + render_from(t, i + 1, reps)
    }
}

#[via_fn]
proof fn render_from_decreases(t: Seq<char>, i: int, reps: Seq<(Seq<char>, Seq<char>)>) {
    if 0 <= i < t.len() && placeholder_at(t, i) {
        lemma_first_rbrace_from(t, i + 2);
    }
}

/// The full rendering of a template.
pub open spec fn render_spec(t: Seq<char>, reps: Seq<(Seq<char>, Seq<char>)>) -> Seq<char> {
    render_from(t, 0, reps)
}

/// Law: in a concatenated replacement list, a binding in the later part
/// decides the lookup; the earlier part is consulted only for keys the later
/// part does not bind.
pub proof fn lemma_last_write_wins(
    a: Seq<(Seq<char>, Seq<char>)>,
    b: Seq<(Seq<char>, Seq<char>)>,
    key: Seq<char>,
)
    ensures
        rep_lookup(a + b, key) == if rep_lookup(b, key) is Some {
            rep_lookup(b, key)
        } else {
            rep_lookup(a, key)
        },
    decreases b.len(),
{
    if b.len() == 0 {
        assert(a + b =~= a);
    } else {
        assert((a + b).last() == b.last());
        if b.last().0 == key {
        } else {
            assert((a + b).drop_last() =~= a + b.drop_last());
            lemma_last_write_wins(a, b.drop_last(), key);
        }
    }
}

/// Whether a string's characters are exactly the given character sequence.
fn string_eq_chars(s: &String, cs: &Vec<char>) -> (r: bool)
    ensures
        r == (s@ == cs@),
{
    let st = s.as_str();
    let n: usize = st.unicode_len();
    if n != cs.len() {
        return false;
    }
    let mut i: usize = 0;
    while i < n
        invariant
            i <= n,
            n == s@.len(),
            n == cs@.len(),
            st@ == s@,
            forall|k: int| 0 <= k < i ==> s@[k] == cs@[k],
        decreases n - i,
    {
        if st.get_char(i) != cs[i] {
            return false;
        }
        i = i + 1;
    }
    proof {
        assert(s@ =~= cs@);
    }
    true
}

/// The value bound to a key, searching from the latest binding backwards.
fn lookup_value<'a>(reps: &'a Vec<(String, String)>, key: &Vec<char>) -> (r: Option<&'a String>)
    ensures
        match r {
            Some(v) => rep_lookup(reps.deep_view(), key@) == Some(v@),
            None => rep_lookup(reps.deep_view(), key@) is None,
        },
{
    let mut i: usize = reps.len();
    proof {
        assert(reps.deep_view().subrange(0, i as int) =~= reps.deep_view());
    }
    while i > 0
        invariant
            i <= reps.len(),
            rep_lookup(reps.deep_view(), key@) == rep_lookup(
                reps.deep_view().subrange(0, i as int),
                key@,
            ),
        decreases i,
    {
        let entry = &reps[i - 1];
        proof {
            assert(reps.deep_view().subrange(0, i as int).last() == (
                entry.0@,
                entry.1@,
            ));
            assert(reps.deep_view().subrange(0, i as int).drop_last() =~= reps.deep_view()
                .subrange(0, i - 1 as int));
        }
        if string_eq_chars(&entry.0, key) {
            return Some(&entry.1);
        }
        i = i - 1;
    }
    proof {
        assert(reps.deep_view().subrange(0, 0) =~= Seq::<(Seq<char>, Seq<char>)>::empty());
    }
    None
}

/// A copy of the characters in `[from, to)`.
fn subvec(t: &Vec<char>, from: usize, to: usize) -> (r: Vec<char>)
    requires
        from <= to <= t.len(),
    ensures
        r@ == t@.subrange(from as int, to as int),
{
    let mut r: Vec<char> = Vec::new();
    let mut i: usize = from;
    while i < to
        invariant
            from <= i <= to <= t.len(),
            r@ == t@.subrange(from as int, i as int),
        decreases to - i,
    {
        r.push(t[i]);
        i = i + 1;
        proof {
            assert(r@ =~= t@.subrange(from as int, i as int));
        }
    }
    r
}

/// Appends every character of `v` to `out`.
fn append_chars(out: &mut Vec<char>, v: &Vec<char>)
    ensures
        final(out)@ == old(out)@ + v@,
{
    let mut i: usize = 0;
    while i < v.len()
        invariant
            i <= v.len(),
            out@ == old(out)@ + v@.subrange(0, i as int),
        decreases v.len() - i,
    {
        out.push(v[i]);
        i = i + 1;
        proof {
            assert(out@ =~= old(out)@ + v@.subrange(0, i as int));
        }
    }
    proof {
        assert(old(out)@ + v@.subrange(0, v@.len() as int) =~= old(out)@ + v@);
    }
}

/// The least index at or after `from` holding `'}'`, if any.
fn find_rbrace(t: &Vec<char>, from: usize) -> (r: Option<usize>)
    requires
        from <= t.len(),
    ensures
        match r {
            Some(j) => first_rbrace_from(t@, from as int) == Some(j as int) && from <= j
                < t.len(),
            None => first_rbrace_from(t@, from as int) is None,
        },
{
    let mut i: usize = from;
    while i < t.len()
        invariant
            from <= i <= t.len(),
            first_rbrace_from(t@, from as int) == first_rbrace_from(t@, i as int),
        decreases t.len() - i,
    {
        if t[i] == '}' {
            return Some(i);
        }
        i = i + 1;
    }
    None
}

/// Renders template characters with the given replacement list.
pub fn render_chars(t: &Vec<char>, reps: &Vec<(String, String)>) -> (r: Vec<char>)
    ensures
        r@ == render_spec(t@, reps.deep_view()),
{
    let mut out: Vec<char> = Vec::new();
    let mut i: usize = 0;
    while i < t.len()
        invariant
            i <= t.len(),
            render_spec(t@, reps.deep_view()) == out@ + render_from(t@, i as int, reps.deep_view()),
        decreases t.len() - i,
    {
        let mut plain = true;
        if i + 1 < t.len() {
            if t[i] == '{' && t[i + 1] == '{' {
                match find_rbrace(t, i + 2) {
                    Some(j) => {
                        if j + 1 < t.len() {
                            if t[j + 1] == '}' {
                                plain = false;
                                let key = subvec(t, i + 2, j);
                                match lookup_value(reps, &key) {
                                    Some(v) => {
                                        let vc = str_chars(v.as_str());
                                        append_chars(&mut out, &vc);
                                    },
                                    None => {},
                                }
                                i = j + 2;
                            }
                        }
                    },
                    None => {},
                }
            }
        }
        if plain {
            out.push(t[i]);
            i = i + 1;
        }
    }
    out
}

/// Renders a template string with the given replacement list: each `{{key}}`
/// placeholder becomes the value bound to `key` (empty when unbound), every
/// other character is copied unchanged.
pub fn render_template(template: &str, reps: &Vec<(String, String)>) -> (r: String)
    ensures
        r@ == render_spec(template@, reps.deep_view()),
{
    let t = str_chars(template);
    let out = render_chars(&t, reps);
    chars_string(&out)
}

} // verus!
