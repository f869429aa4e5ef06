use vstd::prelude::*;
use vstd::string::*;

verus! {

/// The marker in a command template that stands for the changed path.
pub open spec fn placeholder() -> Seq<char> {
    seq!['{', ':', 'p', '}']
}

/// Whether the placeholder begins at position `i` of `t`.
pub open spec fn placeholder_at(t: Seq<char>, i: int) -> bool {
    0 <= i && i + 4 <= t.len() && t.subrange(i, i + 4) == placeholder()
}

/// Whether the placeholder occurs anywhere in `t`.
pub open spec fn contains_placeholder(t: Seq<char>) -> bool {
    exists|i: int| placeholder_at(t, i)
}

/// `t` with every occurrence of the placeholder replaced by `p`, occurrences
/// being taken from left to right without overlap.
pub open spec fn render(t: Seq<char>, p: Seq<char>) -> Seq<char>
    decreases t.len(),
{
    if t.len() == 0 {
        Seq::empty()
    } else if placeholder_at(t, 0) {
        p + render(t.skip(4), p)
    } else {
        seq![t[0]] + render(t.skip(1), p)
    }
}

/// A template without the placeholder renders to itself, whatever the path.
pub proof fn lemma_render_without_placeholder(t: Seq<char>, p: Seq<char>)
    requires
        !contains_placeholder(t),
    ensures
        render(t, p) == t,
    decreases t.len(),
{
    if t.len() > 0 {
        assert(!placeholder_at(t, 0));
        let rest = t.skip(1);
        assert forall|i: int| !placeholder_at(rest, i) by {
            if placeholder_at(rest, i) {
                assert(t.subrange(i + 1, i + 5) =~= rest.subrange(i, i + 4));
                assert(placeholder_at(t, i + 1));
            }
        }
        lemma_render_without_placeholder(rest, p);
        assert(seq![t[0]] + rest =~= t);
    }
}

/// The characters of `s`, in order.
fn chars_of(s: &str) -> (r: Vec<char>)
    ensures
        r@ == s@,
{
    let n = s.unicode_len();
    let mut r: Vec<char> = Vec::new();
    let mut i: usize = 0;
    while i < n
        invariant
            i <= n,
            n == s@.len(),
            r@ == s@.take(i as int),
        decreases n - i,
    {
        r.push(s.get_char(i));
        i = i + 1;
        assert(r@ =~= s@.take(i as int));
    }
    assert(r@ =~= s@);
    r
}

/// Replaces every placeholder in `template` by `path`.
pub fn render_template(template: &str, path: &str) -> (r: String)
    ensures
        r@ == render(template@, path@),
{
    let ghost t = template@;
    let ghost p = path@;
    let chars = chars_of(template);
    let n = chars.len();
    let mut out = String::new();
    let mut start: usize = 0;
    let mut i: usize = 0;
    assert(t.skip(0) =~= t);
    assert(out@ + t.subrange(0, 0) =~= Seq::<char>::empty());
    while i < n
        invariant
            start <= i <= n,
            n == t.len(),
            chars@ == t,
            t == template@,
            p == path@,
            render(t, p) == out@ + t.subrange(start as int, i as int) + render(t.skip(i as int), p),
        decreases n - i,
    {
        let ghost rest = t.skip(i as int);
        if n - i >= 4 && chars[i] == '{' && chars[i + 1] == ':' && chars[i + 2] == 'p'
            && chars[i + 3] == '}' {
            assert(rest.subrange(0, 4) =~= placeholder());
            assert(rest.skip(4) =~= t.skip(i + 4));
            let piece = template.substring_char(start, i);
            out.append(piece);
            out.append(path);
            i = i + 4;
            start = i;
            assert(t.subrange(start as int, i as int) =~= Seq::<char>::empty());
            assert(render(t, p) =~= out@ + t.subrange(start as int, i as int) + render(
                t.skip(i as int),
                p,
            ));
        } else {
            assert(!placeholder_at(rest, 0)) by {
                if placeholder_at(rest, 0) {
                    assert(rest.subrange(0, 4)[0] == chars@[i as int]);
                    assert(rest.subrange(0, 4)[1] == chars@[i + 1]);
                    assert(rest.subrange(0, 4)[2] == chars@[i + 2]);
                    assert(rest.subrange(0, 4)[3] == chars@[i + 3]);
                }
            }
            assert(rest.skip(1) =~= t.skip(i + 1));
            assert(t.subrange(start as int, i as int) + seq![rest[0]] =~= t.subrange(
                start as int,
                i + 1,
            ));
            i = i + 1;
            assert(render(t, p) =~= out@ + t.subrange(start as int, i as int) + render(
                t.skip(i as int),
                p,
            ));
        }
    }
    let piece = template.substring_char(start, n);
    out.append(piece);
    assert(t.skip(n as int) =~= Seq::<char>::empty());
    assert(render(t, p) =~= out@);
    out
}

/// The ASCII whitespace characters: space, tab, line feed, form feed and
/// carriage return.
pub open spec fn is_ascii_whitespace(c: char) -> bool {
    c == ' ' || c == '\t' || c == '\n' || c == '\x0C' || c == '\r'
}

/// The length of the run of non-whitespace characters that `s` starts with.
pub open spec fn word_len(s: Seq<char>) -> nat
    decreases s.len(),
{
    if s.len() == 0 || is_ascii_whitespace(s[0]) {
        0
    } else {
        1 + word_len(s.skip(1))
    }
}

/// A word never runs past the end of its text, and one that starts with a
/// non-whitespace character is not empty.
pub proof fn lemma_word_len_bounded(s: Seq<char>)
    ensures
        word_len(s) <= s.len(),
        s.len() > 0 && !is_ascii_whitespace(s[0]) ==> word_len(s) >= 1,
    decreases s.len(),
{
    if s.len() > 0 && !is_ascii_whitespace(s[0]) {
        lemma_word_len_bounded(s.skip(1));
    }
}

/// The words of `s`: its maximal runs of non-whitespace characters, in
/// order. Quotes and escapes have no meaning.
pub open spec fn words(s: Seq<char>) -> Seq<Seq<char>>
    decreases s.len(),
{
    if s.len() == 0 {
        Seq::empty()
    } else if is_ascii_whitespace(s[0]) {
        words(s.skip(1))
    } else {
        proof {
            lemma_word_len_bounded(s);
        }
        seq![s.take(word_len(s) as int)] + words(s.skip(word_len(s) as int))
    }
}

fn is_whitespace_char(c: char) -> (r: bool)
    ensures
        r == is_ascii_whitespace(c),
{
    c == ' ' || c == '\t' || c == '\n' || c == '\x0C' || c == '\r'
}

/// Splits a command line into its words.
pub fn split_words(line: &str) -> (r: Vec<String>)
    ensures
        r.deep_view() == words(line@),
{
    let ghost s = line@;
    let chars = chars_of(line);
    let n = chars.len();
    let mut out: Vec<String> = Vec::new();
    let mut i: usize = 0;
    assert(s.skip(0) =~= s);
    assert(out.deep_view() + words(s) =~= words(s));
    while i < n
        invariant
            i <= n,
            n == s.len(),
            chars@ == s,
            s == line@,
            words(s) == out.deep_view() + words(s.skip(i as int)),
        decreases n - i,
    {
        let ghost rest = s.skip(i as int);
        if is_whitespace_char(chars[i]) {
            assert(rest.skip(1) =~= s.skip(i + 1));
            i = i + 1;
        } else {
            let mut j: usize = i + 1;
            assert(rest.skip(1) =~= s.skip(i + 1));
            while j < n && !is_whitespace_char(chars[j])
                invariant
                    i < j <= n,
                    n == s.len(),
                    chars@ == s,
                    rest == s.skip(i as int),
                    word_len(rest) == (j - i) + word_len(s.skip(j as int)),
                decreases n - j,
            {
                assert(s.skip(j as int).skip(1) =~= s.skip(j + 1));
                j = j + 1;
            }
            let ghost k = j - i;
            assert(word_len(s.skip(j as int)) == 0);
            assert(rest.take(k) =~= s.subrange(i as int, j as int));
            assert(rest.skip(k) =~= s.skip(j as int));
            let ghost before = out.deep_view();
            let word = String::from_str(line.substring_char(i, j));
            out.push(word);
            assert(out.deep_view() =~= before.push(s.subrange(i as int, j as int)));
            i = j;
            assert(words(s) =~= out.deep_view() + words(s.skip(i as int)));
        }
    }
    assert(s.skip(n as int) =~= Seq::<char>::empty());
    assert(words(s) =~= out.deep_view());
    out
}

} // verus!
