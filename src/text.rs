use vstd::prelude::*;

verus! {

/// The characters of `s`, in order.
pub fn chars_of(s: &str) -> (r: Vec<char>)
    ensures
        r@ == s@,
{
    let mut out: Vec<char> = Vec::new();
    for c in it: s.chars()
        invariant
            it.seq() == s@,
            out@ == it.seq().take(it.index()),
    {
        out.push(c);
    }
    out
}

/// The abstract contents of a list of strings.
pub open spec fn views(v: Seq<String>) -> Seq<Seq<char>> {
    v.map_values(|x: String| x@)
}

/// True when `s` opens with `p`.
pub open spec fn starts_with(s: Seq<char>, p: Seq<char>) -> bool {
    p.len() <= s.len() && s.take(p.len() as int) == p
}

/// The pieces of `s` between occurrences of `sep`; there is always at least one.
pub open spec fn split_char(s: Seq<char>, sep: char) -> Seq<Seq<char>>
    decreases s.len(),
{
    if s.len() == 0 {
        seq![seq![]]
    } else {
        let prev = split_char(s.drop_last(), sep);
        if s.last() == sep {
            prev.push(seq![])
        } else {
            prev.update(prev.len() - 1, prev.last().push(s.last()))
        }
    }
}

/// The pieces of `s` between occurrences of the two-character sequence CR LF.
pub open spec fn split_crlf(s: Seq<char>) -> Seq<Seq<char>>
    decreases s.len(),
{
    if s.len() == 0 {
        seq![seq![]]
    } else if s.len() >= 2 && s[s.len() - 2] == '\r' && s[s.len() - 1] == '\n' {
        split_crlf(s.take(s.len() - 2)).push(seq![])
    } else {
        let prev = split_crlf(s.drop_last());
        prev.update(prev.len() - 1, prev.last().push(s.last()))
    }
}

/// `l` without one carriage return at its end.
pub open spec fn strip_cr(l: Seq<char>) -> Seq<char> {
    if l.len() > 0 && l.last() == '\r' {
        l.drop_last()
    } else {
        l
    }
}

/// The lines of `s`: split at LF, a CR just before an LF dropped, and no
/// empty line after a final line ending.
pub open spec fn lines_of(s: Seq<char>) -> Seq<Seq<char>> {
    let p = split_char(s, '\n');
    let init = p.drop_last().map_values(|l: Seq<char>| strip_cr(l));
    if p.last().len() == 0 {
        init
    } else {
        init.push(p.last())
    }
}

proof fn lemma_split_char_nonempty(s: Seq<char>, sep: char)
    ensures
        split_char(s, sep).len() >= 1,
    decreases s.len(),
{
    if s.len() > 0 {
        lemma_split_char_nonempty(s.drop_last(), sep);
    }
}

proof fn lemma_split_crlf_nonempty(s: Seq<char>)
    ensures
        split_crlf(s).len() >= 1,
    decreases s.len(),
{
    if s.len() > 0 {
        if s.len() >= 2 && s[s.len() - 2] == '\r' && s[s.len() - 1] == '\n' {
            lemma_split_crlf_nonempty(s.take(s.len() - 2));
        } else {
            lemma_split_crlf_nonempty(s.drop_last());
        }
    }
}

/// The pieces of `s` between occurrences of `sep`.
pub fn split_on_char(s: &str, sep: char) -> (r: Vec<String>)
    ensures
        views(r@) == split_char(s@, sep),
{
    let cs = chars_of(s);
    let n = cs.len();
    let mut done: Vec<String> = Vec::new();
    let mut start: usize = 0;
    let mut i: usize = 0;
    assert(s@.take(0) =~= seq![]);
    assert(views(done@) =~= seq![]);
    assert(s@.subrange(0, 0) =~= seq![]);
    while i < n
        invariant
            cs@ == s@,
            n == cs.len(),
            start <= i <= n,
            split_char(s@.take(i as int), sep) == views(done@).push(s@.subrange(start as int, i as int)),
        decreases n - i,
    {
        let ghost pre = s@.take(i as int);
        assert(s@.take(i + 1).drop_last() == pre);
        if cs[i] == sep {
            let piece = s.substring_char(start, i);
            done.push(String::from_str(piece));
            assert(views(done@) == views(done@).drop_last().push(s@.subrange(start as int, i as int)));
            start = i + 1;
            assert(s@.subrange(start as int, start as int) =~= seq![]);
        } else {
            proof {
                lemma_split_char_nonempty(pre, sep);
                assert(s@.subrange(start as int, i + 1) =~= s@.subrange(start as int, i as int).push(s@[i as int]));
                assert(split_char(s@.take(i + 1), sep) =~= views(done@).push(s@.subrange(start as int, i + 1)));
            }
        }
        i = i + 1;
    }
    assert(s@.take(n as int) == s@);
    let piece = s.substring_char(start, n);
    done.push(String::from_str(piece));
    assert(views(done@) =~= views(done@).drop_last().push(s@.subrange(start as int, n as int)));
    done
}

/// The pieces of `s` between occurrences of CR LF.
pub fn split_on_crlf(s: &str) -> (r: Vec<String>)
    ensures
        views(r@) == split_crlf(s@),
{
    let cs = chars_of(s);
    let n = cs.len();
    let mut done: Vec<String> = Vec::new();
    let mut start: usize = 0;
    let mut i: usize = 0;
    assert(s@.take(0) =~= seq![]);
    assert(views(done@) =~= seq![]);
    assert(s@.subrange(0, 0) =~= seq![]);
    while i < n
        invariant
            cs@ == s@,
            n == cs.len(),
            start <= i <= n,
            0 < i < n ==> !(s@[i - 1] == '\r' && s@[i as int] == '\n'),
            split_crlf(s@.take(i as int)) == views(done@).push(s@.subrange(start as int, i as int)),
        decreases n - i,
    {
        let ghost pre = s@.take(i as int);
        if i + 1 < n && cs[i] == '\r' && cs[i + 1] == '\n' {
            let piece = s.substring_char(start, i);
            done.push(String::from_str(piece));
            proof {
                let t = s@.take(i + 2);
                assert(t.take(t.len() - 2) == pre);
                assert(views(done@) == views(done@).drop_last().push(s@.subrange(start as int, i as int)));
                assert(s@.subrange(i + 2, i + 2) =~= seq![]);
            }
            i = i + 2;
            start = i;
        } else {
            proof {
                assert(s@.take(i + 1).drop_last() == pre);
                lemma_split_crlf_nonempty(pre);
                assert(s@.subrange(start as int, i + 1) =~= s@.subrange(start as int, i as int).push(s@[i as int]));
                assert(split_crlf(s@.take(i + 1)) =~= views(done@).push(s@.subrange(start as int, i + 1)));
            }
            i = i + 1;
        }
    }
    assert(s@.take(n as int) == s@);
    let piece = s.substring_char(start, n);
    done.push(String::from_str(piece));
    assert(views(done@) =~= views(done@).drop_last().push(s@.subrange(start as int, n as int)));
    done
}

/// `line` without one carriage return at its end.
pub fn without_cr(line: &str) -> (r: String)
    ensures
        r@ == strip_cr(line@),
{
    let n = line.unicode_len();
    if n > 0 && line.get_char(n - 1) == '\r' {
        assert(line@.subrange(0, n - 1) =~= line@.drop_last());
        String::from_str(line.substring_char(0, n - 1))
    } else {
        String::from_str(line)
    }
}

/// The lines of `s`, as `str::lines` yields them.
pub fn lines(s: &str) -> (r: Vec<String>)
    ensures
        views(r@) == lines_of(s@),
{
    let pieces = split_on_char(s, '\n');
    proof {
        lemma_split_char_nonempty(s@, '\n');
    }
    let ghost p = split_char(s@, '\n');
    let ghost init = p.drop_last().map_values(|l: Seq<char>| strip_cr(l));
    let last = pieces.len() - 1;
    let mut out: Vec<String> = Vec::new();
    let mut j: usize = 0;
    while j < last
        invariant
            views(pieces@) == p,
            init == p.drop_last().map_values(|l: Seq<char>| strip_cr(l)),
            p.len() >= 1,
            last == p.len() - 1,
            j <= last,
            views(out@) == init.take(j as int),
        decreases last - j,
    {
        assert(pieces@[j as int]@ == p[j as int]);
        let l = without_cr(pieces[j].as_str());
        assert(init[j as int] == strip_cr(p[j as int]));
        assert(l@ == init[j as int]);
        let ghost before = out@;
        out.push(l);
        assert(views(out@) =~= views(before).push(init[j as int]));
        assert(views(out@) =~= init.take(j + 1));
        j = j + 1;
    }
    assert(init.take(last as int) =~= init);
    assert(pieces@[last as int]@ == p.last());
    if pieces[last].unicode_len() > 0 {
        out.push(pieces[last].clone());
        assert(views(out@) =~= init.push(p.last()));
    }
    out
}

/// Unicode white space, as `char::is_whitespace` tells it.
pub open spec fn is_space(c: char) -> bool {
    ('\u{9}' <= c && c <= '\u{d}') || c == ' ' || c == '\u{85}' || c == '\u{a0}'
        || c == '\u{1680}' || ('\u{2000}' <= c && c <= '\u{200a}') || c == '\u{2028}'
        || c == '\u{2029}' || c == '\u{202f}' || c == '\u{205f}' || c == '\u{3000}'
}

/// ASCII white space, as `u8::is_ascii_whitespace` tells it.
pub open spec fn is_ascii_space(c: char) -> bool {
    c == ' ' || c == '\t' || c == '\n' || c == '\u{c}' || c == '\r'
}

fn space(c: char) -> (r: bool)
    ensures
        r == is_space(c),
{
    ('\u{9}' <= c && c <= '\u{d}') || c == ' ' || c == '\u{85}' || c == '\u{a0}'
        || c == '\u{1680}' || ('\u{2000}' <= c && c <= '\u{200a}') || c == '\u{2028}'
        || c == '\u{2029}' || c == '\u{202f}' || c == '\u{205f}' || c == '\u{3000}'
}

fn ascii_space(c: char) -> (r: bool)
    ensures
        r == is_ascii_space(c),
{
    c == ' ' || c == '\t' || c == '\n' || c == '\u{c}' || c == '\r'
}

/// `s` without leading white space.
pub open spec fn trim_start(s: Seq<char>) -> Seq<char>
    decreases s.len(),
{
    if s.len() > 0 && is_space(s[0]) {
        trim_start(s.drop_first())
    } else {
        s
    }
}

/// `s` without trailing white space.
pub open spec fn trim_end(s: Seq<char>) -> Seq<char>
    decreases s.len(),
{
    if s.len() > 0 && is_space(s.last()) {
        trim_end(s.drop_last())
    } else {
        s
    }
}

/// `s` without white space at either end.
pub open spec fn trim(s: Seq<char>) -> Seq<char> {
    trim_end(trim_start(s))
}

/// The maximal runs of characters other than ASCII white space in `s`.
pub open spec fn ascii_words(s: Seq<char>) -> Seq<Seq<char>>
    decreases s.len(),
{
    if s.len() == 0 {
        seq![]
    } else {
        let prev = ascii_words(s.drop_last());
        if is_ascii_space(s.last()) {
            prev
        } else if s.len() >= 2 && !is_ascii_space(s[s.len() - 2]) {
            prev.update(prev.len() - 1, prev.last().push(s.last()))
        } else {
            prev.push(seq![s.last()])
        }
    }
}

/// The words of `s` once trimmed, as `trim` followed by `split_ascii_whitespace` yields them.
pub fn trimmed_words(s: &str) -> (r: Vec<String>)
    ensures
        views(r@) == ascii_words(trim(s@)),
{
    let cs = chars_of(s);
    let n = cs.len();
    let mut a: usize = 0;
    assert(s@.subrange(0, n as int) == s@);
    while a < n && space(cs[a])
        invariant
            cs@ == s@,
            n == cs.len(),
            a <= n,
            trim_start(s@) == trim_start(s@.subrange(a as int, n as int)),
        decreases n - a,
    {
        assert(s@.subrange(a as int, n as int).drop_first() =~= s@.subrange(a + 1, n as int));
        a = a + 1;
    }
    let mut b: usize = n;
    assert(trim(s@) == trim_end(s@.subrange(a as int, b as int)));
    while b > a && space(cs[b - 1])
        invariant
            cs@ == s@,
            n == cs.len(),
            a <= b <= n,
            trim(s@) == trim_end(s@.subrange(a as int, b as int)),
        decreases b - a,
    {
        assert(s@.subrange(a as int, b as int).drop_last() =~= s@.subrange(a as int, b - 1));
        b = b - 1;
    }
    let ghost t = s@.subrange(a as int, b as int);
    assert(trim_end(t) == t);
    let mut done: Vec<String> = Vec::new();
    let mut start: usize = a;
    let mut in_word = false;
    let mut i: usize = a;
    assert(t.take(0) =~= seq![]);
    assert(views(done@) =~= seq![]);
    while i < b
        invariant
            cs@ == s@,
            n == cs.len(),
            t == s@.subrange(a as int, b as int),
            a <= start <= i <= b <= n,
            in_word ==> start < i && !is_ascii_space(s@[i - 1]),
            !in_word ==> (i > a ==> is_ascii_space(s@[i - 1])),
            in_word ==> ascii_words(t.take(i - a)) == views(done@).push(s@.subrange(start as int, i as int)),
            !in_word ==> ascii_words(t.take(i - a)) == views(done@),
        decreases b - i,
    {
        let ghost pre = t.take(i - a);
        assert(t.take(i - a + 1).drop_last() == pre);
        assert(t.take(i - a + 1).last() == s@[i as int]);
        if ascii_space(cs[i]) {
            if in_word {
                let piece = s.substring_char(start, i);
                done.push(String::from_str(piece));
                assert(views(done@) =~= views(done@).drop_last().push(s@.subrange(start as int, i as int)));
                in_word = false;
            }
        } else {
            if in_word {
                assert(s@.subrange(start as int, i + 1) =~= s@.subrange(start as int, i as int).push(s@[i as int]));
                assert(pre[pre.len() - 1] == s@[i - 1]);
                assert(ascii_words(t.take(i - a + 1)) =~= views(done@).push(s@.subrange(start as int, i + 1)));
            } else {
                start = i;
                assert(s@.subrange(start as int, i + 1) =~= seq![s@[i as int]]);
                if i > a {
                    assert(pre[pre.len() - 1] == s@[i - 1]);
                }
            }
            in_word = true;
        }
        i = i + 1;
    }
    assert(t.take(b - a) =~= t);
    if in_word {
        let piece = s.substring_char(start, b);
        done.push(String::from_str(piece));
        assert(views(done@) =~= views(done@).drop_last().push(s@.subrange(start as int, b as int)));
    }
    done
}

} // verus!
