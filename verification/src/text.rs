use vstd::prelude::*;

verus! {

/// The lines of `s`, cut at each `'\n'` and without it; a text without any
/// `'\n'` is one line, so every text has at least one (possibly empty) line.
pub open spec fn lines_of(s: Seq<char>) -> Seq<Seq<char>>
    decreases s.len(),
{
    if s.len() == 0 {
        seq![Seq::<char>::empty()]
    } else {
        let before = lines_of(s.drop_last());
        if s.last() == '\n' {
            before.push(Seq::<char>::empty())
        } else {
            before.update(before.len() - 1, before.last().push(s.last()))
        }
    }
}

/// The lines joined back into one text, a `'\n'` between each two of them.
pub open spec fn join_lines(lines: Seq<Seq<char>>) -> Seq<char>
    decreases lines.len(),
{
    if lines.len() == 0 {
        Seq::<char>::empty()
    } else if lines.len() == 1 {
        lines[0]
    } else {
        join_lines(lines.drop_last()) + seq!['\n'] + lines.last()
    }
}

/// The characters of the strings in `v`.
pub open spec fn texts(v: Seq<String>) -> Seq<Seq<char>> {
    v.map_values(|s: String| s@)
}

/// Whether `s` holds no `'\n'`.
pub open spec fn one_line(s: Seq<char>) -> bool {
    forall|k: int| 0 <= k < s.len() ==> s[k] != '\n'
}

/// Whether the name `s` ends in `.txt`.
pub open spec fn has_txt_extension(s: Seq<char>) -> bool {
    s.len() >= 4 && s.subrange(s.len() - 4, s.len() as int) =~= seq!['.', 't', 'x', 't']
}


/// Every text has at least one line.
pub proof fn lemma_lines_nonempty(s: Seq<char>)
    ensures
        lines_of(s).len() >= 1,
    decreases s.len(),
{
    if s.len() > 0 {
        lemma_lines_nonempty(s.drop_last());
    }
}

/// Joining lines whose last one is replaced: the text before that line is kept.
proof fn lemma_join_replace_last(ls: Seq<Seq<char>>, x: Seq<char>)
    requires
        ls.len() >= 1,
    ensures
        join_lines(ls.update(ls.len() - 1, x)) == (if ls.len() == 1 {
            x
        } else {
            join_lines(ls.drop_last()) + seq!['\n'] + x
        }),
{
    let nl = ls.update(ls.len() - 1, x);
    assert(nl.drop_last() =~= ls.drop_last());
}

/// Cutting a text into lines and joining them back gives the text, and no
/// line holds a `'\n'`: `lines_of(s)` is the only way to write `s` as lines.
pub proof fn lemma_join_lines_of(s: Seq<char>)
    ensures
        join_lines(lines_of(s)) == s,
        forall|i: int| 0 <= i < lines_of(s).len() ==> one_line(#[trigger] lines_of(s)[i]),
    decreases s.len(),
{
    if s.len() == 0 {
        assert(join_lines(lines_of(s)) =~= s);
    } else {
        let init = s.drop_last();
        let c = s.last();
        lemma_join_lines_of(init);
        lemma_lines_nonempty(init);
        let before = lines_of(init);
        if c == '\n' {
            let after = before.push(Seq::<char>::empty());
            assert(after.drop_last() =~= before);
            assert(join_lines(after) =~= s);
        } else {
            let x = before.last().push(c);
            lemma_join_replace_last(before, x);
            if before.len() == 1 {
                assert(join_lines(before) == before[0]);
                assert(x =~= s);
            } else {
                assert(join_lines(before) == join_lines(before.drop_last()) + seq!['\n'] + before.last());
                let j = join_lines(before.drop_last());
                assert(s =~= init.push(c));
                assert(j + seq!['\n'] + x =~= (j + seq!['\n'] + before.last()).push(c));
            }
            let after = before.update(before.len() - 1, x);
            assert forall|i: int| 0 <= i < after.len() implies one_line(#[trigger] after[i]) by {
                if i == after.len() - 1 {
                    assert forall|k: int| 0 <= k < x.len() implies x[k] != '\n' by {
                        if k < before.last().len() {
                            assert(one_line(before[before.len() - 1]));
                        }
                    }
                }
            }
        }
    }
}

/// Appending text without a `'\n'` extends the last line and nothing else.
proof fn lemma_lines_extend_last(x: Seq<char>, b: Seq<char>)
    requires
        one_line(b),
    ensures
        lines_of(x + b) =~~= lines_of(x).update(
            lines_of(x).len() - 1,
            lines_of(x).last() + b,
        ),
    decreases b.len(),
{
    lemma_lines_nonempty(x);
    if b.len() == 0 {
        assert(x + b =~= x);
        assert(lines_of(x).last() + b =~= lines_of(x).last());
    } else {
        let b0 = b.drop_last();
        lemma_lines_extend_last(x, b0);
        assert((x + b).drop_last() =~= x + b0);
        assert((x + b).last() == b.last());
        assert(lines_of(x).last() + b0 + seq![b.last()] =~= lines_of(x).last() + b);
        assert((lines_of(x).last() + b0).push(b.last()) =~= lines_of(x).last() + b);
    }
}

/// Cutting joined lines apart gives the lines back, when none of them holds
/// a `'\n'` and there is at least one.
pub proof fn lemma_lines_of_join(ls: Seq<Seq<char>>)
    requires
        ls.len() >= 1,
        forall|i: int| 0 <= i < ls.len() ==> one_line(#[trigger] ls[i]),
    ensures
        lines_of(join_lines(ls)) =~~= ls,
    decreases ls.len(),
{
    if ls.len() == 1 {
        lemma_lines_extend_last(Seq::<char>::empty(), ls[0]);
        assert(Seq::<char>::empty() + ls[0] =~= ls[0]);
        assert(lines_of(Seq::<char>::empty()) =~~= seq![Seq::<char>::empty()]);
        assert(Seq::<char>::empty() + ls[0] =~= ls[0]);
    } else {
        let init = ls.drop_last();
        assert forall|i: int| 0 <= i < init.len() implies one_line(#[trigger] init[i]) by {
            assert(init[i] == ls[i]);
        }
        lemma_lines_of_join(init);
        let x = join_lines(init) + seq!['\n'];
        assert(x.drop_last() =~= join_lines(init));
        assert(lines_of(x) =~~= init.push(Seq::<char>::empty()));
        assert(one_line(ls[ls.len() - 1]));
        lemma_lines_extend_last(x, ls.last());
        lemma_lines_nonempty(x);
        assert(Seq::<char>::empty() + ls.last() =~= ls.last());
        assert(join_lines(ls) == x + ls.last());
    }
}

/// A name that ends in `.txt` is a grid file, whatever comes before; one
/// that ends otherwise, or is too short to hold `.txt`, is not.
pub proof fn lemma_txt_names(prefix: Seq<char>)
    ensures
        has_txt_extension(prefix + seq!['.', 't', 'x', 't']),
        !has_txt_extension(prefix + seq!['.', 't', 'x']),
        !has_txt_extension(seq!['t', 'x', 't']),
{
    let s = prefix + seq!['.', 't', 'x', 't'];
    assert(s.subrange(s.len() - 4, s.len() as int) =~= seq!['.', 't', 'x', 't']);
    let u = prefix + seq!['.', 't', 'x'];
    if u.len() >= 4 {
        assert(u.subrange(u.len() - 4, u.len() as int)[3] == 'x');
    }
}

/// The lines of `text`, cut at each `'\n'`, as `split("\n")` gives them.
pub fn split_lines(text: &str) -> (lines: Vec<String>)
    ensures
        texts(lines@) == lines_of(text@),
{
    let n = text.unicode_len();
    let mut lines: Vec<String> = Vec::new();
    let mut start: usize = 0;
    let mut i: usize = 0;
    proof {
        assert(text@.take(0) =~= Seq::<char>::empty());
    }
    while i < n
        invariant
            n == text@.len(),
            start <= i <= n,
            lines@.len() + 1 == lines_of(text@.take(i as int)).len(),
            forall|k: int| 0 <= k < lines@.len() ==> #[trigger] lines@[k]@ == lines_of(text@.take(i as int))[k],
            lines_of(text@.take(i as int)).last() =~= text@.subrange(start as int, i as int),
        decreases n - i,
    {
        let c = text.get_char(i);
        proof {
            assert(text@.take(i + 1).drop_last() =~= text@.take(i as int));
            assert(text@.take(i + 1).last() == c);
        }
        if c == '\n' {
            let piece = text.substring_char(start, i);
            lines.push(String::from_str(piece));
            start = i + 1;
        }
        i += 1;
    }
    let piece = text.substring_char(start, n);
    lines.push(String::from_str(piece));
    proof {
        assert(text@.take(n as int) =~= text@);
        assert(texts(lines@) =~= lines_of(text@));
    }
    lines
}

/// Whether the file name `name` ends in `.txt`.
pub fn is_gol_file(name: &str) -> (b: bool)
    ensures
        b == has_txt_extension(name@),
{
    let n = name.unicode_len();
    if n < 4 {
        return false;
    }
    let b = name.get_char(n - 4) == '.' && name.get_char(n - 3) == 't' && name.get_char(n - 2)
        == 'x' && name.get_char(n - 1) == 't';
    proof {
        let tail = name@.subrange(n - 4, n as int);
        if b {
            assert(tail =~= seq!['.', 't', 'x', 't']);
        } else {
            if tail =~= seq!['.', 't', 'x', 't'] {
                assert(tail[0] == name@[n - 4]);
                assert(tail[1] == name@[n - 3]);
                assert(tail[2] == name@[n - 2]);
                assert(tail[3] == name@[n - 1]);
            }
        }
    }
    b
}

/// The names in `names` that end in `.txt`, in their order: the files that
/// the chooser offers.
pub fn gol_files(names: Vec<String>) -> (files: Vec<String>)
    ensures
        texts(files@) == texts(names@).filter(|s: Seq<char>| has_txt_extension(s)),
{
    let mut files: Vec<String> = Vec::new();
    let mut i: usize = 0;
    let ghost all = texts(names@);
    let ghost keep = |s: Seq<char>| has_txt_extension(s);
    while i < names.len()
        invariant
            i <= names.len(),
            all == texts(names@),
            keep == (|s: Seq<char>| has_txt_extension(s)),
            texts(files@) =~= all.take(i as int).filter(keep),
        decreases names.len() - i,
    {
        proof {
            reveal_with_fuel(Seq::filter, 1);
            assert(all.take(i + 1).drop_last() =~= all.take(i as int));
        }
        let name = names[i].clone();
        if is_gol_file(name.as_str()) {
            files.push(name);
        }
        i += 1;
    }
    proof {
        assert(all.take(names.len() as int) =~= all);
    }
    files
}

} // verus!
