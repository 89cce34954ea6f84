//! Texts as sequences of characters: reading one character by character,
//! and joining lines.

use vstd::prelude::*;

verus! {

/// The characters of `s`, in order.
pub fn chars_of(s: &str) -> (chars: Vec<char>)
    ensures
        chars@ == s@,
{
    broadcast use vstd::string::group_string_axioms;

    let mut chars: Vec<char> = Vec::new();
    for c in it: s.chars()
        invariant
            it.seq() == s@,
            chars@ == s@.take(it.index() as int),
    {
        chars.push(c);
        assert(chars@ =~= s@.take(it.index() + 1));
    }
    assert(s@.take(s@.len() as int) =~= s@);
    chars
}

/// The texts of `parts` with `sep` between each two neighbours. Nothing
/// follows the last part, and no part at all gives the empty text.
pub open spec fn join_with(parts: Seq<Seq<char>>, sep: char) -> Seq<char>
    decreases parts.len(),
{
    if parts.len() == 0 {
        Seq::empty()
    } else if parts.len() == 1 {
        parts[0]
    } else {
        join_with(parts.drop_last(), sep) + seq![sep] + parts.last()
    }
}

/// The lines of `lines` with one line feed between each two neighbours.
pub open spec fn join_lines(lines: Seq<Seq<char>>) -> Seq<char> {
    join_with(lines, '\n')
}

/// The pieces into which the occurrences of `sep` cut `s`: one more piece
/// than there are occurrences, so the empty text gives one empty piece.
pub open spec fn split_on(s: Seq<char>, sep: char) -> Seq<Seq<char>>
    decreases s.len(),
{
    if s.len() == 0 {
        seq![Seq::empty()]
    } else {
        let before = split_on(s.drop_last(), sep);
        if s.last() == sep {
            before.push(Seq::empty())
        } else {
            before.drop_last().push(before.last().push(s.last()))
        }
    }
}

/// Whether `sep` occurs nowhere in `s`.
pub open spec fn free_of(s: Seq<char>, sep: char) -> bool {
    forall|i: int| 0 <= i < s.len() ==> #[trigger] s[i] != sep
}

/// Whether `sep` occurs in no text of `parts`.
pub open spec fn all_free_of(parts: Seq<Seq<char>>, sep: char) -> bool {
    forall|i: int| 0 <= i < parts.len() ==> free_of(#[trigger] parts[i], sep)
}

/// Cutting a text gives at least one piece, and `sep` occurs in none of them.
pub proof fn lemma_split_pieces(s: Seq<char>, sep: char)
    ensures
        split_on(s, sep).len() >= 1,
        all_free_of(split_on(s, sep), sep),
    decreases s.len(),
{
    if s.len() > 0 {
        lemma_split_pieces(s.drop_last(), sep);
        let before = split_on(s.drop_last(), sep);
        let after = split_on(s, sep);
        assert forall|i: int| 0 <= i < after.len() implies free_of(#[trigger] after[i], sep) by {
            if i < after.len() - 1 {
                assert(after[i] == before[i]);
            } else if s.last() != sep {
                assert(free_of(before.last(), sep));
            }
        }
    }
}

/// Joining the pieces of a text with the separator that cut it gives the
/// text back.
pub proof fn lemma_join_split(s: Seq<char>, sep: char)
    ensures
        join_with(split_on(s, sep), sep) == s,
    decreases s.len(),
{
    if s.len() == 0 {
        assert(join_with(split_on(s, sep), sep) =~= s);
    } else {
        let rest = s.drop_last();
        lemma_join_split(rest, sep);
        lemma_split_pieces(rest, sep);
        let before = split_on(rest, sep);
        let after = split_on(s, sep);
        if s.last() == sep {
            assert(after.drop_last() =~= before);
            assert(join_with(after, sep) =~= s);
        } else if before.len() == 1 {
            assert(after.len() == 1);
            assert(before[0] == rest);
            assert(after[0] =~= rest.push(s.last()));
            assert(rest.push(s.last()) =~= s);
        } else {
            assert(after.len() == before.len());
            assert(after.drop_last() =~= before.drop_last());
            assert(after.last() == before.last().push(s.last()));
            assert(join_with(before, sep) == join_with(before.drop_last(), sep) + seq![sep]
                + before.last());
            assert(rest.push(s.last()) =~= s);
            assert(join_with(after, sep) =~= s);
        }
    }
}

/// Joining two runs of lines, each of one line or more, joins each and
/// puts one separator between the two.
pub proof fn lemma_join_append(a: Seq<Seq<char>>, b: Seq<Seq<char>>, sep: char)
    requires
        a.len() > 0,
        b.len() > 0,
    ensures
        join_with(a + b, sep) == join_with(a, sep) + seq![sep] + join_with(b, sep),
    decreases b.len(),
{
    if b.len() == 1 {
        assert((a + b).drop_last() =~= a);
        assert((a + b).last() == b[0]);
    } else {
        assert((a + b).drop_last() =~= a + b.drop_last());
        assert((a + b).last() == b.last());
        lemma_join_append(a, b.drop_last(), sep);
        assert(join_with(a + b, sep) =~= join_with(a, sep) + seq![sep] + join_with(b, sep));
    }
}

/// Cutting what was joined gives the parts back, where there is a part and
/// the separator occurs in none.
pub proof fn lemma_split_join(parts: Seq<Seq<char>>, sep: char)
    requires
        parts.len() >= 1,
        all_free_of(parts, sep),
    ensures
        split_on(join_with(parts, sep), sep) == parts,
    decreases parts.len(),
{
    if parts.len() == 1 {
        lemma_split_free(parts[0], sep);
        assert(seq![parts[0]] =~= parts);
    } else {
        let head = parts.drop_last();
        assert(all_free_of(head, sep)) by {
            assert forall|i: int| 0 <= i < head.len() implies free_of(#[trigger] head[i], sep) by {
                assert(head[i] == parts[i]);
            }
        }
        lemma_split_join(head, sep);
        assert(free_of(parts.last(), sep));
        lemma_split_append(join_with(head, sep), parts.last(), sep);
        assert(head.push(parts.last()) =~= parts);
    }
}

/// A text in which the separator does not occur is its own single piece.
pub proof fn lemma_split_free(s: Seq<char>, sep: char)
    requires
        free_of(s, sep),
    ensures
        split_on(s, sep) == seq![s],
    decreases s.len(),
{
    if s.len() == 0 {
        assert(s =~= Seq::<char>::empty());
    } else {
        assert(free_of(s.drop_last(), sep)) by {
            assert forall|i: int| 0 <= i < s.drop_last().len() implies #[trigger] s.drop_last()[i]
                != sep by {
                assert(s.drop_last()[i] == s[i]);
            }
        }
        lemma_split_free(s.drop_last(), sep);
        assert(s.last() == s[s.len() - 1]);
        let before = split_on(s.drop_last(), sep);
        assert(before.last() == s.drop_last());
        assert(s.drop_last().push(s.last()) =~= s);
        assert(before.drop_last().push(s) =~= seq![s]);
    }
}

/// Cutting `a`, one separator and a text `b` free of it gives the pieces
/// of `a` and then `b`.
pub proof fn lemma_split_append(a: Seq<char>, b: Seq<char>, sep: char)
    requires
        free_of(b, sep),
    ensures
        split_on(a + seq![sep] + b, sep) == split_on(a, sep).push(b),
    decreases b.len(),
{
    let whole = a + seq![sep] + b;
    if b.len() == 0 {
        assert(whole.drop_last() =~= a);
        assert(whole.last() == sep);
        assert(b =~= Seq::<char>::empty());
    } else {
        let rest = b.drop_last();
        assert(free_of(rest, sep)) by {
            assert forall|i: int| 0 <= i < rest.len() implies #[trigger] rest[i] != sep by {
                assert(rest[i] == b[i]);
            }
        }
        lemma_split_append(a, rest, sep);
        assert(whole.drop_last() =~= a + seq![sep] + rest);
        assert(whole.last() == b.last());
        assert(b.last() == b[b.len() - 1]);
        let before = split_on(a, sep).push(rest);
        assert(before.drop_last() =~= split_on(a, sep));
        assert(rest.push(b.last()) =~= b);
    }
}

/// The first piece of a text ends at the first occurrence of the
/// separator, or with the text where there is none.
pub proof fn lemma_first_piece(s: Seq<char>, sep: char, k: int)
    requires
        0 <= k <= s.len(),
        free_of(s.take(k), sep),
        k < s.len() ==> s[k] == sep,
    ensures
        split_on(s, sep).len() >= 1,
        split_on(s, sep)[0] == s.take(k),
    decreases s.len(),
{
    lemma_split_pieces(s, sep);
    if k == s.len() {
        assert(s.take(k) =~= s);
        lemma_split_free(s, sep);
    } else {
        let rest = s.drop_last();
        assert(rest.take(k) =~= s.take(k));
        lemma_first_piece(rest, sep, k);
        lemma_split_pieces(rest, sep);
        let before = split_on(rest, sep);
        if s.last() != sep {
            assert(k < rest.len());
            // the separator at `k` lies in `rest`, so `rest` has two pieces or more
            lemma_pieces_count(rest, sep, k);
        }
    }
}

/// A text in which the separator occurs has two pieces or more.
pub proof fn lemma_pieces_count(s: Seq<char>, sep: char, k: int)
    requires
        0 <= k < s.len(),
        s[k] == sep,
    ensures
        split_on(s, sep).len() >= 2,
    decreases s.len(),
{
    lemma_split_pieces(s.drop_last(), sep);
    if k < s.len() - 1 {
        assert(s.drop_last()[k] == sep);
        lemma_pieces_count(s.drop_last(), sep, k);
    }
}

/// The views of the strings of `parts`, in order.
pub open spec fn texts(parts: Seq<String>) -> Seq<Seq<char>> {
    Seq::new(parts.len(), |i: int| parts[i]@)
}

/// Joins `parts` with a line feed between each two neighbours.
pub fn join(parts: &Vec<String>) -> (text: String)
    ensures
        text@ == join_lines(texts(parts@)),
{
    let mut text = String::new();
    let n: usize = parts.len();
    let mut i: usize = 0;
    while i < n
        invariant
            n == parts@.len(),
            0 <= i <= n,
            text@ == join_lines(texts(parts@).take(i as int)),
        decreases n - i,
    {
        proof {
            reveal_strlit("\n");
            let before = texts(parts@).take(i as int);
            let after = texts(parts@).take(i + 1);
            assert(after.drop_last() =~= before);
            assert(after.last() == parts@[i as int]@);
            assert("\n"@ =~= seq!['\n']);
            if i == 1 {
                assert(before.len() == 1);
            }
        }
        if i > 0 {
            text.append("\n");
        }
        text.append(parts[i].as_str());
        proof {
            let after = texts(parts@).take(i + 1);
            if i == 0 {
                assert(text@ =~= after[0]);
            }
            assert(text@ =~= join_lines(after));
        }
        i = i + 1;
    }
    assert(texts(parts@).take(n as int) =~= texts(parts@));
    text
}

} // verus!
