//! Joining the lines of a comment run into one text.

use vstd::prelude::*;
use vstd::string::*;

verus! {

/// The views of a sequence of strings.
pub open spec fn string_views(s: Seq<String>) -> Seq<Seq<char>> {
    s.map_values(|x: String| x@)
}

/// The lines joined with one `\n` between neighbours; empty for no lines.
pub open spec fn join_lines(lines: Seq<Seq<char>>) -> Seq<char>
    decreases lines.len(),
{
    if lines.len() == 0 {
        Seq::empty()
    } else if lines.len() == 1 {
        lines[0]
    } else {
        join_lines(lines.drop_last()) + seq!['\n'] + lines.last()
    }
}

/// The pieces of `t` between its `\n` characters, in order.
pub open spec fn split_lines(t: Seq<char>) -> Seq<Seq<char>>
    decreases t.len(),
{
    if t.len() == 0 {
        seq![Seq::empty()]
    } else {
        let init = split_lines(t.drop_last());
        if t.last() == '\n' {
            init.push(Seq::empty())
        } else {
            init.update(init.len() - 1, init.last().push(t.last()))
        }
    }
}

/// No line holds a line break.
pub open spec fn no_line_breaks(lines: Seq<Seq<char>>) -> bool {
    forall|k: int, j: int| 0 <= k < lines.len() && 0 <= j < lines[k].len() ==> lines[k][j] != '\n'
}

proof fn lemma_split_nonempty(t: Seq<char>)
    ensures
        split_lines(t).len() >= 1,
    decreases t.len(),
{
    if t.len() > 0 {
        lemma_split_nonempty(t.drop_last());
    }
}

proof fn lemma_split_extend(a: Seq<char>, b: Seq<char>)
    requires
        forall|j: int| 0 <= j < b.len() ==> b[j] != '\n',
    ensures
        split_lines(a + b) == split_lines(a).update(
            split_lines(a).len() - 1,
            split_lines(a).last() + b,
        ),
    decreases b.len(),
{
    lemma_split_nonempty(a);
    if b.len() == 0 {
        assert(a + b =~= a);
        assert(split_lines(a).last() + b =~= split_lines(a).last());
        assert(split_lines(a).update(split_lines(a).len() - 1, split_lines(a).last()) =~= split_lines(a));
    } else {
        let b0 = b.drop_last();
        lemma_split_extend(a, b0);
        assert((a + b).drop_last() =~= a + b0);
        assert((a + b).last() == b.last());
        assert(split_lines(a).last() + b0 + seq![b.last()] =~= split_lines(a).last() + b);
        let s0 = split_lines(a + b0);
        assert(s0.last() == split_lines(a).last() + b0);
        assert(s0.last().push(b.last()) =~= split_lines(a).last() + b);
        assert(split_lines(a + b) =~= s0.update(s0.len() - 1, s0.last().push(b.last())));
        assert(s0.update(s0.len() - 1, s0.last().push(b.last())) =~= split_lines(a).update(
            split_lines(a).len() - 1,
            split_lines(a).last() + b,
        ));
    }
}

/// Splitting the joined text at its line breaks gives back the lines, for any
/// non-empty list of lines that hold no line break themselves.
pub proof fn lemma_join_split_round_trip(lines: Seq<Seq<char>>)
    requires
        lines.len() > 0,
        no_line_breaks(lines),
    ensures
        split_lines(join_lines(lines)) == lines,
    decreases lines.len(),
{
    let last = lines.last();
    assert(forall|j: int| 0 <= j < last.len() ==> last[j] != '\n') by {
        assert forall|j: int| 0 <= j < last.len() implies last[j] != '\n' by {
            assert(lines[lines.len() - 1][j] != '\n');
        }
    }
    if lines.len() == 1 {
        lemma_split_extend(Seq::empty(), last);
        assert(Seq::<char>::empty() + last =~= last);
        assert(Seq::<char>::empty() + last =~= lines[0]);
        assert(split_lines(Seq::empty()).update(0, Seq::<char>::empty() + last) =~= lines);
    } else {
        let init = lines.drop_last();
        assert(no_line_breaks(init)) by {
            assert forall|k: int, j: int| 0 <= k < init.len() && 0 <= j < init[k].len()
                implies init[k][j] != '\n' by {
                assert(init[k] == lines[k]);
            }
        }
        lemma_join_split_round_trip(init);
        let a = join_lines(init) + seq!['\n'];
        lemma_split_extend(a, last);
        assert(join_lines(lines) == a + last);
        assert(a.drop_last() =~= join_lines(init));
        assert(split_lines(a) == init.push(Seq::empty()));
        assert(Seq::<char>::empty() + last =~= last);
        assert(init.push(Seq::empty()).update(init.len() as int, Seq::<char>::empty() + last) =~= lines);
    }
}

/// Joins the lines with one `\n` between neighbours.
pub fn join_segments(segs: &Vec<String>) -> (r: String)
    ensures
        r@ == join_lines(string_views(segs@)),
{
    if segs.len() == 0 {
        return String::new();
    }
    let ghost v = string_views(segs@);
    let mut acc = segs[0].clone();
    proof {
        reveal_strlit("\n");
        assert(v.take(1).len() == 1);
        assert(v.take(1)[0] == segs@[0]@);
    }
    let mut i: usize = 1;
    while i < segs.len()
        invariant
            1 <= i <= segs.len(),
            v == string_views(segs@),
            acc@ == join_lines(v.take(i as int)),
        decreases segs.len() - i,
    {
        acc.append("\n");
        acc.append(segs[i].as_str());
        proof {
            reveal_strlit("\n");
            assert(v.take(i + 1).drop_last() =~= v.take(i as int));
            assert(v.take(i + 1).last() == segs@[i as int]@);
        }
        i = i + 1;
    }
    assert(v.take(segs.len() as int) =~= v);
    acc
}

} // verus!
