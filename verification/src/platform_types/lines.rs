//! Splitting byte strings into lines.
use vstd::prelude::*;

verus! {

/// The pieces of `s` between newlines, as `split` on `b'\n'` gives them: there is
/// always one more piece than there are newlines.
pub open spec fn lines_of(s: Seq<u8>) -> Seq<Seq<u8>>
    decreases s.len(),
{
    if s.len() == 0 {
        seq![Seq::<u8>::empty()]
    } else {
        let rest = lines_of(s.drop_last());
        if s.last() == 10u8 {
            rest.push(Seq::<u8>::empty())
        } else {
            rest.update(rest.len() - 1, rest.last().push(s.last()))
        }
    }
}

pub proof fn lemma_lines_of_nonempty(s: Seq<u8>)
    ensures
        lines_of(s).len() >= 1,
    decreases s.len(),
{
    if s.len() > 0 {
        lemma_lines_of_nonempty(s.drop_last());
    }
}

/// The first of the longest of `lines`, or the empty line if there are none.
pub open spec fn first_longest(lines: Seq<Seq<u8>>) -> Seq<u8>
    decreases lines.len(),
{
    if lines.len() == 0 {
        Seq::<u8>::empty()
    } else {
        let best = first_longest(lines.drop_last());
        if lines.last().len() > best.len() {
            lines.last()
        } else {
            best
        }
    }
}

/// The lines of `bytes`, in order.
pub fn bytes_lines(bytes: &[u8]) -> (res: Vec<&[u8]>)
    ensures
        res@.map_values(|l: &[u8]| l@) == lines_of(bytes@),
{
    let mut out: Vec<&[u8]> = Vec::new();
    let mut start: usize = 0;
    let mut i: usize = 0;
    assert(bytes@.take(0) =~= Seq::<u8>::empty());
    assert(bytes@.subrange(0, 0) =~= Seq::<u8>::empty());
    assert(out@.map_values(|l: &[u8]| l@).push(Seq::<u8>::empty()) =~= seq![Seq::<u8>::empty()]);
    while i < bytes.len()
        invariant
            start <= i <= bytes.len(),
            lines_of(bytes@.take(i as int)) == out@.map_values(|l: &[u8]| l@).push(
                bytes@.subrange(start as int, i as int),
            ),
        decreases bytes.len() - i,
    {
        assert(bytes@.take(i + 1).drop_last() =~= bytes@.take(i as int));
        if bytes[i] == 10u8 {
            let line = &bytes[start..i];
            out.push(line);
            start = i + 1;
            assert(bytes@.subrange(start as int, i + 1) =~= Seq::<u8>::empty());
        } else {
            assert(bytes@.subrange(start as int, i + 1) =~= bytes@.subrange(
                start as int,
                i as int,
            ).push(bytes[i as int]));
        }
        i = i + 1;
        assert(lines_of(bytes@.take(i as int)) =~= out@.map_values(|l: &[u8]| l@).push(
            bytes@.subrange(start as int, i as int),
        ));
    }
    let last = &bytes[start..bytes.len()];
    out.push(last);
    assert(bytes@.take(bytes@.len() as int) =~= bytes@);
    assert(out@.map_values(|l: &[u8]| l@) =~= lines_of(bytes@));
    out
}

/// The first of the longest lines of `bytes`.
pub fn longest_line_of(bytes: &[u8]) -> (res: &[u8])
    ensures
        res@ == first_longest(lines_of(bytes@)),
{
    let lines = bytes_lines(bytes);
    let ghost views = lines@.map_values(|l: &[u8]| l@);
    let mut output: &[u8] = &bytes[0..0];
    let mut i: usize = 0;
    assert(views.take(0) =~= Seq::<Seq<u8>>::empty());
    while i < lines.len()
        invariant
            i <= lines.len(),
            views == lines@.map_values(|l: &[u8]| l@),
            output@ == first_longest(views.take(i as int)),
        decreases lines.len() - i,
    {
        assert(views.take(i + 1).drop_last() =~= views.take(i as int));
        let line = lines[i];
        if line.len() > output.len() {
            output = line;
        }
        i = i + 1;
    }
    assert(views.take(lines.len() as int) =~= views);
    output
}

} // verus!
