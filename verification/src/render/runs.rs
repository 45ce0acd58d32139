//! Backgrounds, run-length coalesced.

use vstd::prelude::*;

use super::colors::same_color;

verus! {

/// A stretch of cells with one background; `end` is outside.
#[derive(Clone, Copy, PartialEq, Eq, Debug)]
pub struct Run {
    pub start: usize,
    pub end: usize,
    pub color: [u8; 3],
}

impl Run {
    pub open spec fn covers(self, x: int) -> bool {
        self.start <= x < self.end
    }
}

/// The end of the stretch of equal colours that `from` is in.
pub open spec fn run_end(colors: Seq<Option<[u8; 3]>>, from: int) -> int
    decreases colors.len() - from,
{
    if from + 1 < colors.len() && colors[from + 1] == colors[from] {
        run_end(colors, from + 1)
    } else {
        from + 1
    }
}

/// The stretches from `from` on, longest possible, without those that have no colour.
pub open spec fn runs_from(colors: Seq<Option<[u8; 3]>>, from: int) -> Seq<Run>
    decreases colors.len() - from,
    when 0 <= from
    via run_ends_later
{
    if from >= colors.len() {
        Seq::empty()
    } else {
        let end = run_end(colors, from);
        let rest = runs_from(colors, end);
        match colors[from] {
            Some(color) => seq![Run { start: from as usize, end: end as usize, color }] + rest,
            None => rest,
        }
    }
}

#[via_fn]
proof fn run_ends_later(colors: Seq<Option<[u8; 3]>>, from: int) {
    if from < colors.len() {
        lemma_run_end(colors, from);
    }
}

/// A stretch holds one colour and ends where the colour changes or the row ends.
proof fn lemma_run_end(colors: Seq<Option<[u8; 3]>>, from: int)
    requires
        0 <= from < colors.len(),
    ensures
        from < run_end(colors, from) <= colors.len(),
        forall|x: int| from <= x < run_end(colors, from) ==> #[trigger] colors[x] == colors[from],
        run_end(colors, from) < colors.len() ==> colors[run_end(colors, from)] != colors[from],
    decreases colors.len() - from,
{
    if from + 1 < colors.len() && colors[from + 1] == colors[from] {
        lemma_run_end(colors, from + 1);
    }
}

/// A stretch that is known to end at `end` does.
proof fn lemma_run_ends_at(colors: Seq<Option<[u8; 3]>>, from: int, end: int)
    requires
        0 <= from < end <= colors.len(),
        forall|x: int| from <= x < end ==> #[trigger] colors[x] == colors[from],
        end < colors.len() ==> colors[end] != colors[from],
    ensures
        run_end(colors, from) == end,
    decreases end - from,
{
    if from + 1 < end {
        assert(colors[from + 1] == colors[from]);
        lemma_run_ends_at(colors, from + 1, end);
    }
}

/// Are two backgrounds the same?
fn same_background(a: Option<[u8; 3]>, b: Option<[u8; 3]>) -> (r: bool)
    ensures
        r == (a == b),
{
    match (a, b) {
        (Some(x), Some(y)) => same_color(x, y),
        (None, None) => true,
        _ => false,
    }
}

/// The stretches of equal colour in a row. `None` is the default background, which needs no
/// drawing.
pub fn background_runs(colors: &Vec<Option<[u8; 3]>>) -> (runs: Vec<Run>)
    ensures
        runs@ == runs_from(colors@, 0),
{
    let mut runs: Vec<Run> = Vec::new();
    let mut start: usize = 0;
    let mut color: Option<[u8; 3]> = None;
    let mut x: usize = 0;
    while x < colors.len()
        invariant
            x <= colors@.len(),
            start < x || (start == 0 && x == 0 && color is None),
            forall|j: int| start <= j < x ==> #[trigger] colors@[j] == color,
            runs@ + runs_from(colors@, start as int) == runs_from(colors@, 0),
        decreases colors@.len() - x,
    {
        let here = colors[x];
        if !same_background(here, color) {
            proof {
                if start < x {
                    assert(colors@[start as int] == color);
                    lemma_run_ends_at(colors@, start as int, x as int);
                }
            }
            let ghost before = runs@;
            if let Some(c) = color {
                runs.push(Run { start, end: x, color: c });
                assert(before + runs_from(colors@, start as int) =~= runs@ + runs_from(
                    colors@,
                    x as int,
                ));
            }
            color = here;
            start = x;
        }
        x += 1;
    }
    proof {
        assert(runs_from(colors@, x as int) =~= Seq::<Run>::empty());
        if start < x {
            assert(colors@[start as int] == color);
            lemma_run_ends_at(colors@, start as int, x as int);
        }
    }
    let ghost before = runs@;
    if let Some(c) = color {
        runs.push(Run { start, end: colors.len(), color: c });
        assert(before + runs_from(colors@, start as int) =~= runs@);
    } else {
        assert(before + runs_from(colors@, start as int) =~= runs@);
    }
    runs
}

/// The runs of a row paint every cell that has a colour, in that colour, and no other cell; they
/// come in order without overlapping; and none could be longer.
pub proof fn runs_paint_the_row(colors: Seq<Option<[u8; 3]>>, from: int)
    requires
        0 <= from <= colors.len() <= usize::MAX,
    ensures
        forall|i: int|
            0 <= i < runs_from(colors, from).len() ==> {
                let r = #[trigger] runs_from(colors, from)[i];
                from <= r.start < r.end <= colors.len()
            },
        forall|i: int, x: int|
            0 <= i < runs_from(colors, from).len() && #[trigger] runs_from(colors, from)[i].covers(
                x,
            ) ==> colors[x] == Some(runs_from(colors, from)[i].color),
        forall|x: int|
            from <= x < colors.len() && (#[trigger] colors[x]) is Some ==> exists|i: int|
                0 <= i < runs_from(colors, from).len() && #[trigger] runs_from(
                    colors,
                    from,
                )[i].covers(x),
        forall|i: int, j: int|
            0 <= i < j < runs_from(colors, from).len() ==> {
                let r = #[trigger] runs_from(colors, from)[i];
                let s = #[trigger] runs_from(colors, from)[j];
                r.end <= s.start
            },
        forall|i: int|
            0 <= i < runs_from(colors, from).len() ==> {
                let r = #[trigger] runs_from(colors, from)[i];
                r.end < colors.len() ==> colors[r.end as int] != Some(r.color)
            },
    decreases colors.len() - from,
{
    if from < colors.len() {
        lemma_run_end(colors, from);
        let end = run_end(colors, from);
        runs_paint_the_row(colors, end);
        let rest = runs_from(colors, end);
        let all = runs_from(colors, from);
        let k: int = if colors[from] is Some {
            1
        } else {
            0
        };
        assert(all.len() == rest.len() + k);
        assert forall|i: int| k <= i < all.len() implies #[trigger] all[i] == rest[i - k] by {}
        assert forall|x: int| from <= x < colors.len() && (#[trigger] colors[x]) is Some implies
            exists|i: int| 0 <= i < all.len() && #[trigger] all[i].covers(x) by {
            if x < end {
                assert(colors[x] == colors[from]);
                assert(all[0].covers(x));
            } else {
                let i = choose|i: int| 0 <= i < rest.len() && #[trigger] rest[i].covers(x);
                assert(all[i + k].covers(x));
            }
        }
    }
}

} // verus!
