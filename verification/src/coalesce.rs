//! The run coalescer: turns a screen of per-cell styling into a minimal
//! ordered sequence of styled text runs.
//!
//! Every row contributes its cells (hidden cells masked to a space, keeping
//! their format), default-format padding spaces up to the declared width, and
//! one default-format row terminator. Adjacent characters with equal formats
//! merge into one run; the terminator merges into the last run of its row
//! exactly when that run's format is the default.

use vstd::prelude::*;

use crate::style::{default_format, format_eq, Format, Symbol};

verus! {

/// Relies on `String::push`: appends the given character to the end of the
/// string.
pub assume_specification [ String::push ](s: &mut String, ch: char)
    ensures
        final(s)@ == old(s)@.push(ch),
;

/// A styling-contiguous slice of the rendered character stream.
#[derive(Debug, PartialEq)]
pub struct Run {
    pub text: String,
    pub format: Format,
}

/// The mathematical value of a run: its characters and their common format.
#[verifier::ext_equal]
pub struct RunV {
    pub text: Seq<char>,
    pub format: Format,
}

impl View for Run {
    type V = RunV;

    open spec fn view(&self) -> RunV {
        RunV { text: self.text@, format: self.format }
    }
}

/// The values of a sequence of runs.
pub open spec fn runs_view(rs: Seq<Run>) -> Seq<RunV> {
    rs.map_values(|r: Run| r@)
}

/// The character a cell displays: hidden cells are masked to a space, all
/// others show their own character.
pub open spec fn masked_char(s: Symbol) -> char {
    if s.format.hidden {
        ' '
    } else {
        s.c
    }
}

/// The (character, format) pair a cell contributes to the rendered stream:
/// the masked character under the cell's own format.
pub open spec fn styled(s: Symbol) -> (char, Format) {
    (masked_char(s), s.format)
}

/// The stream one row contributes: its cells masked, default-format padding
/// spaces up to `width`, and one default-format row terminator.
pub open spec fn row_stream(row: Seq<Symbol>, width: int) -> Seq<(char, Format)> {
    row.map_values(|s: Symbol| styled(s)) + Seq::new(
        (width - row.len()) as nat,
        |i: int| (' ', default_format()),
    ) + seq![('\n', default_format())]
}

/// The stream a whole screen contributes: its rows' streams, top to bottom.
pub open spec fn screen_stream(rows: Seq<Seq<Symbol>>, width: int) -> Seq<(char, Format)>
    decreases rows.len(),
{
    if rows.len() == 0 {
        Seq::empty()
    } else {
        screen_stream(rows.drop_last(), width) + row_stream(rows.last(), width)
    }
}

/// One coalescing step: a character extends the last run when its format
/// matches, and opens a new run otherwise.
pub open spec fn coalesce_step(runs: Seq<RunV>, c: char, f: Format) -> Seq<RunV> {
    if runs.len() > 0 && runs.last().format == f {
        runs.update(runs.len() - 1, RunV { text: runs.last().text.push(c), format: f })
    } else {
        runs.push(RunV { text: seq![c], format: f })
    }
}

/// The maximal-run coalescing of a styled character stream.
pub open spec fn coalesce_spec(s: Seq<(char, Format)>) -> Seq<RunV>
    decreases s.len(),
{
    if s.len() == 0 {
        Seq::empty()
    } else {
        coalesce_step(coalesce_spec(s.drop_last()), s.last().0, s.last().1)
    }
}

/// The runs held by an optional trailing run.
pub open spec fn opt_run(o: Option<Run>) -> Seq<RunV> {
    match o {
        Some(r) => seq![r@],
        None => Seq::empty(),
    }
}

/// Appending one element to a stream coalesces as one more step.
proof fn lemma_coalesce_snoc(s: Seq<(char, Format)>, x: (char, Format))
    ensures
        coalesce_spec(s.push(x)) == coalesce_step(coalesce_spec(s), x.0, x.1),
{
    assert(s.push(x).drop_last() =~= s);
    assert(s.push(x).last() == x);
}

/// Taking one more row extends the screen stream by that row's stream.
proof fn lemma_screen_stream_snoc(rows: Seq<Seq<Symbol>>, width: int, i: int)
    requires
        0 <= i < rows.len(),
    ensures
        screen_stream(rows.take(i + 1), width) == screen_stream(rows.take(i), width) + row_stream(
            rows[i],
            width,
        ),
{
    assert(rows.take(i + 1).drop_last() =~= rows.take(i));
    assert(rows.take(i + 1).last() == rows[i]);
    assert(rows.take(i + 1).len() == i + 1);
}

/// Feeds one styled character into the accumulated runs: `out` holds the
/// finished runs and `cur` the still-open trailing run.
fn push_styled(out: &mut Vec<Run>, cur: Option<Run>, c: char, f: Format) -> (res: Option<Run>)
    requires
        cur is None ==> old(out)@.len() == 0,
        cur matches Some(r) ==> r@.text.len() > 0,
    ensures
        res matches Some(r) && r@.text.len() > 0,
        runs_view(final(out)@) + opt_run(res) == coalesce_step(
            runs_view(old(out)@) + opt_run(cur),
            c,
            f,
        ),
{
    match cur {
        None => {
            let mut text = String::new();
            text.push(c);
            let r = Run { text, format: f };
            proof {
                assert(r@.text =~= seq![c]);
                assert(runs_view(old(out)@) + opt_run(None) =~= Seq::<RunV>::empty());
                assert(runs_view(out@) + opt_run(Some(r)) =~= coalesce_step(
                    runs_view(old(out)@) + opt_run(None),
                    c,
                    f,
                ));
            }
            Some(r)
        },
        Some(mut r) => {
            let ghost r0 = r@;
            if format_eq(&r.format, &f) {
                r.text.push(c);
                proof {
                    assert(runs_view(old(out)@) + seq![r0] =~= runs_view(old(out)@).push(r0));
                    assert((runs_view(old(out)@).push(r0)).last() == r0);
                    assert(r@.text == r0.text.push(c));
                    assert(runs_view(out@) + opt_run(Some(r)) =~= coalesce_step(
                        runs_view(old(out)@).push(r0),
                        c,
                        f,
                    ));
                }
                Some(r)
            } else {
                let mut text = String::new();
                text.push(c);
                out.push(r);
                let nr = Run { text, format: f };
                proof {
                    assert(nr@.text =~= seq![c]);
                    assert(runs_view(old(out)@) + seq![r0] =~= runs_view(old(out)@).push(r0));
                    assert((runs_view(old(out)@).push(r0)).last() == r0);
                    assert(runs_view(out@) =~= runs_view(old(out)@).push(r0));
                    assert(runs_view(out@) + opt_run(Some(nr)) =~= coalesce_step(
                        runs_view(old(out)@).push(r0),
                        c,
                        f,
                    ));
                }
                Some(nr)
            }
        },
    }
}

/// The deep value of a vector of rows.
pub open spec fn rows_deep(rs: Seq<Vec<Symbol>>) -> Seq<Seq<Symbol>> {
    rs.map_values(|v: Vec<Symbol>| v@)
}

/// Coalesces a screen snapshot — rows of at most `width` visible cells — into
/// the minimal ordered sequence of styled runs of its rendered stream.
pub fn coalesce(rows: &Vec<Vec<Symbol>>, width: usize) -> (runs: Vec<Run>)
    requires
        forall|k: int| 0 <= k < rows@.len() ==> #[trigger] rows@[k]@.len() <= width,
    ensures
        runs_view(runs@) == coalesce_spec(screen_stream(rows_deep(rows@), width as int)),
{
    let ghost all = rows_deep(rows@);
    let mut out: Vec<Run> = Vec::new();
    let mut cur: Option<Run> = None;
    let ghost mut done: Seq<(char, Format)> = Seq::empty();
    proof {
        assert(all.take(0) =~= Seq::<Seq<Symbol>>::empty());
        assert(runs_view(out@) + opt_run(cur) =~= coalesce_spec(done));
    }
    let mut i: usize = 0;
    while i < rows.len()
        invariant
            forall|k: int| 0 <= k < rows@.len() ==> #[trigger] rows@[k]@.len() <= width,
            all == rows_deep(rows@),
            i <= rows@.len(),
            cur is None ==> out@.len() == 0,
            cur matches Some(r) ==> r@.text.len() > 0,
            runs_view(out@) + opt_run(cur) == coalesce_spec(done),
            done == screen_stream(all.take(i as int), width as int),
        decreases rows@.len() - i,
    {
        let row = &rows[i];
        let ghost base = done;
        let ghost rowv = row@;
        proof {
            assert(rowv == all[i as int]);
            assert(rowv.take(0).map_values(|s: Symbol| styled(s)) =~= Seq::<(char, Format)>::empty());
            assert(done =~= base + rowv.take(0).map_values(|s: Symbol| styled(s)));
        }
        let mut j: usize = 0;
        while j < row.len()
            invariant
                j <= row@.len(),
                row@ == rowv,
                rowv.len() <= width,
                cur is None ==> out@.len() == 0,
                cur matches Some(r) ==> r@.text.len() > 0,
                runs_view(out@) + opt_run(cur) == coalesce_spec(done),
                done == base + rowv.take(j as int).map_values(|s: Symbol| styled(s)),
            decreases row@.len() - j,
        {
            let s = &row[j];
            let c = if s.format.hidden {
                ' '
            } else {
                s.c
            };
            proof {
                lemma_coalesce_snoc(done, (c, s.format));
            }
            cur = push_styled(&mut out, cur, c, s.format);
            proof {
                done = done.push((c, s.format));
                assert(rowv.take(j + 1).map_values(|sy: Symbol| styled(sy)) =~= rowv.take(
                    j as int,
                ).map_values(|sy: Symbol| styled(sy)).push(styled(rowv[j as int])));
            }
            j = j + 1;
        }
        let ghost pad_base = done;
        proof {
            assert(rowv.take(rowv.len() as int) =~= rowv);
            assert(Seq::new(0, |q: int| (' ', default_format())) =~= Seq::<(char, Format)>::empty());
            assert(done =~= base + rowv.map_values(|sy: Symbol| styled(sy)) + Seq::new(
                0,
                |q: int| (' ', default_format()),
            ));
        }
        let mut p: usize = row.len();
        while p < width
            invariant
                rowv.len() <= p <= width,
                cur is None ==> out@.len() == 0,
                cur matches Some(r) ==> r@.text.len() > 0,
                runs_view(out@) + opt_run(cur) == coalesce_spec(done),
                done == base + rowv.map_values(|sy: Symbol| styled(sy)) + Seq::new(
                    (p - rowv.len()) as nat,
                    |q: int| (' ', default_format()),
                ),
            decreases width - p,
        {
            let f = Format::default();
            proof {
                lemma_coalesce_snoc(done, (' ', f));
            }
            cur = push_styled(&mut out, cur, ' ', f);
            proof {
                done = done.push((' ', f));
                assert(Seq::new((p + 1 - rowv.len()) as nat, |q: int| (' ', default_format()))
                    =~= Seq::new((p - rowv.len()) as nat, |q: int| (' ', default_format())).push(
                    (' ', default_format()),
                ));
                assert(done =~= base + rowv.map_values(|sy: Symbol| styled(sy)) + Seq::new(
                    (p + 1 - rowv.len()) as nat,
                    |q: int| (' ', default_format()),
                ));
            }
            p = p + 1;
        }
        let f = Format::default();
        proof {
            lemma_coalesce_snoc(done, ('\n', f));
        }
        cur = push_styled(&mut out, cur, '\n', f);
        proof {
            done = done.push(('\n', f));
            lemma_screen_stream_snoc(all, width as int, i as int);
            assert(done =~= screen_stream(all.take(i as int), width as int) + row_stream(
                all[i as int],
                width as int,
            ));
            assert(done == screen_stream(all.take(i as int + 1), width as int));
        }
        i = i + 1;
    }
    proof {
        assert(all.take(rows@.len() as int) =~= all);
    }
    let ghost pre = out@;
    match cur {
        Some(r) => {
            let ghost rv = r@;
            out.push(r);
            proof {
                assert(runs_view(out@) =~= runs_view(pre).push(rv));
                assert(runs_view(pre) + seq![rv] =~= runs_view(pre).push(rv));
            }
        },
        None => {
            proof {
                assert(runs_view(out@) + opt_run(Option::<Run>::None) =~= runs_view(out@));
            }
        },
    }
    proof {
        assert(runs_view(out@) == coalesce_spec(screen_stream(rows_deep(rows@), width as int)));
    }
    out
}

/// The characters of a sequence of runs, concatenated in order.
pub open spec fn runs_chars(rs: Seq<RunV>) -> Seq<char>
    decreases rs.len(),
{
    if rs.len() == 0 {
        Seq::empty()
    } else {
        runs_chars(rs.drop_last()) + rs.last().text
    }
}

/// The characters of a styled stream, formats forgotten.
pub open spec fn stream_chars(s: Seq<(char, Format)>) -> Seq<char> {
    s.map_values(|p: (char, Format)| p.0)
}

/// The characters one row contributes to the rendered stream: its masked
/// cells, padding spaces, and the row terminator.
pub open spec fn row_chars(row: Seq<Symbol>, width: int) -> Seq<char> {
    stream_chars(row_stream(row, width))
}

/// Maximality: every run a coalescing produces is nonempty, and no two
/// adjacent runs share a format.
pub proof fn lemma_coalesce_maximal(s: Seq<(char, Format)>)
    ensures
        forall|i: int|
            0 <= i < coalesce_spec(s).len() ==> (#[trigger] coalesce_spec(s)[i]).text.len() > 0,
        forall|i: int|
            0 <= i && i + 1 < coalesce_spec(s).len() ==> (#[trigger] coalesce_spec(s)[i]).format
                != coalesce_spec(s)[i + 1].format,
    decreases s.len(),
{
    if s.len() == 0 {
    } else {
        lemma_coalesce_maximal(s.drop_last());
        let r0 = coalesce_spec(s.drop_last());
        let r1 = coalesce_spec(s);
        let c = s.last().0;
        let f = s.last().1;
        if r0.len() > 0 && r0.last().format == f {
            assert(r1 == r0.update(
                r0.len() - 1,
                RunV { text: r0.last().text.push(c), format: f },
            ));
            assert forall|i: int| 0 <= i < r1.len() implies (#[trigger] r1[i]).text.len() > 0 by {
                if i < r0.len() - 1 {
                    assert(r1[i] == r0[i]);
                }
            }
            assert forall|i: int| 0 <= i && i + 1 < r1.len() implies (#[trigger] r1[i]).format
                != r1[i + 1].format by {
                assert(r0[i].format != r0[i + 1].format);
                assert(r1[i].format == r0[i].format);
                assert(r1[i + 1].format == r0[i + 1].format);
            }
        } else {
            assert(r1 == r0.push(RunV { text: seq![c], format: f }));
            assert forall|i: int| 0 <= i < r1.len() implies (#[trigger] r1[i]).text.len() > 0 by {
                if i < r0.len() {
                    assert(r1[i] == r0[i]);
                } else {
                    assert(r1[i].text == seq![c]);
                }
            }
            assert forall|i: int| 0 <= i && i + 1 < r1.len() implies (#[trigger] r1[i]).format
                != r1[i + 1].format by {
                if i + 1 < r0.len() {
                    assert(r1[i] == r0[i] && r1[i + 1] == r0[i + 1]);
                } else {
                    assert(r1[i] == r0.last());
                    assert(r1[i + 1].format == f);
                }
            }
        }
    }
}

/// Round trip: concatenating the texts of a stream's coalesced runs
/// reproduces the stream's characters exactly.
pub proof fn lemma_coalesce_round_trip(s: Seq<(char, Format)>)
    ensures
        runs_chars(coalesce_spec(s)) == stream_chars(s),
    decreases s.len(),
{
    if s.len() == 0 {
        assert(runs_chars(coalesce_spec(s)) =~= stream_chars(s));
    } else {
        lemma_coalesce_round_trip(s.drop_last());
        let r0 = coalesce_spec(s.drop_last());
        let r1 = coalesce_spec(s);
        let c = s.last().0;
        let f = s.last().1;
        assert(stream_chars(s) =~= stream_chars(s.drop_last()).push(c));
        if r0.len() > 0 && r0.last().format == f {
            assert(r1.drop_last() =~= r0.drop_last());
            assert(r1.last() == RunV { text: r0.last().text.push(c), format: f });
            assert(runs_chars(r1) == runs_chars(r0.drop_last()) + r0.last().text.push(c));
            assert(runs_chars(r0.drop_last()) + r0.last().text.push(c) =~= (runs_chars(
                r0.drop_last(),
            ) + r0.last().text).push(c));
            assert(runs_chars(r1) == runs_chars(r0).push(c));
        } else {
            assert(r1.drop_last() =~= r0);
            assert(r1.last() == RunV { text: seq![c], format: f });
            assert(runs_chars(r1) == runs_chars(r0) + seq![c]);
            assert(runs_chars(r0) + seq![c] =~= runs_chars(r0).push(c));
        }
    }
}

/// Determinism: coalescing the same screen snapshot twice yields identical
/// run sequences, since the output is a function of the snapshot alone.
pub proof fn lemma_coalesce_deterministic(
    rows: Seq<Seq<Symbol>>,
    width: int,
    r1: Seq<RunV>,
    r2: Seq<RunV>,
)
    requires
        r1 == coalesce_spec(screen_stream(rows, width)),
        r2 == coalesce_spec(screen_stream(rows, width)),
    ensures
        r1 == r2,
{
}

/// The characters of a concatenation are the concatenated characters.
proof fn lemma_stream_chars_concat(a: Seq<(char, Format)>, b: Seq<(char, Format)>)
    ensures
        stream_chars(a + b) == stream_chars(a) + stream_chars(b),
{
    assert(stream_chars(a + b) =~= stream_chars(a) + stream_chars(b));
}

/// Round trip at screen level: the coalesced output's characters split into
/// one segment of `width + 1` characters per row, and each segment is that
/// row's masked cells, padding, and terminator. Dropping the final terminator
/// character of each segment recovers the snapshot's rendered rows.
pub proof fn lemma_screen_round_trip(rows: Seq<Seq<Symbol>>, width: int)
    requires
        width >= 0,
        forall|k: int| 0 <= k < rows.len() ==> (#[trigger] rows[k]).len() <= width,
    ensures
        runs_chars(coalesce_spec(screen_stream(rows, width))) == stream_chars(
            screen_stream(rows, width),
        ),
        stream_chars(screen_stream(rows, width)).len() == rows.len() * (width + 1),
        forall|i: int|
            0 <= i < rows.len() ==> stream_chars(screen_stream(rows, width)).subrange(
                i * (width + 1),
                (i + 1) * (width + 1),
            ) == row_chars(#[trigger] rows[i], width),
    decreases rows.len(),
{
    lemma_coalesce_round_trip(screen_stream(rows, width));
    if rows.len() == 0 {
    } else {
        let n = rows.len() as int;
        assert forall|k: int| 0 <= k < rows.drop_last().len() implies
            (#[trigger] rows.drop_last()[k]).len() <= width by {
            assert(rows.drop_last()[k] == rows[k]);
        }
        lemma_screen_round_trip(rows.drop_last(), width);
        let a = stream_chars(screen_stream(rows.drop_last(), width));
        let b = row_chars(rows.last(), width);
        lemma_stream_chars_concat(
            screen_stream(rows.drop_last(), width),
            row_stream(rows.last(), width),
        );
        let all = stream_chars(screen_stream(rows, width));
        assert(all == a + b);
        assert(rows[n - 1].len() <= width);
        assert(b.len() == width + 1);
        assert((n - 1) * (width + 1) + (width + 1) == n * (width + 1)) by (nonlinear_arith);
        assert forall|i: int| 0 <= i < n implies all.subrange(i * (width + 1), (i + 1) * (width + 1))
            == row_chars(#[trigger] rows[i], width) by {
            assert(i * (width + 1) >= 0) by (nonlinear_arith)
                requires i >= 0, width >= 0;
            assert((i + 1) * (width + 1) == i * (width + 1) + (width + 1)) by (nonlinear_arith);
            if i < n - 1 {
                assert((i + 1) * (width + 1) <= (n - 1) * (width + 1)) by (nonlinear_arith)
                    requires i + 1 <= n - 1, width + 1 >= 0;
                assert(rows.drop_last()[i] == rows[i]);
                assert(all.subrange(i * (width + 1), (i + 1) * (width + 1)) =~= a.subrange(
                    i * (width + 1),
                    (i + 1) * (width + 1),
                ));
            } else {
                assert(rows.last() == rows[i]);
                assert(all.subrange((n - 1) * (width + 1), n * (width + 1)) =~= b);
            }
        }
    }
}

/// A full-width row with no hidden cells contributes exactly its own
/// characters followed by the row terminator.
pub proof fn lemma_row_chars_exact(row: Seq<Symbol>, width: int)
    requires
        row.len() == width,
        forall|j: int| 0 <= j < row.len() ==> !(#[trigger] row[j]).format.hidden,
    ensures
        row_chars(row, width) == row.map_values(|s: Symbol| s.c).push('\n'),
{
    assert(row_chars(row, width) =~= row.map_values(|s: Symbol| s.c).push('\n'));
}

} // verus!
