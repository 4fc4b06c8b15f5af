//! The plan of `Parquet.repack`: how the rows of the input batches are cut
//! into output files of at most `rows_per_file` rows.
//!
//! The bindings read the batches and carry out the steps; the planner
//! decides, batch by batch, when an output is opened, which slice of the
//! batch goes into it, and when it is full and closed.

use crate::text::{nat_text, push_nat, push_str};
use vstd::prelude::*;

verus! {

broadcast use vstd::string::group_string_axioms;

/// Where the repacking stands between batches.
#[derive(Clone, Copy, Debug, PartialEq, Eq, Structural)]
pub struct RepackState {
    /// The index the next output file gets.
    pub output_index: usize,
    /// The rows written to the open output.
    pub current_output_rows: usize,
    /// Whether an output is open.
    pub has_output: bool,
}

/// One step of writing a batch.
#[derive(Clone, Copy, Debug, PartialEq, Eq, Structural)]
pub enum RepackStep {
    /// Open the output with this index.
    Open(usize),
    /// Write `rows` rows of the batch, starting at `offset`, to the open output.
    Write { offset: usize, rows: usize },
    /// Close the open output, which is full.
    Close,
}

/// A state from which planning makes progress: a bounded output is never
/// full while open, and no rows are counted without an open output.
pub open spec fn repack_wf(s: RepackState, rows_per_file: Option<usize>) -> bool {
    &&& rows_per_file != Some(0usize)
    &&& rows_per_file matches Some(r) ==> s.current_output_rows < r
    &&& !s.has_output ==> s.current_output_rows == 0
}

/// The state before the first batch.
pub open spec fn repack_start() -> RepackState {
    RepackState { output_index: 0, current_output_rows: 0, has_output: false }
}

impl RepackState {
    /// The state before the first batch: no output open, none written.
    pub fn new() -> (r: Self)
        ensures
            r == repack_start(),
    {
        RepackState { output_index: 0, current_output_rows: 0, has_output: false }
    }
}

/// The steps that write rows `off..n` of a batch, and the state after them.
pub open spec fn plan_spec(s: RepackState, off: nat, n: nat, rows_per_file: Option<usize>) -> (Seq<RepackStep>, RepackState)
    decreases n - off,
{
    if off >= n {
        (Seq::empty(), s)
    } else {
        let opened = if s.has_output {
            Seq::<RepackStep>::empty()
        } else {
            seq![RepackStep::Open(s.output_index)]
        };
        let remaining = n - off;
        let w: int = match rows_per_file {
            Some(r) => if remaining <= r - s.current_output_rows {
                remaining
            } else {
                r - s.current_output_rows
            },
            None => remaining,
        };
        if w <= 0 {
            (Seq::empty(), s)
        } else {
            let rows = s.current_output_rows + w;
            let full = rows_per_file == Some(rows as usize);
            let next = if full {
                RepackState { output_index: (s.output_index + 1) as usize, current_output_rows: 0, has_output: false }
            } else {
                RepackState { output_index: s.output_index, current_output_rows: rows as usize, has_output: true }
            };
            let step = seq![RepackStep::Write { offset: off as usize, rows: w as usize }];
            let closed = if full {
                seq![RepackStep::Close]
            } else {
                Seq::<RepackStep>::empty()
            };
            let rest = plan_spec(next, off + w as nat, n, rows_per_file);
            (opened + step + closed + rest.0, rest.1)
        }
    }
}

/// The rows the write steps of a plan write.
pub open spec fn written_rows(steps: Seq<RepackStep>) -> int
    decreases steps.len(),
{
    if steps.len() == 0 {
        0
    } else {
        written_rows(steps.drop_last()) + match steps.last() {
            RepackStep::Write { rows, .. } => rows as int,
            _ => 0,
        }
    }
}

proof fn lemma_written_rows_append(a: Seq<RepackStep>, b: Seq<RepackStep>)
    ensures
        written_rows(a + b) == written_rows(a) + written_rows(b),
    decreases b.len(),
{
    if b.len() == 0 {
        assert(a + b =~= a);
    } else {
        assert((a + b).drop_last() =~= a + b.drop_last());
        lemma_written_rows_append(a, b.drop_last());
    }
}

/// Planning a batch writes each of its rows exactly once: the rows the
/// write steps write add up to the rows of the batch, and the state after
/// the batch is again one from which planning makes progress.
pub proof fn law_repack_plan_writes_every_row(s: RepackState, off: nat, n: nat, rows_per_file: Option<usize>)
    requires
        repack_wf(s, rows_per_file),
        off <= n <= usize::MAX,
        s.current_output_rows + (n - off) <= usize::MAX,
        s.output_index + (n - off) <= usize::MAX,
    ensures
        written_rows(plan_spec(s, off, n, rows_per_file).0) == n - off,
        repack_wf(plan_spec(s, off, n, rows_per_file).1, rows_per_file),
    decreases n - off,
{
    if off < n {
        let opened = if s.has_output {
            Seq::<RepackStep>::empty()
        } else {
            seq![RepackStep::Open(s.output_index)]
        };
        let remaining = n - off;
        let w: int = match rows_per_file {
            Some(r) => if remaining <= r - s.current_output_rows {
                remaining
            } else {
                r - s.current_output_rows
            },
            None => remaining,
        };
        assert(w > 0);
        let rows = s.current_output_rows + w;
        let full = rows_per_file == Some(rows as usize);
        let next = if full {
            RepackState { output_index: (s.output_index + 1) as usize, current_output_rows: 0, has_output: false }
        } else {
            RepackState { output_index: s.output_index, current_output_rows: rows as usize, has_output: true }
        };
        let step = seq![RepackStep::Write { offset: off as usize, rows: w as usize }];
        let closed = if full {
            seq![RepackStep::Close]
        } else {
            Seq::<RepackStep>::empty()
        };
        law_repack_plan_writes_every_row(next, off + w as nat, n, rows_per_file);
        let rest = plan_spec(next, off + w as nat, n, rows_per_file);
        lemma_written_rows_append(opened + step + closed, rest.0);
        lemma_written_rows_append(opened + step, closed);
        lemma_written_rows_append(opened, step);
        assert(written_rows(opened) == 0) by {
            reveal_with_fuel(written_rows, 2);
            if !s.has_output {
                assert(opened.drop_last() =~= Seq::<RepackStep>::empty());
            }
        }
        assert(written_rows(closed) == 0) by {
            reveal_with_fuel(written_rows, 2);
            if full {
                assert(closed.drop_last() =~= Seq::<RepackStep>::empty());
            }
        }
        assert(written_rows(step) == w) by {
            reveal_with_fuel(written_rows, 2);
            assert(step.drop_last() =~= Seq::<RepackStep>::empty());
        }
        assert(rows_per_file matches Some(r) ==> rows <= r);
    }
}

/// How many outputs an `Open` step starts, and how many a `Close` step
/// finishes, in `steps`.
pub open spec fn opened_outputs(steps: Seq<RepackStep>) -> nat
    decreases steps.len(),
{
    if steps.len() == 0 {
        0
    } else {
        opened_outputs(steps.drop_last()) + if steps.last() is Open {
            1nat
        } else {
            0nat
        }
    }
}

pub open spec fn closed_outputs(steps: Seq<RepackStep>) -> nat
    decreases steps.len(),
{
    if steps.len() == 0 {
        0
    } else {
        closed_outputs(steps.drop_last()) + if steps.last() is Close {
            1nat
        } else {
            0nat
        }
    }
}

proof fn lemma_outputs_append(a: Seq<RepackStep>, b: Seq<RepackStep>)
    ensures
        opened_outputs(a + b) == opened_outputs(a) + opened_outputs(b),
        closed_outputs(a + b) == closed_outputs(a) + closed_outputs(b),
    decreases b.len(),
{
    if b.len() == 0 {
        assert(a + b =~= a);
    } else {
        assert((a + b).drop_last() =~= a + b.drop_last());
        lemma_outputs_append(a, b.drop_last());
    }
}

/// The outputs that `t` rows fill completely: `t / n` for `n` rows per
/// file, none without a bound.
pub open spec fn full_outputs(t: nat, rows_per_file: Option<usize>) -> nat {
    match rows_per_file {
        Some(n) => t / (n as nat),
        None => 0,
    }
}

/// The outputs that `t` rows need: `ceil(t / n)` for `n` rows per file,
/// and one output for any rows without a bound.
pub open spec fn needed_outputs(t: nat, rows_per_file: Option<usize>) -> nat {
    match rows_per_file {
        Some(n) => ((t + n - 1) / (n as int)) as nat,
        None => if t > 0 {
            1
        } else {
            0
        },
    }
}

/// The planner's state once `t` rows are written: the full outputs are
/// closed, and an output holding the remaining rows is open if there are
/// any.
pub open spec fn state_after(t: nat, rows_per_file: Option<usize>) -> RepackState {
    match rows_per_file {
        Some(n) => RepackState {
            output_index: (t / (n as nat)) as usize,
            current_output_rows: (t % (n as nat)) as usize,
            has_output: t % (n as nat) != 0,
        },
        None => RepackState { output_index: 0, current_output_rows: t as usize, has_output: t > 0 },
    }
}

/// One planning step from `state_after(t)` (see `plan_spec`).
proof fn lemma_step_counts(t: nat, w: int, rows_per_file: Option<usize>)
    requires
        rows_per_file != Some(0usize),
        w > 0,
        t + w <= usize::MAX,
        rows_per_file matches Some(n) ==> state_after(t, rows_per_file).current_output_rows + w <= n,
    ensures
        ({
            let s = state_after(t, rows_per_file);
            let rows = s.current_output_rows + w;
            let full = rows_per_file == Some(rows as usize);
            let next = if full {
                RepackState { output_index: (s.output_index + 1) as usize, current_output_rows: 0, has_output: false }
            } else {
                RepackState { output_index: s.output_index, current_output_rows: rows as usize, has_output: true }
            };
            &&& next == state_after((t + w) as nat, rows_per_file)
            &&& needed_outputs((t + w) as nat, rows_per_file) == needed_outputs(t, rows_per_file) + if s.has_output {
                0nat
            } else {
                1nat
            }
            &&& full_outputs((t + w) as nat, rows_per_file) == full_outputs(t, rows_per_file) + if full {
                1nat
            } else {
                0nat
            }
        }),
{
    match rows_per_file {
        None => {},
        Some(n) => {
            let d = n as int;
            let q = t as int / d;
            let c = t as int % d;
            vstd::arithmetic::div_mod::lemma_fundamental_div_mod(t as int, d);
            let qd = q * d;
            assert(d * q == qd && (q + 1) * d == qd + d) by (nonlinear_arith)
                requires
                    qd == q * d,
            ;
            assert(t == qd + c);
            let rows = c + w;
            let x = t + w;
            if c == 0 {
                vstd::arithmetic::div_mod::lemma_fundamental_div_mod_converse(t + d - 1, d, q, d - 1);
            } else {
                vstd::arithmetic::div_mod::lemma_fundamental_div_mod_converse(t + d - 1, d, q + 1, c - 1);
            }
            if rows == d {
                vstd::arithmetic::div_mod::lemma_fundamental_div_mod_converse(x, d, q + 1, 0);
                vstd::arithmetic::div_mod::lemma_fundamental_div_mod_converse(x + d - 1, d, q + 1, d - 1);
            } else {
                vstd::arithmetic::div_mod::lemma_fundamental_div_mod_converse(x, d, q, rows);
                vstd::arithmetic::div_mod::lemma_fundamental_div_mod_converse(x + d - 1, d, q + 1, rows - 1);
            }
            assert(x / d <= x) by {
                vstd::arithmetic::div_mod::lemma_div_is_ordered_by_denominator(x, 1, d);
            }
        },
    }
}

/// What the state after `t` rows says of the outputs: an output is open
/// exactly when the rows need one more output than they fill, and the
/// state after no rows is the start.
proof fn lemma_state_after_outputs(t: nat, rows_per_file: Option<usize>)
    requires
        rows_per_file != Some(0usize),
    ensures
        state_after(0, rows_per_file) == repack_start(),
        state_after(t, rows_per_file).has_output <==> needed_outputs(t, rows_per_file) == full_outputs(
            t,
            rows_per_file,
        ) + 1,
        !state_after(t, rows_per_file).has_output <==> needed_outputs(t, rows_per_file) == full_outputs(
            t,
            rows_per_file,
        ),
{
    match rows_per_file {
        Some(n) => {
            let d = n as int;
            let q = t as int / d;
            let c = t as int % d;
            vstd::arithmetic::div_mod::lemma_fundamental_div_mod(t as int, d);
            let qd = q * d;
            assert(d * q == qd && (q + 1) * d == qd + d) by (nonlinear_arith)
                requires
                    qd == q * d,
            ;
            if c == 0 {
                vstd::arithmetic::div_mod::lemma_fundamental_div_mod_converse(t + d - 1, d, q, d - 1);
            } else {
                vstd::arithmetic::div_mod::lemma_fundamental_div_mod_converse(t + d - 1, d, q + 1, c - 1);
            }
            vstd::arithmetic::div_mod::lemma_fundamental_div_mod_converse(0, d, 0, 0);
        },
        None => {},
    }
}

/// How planning composes across batches: from the state after `t` rows,
/// planning rows `off..n` of a batch leads to the state after
/// `t + (n - off)` rows, opens as many outputs as those rows need beyond
/// the ones the first `t` needed, and closes as many as they fill beyond
/// the ones the first `t` filled. Outputs are only closed full, so over
/// all batches of `R` rows in total (from `repack_start`, which is the
/// state after no rows), `needed_outputs(R)` files are opened (`ceil(R /
/// rows_per_file)`), `full_outputs(R)` of them are closed full while
/// planning, and `finish_plan` closes the last one exactly when it holds
/// the remaining `R % rows_per_file` rows: no output is ever empty.
pub proof fn law_repack_outputs_follow_rows(t: nat, off: nat, n: nat, rows_per_file: Option<usize>)
    requires
        rows_per_file != Some(0usize),
        off <= n,
        t + (n - off) <= usize::MAX,
    ensures
        state_after(0, rows_per_file) == repack_start(),
        plan_spec(state_after(t, rows_per_file), off, n, rows_per_file).1 == state_after(
            (t + (n - off)) as nat,
            rows_per_file,
        ),
        opened_outputs(plan_spec(state_after(t, rows_per_file), off, n, rows_per_file).0)
            == needed_outputs((t + (n - off)) as nat, rows_per_file) - needed_outputs(t, rows_per_file),
        closed_outputs(plan_spec(state_after(t, rows_per_file), off, n, rows_per_file).0)
            == full_outputs((t + (n - off)) as nat, rows_per_file) - full_outputs(t, rows_per_file),
        state_after(t, rows_per_file).has_output <==> needed_outputs(t, rows_per_file) == full_outputs(
            t,
            rows_per_file,
        ) + 1,
        !state_after(t, rows_per_file).has_output <==> needed_outputs(t, rows_per_file) == full_outputs(
            t,
            rows_per_file,
        ),
    decreases n - off,
{
    let s = state_after(t, rows_per_file);
    lemma_state_after_outputs(t, rows_per_file);
    if off < n {
        let remaining = n - off;
        let w: int = match rows_per_file {
            Some(r) => if remaining <= r - s.current_output_rows {
                remaining
            } else {
                r - s.current_output_rows
            },
            None => remaining,
        };
        assert(w > 0);
        lemma_step_counts(t, w, rows_per_file);
        let rows = s.current_output_rows + w;
        let full = rows_per_file == Some(rows as usize);
        let next = state_after((t + w) as nat, rows_per_file);
        let opened = if s.has_output {
            Seq::<RepackStep>::empty()
        } else {
            seq![RepackStep::Open(s.output_index)]
        };
        let step = seq![RepackStep::Write { offset: off as usize, rows: w as usize }];
        let closed = if full {
            seq![RepackStep::Close]
        } else {
            Seq::<RepackStep>::empty()
        };
        law_repack_outputs_follow_rows((t + w) as nat, off + w as nat, n, rows_per_file);
        let rest = plan_spec(next, off + w as nat, n, rows_per_file);
        lemma_outputs_append(opened + step + closed, rest.0);
        lemma_outputs_append(opened + step, closed);
        lemma_outputs_append(opened, step);
        reveal_with_fuel(opened_outputs, 2);
        reveal_with_fuel(closed_outputs, 2);
        if !s.has_output {
            assert(opened.drop_last() =~= Seq::<RepackStep>::empty());
        }
        if full {
            assert(closed.drop_last() =~= Seq::<RepackStep>::empty());
        }
        assert(step.drop_last() =~= Seq::<RepackStep>::empty());
        assert(plan_spec(s, off, n, rows_per_file) == (opened + step + closed + rest.0, rest.1));
    }
}

/// The steps that write a batch of `batch_rows` rows (see `plan_spec`),
/// advancing `state` past the batch.
pub fn plan_batch(state: &mut RepackState, batch_rows: usize, rows_per_file: Option<usize>) -> (r: Vec<RepackStep>)
    requires
        repack_wf(*old(state), rows_per_file),
        old(state).current_output_rows + batch_rows <= usize::MAX,
        old(state).output_index + batch_rows <= usize::MAX,
    ensures
        (r@, *final(state)) == plan_spec(*old(state), 0, batch_rows as nat, rows_per_file),
        repack_wf(*final(state), rows_per_file),
{
    let mut steps: Vec<RepackStep> = Vec::new();
    let mut offset: usize = 0;
    let ghost start = *state;
    proof {
        law_repack_plan_writes_every_row(start, 0, batch_rows as nat, rows_per_file);
    }
    while offset < batch_rows
        invariant
            offset <= batch_rows,
            repack_wf(*state, rows_per_file),
            state.current_output_rows + (batch_rows - offset) <= usize::MAX,
            state.output_index + (batch_rows - offset) <= usize::MAX,
            ({
                let tail = plan_spec(*state, offset as nat, batch_rows as nat, rows_per_file);
                plan_spec(start, 0, batch_rows as nat, rows_per_file) == (steps@ + tail.0, tail.1)
            }),
        decreases batch_rows - offset,
    {
        let ghost before = *state;
        let ghost before_steps = steps@;
        if !state.has_output {
            steps.push(RepackStep::Open(state.output_index));
            state.has_output = true;
        }
        let remaining = batch_rows - offset;
        let w = match rows_per_file {
            Some(r) => if remaining <= r - state.current_output_rows {
                remaining
            } else {
                r - state.current_output_rows
            },
            None => remaining,
        };
        steps.push(RepackStep::Write { offset, rows: w });
        offset = offset + w;
        state.current_output_rows = state.current_output_rows + w;
        let full = match rows_per_file {
            Some(r) => r == state.current_output_rows,
            None => false,
        };
        if full {
            steps.push(RepackStep::Close);
            state.output_index = state.output_index + 1;
            state.current_output_rows = 0;
            state.has_output = false;
        }
        proof {
            let opened = if before.has_output {
                Seq::<RepackStep>::empty()
            } else {
                seq![RepackStep::Open(before.output_index)]
            };
            let step = seq![RepackStep::Write { offset: (offset - w) as usize, rows: w }];
            let closed = if full {
                seq![RepackStep::Close]
            } else {
                Seq::<RepackStep>::empty()
            };
            assert(steps@ =~= before_steps + (opened + step + closed));
            let tail = plan_spec(*state, offset as nat, batch_rows as nat, rows_per_file);
            assert(plan_spec(before, (offset - w) as nat, batch_rows as nat, rows_per_file) == (
            opened + step + closed + tail.0, tail.1));
            assert(before_steps + (opened + step + closed + tail.0) =~= steps@ + tail.0);
        }
    }
    steps
}

/// The steps after the last batch: the open output, if any, is closed.
pub fn finish_plan(state: &RepackState) -> (r: Vec<RepackStep>)
    ensures
        state.has_output ==> r@ == seq![RepackStep::Close],
        !state.has_output ==> r@.len() == 0,
{
    let mut steps: Vec<RepackStep> = Vec::new();
    if state.has_output {
        steps.push(RepackStep::Close);
        proof {
            assert(steps@ =~= seq![RepackStep::Close]);
        }
    }
    steps
}

/// The file name of the output with `index`: `<prefix>-<index>.parquet`.
pub fn output_file_name(prefix: &str, index: usize) -> (r: String)
    ensures
        r@ == prefix@ + seq!['-'] + nat_text(index as nat) + ".parquet"@,
{
    let mut name = String::new();
    push_str(&mut name, prefix);
    push_str(&mut name, "-");
    push_nat(&mut name, index as u128);
    push_str(&mut name, ".parquet");
    proof {
        reveal_strlit("-");
        assert(name@ =~= prefix@ + seq!['-'] + nat_text(index as nat) + ".parquet"@);
    }
    name
}

/// The message for a repack that panicked, given the panic's text when it
/// was a string.
pub fn panic_message(payload: Option<&str>) -> (r: String)
    ensures
        payload matches Some(m) ==> r@ == "Parquet.repack panicked: "@ + m@,
        payload is None ==> r@ == "Parquet.repack panicked"@,
{
    match payload {
        Some(m) => {
            let mut s = "Parquet.repack panicked: ".to_string();
            push_str(&mut s, m);
            s
        },
        None => "Parquet.repack panicked".to_string(),
    }
}

} // verus!
