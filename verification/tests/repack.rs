use parquet_ruby_adapter::repack::{
    finish_plan, output_file_name, panic_message, plan_batch, RepackState, RepackStep,
};

fn start() -> RepackState {
    let state = RepackState::new();
    assert_eq!(state, RepackState { output_index: 0, current_output_rows: 0, has_output: false });
    state
}

#[test]
fn batches_are_cut_at_the_row_limit() {
    let mut state = start();
    let steps = plan_batch(&mut state, 5, Some(2));
    assert_eq!(
        steps,
        vec![
            RepackStep::Open(0),
            RepackStep::Write { offset: 0, rows: 2 },
            RepackStep::Close,
            RepackStep::Open(1),
            RepackStep::Write { offset: 2, rows: 2 },
            RepackStep::Close,
            RepackStep::Open(2),
            RepackStep::Write { offset: 4, rows: 1 },
        ]
    );
    assert_eq!(state, RepackState { output_index: 2, current_output_rows: 1, has_output: true });
    let next = plan_batch(&mut state, 3, Some(2));
    assert_eq!(
        next,
        vec![
            RepackStep::Write { offset: 0, rows: 1 },
            RepackStep::Close,
            RepackStep::Open(3),
            RepackStep::Write { offset: 1, rows: 2 },
            RepackStep::Close,
        ]
    );
    assert!(finish_plan(&state).is_empty());
}

#[test]
fn unbounded_outputs_take_every_row() {
    let mut state = start();
    assert_eq!(
        plan_batch(&mut state, 4, None),
        vec![RepackStep::Open(0), RepackStep::Write { offset: 0, rows: 4 }]
    );
    assert_eq!(plan_batch(&mut state, 0, None), vec![]);
    assert_eq!(plan_batch(&mut state, 2, None), vec![RepackStep::Write { offset: 0, rows: 2 }]);
    assert_eq!(finish_plan(&state), vec![RepackStep::Close]);
}

#[test]
fn names_and_messages() {
    assert_eq!(output_file_name("part", 12), "part-12.parquet");
    assert_eq!(panic_message(Some("boom")), "Parquet.repack panicked: boom");
    assert_eq!(panic_message(None), "Parquet.repack panicked");
}

#[test]
fn outputs_over_batches_are_full_but_the_last() {
    for (batches, per_file, files) in [(vec![5usize, 2], 2usize, 4usize), (vec![3, 3, 2], 4, 2), (vec![1, 0, 1], 5, 1)] {
        let mut state = RepackState::new();
        let mut steps = Vec::new();
        for rows in &batches {
            steps.extend(plan_batch(&mut state, *rows, Some(per_file)));
        }
        steps.extend(finish_plan(&state));
        let opens = steps.iter().filter(|s| matches!(s, RepackStep::Open(_))).count();
        let closes = steps.iter().filter(|s| matches!(s, RepackStep::Close)).count();
        assert_eq!(opens, files);
        assert_eq!(closes, files);
        // Rows written to each output, in order.
        let mut sizes = Vec::new();
        for s in &steps {
            match s {
                RepackStep::Open(_) => sizes.push(0),
                RepackStep::Write { rows, .. } => *sizes.last_mut().unwrap() += rows,
                RepackStep::Close => {}
            }
        }
        let total: usize = batches.iter().sum();
        assert_eq!(sizes.iter().sum::<usize>(), total);
        assert!(sizes[..sizes.len() - 1].iter().all(|n| *n == per_file));
        assert!(sizes.iter().all(|n| *n > 0));
    }
}
