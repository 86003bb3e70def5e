use bdstorage::batcher::{BatchAction, ChannelBatcher, ChannelEvent, BATCH_SIZE};
use bdstorage::store::DbOp;

fn op(i: u64) -> DbOp {
    DbOp::MarkInodeVaulted(i)
}

/// Drives the batcher over a queue whose operations arrive in `waves`: each
/// wave is what is queued when the writer next has to wait. Returns the
/// batches handed out.
fn run(waves: Vec<Vec<DbOp>>) -> Vec<Vec<DbOp>> {
    let mut waves: std::collections::VecDeque<std::collections::VecDeque<DbOp>> =
        waves.into_iter().map(|w| w.into_iter().collect()).collect();
    let mut b = ChannelBatcher::new();
    let mut batches = Vec::new();
    let mut action = b.start_round();
    loop {
        action = match action {
            BatchAction::TryRecv => {
                let next = waves.front_mut().and_then(|w| w.pop_front());
                match next {
                    Some(o) => b.on_event(ChannelEvent::Received(o)),
                    None => b.on_event(ChannelEvent::Nothing),
                }
            }
            BatchAction::Recv => {
                while waves.front().map_or(false, |w| w.is_empty()) {
                    waves.pop_front();
                }
                match waves.front_mut().and_then(|w| w.pop_front()) {
                    Some(o) => b.on_event(ChannelEvent::Received(o)),
                    None => b.on_event(ChannelEvent::Nothing),
                }
            }
            BatchAction::Flush(batch) => {
                batches.push(batch);
                b.start_round()
            }
            BatchAction::Stop => break,
        };
    }
    batches
}

#[test]
fn closed_empty_queue_writes_nothing() {
    assert!(run(vec![]).is_empty());
}

#[test]
fn queued_operations_form_one_batch() {
    let batches = run(vec![vec![op(1), op(2), op(3)]]);
    assert_eq!(batches, vec![vec![op(1), op(2), op(3)]]);
}

#[test]
fn batches_are_cut_at_batch_size() {
    let ops: Vec<DbOp> = (0..(2 * BATCH_SIZE as u64 + 5)).map(op).collect();
    let batches = run(vec![ops.clone()]);
    assert_eq!(batches.len(), 3);
    assert_eq!(batches[0].len(), BATCH_SIZE);
    assert_eq!(batches[1].len(), BATCH_SIZE);
    assert_eq!(batches[2].len(), 5);
    assert_eq!(batches.concat(), ops);
}

#[test]
fn later_arrivals_form_later_batches_in_order() {
    let batches = run(vec![vec![op(1)], vec![op(2), op(3)], vec![op(4)]]);
    assert_eq!(batches, vec![vec![op(1)], vec![op(2), op(3)], vec![op(4)]]);
}

#[test]
fn first_round_waits_when_nothing_is_queued() {
    let mut b = ChannelBatcher::new();
    assert!(matches!(b.start_round(), BatchAction::TryRecv));
    assert!(matches!(b.on_event(ChannelEvent::Nothing), BatchAction::Recv));
    assert!(matches!(b.on_event(ChannelEvent::Received(op(1))), BatchAction::TryRecv));
    match b.on_event(ChannelEvent::Nothing) {
        BatchAction::Flush(batch) => assert_eq!(batch, vec![op(1)]),
        other => panic!("{other:?}"),
    }
    assert!(matches!(b.start_round(), BatchAction::TryRecv));
    assert!(matches!(b.on_event(ChannelEvent::Nothing), BatchAction::Recv));
    assert!(matches!(b.on_event(ChannelEvent::Nothing), BatchAction::Stop));
}
