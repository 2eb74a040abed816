use delve::render::{changed_spans, FrameBuffer};

#[test]
fn spans_cover_the_changed_cells() {
    let changed = vec![false, true, true, false, true, false, false, true];
    assert_eq!(changed_spans(&changed), vec![(1, 3), (4, 5), (7, 8)]);
}

#[test]
fn no_changes_no_spans() {
    assert_eq!(changed_spans(&vec![false; 5]), vec![]);
    assert_eq!(changed_spans(&vec![]), vec![]);
}

#[test]
fn whole_row_changed_is_one_span() {
    assert_eq!(changed_spans(&vec![true; 6]), vec![(0, 6)]);
}

#[test]
fn spans_redraw_exactly_the_changes() {
    let changed = vec![true, false, true, true, true, false, true];
    let spans = changed_spans(&changed);
    for c in 0..changed.len() {
        let covered = spans.iter().any(|&(s, e)| s <= c && c < e);
        assert_eq!(covered, changed[c]);
    }
}

#[test]
fn frame_buffer_layout() {
    let fb: FrameBuffer<char> = FrameBuffer::new(vec![2, 1, 0], 3, 4);
    assert_eq!(fb.partitions(), 3);
    assert_eq!(fb.rows(), 3);
    assert_eq!(fb.cols(), 4);
    assert_eq!(fb.partition(0), &vec![vec![None; 4]; 2]);
    assert_eq!(fb.partition(1), &vec![vec![None; 4]; 1]);
    assert!(fb.partition(2).is_empty());
}

#[test]
fn partitions_go_out_and_come_back() {
    let mut fb: FrameBuffer<char> = FrameBuffer::new(vec![1, 1], 2, 2);
    let mut part = fb.take_partition(1);
    assert!(fb.partition(1).is_empty());
    part[0][1] = Some('#');
    fb.put_partition(1, part);
    assert_eq!(fb.partition(1), &vec![vec![None, Some('#')]]);
    assert_eq!(fb.partition(0), &vec![vec![None, None]]);
    fb.clear();
    assert_eq!(fb.partition(1), &vec![vec![None, None]]);
}

#[test]
fn take_then_put_restores_the_frame() {
    let mut fb: FrameBuffer<u8> = FrameBuffer::new(vec![2, 3], 5, 3);
    let mut part = fb.take_partition(0);
    part[1][2] = Some(7);
    fb.put_partition(0, part);
    let before = fb.partition(0).clone();
    let again = fb.take_partition(0);
    fb.put_partition(0, again);
    assert_eq!(fb.partition(0), &before);
    assert_eq!(fb.partition(1), &vec![vec![None; 3]; 3]);
}
