use recorder::reorder::ReorderBuffer;

fn released_seqs(order: &[u64]) -> Vec<u64> {
    let mut buf = ReorderBuffer::new();
    let mut out = Vec::new();
    for &s in order {
        for (seq, ms) in buf.push(s, s * 16) {
            assert_eq!(ms, seq * 16);
            out.push(seq);
        }
    }
    out
}

#[test]
fn out_of_order_packets_leave_in_order() {
    assert_eq!(released_seqs(&[2, 0, 1, 5, 3, 4]), vec![0, 1, 2, 3, 4, 5]);
}

#[test]
fn in_order_packets_pass_straight_through() {
    let mut buf = ReorderBuffer::new();
    for s in 0..100u64 {
        let out = buf.push(s, s);
        assert_eq!(out, vec![(s, s)]);
    }
    assert_eq!(buf.next_seq(), 100);
    assert_eq!(buf.pending_len(), 0);
}

#[test]
fn gap_holds_later_packets() {
    let mut buf = ReorderBuffer::new();
    assert!(buf.push(1, 'b').is_empty());
    assert!(buf.push(2, 'c').is_empty());
    assert_eq!(buf.pending_len(), 2);
    assert_eq!(buf.push(0, 'a'), vec![(0, 'a'), (1, 'b'), (2, 'c')]);
    assert_eq!(buf.next_seq(), 3);
}

#[test]
fn any_permutation_is_restored() {
    let orders: [&[u64]; 4] = [&[3, 2, 1, 0], &[0, 2, 4, 1, 3], &[5, 4, 3, 2, 1, 0, 6], &[1, 0]];
    for order in orders {
        let mut sorted = order.to_vec();
        sorted.sort();
        assert_eq!(released_seqs(order), sorted);
    }
}

#[test]
fn released_sequence_repeats_stalls_buffer() {
    let mut buf = ReorderBuffer::new();
    assert_eq!(buf.push(0, 0), vec![(0, 0)]);
    assert!(buf.push(0, 0).is_empty());
    assert!(buf.push(1, 1).is_empty());
    assert_eq!(buf.next_seq(), 1);
    assert_eq!(buf.pending_len(), 2);
}
