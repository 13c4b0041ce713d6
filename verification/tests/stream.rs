use fog::stream::{Stream, Streamable};

fn numbers() -> Stream<u32> {
    Stream::new(vec![10, 20, 30, 40, 50])
}

#[test]
fn stream_starts_at_the_first_item() {
    let s = numbers();
    assert_eq!(s.stream_idx(), 0);
    assert_eq!(Streamable::len(&s), 5);
    assert_eq!(s.peek_next(), Some(&10));
    assert_eq!(s.peek(0), Some(&10));
    assert_eq!(s.peek(-1), None);
    assert_eq!(s.peek(4), Some(&50));
    assert_eq!(s.peek(5), None);
    assert_eq!(s.get_last_consumed(), None);
    assert!(!s.is_empty());
}

#[test]
fn stream_consume_moves_the_cursor() {
    let mut s = numbers();
    assert_eq!(s.consume(), Some(&10));
    assert_eq!(s.stream_idx(), 1);
    assert_eq!(s.get_last_consumed(), Some(&10));
    assert_eq!(s.peek(-1), Some(&10));
    assert_eq!(s.peek_next(), Some(&20));
}

#[test]
fn stream_consume_at_end_returns_none() {
    let mut s = Stream::new(vec![1u8]);
    assert_eq!(s.consume(), Some(&1));
    assert_eq!(s.consume(), None);
    assert_eq!(s.stream_idx(), 1);
    assert_eq!(s.peek_next(), None);
    let mut empty: Stream<u8> = Stream::new(Vec::new());
    assert!(empty.is_empty());
    assert_eq!(empty.consume(), None);
    assert_eq!(empty.stream_idx(), 0);
}

#[test]
fn stream_consume_then_step_back() {
    let mut s = numbers();
    s.consume();
    s.consume();
    s.decrement_cursor(1);
    assert_eq!(s.stream_idx(), 1);
    assert_eq!(s.peek_next(), Some(&20));
    s.decrement_cursor(7);
    assert_eq!(s.stream_idx(), 0);
}

#[test]
fn stream_bulk_operations() {
    let mut s = numbers();
    assert_eq!(s.peek_bulk(2), Some(&[10, 20][..]));
    assert_eq!(s.stream_idx(), 0);
    assert_eq!(s.consume_bulk(3), Some(&[10, 20, 30][..]));
    assert_eq!(s.stream_idx(), 3);
    assert_eq!(s.consume_bulk(3), None);
    assert_eq!(s.stream_idx(), 3);
    assert_eq!(s.peek_remainder(), Some(&[40, 50][..]));
    assert_eq!(s.peek_bulk(0), Some(&[][..]));
}

#[test]
fn stream_bulk_matches_repeated_consume() {
    let mut a = numbers();
    let mut b = numbers();
    a.consume_bulk(4);
    for _ in 0..4 {
        b.consume();
    }
    assert_eq!(a.stream_idx(), b.stream_idx());
    assert_eq!(a.peek_next(), b.peek_next());
}

#[test]
fn stream_checkpoint_restores_cursor() {
    let mut s = numbers();
    s.consume();
    let cp = s.create_checkpoint();
    s.consume_bulk(3);
    assert_eq!(s.stream_idx(), 4);
    s.load_checkpoint(cp);
    assert_eq!(s.stream_idx(), 1);
    assert_eq!(s.peek_next(), Some(&20));
}

#[test]
fn stream_map_next_pos_finds_from_cursor() {
    let mut s = numbers();
    assert_eq!(s.map_next_pos(|x| *x >= 30), Some(2));
    s.consume_bulk(3);
    assert_eq!(s.map_next_pos(|x| *x == 10), None);
    assert_eq!(s.map_next_pos(|x| *x == 50), Some(1));
    assert_eq!(s.stream_idx(), 3);
}

#[test]
fn stream_tokens_mut_keeps_cursor() {
    let mut s = numbers();
    s.consume();
    s.tokens_mut().push(60);
    assert_eq!(s.stream_idx(), 1);
    assert_eq!(Streamable::len(&s), 6);
    assert_eq!(s.peek(4), Some(&60));
}

#[test]
fn stream_child_consumes_from_owner() {
    let mut s = numbers();
    s.consume();
    {
        let mut child = s.child_iterator_bulk(3).unwrap();
        assert_eq!(child.stream_idx(), 0);
        assert_eq!(Streamable::len(&child), 3);
        assert_eq!(child.peek_next(), Some(&20));
        assert_eq!(child.consume(), Some(&20));
        assert_eq!(child.consume(), Some(&30));
        assert_eq!(child.owner_idx(), 3);
        assert_eq!(child.peek_remainder(), Some(&[40][..]));
        assert_eq!(child.consume(), Some(&40));
        assert_eq!(child.consume(), None);
        assert_eq!(child.get_last_consumed(), Some(&40));
    }
    assert_eq!(s.stream_idx(), 4);
    assert_eq!(s.peek_next(), Some(&50));
}

#[test]
fn stream_child_needs_enough_items() {
    let mut s = numbers();
    s.consume_bulk(3);
    assert!(s.child_iterator_bulk(3).is_none());
    assert_eq!(s.stream_idx(), 3);
}

#[test]
fn stream_nested_children() {
    let mut s = numbers();
    {
        let mut child = s.child_iterator_bulk(4).unwrap();
        child.consume();
        {
            let mut grandchild = child.child_iterator_bulk(2).unwrap();
            assert_eq!(grandchild.consume(), Some(&20));
            assert_eq!(grandchild.peek(-1), Some(&20));
            assert_eq!(grandchild.peek(1), None);
        }
        assert_eq!(child.stream_idx(), 2);
        child.decrement_cursor(1);
        assert_eq!(child.stream_idx(), 1);
    }
    assert_eq!(s.stream_idx(), 1);
}

#[test]
fn stream_child_owner_moves_with_child() {
    let mut s = numbers();
    s.consume();
    {
        let mut child = s.child_iterator_bulk(3).unwrap();
        assert_eq!(child.owner_idx(), 1);
        child.consume();
        child.consume();
        assert_eq!(child.owner_idx(), 3);
        assert_eq!(child.stream_idx(), 2);
        child.decrement_cursor(1);
        assert_eq!(child.owner_idx(), 2);
        assert_eq!(child.stream_idx(), 1);
        // Each cursor is stepped back on its own and stops at 0.
        child.decrement_cursor(2);
        assert_eq!(child.stream_idx(), 0);
        assert_eq!(child.owner_idx(), 0);
    }
    assert_eq!(s.stream_idx(), 0);
    assert_eq!(Streamable::len(&s), 5);
}
