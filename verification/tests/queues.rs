use altos_core::atomic_queue::SyncQueue;
use altos_core::queue::{Node, Queue};
use altos_core::sorted_list::SortedList;

#[test]
fn sorted_insert_unsorted() {
    let mut list = SortedList::new();

    list.insert(Box::new(Node::new(4)));
    list.insert(Box::new(Node::new(1)));
    list.insert(Box::new(Node::new(2)));
    list.insert(Box::new(Node::new(3)));

    assert_eq!(list.pop().map(|n| n.data), Some(1));
    assert_eq!(list.pop().map(|n| n.data), Some(2));
    assert_eq!(list.pop().map(|n| n.data), Some(3));
    assert_eq!(list.pop().map(|n| n.data), Some(4));
    assert!(list.pop().is_none());
}

#[test]
fn sorted_insert_unsorted_2() {
    let mut list = SortedList::new();

    list.insert(Box::new(Node::new(3)));
    list.insert(Box::new(Node::new(4)));
    list.insert(Box::new(Node::new(2)));
    list.insert(Box::new(Node::new(1)));

    assert_eq!(list.pop().map(|n| n.data), Some(1));
    assert_eq!(list.pop().map(|n| n.data), Some(2));
    assert_eq!(list.pop().map(|n| n.data), Some(3));
    assert_eq!(list.pop().map(|n| n.data), Some(4));
    assert!(list.pop().is_none());
}

#[test]
fn sorted_insert_reverse_sorted() {
    let mut list = SortedList::new();

    list.insert(Box::new(Node::new(4)));
    list.insert(Box::new(Node::new(3)));
    list.insert(Box::new(Node::new(2)));
    list.insert(Box::new(Node::new(1)));

    assert_eq!(list.pop().map(|n| n.data), Some(1));
    assert_eq!(list.pop().map(|n| n.data), Some(2));
    assert_eq!(list.pop().map(|n| n.data), Some(3));
    assert_eq!(list.pop().map(|n| n.data), Some(4));
    assert!(list.pop().is_none());
}

#[test]
fn sorted_insert_sorted() {
    let mut list = SortedList::new();

    list.insert(Box::new(Node::new(1)));
    list.insert(Box::new(Node::new(2)));
    list.insert(Box::new(Node::new(3)));
    list.insert(Box::new(Node::new(4)));

    assert_eq!(list.pop().map(|n| n.data), Some(1));
    assert_eq!(list.pop().map(|n| n.data), Some(2));
    assert_eq!(list.pop().map(|n| n.data), Some(3));
    assert_eq!(list.pop().map(|n| n.data), Some(4));
    assert!(list.pop().is_none());
}

#[test]
fn merge_1() {
    let mut list1 = SortedList::new();
    let mut list2 = SortedList::new();

    list1.insert(Box::new(Node::new(4)));
    list1.insert(Box::new(Node::new(3)));
    list2.insert(Box::new(Node::new(2)));
    list2.insert(Box::new(Node::new(1)));

    list1.merge(list2);

    assert_eq!(list1.pop().map(|n| n.data), Some(1));
    assert_eq!(list1.pop().map(|n| n.data), Some(2));
    assert_eq!(list1.pop().map(|n| n.data), Some(3));
    assert_eq!(list1.pop().map(|n| n.data), Some(4));
    assert!(list1.pop().is_none());
}

#[test]
fn merge_2() {
    let mut list1 = SortedList::new();
    let mut list2 = SortedList::new();

    list1.insert(Box::new(Node::new(2)));
    list1.insert(Box::new(Node::new(1)));
    list2.insert(Box::new(Node::new(4)));
    list2.insert(Box::new(Node::new(3)));

    list1.merge(list2);

    assert_eq!(list1.pop().map(|n| n.data), Some(1));
    assert_eq!(list1.pop().map(|n| n.data), Some(2));
    assert_eq!(list1.pop().map(|n| n.data), Some(3));
    assert_eq!(list1.pop().map(|n| n.data), Some(4));
    assert!(list1.pop().is_none());
}

#[test]
fn sorted_list_into_iter() {
    let mut list = SortedList::new();
    list.insert(Box::new(Node::new(1)));
    list.insert(Box::new(Node::new(2)));
    list.insert(Box::new(Node::new(3)));

    let mut iter = list.into_iter();
    assert_eq!(iter.next().map(|n| n.data), Some(1));
    assert_eq!(iter.next().map(|n| n.data), Some(2));
    assert_eq!(iter.next().map(|n| n.data), Some(3));
    assert!(iter.next().is_none());
}

#[test]
fn sorted_list_iter() {
    let mut list = SortedList::new();
    list.insert(Box::new(Node::new(1)));
    list.insert(Box::new(Node::new(2)));
    list.insert(Box::new(Node::new(3)));

    {
        let mut iter = list.iter();
        assert_eq!(iter.next(), Some(&1));
        assert_eq!(iter.next(), Some(&2));
        assert_eq!(iter.next(), Some(&3));
        assert!(iter.next().is_none());
    }

    assert_eq!(list.pop().map(|n| n.data), Some(1));
    assert_eq!(list.pop().map(|n| n.data), Some(2));
    assert_eq!(list.pop().map(|n| n.data), Some(3));
    assert!(list.pop().is_none());
}

#[test]
fn queue_empty_dequeue() {
    let mut list: Queue<Node<usize>> = Queue::new();

    assert!(list.dequeue().is_none());
}

#[test]
fn queue_smoke() {
    let mut list = Queue::new();

    list.enqueue(Box::new(Node::new(1)));
    list.enqueue(Box::new(Node::new(2)));
    list.enqueue(Box::new(Node::new(3)));

    assert_eq!(list.dequeue().map(|n| n.data), Some(1));
    assert_eq!(list.dequeue().map(|n| n.data), Some(2));

    list.enqueue(Box::new(Node::new(4)));
    list.enqueue(Box::new(Node::new(5)));

    assert_eq!(list.dequeue().map(|n| n.data), Some(3));
    assert_eq!(list.dequeue().map(|n| n.data), Some(4));

    assert_eq!(list.dequeue().map(|n| n.data), Some(5));
    assert!(list.dequeue().is_none());

    list.enqueue(Box::new(Node::new(6)));
    list.enqueue(Box::new(Node::new(7)));

    assert_eq!(list.dequeue().map(|n| n.data), Some(6));
    assert_eq!(list.dequeue().map(|n| n.data), Some(7));
    assert!(list.dequeue().is_none());
}

#[test]
fn remove_predicate() {
    let mut list = Queue::new();

    list.enqueue(Box::new(Node::new(1)));
    list.enqueue(Box::new(Node::new(2)));
    list.enqueue(Box::new(Node::new(3)));
    list.enqueue(Box::new(Node::new(1)));
    list.enqueue(Box::new(Node::new(2)));
    list.enqueue(Box::new(Node::new(3)));

    let predicate = |data: &usize| *data == 1;

    let mut removed = list.remove(predicate);
    assert_eq!(removed.dequeue().map(|n| n.data), Some(1));
    assert_eq!(removed.dequeue().map(|n| n.data), Some(1));
    assert!(removed.dequeue().is_none());

    assert_eq!(list.dequeue().map(|n| n.data), Some(2));
    assert_eq!(list.dequeue().map(|n| n.data), Some(3));
    assert_eq!(list.dequeue().map(|n| n.data), Some(2));
    assert_eq!(list.dequeue().map(|n| n.data), Some(3));
    assert!(list.dequeue().is_none());
}

#[test]
fn append_queue() {
    let mut list1 = Queue::new();
    let mut list2 = Queue::new();

    list1.enqueue(Box::new(Node::new(1)));
    list1.enqueue(Box::new(Node::new(2)));
    list2.enqueue(Box::new(Node::new(3)));
    list2.enqueue(Box::new(Node::new(4)));

    list1.append(list2);

    assert_eq!(list1.dequeue().map(|n| n.data), Some(1));
    assert_eq!(list1.dequeue().map(|n| n.data), Some(2));
    assert_eq!(list1.dequeue().map(|n| n.data), Some(3));
    assert_eq!(list1.dequeue().map(|n| n.data), Some(4));

    assert!(list1.dequeue().is_none());
}

#[test]
fn append_empty() {
    let mut list1 = Queue::new();
    let list2 = Queue::new();

    list1.enqueue(Box::new(Node::new(1)));
    list1.enqueue(Box::new(Node::new(2)));

    list1.append(list2);

    assert_eq!(list1.dequeue().map(|n| n.data), Some(1));
    assert_eq!(list1.dequeue().map(|n| n.data), Some(2));

    assert!(list1.dequeue().is_none());
}

#[test]
fn modify_all() {
    let mut list = Queue::new();

    list.enqueue(Box::new(Node::new(1)));
    list.enqueue(Box::new(Node::new(2)));
    list.enqueue(Box::new(Node::new(3)));

    list.modify_all(|data: usize| data * 10);

    assert_eq!(list.dequeue().map(|n| n.data), Some(10));
    assert_eq!(list.dequeue().map(|n| n.data), Some(20));
    assert_eq!(list.dequeue().map(|n| n.data), Some(30));

    assert!(list.dequeue().is_none());
}

#[test]
fn remove_all() {
    let mut list = Queue::new();

    list.enqueue(Box::new(Node::new(1)));
    list.enqueue(Box::new(Node::new(2)));
    list.enqueue(Box::new(Node::new(3)));

    let mut old = list.remove_all();

    assert_eq!(old.dequeue().map(|n| n.data), Some(1));
    assert_eq!(old.dequeue().map(|n| n.data), Some(2));
    assert_eq!(old.dequeue().map(|n| n.data), Some(3));
    assert!(old.dequeue().is_none());

    assert!(list.dequeue().is_none());
}

#[test]
fn is_empty() {
    let mut list = Queue::new();

    assert!(list.is_empty());

    list.enqueue(Box::new(Node::new(1)));
    list.enqueue(Box::new(Node::new(2)));

    assert!(!list.is_empty());

    assert_eq!(list.dequeue().map(|n| n.data), Some(1));
    assert!(!list.is_empty());
    assert_eq!(list.dequeue().map(|n| n.data), Some(2));
    assert!(list.is_empty());
    assert!(list.dequeue().is_none());
    assert!(list.is_empty());
}

#[test]
fn queue_into_iter() {
    let mut list = Queue::new();
    list.enqueue(Box::new(Node::new(1)));
    list.enqueue(Box::new(Node::new(2)));
    list.enqueue(Box::new(Node::new(3)));

    let mut iter = list.into_iter();
    assert_eq!(iter.next().map(|n| n.data), Some(1));
    assert_eq!(iter.next().map(|n| n.data), Some(2));
    assert_eq!(iter.next().map(|n| n.data), Some(3));
    assert!(iter.next().is_none());
}

#[test]
fn queue_iter() {
    let mut list = Queue::new();
    list.enqueue(Box::new(Node::new(1)));
    list.enqueue(Box::new(Node::new(2)));
    list.enqueue(Box::new(Node::new(3)));

    {
        let mut iter = list.iter();
        assert_eq!(iter.next(), Some(&1));
        assert_eq!(iter.next(), Some(&2));
        assert_eq!(iter.next(), Some(&3));
        assert!(iter.next().is_none());
    }

    assert_eq!(list.dequeue().map(|n| n.data), Some(1));
    assert_eq!(list.dequeue().map(|n| n.data), Some(2));
    assert_eq!(list.dequeue().map(|n| n.data), Some(3));
    assert!(list.dequeue().is_none());
}

#[test]
fn remove_then_append_preserves_membership() {
    let mut list = Queue::new();
    list.enqueue(Box::new(Node::new(5)));
    list.enqueue(Box::new(Node::new(6)));
    list.enqueue(Box::new(Node::new(7)));
    list.enqueue(Box::new(Node::new(8)));

    let mut matching = list.remove(|data: &usize| *data % 2 == 0);
    matching.append(list);

    let mut seen = vec![];
    let mut iter = matching.into_iter();
    while let Some(n) = iter.next() {
        seen.push(n.data);
    }
    seen.sort();
    assert_eq!(seen, vec![5, 6, 7, 8]);
}

#[test]
fn sync_queue_operations() {
    let mut queue = SyncQueue::new();
    assert!(queue.is_empty());

    queue.enqueue(Box::new(Node::new(1)));
    queue.enqueue(Box::new(Node::new(2)));
    queue.enqueue(Box::new(Node::new(3)));
    assert!(!queue.is_empty());

    let removed = queue.remove(|data: &usize| *data == 2);
    let mut removed_iter = removed.into_iter();
    assert_eq!(removed_iter.next().map(|n| n.data), Some(2));
    assert!(removed_iter.next().is_none());

    assert_eq!(queue.dequeue().map(|n| n.data), Some(1));
    assert_eq!(queue.dequeue().map(|n| n.data), Some(3));
    assert!(queue.dequeue().is_none());
}
