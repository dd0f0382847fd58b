use containers::vector::Vec;
use std::cell::RefCell;
use std::rc::Rc;

/// An element that writes its number into a shared log when it is released.
struct Noisy {
    id: u32,
    log: Rc<RefCell<std::vec::Vec<u32>>>,
}

impl Drop for Noisy {
    fn drop(&mut self) {
        self.log.borrow_mut().push(self.id);
    }
}

fn noisy(id: u32, log: &Rc<RefCell<std::vec::Vec<u32>>>) -> Noisy {
    Noisy { id, log: Rc::clone(log) }
}

#[test]
fn lib_test() {
    let mut a: Vec<i32> = Vec::new();
    a.push(123);
    assert_eq!(a[0], 123);
    assert_eq!(a.pop(), Some(123));
}

#[test]
fn new_array_is_empty_without_slots() {
    let a: Vec<u8> = Vec::new();
    assert_eq!(a.len(), 0);
    assert_eq!(a.capacity(), 0);
    assert!(a.is_empty());
}

#[test]
fn a_small_array_can_always_take_one_more() {
    let mut a: Vec<u64> = Vec::new();
    assert!(a.can_push());
    for i in 0..40u64 {
        a.push(i);
        assert!(a.can_push());
    }
    assert_eq!(a.len(), 40);
    assert_eq!(a.capacity(), 64);
}

#[test]
fn push_pop_trace() {
    let mut a: Vec<i32> = Vec::new();
    a.push(1);
    a.push(2);
    a.push(3);
    assert_eq!(a.pop(), Some(3));
    assert_eq!(a.pop(), Some(2));
    a.push(4);
    a.push(5);
    assert_eq!(a.pop(), Some(5));
    assert_eq!(a.pop(), Some(4));
    assert_eq!(a.pop(), Some(1));
    assert_eq!(a.pop(), None);
    assert_eq!(a.len(), 0);
}

#[test]
fn insert_trace_of_strings() {
    let mut a: Vec<&str> = Vec::new();
    a.insert(0, "a");
    a.insert(1, "b");
    a.insert(1, "c");
    assert_eq!(&a[..], &["a", "c", "b"][..]);
    assert_eq!(a.len(), 3);
}

#[test]
fn insert_trace_of_owned_strings() {
    let mut a: Vec<String> = Vec::new();
    a.insert(0, String::from("a"));
    a.insert(1, String::from("b"));
    a.insert(1, String::from("c"));
    let content: std::vec::Vec<&str> = a.iter().map(|s| s.as_str()).collect();
    assert_eq!(content, vec!["a", "c", "b"]);
}

#[test]
fn pops_come_in_reverse_order_of_pushes() {
    let mut a: Vec<u32> = Vec::new();
    for i in 0..1000u32 {
        a.push(i * 7);
    }
    assert_eq!(a.len(), 1000);
    for i in (0..1000u32).rev() {
        assert_eq!(a.pop(), Some(i * 7));
    }
    assert_eq!(a.pop(), None);
    assert_eq!(a.len(), 0);
}

#[test]
fn pop_on_empty_array_gives_none_and_changes_nothing() {
    let mut a: Vec<u64> = Vec::new();
    assert_eq!(a.pop(), None);
    assert_eq!(a.len(), 0);
    assert_eq!(a.capacity(), 0);
    a.push(9);
    assert_eq!(a.pop(), Some(9));
    assert_eq!(a.pop(), None);
    assert_eq!(a.pop(), None);
    assert_eq!(a.len(), 0);
    assert_eq!(a.capacity(), 1);
}

#[test]
fn capacity_is_one_then_doubles() {
    let mut a: Vec<u16> = Vec::new();
    let mut seen: std::vec::Vec<usize> = std::vec::Vec::new();
    seen.push(a.capacity());
    for i in 0..9u16 {
        a.push(i);
        seen.push(a.capacity());
    }
    assert_eq!(seen, vec![0, 1, 2, 4, 4, 8, 8, 8, 8, 16]);
}

#[test]
fn insert_grows_a_full_array_like_push() {
    let mut a: Vec<i64> = Vec::new();
    a.insert(0, 1);
    assert_eq!(a.capacity(), 1);
    a.insert(0, 2);
    assert_eq!(a.capacity(), 2);
    a.insert(1, 3);
    assert_eq!(a.capacity(), 4);
    a.insert(3, 4);
    assert_eq!(a.capacity(), 4);
    a.insert(2, 5);
    assert_eq!(a.capacity(), 8);
    assert_eq!(&a[..], &[2, 3, 5, 1, 4][..]);
}

#[test]
fn capacity_never_decreases() {
    let mut a: Vec<usize> = Vec::new();
    let mut last = a.capacity();
    for round in 0..50usize {
        for i in 0..round {
            a.push(i);
            assert!(a.capacity() >= last);
            assert!(a.len() <= a.capacity());
            last = a.capacity();
        }
        for i in 0..round {
            if i % 3 == 0 {
                a.remove(0);
            } else if i % 3 == 1 {
                a.pop();
            } else {
                a.insert(0, i);
                a.remove(a.len() / 2);
            }
            assert!(a.capacity() >= last);
            assert!(a.len() <= a.capacity());
            last = a.capacity();
        }
    }
    while a.pop().is_some() {
        assert_eq!(a.capacity(), last);
    }
    assert_eq!(a.len(), 0);
    assert_eq!(a.capacity(), last);
    assert!(last > 0);
}

#[test]
fn insert_at_front_then_remove_at_front_gives_the_element_back() {
    let mut a: Vec<char> = Vec::new();
    a.push('x');
    a.push('y');
    a.push('z');
    a.insert(0, 'q');
    assert_eq!(&a[..], &['q', 'x', 'y', 'z'][..]);
    assert_eq!(a.remove(0), Some('q'));
    assert_eq!(&a[..], &['x', 'y', 'z'][..]);
}

#[test]
fn remove_moves_later_elements_down() {
    let mut a: Vec<i32> = Vec::new();
    for i in 0..6 {
        a.push(i * 10);
    }
    assert_eq!(a.remove(2), Some(20));
    assert_eq!(a.len(), 5);
    assert_eq!(a[2], 30);
    assert_eq!(&a[..], &[0, 10, 30, 40, 50][..]);
    assert_eq!(a.remove(4), Some(50));
    assert_eq!(&a[..], &[0, 10, 30, 40][..]);
    assert_eq!(a.remove(0), Some(0));
    assert_eq!(&a[..], &[10, 30, 40][..]);
}

#[test]
fn remove_out_of_range_gives_none_and_changes_nothing() {
    let mut a: Vec<i32> = Vec::new();
    assert_eq!(a.remove(0), None);
    a.push(1);
    a.push(2);
    assert_eq!(a.remove(2), None);
    assert_eq!(a.remove(usize::MAX), None);
    assert_eq!(&a[..], &[1, 2][..]);
    assert_eq!(a.capacity(), 2);
}

#[test]
fn insert_behind_the_last_element_is_push() {
    let mut by_insert: Vec<i32> = Vec::new();
    let mut by_push: Vec<i32> = Vec::new();
    for i in 0..20 {
        let at = by_insert.len();
        by_insert.insert(at, i);
        by_push.push(i);
        assert_eq!(&by_insert[..], &by_push[..]);
        assert_eq!(by_insert.capacity(), by_push.capacity());
    }
}

#[test]
fn insert_in_the_middle_keeps_the_order_of_the_others() {
    let mut a: Vec<String> = Vec::new();
    for word in ["one", "two", "four", "five"] {
        a.push(String::from(word));
    }
    a.insert(2, String::from("three"));
    let content: std::vec::Vec<&str> = a.iter().map(|s| s.as_str()).collect();
    assert_eq!(content, vec!["one", "two", "three", "four", "five"]);
}

#[test]
fn the_view_holds_exactly_the_elements() {
    let mut a: Vec<u8> = Vec::new();
    a.push(1);
    a.push(2);
    a.push(3);
    a.pop();
    assert_eq!(a.capacity(), 4);
    let view: &[u8] = &a;
    assert_eq!(view.len(), 2);
    assert_eq!(view, &[1, 2][..]);
    assert_eq!(a.get(2), None);
    assert_eq!(a.iter().sum::<u8>(), 3);
}

#[test]
fn elements_can_be_replaced_through_the_view() {
    let mut a: Vec<i32> = Vec::new();
    a.push(5);
    a.push(6);
    a.push(7);
    a[1] = 60;
    for x in a.iter_mut() {
        *x += 1;
    }
    assert_eq!(&a[..], &[6, 61, 8][..]);
    assert_eq!(a.len(), 3);
    assert_eq!(a.capacity(), 4);
    assert_eq!(a.pop(), Some(8));
}

#[test]
fn teardown_releases_the_elements_from_the_last_to_the_first() {
    let log = Rc::new(RefCell::new(std::vec::Vec::new()));
    {
        let mut a: Vec<Noisy> = Vec::new();
        for id in 0..5 {
            a.push(noisy(id, &log));
        }
        assert!(log.borrow().is_empty());
    }
    assert_eq!(*log.borrow(), vec![4, 3, 2, 1, 0]);
}

#[test]
fn every_element_is_released_exactly_once() {
    let log = Rc::new(RefCell::new(std::vec::Vec::new()));
    {
        let mut a: Vec<Noisy> = Vec::new();
        for id in 0..6 {
            a.push(noisy(id, &log));
        }
        a.insert(2, noisy(6, &log));
        assert!(log.borrow().is_empty());
        let popped = a.pop();
        assert_eq!(popped.as_ref().map(|n| n.id), Some(5));
        let removed = a.remove(1);
        assert_eq!(removed.as_ref().map(|n| n.id), Some(1));
        assert!(log.borrow().is_empty());
        drop(popped);
        assert_eq!(*log.borrow(), vec![5]);
        drop(removed);
        assert_eq!(*log.borrow(), vec![5, 1]);
        let left: std::vec::Vec<u32> = a.iter().map(|n| n.id).collect();
        assert_eq!(left, vec![0, 6, 2, 3, 4]);
    }
    assert_eq!(*log.borrow(), vec![5, 1, 4, 3, 2, 6, 0]);
}

#[test]
fn teardown_of_an_emptied_array_releases_nothing_more() {
    let log = Rc::new(RefCell::new(std::vec::Vec::new()));
    {
        let mut a: Vec<Noisy> = Vec::new();
        a.push(noisy(1, &log));
        a.push(noisy(2, &log));
        a.pop();
        a.pop();
        assert_eq!(*log.borrow(), vec![2, 1]);
        assert_eq!(a.capacity(), 2);
    }
    assert_eq!(*log.borrow(), vec![2, 1]);
    let never_used: Vec<Noisy> = Vec::new();
    drop(never_used);
    assert_eq!(*log.borrow(), vec![2, 1]);
}

#[test]
fn a_hundred_thousand_elements() {
    let live = Rc::new(());
    {
        let mut a: Vec<(usize, Rc<()>)> = Vec::new();
        for i in 0..100_000usize {
            a.push((i, Rc::clone(&live)));
        }
        assert_eq!(a.len(), 100_000);
        assert_eq!(a.capacity(), 131_072);
        assert_eq!(Rc::strong_count(&live), 100_001);
        assert_eq!(a[0].0, 0);
        assert_eq!(a[99_999].0, 99_999);
        assert_eq!(a[65_536].0, 65_536);
    }
    assert_eq!(Rc::strong_count(&live), 1);
}
