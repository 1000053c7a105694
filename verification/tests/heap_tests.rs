use binary_heap::Heap;
use binary_heap::MaxComparator;
use binary_heap::MaxHeap;
use binary_heap::MinComparator;
use binary_heap::MinHeap;

#[test]
fn test_empty_heap() {
    let mut heap = MaxHeap::new::<i32>();
    assert_eq!(heap.next(), None);
}

#[test]
fn test_min_heap() {
    let mut heap = MinHeap::new();
    heap.add(4);
    heap.add(2);
    heap.add(9);
    heap.add(11);
    assert_eq!(heap.len(), 4);
    assert_eq!(heap.next(), Some(2));
    assert_eq!(heap.next(), Some(4));
    assert_eq!(heap.next(), Some(9));
    heap.add(1);
    assert_eq!(heap.next(), Some(1));
}

#[test]
fn test_max_heap() {
    let mut heap = MaxHeap::new();
    heap.add(4);
    heap.add(2);
    heap.add(9);
    heap.add(11);
    assert_eq!(heap.len(), 4);
    assert_eq!(heap.next(), Some(11));
    assert_eq!(heap.next(), Some(9));
    assert_eq!(heap.next(), Some(4));
    heap.add(1);
    assert_eq!(heap.next(), Some(2));
}

#[test]
fn min_heap_drains_fully_in_ascending_order() {
    let mut heap = MinHeap::new();
    heap.add(4);
    heap.add(2);
    heap.add(9);
    heap.add(11);
    assert_eq!(heap.next(), Some(2));
    assert_eq!(heap.next(), Some(4));
    assert_eq!(heap.next(), Some(9));
    assert_eq!(heap.next(), Some(11));
    assert_eq!(heap.next(), None);
    assert_eq!(heap.len(), 0);
}

#[test]
fn max_heap_drains_fully_in_descending_order() {
    let mut heap = MaxHeap::new();
    heap.add(4);
    heap.add(2);
    heap.add(9);
    heap.add(11);
    assert_eq!(heap.next(), Some(11));
    assert_eq!(heap.next(), Some(9));
    assert_eq!(heap.next(), Some(4));
    assert_eq!(heap.next(), Some(2));
    assert_eq!(heap.next(), None);
    assert_eq!(heap.len(), 0);
}

#[test]
fn empty_heap_keeps_signalling_empty() {
    let mut heap = MinHeap::new::<i32>();
    assert_eq!(heap.next(), None);
    assert_eq!(heap.next(), None);
    assert_eq!(heap.next(), None);
    assert_eq!(heap.len(), 0);
    assert!(heap.is_empty());
    heap.add(7);
    assert!(!heap.is_empty());
    assert_eq!(heap.next(), Some(7));
    assert_eq!(heap.next(), None);
    assert_eq!(heap.next(), None);
}

#[test]
fn len_tracks_adds_and_extractions() {
    let mut heap = MinHeap::new::<i32>();
    assert_eq!(heap.len(), 0);
    heap.add(5);
    assert_eq!(heap.len(), 1);
    heap.add(3);
    assert_eq!(heap.len(), 2);
    heap.add(8);
    assert_eq!(heap.len(), 3);
    assert_eq!(heap.next(), Some(3));
    assert_eq!(heap.len(), 2);
    assert_eq!(heap.next(), Some(5));
    assert_eq!(heap.len(), 1);
    // An extraction that signals empty must not change the count.
    assert_eq!(heap.next(), Some(8));
    assert_eq!(heap.len(), 0);
    assert_eq!(heap.next(), None);
    assert_eq!(heap.len(), 0);
}

#[test]
fn equal_elements_are_neither_lost_nor_duplicated() {
    let mut heap = MinHeap::new();
    heap.add(5);
    heap.add(5);
    heap.add(3);
    heap.add(5);
    assert_eq!(heap.len(), 4);
    assert_eq!(heap.next(), Some(3));
    assert_eq!(heap.next(), Some(5));
    assert_eq!(heap.next(), Some(5));
    assert_eq!(heap.next(), Some(5));
    assert_eq!(heap.next(), None);
}

#[test]
fn explicit_comparator_construction() {
    let mut low = Heap::new(MinComparator);
    let mut high = Heap::new(MaxComparator);
    for x in [6, 1, 8, 1] {
        low.add(x);
        high.add(x);
    }
    assert_eq!(low.next(), Some(1));
    assert_eq!(low.next(), Some(1));
    assert_eq!(low.next(), Some(6));
    assert_eq!(low.next(), Some(8));
    assert_eq!(high.next(), Some(8));
    assert_eq!(high.next(), Some(6));
    assert_eq!(high.next(), Some(1));
    assert_eq!(high.next(), Some(1));
}

#[test]
fn heap_constructors_on_heap_type() {
    let mut low: Heap<i32, MinComparator> = Heap::new_min();
    let mut high: Heap<i32, MaxComparator> = Heap::new_max();
    low.add(10);
    low.add(-4);
    high.add(10);
    high.add(-4);
    assert_eq!(low.next(), Some(-4));
    assert_eq!(low.next(), Some(10));
    assert_eq!(high.next(), Some(10));
    assert_eq!(high.next(), Some(-4));
}

#[test]
fn interleaved_adds_and_extractions() {
    let mut heap = MinHeap::new();
    heap.add(7);
    heap.add(3);
    assert_eq!(heap.next(), Some(3));
    heap.add(1);
    assert_eq!(heap.next(), Some(1));
    assert_eq!(heap.next(), Some(7));
    assert_eq!(heap.next(), None);
}

#[test]
fn extreme_values() {
    let mut heap = MinHeap::new();
    heap.add(i32::MAX);
    heap.add(i32::MIN);
    heap.add(0);
    assert_eq!(heap.next(), Some(i32::MIN));
    assert_eq!(heap.next(), Some(0));
    assert_eq!(heap.next(), Some(i32::MAX));
    let mut heap = MaxHeap::new();
    heap.add(u64::MAX);
    heap.add(u64::MIN);
    heap.add(17u64);
    assert_eq!(heap.next(), Some(u64::MAX));
    assert_eq!(heap.next(), Some(17));
    assert_eq!(heap.next(), Some(0));
}

#[test]
fn string_elements() {
    let mut heap = MinHeap::new();
    heap.add(String::from("pear"));
    heap.add(String::from("apple"));
    heap.add(String::from("orange"));
    assert_eq!(heap.next(), Some(String::from("apple")));
    assert_eq!(heap.next(), Some(String::from("orange")));
    assert_eq!(heap.next(), Some(String::from("pear")));
    assert_eq!(heap.next(), None);
}

#[test]
fn single_element_heap() {
    let mut heap = MaxHeap::new();
    heap.add(42);
    assert_eq!(heap.len(), 1);
    assert_eq!(heap.next(), Some(42));
    assert_eq!(heap.next(), None);
}

#[test]
fn larger_shuffled_input_comes_out_sorted() {
    let input = [14, 3, 99, 27, 3, 58, 0, 76, 41, 12, 88, 7, 63, 27, 5];
    let mut heap = MinHeap::new();
    for x in input {
        heap.add(x);
    }
    assert_eq!(heap.len(), input.len());
    let mut drained = Vec::new();
    while let Some(x) = heap.next() {
        drained.push(x);
    }
    let mut expected = input.to_vec();
    expected.sort();
    assert_eq!(drained, expected);
    assert!(heap.is_empty());
}
