use lalrpop::stack::{HeterogeneousStack, Holds, Metadata};
use lalrpop::value::Value;
use std::mem::{align_of, size_of};
use std::rc::Rc;

/// What a frame records for locations of type `usize`: an offset and two
/// locations.
const METADATA: usize = 3 * size_of::<usize>();

/// A type of values that holds what `Value` does not. `held` speaks of a value
/// in contracts, and is never called.
enum Any {
    Float(f64),
    Int(i32),
    Bool(bool),
    Text(String),
    Numbers(Vec<i32>),
    Wide(u128),
    Shared(Rc<()>),
}

impl Holds<f64> for Any {
    fn held(self) -> Option<f64> {
        unreachable!()
    }
    fn erase(value: f64) -> Self {
        Any::Float(value)
    }
    fn recover(self) -> f64 {
        match self {
            Any::Float(value) => value,
            _ => unreachable!(),
        }
    }
}

impl Holds<i32> for Any {
    fn held(self) -> Option<i32> {
        unreachable!()
    }
    fn erase(value: i32) -> Self {
        Any::Int(value)
    }
    fn recover(self) -> i32 {
        match self {
            Any::Int(value) => value,
            _ => unreachable!(),
        }
    }
}

impl Holds<bool> for Any {
    fn held(self) -> Option<bool> {
        unreachable!()
    }
    fn erase(value: bool) -> Self {
        Any::Bool(value)
    }
    fn recover(self) -> bool {
        match self {
            Any::Bool(value) => value,
            _ => unreachable!(),
        }
    }
}

impl Holds<String> for Any {
    fn held(self) -> Option<String> {
        unreachable!()
    }
    fn erase(value: String) -> Self {
        Any::Text(value)
    }
    fn recover(self) -> String {
        match self {
            Any::Text(value) => value,
            _ => unreachable!(),
        }
    }
}

impl Holds<Vec<i32>> for Any {
    fn held(self) -> Option<Vec<i32>> {
        unreachable!()
    }
    fn erase(value: Vec<i32>) -> Self {
        Any::Numbers(value)
    }
    fn recover(self) -> Vec<i32> {
        match self {
            Any::Numbers(value) => value,
            _ => unreachable!(),
        }
    }
}

impl Holds<u128> for Any {
    fn held(self) -> Option<u128> {
        unreachable!()
    }
    fn erase(value: u128) -> Self {
        Any::Wide(value)
    }
    fn recover(self) -> u128 {
        match self {
            Any::Wide(value) => value,
            _ => unreachable!(),
        }
    }
}

impl Holds<Rc<()>> for Any {
    fn held(self) -> Option<Rc<()>> {
        unreachable!()
    }
    fn erase(value: Rc<()>) -> Self {
        Any::Shared(value)
    }
    fn recover(self) -> Rc<()> {
        match self {
            Any::Shared(value) => value,
            _ => unreachable!(),
        }
    }
}

/// A stack that holds one `u8`, one `u64` and one `String`.
fn three() -> HeterogeneousStack<usize> {
    let mut stack: HeterogeneousStack<usize> = HeterogeneousStack::new();
    stack.push(0, 1u8, 1);
    stack.push(1, 42u64, 5);
    stack.push(5, "x".to_string(), 6);
    stack
}

#[test]
fn test_push_pop_primitives() {
    let mut stack: HeterogeneousStack<usize, Any> = HeterogeneousStack::new();

    stack.push(0, 42i32, 1);
    stack.push(1, 3.14f64, 2);
    stack.push(2, true, 3);

    assert_eq!(stack.pop::<bool>(), (2, true, 3));
    assert_eq!(stack.pop::<f64>(), (1, 3.14, 2));
    assert_eq!(stack.pop::<i32>(), (0, 42, 1));
}

#[test]
fn test_push_pop_strings() {
    let mut stack: HeterogeneousStack<usize, Any> = HeterogeneousStack::new();

    stack.push(0, "hello".to_string(), 1);
    stack.push(1, vec![1, 2, 3], 2);

    let (_, v, _) = stack.pop::<Vec<i32>>();
    assert_eq!(v, vec![1, 2, 3]);

    let (_, s, _) = stack.pop::<String>();
    assert_eq!(s, "hello");
}

#[test]
fn test_empty() {
    let stack: HeterogeneousStack<usize> = HeterogeneousStack::new();
    assert!(stack.is_empty());
}

#[test]
fn test_alignment() {
    let mut stack: HeterogeneousStack<usize> = HeterogeneousStack::new();

    stack.push(0, 1u8, 0);
    stack.push(0, 42u64, 0);
    stack.push(0, 2u8, 0);

    assert_eq!(stack.pop::<u8>().1, 2);
    assert_eq!(stack.pop::<u64>().1, 42);
    assert_eq!(stack.pop::<u8>().1, 1);
}

#[test]
fn values_come_back_in_the_type_they_went_in() {
    let mut stack: HeterogeneousStack<(), Value> = HeterogeneousStack::default();
    stack.push((), (), ());
    stack.push((), false, ());
    stack.push((), 'ß', ());
    stack.push((), 1u16, ());
    stack.push((), 2u32, ());
    stack.push((), 3usize, ());
    stack.push((), -4i8, ());
    stack.push((), -5i16, ());
    stack.push((), -6i32, ());
    stack.push((), -7i64, ());
    stack.push((), -8isize, ());
    assert_eq!(stack.pop::<isize>().1, -8);
    assert_eq!(stack.pop::<i64>().1, -7);
    assert_eq!(stack.pop::<i32>().1, -6);
    assert_eq!(stack.pop::<i16>().1, -5);
    assert_eq!(stack.pop::<i8>().1, -4);
    assert_eq!(stack.pop::<usize>().1, 3);
    assert_eq!(stack.pop::<u32>().1, 2);
    assert_eq!(stack.pop::<u16>().1, 1);
    assert_eq!(stack.pop::<char>().1, 'ß');
    assert!(!stack.pop::<bool>().1);
    assert_eq!(stack.pop::<()>().1, ());
    assert!(stack.is_empty());
}

#[test]
fn frames_are_padded_to_the_alignment_of_their_metadata() {
    let mut stack: HeterogeneousStack<usize> = HeterogeneousStack::new();
    assert_eq!(stack.len(), 0);
    stack.push(0, 1u8, 1);
    let first = align_of::<usize>() + METADATA;
    assert_eq!(stack.len(), first);
    stack.push(1, 7usize, 2);
    let second = first + size_of::<usize>() + METADATA;
    assert_eq!(stack.len(), second);
    stack.push(2, (), 3);
    assert_eq!(stack.len(), second + METADATA);
    stack.push(3, "text".to_string(), 4);
    assert_eq!(stack.len(), second + METADATA + size_of::<String>() + METADATA);
    stack.pop::<String>();
    assert_eq!(stack.len(), second + METADATA);
    stack.pop::<()>();
    assert_eq!(stack.len(), second);
}

#[test]
fn a_small_stack_has_room() {
    let mut stack: HeterogeneousStack<usize> = HeterogeneousStack::new();
    assert!(stack.has_room::<u8>());
    assert!(stack.has_room::<[u8; 1000]>());
    stack.push(0, 1u8, 1);
    assert!(stack.has_room::<String>());
}

#[test]
fn values_are_placed_at_the_next_offset_aligned_for_them() {
    let mut stack: HeterogeneousStack<u8, Any> = HeterogeneousStack::new();
    let metadata = size_of::<Metadata<u8>>();
    let align = align_of::<u128>();
    let mut padded = false;
    for pushes in 0..4 {
        let below = stack.len();
        let offset = stack.next_value_offset::<u128>();
        assert_eq!(offset % align, 0);
        assert!(below <= offset && offset < below + align);
        padded = padded || below < offset;
        assert!(stack.has_room::<u128>());
        stack.push(1, 9u128, 2);
        assert_eq!(stack.len(), offset + size_of::<u128>() + metadata);
        assert_eq!(stack.pop::<u128>(), (1, 9, 2));
        assert_eq!(stack.len(), below);
        assert_eq!(stack.next_value_offset::<u128>(), offset);
        stack.push(pushes, true, pushes + 1);
    }
    assert!(padded || align <= align_of::<Metadata<u8>>());
}

#[test]
fn padding_before_a_value_belongs_to_its_frame() {
    let mut stack: HeterogeneousStack<u8, Any> = HeterogeneousStack::new();
    stack.push(1, true, 2);
    stack.push(3, "below".to_string(), 4);
    let below = stack.len();
    stack.push(5, 7u128, 6);
    stack.push(7, 8u128, 8);
    assert_eq!(stack.get_nth_last_location(0), Some((&7, &8)));
    assert_eq!(stack.get_nth_last_location(1), Some((&5, &6)));
    assert_eq!(stack.get_nth_last_location(2), Some((&3, &4)));
    assert_eq!(stack.get_nth_last_location(3), Some((&1, &2)));
    stack.truncate_last(2);
    assert_eq!(stack.len(), below);
    assert_eq!(stack.pop::<String>(), (3, "below".to_string(), 4));
    assert_eq!(stack.pop::<bool>(), (1, true, 2));
    assert!(stack.is_empty());
    assert_eq!(stack.len(), 0);
    assert_eq!(stack.last_location(), None);
}

#[test]
fn pop_undoes_push() {
    let mut stack = three();
    let size = stack.len();
    stack.push(6, 'c', 7);
    assert_eq!(stack.pop::<char>(), (6, 'c', 7));
    assert_eq!(stack.len(), size);
    assert_eq!(stack.get_nth_last_location(0), Some((&5, &6)));
    assert_eq!(stack.pop::<String>(), (5, "x".to_string(), 6));
}

#[test]
fn locations_are_counted_from_the_top() {
    let mut stack = three();
    assert_eq!(stack.last_location(), Some((&5, &6)));
    assert_eq!(stack.get_nth_last_location(0), Some((&5, &6)));
    assert_eq!(stack.get_nth_last_location(1), Some((&1, &5)));
    assert_eq!(stack.get_nth_last_location(2), Some((&0, &1)));
    assert_eq!(stack.get_nth_last_location(3), None);
    assert_eq!(stack.get_nth_last_location(usize::MAX), None);
    stack.push(6, true, 8);
    assert_eq!(stack.last_location(), Some((&6, &8)));
    assert_eq!(stack.get_nth_last_location(1), Some((&5, &6)));
}

#[test]
fn an_empty_stack_has_no_locations() {
    let mut stack: HeterogeneousStack<usize> = HeterogeneousStack::new();
    assert_eq!(stack.last_location(), None);
    assert_eq!(stack.get_nth_last_location(0), None);
    assert_eq!(stack.nth_last_metadata_offset(0), None);
}

#[test]
fn metadata_lies_at_the_end_of_its_frame() {
    let stack = three();
    let first = align_of::<usize>();
    let second = first + METADATA + size_of::<u64>();
    let third = second + METADATA + size_of::<String>();
    assert_eq!(stack.nth_last_metadata_offset(2), Some(first));
    assert_eq!(stack.nth_last_metadata_offset(1), Some(second));
    assert_eq!(stack.nth_last_metadata_offset(0), Some(third));
    assert_eq!(stack.nth_last_metadata_offset(3), None);
}

#[test]
fn truncating_drops_from_the_top() {
    let mut stack = three();
    let size = stack.len();
    stack.truncate_last(0);
    assert_eq!(stack.len(), size);
    stack.truncate_last(2);
    assert_eq!(stack.len(), align_of::<usize>() + METADATA);
    assert_eq!(stack.last_location(), Some((&0, &1)));
    assert_eq!(stack.pop::<u8>(), (0, 1, 1));
    assert!(stack.is_empty());
}

#[test]
fn truncating_in_two_goes_is_truncating_in_one() {
    let mut once = three();
    once.truncate_last(2);
    let mut twice = three();
    twice.truncate_last(1);
    twice.truncate_last(1);
    assert_eq!(once.len(), twice.len());
    assert_eq!(once.last_location(), twice.last_location());
}

#[test]
fn truncating_all_is_clearing() {
    let mut stack = three();
    stack.truncate_last(3);
    assert!(stack.is_empty());
    assert_eq!(stack.len(), 0);
    let mut cleared = three();
    cleared.clear();
    assert!(cleared.is_empty());
    assert_eq!(cleared.len(), 0);
    cleared.push(3, 4u8, 5);
    assert_eq!(cleared.pop::<u8>(), (3, 4, 5));
}

/// A stack whose one value and whose two locations are owners of `owned`.
fn owning(owned: &Rc<()>) -> HeterogeneousStack<Rc<()>, Any> {
    let mut stack = HeterogeneousStack::new();
    stack.push(owned.clone(), owned.clone(), owned.clone());
    stack
}

#[test]
fn only_what_is_popped_is_dropped() {
    let owned = Rc::new(());
    let mut stack = owning(&owned);
    assert_eq!(Rc::strong_count(&owned), 4);
    let popped = stack.pop::<Rc<()>>();
    assert_eq!(Rc::strong_count(&owned), 4);
    drop(popped);
    assert_eq!(Rc::strong_count(&owned), 1);
    drop(stack);
    assert_eq!(Rc::strong_count(&owned), 1);
}

#[test]
fn clearing_does_not_drop() {
    let owned = Rc::new(());
    let mut stack = owning(&owned);
    stack.clear();
    assert!(stack.is_empty());
    assert_eq!(Rc::strong_count(&owned), 4);
}

#[test]
fn truncating_does_not_drop() {
    let owned = Rc::new(());
    let mut stack = owning(&owned);
    stack.truncate_last(1);
    assert!(stack.is_empty());
    assert_eq!(Rc::strong_count(&owned), 4);
}

#[test]
fn the_end_of_a_stack_does_not_drop_what_it_holds() {
    let owned = Rc::new(());
    drop(owning(&owned));
    assert_eq!(Rc::strong_count(&owned), 4);
}

#[test]
fn no_bytes_means_no_values() {
    let mut stack = three();
    while !stack.is_empty() {
        assert!(stack.len() > 0);
        assert!(stack.last_location().is_some());
        stack.truncate_last(1);
    }
    assert_eq!(stack.len(), 0);
    assert_eq!(stack.last_location(), None);
    // values without a size count all the same
    stack.push(1, (), 2);
    assert!(!stack.is_empty());
    assert!(stack.len() > 0);
}
