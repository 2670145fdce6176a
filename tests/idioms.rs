use idioms::basics::{get, get_constant, third_function, ANOTHER_CONSTANT, GLOBAL_CONSTANT};
use idioms::bounds::{function, MyTrait, OtherStructure};
use idioms::cells::{StructureWithRefCell, StructureWithoutRefCell};
use idioms::deref::{CustomBox, OtherCustomBox, ThirdCustomBox};
use idioms::generics::{get_sum, MyOtherStructure};
use idioms::lifetimes::{get_highest, get_longest_string, get_one_reference};

#[test]
fn boxes_hold_and_dereference() {
    let b = CustomBox::new(10u8);
    assert_eq!(*b, 10);
    let _other = OtherCustomBox::new(20u8);
    let mut third = ThirdCustomBox::new(30u8);
    *third += 1;
    assert_eq!(*third, 31);
}

#[test]
fn get_sum_picks_by_choice() {
    assert_eq!(get_sum(true, 10, 5), 10);
    assert_eq!(get_sum(false, 10, 5), 5);
}

#[test]
fn generic_structures_return_first() {
    let s = idioms::generics::MyStructure { first: 10u32, second: true, third: false };
    assert_eq!(*s.get_first(), 10);
    let a = MyOtherStructure { first: 10u32, second: false, third: false };
    assert_eq!(*a.get_first(), 10);
    let b = MyOtherStructure { first: false, second: 25u32, third: false };
    assert_eq!(*b.get_first(), 25);
}

#[test]
fn lifetimes_return_expected_reference() {
    assert_eq!(get_longest_string("abc"), "abc");
    assert_eq!(*get_highest(&0, &20), 0);
    assert_eq!(*get_highest(&10, &20), 20);
    assert_eq!(*get_one_reference(&10, &20), 10);
    let (x, y) = (10, 20);
    let s = idioms::lifetimes::MyStructure { reference: &x, other_reference: &y };
    assert_eq!(*s.get_reference(), 20);
}

#[test]
fn cells_update_through_shared_borrow() {
    let plain = StructureWithoutRefCell { value: 10 };
    plain.try_update();
    assert_eq!(plain.value, 10);
    let cell = StructureWithRefCell::new(10);
    assert_eq!(cell.value(), 10);
    cell.try_update();
    assert_eq!(cell.value(), 20);
}

#[test]
fn replace_moves_vector_out() {
    let mut s = idioms::replace::MyStructure { array: vec![1, 2, 3] };
    assert_eq!(*s.get_array_reference(), vec![1, 2, 3]);
    let mut s = idioms::replace::MyStructure { array: vec![10, 20] };
    let out = s.move_out_array();
    assert_eq!(out[0], 10);
    assert_eq!(s.array[0], 100);
    assert_eq!(s.array, vec![100, 200]);
    let mut s = idioms::replace::MyStructure { array: vec![15, 25] };
    let out = s.move_out_and_replace(vec![150, 250]);
    assert_eq!(out, vec![15, 25]);
    assert_eq!(s.array, vec![150, 250]);
}

#[test]
fn trait_bounds_reach_first_value() {
    let object = idioms::bounds::MyStructure { first: 10 };
    assert_eq!(*function(&object), 10);
    let other = OtherStructure { first: object, second: 15 };
    assert_eq!(*other.get_first_value().get_first(), 10);
    assert_eq!(*other.get_second_value(), 15);
}

#[test]
fn constants_and_expressions() {
    assert_eq!(GLOBAL_CONSTANT, 0);
    assert_eq!(ANOTHER_CONSTANT, 25);
    assert_eq!(get_constant(), 10);
    assert_eq!(get(), 15);
    assert_eq!(third_function(), "my string");
}
