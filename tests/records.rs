use exploration::bed::{Bed, Dimensions};
use exploration::cars::{Car, CarColour, CarPark};
use exploration::fib::fib;
use exploration::human::Human;
use exploration::profile::Human as Profile;
use exploration::shake::{Shake, ShakeFlavour};
use exploration::text::first_word;

#[test]
fn fib_small_values() {
    assert_eq!(fib(0), 1);
    assert_eq!(fib(1), 1);
    assert_eq!(fib(2), 2);
    assert_eq!(fib(10), 89);
}

#[test]
fn fib_largest_value() {
    assert_eq!(fib(45), 1836311903);
}

#[test]
fn bed_sizes_and_areas() {
    let d = Bed::Single.size();
    assert_eq!((d.width, d.length), (90, 190));
    let d = Bed::SuperKing.size();
    assert_eq!((d.width, d.length), (180, 200));
    assert_eq!(Bed::Single.area(), 17100);
    assert_eq!(Bed::Queen.area(), 22800);
    assert_eq!(Bed::Double.area(), 25650);
    assert_eq!(Bed::King.area(), 30000);
    assert_eq!(Bed::SuperKing.area(), 36000);
}

#[test]
fn dimensions_area() {
    assert_eq!(Dimensions { width: 3, length: -7 }.area(), -21);
}

#[test]
fn chocolate_shake_defaults() {
    let s = Shake::chocolate_shake();
    assert!(s.flavour == ShakeFlavour::Chocolate);
    assert_eq!(s.volume, 500);
    assert_eq!(s.price(), 650);
}

#[test]
fn baby_with_weight() {
    let b = Human::baby("tom".to_string(), 2);
    assert_eq!(b.name, "tom");
    assert_eq!(b.age, 0);
    assert_eq!(b.weight, 2);
    assert_eq!(b.email, "tom@gmail.com");
}

#[test]
fn baby_profile_and_providers() {
    let mut b = Profile::baby("no-name".to_string());
    assert_eq!(b.email, "no-name@gmail.com");
    assert_eq!(b.age, 0);
    assert!(b.uses_gmail());
    assert!(!b.uses_yahoo());
    b.set_name("Jack".to_string());
    assert_eq!(b.name, "Jack");
    assert_eq!(b.email, "no-name@gmail.com");
}

#[test]
fn email_providers() {
    let y = Profile { name: "a".to_string(), age: 3, email: "a@yahoo.com".to_string() };
    assert!(y.uses_yahoo());
    assert!(!y.uses_gmail());
    let short = Profile { name: "b".to_string(), age: 3, email: "com".to_string() };
    assert!(!short.uses_gmail());
    let exact = Profile { name: "c".to_string(), age: 3, email: "gmail.com".to_string() };
    assert!(exact.uses_gmail());
    let other = Profile { name: "d".to_string(), age: 3, email: "d@gmail.co".to_string() };
    assert!(!other.uses_gmail());
}

#[test]
fn same_name() {
    let a = Profile { name: "Tom".to_string(), age: 1, email: String::new() };
    let b = Profile { name: "Tom".to_string(), age: 40, email: "x".to_string() };
    let c = Profile { name: "Tomas".to_string(), age: 1, email: String::new() };
    assert!(a.has_same_name(&b));
    assert!(!a.has_same_name(&c));
}

fn plates(park: &CarPark) -> Vec<String> {
    park.cars.iter().map(|c| c.number_plate().to_string()).collect()
}

#[test]
fn filter_old_keeps_young_cars_in_order() {
    let mut lot = CarPark {
        cars: vec![
            Car::new("RG54 1PQ".to_string(), 0, CarColour::Black),
            Car::new("RG54 3PQ".to_string(), 0, CarColour::Blue),
            Car::new("RG54 2PQ".to_string(), 0, CarColour::Green),
            Car::new("RG54 4PQ".to_string(), 10, CarColour::Silver),
        ],
    };
    lot.filter_old(5);
    assert_eq!(plates(&lot), vec!["RG54 1PQ", "RG54 3PQ", "RG54 2PQ"]);
}

#[test]
fn filter_old_removes_the_given_age() {
    let mut lot = CarPark {
        cars: vec![
            Car::new("A".to_string(), 4, CarColour::Red),
            Car::new("B".to_string(), 5, CarColour::Red),
            Car::new("C".to_string(), 6, CarColour::Red),
            Car::new("D".to_string(), -1, CarColour::Red),
        ],
    };
    lot.filter_old(5);
    assert_eq!(plates(&lot), vec!["A", "D"]);
    assert_eq!(lot.cars[0].age(), 4);
}

#[test]
fn filter_old_on_empty_park() {
    let mut lot = CarPark { cars: vec![] };
    lot.filter_old(0);
    assert!(lot.cars.is_empty());
}

#[test]
fn first_word_before_space() {
    assert_eq!(first_word("hello world"), "hello");
    assert_eq!(first_word("single"), "single");
    assert_eq!(first_word(" lead"), "");
    assert_eq!(first_word(""), "");
    assert_eq!(first_word("✅ré sumé"), "✅ré");
}
