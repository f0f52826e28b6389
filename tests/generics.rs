use exploration::generics::{
    get_len, shuffle, shuffle_i32_slice, shuffle_with, Bag, JugglingBall, JugglingBallColour,
};

#[test]
fn shuffle_with_given_picks() {
    let mut v = vec![1, 2, 3];
    shuffle_with(&mut v, &vec![2, 2, 2]);
    assert_eq!(v, vec![3, 1, 2]);
    let mut w = vec!["a", "b", "c", "d"];
    shuffle_with(&mut w, &vec![0, 1, 2, 3]);
    assert_eq!(w, vec!["a", "b", "c", "d"]);
    shuffle_with(&mut w, &vec![1, 0, 3, 2]);
    assert_eq!(w, vec!["a", "b", "c", "d"]);
    shuffle_with(&mut w, &vec![3, 3, 3, 3]);
    assert_eq!(w, vec!["d", "a", "b", "c"]);
}

#[test]
fn shuffle_keeps_the_items() {
    let mut v: Vec<i32> = (0..50).collect();
    shuffle(&mut v);
    let mut sorted = v.clone();
    sorted.sort();
    assert_eq!(sorted, (0..50).collect::<Vec<i32>>());
    let mut e: Vec<i32> = vec![];
    shuffle(&mut e);
    assert!(e.is_empty());
}

#[test]
fn shuffle_i32_keeps_the_items() {
    let mut v = vec![1, 2, 3, 4, 5, 5];
    shuffle_i32_slice(&mut v);
    v.sort();
    assert_eq!(v, vec![1, 2, 3, 4, 5, 5]);
}

#[test]
fn bag_first_item() {
    let bag = Bag { brand: "Nike".to_string(), items: vec!["hat", "shirt", "pants"] };
    assert_eq!(bag.get_first_item(), Some(&"hat"));
    let empty: Bag<i32> = Bag { brand: "None".to_string(), items: vec![] };
    assert_eq!(empty.get_first_item(), None);
}

#[test]
fn juggle_keeps_the_balls() {
    let mut bag = Bag {
        brand: "Clown max".to_string(),
        items: vec![
            JugglingBall { colour: JugglingBallColour::Red },
            JugglingBall { colour: JugglingBallColour::Blue },
            JugglingBall { colour: JugglingBallColour::Green },
        ],
    };
    bag.juggle();
    assert_eq!(bag.items.len(), 3);
    assert_eq!(bag.brand, "Clown max");
    let reds = bag.items.iter().filter(|b| matches!(b.colour, JugglingBallColour::Red)).count();
    let blues = bag.items.iter().filter(|b| matches!(b.colour, JugglingBallColour::Blue)).count();
    assert_eq!((reds, blues), (1, 1));
}

#[test]
fn lengths() {
    assert_eq!(get_len(vec![1, 2, 3, 4, 5]), 5);
    assert_eq!(get_len(Vec::<i32>::new()), 0);
    let a = [1, 2, 3, 4, 5];
    assert_eq!(get_len(&a), 5);
}
