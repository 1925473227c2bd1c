use stack::animals::Animal;
use stack::animals::Fish;
use stack::animals::Hamster;
use stack::animals::find_animals;
use stack::animals::str_compare;
use stack::animals::str_eq;
use stack::Stack;
use std::cmp::Ordering;

#[test]
fn string_comparison_is_lexicographic() {
    assert_eq!(str_compare("a", "b"), Ordering::Less);
    assert_eq!(str_compare("b", "a"), Ordering::Greater);
    assert_eq!(str_compare("abc", "abc"), Ordering::Equal);
    assert_eq!(str_compare("ab", "abc"), Ordering::Less);
    assert_eq!(str_compare("abc", "ab"), Ordering::Greater);
    assert_eq!(str_compare("", "a"), Ordering::Less);
    assert_eq!(str_compare("", ""), Ordering::Equal);
    assert_eq!(str_compare("Fish", "Hamster"), Ordering::Less);
    assert_eq!(str_compare("FishB", "dog"), Ordering::Less);

    assert!(str_eq("Nemo", "Nemo"));
    assert!(!str_eq("Nemo", "nemo"));
}

#[test]
fn fish_accessors() {
    let mut fish = Fish::new(1, String::from("Nemo"));
    assert_eq!(fish.get_fin_amount(), 1);
    assert_eq!(fish.get_name(), "Nemo");
    assert_eq!(fish.get_type(), "Fish");

    fish.set_fin_amount(4);
    fish.set_name(String::from("Dory"));
    assert_eq!(fish.get_fin_amount(), 4);
    assert_eq!(fish.get_name(), "Dory");
    assert_eq!(fish.get_type(), "Fish");
}

#[test]
fn hamster_accessors() {
    let mut hamster = Hamster::new(2, String::from("dog"), String::from("red"));
    assert_eq!(hamster.tail_length(), 2);
    assert_eq!(hamster.color(), "red");
    assert_eq!(hamster.get_name(), "dog");
    assert_eq!(hamster.get_type(), "Hamster");

    hamster.set_tail_length(3);
    hamster.set_color(String::from("brown"));
    assert_eq!(hamster.tail_length(), 3);
    assert_eq!(hamster.color(), "brown");
}

#[test]
fn records_order_by_category_then_name() {
    let nemo = Animal::Fish(Fish::new(1, String::from("Nemo")));
    let dog = Animal::Hamster(Hamster::new(2, String::from("dog"), String::from("red")));
    let fish_b = Animal::Fish(Fish::new(4, String::from("FishB")));
    let hamster_b = Animal::Hamster(Hamster::new(3, String::from("FishB"), String::from("red")));

    assert_eq!(nemo.cmp(&dog), Ordering::Less);
    assert_eq!(dog.cmp(&nemo), Ordering::Greater);
    assert_eq!(fish_b.cmp(&nemo), Ordering::Less);
    assert_eq!(hamster_b.cmp(&dog), Ordering::Less);
    assert_eq!(nemo.cmp(&nemo), Ordering::Equal);
    assert_eq!(nemo.partial_cmp(&dog), Some(Ordering::Less));

    let mut all = vec![nemo, dog, fish_b, hamster_b];
    all.sort_by(|a, b| a.cmp(b));
    let names: Vec<&str> = all.iter().map(|a| a.get_name()).collect();
    assert_eq!(names, vec!["FishB", "Nemo", "FishB", "dog"]);
    assert_eq!(all[0].get_type(), "Fish");
    assert_eq!(all[2].get_type(), "Hamster");
}

#[test]
fn equality_goes_by_category_and_name() {
    let one_fin = Animal::Fish(Fish::new(1, String::from("Nemo")));
    let four_fins = Animal::Fish(Fish::new(4, String::from("Nemo")));
    let hamster = Animal::Hamster(Hamster::new(2, String::from("Nemo"), String::from("red")));

    assert!(one_fin == four_fins);
    assert!(one_fin != hamster);

    let mut renamed = Animal::Fish(Fish::new(1, String::from("Other")));
    assert!(one_fin != renamed);
    renamed.set_name(String::from("Nemo"));
    assert!(one_fin == renamed);
}

#[test]
fn renaming_and_recategorising() {
    let mut animal = Animal::Fish(Fish::new(1, String::from("Nemo")));
    assert_eq!(animal.get_name(), "Nemo");
    assert_eq!(animal.get_type(), "Fish");

    animal.set_name(String::from("Marlin"));
    animal.set_type(String::from("Shark"));
    assert_eq!(animal.get_name(), "Marlin");
    assert_eq!(animal.get_type(), "Shark");
}

#[test]
fn find_animals_selects_by_name_in_order() {
    let animals = vec![
        Animal::Fish(Fish::new(1, String::from("Nemo"))),
        Animal::Hamster(Hamster::new(2, String::from("dog"), String::from("red"))),
        Animal::Fish(Fish::new(4, String::from("FishB"))),
        Animal::Hamster(Hamster::new(3, String::from("FishB"), String::from("red"))),
    ];

    let found = find_animals(&animals, "FishB");
    assert_eq!(found.len(), 2);
    assert_eq!(found[0].get_type(), "Fish");
    assert_eq!(found[1].get_type(), "Hamster");

    assert_eq!(find_animals(&animals, "nobody").len(), 0);
}

#[test]
fn stack_of_records() {
    let mut stack = Stack::new();
    stack.push(Animal::Fish(Fish::new(1, String::from("Nemo"))));
    stack.push(Animal::Hamster(Hamster::new(2, String::from("dog"), String::from("red"))));

    assert_eq!(stack.peek().unwrap().get_name(), "dog");
    assert!(stack.contains(&Animal::Hamster(Hamster::new(9, String::from("dog"), String::from("blue")))));
    assert!(!stack.contains(&Animal::Fish(Fish::new(1, String::from("dog")))));

    let popped = stack.pop().unwrap();
    assert_eq!(popped.get_type(), "Hamster");
    assert_eq!(stack.pop().unwrap().get_name(), "Nemo");
    assert!(stack.pop().is_none());
}
