use euphony::runtime::rng::{gen_range, one_of, seed, shuffle, swap, swap_count, Scope};

fn sorted(mut v: Vec<u32>) -> Vec<u32> {
    v.sort();
    v
}

#[test]
fn async_seed() {
    let scope = Scope::new(123);
    assert_eq!(seed(&scope), 123);
}

#[test]
fn shuffle_keeps_items() {
    let mut scope = Scope::new(42);
    let mut items: Vec<u32> = (0..20).collect();
    shuffle(&mut scope, &mut items);
    assert_eq!(sorted(items), (0..20).collect::<Vec<u32>>());
    assert_eq!(seed(&scope), 42);
}

#[test]
fn swaps_keep_items() {
    let mut scope = Scope::new(7);
    let mut items: Vec<u32> = vec![5, 1, 4, 1, 3];
    swap(&mut scope, &mut items);
    assert_eq!(sorted(items.clone()), vec![1, 1, 3, 4, 5]);
    swap_count(&mut scope, &mut items, 10);
    assert_eq!(sorted(items.clone()), vec![1, 1, 3, 4, 5]);
    let before = items.clone();
    swap_count(&mut scope, &mut items, 0);
    assert_eq!(items, before);
    let mut empty: Vec<u32> = vec![];
    swap_count(&mut scope, &mut empty, 0);
}

#[test]
fn one_of_picks_an_item() {
    let mut scope = Scope::new(1);
    let items = [10u32, 20, 30];
    for _ in 0..10 {
        let v = *one_of(&mut scope, &items);
        assert!(items.contains(&v));
    }
}

#[test]
fn same_seed_same_choices() {
    let mut a = Scope::new(99);
    let mut b = Scope::new(99);
    let mut x: Vec<u32> = (0..10).collect();
    let mut y: Vec<u32> = (0..10).collect();
    shuffle(&mut a, &mut x);
    shuffle(&mut b, &mut y);
    assert_eq!(x, y);
}

#[test]
fn gen_range_test() {
    let mut scope = Scope::new(7);
    for _ in 0..100 {
        let v = gen_range(&mut scope, 10..13);
        assert!((10..13).contains(&v));
    }
    assert_eq!(gen_range(&mut scope, 5..6), 5);
}
