use pathtracer::random::{row_seed, XorShiftRandom};

#[test]
fn xorshift_known_values() {
    let mut rng = XorShiftRandom::new(1);
    assert_eq!(rng.next(), 270369);
    assert_eq!(rng.next(), 67634689);
    assert_eq!(rng.next(), 2647435461);
    assert_eq!(rng.next(), 307599695);
    assert_eq!(rng.next(), 2398689233);
}

#[test]
fn xorshift_same_seed_same_stream() {
    let mut a = XorShiftRandom::new(42);
    let mut b = XorShiftRandom::new(42);
    let mut i: usize = 0;
    while i < 1000 {
        assert_eq!(a.next(), b.next());
        i += 1;
    }
}

#[test]
fn xorshift_distinct_seeds_diverge() {
    let mut a = XorShiftRandom::new(1);
    let mut b = XorShiftRandom::new(2);
    assert_eq!(a.next(), 270369);
    assert_eq!(b.next(), 540738);
}

#[test]
fn row_seed_is_row_index_plus_one() {
    assert_eq!(row_seed(0), 1);
    assert_eq!(row_seed(42), 43);
    assert_eq!(row_seed(479), 480);
}

#[test]
fn row_streams_are_reproducible() {
    let mut first = XorShiftRandom::new(row_seed(42));
    let mut second = XorShiftRandom::new(row_seed(42));
    assert_eq!(first.next(), 11101449);
    assert_eq!(second.next(), 11101449);
    let mut i: usize = 0;
    while i < 100 {
        assert_eq!(first.next(), second.next());
        i += 1;
    }
}
