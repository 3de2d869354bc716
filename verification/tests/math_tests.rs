use miscmath::{factorial, fibonacci, MathError, Perlin, DEFAULT_NOISE_SEED};

#[test]
fn vec2_it_works() {
    println!("test");
}

#[test]
fn math_it_works() {
    assert_eq!(factorial(0), Ok(1));
    assert_eq!(factorial(1), Ok(1));
    assert_eq!(factorial(2), Ok(2));
    assert_eq!(factorial(3), Ok(6));
    assert_eq!(factorial(4), Ok(24));
    assert_eq!(factorial(5), Ok(120));
}

#[test]
fn math_tests_it_works() {
    assert_eq!(factorial(0), Ok(1));
    assert_eq!(factorial(1), Ok(1));
    assert_eq!(factorial(2), Ok(2));
    assert_eq!(factorial(3), Ok(6));
    assert_eq!(factorial(4), Ok(24));
    assert_eq!(factorial(5), Ok(120));
}

#[test]
fn factorial_of_twenty_fits() {
    assert_eq!(factorial(20), Ok(2432902008176640000));
}

#[test]
fn factorial_reports_overflow() {
    assert_eq!(factorial(21), Err(MathError::Overflow));
    assert_eq!(factorial(100), Err(MathError::Overflow));
    assert_eq!(factorial(usize::MAX), Err(MathError::Overflow));
}

#[test]
fn fibonacci_runs() {
    fibonacci();
}

#[test]
fn perlin_keeps_its_seed() {
    let perlin = Perlin::new(42);
    assert_eq!(perlin.seed, 42);
}

#[test]
fn perlin_table_is_a_permutation() {
    let perlin = Perlin::new(DEFAULT_NOISE_SEED);
    let table = perlin.permutation();
    assert_eq!(table.len(), 256);
    let mut seen = [false; 256];
    for &entry in table.iter() {
        assert!((0..256).contains(&entry));
        assert!(!seen[entry as usize]);
        seen[entry as usize] = true;
    }
    assert!(seen.iter().all(|&s| s));
}

#[test]
fn perlin_tables_are_shuffled() {
    // Two generators almost surely disagree somewhere; a table that merely
    // echoed slot indices would also fail the identity check below.
    let a = Perlin::new(DEFAULT_NOISE_SEED);
    let b = Perlin::new(DEFAULT_NOISE_SEED);
    let identity = (0..256).all(|j| a.permutation()[j] == j as i16);
    let same = (0..256).all(|j| a.permutation()[j] == b.permutation()[j]);
    assert!(!identity || !same);
}
