use rand::seq::SliceRandom;
use raphael_rs::{ParetoFrontBuilder, ParetoValue};

fn sample_front_1() -> Vec<ParetoValue> {
    vec![
        ParetoValue::new(100, 300),
        ParetoValue::new(200, 200),
        ParetoValue::new(300, 100),
    ]
}

fn sample_front_2() -> Vec<ParetoValue> {
    vec![
        ParetoValue::new(50, 270),
        ParetoValue::new(150, 250),
        ParetoValue::new(250, 150),
        ParetoValue::new(300, 50),
    ]
}

#[test]
fn test_save() {
    let mut builder = ParetoFrontBuilder::new(1000, 1000);
    builder.push_slice(&sample_front_1());
    let id = builder.save().unwrap();
    assert_eq!(builder.retrieve(id), builder.peek().unwrap());
    assert_eq!(builder.retrieve(id), sample_front_1());
}

#[test]
fn test_merge_empty() {
    let mut builder = ParetoFrontBuilder::new(1000, 2000);
    builder.push_empty();
    builder.push_empty();
    builder.merge();
    let front = builder.peek().unwrap();
    assert!(front.as_ref().is_empty());
    assert!(builder.check_invariants());
}

#[test]
fn test_merge() {
    let mut builder = ParetoFrontBuilder::new(1000, 2000);
    builder.push_slice(&sample_front_1());
    builder.push_slice(&sample_front_2());
    builder.merge();
    let front = builder.peek().unwrap();
    assert_eq!(
        *front,
        [
            ParetoValue::new(100, 300),
            ParetoValue::new(150, 250),
            ParetoValue::new(200, 200),
            ParetoValue::new(250, 150),
            ParetoValue::new(300, 100),
        ]
    );
    assert!(builder.check_invariants());
}

#[test]
fn test_merge_truncate() {
    let mut builder = ParetoFrontBuilder::new(1000, 2000);
    builder.push_slice(&[
        ParetoValue::new(1100, 2300),
        ParetoValue::new(1200, 2200),
        ParetoValue::new(1300, 2100),
    ]);
    builder.push_slice(&[
        ParetoValue::new(1050, 2270),
        ParetoValue::new(1150, 2250),
        ParetoValue::new(1250, 2150),
        ParetoValue::new(1300, 2050),
    ]);
    builder.merge();
    let front = builder.peek().unwrap();
    assert_eq!(*front, [ParetoValue::new(1300, 2100)]);
    assert!(builder.check_invariants());
}

#[test]
fn test_merge_fuzz() {
    let mut rng = rand::thread_rng();
    let mut values_first: Vec<u16> = (1..100).collect();
    let mut values_second: Vec<u16> = (1..100).collect();
    let mut random_values = |n: usize| -> Vec<ParetoValue> {
        values_first.shuffle(&mut rng);
        values_second.shuffle(&mut rng);
        let mut values_first: Vec<_> = values_first.iter().copied().take(n).collect();
        let mut values_second: Vec<_> = values_second.iter().copied().take(n).collect();
        values_first.sort();
        values_second.sort_by_key(|x| std::cmp::Reverse(*x));
        values_first
            .iter()
            .zip(values_second.iter())
            .map(|(x, y)| ParetoValue::new(*x, *y))
            .collect()
    };

    for _ in 0..1000 {
        let values_a = random_values(10);
        let values_b = random_values(10);

        let mut lut = [0; 101];
        let mut expected_result = Vec::new();
        for a in values_a.iter().copied() {
            lut[a.first as usize] = std::cmp::max(lut[a.first as usize], a.second);
        }
        for b in values_b.iter().copied() {
            lut[b.first as usize] = std::cmp::max(lut[b.first as usize], b.second);
        }
        for i in (0..100).rev() {
            lut[i] = std::cmp::max(lut[i], lut[i + 1]);
        }
        for i in 0..100 {
            if lut[i] != lut[i + 1] {
                expected_result.push(ParetoValue::new(i as u16, lut[i]));
            }
        }

        let mut builder = ParetoFrontBuilder::new(u16::MAX, u16::MAX);
        builder.push_slice(&values_a);
        assert!(builder.check_invariants());
        builder.push_slice(&values_b);
        assert!(builder.check_invariants());
        builder.merge();
        assert!(builder.check_invariants());

        let result = builder.peek().unwrap();
        assert_eq!(result, &expected_result);
    }
}

#[test]
fn test_merge_with_itself() {
    let mut builder = ParetoFrontBuilder::new(1000, 1000);
    builder.push_slice(&sample_front_2());
    builder.push_slice(&sample_front_2());
    builder.merge();
    assert_eq!(builder.peek().unwrap(), sample_front_2());
}

#[test]
fn test_stack_and_store() {
    let mut builder = ParetoFrontBuilder::new(1000, 1000);
    assert!(builder.peek().is_none());
    assert!(builder.save().is_none());
    assert!(!builder.is_max());
    builder.push_slice(&sample_front_1());
    let first = builder.save().unwrap();
    builder.push_slice(&sample_front_2());
    let second = builder.save().unwrap();
    builder.merge();
    builder.clear();
    assert!(builder.peek().is_none());
    assert_eq!(builder.retrieve(first), sample_front_1());
    assert_eq!(builder.retrieve(second), sample_front_2());
    builder.push_empty();
    builder.push_id(second);
    assert_eq!(builder.peek().unwrap(), sample_front_2());
    builder.merge();
    assert_eq!(builder.peek().unwrap(), sample_front_2());
    assert!(builder.check_invariants());
}

#[test]
fn test_shift() {
    let mut builder = ParetoFrontBuilder::new(1000, 1000);
    builder.push_slice(&sample_front_1());
    builder.shift(10, 20);
    assert_eq!(
        builder.peek().unwrap(),
        [
            ParetoValue::new(110, 320),
            ParetoValue::new(210, 220),
            ParetoValue::new(310, 120),
        ]
    );
    // everything reaches the cap of the second coordinate: the last point stays
    builder.shift(0, 900);
    assert_eq!(builder.peek().unwrap(), [ParetoValue::new(310, 1020)]);
    assert!(!builder.is_max());
    builder.shift(700, 0);
    assert_eq!(builder.peek().unwrap(), [ParetoValue::new(1010, 1020)]);
    assert!(builder.is_max());
    // a shift that runs into the largest value leaves a front
    builder.clear();
    builder.push_slice(&[ParetoValue::new(65000, 30), ParetoValue::new(65500, 20)]);
    builder.shift(600, 65530);
    assert_eq!(builder.peek().unwrap(), [ParetoValue::new(65535, 65535)]);
    assert!(builder.check_invariants());
}
