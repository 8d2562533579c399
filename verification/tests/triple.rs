use enum_params::{enumerate, exhaust, AsEnumParam, EnumParam, EnumParam2, EnumParam3, Reset};

#[test]
fn test_enum_param3() {
    let p1 = EnumParam::new(vec![0, 1]);
    let p2 = p1.clone();
    let p3 = p1.clone();

    let params = EnumParam3::new(p1, p2, p3);
    let mut iter = params.iter();
    assert_eq!(iter.next().unwrap(), (0, 0, 0));
    assert_eq!(iter.next().unwrap(), (0, 0, 1));
    assert_eq!(iter.next().unwrap(), (0, 1, 0));
    assert_eq!(iter.next().unwrap(), (0, 1, 1));
    assert_eq!(iter.next().unwrap(), (1, 0, 0));
    assert_eq!(iter.next().unwrap(), (1, 0, 1));
    assert_eq!(iter.next().unwrap(), (1, 1, 0));
    assert_eq!(iter.next().unwrap(), (1, 1, 1));
    assert_eq!(iter.next(), None);
}

#[test]
fn enum_param3_test_len() {
    let a = EnumParam::new(vec![1, 2]);
    let b = EnumParam::new(vec![4.4, 8.8, 9.0]);
    let c = EnumParam::new(vec!['x', 'y', 'z']);

    let abc = EnumParam3::new(a, b, c);
    assert_eq!(abc.len(), 18);
}

#[test]
fn test_rand() {
    let a = EnumParam::new(vec![1, 2, 3, 4]);
    let b = EnumParam::new(vec![4.4, 8.8, 9.0]);
    let c = EnumParam::new(vec!['x', 'y', 'z']);
    let abc = EnumParam3::new(a, b, c);

    println!("{:?}", abc.rand());
}

#[test]
fn triple_value_at_place_k() {
    let a = vec![1, 2];
    let b = vec!['p', 'q', 'r'];
    let c = vec![false, true];
    let params = EnumParam3::new(
        EnumParam::new(a.clone()),
        EnumParam::new(b.clone()),
        EnumParam::new(c.clone()),
    );
    let all = enumerate(&params);
    assert_eq!(all.len(), 12);
    for k in 0..all.len() {
        assert_eq!(all[k], (a[k / c.len() / b.len()], b[(k / c.len()) % b.len()], c[k % c.len()]));
    }
    assert_eq!(all[9], (2, 'q', true));
}

#[test]
fn triple_agrees_with_both_nestings() {
    let a = EnumParam::new(vec![1, 2]);
    let b = EnumParam::new(vec!['p', 'q', 'r']);
    let c = EnumParam::new(vec![false, true]);
    let flat = enumerate(&EnumParam3::new(a.clone(), b.clone(), c.clone()));
    let left: Vec<(i32, char, bool)> =
        enumerate(&EnumParam2::new(EnumParam2::new(a.clone(), b.clone()), c.clone()))
            .into_iter()
            .map(|((x, y), z)| (x, y, z))
            .collect();
    let right: Vec<(i32, char, bool)> = enumerate(&EnumParam2::new(a, EnumParam2::new(b, c)))
        .into_iter()
        .map(|(x, (y, z))| (x, y, z))
        .collect();
    assert_eq!(flat, left);
    assert_eq!(flat, right);
}

#[test]
fn triple_reset_replays_the_first_pass() {
    let p = EnumParam::new(vec![0, 1, 2]);
    let params = EnumParam3::new(p.clone(), p.clone(), p);
    let mut iter = params.iter();
    let first = exhaust(&mut iter);
    assert_eq!(first.len(), 27);
    assert_eq!(iter.next(), None);
    iter.reset();
    assert_eq!(iter.next(), Some((0, 0, 0)));
    assert_eq!(iter.next(), Some((0, 0, 1)));
    assert_eq!(iter.next(), Some((0, 0, 2)));
    assert_eq!(iter.next(), Some((0, 1, 0)));
    iter.reset();
    assert_eq!(exhaust(&mut iter), first);
}

#[test]
fn triple_stays_exhausted() {
    let p = EnumParam::new(vec![0, 1]);
    let params = EnumParam3::new(p.clone(), p.clone(), p);
    let mut iter = params.iter();
    assert_eq!(exhaust(&mut iter).len(), 8);
    for _ in 0..20 {
        assert_eq!(iter.next(), None);
    }
}

#[test]
fn triple_of_composites() {
    let bit = EnumParam::new(vec![0, 1]);
    let pair = EnumParam2::new(bit.clone(), bit.clone());
    let params = EnumParam3::new(bit.clone(), pair, bit);
    assert_eq!(params.len(), 16);
    let all = enumerate(&params);
    assert_eq!(all.len(), 16);
    assert_eq!(all[0], (0, (0, 0), 0));
    assert_eq!(all[1], (0, (0, 0), 1));
    assert_eq!(all[2], (0, (0, 1), 0));
    assert_eq!(all[7], (0, (1, 1), 1));
    assert_eq!(all[8], (1, (0, 0), 0));
    assert_eq!(all[15], (1, (1, 1), 1));
}

#[test]
fn triple_rand_draws_each_component_from_its_own_domain() {
    let a = vec![1, 2, 3, 4];
    let b = vec![4.4, 8.8, 9.0];
    let c = vec!['x', 'y', 'z'];
    let abc = EnumParam3::new(
        EnumParam::new(a.clone()),
        EnumParam::new(b.clone()),
        EnumParam::new(c.clone()),
    );
    let mut seen = vec![0usize; a.len()];
    for _ in 0..4000 {
        let (x, y, z) = abc.rand();
        assert!(b.contains(&y));
        assert!(c.contains(&z));
        let at = a.iter().position(|v| *v == x);
        assert!(at.is_some());
        seen[at.unwrap()] += 1;
    }
    for count in seen {
        assert!(count > 400);
    }
}

#[test]
fn triple_clone_item_copies_each_component() {
    let item = (1u8, String::from("m"), 'c');
    let copy = <<EnumParam3<EnumParam<u8>, EnumParam<String>, EnumParam<char>> as AsEnumParam>::Iter as Reset>::clone_item(&item);
    assert_eq!(copy, item);
}
