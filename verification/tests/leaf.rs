use enum_params::entropy::{pick_index, random_word};
use enum_params::{enumerate, exhaust, AsEnumParam, EnumParam, Reset};

#[test]
fn test_enum_param() {
    let param = EnumParam::new(vec![1, 2, 3]);
    let mut iter = param.iter();

    assert_eq!(iter.next().unwrap(), 1);
    assert_eq!(iter.next().unwrap(), 2);
    assert_eq!(iter.next().unwrap(), 3);
    assert_eq!(iter.next(), None);
    assert_eq!(iter.next(), None);
    iter.reset();
    assert_eq!(iter.next().unwrap(), 1);
    assert_eq!(iter.next().unwrap(), 2);
    assert_eq!(iter.next().unwrap(), 3);
    assert_eq!(iter.next(), None);
}

#[test]
fn enum_param_len_is_list_length() {
    let param = EnumParam::new(vec![1, 2, 3]);
    assert_eq!(param.len(), 3);

    let param = EnumParam::new(vec!['a', 'b', 'c', 'd']);
    assert_eq!(param.len(), 4);
}

#[test]
fn leaf_exhaustion_gives_the_list_in_order() {
    let list = vec![String::from("north"), String::from("east"), String::from("south")];
    let param = EnumParam::new(list.clone());
    let mut iter = param.iter();
    assert_eq!(exhaust(&mut iter), list);
    assert_eq!(iter.next(), None);
    assert_eq!(enumerate(&param), list);
}

#[test]
fn leaf_of_one_value() {
    let param = EnumParam::new(vec![7u8]);
    assert_eq!(param.len(), 1);
    let mut iter = param.iter();
    assert_eq!(iter.next(), Some(7));
    assert_eq!(iter.next(), None);
    assert_eq!(param.rand(), 7);
}

#[test]
fn leaf_stays_exhausted() {
    let param = EnumParam::new(vec![10, 20]);
    let mut iter = param.iter();
    assert_eq!(exhaust(&mut iter), vec![10, 20]);
    for _ in 0..50 {
        assert_eq!(iter.next(), None);
    }
    assert_eq!(exhaust(&mut iter), Vec::<i32>::new());
}

#[test]
fn leaf_reset_midway_replays_from_the_start() {
    let param = EnumParam::new(vec!['p', 'q', 'r', 's']);
    let mut iter = param.iter();
    let first = exhaust(&mut iter);
    iter.reset();
    assert_eq!(iter.next(), Some('p'));
    assert_eq!(iter.next(), Some('q'));
    iter.reset();
    assert_eq!(exhaust(&mut iter), first);
    assert_eq!(first, vec!['p', 'q', 'r', 's']);
}

#[test]
fn exhaust_gives_what_is_left() {
    let param = EnumParam::new(vec![1, 2, 3, 4, 5]);
    let mut iter = param.iter();
    iter.next();
    iter.next();
    assert_eq!(exhaust(&mut iter), vec![3, 4, 5]);
}

#[test]
fn two_sequences_of_one_parameter_do_not_interfere() {
    let param = EnumParam::new(vec![1, 2, 3]);
    let mut a = param.iter();
    let mut b = param.iter();
    assert_eq!(a.next(), Some(1));
    assert_eq!(a.next(), Some(2));
    assert_eq!(b.next(), Some(1));
    assert_eq!(a.next(), Some(3));
    assert_eq!(b.next(), Some(2));
    assert_eq!(param.len(), 3);
}

#[test]
fn cloned_parameter_has_the_same_domain() {
    let param = EnumParam::new(vec![3, 1, 2]);
    let copy = param.clone();
    assert_eq!(enumerate(&copy), vec![3, 1, 2]);
    assert_eq!(enumerate(&param), vec![3, 1, 2]);
}

#[test]
fn try_new_turns_down_the_empty_list() {
    assert!(EnumParam::<i32>::try_new(Vec::new()).is_none());
    let param = EnumParam::try_new(vec![4, 5]).unwrap();
    assert_eq!(enumerate(&param), vec![4, 5]);
}

#[test]
fn clone_item_copies_the_value() {
    let s = String::from("abc");
    assert_eq!(<enum_params::EnumParamIter<String> as Reset>::clone_item(&s), s);
}

#[test]
fn pick_index_is_the_remainder() {
    assert_eq!(pick_index(0, 1), 0);
    assert_eq!(pick_index(17, 5), 2);
    assert_eq!(pick_index(20, 5), 0);
    assert_eq!(pick_index(4, 5), 4);
    assert_eq!(pick_index(u64::MAX, 10), 5);
    assert_eq!(pick_index(u64::MAX, usize::MAX), (u64::MAX % (usize::MAX as u64)) as usize);
}

#[test]
fn pick_selects_by_remainder() {
    let param = EnumParam::new(vec!['a', 'b', 'c']);
    assert_eq!(param.pick(0), 'a');
    assert_eq!(param.pick(1), 'b');
    assert_eq!(param.pick(2), 'c');
    assert_eq!(param.pick(3), 'a');
    assert_eq!(param.pick(100), 'b');
}

#[test]
fn random_words_vary() {
    let first = random_word();
    let mut differs = false;
    for _ in 0..64 {
        if random_word() != first {
            differs = true;
        }
    }
    assert!(differs);
}

#[test]
fn leaf_rand_stays_in_the_list_and_reaches_every_value() {
    let list = vec![11, 22, 33, 44];
    let param = EnumParam::new(list.clone());
    let mut seen = vec![0usize; list.len()];
    for _ in 0..4000 {
        let v = param.rand();
        let at = list.iter().position(|x| *x == v);
        assert!(at.is_some());
        seen[at.unwrap()] += 1;
    }
    for count in seen {
        assert!(count > 0);
    }
}
