use segment_tree::RMaxQ;
use segment_tree::RMinQ;
use segment_tree::RSQ;
use segment_tree::SegmentTreeError;

const KX: u32 = 123456789;
const KY: u32 = 362436069;
const KZ: u32 = 521288629;
const KW: u32 = 88675123;

pub struct Rand {
    x: u32,
    y: u32,
    z: u32,
    w: u32,
}

impl Rand {
    pub fn new(seed: u32) -> Rand {
        Rand {
            x: KX ^ seed,
            y: KY ^ seed,
            z: KZ,
            w: KW,
        }
    }
    pub fn rand(&mut self) -> u32 {
        let t = self.x ^ self.x.wrapping_shl(11);
        self.x = self.y;
        self.y = self.z;
        self.z = self.w;
        self.w ^= self.w.wrapping_shr(19) ^ t ^ t.wrapping_shr(8);
        return self.w;
    }
    pub fn rand_range(&mut self, a: i32, b: i32) -> i32 {
        let m = (b - a + 1) as u32;
        return a + (self.rand() % m) as i32;
    }
}

#[test]
fn test_rsq_1() {
    let values = [1, 2, 3, 4, 5];
    let mut rsq = RSQ::build(&values).unwrap();

    assert_eq!(rsq.sum(0, 4).unwrap(), 15);
    assert_eq!(rsq.sum(1, 4).unwrap(), 14);
    assert_eq!(rsq.sum(1, 2).unwrap(), 5);
    assert_eq!(rsq.sum(1, 1).unwrap(), 2);

    rsq.upddate(2, 6).unwrap();
    assert_eq!(rsq.sum(0, 4).unwrap(), 18);
    assert_eq!(rsq.sum(2, 4).unwrap(), 15);
    assert_eq!(rsq.sum(3, 4).unwrap(), 9);

    rsq.upddate(0, 5).unwrap();
    assert_eq!(rsq.sum(0, 0).unwrap(), 5);
    assert_eq!(rsq.sum(0, 4).unwrap(), 22);
}

#[test]
fn test_rsq_2() {
    let values = [1, 2, 3, 4, 5];
    let mut rsq = RSQ::build(&values).unwrap();

    rsq.upddate(0, 2).unwrap();
    assert_eq!(rsq.sum(0, 4).unwrap(), 16);
    assert_eq!(rsq.sum(2, 4).unwrap(), 12);
    assert_eq!(rsq.sum(3, 4).unwrap(), 9);
}

#[test]
fn test_rsq_3() {
    let mut rng = Rand::new(0);
    let mut values = vec![];
    for _ in 0..10000 {
        values.push(rng.rand_range(0, 100) as i64);
    }
    let mut rsq = RSQ::build(&values).unwrap();
    for _ in 0..1000 {
        let l = rng.rand_range(0, 9998);
        let r = rng.rand_range(l, 9999);
        if l <= r {
            assert_eq!(
                rsq.sum(l as usize, r as usize).unwrap(),
                (&values[l as usize..r as usize + 1]).iter().sum()
            );
        }
    }

    for _ in 0..1000 {
        let pos = rng.rand_range(0, 9999);
        let value = rng.rand_range(0, 1000) as i64;
        rsq.upddate(pos as usize, value).unwrap();
        values[pos as usize] = value;
    }

    for _ in 0..1000 {
        let l = rng.rand_range(0, 9998);
        let r = rng.rand_range(l, 9999);
        if l <= r {
            assert_eq!(
                rsq.sum(l as usize, r as usize).unwrap(),
                (&values[l as usize..r as usize + 1]).iter().sum()
            );
        }
    }
}

#[test]
fn test_rsq_4() {
    let values = [1, 2, 3, 4, 5];
    let mut rmq = RMaxQ::build(&values).unwrap();

    assert_eq!(rmq.max(0, 4).unwrap(), 5);
    assert_eq!(rmq.max(1, 4).unwrap(), 5);
    assert_eq!(rmq.max(1, 2).unwrap(), 3);
    assert_eq!(rmq.max(1, 1).unwrap(), 2);

    rmq.upddate(2, 6).unwrap();
    assert_eq!(rmq.max(0, 4).unwrap(), 6);
    assert_eq!(rmq.max(2, 4).unwrap(), 6);
    assert_eq!(rmq.max(3, 4).unwrap(), 5);
}

#[test]
fn test_rsq_5() {
    let mut rng = Rand::new(0);
    let mut values = vec![];
    for _ in 0..10000 {
        values.push(rng.rand_range(0, 100000) as i64);
    }
    let mut rmq = RMaxQ::build(&values).unwrap();
    for _ in 0..1000 {
        let l = rng.rand_range(0, 9998);
        let r = rng.rand_range(l, 9999);
        if l <= r {
            assert_eq!(
                rmq.max(l as usize, r as usize).unwrap(),
                *(&values[l as usize..r as usize + 1]).iter().max().unwrap()
            );
        }
    }

    for _ in 0..1000 {
        let pos = rng.rand_range(0, 9999);
        let value = rng.rand_range(0, 100000) as i64;
        rmq.upddate(pos as usize, value).unwrap();
        values[pos as usize] = value;
    }

    for _ in 0..1000 {
        let l = rng.rand_range(0, 9998);
        let r = rng.rand_range(l, 9999);
        if l <= r {
            assert_eq!(
                rmq.max(l as usize, r as usize).unwrap(),
                *(&values[l as usize..r as usize + 1]).iter().max().unwrap()
            );
        }
    }
}

#[test]
fn test_rsq_6() {
    let values = [1, 2, 3, 4, 5];
    let mut rmq = RMinQ::build(&values).unwrap();

    assert_eq!(rmq.min(0, 4).unwrap(), 1);
    assert_eq!(rmq.min(1, 4).unwrap(), 2);
    assert_eq!(rmq.min(1, 2).unwrap(), 2);
    assert_eq!(rmq.min(1, 1).unwrap(), 2);

    rmq.upddate(2, 0).unwrap();
    assert_eq!(rmq.min(0, 4).unwrap(), 0);
    assert_eq!(rmq.min(2, 4).unwrap(), 0);
    assert_eq!(rmq.min(3, 4).unwrap(), 4);
}

#[test]
fn test_rsq_7() {
    let mut rng = Rand::new(0);
    let mut values = vec![];
    for _ in 0..10000 {
        values.push(rng.rand_range(0, 100000) as i64);
    }
    let mut rmq = RMinQ::build(&values).unwrap();
    for _ in 0..1000 {
        let l = rng.rand_range(0, 9998);
        let r = rng.rand_range(l, 9999);
        if l <= r {
            assert_eq!(
                rmq.min(l as usize, r as usize).unwrap(),
                *(&values[l as usize..r as usize + 1]).iter().min().unwrap()
            );
        }
    }

    for _ in 0..1000 {
        let pos = rng.rand_range(0, 9999);
        let value = rng.rand_range(0, 100000) as i64;
        rmq.upddate(pos as usize, value).unwrap();
        values[pos as usize] = value;
    }

    for _ in 0..1000 {
        let l = rng.rand_range(0, 9998);
        let r = rng.rand_range(l, 9999);
        if l <= r {
            assert_eq!(
                rmq.min(l as usize, r as usize).unwrap(),
                *(&values[l as usize..r as usize + 1]).iter().min().unwrap()
            );
        }
    }
}

#[test]
fn test_rsq_8() {
    let mut rng = Rand::new(0);
    for _ in 0..1000 {
        let mut values = vec![];
        let len = rng.rand_range(5, 1000) as usize;
        for _ in 0..len {
            values.push(rng.rand_range(0, 100000) as i64);
        }
        let rmq = RMinQ::build(&values).unwrap();
        for _ in 0..1000 {
            let l = rng.rand_range(0, len as i32 - 2);
            let r = rng.rand_range(l, len as i32 - 1);
            if l <= r {
                assert_eq!(
                    rmq.min(l as usize, r as usize).unwrap(),
                    *(&values[l as usize..r as usize + 1]).iter().min().unwrap()
                );
            }
        }
    }
}

#[test]
fn test_rsq_9() {
    let values = [1, 2, 3, 4, 5];
    let mut rsq = RSQ::build(&values).unwrap();

    assert_eq!(rsq.sum(4, 0).unwrap(), 15);
    assert_eq!(rsq.sum(4, 1).unwrap(), 14);
    assert_eq!(rsq.sum(2, 1).unwrap(), 5);
    assert_eq!(rsq.sum(1, 1).unwrap(), 2);

    rsq.upddate(2, 6).unwrap();
    assert_eq!(rsq.sum(4, 0).unwrap(), 18);
    assert_eq!(rsq.sum(4, 2).unwrap(), 15);
    assert_eq!(rsq.sum(4, 3).unwrap(), 9);

    rsq.upddate(0, 5).unwrap();
    assert_eq!(rsq.sum(0, 0).unwrap(), 5);
    assert_eq!(rsq.sum(4, 0).unwrap(), 22);
}

#[test]
#[should_panic]
fn test_rsq_10() {
    let values: Vec<i64> = vec![];
    let _rsq = RSQ::build(&values).unwrap();
}

#[test]
#[should_panic]
fn test_rsq_11() {
    let values = [1, 2, 3, 4, 5];
    let mut rsq = RSQ::build(&values).unwrap();

    rsq.upddate(5, 6).unwrap();
}

#[test]
fn test_empty_build_errors() {
    let values: Vec<i64> = vec![];
    assert!(matches!(
        RSQ::build(&values),
        Err(SegmentTreeError::EmptyData)
    ));
    assert!(matches!(
        RMaxQ::build(&values),
        Err(SegmentTreeError::EmptyData)
    ));
    assert!(matches!(
        RMinQ::build(&values),
        Err(SegmentTreeError::EmptyData)
    ));
}

#[test]
fn test_query_out_of_bounds() {
    let values = [1, 2, 3, 4, 5];
    let rsq = RSQ::build(&values).unwrap();
    let rmaxq = RMaxQ::build(&values).unwrap();
    let rminq = RMinQ::build(&values).unwrap();

    assert!(matches!(rsq.sum(0, 5), Err(SegmentTreeError::InvalidRange)));
    assert!(matches!(rsq.sum(5, 0), Err(SegmentTreeError::InvalidRange)));
    assert!(matches!(rsq.sum(5, 5), Err(SegmentTreeError::InvalidRange)));
    assert!(matches!(
        rmaxq.max(2, 7),
        Err(SegmentTreeError::InvalidRange)
    ));
    assert!(matches!(
        rminq.min(7, 2),
        Err(SegmentTreeError::InvalidRange)
    ));
}

#[test]
fn test_update_out_of_bounds() {
    let values = [1, 2, 3, 4, 5];
    let mut rsq = RSQ::build(&values).unwrap();
    let mut rmaxq = RMaxQ::build(&values).unwrap();
    let mut rminq = RMinQ::build(&values).unwrap();

    assert!(matches!(
        rsq.upddate(5, 1),
        Err(SegmentTreeError::IndexOutBounds)
    ));
    assert!(matches!(
        rmaxq.upddate(6, 1),
        Err(SegmentTreeError::IndexOutBounds)
    ));
    assert!(matches!(
        rminq.upddate(100, 1),
        Err(SegmentTreeError::IndexOutBounds)
    ));
    assert_eq!(rsq.sum(0, 4).unwrap(), 15);
    assert_eq!(rmaxq.max(0, 4).unwrap(), 5);
    assert_eq!(rminq.min(0, 4).unwrap(), 1);
}

#[test]
fn test_query_order_independent() {
    let values = [9, -3, 7, 0, 2, 11, -5];
    let rsq = RSQ::build(&values).unwrap();
    let rmaxq = RMaxQ::build(&values).unwrap();
    let rminq = RMinQ::build(&values).unwrap();
    for l in 0..7 {
        for r in 0..7 {
            assert_eq!(rsq.sum(l, r).unwrap(), rsq.sum(r, l).unwrap());
            assert_eq!(rmaxq.max(l, r).unwrap(), rmaxq.max(r, l).unwrap());
            assert_eq!(rminq.min(l, r).unwrap(), rminq.min(r, l).unwrap());
        }
    }
}

#[test]
fn test_build_twice_same_answers() {
    let values = [4, -1, 0, 8, 3, 3];
    let t1 = RSQ::build(&values).unwrap();
    let t2 = RSQ::build(&values).unwrap();
    let m1 = RMaxQ::build(&values).unwrap();
    let m2 = RMaxQ::build(&values).unwrap();
    let n1 = RMinQ::build(&values).unwrap();
    let n2 = RMinQ::build(&values).unwrap();
    for l in 0..6 {
        for r in l..6 {
            assert_eq!(t1.sum(l, r).unwrap(), t2.sum(l, r).unwrap());
            assert_eq!(m1.max(l, r).unwrap(), m2.max(l, r).unwrap());
            assert_eq!(n1.min(l, r).unwrap(), n2.min(l, r).unwrap());
        }
    }
}

#[test]
fn test_update_touches_one_position() {
    let values = [5, 1, 4, 2, 8, 6];
    let mut rsq = RSQ::build(&values).unwrap();
    rsq.upddate(3, -7).unwrap();
    assert_eq!(rsq.sum(3, 3).unwrap(), -7);
    assert_eq!(rsq.sum(0, 2).unwrap(), 10);
    assert_eq!(rsq.sum(4, 5).unwrap(), 14);
    assert_eq!(rsq.sum(0, 5).unwrap(), 17);

    let mut rminq = RMinQ::build(&values).unwrap();
    rminq.upddate(2, 0).unwrap();
    assert_eq!(rminq.min(2, 2).unwrap(), 0);
    assert_eq!(rminq.min(0, 1).unwrap(), 1);
    assert_eq!(rminq.min(3, 5).unwrap(), 2);
}

#[test]
fn test_single_element() {
    let values = [42];
    let mut rsq = RSQ::build(&values).unwrap();
    assert_eq!(rsq.sum(0, 0).unwrap(), 42);
    rsq.upddate(0, -1).unwrap();
    assert_eq!(rsq.sum(0, 0).unwrap(), -1);
    assert!(matches!(rsq.sum(0, 1), Err(SegmentTreeError::InvalidRange)));

    let rmaxq = RMaxQ::build(&values).unwrap();
    assert_eq!(rmaxq.max(0, 0).unwrap(), 42);
    let rminq = RMinQ::build(&values).unwrap();
    assert_eq!(rminq.min(0, 0).unwrap(), 42);
}

#[test]
fn test_error_description() {
    let values: Vec<i64> = vec![];
    match RSQ::build(&values) {
        Err(e) => assert_eq!(e.description(), "EmptyData"),
        Ok(_) => panic!("an empty input must be refused"),
    }

    let filled = [1, 2, 3];
    let t = RSQ::build(&filled).unwrap();
    assert_eq!(t.sum(0, 3).unwrap_err().description(), "InvalidRange");

    let mut t2 = RSQ::build(&filled).unwrap();
    assert_eq!(t2.upddate(3, 0).unwrap_err().description(), "IndexOutBounds");
}
