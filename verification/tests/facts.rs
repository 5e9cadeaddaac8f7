use contrafact::{
    always, and, brute, brute_labeled, build_seq, check_seq, consecutive_int, consecutive_int_,
    different, eq, eq_, in_range, in_slice, in_slice_, ne, ne_, never, not, not_, or, same,
    Bound, Check, ContrafactError, Fact, Generator, MutationError, Retry, SeqFact,
};
use rand::Rng;

fn seq<F>(inner: F) -> SeqFact<F> {
    contrafact::facts::seq::seq(inner)
}

fn noise() -> Vec<u8> {
    let mut rng = rand::thread_rng();
    std::iter::repeat_with(|| rng.gen()).take(100_000).collect()
}

#[test]
fn primitives_test_eq() {
    let bytes = noise();
    let mut g = Generator::from(&bytes);

    let eq1 = || seq(eq("must be 1", 1));

    let ones = eq1().build_fallible(&mut g).unwrap();
    eq1().check(&ones).unwrap();

    assert!(ones.iter().all(|x| *x == 1));
}

#[test]
fn predicates_test_eq() {
    let bytes = noise();
    let mut g = Generator::from(&bytes);

    let eq1 = || eq("must be 1", 1);

    let ones = build_seq(&mut g, 3, eq1()).unwrap();
    check_seq(ones.as_slice(), eq1()).unwrap();

    assert_eq!(ones, vec![1, 1, 1]);
}

#[test]
fn or_test_or() {
    let bytes = noise();
    let mut g = Generator::from(&bytes);

    let either = || or("can be 1 or 2", eq("must be 1", 1), eq("must be 2", 2));

    let ones = seq(either()).build_fallible(&mut g).unwrap();
    seq(either()).check(&ones).unwrap();
    assert!(ones.iter().all(|x| *x == 1 || *x == 2));

    assert_eq!(either().check(&3).result().unwrap().unwrap_err().len(), 1);
}

#[test]
fn primitives_test_or() {
    let bytes = noise();
    let mut g = Generator::from(&bytes);

    let either = || or("can be 1 or 2", eq("must be 1", 1u8), eq("must be 2", 2u8));

    let ones = seq(either()).satisfy(&mut g, vec![0u8; 20]).unwrap();
    seq(either()).check(&ones).unwrap();
    assert_eq!(ones.len(), 20);
    assert!(ones.iter().all(|x| *x == 1 || *x == 2));

    assert_eq!(either().check(&3).result().unwrap().unwrap_err().len(), 1);
}

#[test]
fn predicates_test_or() {
    let bytes = noise();
    let mut g = Generator::from(&bytes);

    let either = || or("can be 1 or 2", eq("must be 1", 1), eq("must be 2", 2));

    let ones = build_seq(&mut g, 10, either()).unwrap();
    check_seq(ones.as_slice(), either()).unwrap();
    assert!(ones.iter().all(|x| *x == 1 || *x == 2));

    assert_eq!(either().check(&3).result().unwrap().unwrap_err().len(), 1);
}

#[test]
fn or_reports_both_failures_in_one() {
    let either = or("can be 1 or 2", eq("must be 1", 1), eq("must be 2", 2));
    assert_eq!(
        either.check(&3),
        Check::fail(
            "expected either one of the following conditions to be met:\n    condition 1: must be 1: expected 3 == 1\n    condition 2: must be 2: expected 3 == 2"
        )
    );
    assert!(either.check(&1).is_ok());
    assert!(either.check(&2).is_ok());
}

#[test]
fn primitives_test_not() {
    let bytes = noise();
    let mut g = Generator::from(&bytes);

    let not1 = || seq(not_(eq("must be 1", 1)));

    let nums = not1().build_fallible(&mut g).unwrap();
    not1().check(&nums).unwrap();

    assert!(nums.iter().all(|x| *x != 1));
}

#[test]
fn predicates_test_not() {
    let bytes = noise();
    let mut g = Generator::from(&bytes);

    let not1 = || not_(eq("must be 1", 1));

    let nums = build_seq(&mut g, 10, not1()).unwrap();
    check_seq(nums.as_slice(), not1()).unwrap();

    assert!(nums.iter().all(|x| *x != 1));
}

#[test]
fn not_fails_where_the_inner_fact_is_met() {
    let f = not("odd one out", eq_(1u8));
    assert_eq!(f.check(&1), Check::fail("not(odd one out)"));
    assert!(f.check(&2).is_ok());
    let mut g = Generator::from(&[1, 1, 5][..]);
    assert_eq!(f.mutate(&mut g, 1), Ok(5));
    assert_eq!(g.len(), 0);
}

#[test]
fn not_hands_on_a_defect_of_the_inner_fact() {
    let none: [u8; 0] = [];
    let f = not("n", in_slice_(&none));
    assert_eq!(f.check(&1), Check::Error("\"Empty choices\"".to_string()));
    let mut g = Generator::from(&[1][..]);
    assert_eq!(f.mutate(&mut g, 1), Err(MutationError::User("Empty choices".to_string())));
    // A failure of the data under the inner fact is what makes a value pass.
    assert!(not_(in_range("r", Bound::Included(1u8), Bound::Included(3))).check(&7).is_ok());
}

#[test]
fn searches_give_up_with_the_last_reason() {
    let mut g = Generator::from(&[0][..]);
    assert_eq!(
        different::<u8>().mutate(&mut g, (0, 0)),
        Err(MutationError::Internal(ContrafactError::Other(
            "Exceeded iteration limit of 1000 while attempting to meet a BruteFact. Context: must be different: expected 0 != 0"
                .to_string()
        )))
    );
    assert_eq!(
        not("zero", eq_(0u8)).mutate(&mut g, 0),
        Err(MutationError::Internal(ContrafactError::Other(
            "Exceeded iteration limit of 1000 while attempting to meet a BruteFact. Context: not(zero)"
                .to_string()
        )))
    );
    assert_eq!(
        brute("odd", |x: &u8| x % 2 == 1).mutate(&mut g, 0),
        Err(MutationError::Internal(ContrafactError::Other(
            "Exceeded iteration limit of 1000 while attempting to meet a BruteFact. Context: odd"
                .to_string()
        )))
    );
    assert_eq!(
        brute_labeled(|x: &u8| if *x > 0 { Ok(Ok(())) } else { Ok(Err(format!("{} is zero", x))) })
            .mutate(&mut g, 0),
        Err(MutationError::Internal(ContrafactError::Other(
            "Exceeded iteration limit of 1000 while attempting to meet a BruteFact. Context: 0 is zero"
                .to_string()
        )))
    );
}

#[test]
fn same_test_same() {
    let bytes = noise();
    let mut g = Generator::from(&bytes);

    {
        let f = || seq(same::<u8>());
        let nums = f().build_fallible(&mut g).unwrap();
        f().check(&nums).unwrap();
        assert!(nums.iter().all(|(a, b)| a == b));
    }
    {
        let f = || seq(different::<u8>());
        let nums = f().build_fallible(&mut g).unwrap();
        f().check(&nums).unwrap();
        assert!(nums.iter().all(|(a, b)| a != b));
    }
}

#[test]
fn primitives_test_same() {
    let bytes = noise();
    let mut g = Generator::from(&bytes);

    {
        let nums = build_seq(&mut g, 20, same::<u8>()).unwrap();
        check_seq(nums.as_slice(), same::<u8>()).unwrap();
        assert!(nums.iter().all(|(a, b)| a == b));
    }
    {
        let nums = build_seq(&mut g, 20, different::<u8>()).unwrap();
        check_seq(nums.as_slice(), different::<u8>()).unwrap();
        assert!(nums.iter().all(|(a, b)| a != b));
    }
}

#[test]
fn same_and_different_messages() {
    assert_eq!(
        same::<u8>().check(&(1, 2)),
        Check::fail("must be same: expected 1 == 2")
    );
    assert_eq!(
        different::<u8>().check(&(3, 3)),
        Check::fail("must be different: expected 3 != 3")
    );
    let mut g = Generator::from(&[9][..]);
    assert_eq!(same::<u8>().mutate(&mut g, (1, 2)), Ok((2, 2)));
    assert_eq!(different::<u8>().mutate(&mut g, (3, 3)), Ok((9, 3)));
}

#[test]
fn in_range_test_in_range() {
    let bytes = noise();
    let mut g = Generator::from(&bytes);

    let positive1 = || in_range("must be positive", Bound::Included(1), Bound::Included(i32::MAX));
    let positive2 = || in_range("must be positive", Bound::Included(1), Bound::Unbounded);
    let smallish = || {
        in_range("must be small in magnitude", Bound::Included(-10), Bound::Excluded(100))
    };
    let over9000 = || in_range("must be over 9000", Bound::Included(9001), Bound::Unbounded);
    let under9000 = || {
        in_range(
            "must be under 9000 (and no less than zero)",
            Bound::Unbounded,
            Bound::Excluded(9000u32),
        )
    };

    let nonpositive1 = || seq(not_(positive1()));
    let nonpositive2 = || seq(not_(positive2()));

    let smallish_nums = smallish().build_fallible(&mut g).unwrap();
    let over9000_nums = over9000().build_fallible(&mut g).unwrap();
    let under9000_nums = under9000().build_fallible(&mut g).unwrap();
    let nonpositive1_nums = nonpositive1().build_fallible(&mut g).unwrap();
    let nonpositive2_nums = nonpositive2().build_fallible(&mut g).unwrap();

    smallish().check(&smallish_nums).unwrap();
    over9000().check(&over9000_nums).unwrap();
    under9000().check(&under9000_nums).unwrap();
    nonpositive1().check(&nonpositive1_nums).unwrap();
    nonpositive2().check(&nonpositive2_nums).unwrap();
    assert!(nonpositive1_nums.iter().all(|x| *x <= 0));
    assert!(nonpositive2_nums.iter().all(|x| *x <= 0));
    assert!(-10 <= smallish_nums && smallish_nums < 100);
    assert!(over9000_nums > 9000);
    assert!(under9000_nums < 9000);
}

#[test]
fn primitives_test_in_range() {
    let bytes = noise();
    let mut g = Generator::from(&bytes);
    let smallish = || {
        in_range("must be small in magnitude", Bound::Included(-10i64), Bound::Excluded(100))
    };
    let nums = build_seq(&mut g, 50, smallish()).unwrap();
    check_seq(nums.as_slice(), smallish()).unwrap();
    assert!(nums.iter().all(|x| -10 <= *x && *x < 100));
}

#[test]
fn in_range_lands_by_remainder() {
    // A miss is replaced by an end of the range plus or minus the remainder
    // of the drawn number by the distance between the ends.
    let mut g = Generator::from(&[57, 57, 57, 200, 57][..]);
    let f = in_range("r", Bound::Included(10u8), Bound::Included(20));
    assert_eq!(f.mutate(&mut g, 3), Ok(17));
    let f = in_range("r", Bound::Included(10u8), Bound::Excluded(20));
    assert_eq!(f.mutate(&mut g, 3), Ok(17));
    let f = in_range("r", Bound::Excluded(10u8), Bound::Included(20));
    assert_eq!(f.mutate(&mut g, 3), Ok(13));
    let f = in_range("r", Bound::Unbounded, Bound::Excluded(-100i8));
    assert_eq!(f.mutate(&mut g, 3), Ok(-128));
    let f = in_range("r", Bound::Included(250u8), Bound::Unbounded);
    assert_eq!(f.mutate(&mut g, 3), Ok(252));
    assert_eq!(g.len(), 0);
    // A value in the range is left alone.
    assert_eq!(f.mutate(&mut g, 251), Ok(251));
}

#[test]
fn in_range_messages() {
    let check = |lower, upper, v: i32| in_range("ctx", lower, upper).check(&v);
    assert_eq!(
        check(Bound::Included(1), Bound::Included(5), 0),
        Check::fail("ctx: expected 0 to be contained in 1..=5")
    );
    assert_eq!(
        check(Bound::Included(-10), Bound::Excluded(100), -11),
        Check::fail("ctx: expected -11 to be contained in -10..100")
    );
    assert_eq!(
        check(Bound::Included(9001), Bound::Unbounded, 9000),
        Check::fail("ctx: expected 9000 to be contained in 9001..")
    );
    assert_eq!(
        check(Bound::Unbounded, Bound::Excluded(9000), 9000),
        Check::fail("ctx: expected 9000 to be contained in ..9000")
    );
    assert_eq!(
        check(Bound::Excluded(3), Bound::Included(9), 3),
        Check::fail("ctx: expected 3 to be contained in (Excluded(3), Included(9))")
    );
    assert!(check(Bound::Unbounded, Bound::Unbounded, i32::MIN).is_ok());
}

#[test]
fn in_range_takes_every_pair_of_ends() {
    let mut g = Generator::from(&[57, 57, 57][..]);
    // Ranges that have only an upper end that they hold, or a lower end
    // that they do not hold, land at their least value plus a remainder.
    let f = in_range("r", Bound::Unbounded, Bound::Included(9u8));
    assert_eq!(f.mutate(&mut g, 30), Ok(7));
    let f = in_range("r", Bound::Excluded(10u8), Bound::Unbounded);
    assert_eq!(f.mutate(&mut g, 3), Ok(68));
    assert!(f.check(&11).is_ok());
    assert!(f.check(&10).is_err());
    let f = in_range("r", Bound::Excluded(10u8), Bound::Excluded(20));
    assert_eq!(f.mutate(&mut g, 3), Ok(14));
    assert!(f.check(&19).is_ok());
    assert!(f.check(&20).is_err());
    assert_eq!(g.len(), 0);

    // A range of one value is remedied by that value, without entropy.
    for f in [
        in_range("r", Bound::Included(5u8), Bound::Included(5)),
        in_range("r", Bound::Included(5u8), Bound::Excluded(6)),
        in_range("r", Bound::Excluded(4u8), Bound::Included(5)),
        in_range("r", Bound::Excluded(4u8), Bound::Excluded(6)),
    ] {
        assert_eq!(f.mutate(&mut g, 9), Ok(5));
        assert_eq!(f.mutate(&mut g, 5), Ok(5));
        assert!(f.check(&5).is_ok());
        assert!(f.check(&4).is_err());
    }
    let f = in_range("r", Bound::Included(255u8), Bound::Unbounded);
    assert_eq!(f.mutate(&mut g, 0), Ok(255));
    let f = in_range("r", Bound::Unbounded, Bound::Excluded(-127i8));
    assert_eq!(f.mutate(&mut g, 0), Ok(-128));

    // A range that holds no value is a mistake in the fact.
    for f in [
        in_range("r", Bound::Included(6u8), Bound::Included(5)),
        in_range("r", Bound::Excluded(5u8), Bound::Excluded(6)),
        in_range("r", Bound::Unbounded, Bound::Excluded(0u8)),
        in_range("r", Bound::Excluded(255u8), Bound::Unbounded),
    ] {
        assert_eq!(f.mutate(&mut g, 5), Err(MutationError::User("Invalid range".to_string())));
        assert_eq!(f.check(&5), Check::Error("\"Invalid range\"".to_string()));
    }
    assert!(in_range("r", Bound::<i64>::Unbounded, Bound::Unbounded).check(&i64::MIN).is_ok());
}

#[test]
fn eq_and_ne_messages_and_mutation() {
    assert_eq!(eq("ctx", 1u8).check(&2), Check::fail("ctx: expected 2 == 1"));
    assert_eq!(eq_(1u8).check(&2), Check::fail("eq: expected 2 == 1"));
    assert_eq!(ne("ctx", 1u8).check(&1), Check::fail("ctx: expected 1 != 1"));
    assert_eq!(ne_(1u8).check(&1), Check::fail("ne: expected 1 != 1"));
    assert!(ne_(1u8).check(&2).is_ok());
    assert_eq!(
        eq_("a\"b".to_string()).check(&"c".to_string()),
        Check::fail("eq: expected \"c\" == \"a\\\"b\"")
    );
    assert_eq!(
        eq_(vec![(1u8, true)]).check(&vec![]),
        Check::fail("eq: expected [] == [(1, true)]")
    );
    assert_eq!(eq_(Some(-3i16)).check(&None), Check::fail("eq: expected None == Some(-3)"));

    let mut g = Generator::from(&[1, 1, 4][..]);
    assert_eq!(eq_(7u8).mutate(&mut g, 2), Ok(7));
    assert_eq!(g.len(), 3);
    assert_eq!(ne_(1u8).mutate(&mut g, 1), Ok(4));
    assert_eq!(g.len(), 0);
}

#[test]
fn ne_gives_up_after_the_limit() {
    // With no entropy left every draw is zero, so the search cannot succeed.
    let mut g = Generator::from(&[0][..]);
    assert_eq!(
        ne("nonzero", 0u8).mutate(&mut g, 0),
        Err(MutationError::Internal(ContrafactError::Other(
            "Exceeded iteration limit of 1000 while attempting to meet a BruteFact. Context: nonzero: expected 0 != 0"
                .to_string()
        )))
    );
}

#[test]
fn in_slice_checks_and_picks() {
    let options = [3u8, 5, 8];
    let f = in_slice("pick", &options);
    assert!(f.check(&5).is_ok());
    assert_eq!(f.check(&4), Check::fail("pick: expected 4 to be contained in [3, 5, 8]"));
    assert_eq!(
        in_slice_(&options).check(&4),
        Check::fail("in_slice: expected 4 to be contained in [3, 5, 8]")
    );
    let mut g = Generator::from(&[0, 1, 2][..]);
    assert_eq!(f.mutate(&mut g, 4), Ok(3));
    assert_eq!(f.mutate(&mut g, 4), Ok(5));
    assert_eq!(f.mutate(&mut g, 4), Ok(8));
    assert_eq!(
        f.mutate(&mut g, 4),
        Err(MutationError::User("Ran out of entropy".to_string()))
    );
    assert_eq!(f.mutate(&mut g, 8), Ok(8));

    // A single option is assigned without entropy, but still fails a check.
    let single = [9u8];
    assert_eq!(in_slice_(&single).mutate(&mut g, 1), Ok(9));
    assert_eq!(
        in_slice_(&single).check(&1),
        Check::fail("in_slice: expected 1 to be contained in [9]")
    );

    // Nothing to pick from is a mistake in the fact, not in the data.
    let none: [u8; 0] = [];
    assert_eq!(in_slice_(&none).check(&1), Check::Error("\"Empty choices\"".to_string()));
}

#[test]
fn consecutive_int_counts_up() {
    let mut f = consecutive_int("count", 254u8);
    assert!(f.check(&254).is_ok());
    assert_eq!(f.check(&7), Check::fail("count"));
    let mut g = Generator::from(&[1][..]);
    assert_eq!(f.mutate(&mut g, 7), Ok(254));
    f.advance(&254);
    assert!(f.check(&255).is_ok());
    f.advance(&255);
    // Past the greatest value of the type the counter is worn out.
    assert_eq!(
        f.check(&0),
        Check::Error(
            "Other(\"count: the counter has run past the greatest value of its type\")"
                .to_string()
        )
    );
    assert_eq!(consecutive_int_(0u8).check(&1), Check::fail("consecutive_int"));
}

#[test]
fn always_and_never() {
    let mut g = Generator::from(&[1][..]);
    assert!(Fact::<u8>::check(&always(), &3).is_ok());
    assert_eq!(Fact::<u8>::check(&never("no way"), &3), Check::fail("no way"));
    assert_eq!(always().mutate(&mut g, 3u8), Ok(3));
    assert_eq!(never("no way").mutate(&mut g, 3u8), Ok(3));
    assert_eq!(
        never("no way").satisfy(&mut g, 3u8),
        Err(ContrafactError::Other(
            "Could not satisfy a constraint even after 7 attempts. Last check failure: [\"no way\"]"
                .to_string()
        ))
    );
}

#[test]
fn and_applies_both_facts_in_order() {
    let f = and(eq("first", 1u8), ne("second", 1u8));
    assert_eq!(f.check(&2), Check::fail("first: expected 2 == 1"));
    assert_eq!(f.check(&1), Check::fail("second: expected 1 != 1"));
    let g = and(in_range("r", Bound::Included(0u8), Bound::Included(9)), ne("second", 5u8));
    assert!(g.check(&4).is_ok());
    assert!(g.check(&5).is_err());
    assert!(g.check(&10).is_err());
}

#[test]
fn brute_resamples_until_the_predicate_holds() {
    let div3 = brute("divisible by 3", |x: &u8| *x % 3 == 0);
    assert!(div3.check(&9).is_ok());
    assert_eq!(div3.check(&10), Check::fail("divisible by 3"));
    let mut g = Generator::from(&[1, 2, 4, 6, 7][..]);
    assert_eq!(div3.mutate(&mut g, 10), Ok(6));
    assert_eq!(g.len(), 1);
    assert_eq!(div3.mutate(&mut g, 12), Ok(12));
    assert_eq!(g.len(), 1);

    let bytes = noise();
    let mut g = Generator::from(&bytes);
    let n = 3usize;
    let mut div_by = brute("Is divisible by 3", move |x: &usize| x % n == 0);
    assert!(div_by.build_fallible(&mut g).unwrap() % 3 == 0);
}

#[test]
fn brute_labeled_gives_its_own_reasons() {
    let f = brute_labeled(|x: &u8| {
        if *x == 0 {
            Err(ContrafactError::Other("zero".to_string()))
        } else if *x % 2 == 0 {
            Ok(Ok(()))
        } else {
            Ok(Err(format!("{} is odd", x)))
        }
    });
    assert!(f.check(&2).is_ok());
    assert_eq!(f.check(&3), Check::fail("3 is odd"));
    assert_eq!(f.check(&0), Check::Error("Other(\"zero\")".to_string()));
    let mut g = Generator::from(&[5, 7, 8, 9][..]);
    assert_eq!(f.mutate(&mut g, 3), Ok(8));
    assert_eq!(g.len(), 1);
    let mut g = Generator::from(&[5, 0, 8][..]);
    assert_eq!(
        f.mutate(&mut g, 3),
        Err(MutationError::Internal(ContrafactError::Other("zero".to_string())))
    );
}
