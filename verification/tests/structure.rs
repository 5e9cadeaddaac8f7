use contrafact::{
    and, brute, build_seq, check_seq, collect_checks, consecutive_int, consecutive_int_, eq, eq_,
    lens2, mapped, mapped_fallible, prism, seq_len, sized_seq, AndFact, BruteFact, Check,
    ContrafactError, EitherFact, Fact, Generator, LensFact, Mutation, MutationError, Retry,
    SeqFact, Target,
};
use rand::Rng;
use std::sync::atomic::{AtomicU8, Ordering};
use std::sync::Arc;

fn seq<F>(inner: F) -> SeqFact<F> {
    contrafact::facts::seq::seq(inner)
}

fn noise() -> Vec<u8> {
    let mut rng = rand::thread_rng();
    std::iter::repeat_with(|| rng.gen()).take(100_000).collect()
}

#[derive(Debug, Clone, PartialEq)]
struct S {
    x: u32,
    y: u32,
}

impl Target for S {
    type Model = ();

    fn arbitrary(u: &mut arbitrary::Unstructured<'_>) -> Result<Self, arbitrary::Error> {
        Ok(S { x: <u32 as Target>::arbitrary(u)?, y: <u32 as Target>::arbitrary(u)? })
    }

    fn same(&self, other: &Self) -> bool {
        self == other
    }

    fn copy(&self) -> Self {
        self.clone()
    }

    fn render(&self) -> String {
        format!("{:?}", self)
    }
}

#[derive(Debug, Clone, PartialEq)]
enum E {
    X(u32),
    Y(u32),
}

impl E {
    fn x(self) -> Option<u32> {
        match self {
            E::X(x) => Some(x),
            _ => None,
        }
    }

    fn y(self) -> Option<u32> {
        match self {
            E::Y(y) => Some(y),
            _ => None,
        }
    }

    fn set_x(self, x: u32) -> Self {
        match self {
            E::X(_) => E::X(x),
            other => other,
        }
    }

    fn set_y(self, y: u32) -> Self {
        match self {
            E::Y(_) => E::Y(y),
            other => other,
        }
    }
}

impl Target for E {
    type Model = ();

    fn arbitrary(u: &mut arbitrary::Unstructured<'_>) -> Result<Self, arbitrary::Error> {
        let first = <bool as Target>::arbitrary(u)?;
        let value = <u32 as Target>::arbitrary(u)?;
        Ok(if first { E::X(value) } else { E::Y(value) })
    }

    fn same(&self, other: &Self) -> bool {
        self == other
    }

    fn copy(&self) -> Self {
        self.clone()
    }

    fn render(&self) -> String {
        format!("{:?}", self)
    }
}

fn x_is<F: Fact<u32>>(inner: F) -> LensFact<S, u32, fn(S) -> u32, fn(S, u32) -> S, F> {
    fn get(s: S) -> u32 {
        s.x
    }
    fn set(mut s: S, x: u32) -> S {
        s.x = x;
        s
    }
    lens2("S::x", get as fn(S) -> u32, set as fn(S, u32) -> S, inner)
}

#[test]
fn lens_test() {
    let bytes = noise();
    let mut g = Generator::from(&bytes);

    let f = || seq(x_is(eq("must be 1", 1)));
    let ones = f().build_fallible(&mut g).unwrap();
    f().check(&ones).unwrap();

    assert!(ones.iter().all(|s| s.x == 1));
}

#[test]
fn lens_checks_and_sets_the_part_only() {
    let fact = x_is(eq("must be 1", 1));
    assert!(fact.check(&S { x: 1, y: 333 }).is_ok());
    assert_eq!(
        fact.check(&S { x: 2, y: 333 }),
        Check::fail("lens(S::x) > must be 1: expected 2 == 1")
    );
    let mut g = Generator::from(&[1][..]);
    assert_eq!(fact.mutate(&mut g, S { x: 2, y: 333 }), Ok(S { x: 1, y: 333 }));
    let mut fact = x_is(eq("must be 1", 1));
    let a = fact.build_fallible(&mut g).unwrap();
    assert_eq!(a.x, 1);
}

#[test]
fn seq_test_seq() {
    let bytes = noise();
    let mut g = Generator::from(&bytes);

    let f = || {
        and(
            brute("len must be >= 3", |v: &Vec<i32>| v.len() >= 3),
            seq(eq("must be 1", 1)),
        )
    };
    let ones = f().build_fallible(&mut g).unwrap();
    f().check(&ones).unwrap();

    assert!(ones.len() >= 3);
    assert!(ones.iter().all(|s| *s == 1));
}

#[test]
fn seq_test_len() {
    let bytes = noise();
    let mut g = Generator::from(&bytes);

    let ones: Vec<u8> = seq_len(5).build_fallible(&mut g).unwrap();
    seq_len(5).check(&ones).unwrap();

    assert_eq!(ones.len(), 5);
}

#[test]
fn len_fact_cuts_and_fills() {
    let mut g = Generator::from(&[7, 8, 9][..]);
    assert_eq!(seq_len::<u8>(2).mutate(&mut g, vec![1, 2, 3, 4]), Ok(vec![1, 2]));
    assert_eq!(g.len(), 3);
    assert_eq!(seq_len::<u8>(4).mutate(&mut g, vec![1, 2]), Ok(vec![1, 2, 7, 8]));
    assert_eq!(g.len(), 1);
    assert_eq!(seq_len::<u8>(2).check(&vec![1]), Check::fail("LenFact: vec was too short"));
    assert_eq!(seq_len::<u8>(2).check(&vec![1, 2, 3]), Check::fail("LenFact: vec was too long"));
    assert!(seq_len::<u8>(0).check(&vec![]).is_ok());
}

#[test]
fn seq_test_sized_seq() {
    let bytes = noise();
    let mut g = Generator::from(&bytes);

    let f = || sized_seq(5, consecutive_int_(0));
    let count: Vec<u8> = f().build_fallible(&mut g).unwrap();
    f().check(&count).unwrap();

    assert_eq!(count, vec![0, 1, 2, 3, 4]);
}

#[test]
fn seq_satisfies_an_existing_sequence() {
    let bytes = noise();
    let mut g = Generator::from(&bytes);
    let list = seq(eq_(1)).satisfy(&mut g, vec![0; 5]).unwrap();
    assert_eq!(list, vec![1, 1, 1, 1, 1]);
    let list = seq(consecutive_int_(0)).satisfy(&mut g, vec![0; 5]).unwrap();
    assert_eq!(list, vec![0, 1, 2, 3, 4]);
}

/// A fact with state: the value must equal the state, which is multiplied by
/// a constant from item to item.
#[derive(Clone)]
struct Geom {
    k: u32,
    s: u32,
}

impl Fact<u32> for Geom {
    type Rule = ();

    fn mutate(&self, g: &mut Generator<'_>, mut v: u32) -> Mutation<u32> {
        g.set(
            &mut v,
            &self.s,
            &format!(
                "value is not geometrically increasing by {} starting from {}",
                self.k, self.s
            ),
        )?;
        Ok(v)
    }

    fn advance(&mut self, _: &u32) {
        self.s *= self.k;
    }

    fn fork(&self) -> Self {
        self.clone()
    }
}

#[test]
fn lambda_test_lambda_fact() {
    let bytes = noise();
    let mut g = Generator::from(&bytes);

    let fact = |k, s| sized_seq(4, Geom { k, s });

    {
        let list = fact(2, 2).build_fallible(&mut g).unwrap();
        assert_eq!(list, vec![2, 4, 8, 16]);
        fact(2, 2).check(&list).unwrap();
    }

    {
        let list = fact(3, 4).build_fallible(&mut g).unwrap();
        assert_eq!(list, vec![4, 12, 36, 108]);
        fact(3, 4).check(&list).unwrap();
    }
}

#[test]
fn doubling_sequence_fails_at_the_wrong_item_only() {
    let fact = || sized_seq(4, Geom { k: 2, s: 2 });
    assert!(fact().check(&vec![2, 4, 8, 16]).is_ok());
    assert_eq!(
        fact().check(&vec![2, 4, 8, 17]),
        Check::fail("item 3: value is not geometrically increasing by 2 starting from 16")
    );
    assert_eq!(
        check_seq(&[2, 4, 8, 17], Geom { k: 2, s: 2 }),
        Check::fail("item 3: value is not geometrically increasing by 2 starting from 16")
    );
    assert_eq!(
        check_seq(&[2, 5, 8, 17], Geom { k: 2, s: 2 }),
        Check::Failures(vec![
            "item 1: value is not geometrically increasing by 2 starting from 4".to_string(),
            "item 3: value is not geometrically increasing by 2 starting from 16".to_string(),
        ])
    );
}

#[test]
fn consecutive_counter_over_a_sequence() {
    let bytes = noise();
    let mut g = Generator::from(&bytes);
    let built: Vec<u32> = build_seq(&mut g, 10, consecutive_int_(0)).unwrap();
    assert_eq!(built, vec![0, 1, 2, 3, 4, 5, 6, 7, 8, 9]);
    check_seq(built.as_slice(), consecutive_int_(0)).unwrap();
    let off = check_seq(built.as_slice(), consecutive_int_(1)).result().unwrap().unwrap_err();
    assert_eq!(off[0], "item 0: consecutive_int");
    assert_eq!(off.len(), 10);
    assert_eq!(
        seq(consecutive_int_(1u32)).check(&built),
        Check::fail("item 0: consecutive_int")
    );

    let built: Vec<u32> = sized_seq(10, consecutive_int_(0)).build_fallible(&mut g).unwrap();
    assert_eq!(built, vec![0, 1, 2, 3, 4, 5, 6, 7, 8, 9]);
}

/// Changes the value to 999 for the first three mutations, and leaves it
/// alone from then on.
#[derive(Clone)]
struct Piecewise {
    count: Arc<AtomicU8>,
}

impl Fact<u32> for Piecewise {
    type Rule = ();

    fn mutate(&self, g: &mut Generator<'_>, mut obj: u32) -> Mutation<u32> {
        let c = self.count.fetch_add(1, Ordering::SeqCst);
        if c < 3 {
            g.set(&mut obj, &999, "i'm being difficult, haha")?;
        }
        Ok(obj)
    }

    fn advance(&mut self, _: &u32) {}

    fn fork(&self) -> Self {
        self.clone()
    }
}

/// Assert that even when satisfy() requires a fact to be run
/// multiple times due to contradictory facts, if the constraint
/// can be eventually satisfied, the facts still advance only
/// when the constraint is met, and not during each failed attempt.
#[test]
fn test_mutation_replay() {
    let bytes = noise();
    let mut g = Generator::from(&bytes);

    let piecewise = || Piecewise { count: Arc::new(AtomicU8::new(0)) };

    // Assert that the consecutive_int fact does not advance when there
    // is a failure for the facts to agree
    {
        let mut f = sized_seq(10, and(consecutive_int_(0), piecewise()));
        let items = f.build_fallible(&mut g).unwrap();
        assert_eq!(items, vec![0, 1, 2, 3, 4, 5, 6, 7, 8, 9]);
    }

    // Assert that piecewise() messes everything up during the
    // first 3 mutations, and cooperates afterwards
    {
        let f = and(eq_(0), piecewise());
        for _ in 0..3 {
            let val = f.mutate(&mut g, 0).unwrap();
            assert!(f.check(&val).is_err());
        }
        let val = f.mutate(&mut g, 0).unwrap();
        f.check(&val).unwrap();
    }
}

fn x_of(e: E) -> Option<u32> {
    e.x()
}

fn y_of(e: E) -> Option<u32> {
    e.y()
}

type Getter = fn(E) -> Option<u32>;
type Setter = fn(E, u32) -> E;

#[test]
fn prism_stateless() {
    let bytes = noise();
    let mut g = Generator::from(&bytes);

    let f = || {
        seq(and(
            prism("E::x", x_of as Getter, E::set_x as Setter, eq("must be 1", 1)),
            prism("E::y", y_of as Getter, E::set_y as Setter, eq("must be 2", 2)),
        ))
    };

    let items = f().build_fallible(&mut g).unwrap();
    f().check(&items).unwrap();

    assert!(items.iter().all(|e| match e {
        E::X(x) => *x == 1,
        E::Y(y) => *y == 2,
    }))
}

#[test]
fn prism_test() {
    let bytes = noise();
    let mut g = Generator::from(&bytes);

    let f = || {
        and(
            prism("E::x", x_of as Getter, E::set_x as Setter, eq("must be 1", 1)),
            prism("E::y", y_of as Getter, E::set_y as Setter, eq("must be 2", 2)),
        )
    };

    let items = build_seq(&mut g, 6, f()).unwrap();
    check_seq(items.as_slice(), f()).unwrap();

    assert!(items.iter().all(|e| match e {
        E::X(x) => *x == 1,
        E::Y(y) => *y == 2,
    }))
}

#[test]
fn prism_stateful() {
    let bytes = noise();
    let mut g = Generator::from(&bytes);

    let f = || {
        seq(and(
            prism(
                "E::x",
                x_of as Getter,
                E::set_x as Setter,
                consecutive_int("must be increasing", 0),
            ),
            prism(
                "E::y",
                y_of as Getter,
                E::set_y as Setter,
                consecutive_int("must be increasing", 0),
            ),
        ))
    };

    let items = f().build_fallible(&mut g).unwrap();
    f().check(&items).unwrap();

    // Assert that each variant of E is independently increasing
    let mut xs = vec![];
    let mut ys = vec![];
    for e in items {
        match e {
            E::X(x) => xs.push(x),
            E::Y(y) => ys.push(y),
        }
    }
    seq(consecutive_int_(0u32)).check(&xs).unwrap();
    seq(consecutive_int_(0u32)).check(&ys).unwrap();
}

#[test]
fn prism_skips_a_missing_part() {
    let fact = prism("E::x", x_of as Getter, E::set_x as Setter, eq("must be 1", 1));
    assert!(fact.check(&E::X(1)).is_ok());
    assert_eq!(fact.check(&E::X(2)), Check::fail("prism(E::x) > must be 1: expected 2 == 1"));
    assert!(fact.check(&E::Y(99)).is_ok());
    let mut g = Generator::from(&[1][..]);
    assert_eq!(fact.mutate(&mut g, E::X(2)), Ok(E::X(1)));
    assert_eq!(fact.mutate(&mut g, E::Y(2)), Ok(E::Y(2)));
}

type T2 = (u8, u8);
type Divisible = BruteFact<u8, fn(&u8) -> bool>;
type Second = LensFact<T2, u8, fn(T2) -> u8, fn(T2, u8) -> T2, Divisible>;

fn by3(n: &u8) -> bool {
    n % 3 == 0
}

fn by4(n: &u8) -> bool {
    n % 4 == 0
}

fn first(t: T2) -> u8 {
    t.0
}

fn set_first(t: T2, v: u8) -> T2 {
    (v, t.1)
}

fn second(t: T2) -> u8 {
    t.1
}

fn set_second(t: T2, v: u8) -> T2 {
    (t.0, v)
}

// This fact says:
// if the first element of the tuple is even,
//     then the second element must be divisible by 3;
// and if the first element is odd,
//     then the second element must be divisible by 4.
fn choose_divisor(t: &T2) -> Second {
    lens2(
        "T.1",
        second as fn(T2) -> u8,
        set_second as fn(T2, u8) -> T2,
        if t.0 % 2 == 0 {
            brute("divisible by 3", by3 as fn(&u8) -> bool)
        } else {
            brute("divisible by 4", by4 as fn(&u8) -> bool)
        },
    )
}

#[test]
fn mapped_test_mapped_fact() {
    let numbers = vec![(1, 11), (2, 22), (3, 33), (4, 44)];

    let divisibility_fact = || mapped("reason", choose_divisor as fn(&T2) -> Second);

    // assert that there was a failure
    seq(divisibility_fact()).check(&numbers).result().unwrap().unwrap_err();

    assert_eq!(
        check_seq(numbers.as_slice(), divisibility_fact()).result().unwrap().unwrap_err(),
        vec![
            "item 0: mapped(reason) > lens(T.1) > divisible by 4".to_string(),
            "item 1: mapped(reason) > lens(T.1) > divisible by 3".to_string(),
            "item 2: mapped(reason) > lens(T.1) > divisible by 4".to_string(),
            "item 3: mapped(reason) > lens(T.1) > divisible by 3".to_string(),
        ]
    );

    let bytes = noise();
    let mut g = Generator::from(&bytes);

    let composite_fact = || {
        seq(and(
            lens2(
                "T.0",
                first as fn(T2) -> u8,
                set_first as fn(T2, u8) -> T2,
                consecutive_int("increasing", 0),
            ),
            divisibility_fact(),
        ))
    };

    let built = composite_fact().satisfy(&mut g, vec![(0, 0); 12]).unwrap();
    composite_fact().check(&built).unwrap();
    assert_eq!(built.len(), 12);
    for (i, t) in built.iter().enumerate() {
        assert_eq!(t.0 as usize, i);
        assert_eq!(t.1 % if i % 2 == 0 { 3 } else { 4 }, 0);
    }
}

#[test]
fn mapped_checks_by_the_chosen_fact() {
    fn pick(n: &u32) -> BruteFact<u32, fn(&u32) -> bool> {
        fn by9(n: &u32) -> bool {
            *n % 9 == 0
        }
        fn by10(n: &u32) -> bool {
            *n % 10 == 0
        }
        if *n > 9000 {
            brute("divisible by 9", by9 as fn(&u32) -> bool)
        } else {
            brute("divisible by 10", by10 as fn(&u32) -> bool)
        }
    }
    let fact = mapped("reason", pick as fn(&u32) -> BruteFact<u32, fn(&u32) -> bool>);
    assert!(fact.check(&50).is_ok());
    assert!(fact.check(&99).is_err());
    assert!(fact.check(&9009).is_ok());
    assert!(fact.check(&9010).is_err());
}

#[test]
fn collect_checks_numbers_the_facts() {
    let facts = [eq_(1u8), eq_(2), eq_(1)];
    assert_eq!(
        collect_checks(&facts, &1),
        Check::fail("fact 1: eq: expected 1 == 2")
    );
    assert_eq!(
        collect_checks(&facts, &3),
        Check::Failures(vec![
            "fact 0: eq: expected 3 == 1".to_string(),
            "fact 1: eq: expected 3 == 2".to_string(),
            "fact 2: eq: expected 3 == 1".to_string(),
        ])
    );
    let none: [contrafact::EqFact<u8>; 0] = [];
    assert!(collect_checks(&none, &3).is_ok());
}

#[test]
fn either_fact_applies_the_side_it_holds() {
    let pick = |strict: bool| -> EitherFact<AndFact<contrafact::EqFact<u8>, contrafact::EqFact<u8>>, contrafact::EqFact<u8>> {
        if strict {
            EitherFact::Left(and(eq_(1), eq_(1)))
        } else {
            EitherFact::Right(eq_(2))
        }
    };
    assert!(pick(true).check(&1).is_ok());
    assert!(pick(true).check(&2).is_err());
    assert!(pick(false).check(&2).is_ok());
    let mut g = Generator::from(&[1][..]);
    assert_eq!(pick(false).mutate(&mut g, 9), Ok(2));
}

#[test]
fn build_needs_build_mode() {
    let mut judge = Generator::check_mode();
    assert_eq!(
        eq_(1u8).build_fallible(&mut judge),
        Err(ContrafactError::Other("a value can only be built in build mode".to_string()))
    );
    assert!(build_seq(&mut judge, 2, eq_(1u8)).is_err());
    assert_eq!(build_seq(&mut judge, 0, eq_(1u8)), Ok(vec![]));
}

#[test]
fn satisfy_hands_on_fatal_errors() {
    let none: [u8; 0] = [];
    let mut g = Generator::from(&[1][..]);
    assert_eq!(
        contrafact::in_slice_(&none).satisfy(&mut g, 3),
        Err(ContrafactError::Other("Empty choices".to_string()))
    );
    let mut f = consecutive_int_(5u8);
    assert_eq!(f.satisfy(&mut g, 0), Ok(5));
    // The fact has advanced over the value that passed.
    assert_eq!(f.satisfy(&mut g, 0), Ok(6));
    let _ = MutationError::User(String::new());
}

#[test]
fn boxed_fact_behaves_as_its_content() {
    let mut boxed = Box::new(consecutive_int_(3u8));
    assert!(boxed.check(&3).is_ok());
    assert_eq!(boxed.check(&4), Check::fail("consecutive_int"));
    let mut g = Generator::from(&[1][..]);
    assert_eq!(boxed.mutate(&mut g, 9), Ok(3));
    boxed.advance(&3);
    assert!(boxed.fork().check(&4).is_ok());
}

#[test]
fn mapped_fallible_reports_a_failing_selector() {
    fn pick(n: &u8) -> Result<contrafact::EqFact<u8>, ContrafactError> {
        if *n == 0 {
            Err(ContrafactError::Other("no fact for zero".to_string()))
        } else if *n % 2 == 0 {
            Ok(eq("even numbers must be 2", 2))
        } else {
            Ok(eq("odd numbers must be 1", 1))
        }
    }
    let fact = mapped_fallible(
        "parity",
        pick as fn(&u8) -> Result<contrafact::EqFact<u8>, ContrafactError>,
    );
    assert!(fact.check(&1).is_ok());
    assert!(fact.check(&2).is_ok());
    assert_eq!(
        fact.check(&4),
        Check::fail("mapped(parity) > even numbers must be 2: expected 4 == 2")
    );
    assert_eq!(fact.check(&0), Check::Error("Other(\"no fact for zero\")".to_string()));
    let mut g = Generator::from(&[1][..]);
    assert_eq!(fact.mutate(&mut g, 7), Ok(1));
    assert_eq!(
        fact.mutate(&mut g, 0),
        Err(MutationError::Internal(ContrafactError::Other("no fact for zero".to_string())))
    );
}
