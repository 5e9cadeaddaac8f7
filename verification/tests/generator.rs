use contrafact::{Generator, MutationError};
use rand::prelude::SliceRandom;
use rand::SeedableRng;

/// Test that int_in_range won't accept an invalid range.
#[test]
fn test_generator_int_in_range_invalid_range() {
    let mut gen = Generator::from(&[0, 1, 2, 3, 4, 5][..]);
    assert_eq!(
        gen.int_in_range(5, 4, "error"),
        Err(MutationError::User("Invalid range".to_string()))
    );
}

/// Test that int_in_range will accept a valid range of a single option.
#[test]
fn test_generator_int_in_range_valid_range_single_option() {
    let mut gen = Generator::from(&[0][..]);
    for _ in 0..10 {
        assert_eq!(gen.int_in_range(5, 5, "error").unwrap(), 5);
    }
    // The generator has not had any entropy consumed by this point.
    assert_eq!(gen.len(), 1);
}

/// Test that int_in_range will accept a valid range of multiple options.
#[test]
fn test_generator_int_in_range_valid_range_multiple_options() {
    let mut gen = Generator::from(&[0, 1, 2, 3, 4, 5][..]);
    for i in 0..6 {
        assert_eq!(gen.int_in_range(0, 3, "error").unwrap(), i % 4);
    }
    // The generator has no entropy remaining at this point.
    assert_eq!(gen.len(), 0);
    assert_eq!(
        gen.int_in_range(0, 3, "error"),
        Err(MutationError::User("Ran out of entropy".to_string()))
    );
}

/// Test the error when there are no possible choices.
#[test]
fn test_generator_no_choices() {
    let mut gen = Generator::from(&[0, 1, 2, 3, 4, 5][..]);
    let choices: [usize; 0] = [];
    assert_eq!(
        gen.pick(&choices, "error"),
        Err(MutationError::User("Empty choices".to_string()))
    );
}

/// Test that a generator can be used to choose one value.
#[test]
fn test_generator_one_choices() {
    let mut gen = Generator::from(&[0, 1, 2, 3, 4, 5][..]);
    let choices = [0];
    assert_eq!(gen.pick(&choices, "error").unwrap(), &0);
}

/// Test that a generator can be used to choose between two values.
#[test]
fn test_generator_choose_two_values() {
    let mut gen = Generator::from(&[0, 1, 2, 3, 4, 5][..]);
    let choices = [0, 1];
    assert_eq!(gen.pick(&choices, "error").unwrap(), &0);
    assert_eq!(gen.pick(&choices, "error").unwrap(), &1);
    assert_eq!(gen.pick(&choices, "error").unwrap(), &0);
    assert_eq!(gen.pick(&choices, "error").unwrap(), &1);
    assert_eq!(gen.pick(&choices, "error").unwrap(), &0);
    assert_eq!(gen.pick(&choices, "error").unwrap(), &1);

    // This is the only case where we can't choose a value, because we have 2 choices and 6 bytes.
    assert_eq!(
        gen.pick(&choices, "error"),
        Err(MutationError::User("Ran out of entropy".to_string()))
    );
}

/// Test that a generator can be used to choose between three values.
#[test]
fn test_generator_choose_three_values() {
    let mut gen = Generator::from(&[0, 1, 2, 3, 4, 5][..]);
    let choices = [0, 1, 2];
    assert_eq!(gen.pick(&choices, "error").unwrap(), &0);
    assert_eq!(gen.pick(&choices, "error").unwrap(), &1);
    assert_eq!(gen.pick(&choices, "error").unwrap(), &2);
    assert_eq!(gen.pick(&choices, "error").unwrap(), &0);
    assert_eq!(gen.pick(&choices, "error").unwrap(), &1);
    assert_eq!(gen.pick(&choices, "error").unwrap(), &2);

    // This is the only case where we can't choose a value, because we have 3 choices and 6 bytes.
    assert_eq!(
        gen.pick(&choices, "error"),
        Err(MutationError::User("Ran out of entropy".to_string()))
    );
}

/// Test that a generator can be used to choose between three values with
/// randomization.
#[test]
fn test_generator_choose_three_values_random() {
    let mut u_data = [0, 1, 2, 3, 4, 5];

    // Seeded random so we get deterministic results.
    let mut rng = rand::rngs::StdRng::seed_from_u64(0);
    u_data.shuffle(&mut rng);

    let mut gen = Generator::from(&u_data[..]);

    let choices = [0, 1, 2];
    assert_eq!(gen.pick(&choices, "error").unwrap(), &1);
    assert_eq!(gen.pick(&choices, "error").unwrap(), &2);
    assert_eq!(gen.pick(&choices, "error").unwrap(), &2);
    assert_eq!(gen.pick(&choices, "error").unwrap(), &1);
    assert_eq!(gen.pick(&choices, "error").unwrap(), &0);
    assert_eq!(gen.pick(&choices, "error").unwrap(), &0);

    // This is the only case where we can't choose a value, because we have 3 choices and 6 bytes.
    assert_eq!(
        gen.pick(&choices, "error"),
        Err(MutationError::User("Ran out of entropy".to_string()))
    );
}

/// Test that a generator can choose a single item even if there is no entropy.
#[test]
fn test_generator_choose_single_without_entropy() {
    let mut gen = Generator::from(&[0][..]);
    let choices = [0];
    for _ in 0..10 {
        assert_eq!(gen.pick(&choices, "error").unwrap(), &0);
    }

    // The generator has not had any entropy consumed by this point.
    assert_eq!(gen.len(), 1);
}

/// In check mode every primitive that would change or draw data fails with
/// its message, and none uses entropy.
#[test]
fn check_mode_primitives_fail_with_their_message() {
    let mut gen = Generator::check_mode();
    assert_eq!(gen.fail("changed"), Err(MutationError::Check("changed".to_string())));
    assert_eq!(gen.arbitrary::<u8>("drawn"), Err(MutationError::Check("drawn".to_string())));
    assert_eq!(gen.pick(&[1u8, 2], "picked"), Err(MutationError::Check("picked".to_string())));
    assert_eq!(gen.int_in_range(1u8, 9, "ranged"), Err(MutationError::Check("ranged".to_string())));
    let mut x = 1u32;
    assert_eq!(gen.set(&mut x, &2, "set"), Err(MutationError::Check("set".to_string())));
    assert_eq!(x, 1);
    assert_eq!(gen.set(&mut x, &1, "set"), Ok(()));
    assert_eq!(gen.pick(&[7u8], "picked"), Ok(&7));
    assert_eq!(gen.int_in_range(4u8, 4, "ranged"), Ok(4));
    assert_eq!(gen.len(), 0);
}

/// In build mode `fail` is silent, `set` overwrites, and a fresh value is read
/// from the entropy, least significant byte first.
#[test]
fn build_mode_primitives_draw_from_entropy() {
    let mut gen = Generator::from(&[0x34, 0x12, 0xff, 7][..]);
    assert_eq!(gen.fail("changed"), Ok(()));
    let mut x = 1u32;
    assert_eq!(gen.set(&mut x, &2, "set"), Ok(()));
    assert_eq!(x, 2);
    assert_eq!(gen.len(), 4);
    assert_eq!(gen.arbitrary::<u16>("drawn"), Ok(0x1234));
    assert_eq!(gen.arbitrary::<i8>("drawn"), Ok(-1));
    assert_eq!(gen.len(), 1);
    assert_eq!(gen.arbitrary::<u32>("drawn"), Ok(7));
    assert!(gen.is_empty());
    assert_eq!(gen.arbitrary::<u64>("drawn"), Ok(0));
}
