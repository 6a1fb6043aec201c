use td3::digits::{parse_count, render_decimal};
use td3::keys::{Branch, Field, Key};

#[test]
fn decimal_numerals() {
    assert_eq!(render_decimal(0), "0");
    assert_eq!(render_decimal(7), "7");
    assert_eq!(render_decimal(10), "10");
    assert_eq!(render_decimal(256), "256");
    assert_eq!(render_decimal(1_000_000), "1000000");
    assert_eq!(render_decimal(usize::MAX), format!("{}", usize::MAX));
}

#[test]
fn counts_are_read_from_digits() {
    assert_eq!(parse_count("0"), Some(0));
    assert_eq!(parse_count("4"), Some(4));
    assert_eq!(parse_count("4096"), Some(4096));
    assert_eq!(parse_count(&format!("{}", usize::MAX)), Some(usize::MAX));
}

#[test]
fn counts_may_have_a_plus_sign_and_leading_zeros() {
    assert_eq!(parse_count("+4"), Some(4));
    assert_eq!(parse_count("004"), Some(4));
    assert_eq!(parse_count("+000"), Some(0));
}

#[test]
fn counts_are_refused_otherwise() {
    assert_eq!(parse_count(""), None);
    assert_eq!(parse_count("+"), None);
    assert_eq!(parse_count("-1"), None);
    assert_eq!(parse_count("-0"), None);
    assert_eq!(parse_count("4a"), None);
    assert_eq!(parse_count(" 4"), None);
    assert_eq!(parse_count("4 "), None);
    assert_eq!(parse_count("++4"), None);
    assert_eq!(parse_count("4.0"), None);
    assert_eq!(parse_count("٤"), None);
    assert_eq!(parse_count("4é"), None);
}

#[test]
fn counts_that_do_not_fit_are_refused() {
    assert_eq!(parse_count("18446744073709551616"), None);
    assert_eq!(parse_count("99999999999999999999999999"), None);
}

#[test]
fn reading_a_numeral_gives_the_number_back() {
    for n in [0usize, 1, 9, 10, 99, 100, 12345, usize::MAX - 1, usize::MAX] {
        assert_eq!(parse_count(&render_decimal(n)), Some(n));
    }
}

#[test]
fn fixed_keys() {
    assert_eq!(Key::MaxAction.render(), "max_action");
    assert_eq!(Key::Count(Branch::Actor).render(), "num_layers");
    assert_eq!(Key::Count(Branch::Q1).render(), "num_q1_layers");
    assert_eq!(Key::Count(Branch::Q2).render(), "num_q2_layers");
}

#[test]
fn layer_keys() {
    assert_eq!(
        Key::Layer(Branch::Actor, 0, Field::WeightShape).render(),
        "layer_0_tensor_weight_shape"
    );
    assert_eq!(
        Key::Layer(Branch::Actor, 12, Field::WeightData).render(),
        "layer_12_tensor_weight_data"
    );
    assert_eq!(
        Key::Layer(Branch::Q1, 3, Field::BiasShape).render(),
        "q1_layer_3_tensor_bias_shape"
    );
    assert_eq!(
        Key::Layer(Branch::Q2, 100, Field::BiasData).render(),
        "q2_layer_100_tensor_bias_data"
    );
}

#[test]
fn no_two_keys_share_a_text() {
    let mut keys = vec![
        Key::MaxAction,
        Key::Count(Branch::Actor),
        Key::Count(Branch::Q1),
        Key::Count(Branch::Q2),
    ];
    for branch in [Branch::Actor, Branch::Q1, Branch::Q2] {
        for index in [0usize, 1, 2, 10, 11, 21, 111] {
            for field in [
                Field::WeightShape,
                Field::WeightData,
                Field::BiasShape,
                Field::BiasData,
            ] {
                keys.push(Key::Layer(branch, index, field));
            }
        }
    }
    for (i, a) in keys.iter().enumerate() {
        for (j, b) in keys.iter().enumerate() {
            assert_eq!(a.render() == b.render(), i == j);
        }
    }
}
