use node_connectors::helper::types::Null;
use node_connectors::nodes::connector_manager::value::{
    ConnectorType, ConnectorTypeId, FloatTask, Operation,
};

fn float(number: f32) -> ConnectorType {
    ConnectorType::Float(number.to_bits())
}

/// Does the floating-point work that an outcome asks for.
fn settle(outcome: Result<ConnectorType, FloatTask>) -> ConnectorType {
    match outcome {
        Ok(value) => value,
        Err(FloatTask::Format(bits)) => ConnectorType::String(f32::from_bits(bits).to_string()),
        Err(FloatTask::Parse(text)) => float(text.parse::<f32>().unwrap_or(0.0)),
        Err(FloatTask::Compute(operation, left, right)) => {
            let (left, right) = (f32::from_bits(left), f32::from_bits(right));
            float(match operation {
                Operation::Add => left + right,
                Operation::Subtract => left - right,
                Operation::Multiply => left * right,
                Operation::Divide => left / right,
                Operation::Remainder => left % right,
            })
        }
    }
}

#[test]
fn test_conversion() {
    let int = 5;
    let float_number = 5.0;
    let string = "Hello";
    let boolean = true;

    let int_type = ConnectorType::new(int);
    let float_type = float(float_number);
    let string_type = ConnectorType::new(string);
    let boolean_type = ConnectorType::new(boolean);

    assert_eq!(int_type, ConnectorType::Integer(5));
    assert_eq!(float_type, ConnectorType::Float(5.0f32.to_bits()));
    assert_eq!(string_type, ConnectorType::String("Hello".to_string()));
    assert_eq!(boolean_type, ConnectorType::Boolean(true));

    assert_eq!(int, 5);
    assert_eq!(float_number, 5.0);
    assert_eq!(string, "Hello");
    assert_eq!(boolean, true);

    assert_eq!(int_type, 5);
    assert_eq!(float_type, float(5.0));
    assert_eq!(string_type, "Hello");
    assert_eq!(boolean_type, true);

    let int_to_float = settle(int_type.get_variant(ConnectorTypeId::FLOAT));
    let int_to_string = settle(int_type.get_variant(ConnectorTypeId::STRING));
    let int_to_boolean = settle(int_type.get_variant(ConnectorTypeId::BOOL));
    let int_to_null = settle(int_type.get_variant(ConnectorTypeId::NULL));

    let float_to_int = settle(float_type.get_variant(ConnectorTypeId::INT));
    let float_to_string = settle(float_type.get_variant(ConnectorTypeId::STRING));
    let float_to_boolean = settle(float_type.get_variant(ConnectorTypeId::BOOL));
    let float_to_null = settle(float_type.get_variant(ConnectorTypeId::NULL));

    let string_to_int = settle(string_type.get_variant(ConnectorTypeId::INT));
    let string_to_float = settle(string_type.get_variant(ConnectorTypeId::FLOAT));
    let string_to_boolean = settle(string_type.get_variant(ConnectorTypeId::BOOL));
    let string_to_null = settle(string_type.get_variant(ConnectorTypeId::NULL));

    let boolean_to_int = settle(boolean_type.get_variant(ConnectorTypeId::INT));
    let boolean_to_float = settle(boolean_type.get_variant(ConnectorTypeId::FLOAT));
    let boolean_to_string = settle(boolean_type.get_variant(ConnectorTypeId::STRING));
    let boolean_to_null = settle(boolean_type.get_variant(ConnectorTypeId::NULL));

    assert_eq!(int_to_float, float(5.0));
    assert_eq!(int_to_string, "5");
    assert_eq!(int_to_boolean, true);
    assert_eq!(int_to_null, Null::new());

    assert_eq!(float_to_int, 5);
    assert_eq!(float_to_string, "5");
    assert_eq!(float_to_boolean, true);
    assert_eq!(float_to_null, Null::new());

    assert_eq!(string_to_int, 0);
    assert_eq!(string_to_float, float(0.0));
    assert_eq!(string_to_boolean, false);
    assert_eq!(string_to_null, Null::new());

    assert_eq!(boolean_to_int, 1);
    assert_eq!(boolean_to_float, float(1.0));
    assert_eq!(boolean_to_string, "true");
    assert_eq!(boolean_to_null, Null::new());

    let null = ConnectorType::Null(Null::new());
    let null_to_int = settle(null.get_variant(ConnectorTypeId::INT));
    let null_to_float = settle(null.get_variant(ConnectorTypeId::FLOAT));
    let null_to_string = settle(null.get_variant(ConnectorTypeId::STRING));
    let null_to_boolean = settle(null.get_variant(ConnectorTypeId::BOOL));

    assert_eq!(null_to_int, ConnectorType::Integer(0));
    assert_eq!(null_to_float, ConnectorType::Float(0.0f32.to_bits()));
    assert_eq!(null_to_string, ConnectorType::String("".to_string()));
    assert_eq!(null_to_boolean, ConnectorType::Boolean(false));
}

#[test]
fn test_arithmetic() {
    let int1 = ConnectorType::new(5);
    let int2 = ConnectorType::new(10);
    let float1 = float(5.0);
    let float2 = float(10.0);

    let int_add = settle(int1.clone() + int2.clone());
    let int_sub = settle(int1.clone() - int2.clone());
    let int_mul = settle(int1.clone() * int2.clone());
    let int_div = settle(int1.clone() / int2.clone());
    let int_rem = settle(int1.clone() % int2.clone());

    let float_add = settle(float1.clone() + float2.clone());
    let float_sub = settle(float1.clone() - float2.clone());
    let float_mul = settle(float1.clone() * float2.clone());
    let float_div = settle(float1.clone() / float2.clone());
    let float_rem = settle(float1.clone() % float2.clone());

    assert_eq!(int_add, 15);
    assert_eq!(int_sub, -5);
    assert_eq!(int_mul, 50);
    assert_eq!(int_div, 0);
    assert_eq!(int_rem, 5);

    assert_eq!(float_add, float(15.0));
    assert_eq!(float_sub, float(-5.0));
    assert_eq!(float_mul, float(50.0));
    assert_eq!(float_div, float(0.5));
    assert_eq!(float_rem, float(5.0));
}

#[test]
fn test_comparison() {
    let int1 = ConnectorType::new(5);
    let int2 = ConnectorType::new(10);
    let float1 = float(5.0);
    let float2 = float(10.0);
    let string1 = ConnectorType::new("Hello");
    let boolean1 = ConnectorType::new(true);

    let int_inner = 5;
    let float_inner = 5.0;
    let string_inner = "Hello";
    let boolean_inner = true;

    assert_eq!(int1, int_inner, "Integer equals comparison failed");
    assert_eq!(float1, float(float_inner), "Float equals comparison failed");
    assert_eq!(string1, string_inner, "String equals comparison failed");
    assert_eq!(boolean1, boolean_inner, "Boolean equals comparison failed");

    assert_eq!(int_inner, int1, "Integer equals comparison failed");
    assert_eq!(float(float_inner), float1, "Float equals comparison failed");
    assert_eq!(string_inner, string1, "String equals comparison failed");
    assert_eq!(boolean_inner, boolean1, "Boolean equals comparison failed");

    assert!(int1 < int2, "Integer less than comparison failed");
    assert!(float1 < float2, "Float less than comparison failed");

    assert!(int2 > int1, "Integer greater than comparison failed");
    assert!(float2 > float1, "Float greater than comparison failed");

    assert!(int1 <= int_inner, "Integer less than or equal comparison failed");
    assert!(float1 <= float(float_inner), "Float less than or equal comparison failed");

    assert!(int_inner >= int1, "Integer greater than or equal comparison failed");
    assert!(float(float_inner) >= float1, "Float greater than or equal comparison failed");

    assert!(int1 != int2, "Integer not equal comparison failed");
    assert!(float1 != float2, "Float not equal comparison failed");

    assert!(int1 == int_inner, "Integer equal comparison failed");
    assert!(float1 == float(float_inner), "Float equal comparison failed");
}

// Fail tests
#[test]
#[should_panic]
fn test_conversion_fail() {
    let int = 5;
    let int_type = ConnectorType::new(int);
    let _ = int_type.get_variant(6);
}

#[test]
#[should_panic]
fn test_arithmetic_fail() {
    let int = ConnectorType::new(5);
    let float_value = float(5.0);
    let _ = int + float_value;
}

#[test]
fn float_and_text_conversions_end_in_work() {
    let pi = float(3.14);
    match pi.get_variant(ConnectorTypeId::STRING) {
        Err(FloatTask::Format(bits)) => assert_eq!(bits, 3.14f32.to_bits()),
        other => panic!("expected the work of formatting, got {:?}", other),
    }
    let text = ConnectorType::new("2.5");
    match text.get_variant(ConnectorTypeId::FLOAT) {
        Err(FloatTask::Parse(read)) => assert_eq!(read, "2.5"),
        other => panic!("expected the work of parsing, got {:?}", other),
    }
    assert_eq!(settle(pi.get_variant(ConnectorTypeId::STRING)), "3.14");
    assert_eq!(settle(text.get_variant(ConnectorTypeId::FLOAT)), float(2.5));
}

#[test]
fn float_sums_end_in_work() {
    match float(1.5) + float(2.0) {
        Err(FloatTask::Compute(Operation::Add, left, right)) => {
            assert_eq!(left, 1.5f32.to_bits());
            assert_eq!(right, 2.0f32.to_bits());
        }
        other => panic!("expected the work of adding, got {:?}", other),
    }
}

#[test]
fn conversion_to_own_type_keeps_the_value() {
    let values = vec![
        ConnectorType::new(-7),
        float(-0.75),
        ConnectorType::new("text"),
        ConnectorType::new(false),
        ConnectorType::Null(Null::new()),
    ];
    for value in values {
        let same = value.get_variant(value.get_type()).unwrap();
        assert_eq!(same.get_type(), value.get_type());
        match (&same, &value) {
            (ConnectorType::Float(a), ConnectorType::Float(b)) => assert_eq!(a, b),
            _ => assert_eq!(same, value),
        }
    }
}

#[test]
fn get_type_identifies_each_variant() {
    assert_eq!(ConnectorType::new(1).get_type(), ConnectorTypeId::INT);
    assert_eq!(float(1.0).get_type(), ConnectorTypeId::FLOAT);
    assert_eq!(ConnectorType::new("a").get_type(), ConnectorTypeId::STRING);
    assert_eq!(ConnectorType::new("a".to_string()).get_type(), ConnectorTypeId::STRING);
    assert_eq!(ConnectorType::new(true).get_type(), ConnectorTypeId::BOOL);
    assert_eq!(ConnectorType::new(Null::new()).get_type(), ConnectorTypeId::NULL);
    assert_eq!(
        (ConnectorTypeId::INT, ConnectorTypeId::FLOAT, ConnectorTypeId::STRING),
        (1, 2, 3)
    );
    assert_eq!((ConnectorTypeId::BOOL, ConnectorTypeId::NULL), (4, 5));
    assert!(ConnectorTypeId::known(5) && !ConnectorTypeId::known(6) && !ConnectorTypeId::known(0));
    assert!(ConnectorTypeId::declarable(4) && !ConnectorTypeId::declarable(5));
}

#[test]
fn integer_conversions() {
    assert_eq!(ConnectorType::new(0).get_variant(ConnectorTypeId::BOOL).unwrap(), false);
    assert_eq!(ConnectorType::new(-3).get_variant(ConnectorTypeId::BOOL).unwrap(), true);
    assert_eq!(ConnectorType::new(-42).get_variant(ConnectorTypeId::STRING).unwrap(), "-42");
    assert_eq!(
        ConnectorType::new(i32::MIN).get_variant(ConnectorTypeId::STRING).unwrap(),
        "-2147483648"
    );
    assert_eq!(
        ConnectorType::new(16777217).get_variant(ConnectorTypeId::FLOAT).unwrap(),
        float(16777217i32 as f32)
    );
}

#[test]
fn float_conversions() {
    assert_eq!(float(3.99).get_variant(ConnectorTypeId::INT).unwrap(), 3);
    assert_eq!(float(-3.99).get_variant(ConnectorTypeId::INT).unwrap(), -3);
    assert_eq!(float(f32::NAN).get_variant(ConnectorTypeId::INT).unwrap(), 0);
    assert_eq!(float(1e20).get_variant(ConnectorTypeId::INT).unwrap(), i32::MAX);
    assert_eq!(float(f32::NEG_INFINITY).get_variant(ConnectorTypeId::INT).unwrap(), i32::MIN);
    assert_eq!(float(0.0).get_variant(ConnectorTypeId::BOOL).unwrap(), false);
    assert_eq!(float(-0.0).get_variant(ConnectorTypeId::BOOL).unwrap(), false);
    assert_eq!(float(1e-40).get_variant(ConnectorTypeId::BOOL).unwrap(), true);
    assert_eq!(float(f32::NAN).get_variant(ConnectorTypeId::BOOL).unwrap(), true);
}

#[test]
fn string_conversions() {
    assert_eq!(ConnectorType::new("42").get_variant(ConnectorTypeId::INT).unwrap(), 42);
    assert_eq!(ConnectorType::new("+42").get_variant(ConnectorTypeId::INT).unwrap(), 42);
    assert_eq!(ConnectorType::new("-0042").get_variant(ConnectorTypeId::INT).unwrap(), -42);
    assert_eq!(ConnectorType::new(" 42").get_variant(ConnectorTypeId::INT).unwrap(), 0);
    assert_eq!(ConnectorType::new("4.2").get_variant(ConnectorTypeId::INT).unwrap(), 0);
    assert_eq!(ConnectorType::new("2147483648").get_variant(ConnectorTypeId::INT).unwrap(), 0);
    assert_eq!(
        ConnectorType::new("-2147483648").get_variant(ConnectorTypeId::INT).unwrap(),
        i32::MIN
    );
    assert_eq!(ConnectorType::new("true").get_variant(ConnectorTypeId::BOOL).unwrap(), true);
    assert_eq!(ConnectorType::new("false").get_variant(ConnectorTypeId::BOOL).unwrap(), false);
    assert_eq!(ConnectorType::new("True").get_variant(ConnectorTypeId::BOOL).unwrap(), false);
    assert_eq!(ConnectorType::new("1").get_variant(ConnectorTypeId::BOOL).unwrap(), false);
}

#[test]
fn boolean_conversions() {
    assert_eq!(ConnectorType::new(false).get_variant(ConnectorTypeId::INT).unwrap(), 0);
    assert_eq!(ConnectorType::new(false).get_variant(ConnectorTypeId::FLOAT).unwrap(), float(0.0));
    assert_eq!(ConnectorType::new(false).get_variant(ConnectorTypeId::STRING).unwrap(), "false");
}

#[test]
fn values_of_different_types_are_unequal_and_unordered() {
    let one = ConnectorType::new(1);
    let truth = ConnectorType::new(true);
    assert!(one != truth);
    assert!(one != float(1.0));
    assert_eq!(one.cmp(&truth), std::cmp::Ordering::Equal);
    assert_eq!(one.partial_cmp(&truth), Some(std::cmp::Ordering::Equal));
    assert!(ConnectorType::Null(Null::new()) == ConnectorType::Null(Null::new()));
    assert!(ConnectorType::Null(Null::new()) != one);
    assert_eq!(one.partial_cmp(&2), Some(std::cmp::Ordering::Less));
    assert_eq!(truth.partial_cmp(&2), None);
    assert_eq!(2.partial_cmp(&one), Some(std::cmp::Ordering::Greater));
}

#[test]
fn order_within_a_type() {
    assert!(ConnectorType::new(false) < ConnectorType::new(true));
    assert!(ConnectorType::new("abc") < ConnectorType::new("abd"));
    assert!(ConnectorType::new("ab") < ConnectorType::new("abc"));
    assert!(ConnectorType::new("b") > ConnectorType::new("abc"));
    assert!(ConnectorType::new("é") > ConnectorType::new("z"));
    assert_eq!(
        ConnectorType::new("same").cmp(&ConnectorType::new("same")),
        std::cmp::Ordering::Equal
    );
    assert!(float(-1.0) < float(0.0));
    assert!(float(-2.0) < float(-1.0));
    assert_eq!(float(-0.0).cmp(&float(0.0)), std::cmp::Ordering::Equal);
    assert_eq!(float(f32::NAN).cmp(&float(0.0)), std::cmp::Ordering::Equal);
    assert!(float(f32::NEG_INFINITY) < float(f32::MIN));
}

#[test]
fn float_equality_is_of_numbers() {
    assert!(float(0.0) == float(-0.0));
    assert!(float(f32::NAN) != float(f32::NAN));
    assert!(float(1.5) == float(1.5));
    assert!(float(1.5) != float(-1.5));
}

#[test]
fn text_that_shows_a_value() {
    assert_eq!(ConnectorType::new(12).to_text().unwrap(), "12");
    assert_eq!(ConnectorType::new("as is").to_text().unwrap(), "as is");
    assert_eq!(ConnectorType::new(true).to_text().unwrap(), "true");
    assert_eq!(ConnectorType::Null(Null::new()).to_text().unwrap(), "Null");
    assert_eq!(Null::new().to_text(), "Null");
    match float(1.25).to_text() {
        Err(FloatTask::Format(bits)) => assert_eq!(f32::from_bits(bits).to_string(), "1.25"),
        other => panic!("expected the work of formatting, got {:?}", other),
    }
}

#[test]
fn the_absent_value_equals_only_itself() {
    assert!(Null::new() == Null::new());
    assert!(Null::new() != 0);
    assert!(Null::new() != false);
    assert!(Null::new() != String::new());
    assert!(0 != Null::new());
    assert!(false != Null::new());
    assert!(String::new() != Null::new());
}

#[test]
fn integer_arithmetic_rounds_toward_zero() {
    let quotient = |a: i32, b: i32| (ConnectorType::new(a) / ConnectorType::new(b)).unwrap();
    let rest = |a: i32, b: i32| (ConnectorType::new(a) % ConnectorType::new(b)).unwrap();
    assert_eq!(quotient(-7, 2), -3);
    assert_eq!(quotient(7, -2), -3);
    assert_eq!(quotient(-7, -2), 3);
    assert_eq!(rest(-7, 2), -1);
    assert_eq!(rest(7, -2), 1);
    assert_eq!(rest(-7, -2), -1);
    assert_eq!(quotient(i32::MIN, 2), i32::MIN / 2);
    assert_eq!(ConnectorType::new(5) + 10, 15);
    assert_eq!(ConnectorType::new(5) - 10, -5);
    assert_eq!(ConnectorType::new(5) * 10, 50);
    assert_eq!(ConnectorType::new(5) / 10, 0);
    assert_eq!(ConnectorType::new(5) % 10, 5);
}
