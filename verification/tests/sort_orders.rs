use rustberg::codec::{from_text, Codec};
use rustberg::error::CodecError;
use rustberg::sort_orders::{Direction, NullOrder};

fn from_str<T: Codec>(text: &str) -> Result<T, CodecError> {
    from_text::<T>(text)
}

#[test]
fn test_direction() {
    let ser = [r#""asc""#, r#""desc""#];
    let directions = ser.map(|ser| {
        from_str::<Direction>(ser).expect(&format!("Failed for input {}", ser))
    });
    assert_eq!([Direction::ASC, Direction::DESC], directions);
}

#[test]
fn test_wrong_direction_fails() {
    let ser = r#""dsc""#;
    let direction = from_str::<Direction>(ser);
    assert!(direction.is_err());
}

#[test]
fn test_null_order() {
    let ser = [r#""nulls-last""#, r#""nulls-first""#];
    let null_orders = ser.map(|ser| {
        from_str::<NullOrder>(ser).expect(&format!("Failed for input {}", ser))
    });
    assert_eq!([NullOrder::NullsLast, NullOrder::NullsFirst], null_orders);
}

#[test]
fn test_wrong_null_order_fails() {
    let ser = r#""nulls""#;
    let null_order = from_str::<NullOrder>(ser);
    assert!(null_order.is_err());
}
