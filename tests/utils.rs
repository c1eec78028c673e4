use cview::utils::parse_rgb;

#[test]
fn parses_rgb_strings() {
    assert_eq!(parse_rgb("rgb(255, 0, 10)"), Ok([255, 0, 10]));
    assert_eq!(parse_rgb("rgb( 1 , 2 , 3 )"), Ok([1, 2, 3]));
    assert_eq!(parse_rgb(" 1 ,+2,\t3 "), Ok([1, 2, 3]));
    assert_eq!(parse_rgb("rgb(rgb(4,5,6)))"), Ok([4, 5, 6]));
    assert_eq!(parse_rgb("rgb(\u{a0}7,8,9)"), Ok([7, 8, 9]));
}

#[test]
fn reports_the_failing_part() {
    assert_eq!(parse_rgb("rgb(1,2)"), Err("Invalid RGB format".to_string()));
    assert_eq!(parse_rgb("rgb(1,2,3,4)"), Err("Invalid RGB format".to_string()));
    assert_eq!(parse_rgb("rgb(256,0,0)"), Err("Invalid red value".to_string()));
    assert_eq!(parse_rgb("rgb(1, x, 3)"), Err("Invalid green value".to_string()));
    assert_eq!(parse_rgb("rgb(1,2,)"), Err("Invalid blue value".to_string()));
    assert_eq!(parse_rgb("rgb(-1,2,3)"), Err("Invalid red value".to_string()));
    assert_eq!(parse_rgb("rgb(1,+,3)"), Err("Invalid green value".to_string()));
}
