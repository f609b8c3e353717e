use tango_driver::mapfile::{load_map, parse_int_field, parse_row, split_bytes, split_lines};
use tango_driver::tilemap::TileType;

#[test]
fn integer_fields() {
    assert_eq!(parse_int_field(b"12"), Some(12));
    assert_eq!(parse_int_field(b"0"), Some(0));
    assert_eq!(parse_int_field(b"007"), Some(7));
    assert_eq!(parse_int_field(b"+7"), Some(7));
    assert_eq!(parse_int_field(b"-5"), Some(-5));
    assert_eq!(parse_int_field(b""), None);
    assert_eq!(parse_int_field(b"-"), None);
    assert_eq!(parse_int_field(b"+"), None);
    assert_eq!(parse_int_field(b"1a"), None);
    assert_eq!(parse_int_field(b"a1"), None);
    assert_eq!(parse_int_field(b" 1"), None);
    assert_eq!(parse_int_field(b"1 "), None);
}

#[test]
fn integer_fields_at_the_edges() {
    assert_eq!(parse_int_field(b"2147483647"), Some(i32::MAX));
    assert_eq!(parse_int_field(b"2147483648"), None);
    assert_eq!(parse_int_field(b"-2147483648"), Some(i32::MIN));
    assert_eq!(parse_int_field(b"-2147483649"), None);
    assert_eq!(parse_int_field(b"99999999999999999999"), None);
    assert_eq!(parse_int_field(b"0000000000000000003"), Some(3));
}

#[test]
fn splitting_fields() {
    let pieces = split_bytes(b"a,b,,c", b',');
    let views: Vec<&[u8]> = pieces.iter().map(|p| p.as_slice()).collect();
    assert_eq!(views, vec![b"a" as &[u8], b"b", b"", b"c"]);

    assert_eq!(split_bytes(b"", b',').len(), 1);
    assert_eq!(split_bytes(b",", b',').len(), 2);
}

#[test]
fn splitting_lines() {
    let lines = split_lines(b"1,2\n3,4\n");
    let views: Vec<&[u8]> = lines.iter().map(|p| p.as_slice()).collect();
    assert_eq!(views, vec![b"1,2" as &[u8], b"3,4"]);

    let lines = split_lines(b"1,2\r\n3,4");
    let views: Vec<&[u8]> = lines.iter().map(|p| p.as_slice()).collect();
    assert_eq!(views, vec![b"1,2" as &[u8], b"3,4"]);

    assert_eq!(split_lines(b"").len(), 0);
    assert_eq!(split_lines(b"\n").len(), 1);
    assert_eq!(split_lines(b"a\n\nb").len(), 3);
}

#[test]
fn rows_keep_only_parsing_fields() {
    assert_eq!(
        parse_row(b"0,1,2,3"),
        vec![TileType::Grass, TileType::Grass, TileType::Road, TileType::Building]
    );
    // A field that does not parse as an integer is skipped.
    assert_eq!(parse_row(b"2, 3,x,1"), vec![TileType::Road, TileType::Grass]);
    assert_eq!(parse_row(b""), Vec::<TileType>::new());
}

#[test]
fn map_rows_come_bottom_first() {
    let map = load_map(b"0,1\n2,3\n");
    assert_eq!(map.len(), 2);
    assert_eq!(map[0], vec![TileType::Road, TileType::Building]);
    assert_eq!(map[1], vec![TileType::Grass, TileType::Grass]);
}

#[test]
fn map_of_one_line_without_newline() {
    let map = load_map(b"2,2,2");
    assert_eq!(map, vec![vec![TileType::Road, TileType::Road, TileType::Road]]);
}
