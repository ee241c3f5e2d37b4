use logic::collection::manager::encode_show_achievement;

#[test]
fn encodes_single_and_group_display_strings() {
    assert_eq!(encode_show_achievement(&[1, 2], Some(0)), "1:1#2");
    assert_eq!(encode_show_achievement(&[3, 4], Some(12)), "2:3#4");
    assert_eq!(encode_show_achievement(&[], Some(12)), "");
}

#[test]
fn achievement_without_group_and_negative_ids() {
    assert_eq!(encode_show_achievement(&[7], None), "1:7");
    assert_eq!(encode_show_achievement(&[-12, 0, 2147483647, -2147483648], Some(1)), "2:-12#0#2147483647#-2147483648");
}
