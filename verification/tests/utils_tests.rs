use engine::logger::{set_verbosity, LevelFilter, Logger};
use engine::utils::{
    convert_to_strings, list_without_element, list_without_elements, pack_to_u32s,
    print_item_list, str_to_u32, to_i32, to_u32, CheckError,
};

#[test]
fn decimal_numbers() {
    assert_eq!(str_to_u32("0"), 0);
    assert_eq!(str_to_u32("7"), 7);
    assert_eq!(str_to_u32("123"), 123);
    assert_eq!(str_to_u32("0042"), 42);
    assert_eq!(str_to_u32("4294967295"), u32::MAX);
}

#[test]
fn no_digits_stand_for_zero() {
    assert_eq!(str_to_u32(""), 0);
}

#[test]
fn top_bit_is_dropped() {
    assert_eq!(to_i32(0), 0);
    assert_eq!(to_i32(1024), 1024);
    assert_eq!(to_i32(0x7fff_ffff), i32::MAX);
    assert_eq!(to_i32(0x8000_0000), 0);
    assert_eq!(to_i32(0x8000_0005), 5);
    assert_eq!(to_i32(u32::MAX), i32::MAX);
}

#[test]
fn lengths() {
    assert_eq!(to_u32(0), 0);
    assert_eq!(to_u32(12345), 12345);
    assert_eq!(to_u32(u32::MAX as usize), u32::MAX);
}

#[test]
fn owned_strings() {
    assert_eq!(
        convert_to_strings(&["VK_KHR_swapchain", "", "x"]),
        vec!["VK_KHR_swapchain".to_string(), String::new(), "x".to_string()]
    );
    assert!(convert_to_strings(&[]).is_empty());
}

#[test]
fn bytes_are_packed_in_machine_order() {
    let bytes = [0x03, 0x02, 0x23, 0x07, 0x00, 0x00, 0x01, 0x00, 0xff, 0xfe, 0xfd, 0xfc];
    let words = pack_to_u32s(&bytes);
    assert_eq!(
        words,
        vec![
            u32::from_ne_bytes([0x03, 0x02, 0x23, 0x07]),
            u32::from_ne_bytes([0x00, 0x00, 0x01, 0x00]),
            u32::from_ne_bytes([0xff, 0xfe, 0xfd, 0xfc]),
        ]
    );
    assert!(words[0] == 0x0723_0203 || words[0] == 0x0302_2307);
    assert!(pack_to_u32s(&[]).is_empty());
}

#[test]
fn list_without_one_value() {
    assert_eq!(list_without_element(&[0, 1, 2, 1, 3], 1), vec![0, 2, 3]);
    assert_eq!(list_without_element(&[0, 1, 2], 7), vec![0, 1, 2]);
    assert_eq!(list_without_element(&[4, 4], 4), Vec::<u32>::new());
    assert_eq!(list_without_element(&[], 4), Vec::<u32>::new());
}

#[test]
fn list_without_several_values() {
    assert_eq!(list_without_elements(&[0, 1, 2, 3, 4, 1], &[1, 3]), vec![0, 2, 4]);
    assert_eq!(list_without_elements(&[0, 1, 2], &[]), vec![0, 1, 2]);
    assert_eq!(list_without_elements(&[0, 1], &[1, 0, 1]), Vec::<u32>::new());
    assert_eq!(list_without_elements(&[], &[1]), Vec::<u32>::new());
}

#[test]
fn present_values_are_taken_out() {
    assert_eq!(Some(5).check_err("find five"), 5);
    let ok: Result<&str, u8> = Ok("fine");
    assert_eq!(ok.check_err("be fine"), "fine");
}

#[test]
fn item_list_of_a_verbose_logger() {
    let mut logger = Logger::new(LevelFilter::Debug);
    set_verbosity(&mut logger, true);
    let lines = print_item_list(&logger, "Present modes", &[1, 22, 333], |m| format!("<{}>", m));
    assert_eq!(lines, vec!["Present modes:", "    <1>", "    <22>", "    <333>"]);
    let none: [u8; 0] = [];
    assert_eq!(print_item_list(&logger, "Nothing", &none, |m| m.to_string()), vec!["Nothing:"]);
}

#[test]
fn item_list_of_a_quiet_logger() {
    let logger = Logger::new(LevelFilter::Trace);
    let lines = print_item_list(&logger, "Present modes", &[1, 2], |m| m.to_string());
    assert!(lines.is_empty());
}
