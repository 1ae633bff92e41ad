use patch_data::wpool::{
    build_input_data, calculation_for_input, format_uuid, generate_input_data, get_epoch_time, get_md5,
    get_random_number, random_uuid_string, InputData,
};

fn is_v4_text(s: &str) -> bool {
    let c: Vec<char> = s.chars().collect();
    if c.len() != 36 {
        return false;
    }
    for (i, ch) in c.iter().enumerate() {
        if [8, 13, 18, 23].contains(&i) {
            if *ch != '-' {
                return false;
            }
        } else if !(ch.is_ascii_digit() || ('a'..='f').contains(ch)) {
            return false;
        }
    }
    c[14] == '4' && ['8', '9', 'a', 'b'].contains(&c[19])
}

#[test]
fn input_text_form() {
    let input = InputData { epoch_time: 1234, uuid_data: "a0b1c2d3".to_string(), id: 1 };
    assert_eq!(input.to_string(), "1234_a0b1c2d3");
    let zero = InputData { epoch_time: 0, uuid_data: String::new(), id: 2 };
    assert_eq!(zero.to_string(), "0_");
    let max = InputData { epoch_time: u64::MAX, uuid_data: "u".to_string(), id: 3 };
    assert_eq!(max.to_string(), "18446744073709551615_u");
    let ten = InputData { epoch_time: 10, uuid_data: "u".to_string(), id: 4 };
    assert_eq!(ten.to_string(), "10_u");
}

#[test]
fn md5_of_text() {
    assert_eq!(get_md5("1234_a0b1c2d3".to_string()), "9f80fd56298db8390dbf112a6c9e8b93");
    assert_eq!(get_md5(String::new()), "d41d8cd98f00b204e9800998ecf8427e");
    assert_eq!(get_md5("0_x".to_string()), format!("{:x}", md5::compute("0_x")));
}

#[test]
fn calculation_is_md5_of_text_form() {
    let input = InputData { epoch_time: 1234, uuid_data: "a0b1c2d3".to_string(), id: 1 };
    assert_eq!(calculation_for_input(&input), "9f80fd56298db8390dbf112a6c9e8b93");
}

#[test]
fn uuid_formatting_matches_uuid_crate() {
    let bytes: Vec<u8> = (0u8..16).map(|i| i * 17).collect();
    let expected = uuid::Uuid::from_slice(&bytes).unwrap().to_string();
    assert_eq!(format_uuid(&bytes), expected);
    assert_eq!(format_uuid(&bytes), "00112233-4455-6677-8899-aabbccddeeff");
}

#[test]
fn random_uuid_is_v4_text() {
    for _ in 0..20 {
        let s = random_uuid_string();
        assert!(is_v4_text(&s), "{}", s);
        assert!(uuid::Uuid::parse_str(&s).is_ok());
    }
}

#[test]
fn random_number_in_range() {
    for _ in 0..100 {
        let n = get_random_number();
        assert!((2..5).contains(&n));
    }
}

#[test]
fn epoch_time_is_after_2020() {
    let t = get_epoch_time().unwrap();
    assert!(t > 1_600_000_000);
}

#[test]
fn sixteen_inputs() {
    let v = generate_input_data().unwrap();
    assert_eq!(v.len(), 16);
    for (k, item) in v.iter().enumerate() {
        assert_eq!(item.id, k as i32 + 1);
        assert!(is_v4_text(&item.uuid_data));
        assert!(item.epoch_time > 1_600_000_000);
    }
}

#[test]
fn inputs_from_readings() {
    let epochs = vec![5, 7, 9];
    let uuids = vec!["a".to_string(), "b".to_string(), "c".to_string()];
    let v = build_input_data(&epochs, &uuids);
    assert_eq!(v.len(), 3);
    assert_eq!(v[0], InputData { epoch_time: 5, uuid_data: "a".to_string(), id: 1 });
    assert_eq!(v[1], InputData { epoch_time: 7, uuid_data: "b".to_string(), id: 2 });
    assert_eq!(v[2], InputData { epoch_time: 9, uuid_data: "c".to_string(), id: 3 });
    assert!(build_input_data(&Vec::new(), &Vec::new()).is_empty());
}
