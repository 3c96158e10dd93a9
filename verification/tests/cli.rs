use csi_webserver::flash::{
    bind_address, canon_chip, espflash_args, parse_aliases, resolve_image, run_flash, Image,
};
use csi_webserver::text::{
    after_last_text, decimal_text, lower_text, parse_u32, sorted_texts, split_once_text,
    split_text, trim_text,
};

#[test]
fn chips_have_short_names() {
    for (name, target) in [
        ("esp32", "esp32"),
        ("c3", "esp32c3"),
        (" ESP32C3 ", "esp32c3"),
        ("C5", "esp32c5"),
        ("esp32c6", "esp32c6"),
        ("s3", "esp32s3"),
    ] {
        assert_eq!(canon_chip(name), Some(target));
        assert_eq!(canon_chip(target), Some(target));
    }
    assert_eq!(canon_chip("s2"), None);
    assert_eq!(canon_chip(""), None);
}

#[test]
fn a_named_image_wins() {
    let named = Some("/tmp/fw.bin".to_string());
    assert!(matches!(resolve_image("c6", &named).unwrap(),
        Image::Named(p) if p == "/tmp/fw.bin"));
    assert!(matches!(resolve_image("nope", &named).unwrap(), Image::Named(_)));
    assert!(matches!(resolve_image("c6", &None).unwrap(),
        Image::InFirmwareDir(f) if f == "esp-csi-cli-rs-esp32c6.bin"));
    assert_eq!(
        resolve_image("nope", &None).unwrap_err(),
        "Unknown chip 'nope' (use esp32, c3, c5, c6, or s3)"
    );
}

#[test]
fn flashing_needs_a_known_chip() {
    let plan = run_flash("s3", &None).unwrap();
    assert_eq!(plan.chip, "esp32s3");
    assert!(matches!(plan.image, Image::InFirmwareDir(f) if f == "esp-csi-cli-rs-esp32s3.bin"));
    assert_eq!(
        run_flash("x", &Some("fw.bin".to_string())).unwrap_err(),
        "Unknown chip 'x' (use esp32, c3, c5, c6, or s3)"
    );
    assert_eq!(
        espflash_args("/dev/ttyACM0", "esp32c6", "0x0"),
        vec!["write-bin", "--port", "/dev/ttyACM0", "--chip", "esp32c6", "0x0"]
    );
}

#[test]
fn aliases_are_split_at_the_first_equal_sign() {
    let specs: Vec<String> = ["lab1=/dev/ttyUSB0", "bad", "x=D0:CF=1", "=y"]
        .iter()
        .map(|s| s.to_string())
        .collect();
    let pairs = parse_aliases(&specs);
    assert_eq!(
        pairs,
        vec![
            ("lab1".to_string(), "/dev/ttyUSB0".to_string()),
            ("x".to_string(), "D0:CF=1".to_string()),
            (String::new(), "y".to_string()),
        ]
    );
}

#[test]
fn addresses_are_interface_and_port() {
    assert_eq!(bind_address("0.0.0.0", 3000), "0.0.0.0:3000");
    assert_eq!(bind_address("127.0.0.1", 0), "127.0.0.1:0");
}

#[test]
fn numbers_are_written_and_read() {
    for n in [0u64, 7, 10, 99, 100, 65_535, 4_294_967_295] {
        assert_eq!(decimal_text(n), n.to_string());
        assert_eq!(parse_u32(&decimal_text(n)), Some(n as u32));
    }
    assert_eq!(decimal_text(u64::MAX), u64::MAX.to_string());
    for s in ["", "+", "-1", "1.0", " 1", "1 ", "4294967296", "99999999999", "٣", "++1"] {
        assert_eq!(parse_u32(s), s.parse::<u32>().ok());
    }
    for s in ["+5", "007", "0", "4294967295"] {
        assert_eq!(parse_u32(s), s.parse::<u32>().ok());
        assert!(parse_u32(s).is_some());
    }
}

#[test]
fn text_is_cut_as_usual() {
    for s in ["", "  a b \t", "\u{2003}x\u{a0}", "\u{200b}y", "\r\nline\u{85}", "\u{feff}z "] {
        assert_eq!(trim_text(s), s.trim());
    }
    for s in ["", ",", "a", "a,b", ",a,,b,"] {
        let parts: Vec<&str> = s.split(',').collect();
        assert_eq!(split_text(s, ','), parts);
        assert_eq!(after_last_text(s, ','), s.rsplit(',').next().unwrap());
        let once = s.split_once(',').map(|(a, b)| (a.to_string(), b.to_string()));
        assert_eq!(split_once_text(s, ','), once);
    }
    assert_eq!(lower_text("ÄbC-Z"), "ÄbC-Z".to_ascii_lowercase());
}

#[test]
fn texts_are_sorted_like_strings() {
    let mut v: Vec<String> = ["b", "a", "ab", "", "ü", "Z", "a", "\u{10000}", "\u{ffff}"]
        .iter()
        .map(|s| s.to_string())
        .collect();
    let sorted = sorted_texts(v.clone());
    v.sort();
    assert_eq!(sorted, v);
}
