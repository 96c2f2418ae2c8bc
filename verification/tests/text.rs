use winit::decimal::{parse_i32_at, parse_u32_at, push_i32, push_u32};
use winit::split::{chars_of, split_ranges};

const SAMPLES: [&str; 26] = [
    "", "0", "7", "-7", "+7", "+", "-", "+-1", "-+1", "007", "-007", " 1", "1 ", "1a", "a1",
    "2147483647", "2147483648", "-2147483648", "-2147483649", "4294967295", "4294967296",
    "99999999999999999999", "-0", "+0", "١", "１",
];

fn piece(s: &str) -> String {
    s.to_string()
}

#[test]
fn parse_i32_agrees_with_std() {
    for s in SAMPLES {
        let chars: Vec<char> = s.chars().collect();
        assert_eq!(parse_i32_at(&chars, 0, chars.len()), s.parse::<i32>().ok(), "input {:?}", s);
    }
}

#[test]
fn parse_u32_agrees_with_std() {
    for s in SAMPLES {
        let chars: Vec<char> = s.chars().collect();
        assert_eq!(parse_u32_at(&chars, 0, chars.len()), s.parse::<u32>().ok(), "input {:?}", s);
    }
}

#[test]
fn parse_reads_a_range() {
    let chars: Vec<char> = "ab-42cd".chars().collect();
    assert_eq!(parse_i32_at(&chars, 2, 5), Some(-42));
    assert_eq!(parse_u32_at(&chars, 3, 5), Some(42));
    assert_eq!(parse_u32_at(&chars, 2, 5), None);
    assert_eq!(parse_i32_at(&chars, 3, 3), None);
}

#[test]
fn integers_written_as_display_writes_them() {
    for x in [0, 1, -1, 9, 10, -10, 12345, i32::MAX, i32::MIN] {
        let mut out = String::from("p:");
        push_i32(&mut out, x);
        assert_eq!(out, format!("p:{}", x));
    }
    for x in [0u32, 1, 9, 10, 100, 4000000000, u32::MAX] {
        let mut out = String::new();
        push_u32(&mut out, x);
        assert_eq!(out, x.to_string());
    }
}

#[test]
fn split_ranges_agree_with_std() {
    let texts = ["", "/", "a", "a/b", "//", "a/b/c/d/e/f/g/h", "ü/ß//€", "no separator"];
    for text in texts {
        let chars = chars_of(text);
        assert_eq!(chars, text.chars().collect::<Vec<char>>());
        for n in 0..8usize {
            let ranges = split_ranges(&chars, n, '/');
            let ours: Vec<String> = ranges
                .iter()
                .map(|&(lo, hi)| chars[lo..hi].iter().collect::<String>())
                .collect();
            let theirs: Vec<String> = text.splitn(n, '/').map(piece).collect();
            assert_eq!(ours, theirs, "text {:?}, n {}", text, n);
        }
    }
}

#[test]
fn split_pieces_join_back() {
    let text = "a/b/c/d";
    let chars = chars_of(text);
    let ranges = split_ranges(&chars, 3, '/');
    assert_eq!(ranges, vec![(0, 1), (2, 3), (4, 7)]);
    let joined: Vec<String> = ranges.iter().map(|&(lo, hi)| chars[lo..hi].iter().collect()).collect();
    assert_eq!(joined.join("/"), text);
}
