use bybe_db::text::{str_contains, str_eq, str_starts_with, trim};

const SAMPLES: [&str; 9] = [
    "",
    "  2d6 ",
    "\t\n 3\u{3000}",
    "\u{85}\u{a0}x y\u{2028}",
    "\u{200b}z\u{200b}",
    "    ",
    "fire",
    "fireball",
    "ball of fire",
];

#[test]
fn trim_agrees_with_std() {
    for s in SAMPLES {
        assert_eq!(trim(s), s.trim(), "{s:?}");
    }
    assert_eq!(trim(" \u{1680}+4\u{205f}"), "+4");
}

#[test]
fn comparisons_agree_with_std() {
    for a in SAMPLES {
        for b in SAMPLES {
            assert_eq!(str_eq(a, b), a == b);
            assert_eq!(str_starts_with(a, b), a.starts_with(b), "{a:?} {b:?}");
            assert_eq!(str_contains(a, b), a.contains(b), "{a:?} {b:?}");
        }
    }
    assert!(str_contains("ball of fire", "fire"));
    assert!(!str_contains("fir", "fire"));
}
