use p2p_vpn::text::{dotted_quad, push_decimal, str_at_most};

#[test]
fn decimals_are_appended() {
    for n in [0u128, 7, 10, 99, 100, 4_294_967_295, u128::MAX] {
        let mut s = String::from("n=");
        push_decimal(&mut s, n);
        assert_eq!(s, format!("n={n}"));
    }
}

#[test]
fn quads_are_dotted() {
    assert_eq!(dotted_quad(10, 0, 0, 1), "10.0.0.1");
    assert_eq!(dotted_quad(192, 168, 10, 255), "192.168.10.255");
    assert_eq!(dotted_quad(0, 0, 0, 0), "0.0.0.0");
}

#[test]
fn order_is_that_of_strings() {
    let samples = ["", "0", "0.1.0", "0.10.0", "0.9.0", "1", "1.0", "а", "я", "\u{ffff}", "😀"];
    for a in samples {
        for b in samples {
            assert_eq!(str_at_most(a, b), a <= b);
        }
    }
}
