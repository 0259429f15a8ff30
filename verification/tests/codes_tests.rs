use openfi_proto::codes::{code_from_draws, code_listing, code_step, draw_code, gen_code, CodeStep};
use openfi_proto::rejection::Rejection;
use openfi_proto::text::{same_text, to_ascii_uppercase};
use openfi_proto::types::RedeemableCode;

#[test]
fn generated_code_shape() {
    for _ in 0..20 {
        let code = gen_code(Some(true)).unwrap();
        assert_eq!(code.chars().count(), 10);
        assert!(code.chars().all(|c| c.is_ascii_digit() || c.is_ascii_uppercase()));
    }
}

#[test]
fn listing_upper_cases_codes() {
    let codes = vec![
        RedeemableCode { id: 1, code: b"ab1Zq9xyz0".to_vec(), kind: "TIME".to_owned(), units: 600 },
        RedeemableCode { id: 2, code: vec![0x61, 0xe9], kind: "DATA".to_owned(), units: 5 },
    ];
    let listing = code_listing(&codes);
    assert_eq!(listing.len(), 2);
    assert_eq!(listing[0].id, 1);
    assert_eq!(listing[0].code, "AB1ZQ9XYZ0");
    assert_eq!(listing[0].kind, "TIME");
    assert_eq!(listing[0].units, 600);
    assert_eq!(listing[1].code, "A\u{e9}");
}

#[test]
fn upper_case_bytes() {
    assert_eq!(to_ascii_uppercase(b'a'), b'A');
    assert_eq!(to_ascii_uppercase(b'z'), b'Z');
    assert_eq!(to_ascii_uppercase(b'Q'), b'Q');
    assert_eq!(to_ascii_uppercase(b'7'), b'7');
    assert_eq!(to_ascii_uppercase(to_ascii_uppercase(b'k')), b'K');
}

#[test]
fn text_comparison() {
    assert!(same_text("Authenticated", "Authenticated"));
    assert!(!same_text("Authenticated", "authenticated"));
    assert!(!same_text("ab", "abc"));
    assert!(same_text("", ""));
}

#[test]
fn generating_needs_admin_mark() {
    assert_eq!(gen_code(None), Err(Rejection::NotAdmin));
    assert!(gen_code(Some(false)).is_ok());
}

#[test]
fn code_from_drawn_bytes() {
    assert_eq!(code_from_draws(&b"aZ09xyQrst".to_vec()), "AZ09XYQRST");
    assert_eq!(code_from_draws(&Vec::new()), "");
}

#[test]
fn taken_code_is_drawn_again() {
    assert!(matches!(code_step("ABCDEFGHIJ".to_owned(), true, "TIME".to_owned(), 600), CodeStep::DrawAgain));
    match code_step("ABCDEFGHIJ".to_owned(), false, "TIME".to_owned(), 600) {
        CodeStep::Store(n) => {
            assert_eq!(n.code, "ABCDEFGHIJ");
            assert_eq!(n.kind, "TIME");
            assert_eq!(n.units, 600);
        },
        CodeStep::DrawAgain => panic!("a new code is stored"),
    }
}

#[test]
fn drawn_code_without_session() {
    let code = draw_code().unwrap();
    assert_eq!(code.len(), 10);
    assert!(code.chars().all(|c| c.is_ascii_digit() || c.is_ascii_uppercase()));
}
