use editcore::apperr::Error;

#[test]
fn constructors_tag_the_code() {
    assert_eq!(Error::new_app(7), Error::App(7));
    assert_eq!(Error::new_icu(8), Error::Icu(8));
    assert_eq!(Error::new_sys(9), Error::Sys(9));
    assert_ne!(Error::new_app(1), Error::new_sys(1));
}
